//! The library that stands for the code of a perf map.
//!
//! A perf map is a text that a process writes while it makes code at run time:
//! one line for each piece of code, with its address, its length and its name.
//! Such code belongs to no file, so a library is made up for it. In that library
//! the pieces of code lie one after another, in the order of the lines, whatever
//! their real addresses were.

use vstd::prelude::*;
use vstd::string::StringExecFns;
use crate::global_lib_table::{
    holds_library, library_position, symbol_views, with_library, GlobalLibTable, LibraryHandle,
};
use crate::lib_mappings::LibMappings;
use crate::library_info::{DebugIdentifier, LibraryInfo, LibraryInfoView};
use crate::perf_map_line::{chars_of, find_char, parse_line, parse_line_range, position_of};
use crate::text::{decimal_digits, decimal_text, string_from_chars};
use crate::ranges::{disjoint_ranges, lemma_with_mapping_disjoint, with_mapping, Mapping, RELATIVE_ADDRESS_LIMIT};

verus! {

/// A named piece of code in a library.
#[derive(Debug)]
pub struct Symbol {
    /// The relative address at which the code starts.
    pub address: u32,
    /// The length of the code, where it is known.
    pub size: Option<u32>,
    /// The name of the code.
    pub name: String,
}

/// A [`Symbol`] with its name as a sequence of characters.
pub struct SymbolView {
    pub address: u32,
    pub size: Option<u32>,
    pub name: Seq<char>,
}

impl View for Symbol {
    type V = SymbolView;

    open spec fn view(&self) -> SymbolView {
        SymbolView { address: self.address, size: self.size, name: self.name@ }
    }
}

impl SymbolView {
    /// The relative address just behind the code.
    pub open spec fn end(self) -> int {
        match self.size {
            Some(size) => self.address + size,
            None => self.address as int,
        }
    }
}

/// Something that remembers where code of a given name and length lay in an
/// earlier recording, so that the same code can be given the same place again.
pub trait FunctionRecycler {
    /// Is told the name and the length of a piece of code, and the library and
    /// relative address that it would get. Returns the library and relative
    /// address that it is to get.
    fn recycle(
        &mut self,
        name: &str,
        code_size: u32,
        lib_handle: LibraryHandle,
        relative_address: u32,
    ) -> (LibraryHandle, u32);
}

/// The recycler that remembers nothing: all code gets the place it would get
/// anyway.
pub struct NoRecycler;

impl FunctionRecycler for NoRecycler {
    fn recycle(
        &mut self,
        name: &str,
        code_size: u32,
        lib_handle: LibraryHandle,
        relative_address: u32,
    ) -> (placement: (LibraryHandle, u32))
        ensures
            placement == (lib_handle, relative_address),
    {
        (lib_handle, relative_address)
    }
}

/// The made-up library as the contracts see it.
pub struct JitLibraryView {
    /// The handle of the library.
    pub lib_handle: LibraryHandle,
    /// The pieces of code, in the order in which they came.
    pub symbols: Seq<SymbolView>,
    /// The relative address that the next piece of code gets.
    pub next_address: u32,
    /// Where the pieces of code really lay, and where each is found in a library.
    pub mappings: Set<Mapping<LibraryHandle>>,
}

/// The library before any code was added.
pub open spec fn empty_library(lib_handle: LibraryHandle) -> JitLibraryView {
    JitLibraryView { lib_handle, symbols: Seq::empty(), next_address: 0, mappings: Set::empty() }
}

/// Code of this length at this address can be added: its end is an address, and
/// behind the code that the library holds there is room for it.
pub open spec fn function_fits(next_address: u32, start_address: u64, length: u64) -> bool {
    start_address + length <= u64::MAX && next_address + length <= u32::MAX
}

/// The library and relative address that code of this length gets: those that
/// the recycler gave, where it gave any and the code has room there; else the
/// library itself and its next free address.
pub open spec fn placement(
    lib: JitLibraryView,
    length: u64,
    recycled: Option<(LibraryHandle, u32)>,
) -> (LibraryHandle, u32) {
    match recycled {
        Some((lib_handle, relative_address)) => if relative_address + length
            <= RELATIVE_ADDRESS_LIMIT {
            (lib_handle, relative_address)
        } else {
            (lib.lib_handle, lib.next_address)
        },
        None => (lib.lib_handle, lib.next_address),
    }
}

/// The library after code was added. The code gets a symbol at the next free
/// address, which moves on by the length of the code, and its real addresses are
/// mapped to its placement. Code that does not fit is left out.
pub open spec fn with_function(
    lib: JitLibraryView,
    start_address: u64,
    length: u64,
    name: Seq<char>,
    recycled: Option<(LibraryHandle, u32)>,
) -> JitLibraryView {
    if function_fits(lib.next_address, start_address, length) {
        JitLibraryView {
            lib_handle: lib.lib_handle,
            symbols: lib.symbols.push(
                SymbolView { address: lib.next_address, size: Some(length as u32), name },
            ),
            next_address: (lib.next_address + length) as u32,
            mappings: with_mapping(
                lib.mappings,
                Mapping {
                    start_avma: start_address,
                    end_avma: (start_address + length) as u64,
                    relative_address_at_start: placement(lib, length, recycled).1,
                    value: placement(lib, length, recycled).0,
                },
            ),
        }
    } else {
        lib
    }
}

/// A line without the carriage return that it may end with.
pub open spec fn without_carriage_return(line: Seq<char>) -> Seq<char> {
    if line.len() > 0 && line.last() == '\r' {
        line.drop_last()
    } else {
        line
    }
}

/// The lines of a text. A line ends at a line feed, or at a carriage return
/// followed by a line feed; neither belongs to the line. The last line need not
/// be ended, and is then taken as it is.
pub open spec fn lines_of(content: Seq<char>) -> Seq<Seq<char>>
    decreases content.len(),
{
    if content.len() == 0 {
        Seq::empty()
    } else {
        let end = position_of(content, '\n');
        if 0 <= end < content.len() {
            seq![without_carriage_return(content.take(end))] + lines_of(content.skip(end + 1))
        } else {
            seq![content]
        }
    }
}

/// What the recycler gave when there was none: nothing, for each of `n` lines.
pub open spec fn no_recycling(n: nat) -> Seq<Option<(LibraryHandle, u32)>> {
    Seq::new(n, |i: int| None)
}

/// The library that the lines of a perf map give. `recycled` holds, line by line,
/// what the recycler gave for the code of that line. A line that says nothing is
/// passed over, and so is code that does not fit.
pub open spec fn loaded(
    lib_handle: LibraryHandle,
    lines: Seq<Seq<char>>,
    recycled: Seq<Option<(LibraryHandle, u32)>>,
) -> JitLibraryView
    decreases lines.len(),
{
    if lines.len() == 0 {
        empty_library(lib_handle)
    } else {
        let before = loaded(lib_handle, lines.drop_last(), recycled.drop_last());
        match parse_line(lines.last()) {
            Some((start_address, length, name)) => with_function(
                before,
                start_address,
                length,
                name,
                recycled.last(),
            ),
            None => before,
        }
    }
}

/// What a recycler is asked about a piece of code: the name and the length of
/// the code, and the library and relative address that it would get.
pub struct RecycleRequest {
    pub name: Seq<char>,
    pub code_size: u32,
    pub lib_handle: LibraryHandle,
    pub relative_address: u32,
}

/// What the recycler is asked when `line` comes to the library `lib`: where the
/// line names code that fits, that code with the library itself and its next
/// free address; else nothing.
pub open spec fn request_for(lib: JitLibraryView, line: Seq<char>) -> Option<RecycleRequest> {
    match parse_line(line) {
        Some((start_address, length, name)) => if function_fits(
            lib.next_address,
            start_address,
            length,
        ) {
            Some(
                RecycleRequest {
                    name,
                    code_size: length as u32,
                    lib_handle: lib.lib_handle,
                    relative_address: lib.next_address,
                },
            )
        } else {
            None
        },
        None => None,
    }
}

/// What the recycler is asked at the line `i` of a perf map, counted from zero:
/// what that line asks of the library that the lines before it have given.
pub open spec fn request_at(
    lib_handle: LibraryHandle,
    lines: Seq<Seq<char>>,
    recycled: Seq<Option<(LibraryHandle, u32)>>,
    i: int,
) -> Option<RecycleRequest> {
    request_for(loaded(lib_handle, lines.take(i), recycled.take(i)), lines[i])
}

/// What the recycler is asked, line by line, when the lines of a perf map come
/// in order and `recycled` is what it says.
pub open spec fn requests(
    lib_handle: LibraryHandle,
    lines: Seq<Seq<char>>,
    recycled: Seq<Option<(LibraryHandle, u32)>>,
) -> Seq<Option<RecycleRequest>> {
    Seq::new(lines.len(), |i: int| request_at(lib_handle, lines, recycled, i))
}

/// One more line asks of the library that the earlier lines have given, and
/// leaves what the earlier lines asked as it was.
pub proof fn lemma_requests_push(
    lib_handle: LibraryHandle,
    lines: Seq<Seq<char>>,
    recycled: Seq<Option<(LibraryHandle, u32)>>,
    line: Seq<char>,
    said: Option<(LibraryHandle, u32)>,
)
    requires
        recycled.len() == lines.len(),
    ensures
        requests(lib_handle, lines.push(line), recycled.push(said)) == requests(
            lib_handle,
            lines,
            recycled,
        ).push(request_for(loaded(lib_handle, lines, recycled), line)),
{
    let more_lines = lines.push(line);
    let more_said = recycled.push(said);
    let left = requests(lib_handle, more_lines, more_said);
    let right = requests(lib_handle, lines, recycled).push(
        request_for(loaded(lib_handle, lines, recycled), line),
    );
    assert forall|i: int| 0 <= i < left.len() implies left[i] == right[i] by {
        if i < lines.len() {
            assert(more_lines.take(i) =~= lines.take(i));
            assert(more_said.take(i) =~= recycled.take(i));
        } else {
            assert(more_lines.take(i) =~= lines);
            assert(more_said.take(i) =~= recycled);
        }
    }
    assert(left =~= right);
}

/// Each symbol ends where the next one starts or before, and the last one ends at
/// the next free address or before: the symbols lie in ascending order and do
/// not overlap.
pub open spec fn ascending_symbols(symbols: Seq<SymbolView>, next_address: u32) -> bool {
    &&& forall|i: int, j: int|
        0 <= i < j < symbols.len() ==> (#[trigger] symbols[i]).end() <= (
        #[trigger] symbols[j]).address
    &&& forall|i: int| 0 <= i < symbols.len() ==> (#[trigger] symbols[i]).end() <= next_address
}

/// The symbols lie one after another without gaps: the first starts at zero,
/// each starts where the one before it ends, and the last ends at the next free
/// address. Each has a length.
pub open spec fn consecutive_symbols(symbols: Seq<SymbolView>, next_address: u32) -> bool {
    &&& forall|i: int| 0 <= i < symbols.len() ==> (#[trigger] symbols[i]).size is Some
    &&& forall|i: int|
        0 <= i < symbols.len() ==> (#[trigger] symbols[i]).address == if i == 0 {
            0
        } else {
            symbols[i - 1].end()
        }
    &&& next_address == if symbols.len() == 0 {
        0
    } else {
        symbols.last().end()
    }
}

/// Adding code keeps the symbols in ascending order and without gaps, and the
/// mapped ranges disjoint, wherever the code really lay and whatever the
/// recycler gave.
pub proof fn lemma_with_function_keeps_order(
    lib: JitLibraryView,
    start_address: u64,
    length: u64,
    name: Seq<char>,
    recycled: Option<(LibraryHandle, u32)>,
)
    requires
        ascending_symbols(lib.symbols, lib.next_address),
        consecutive_symbols(lib.symbols, lib.next_address),
        disjoint_ranges(lib.mappings),
    ensures
        ascending_symbols(
            with_function(lib, start_address, length, name, recycled).symbols,
            with_function(lib, start_address, length, name, recycled).next_address,
        ),
        consecutive_symbols(
            with_function(lib, start_address, length, name, recycled).symbols,
            with_function(lib, start_address, length, name, recycled).next_address,
        ),
        disjoint_ranges(with_function(lib, start_address, length, name, recycled).mappings),
        with_function(lib, start_address, length, name, recycled).lib_handle == lib.lib_handle,
{
    if function_fits(lib.next_address, start_address, length) {
        let after = with_function(lib, start_address, length, name, recycled);
        let added = Mapping {
            start_avma: start_address,
            end_avma: (start_address + length) as u64,
            relative_address_at_start: placement(lib, length, recycled).1,
            value: placement(lib, length, recycled).0,
        };
        lemma_with_mapping_disjoint(lib.mappings, added);
        assert forall|i: int, j: int| 0 <= i < j < after.symbols.len() implies (
        #[trigger] after.symbols[i]).end() <= (#[trigger] after.symbols[j]).address by {
            if j < lib.symbols.len() {
                assert(lib.symbols[i].end() <= lib.symbols[j].address);
            } else {
                assert(lib.symbols[i].end() <= lib.next_address);
            }
        }
        assert forall|i: int| 0 <= i < after.symbols.len() implies (
        #[trigger] after.symbols[i]).end() <= after.next_address by {
            if i < lib.symbols.len() {
                assert(lib.symbols[i].end() <= lib.next_address);
            }
        }
        assert forall|i: int| 0 <= i < after.symbols.len() implies (
        #[trigger] after.symbols[i]).address == if i == 0 {
            0
        } else {
            after.symbols[i - 1].end()
        } by {
            if i < lib.symbols.len() {
                assert(lib.symbols[i].address == if i == 0 {
                    0
                } else {
                    lib.symbols[i - 1].end()
                });
            }
        }
        assert forall|i: int| 0 <= i < after.symbols.len() implies (
        #[trigger] after.symbols[i]).size is Some by {
            if i < lib.symbols.len() {
                assert(lib.symbols[i].size is Some);
            }
        }
    }
}

/// In the library that a perf map gives, the symbols lie in ascending order,
/// without gaps and without overlap, and the mapped ranges are disjoint: two
/// pieces of code get relative addresses apart from each other even where their
/// real addresses overlap.
pub proof fn lemma_loaded_keeps_order(
    lib_handle: LibraryHandle,
    lines: Seq<Seq<char>>,
    recycled: Seq<Option<(LibraryHandle, u32)>>,
)
    ensures
        ascending_symbols(
            loaded(lib_handle, lines, recycled).symbols,
            loaded(lib_handle, lines, recycled).next_address,
        ),
        consecutive_symbols(
            loaded(lib_handle, lines, recycled).symbols,
            loaded(lib_handle, lines, recycled).next_address,
        ),
        disjoint_ranges(loaded(lib_handle, lines, recycled).mappings),
        loaded(lib_handle, lines, recycled).lib_handle == lib_handle,
    decreases lines.len(),
{
    if lines.len() > 0 {
        lemma_loaded_keeps_order(lib_handle, lines.drop_last(), recycled.drop_last());
        let before = loaded(lib_handle, lines.drop_last(), recycled.drop_last());
        if let Some((start_address, length, name)) = parse_line(lines.last()) {
            lemma_with_function_keeps_order(before, start_address, length, name, recycled.last());
        }
    }
}

/// The symbols and the next free address do not depend on what the recycler
/// gives: it chooses where code is found, not where its symbol lies.
pub proof fn lemma_symbols_without_recycler(
    lib_handle: LibraryHandle,
    lines: Seq<Seq<char>>,
    recycled: Seq<Option<(LibraryHandle, u32)>>,
)
    ensures
        loaded(lib_handle, lines, recycled).symbols == loaded(
            lib_handle,
            lines,
            no_recycling(lines.len()),
        ).symbols,
        loaded(lib_handle, lines, recycled).next_address == loaded(
            lib_handle,
            lines,
            no_recycling(lines.len()),
        ).next_address,
    decreases lines.len(),
{
    if lines.len() > 0 {
        assert(no_recycling(lines.len()).drop_last() =~= no_recycling(lines.drop_last().len()));
        lemma_symbols_without_recycler(lib_handle, lines.drop_last(), recycled.drop_last());
    }
}

/// The name of the perf map of the process `pid`: `perf-`, the process id in
/// decimal digits, and `.map`.
pub open spec fn perf_map_name_text(pid: u32) -> Seq<char> {
    "perf-"@ + decimal_text(pid as nat) + ".map"@
}

/// The path of the perf map of the process `pid`: its name, in `/tmp`.
pub open spec fn perf_map_path_text(pid: u32) -> Seq<char> {
    "/tmp/"@ + perf_map_name_text(pid)
}

/// The description of the library that stands for the code of the perf map of
/// the process `pid`. It is named after the perf map, and it has no identifiers.
pub open spec fn perf_map_library_view(pid: u32) -> LibraryInfoView {
    LibraryInfoView {
        name: perf_map_name_text(pid),
        debug_name: perf_map_name_text(pid),
        path: perf_map_path_text(pid),
        debug_path: perf_map_path_text(pid),
        debug_id: DebugIdentifier { uuid: 0, appendix: 0, is_pdb20: false },
        code_id: None,
        arch: None,
    }
}

/// The name of the perf map of the process `pid`.
pub fn perf_map_name(pid: u32) -> (name: String)
    ensures
        name@ == perf_map_name_text(pid),
{
    let digits = decimal_digits(pid as u64);
    proof {
        assert(digits@.subrange(0, digits.len() as int) =~= digits@);
    }
    let number = string_from_chars(digits.as_slice(), 0, digits.len());
    let mut name = String::from_str("perf-");
    name.append(number.as_str());
    name.append(".map");
    name
}

/// The path of the perf map of the process `pid`.
pub fn perf_map_path(pid: u32) -> (path: String)
    ensures
        path@ == perf_map_path_text(pid),
{
    let name = perf_map_name(pid);
    let mut path = String::from_str("/tmp/");
    path.append(name.as_str());
    path
}

/// The description of the library that stands for the code of the perf map of
/// the process `pid`.
pub fn perf_map_library(pid: u32) -> (lib: LibraryInfo)
    ensures
        lib@ == perf_map_library_view(pid),
{
    let name = perf_map_name(pid);
    let path = perf_map_path(pid);
    LibraryInfo {
        debug_name: name.clone(),
        name,
        debug_path: path.clone(),
        path,
        debug_id: DebugIdentifier::nil(),
        code_id: None,
        arch: None,
    }
}

/// A library made up for code that belongs to no file, with the symbols of that
/// code and the ranges at which it really lay.
pub struct JitLibrary {
    lib_handle: LibraryHandle,
    symbols: Vec<Symbol>,
    mappings: LibMappings<LibraryHandle>,
    cumulative_address: u32,
}

impl View for JitLibrary {
    type V = JitLibraryView;

    closed spec fn view(&self) -> JitLibraryView {
        JitLibraryView {
            lib_handle: self.lib_handle,
            symbols: Seq::new(self.symbols.len() as nat, |i: int| self.symbols[i]@),
            next_address: self.cumulative_address,
            mappings: self.mappings@,
        }
    }
}

impl JitLibrary {
    /// The invariant of the type: the mapped ranges do not overlap.
    pub closed spec fn wf(&self) -> bool {
        self.mappings.wf()
    }

    /// The ranges of a well-formed library are disjoint.
    pub proof fn lemma_disjoint(&self)
        requires
            self.wf(),
        ensures
            disjoint_ranges(self@.mappings),
    {
        self.mappings.lemma_disjoint();
    }

    /// The library `lib_handle`, without code.
    pub fn new(lib_handle: LibraryHandle) -> (lib: Self)
        ensures
            lib.wf(),
            lib@ == empty_library(lib_handle),
    {
        let lib = JitLibrary {
            lib_handle,
            symbols: Vec::new(),
            mappings: LibMappings::new(),
            cumulative_address: 0,
        };
        assert(lib@.symbols =~= Seq::<SymbolView>::empty());
        lib
    }

    /// The handle of the library.
    pub fn lib_handle(&self) -> (h: LibraryHandle)
        ensures
            h == self@.lib_handle,
    {
        self.lib_handle
    }

    /// The relative address that the next piece of code gets.
    pub fn next_address(&self) -> (a: u32)
        ensures
            a == self@.next_address,
    {
        self.cumulative_address
    }

    /// The number of symbols.
    pub fn symbol_count(&self) -> (n: usize)
        ensures
            n == self@.symbols.len(),
    {
        self.symbols.len()
    }

    /// The `i`-th symbol, counted from zero.
    pub fn symbol(&self, i: usize) -> (symbol: &Symbol)
        requires
            i < self@.symbols.len(),
        ensures
            symbol@ == self@.symbols[i as int],
    {
        &self.symbols[i]
    }

    /// The ranges at which the code really lay.
    pub fn mappings(&self) -> (mappings: &LibMappings<LibraryHandle>)
        ensures
            mappings@ == self@.mappings,
            mappings.wf() == self.wf(),
    {
        &self.mappings
    }

    /// Takes the library apart: its handle, its symbols, and the ranges at which
    /// the code really lay.
    pub fn into_parts(self) -> (parts: (LibraryHandle, Vec<Symbol>, LibMappings<LibraryHandle>))
        ensures
            parts.0 == self@.lib_handle,
            parts.1@.len() == self@.symbols.len(),
            forall|i: int| 0 <= i < parts.1@.len() ==> (#[trigger] parts.1@[i])@ == self@.symbols[i],
            parts.2@ == self@.mappings,
            parts.2.wf() == self.wf(),
    {
        (self.lib_handle, self.symbols, self.mappings)
    }

    /// Whether code of this length at this address can be added.
    pub fn accepts(&self, start_address: u64, length: u64) -> (b: bool)
        ensures
            b == function_fits(self@.next_address, start_address, length),
    {
        length <= u64::MAX - start_address && length <= (u32::MAX - self.cumulative_address) as u64
    }

    /// Adds the code `name`, which really lay at `length` addresses from
    /// `start_address` on. `recycled` is what the recycler gave for it, if there
    /// is a recycler. Returns whether the code was added: code that does not fit
    /// is left out.
    pub fn add_function(
        &mut self,
        start_address: u64,
        length: u64,
        name: String,
        recycled: Option<(LibraryHandle, u32)>,
    ) -> (added: bool)
        requires
            old(self).wf(),
        ensures
            final(self).wf(),
            final(self)@ == with_function(old(self)@, start_address, length, name@, recycled),
            added == function_fits(old(self)@.next_address, start_address, length),
    {
        if !self.accepts(start_address, length) {
            return false;
        }
        let code_size: u32 = length as u32;
        let relative_address = self.cumulative_address;
        let (lib_handle, relative_address_at_start) = match recycled {
            Some((lib_handle, recycled_address)) => if recycled_address as u64 + length
                <= RELATIVE_ADDRESS_LIMIT {
                (lib_handle, recycled_address)
            } else {
                (self.lib_handle, relative_address)
            },
            None => (self.lib_handle, relative_address),
        };
        let ghost symbols_before = self@.symbols;
        self.cumulative_address = relative_address + code_size;
        self.symbols.push(Symbol { address: relative_address, size: Some(code_size), name });
        self.mappings.add_mapping(
            start_address,
            start_address + length,
            relative_address_at_start,
            lib_handle,
        );
        proof {
            assert(self@.symbols =~= symbols_before.push(
                SymbolView { address: relative_address, size: Some(code_size), name: name@ },
            ));
        }
        true
    }
}

/// Where the line that starts at `pos` ends, and where the next line starts.
fn line_bounds(chars: &[char], pos: usize) -> (bounds: (usize, usize))
    requires
        pos < chars.len(),
    ensures
        pos <= bounds.0 <= bounds.1 <= chars.len(),
        pos < bounds.1,
        lines_of(chars@.skip(pos as int)) == seq![
            chars@.subrange(pos as int, bounds.0 as int),
        ] + lines_of(chars@.skip(bounds.1 as int)),
{
    let n = chars.len();
    let newline = find_char(chars, pos, n, '\n');
    let (end, next) = if newline < n {
        if newline > pos && chars[newline - 1] == '\r' {
            (newline - 1, newline + 1)
        } else {
            (newline, newline + 1)
        }
    } else {
        (n, n)
    };
    proof {
        let line = chars@.subrange(pos as int, end as int);
        let rest = chars@.skip(pos as int);
        assert(rest =~= chars@.subrange(pos as int, n as int));
        if newline < n {
            let raw = rest.take(newline - pos);
            assert(raw =~= chars@.subrange(pos as int, newline as int));
            if newline > pos {
                assert(raw.last() == chars[newline - 1]);
            }
            assert(without_carriage_return(raw) =~= line);
            assert(rest.skip(newline - pos + 1) =~= chars@.skip(next as int));
        } else {
            assert(line =~= rest);
            assert(chars@.skip(next as int).len() == 0);
        }
        assert(lines_of(rest) =~= seq![line] + lines_of(chars@.skip(next as int)));
    }
    (end, next)
}

/// Asks the recycler about a piece of code.
fn ask<R: FunctionRecycler>(
    recycler: &mut R,
    name: &str,
    code_size: u32,
    lib_handle: LibraryHandle,
    relative_address: u32,
) -> (placement: (LibraryHandle, u32))
    ensures
        exists|m: &mut R, n: &str|
            #![trigger call_ensures(R::recycle, (m, n, code_size, lib_handle, relative_address), placement)]
            mut_ref_current(m) == *old(recycler) && mut_ref_future(m) == *final(recycler) && n@
                == name@ && call_ensures(
                R::recycle,
                (m, n, code_size, lib_handle, relative_address),
                placement,
            ),
{
    recycler.recycle(name, code_size, lib_handle, relative_address)
}

/// Assembles the library `lib_handle` from the text of a perf map, without a
/// recycler: each line that names a piece of code adds that code, in the order
/// of the lines, and the code is found where its symbol lies.
pub fn load_perf_map(lib_handle: LibraryHandle, text: &str) -> (lib: JitLibrary)
    ensures
        lib.wf(),
        lib@.lib_handle == lib_handle,
        lib@ == loaded(lib_handle, lines_of(text@), no_recycling(lines_of(text@).len())),
{
    let chars = chars_of(text);
    let n = chars.len();
    let mut lib = JitLibrary::new(lib_handle);
    let mut pos: usize = 0;
    let ghost mut done: Seq<Seq<char>> = Seq::empty();
    proof {
        assert(chars@.skip(0) =~= chars@);
        assert(done + lines_of(chars@.skip(0)) =~= lines_of(text@));
        assert(no_recycling(0) =~= Seq::<Option<(LibraryHandle, u32)>>::empty());
    }
    while pos < n
        invariant
            pos <= n == chars.len(),
            chars@ == text@,
            lib.wf(),
            lib@.lib_handle == lib_handle,
            lib@ == loaded(lib_handle, done, no_recycling(done.len())),
            lines_of(text@) == done + lines_of(chars@.skip(pos as int)),
        decreases n - pos,
    {
        let (end, next) = line_bounds(chars.as_slice(), pos);
        let ghost line = chars@.subrange(pos as int, end as int);
        match parse_line_range(chars.as_slice(), pos, end) {
            Some((start_address, length, name_start)) => {
                let name = string_from_chars(chars.as_slice(), name_start, end);
                lib.add_function(start_address, length, name, None);
            },
            None => {},
        }
        proof {
            let lines = done.push(line);
            assert(lines.drop_last() =~= done);
            assert(no_recycling(lines.len()).drop_last() =~= no_recycling(done.len()));
            assert(lines + lines_of(chars@.skip(next as int)) =~= done + (seq![line] + lines_of(
                chars@.skip(next as int),
            )));
            done = lines;
        }
        pos = next;
    }
    proof {
        assert(lines_of(chars@.skip(pos as int)) =~= Seq::<Seq<char>>::empty());
        assert(done =~= lines_of(text@));
    }
    lib
}

/// Assembles the library `lib_handle` from the text of a perf map, with a
/// recycler. Each line that names a piece of code that fits adds that code, in
/// the order of the lines. For each such piece of code the recycler is asked
/// once, with the name and the length of the code, the library and the next
/// free address, and the code is found where the recycler says. For the other
/// lines the recycler is not asked.
///
/// In the contract, `recycled` holds for each line what the recycler said, and
/// `states` holds the recycler as it was before each line and after the last.
/// Where a line asks, what the recycler said is an answer that its own contract
/// gives to that question in the state it was in, and the answer leaves it in
/// the next state; where a line does not ask, the recycler stays as it is.
pub fn load_perf_map_recycling<R: FunctionRecycler>(
    lib_handle: LibraryHandle,
    text: &str,
    recycler: &mut R,
) -> (lib: JitLibrary)
    ensures
        lib.wf(),
        lib@.lib_handle == lib_handle,
        exists|recycled: Seq<Option<(LibraryHandle, u32)>>, states: Seq<R>|
            #![trigger recycled.len(), states.len()]
            recycled.len() == lines_of(text@).len() && states.len() == lines_of(text@).len() + 1
                && states[0] == *old(recycler) && states.last() == *final(recycler) && lib@
                == loaded(lib_handle, lines_of(text@), recycled) && forall|i: int|
                #![trigger recycled[i]]
                0 <= i < lines_of(text@).len() ==> match requests(
                    lib_handle,
                    lines_of(text@),
                    recycled,
                )[i] {
                    Some(asked) => recycled[i] is Some && exists|m: &mut R, n: &str|
                        #![trigger call_ensures(R::recycle, (m, n, asked.code_size, asked.lib_handle, asked.relative_address), recycled[i]->0)]
                        mut_ref_current(m) == states[i] && mut_ref_future(m) == states[i + 1]
                            && n@ == asked.name && call_ensures(
                            R::recycle,
                            (m, n, asked.code_size, asked.lib_handle, asked.relative_address),
                            recycled[i]->0,
                        ),
                    None => recycled[i] is None && states[i + 1] == states[i],
                },
{
    let chars = chars_of(text);
    let n = chars.len();
    let mut lib = JitLibrary::new(lib_handle);
    let mut pos: usize = 0;
    let ghost mut done: Seq<Seq<char>> = Seq::empty();
    let ghost mut given: Seq<Option<(LibraryHandle, u32)>> = Seq::empty();
    let ghost mut states: Seq<R> = seq![*recycler];
    let ghost mut asked: Seq<Option<RecycleRequest>> = Seq::empty();
    proof {
        assert(chars@.skip(0) =~= chars@);
        assert(done + lines_of(chars@.skip(0)) =~= lines_of(text@));
        assert(asked =~= requests(lib_handle, done, given));
    }
    while pos < n
        invariant
            pos <= n == chars.len(),
            chars@ == text@,
            lib.wf(),
            lib@ == loaded(lib_handle, done, given),
            lib@.lib_handle == lib_handle,
            given.len() == done.len(),
            asked.len() == done.len(),
            states.len() == done.len() + 1,
            states[0] == *old(recycler),
            states.last() == *recycler,
            lines_of(text@) == done + lines_of(chars@.skip(pos as int)),
            asked == requests(lib_handle, done, given),
            forall|i: int|
                #![trigger given[i]]
                0 <= i < done.len() ==> match asked[i] {
                    Some(a) => given[i] is Some && exists|m: &mut R, n: &str|
                        #![trigger call_ensures(R::recycle, (m, n, a.code_size, a.lib_handle, a.relative_address), given[i]->0)]
                        mut_ref_current(m) == states[i] && mut_ref_future(m) == states[i + 1]
                            && n@ == a.name && call_ensures(
                            R::recycle,
                            (m, n, a.code_size, a.lib_handle, a.relative_address),
                            given[i]->0,
                        ),
                    None => given[i] is None && states[i + 1] == states[i],
                },
        decreases n - pos,
    {
        let (end, next) = line_bounds(chars.as_slice(), pos);
        let ghost line = chars@.subrange(pos as int, end as int);
        let ghost lib_before = lib@;
        let ghost done_before = done;
        let ghost given_before = given;
        let ghost states_before = states;
        let ghost asked_before = asked;
        let recycled = match parse_line_range(chars.as_slice(), pos, end) {
            Some((start_address, length, name_start)) => {
                if lib.accepts(start_address, length) {
                    let name = string_from_chars(chars.as_slice(), name_start, end);
                    let code_size: u32 = length as u32;
                    let relative_address = lib.next_address();
                    let placement = ask(
                        recycler,
                        name.as_str(),
                        code_size,
                        lib_handle,
                        relative_address,
                    );
                    proof {
                        assert(request_for(lib_before, line) == Some(
                            RecycleRequest { name: name@, code_size, lib_handle, relative_address },
                        ));
                        let a = request_for(lib_before, line)->0;
                        let said = Some(placement);
                        let (m0, n0) = choose|m: &mut R, n: &str|
                            #![trigger call_ensures(R::recycle, (m, n, code_size, lib_handle, relative_address), placement)]
                            mut_ref_current(m) == states_before.last() && mut_ref_future(m)
                                == *recycler && n@ == name@ && call_ensures(
                                R::recycle,
                                (m, n, code_size, lib_handle, relative_address),
                                placement,
                            );
                        assert(a.code_size == code_size && a.lib_handle == lib_handle
                            && a.relative_address == relative_address && a.name == name@
                            && said->0 == placement);
                        assert(call_ensures(
                            R::recycle,
                            (m0, n0, a.code_size, a.lib_handle, a.relative_address),
                            said->0,
                        ));
                        assert(exists|m: &mut R, n: &str|
                            #![trigger call_ensures(R::recycle, (m, n, a.code_size, a.lib_handle, a.relative_address), said->0)]
                            mut_ref_current(m) == states_before.last() && mut_ref_future(m)
                                == *recycler && n@ == a.name && call_ensures(
                                R::recycle,
                                (m, n, a.code_size, a.lib_handle, a.relative_address),
                                said->0,
                            ));
                    }
                    lib.add_function(start_address, length, name, Some(placement));
                    Some(placement)
                } else {
                    None
                }
            },
            None => None,
        };
        proof {
            let now = request_for(lib_before, line);
            match now {
                Some(a) => {
                    assert(recycled is Some);
                    assert(exists|m: &mut R, n: &str|
                        #![trigger call_ensures(R::recycle, (m, n, a.code_size, a.lib_handle, a.relative_address), recycled->0)]
                        mut_ref_current(m) == states_before.last() && mut_ref_future(m)
                            == *recycler && n@ == a.name && call_ensures(
                            R::recycle,
                            (m, n, a.code_size, a.lib_handle, a.relative_address),
                            recycled->0,
                        ));
                },
                None => {
                    assert(recycled is None);
                    assert(*recycler == states_before.last());
                },
            }
            lemma_requests_push(lib_handle, done_before, given_before, line, recycled);
            done = done_before.push(line);
            given = given_before.push(recycled);
            states = states_before.push(*recycler);
            asked = asked_before.push(now);
            let k = done_before.len() as int;
            assert(done.drop_last() =~= done_before);
            assert(given.drop_last() =~= given_before);
            assert(done + lines_of(chars@.skip(next as int)) =~= done_before + (seq![line]
                + lines_of(chars@.skip(next as int))));
            assert forall|i: int| #![trigger given[i]] 0 <= i < done.len() implies match asked[i] {
                Some(a) => given[i] is Some && exists|m: &mut R, n: &str|
                    #![trigger call_ensures(R::recycle, (m, n, a.code_size, a.lib_handle, a.relative_address), given[i]->0)]
                    mut_ref_current(m) == states[i] && mut_ref_future(m) == states[i + 1] && n@
                        == a.name && call_ensures(
                        R::recycle,
                        (m, n, a.code_size, a.lib_handle, a.relative_address),
                        given[i]->0,
                    ),
                None => given[i] is None && states[i + 1] == states[i],
            } by {
                if i < k {
                    assert(given[i] == given_before[i]);
                    assert(asked[i] == asked_before[i]);
                    assert(states[i] == states_before[i]);
                    assert(states[i + 1] == states_before[i + 1]);
                } else {
                    assert(given[i] == recycled);
                    assert(asked[i] == now);
                    assert(states[i] == states_before.last());
                    assert(states[i + 1] == *recycler);
                }
            }
        }
        pos = next;
    }
    proof {
        assert(lines_of(chars@.skip(pos as int)) =~= Seq::<Seq<char>>::empty());
        assert(done =~= lines_of(text@));
        assert(given.len() == lines_of(text@).len() && states.len() == lines_of(text@).len() + 1);
    }
    lib
}

/// Assembles the library for the code of the perf map of the process `pid`.
/// `content` is the text of the perf map, or `None` where the process wrote
/// none; then no library is made and nothing changes.
///
/// The library is interned in `global_libs` under the name of the perf map, and
/// assembled by [`load_perf_map_recycling`] where there is a `recycler`, by
/// [`load_perf_map`] where there is none. Its symbols are not stored yet: they
/// come back with the library.
pub fn assemble_perf_map<R: FunctionRecycler>(
    pid: u32,
    content: Option<&str>,
    global_libs: &mut GlobalLibTable,
    recycler: Option<&mut R>,
) -> (library: Option<JitLibrary>)
    requires
        old(global_libs).wf(),
    ensures
        final(global_libs).wf(),
        final(global_libs).used() == old(global_libs).used(),
        final(global_libs).used_names() == old(global_libs).used_names(),
        content is None ==> library is None && final(global_libs).libs() == old(global_libs).libs()
            && final(global_libs).symbol_tables() == old(global_libs).symbol_tables(),
        content is Some ==> library is Some && final(global_libs).libs() == with_library(
            old(global_libs).libs(),
            perf_map_library_view(pid),
        ) && final(global_libs).symbol_tables() == if holds_library(
            old(global_libs).libs(),
            perf_map_library_view(pid),
        ) {
            old(global_libs).symbol_tables()
        } else {
            old(global_libs).symbol_tables().push(None)
        },
        library matches Some(lib) ==> lib.wf() && final(global_libs).has_handle(lib@.lib_handle)
            && lib@.lib_handle.index() == library_position(
            old(global_libs).libs(),
            perf_map_library_view(pid),
        ),
        content is None ==> (recycler matches Some(r) ==> mut_ref_future(r) == mut_ref_current(r)),
        match (content, library, recycler) {
            (Some(text), Some(lib), None) => lib@ == loaded(
                lib@.lib_handle,
                lines_of(text@),
                no_recycling(lines_of(text@).len()),
            ),
            (Some(text), Some(lib), Some(r)) => exists|
                recycled: Seq<Option<(LibraryHandle, u32)>>,
                states: Seq<R>,
            |
                #![trigger recycled.len(), states.len()]
                recycled.len() == lines_of(text@).len() && states.len() == lines_of(text@).len()
                    + 1 && states[0] == mut_ref_current(r) && states.last() == mut_ref_future(r)
                    && lib@ == loaded(lib@.lib_handle, lines_of(text@), recycled) && forall|i: int|
                    #![trigger recycled[i]]
                    0 <= i < lines_of(text@).len() ==> match requests(
                        lib@.lib_handle,
                        lines_of(text@),
                        recycled,
                    )[i] {
                        Some(asked) => recycled[i] is Some && exists|m: &mut R, n: &str|
                            #![trigger call_ensures(R::recycle, (m, n, asked.code_size, asked.lib_handle, asked.relative_address), recycled[i]->0)]
                            mut_ref_current(m) == states[i] && mut_ref_future(m) == states[i + 1]
                                && n@ == asked.name && call_ensures(
                                R::recycle,
                                (m, n, asked.code_size, asked.lib_handle, asked.relative_address),
                                recycled[i]->0,
                            ),
                        None => recycled[i] is None && states[i + 1] == states[i],
                    },
            _ => true,
        },
{
    let text = match content {
        Some(text) => text,
        None => {
            return None;
        },
    };
    let lib_handle = global_libs.handle_for_lib(perf_map_library(pid));
    let lib = match recycler {
        Some(r) => load_perf_map_recycling(lib_handle, text, r),
        None => load_perf_map(lib_handle, text),
    };
    Some(lib)
}

/// The handle under which the library of the perf map of the process `pid` is
/// held, once it was interned among `libs`.
pub open spec fn perf_map_handle(libs: Seq<LibraryInfoView>, pid: u32) -> LibraryHandle {
    LibraryHandle::at(library_position(libs, perf_map_library_view(pid)))
}

/// The symbol tables once the library of the perf map of the process `pid` was
/// interned among `libs` and was given the symbol table `symbols`: a library
/// that is new comes without a table, the library of the perf map gets
/// `symbols`, and every other library keeps what it had.
pub open spec fn with_perf_map_symbols(
    tables: Seq<Option<Seq<SymbolView>>>,
    libs: Seq<LibraryInfoView>,
    pid: u32,
    symbols: Seq<SymbolView>,
) -> Seq<Option<Seq<SymbolView>>> {
    let interned = if holds_library(libs, perf_map_library_view(pid)) {
        tables
    } else {
        tables.push(None)
    };
    interned.update(library_position(libs, perf_map_library_view(pid)) as int, Some(symbols))
}

/// Loads the perf map of the process `pid`. `content` is the text of the perf
/// map, or `None` where the process wrote none; then nothing is loaded and
/// nothing changes.
///
/// The library that stands for the code of the perf map is interned in
/// `global_libs` under the name of the perf map and assembled as
/// [`assemble_perf_map`] says. Its symbols are stored in `global_libs` as the
/// symbol table of that library, once, when all lines are read. The ranges at
/// which the code really lay are returned.
pub fn try_load_perf_map<R: FunctionRecycler>(
    pid: u32,
    content: Option<&str>,
    global_libs: &mut GlobalLibTable,
    recycler: Option<&mut R>,
) -> (mappings: Option<LibMappings<LibraryHandle>>)
    requires
        old(global_libs).wf(),
    ensures
        final(global_libs).wf(),
        final(global_libs).used() == old(global_libs).used(),
        final(global_libs).used_names() == old(global_libs).used_names(),
        content is None ==> mappings is None && final(global_libs).libs() == old(
            global_libs,
        ).libs() && final(global_libs).symbol_tables() == old(global_libs).symbol_tables(),
        content is Some ==> mappings is Some && final(global_libs).libs() == with_library(
            old(global_libs).libs(),
            perf_map_library_view(pid),
        ) && final(global_libs).has_handle(perf_map_handle(old(global_libs).libs(), pid)),
        mappings matches Some(m) ==> m.wf(),
        content is None ==> (recycler matches Some(r) ==> mut_ref_future(r) == mut_ref_current(r)),
        match (content, mappings, recycler) {
            (Some(text), Some(m), None) => m@ == loaded(
                perf_map_handle(old(global_libs).libs(), pid),
                lines_of(text@),
                no_recycling(lines_of(text@).len()),
            ).mappings && final(global_libs).symbol_tables() == with_perf_map_symbols(
                old(global_libs).symbol_tables(),
                old(global_libs).libs(),
                pid,
                loaded(
                    perf_map_handle(old(global_libs).libs(), pid),
                    lines_of(text@),
                    no_recycling(lines_of(text@).len()),
                ).symbols,
            ),
            (Some(text), Some(m), Some(r)) => exists|
                recycled: Seq<Option<(LibraryHandle, u32)>>,
                states: Seq<R>,
            |
                #![trigger recycled.len(), states.len()]
                recycled.len() == lines_of(text@).len() && states.len() == lines_of(text@).len()
                    + 1 && states[0] == mut_ref_current(r) && states.last() == mut_ref_future(r)
                    && m@ == loaded(
                    perf_map_handle(old(global_libs).libs(), pid),
                    lines_of(text@),
                    recycled,
                ).mappings && final(global_libs).symbol_tables() == with_perf_map_symbols(
                    old(global_libs).symbol_tables(),
                    old(global_libs).libs(),
                    pid,
                    loaded(
                        perf_map_handle(old(global_libs).libs(), pid),
                        lines_of(text@),
                        recycled,
                    ).symbols,
                ) && forall|i: int|
                    #![trigger recycled[i]]
                    0 <= i < lines_of(text@).len() ==> match requests(
                        perf_map_handle(old(global_libs).libs(), pid),
                        lines_of(text@),
                        recycled,
                    )[i] {
                        Some(asked) => recycled[i] is Some && exists|m: &mut R, n: &str|
                            #![trigger call_ensures(R::recycle, (m, n, asked.code_size, asked.lib_handle, asked.relative_address), recycled[i]->0)]
                            mut_ref_current(m) == states[i] && mut_ref_future(m) == states[i + 1]
                                && n@ == asked.name && call_ensures(
                                R::recycle,
                                (m, n, asked.code_size, asked.lib_handle, asked.relative_address),
                                recycled[i]->0,
                            ),
                        None => recycled[i] is None && states[i + 1] == states[i],
                    },
            _ => true,
        },
{
    let library = assemble_perf_map(pid, content, global_libs, recycler);
    match library {
        Some(lib) => {
            let ghost assembled = lib@;
            let ghost tables = global_libs.symbol_tables();
            let (lib_handle, symbols, mappings) = lib.into_parts();
            proof {
                lib_handle.lemma_at();
                assert(symbol_views(symbols@) =~= assembled.symbols);
            }
            global_libs.set_lib_symbol_table(lib_handle, symbols);
            Some(mappings)
        },
        None => None,
    }
}

} // verus!
