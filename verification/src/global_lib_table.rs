//! The registry of libraries: each library is held once and known by a handle,
//! and the libraries that frames resolve to are numbered in the order of their
//! first use.

use vstd::prelude::*;
use crate::library_info::{same_library, LibraryInfo, LibraryInfoView};
use crate::perf_map::{Symbol, SymbolView};
use crate::string_table::{string_position, with_string, ProfileStringTable, StringHandle};

verus! {

/// A library of a [`GlobalLibTable`]. Handles are made by
/// [`GlobalLibTable::handle_for_lib`] only.
#[derive(Clone, Copy, Debug, PartialEq, Eq, Structural)]
pub struct LibraryHandle(usize);

impl LibraryHandle {
    /// The position of the library among the libraries of its table.
    pub closed spec fn index(self) -> nat {
        self.0 as nat
    }

    /// Two handles with one position are one handle.
    pub proof fn lemma_same_index(self, other: LibraryHandle)
        ensures
            self.index() == other.index() <==> self == other,
    {
    }

    /// The handle of the library at the position `index`.
    pub closed spec fn at(index: nat) -> LibraryHandle {
        LibraryHandle(index as usize)
    }

    /// A handle is the handle of the library at its position.
    pub proof fn lemma_at(self)
        ensures
            LibraryHandle::at(self.index()) == self,
    {
    }

    /// The handle of the library at a position has that position.
    pub proof fn lemma_index_at(index: nat)
        requires
            index <= usize::MAX,
        ensures
            LibraryHandle::at(index).index() == index,
    {
    }
}

/// The number of a used library: its position among the libraries that frames
/// have resolved to, and the handle of its name in the string table.
#[derive(Clone, Copy, Debug, PartialEq, Eq, Structural)]
pub struct GlobalLibIndex(usize, StringHandle);

impl GlobalLibIndex {
    /// The position among the used libraries.
    pub closed spec fn index(self) -> nat {
        self.0 as nat
    }

    /// The handle of the library's name in the string table.
    pub closed spec fn name_string(self) -> StringHandle {
        self.1
    }

    /// Two numbers with one position and one name handle are one number.
    pub proof fn lemma_same_parts(self, other: GlobalLibIndex)
        ensures
            (self.index() == other.index() && self.name_string() == other.name_string()) <==> self
                == other,
    {
    }

    /// The position among the used libraries.
    pub fn to_usize(self) -> (i: usize)
        ensures
            i == self.index(),
    {
        self.0
    }

    /// The handle of the library's name in the string table.
    pub fn name_string_index(self) -> (h: StringHandle)
        ensures
            h == self.name_string(),
    {
        self.1
    }
}

/// The libraries of `libs` differ from each other in identity.
pub open spec fn distinct_libraries(libs: Seq<LibraryInfoView>) -> bool {
    forall|i: int, j: int|
        0 <= i < j < libs.len() ==> !same_library(#[trigger] libs[i], #[trigger] libs[j])
}

/// `libs` holds a library of the same identity as `lib`.
pub open spec fn holds_library(libs: Seq<LibraryInfoView>, lib: LibraryInfoView) -> bool {
    exists|i: int| 0 <= i < libs.len() && same_library(#[trigger] libs[i], lib)
}

/// Where the library of `lib`'s identity stands in `libs`, if `libs` holds it;
/// where it would stand after being appended, if not.
pub open spec fn library_position(libs: Seq<LibraryInfoView>, lib: LibraryInfoView) -> nat {
    if holds_library(libs, lib) {
        (choose|i: int| 0 <= i < libs.len() && same_library(#[trigger] libs[i], lib)) as nat
    } else {
        libs.len()
    }
}

/// The libraries after `lib` was interned: unchanged where they hold its
/// identity already, else with `lib` appended.
pub open spec fn with_library(libs: Seq<LibraryInfoView>, lib: LibraryInfoView) -> Seq<
    LibraryInfoView,
> {
    if holds_library(libs, lib) {
        libs
    } else {
        libs.push(lib)
    }
}

/// The number that a use of `h` gets: the one it has, where `h` was used before;
/// the next free one, where not.
pub open spec fn use_position(used: Seq<LibraryHandle>, h: LibraryHandle) -> nat {
    if used.contains(h) {
        used.index_of(h) as nat
    } else {
        used.len()
    }
}

/// The used libraries after a use of `h`: unchanged where `h` was used before,
/// else with `h` appended.
pub open spec fn with_use(used: Seq<LibraryHandle>, h: LibraryHandle) -> Seq<LibraryHandle> {
    if used.contains(h) {
        used
    } else {
        used.push(h)
    }
}

/// Among libraries of distinct identity, the library of `lib`'s identity stands
/// where one of that identity is found.
pub proof fn lemma_library_position(libs: Seq<LibraryInfoView>, lib: LibraryInfoView, i: int)
    requires
        distinct_libraries(libs),
        0 <= i < libs.len(),
        same_library(libs[i], lib),
    ensures
        holds_library(libs, lib),
        library_position(libs, lib) == i,
        with_library(libs, lib) == libs,
{
    let j = choose|j: int| 0 <= j < libs.len() && same_library(#[trigger] libs[j], lib);
    if j < i {
        assert(!same_library(libs[j], libs[i]));
    } else if i < j {
        assert(!same_library(libs[i], libs[j]));
    }
}

/// Interning a library twice gives the same place twice, and the second time
/// changes nothing. Interning keeps the libraries distinct in identity.
pub proof fn lemma_intern_is_idempotent(libs: Seq<LibraryInfoView>, lib: LibraryInfoView)
    requires
        distinct_libraries(libs),
    ensures
        distinct_libraries(with_library(libs, lib)),
        with_library(with_library(libs, lib), lib) == with_library(libs, lib),
        library_position(with_library(libs, lib), lib) == library_position(libs, lib),
        library_position(libs, lib) < with_library(libs, lib).len(),
        same_library(with_library(libs, lib)[library_position(libs, lib) as int], lib),
{
    let after = with_library(libs, lib);
    if holds_library(libs, lib) {
    } else {
        assert forall|i: int, j: int| 0 <= i < j < after.len() implies !same_library(
            #[trigger] after[i],
            #[trigger] after[j],
        ) by {
            if j < libs.len() {
                assert(!same_library(libs[i], libs[j]));
            } else {
                assert(!same_library(libs[i], lib));
            }
        }
        lemma_library_position(after, lib, libs.len() as int);
    }
}

/// Among used libraries without repetition, a library has the number of the
/// place where it is found.
pub proof fn lemma_use_position(used: Seq<LibraryHandle>, h: LibraryHandle, k: int)
    requires
        used.no_duplicates(),
        0 <= k < used.len(),
        used[k] == h,
    ensures
        used.contains(h),
        use_position(used, h) == k,
        with_use(used, h) == used,
{
    used.index_of_first_ensures(h);
    let j = used.index_of(h);
    if j != k {
        assert(used[j] == used[k]);
    }
}

/// Using a library twice gives the same number twice, and the second use changes
/// nothing.
pub proof fn lemma_use_is_idempotent(used: Seq<LibraryHandle>, h: LibraryHandle)
    requires
        used.no_duplicates(),
    ensures
        with_use(with_use(used, h), h) == with_use(used, h),
        use_position(with_use(used, h), h) == use_position(used, h),
        with_use(used, h).no_duplicates(),
{
    let after = with_use(used, h);
    if used.contains(h) {
    } else {
        assert(after[used.len() as int] == h);
        assert(after.contains(h));
        assert forall|i: int, j: int|
            0 <= i < after.len() && 0 <= j < after.len() && i != j implies after[i]
            != after[j] by {
            if i < used.len() && j < used.len() {
                assert(used[i] != used[j]);
            } else if i < used.len() {
                assert(used.contains(used[i]));
            } else {
                assert(used.contains(used[j]));
            }
        }
        after.index_of_first_ensures(h);
        let k = after.index_of(h);
        assert(after[k] == h);
        if k < used.len() {
            assert(used[k] == h);
            assert(used.contains(h));
        }
    }
}

/// A library that was used keeps its number, whichever library is used next.
pub proof fn lemma_use_keeps_numbers(used: Seq<LibraryHandle>, h: LibraryHandle, g: LibraryHandle)
    requires
        used.no_duplicates(),
        used.contains(g),
    ensures
        with_use(used, h).contains(g),
        use_position(with_use(used, h), g) == use_position(used, g),
{
    let after = with_use(used, h);
    lemma_use_is_idempotent(used, h);
    used.index_of_first_ensures(g);
    let k = used.index_of(g);
    assert(after[k] == g);
    after.index_of_first_ensures(g);
    let k2 = after.index_of(g);
    assert(after[k2] == g);
    if k2 != k {
        assert(after[k2] == after[k]);
    }
}

/// Numbers grow in the order of first use: a library that is used for the first
/// time gets a number above that of every library used before it, and the next
/// library used for the first time gets the number after it.
pub proof fn lemma_first_use_order(used: Seq<LibraryHandle>, h: LibraryHandle, g: LibraryHandle)
    requires
        used.no_duplicates(),
        !used.contains(h),
    ensures
        used.contains(g) ==> use_position(used, g) < use_position(used, h),
        !used.contains(g) && g != h ==> use_position(with_use(used, h), g) == use_position(
            used,
            h,
        ) + 1,
{
    if used.contains(g) {
        used.index_of_first_ensures(g);
    } else if g != h {
        let after = with_use(used, h);
        if after.contains(g) {
            let k = choose|k: int| 0 <= k < after.len() && after[k] == g;
            if k < used.len() {
                assert(used[k] == g);
            }
        }
    }
}

/// The used libraries after the uses of `hs`, one after another.
pub open spec fn with_uses(used: Seq<LibraryHandle>, hs: Seq<LibraryHandle>) -> Seq<LibraryHandle>
    decreases hs.len(),
{
    if hs.len() == 0 {
        used
    } else {
        with_use(with_uses(used, hs.drop_last()), hs.last())
    }
}

/// A library that was used keeps its number, however many uses follow and
/// whichever libraries they are of.
pub proof fn lemma_uses_keep_numbers(
    used: Seq<LibraryHandle>,
    hs: Seq<LibraryHandle>,
    g: LibraryHandle,
)
    requires
        used.no_duplicates(),
        used.contains(g),
    ensures
        with_uses(used, hs).no_duplicates(),
        with_uses(used, hs).contains(g),
        use_position(with_uses(used, hs), g) == use_position(used, g),
    decreases hs.len(),
{
    if hs.len() > 0 {
        lemma_uses_keep_numbers(used, hs.drop_last(), g);
        let earlier = with_uses(used, hs.drop_last());
        lemma_use_is_idempotent(earlier, hs.last());
        lemma_use_keeps_numbers(earlier, hs.last(), g);
    }
}

/// A number is given once: the number that a library gets at a use is the
/// number that it gets at every later use, however many uses lie between, and a
/// later use of it takes no further number.
pub proof fn lemma_number_is_given_once(
    used: Seq<LibraryHandle>,
    h: LibraryHandle,
    hs: Seq<LibraryHandle>,
)
    requires
        used.no_duplicates(),
    ensures
        use_position(with_uses(with_use(used, h), hs), h) == use_position(used, h),
        with_use(with_uses(with_use(used, h), hs), h) == with_uses(with_use(used, h), hs),
{
    let first = with_use(used, h);
    lemma_use_is_idempotent(used, h);
    if used.contains(h) {
    } else {
        assert(first[used.len() as int] == h);
    }
    assert(first.contains(h));
    lemma_uses_keep_numbers(first, hs, h);
}

/// The symbols of a table as the contracts see them.
pub open spec fn symbol_views(symbols: Seq<Symbol>) -> Seq<SymbolView> {
    Seq::new(symbols.len(), |i: int| symbols[i]@)
}

/// What a use of the library `h` does: `before` and `strings_before` are the
/// table and the string table before it, `after` and `strings_after` after it,
/// and `index` is the number that the use returns.
///
/// The libraries stay. At its first use `h` gets the next free number, goes to
/// the end of the used libraries, and its name is interned in the string table;
/// the number carries the handle of that name. At a later use `h` gets the number
/// it has, and nothing changes. The symbol tables stay in either case.
pub open spec fn marks_used(
    before: GlobalLibTable,
    strings_before: Seq<Seq<char>>,
    h: LibraryHandle,
    after: GlobalLibTable,
    strings_after: Seq<Seq<char>>,
    index: GlobalLibIndex,
) -> bool {
    &&& after.libs() == before.libs()
    &&& after.symbol_tables() == before.symbol_tables()
    &&& after.used() == with_use(before.used(), h)
    &&& index.index() == use_position(before.used(), h)
    &&& index.index() < after.used().len()
    &&& after.used_names().len() == after.used().len()
    &&& index.name_string() == after.used_names()[index.index() as int]
    &&& if before.used().contains(h) {
        &&& after.used_names() == before.used_names()
        &&& strings_after == strings_before
    } else {
        &&& after.used_names() == before.used_names().push(index.name_string())
        &&& strings_after == with_string(strings_before, before.lib(h).name)
        &&& index.name_string().index() == string_position(strings_before, before.lib(h).name)
    }
}

/// The registry of libraries.
pub struct GlobalLibTable {
    /// Every library, by the position that its handle holds.
    all_libs: Vec<LibraryInfo>,
    /// The libraries that were used, in the order of their first use.
    used_libs: Vec<LibraryHandle>,
    /// For each used library, the handle of its name in the string table.
    used_names: Vec<StringHandle>,
    /// For each library, its position in `used_libs`, if it was used.
    used_index: Vec<Option<usize>>,
    /// For each library, its symbol table, if it was given one.
    symbol_tables: Vec<Option<Vec<Symbol>>>,
}

impl GlobalLibTable {
    /// The libraries of the table; a handle's position is the place of its
    /// library here.
    pub closed spec fn libs(&self) -> Seq<LibraryInfoView> {
        Seq::new(self.all_libs.len() as nat, |i: int| self.all_libs[i]@)
    }

    /// The libraries that were used, in the order of their first use. The number
    /// of a used library is its place here.
    pub closed spec fn used(&self) -> Seq<LibraryHandle> {
        self.used_libs@
    }

    /// For each used library, in the same order, the handle of its name in the
    /// string table that was passed at its first use.
    pub closed spec fn used_names(&self) -> Seq<StringHandle> {
        self.used_names@
    }

    /// For each library, in the order of the libraries, the symbols of its
    /// symbol table, if it was given one.
    pub closed spec fn symbol_tables(&self) -> Seq<Option<Seq<SymbolView>>> {
        Seq::new(
            self.symbol_tables.len() as nat,
            |i: int|
                match self.symbol_tables[i] {
                    Some(symbols) => Some(symbol_views(symbols@)),
                    None => None,
                },
        )
    }

    /// The symbol table of the library that `h` stands for, if it was given one.
    pub open spec fn symbol_table(&self, h: LibraryHandle) -> Option<Seq<SymbolView>> {
        self.symbol_tables()[h.index() as int]
    }

    /// The handle was made by this table.
    pub open spec fn has_handle(&self, h: LibraryHandle) -> bool {
        h.index() < self.libs().len()
    }

    /// The library that `h` stands for.
    pub open spec fn lib(&self, h: LibraryHandle) -> LibraryInfoView {
        self.libs()[h.index() as int]
    }

    /// The invariant of the type.
    pub closed spec fn wf(&self) -> bool {
        &&& distinct_libraries(self.libs())
        &&& self.used_index.len() == self.all_libs.len()
        &&& self.symbol_tables.len() == self.all_libs.len()
        &&& self.used_names.len() == self.used_libs.len()
        &&& forall|k: int|
            0 <= k < self.used_libs.len() ==> (#[trigger] self.used_libs[k]).0
                < self.all_libs.len() && self.used_index[self.used_libs[k].0 as int] == Some(
                k as usize,
            )
        &&& forall|i: int|
            0 <= i < self.used_index.len() ==> match #[trigger] self.used_index[i] {
                Some(k) => k < self.used_libs.len() && self.used_libs[k as int].0 == i,
                None => true,
            }
    }

    /// In a well-formed table no two libraries have one identity, no library was
    /// numbered twice, and every used library is a library of the table.
    pub proof fn lemma_wf(&self)
        requires
            self.wf(),
        ensures
            distinct_libraries(self.libs()),
            self.used().no_duplicates(),
            self.used_names().len() == self.used().len(),
            self.symbol_tables().len() == self.libs().len(),
            forall|k: int| 0 <= k < self.used().len() ==> self.has_handle(#[trigger] self.used()[k]),
    {
        assert forall|a: int, b: int|
            0 <= a < self.used_libs.len() && 0 <= b < self.used_libs.len() && a
                != b implies self.used_libs[a] != self.used_libs[b] by {
            assert(self.used_index[self.used_libs[a].0 as int] == Some(a as usize));
            assert(self.used_index[self.used_libs[b].0 as int] == Some(b as usize));
        }
        assert forall|k: int| 0 <= k < self.used().len() implies self.has_handle(
            #[trigger] self.used()[k],
        ) by {
            assert(self.used_libs[k].0 < self.all_libs.len());
        }
    }

    /// A table without libraries.
    pub fn new() -> (t: Self)
        ensures
            t.wf(),
            t.libs() == Seq::<LibraryInfoView>::empty(),
            t.used() == Seq::<LibraryHandle>::empty(),
            t.used_names() == Seq::<StringHandle>::empty(),
            t.symbol_tables() == Seq::<Option<Seq<SymbolView>>>::empty(),
    {
        let t = GlobalLibTable {
            all_libs: Vec::new(),
            used_libs: Vec::new(),
            used_names: Vec::new(),
            used_index: Vec::new(),
            symbol_tables: Vec::new(),
        };
        assert(t.libs() =~= Seq::<LibraryInfoView>::empty());
        assert(t.symbol_tables() =~= Seq::<Option<Seq<SymbolView>>>::empty());
        t
    }

    /// The handle of the library that `lib` describes. Where the table holds a
    /// library of the same identity (the same debug identifier and path), that
    /// library's handle is returned and the table stays as it is: the description
    /// that came first is kept. Otherwise `lib` is appended, under a new handle.
    pub fn handle_for_lib(&mut self, lib: LibraryInfo) -> (h: LibraryHandle)
        requires
            old(self).wf(),
        ensures
            final(self).wf(),
            final(self).libs() == with_library(old(self).libs(), lib@),
            h.index() == library_position(old(self).libs(), lib@),
            final(self).has_handle(h),
            same_library(final(self).lib(h), lib@),
            final(self).used() == old(self).used(),
            final(self).used_names() == old(self).used_names(),
            final(self).symbol_tables() == if holds_library(old(self).libs(), lib@) {
                old(self).symbol_tables()
            } else {
                old(self).symbol_tables().push(None)
            },
    {
        let ghost libs = self.libs();
        let n = self.all_libs.len();
        let mut i: usize = 0;
        while i < n
            invariant
                i <= n,
                n == self.all_libs.len(),
                *self == *old(self),
                self.wf(),
                self.libs() == libs,
                distinct_libraries(libs),
                forall|k: int| 0 <= k < i ==> !same_library(#[trigger] libs[k], lib@),
            decreases n - i,
        {
            if self.all_libs[i].is_same_library(&lib) {
                proof {
                    assert(same_library(libs[i as int], lib@));
                    let j = choose|j: int|
                        0 <= j < libs.len() && same_library(#[trigger] libs[j], lib@);
                    if j < i {
                        assert(!same_library(libs[j], libs[i as int]));
                    } else if i < j {
                        assert(!same_library(libs[i as int], libs[j]));
                    }
                }
                return LibraryHandle(i);
            }
            i += 1;
        }
        proof {
            assert(!holds_library(libs, lib@));
        }
        self.all_libs.push(lib);
        self.used_index.push(None);
        self.symbol_tables.push(None);
        proof {
            assert(self.libs() =~= libs.push(lib@));
            assert(self.symbol_tables() =~= old(self).symbol_tables().push(None));
            assert forall|a: int, b: int| 0 <= a < b < self.libs().len() implies !same_library(
                #[trigger] self.libs()[a],
                #[trigger] self.libs()[b],
            ) by {
                if b < n {
                    assert(!same_library(libs[a], libs[b]));
                } else {
                    assert(!same_library(libs[a], lib@));
                }
            }
            assert forall|k: int| 0 <= k < self.used_libs.len() implies (
            #[trigger] self.used_libs[k]).0 < self.all_libs.len()
                && self.used_index[self.used_libs[k].0 as int] == Some(k as usize) by {
                assert(old(self).used_index[old(self).used_libs[k].0 as int] == Some(k as usize));
            }
            assert forall|i: int| 0 <= i < self.used_index.len() implies match #[trigger] self.used_index[i] {
                Some(k) => k < self.used_libs.len() && self.used_libs[k as int].0 == i,
                None => true,
            } by {
                if i < n {
                    assert(self.used_index[i] == old(self).used_index[i]);
                }
            }
        }
        LibraryHandle(n)
    }

    /// The description of the library that `h` stands for.
    pub fn get_lib(&self, h: LibraryHandle) -> (lib: &LibraryInfo)
        requires
            self.has_handle(h),
        ensures
            lib@ == self.lib(h),
    {
        &self.all_libs[h.0]
    }

    /// Whether `h` was made by this table.
    pub fn contains_handle(&self, h: LibraryHandle) -> (b: bool)
        ensures
            b == self.has_handle(h),
    {
        h.0 < self.all_libs.len()
    }

    /// The number of libraries in the table.
    pub fn lib_count(&self) -> (n: usize)
        ensures
            n == self.libs().len(),
    {
        self.all_libs.len()
    }

    /// The number of libraries that were used.
    pub fn used_lib_count(&self) -> (n: usize)
        ensures
            n == self.used().len(),
    {
        self.used_libs.len()
    }

    /// The library that was the `i`-th to be used, counted from zero; `None`
    /// where fewer were used.
    pub fn used_lib(&self, i: usize) -> (h: Option<LibraryHandle>)
        ensures
            h == if i < self.used().len() {
                Some(self.used()[i as int])
            } else {
                None
            },
    {
        if i < self.used_libs.len() {
            Some(self.used_libs[i])
        } else {
            None
        }
    }

    /// Gives the library `h` the symbol table `symbols`, in place of the one it
    /// may have had.
    pub fn set_lib_symbol_table(&mut self, h: LibraryHandle, symbols: Vec<Symbol>)
        requires
            old(self).wf(),
            old(self).has_handle(h),
        ensures
            final(self).wf(),
            final(self).libs() == old(self).libs(),
            final(self).used() == old(self).used(),
            final(self).used_names() == old(self).used_names(),
            final(self).symbol_tables() == old(self).symbol_tables().update(
                h.index() as int,
                Some(symbol_views(symbols@)),
            ),
    {
        self.symbol_tables.set(h.0, Some(symbols));
        proof {
            assert(self.libs() =~= old(self).libs());
            assert(self.symbol_tables() =~= old(self).symbol_tables().update(
                h.index() as int,
                Some(symbol_views(symbols@)),
            ));
        }
    }

    /// The symbol table of the library `h`, if it was given one.
    pub fn lib_symbol_table(&self, h: LibraryHandle) -> (symbols: Option<&Vec<Symbol>>)
        requires
            self.wf(),
            self.has_handle(h),
        ensures
            match symbols {
                Some(table) => self.symbol_table(h) == Some(symbol_views(table@)),
                None => self.symbol_table(h) is None,
            },
    {
        self.symbol_tables[h.0].as_ref()
    }

    /// The number of the library `lib_handle` among the used libraries. At its
    /// first use a library gets the next free number, and its name is interned in
    /// `string_table`. At every later use it gets the number that it has, and
    /// neither the table nor `string_table` changes.
    pub fn index_for_used_lib(
        &mut self,
        lib_handle: LibraryHandle,
        string_table: &mut ProfileStringTable,
    ) -> (index: GlobalLibIndex)
        requires
            old(self).wf(),
            old(string_table).wf(),
            old(self).has_handle(lib_handle),
        ensures
            marks_used(
                *old(self),
                old(string_table)@,
                lib_handle,
                *final(self),
                final(string_table)@,
                index,
            ),
            final(self).wf(),
            final(string_table).wf(),
    {
        let ghost used = self.used_libs@;
        proof {
            self.lemma_wf();
        }
        match self.used_index[lib_handle.0] {
            Some(k) => {
                proof {
                    assert(used[k as int] == lib_handle);
                    assert(used.contains(lib_handle));
                    used.index_of_first_ensures(lib_handle);
                    let j = used.index_of(lib_handle);
                    if j != k {
                        assert(used[j] == used[k as int]);
                    }
                }
                GlobalLibIndex(k, self.used_names[k])
            },
            None => {
                proof {
                    if used.contains(lib_handle) {
                        let j = choose|j: int| 0 <= j < used.len() && used[j] == lib_handle;
                        assert(self.used_index[self.used_libs[j].0 as int] == Some(j as usize));
                    }
                }
                let name = self.all_libs[lib_handle.0].name.as_str();
                let name_string = string_table.index_for_string(name);
                let k = self.used_libs.len();
                self.used_libs.push(lib_handle);
                self.used_names.push(name_string);
                self.used_index.set(lib_handle.0, Some(k));
                proof {
                    assert(self.libs() =~= old(self).libs());
                    assert(self.symbol_tables() =~= old(self).symbol_tables());
                    assert forall|j: int| 0 <= j < self.used_libs.len() implies (
                    #[trigger] self.used_libs[j]).0 < self.all_libs.len()
                        && self.used_index[self.used_libs[j].0 as int] == Some(j as usize) by {
                        if j < k {
                            assert(self.used_libs[j] == old(self).used_libs[j]);
                            assert(old(self).used_index[old(self).used_libs[j].0 as int] == Some(
                                j as usize,
                            ));
                        }
                    }
                    assert forall|i: int| 0 <= i < self.used_index.len() implies match #[trigger] self.used_index[i] {
                        Some(p) => p < self.used_libs.len() && self.used_libs[p as int].0 == i,
                        None => true,
                    } by {
                        if i != lib_handle.0 {
                            assert(self.used_index[i] == old(self).used_index[i]);
                        }
                    }
                }
                GlobalLibIndex(k, name_string)
            },
        }
    }
}

} // verus!
