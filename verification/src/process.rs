//! A process: its identity, its threads, its times, and the libraries mapped in
//! its address space.

use std::cmp::Ordering;
use vstd::prelude::*;
use vstd::utf8::encode_utf8;
use crate::frame_table::InternalFrameAddress;
use crate::global_lib_table::{marks_used, GlobalLibTable, LibraryHandle};
use crate::lib_mappings::LibMappings;
use crate::ranges::{lookup, range_fits, starting_at, with_mapping, without_start, Mapping};
use crate::string_table::ProfileStringTable;
use crate::text_order::{bytes_order, order_of_bytes};
use crate::timestamp::Timestamp;

verus! {

/// A thread, by its number in the profile.
#[derive(Debug, Clone, Copy, PartialOrd, Ord, PartialEq, Eq, Hash, Structural)]
pub struct ThreadHandle(usize);

impl ThreadHandle {
    /// The number of the thread.
    pub closed spec fn index(self) -> nat {
        self.0 as nat
    }

    /// Two handles with one number are one handle.
    pub proof fn lemma_same_index(self, other: ThreadHandle)
        ensures
            self.index() == other.index() <==> self == other,
    {
    }

    /// The handle of the thread with the number `index`.
    pub(crate) fn from_index(index: usize) -> (t: ThreadHandle)
        ensures
            t.index() == index,
    {
        ThreadHandle(index)
    }

    /// The number of the thread.
    pub fn to_usize(self) -> (i: usize)
        ensures
            i == self.index(),
    {
        self.0
    }
}

/// A process as the contracts see it.
pub struct ProcessView {
    /// The process id. It is a name, not a number.
    pub pid: Seq<char>,
    /// The name under which the process is shown.
    pub name: Seq<char>,
    /// The threads, in the order in which they were added.
    pub threads: Seq<ThreadHandle>,
    /// The main thread, once one was added.
    pub main_thread: Option<ThreadHandle>,
    /// When the process started.
    pub start_time: Timestamp,
    /// When the process ended, once it has.
    pub end_time: Option<Timestamp>,
    /// The libraries mapped in the address space of the process.
    pub libs: Set<Mapping<LibraryHandle>>,
}

/// The range that `address` resolves to: the kernel's, where the kernel has a
/// library mapped at the address; else the process's own.
pub open spec fn resolve(
    kernel_libs: Set<Mapping<LibraryHandle>>,
    process_libs: Set<Mapping<LibraryHandle>>,
    address: u64,
) -> Option<Mapping<LibraryHandle>> {
    match lookup(kernel_libs, address) {
        Some(m) => Some(m),
        None => lookup(process_libs, address),
    }
}

/// Where the kernel and a process both have a library mapped at an address, the
/// address resolves to the kernel's.
pub proof fn lemma_kernel_takes_precedence(
    kernel_libs: Set<Mapping<LibraryHandle>>,
    process_libs: Set<Mapping<LibraryHandle>>,
    address: u64,
)
    requires
        lookup(kernel_libs, address) is Some,
    ensures
        resolve(kernel_libs, process_libs, address) == lookup(kernel_libs, address),
{
}

/// Once a library is mapped in a process, every address of its range resolves to
/// it, unless the kernel has a library mapped there.
pub proof fn lemma_resolves_to_added_mapping(
    kernel_libs: Set<Mapping<LibraryHandle>>,
    process_libs: Set<Mapping<LibraryHandle>>,
    added: Mapping<LibraryHandle>,
    address: u64,
)
    requires
        crate::ranges::disjoint_ranges(process_libs),
        added.well_formed(),
        added.covers(address),
        lookup(kernel_libs, address) is None,
    ensures
        resolve(kernel_libs, with_mapping(process_libs, added), address) == Some(added),
{
    crate::ranges::lemma_added_range_wins(process_libs, added, address);
}

/// Once every library of a process is unmapped, an address resolves only where
/// the kernel has a library mapped.
pub proof fn lemma_resolves_to_kernel_alone(
    kernel_libs: Set<Mapping<LibraryHandle>>,
    address: u64,
)
    ensures
        resolve(kernel_libs, Set::empty(), address) == lookup(kernel_libs, address),
{
}

/// The order in which two processes are written out: the one that started first
/// comes first; of two that started together, the one whose process id comes
/// first as a string of bytes. So "10" comes before "2".
pub open spec fn json_order(a: ProcessView, b: ProcessView) -> Ordering {
    if a.start_time.nanos() < b.start_time.nanos() {
        Ordering::Less
    } else if a.start_time.nanos() > b.start_time.nanos() {
        Ordering::Greater
    } else {
        bytes_order(encode_utf8(a.pid), encode_utf8(b.pid))
    }
}

/// The order does not depend on which process is asked: where one process comes
/// before another, the other comes after it; and two processes stand equal only
/// where they started together and have the same process id.
pub proof fn lemma_json_order_reverses(a: ProcessView, b: ProcessView)
    ensures
        json_order(a, b) == Ordering::Less <==> json_order(b, a) == Ordering::Greater,
        json_order(a, b) == Ordering::Equal <==> json_order(b, a) == Ordering::Equal,
        json_order(a, b) == Ordering::Equal <==> (a.start_time.nanos() == b.start_time.nanos()
            && encode_utf8(a.pid) == encode_utf8(b.pid)),
{
    crate::text_order::lemma_bytes_order_total(encode_utf8(a.pid), encode_utf8(b.pid));
}

/// A process.
#[derive(Debug)]
pub struct Process {
    pid: String,
    name: String,
    threads: Vec<ThreadHandle>,
    main_thread: Option<ThreadHandle>,
    start_time: Timestamp,
    end_time: Option<Timestamp>,
    libs: LibMappings<LibraryHandle>,
}

impl View for Process {
    type V = ProcessView;

    closed spec fn view(&self) -> ProcessView {
        ProcessView {
            pid: self.pid@,
            name: self.name@,
            threads: self.threads@,
            main_thread: self.main_thread,
            start_time: self.start_time,
            end_time: self.end_time,
            libs: self.libs@,
        }
    }
}

impl Process {
    /// The invariant of the type: the mapped libraries do not overlap.
    pub closed spec fn wf(&self) -> bool {
        self.libs.wf()
    }

    /// The libraries of a well-formed process lie at disjoint ranges.
    pub proof fn lemma_disjoint(&self)
        requires
            self.wf(),
        ensures
            crate::ranges::disjoint_ranges(self@.libs),
    {
        self.libs.lemma_disjoint();
    }

    /// A process that has just been seen: no threads, no end, nothing mapped.
    pub fn new(name: &str, pid: String, start_time: Timestamp) -> (p: Self)
        ensures
            p.wf(),
            p@ == (ProcessView {
                pid: pid@,
                name: name@,
                threads: Seq::empty(),
                main_thread: None,
                start_time,
                end_time: None,
                libs: Set::empty(),
            }),
    {
        Self {
            pid,
            threads: Vec::new(),
            main_thread: None,
            libs: LibMappings::new(),
            start_time,
            end_time: None,
            name: name.to_owned(),
        }
    }

    /// The thread to which the allocations of the process are ascribed: its main
    /// thread.
    pub fn thread_handle_for_allocations(&self) -> (t: Option<ThreadHandle>)
        ensures
            t == self@.main_thread,
    {
        self.main_thread
    }

    /// Corrects the start time.
    pub fn set_start_time(&mut self, start_time: Timestamp)
        ensures
            final(self)@ == (ProcessView { start_time, ..old(self)@ }),
            final(self).wf() == old(self).wf(),
    {
        self.start_time = start_time;
    }

    /// When the process started.
    pub fn start_time(&self) -> (t: Timestamp)
        ensures
            t == self@.start_time,
    {
        self.start_time
    }

    /// Marks the process as ended at `end_time`.
    pub fn set_end_time(&mut self, end_time: Timestamp)
        ensures
            final(self)@ == (ProcessView { end_time: Some(end_time), ..old(self)@ }),
            final(self).wf() == old(self).wf(),
    {
        self.end_time = Some(end_time);
    }

    /// When the process ended; `None` while it has not.
    pub fn end_time(&self) -> (t: Option<Timestamp>)
        ensures
            t == self@.end_time,
    {
        self.end_time
    }

    /// Gives the process a new name. The last name given is the one that counts.
    pub fn set_name(&mut self, name: &str)
        ensures
            final(self)@ == (ProcessView { name: name@, ..old(self)@ }),
            final(self).wf() == old(self).wf(),
    {
        self.name = name.to_owned();
    }

    /// The name of the process.
    pub fn name(&self) -> (name: &str)
        ensures
            name@ == self@.name,
    {
        self.name.as_str()
    }

    /// Adds a thread at the end of the list. The first thread that is added as
    /// the main thread is the main thread for good.
    pub fn add_thread(&mut self, thread: ThreadHandle, is_main: bool)
        ensures
            final(self)@ == (ProcessView {
                threads: old(self)@.threads.push(thread),
                main_thread: if is_main && old(self)@.main_thread is None {
                    Some(thread)
                } else {
                    old(self)@.main_thread
                },
                ..old(self)@
            }),
            final(self).wf() == old(self).wf(),
    {
        self.threads.push(thread);
        if is_main && self.main_thread.is_none() {
            self.main_thread = Some(thread)
        }
    }

    /// The process id.
    pub fn pid(&self) -> (pid: &str)
        ensures
            pid@ == self@.pid,
    {
        self.pid.as_str()
    }

    /// How `self` stands to `other` in the order in which processes are written
    /// out: by start time, and among processes that started together by process
    /// id, compared as strings and not as numbers.
    pub fn cmp_for_json_order(&self, other: &Process) -> (o: Ordering)
        ensures
            o == json_order(self@, other@),
    {
        let mine = self.start_time.nanos();
        let theirs = other.start_time.nanos();
        if mine < theirs {
            Ordering::Less
        } else if mine > theirs {
            Ordering::Greater
        } else {
            order_of_bytes(self.pid.as_str().as_bytes(), other.pid.as_str().as_bytes())
        }
    }

    /// The threads of the process, in the order in which they were added.
    pub fn threads(&self) -> (threads: &[ThreadHandle])
        ensures
            threads@ == self@.threads,
    {
        self.threads.as_slice()
    }

    /// Resolves `address`. The kernel's libraries are asked first, then the
    /// process's own. Where a library is found, it is marked as used in
    /// `global_libs` and the address becomes a relative address in that library.
    /// Where none is found, the address is kept as it is, and nothing changes.
    pub fn resolve_address(
        &self,
        global_libs: &mut GlobalLibTable,
        kernel_libs: &LibMappings<LibraryHandle>,
        string_table: &mut ProfileStringTable,
        address: u64,
    ) -> (frame: InternalFrameAddress)
        requires
            self.wf(),
            kernel_libs.wf(),
            old(global_libs).wf(),
            old(string_table).wf(),
            resolve(kernel_libs@, self@.libs, address) matches Some(m) ==> old(
                global_libs,
            ).has_handle(m.value),
        ensures
            final(global_libs).wf(),
            final(string_table).wf(),
            match resolve(kernel_libs@, self@.libs, address) {
                Some(m) => frame matches InternalFrameAddress::InLib(relative_address, index)
                    && relative_address == m.relative_address(address) && marks_used(
                    *old(global_libs),
                    old(string_table)@,
                    m.value,
                    *final(global_libs),
                    final(string_table)@,
                    index,
                ),
                None => frame == InternalFrameAddress::Unknown(address) && *final(global_libs)
                    == *old(global_libs) && *final(string_table) == *old(string_table),
            },
    {
        let found = match kernel_libs.convert_address(address) {
            Some((relative_address, lib_handle)) => Some((relative_address, *lib_handle)),
            None => match self.libs.convert_address(address) {
                Some((relative_address, lib_handle)) => Some((relative_address, *lib_handle)),
                None => None,
            },
        };
        proof {
            kernel_libs.lemma_disjoint();
            self.libs.lemma_disjoint();
        }
        match found {
            Some((relative_address, lib_handle)) => {
                let global_lib_index = global_libs.index_for_used_lib(lib_handle, string_table);
                InternalFrameAddress::InLib(relative_address, global_lib_index)
            },
            None => InternalFrameAddress::Unknown(address),
        }
    }

    /// Resolves `address`, as [`Process::resolve_address`] does. The process and
    /// the kernel's libraries stay as they are.
    pub fn convert_address(
        &mut self,
        global_libs: &mut GlobalLibTable,
        kernel_libs: &mut LibMappings<LibraryHandle>,
        string_table: &mut ProfileStringTable,
        address: u64,
    ) -> (frame: InternalFrameAddress)
        requires
            old(self).wf(),
            old(kernel_libs).wf(),
            old(global_libs).wf(),
            old(string_table).wf(),
            resolve(old(kernel_libs)@, old(self)@.libs, address) matches Some(m) ==> old(
                global_libs,
            ).has_handle(m.value),
        ensures
            *final(self) == *old(self),
            *final(kernel_libs) == *old(kernel_libs),
            final(global_libs).wf(),
            final(string_table).wf(),
            match resolve(old(kernel_libs)@, old(self)@.libs, address) {
                Some(m) => frame matches InternalFrameAddress::InLib(relative_address, index)
                    && relative_address == m.relative_address(address) && marks_used(
                    *old(global_libs),
                    old(string_table)@,
                    m.value,
                    *final(global_libs),
                    final(string_table)@,
                    index,
                ),
                None => frame == InternalFrameAddress::Unknown(address) && *final(global_libs)
                    == *old(global_libs) && *final(string_table) == *old(string_table),
            },
    {
        self.resolve_address(global_libs, kernel_libs, string_table, address)
    }

    /// Maps the library `lib` at `[start_avma, end_avma)` in the address space of
    /// the process. Whatever was mapped at any of these addresses gives way.
    pub fn add_lib_mapping(
        &mut self,
        lib: LibraryHandle,
        start_avma: u64,
        end_avma: u64,
        relative_address_at_start: u32,
    )
        requires
            old(self).wf(),
            range_fits(start_avma, end_avma, relative_address_at_start),
        ensures
            final(self).wf(),
            final(self)@ == (ProcessView {
                libs: with_mapping(
                    old(self)@.libs,
                    Mapping { start_avma, end_avma, relative_address_at_start, value: lib },
                ),
                ..old(self)@
            }),
    {
        self.libs.add_mapping(start_avma, end_avma, relative_address_at_start, lib);
    }

    /// Unmaps the library that was mapped at a range starting at `start_avma`.
    /// Where none was, nothing changes.
    pub fn remove_lib_mapping(&mut self, start_avma: u64)
        requires
            old(self).wf(),
        ensures
            final(self).wf(),
            final(self)@ == (ProcessView {
                libs: without_start(old(self)@.libs, start_avma),
                ..old(self)@
            }),
            starting_at(old(self)@.libs, start_avma) is None ==> final(self)@ == old(self)@,
    {
        self.libs.remove_mapping(start_avma);
    }

    /// Unmaps every library.
    pub fn remove_all_lib_mappings(&mut self)
        ensures
            final(self).wf(),
            final(self)@ == (ProcessView { libs: Set::empty(), ..old(self)@ }),
    {
        self.libs.clear();
    }
}

} // verus!
