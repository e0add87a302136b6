//! A profile: the libraries, the kernel's address space, and the processes with
//! theirs, held together.
//!
//! Held together, they keep one promise more than each keeps alone: a library
//! that is mapped anywhere is a library of the profile. So every address can be
//! resolved, and there is nothing to ask of the caller but a process.

use std::cmp::Ordering;
use vstd::prelude::*;
use crate::directory::{ProcessDirectory, ProcessHandle};
use crate::frame_table::InternalFrameAddress;
use crate::global_lib_table::{
    holds_library, library_position, marks_used, symbol_views, with_library, GlobalLibTable,
    LibraryHandle,
};
use crate::lib_mappings::LibMappings;
use crate::library_info::LibraryInfo;
use crate::perf_map::Symbol;
use crate::process::{json_order, resolve, ProcessView, ThreadHandle};
use crate::ranges::{
    lemma_lookup_none, range_fits, starting_at, with_mapping, without_start, Mapping,
};
use crate::string_table::ProfileStringTable;
use crate::timestamp::Timestamp;

verus! {

/// Every library that is mapped in `mappings` is one of the first `count`
/// libraries of its table.
pub open spec fn known_libraries(mappings: Set<Mapping<LibraryHandle>>, count: nat) -> bool {
    forall|m: Mapping<LibraryHandle>| #[trigger] mappings.contains(m) ==> m.value.index() < count
}

/// A profile.
pub struct Profile {
    global_libs: GlobalLibTable,
    string_table: ProfileStringTable,
    kernel_libs: LibMappings<LibraryHandle>,
    processes: ProcessDirectory,
}

impl Profile {
    /// The registry of libraries.
    pub closed spec fn lib_table(&self) -> GlobalLibTable {
        self.global_libs
    }

    /// The strings of the string table, in order.
    pub closed spec fn strings(&self) -> Seq<Seq<char>> {
        self.string_table@
    }

    /// The libraries that are mapped in the kernel's address space, which every
    /// process shares.
    pub closed spec fn kernel_libs(&self) -> Set<Mapping<LibraryHandle>> {
        self.kernel_libs@
    }

    /// The processes, in the order in which they were added.
    pub closed spec fn processes(&self) -> Seq<ProcessView> {
        self.processes.processes()
    }

    /// For each thread, by its number, the process that it belongs to.
    pub closed spec fn thread_owners(&self) -> Seq<ProcessHandle> {
        self.processes.thread_owners()
    }

    /// The handle stands for a process of this profile.
    pub open spec fn has_process(&self, h: ProcessHandle) -> bool {
        h.index() < self.processes().len()
    }

    /// The process that `h` stands for.
    pub open spec fn process(&self, h: ProcessHandle) -> ProcessView {
        self.processes()[h.index() as int]
    }

    /// The handle stands for a library of this profile.
    pub open spec fn has_lib(&self, h: LibraryHandle) -> bool {
        self.lib_table().has_handle(h)
    }

    /// The invariant of the type: the parts are well formed, and every library
    /// that is mapped, in the kernel or in a process, is a library of the
    /// profile.
    pub closed spec fn wf(&self) -> bool {
        &&& self.global_libs.wf()
        &&& self.string_table.wf()
        &&& self.kernel_libs.wf()
        &&& self.processes.wf()
        &&& known_libraries(self.kernel_libs@, self.global_libs.libs().len())
        &&& forall|i: int|
            0 <= i < self.processes.processes().len() ==> known_libraries(
                (#[trigger] self.processes.processes()[i]).libs,
                self.global_libs.libs().len(),
            )
    }

    /// In a well-formed profile the registry is well formed, mapped libraries
    /// lie at disjoint ranges, and every mapped library is a library of the
    /// profile.
    pub proof fn lemma_wf(&self)
        requires
            self.wf(),
        ensures
            self.lib_table().wf(),
            crate::ranges::disjoint_ranges(self.kernel_libs()),
            known_libraries(self.kernel_libs(), self.lib_table().libs().len()),
            forall|i: int|
                0 <= i < self.processes().len() ==> crate::ranges::disjoint_ranges(
                    (#[trigger] self.processes()[i]).libs,
                ) && known_libraries(self.processes()[i].libs, self.lib_table().libs().len()),
    {
        self.kernel_libs.lemma_disjoint();
        self.processes.lemma_wf();
    }

    /// A profile without libraries and without processes.
    pub fn new() -> (p: Self)
        ensures
            p.wf(),
            p.lib_table().libs().len() == 0,
            p.lib_table().used().len() == 0,
            p.lib_table().symbol_tables().len() == 0,
            p.strings().len() == 0,
            p.kernel_libs() == Set::<Mapping<LibraryHandle>>::empty(),
            p.processes().len() == 0,
            p.thread_owners().len() == 0,
    {
        Profile {
            global_libs: GlobalLibTable::new(),
            string_table: ProfileStringTable::new(),
            kernel_libs: LibMappings::new(),
            processes: ProcessDirectory::new(),
        }
    }

    /// The handle of the library that `lib` describes; the library is added
    /// where the profile does not hold it yet. See
    /// [`GlobalLibTable::handle_for_lib`].
    pub fn add_lib(&mut self, lib: LibraryInfo) -> (h: LibraryHandle)
        requires
            old(self).wf(),
        ensures
            final(self).wf(),
            final(self).has_lib(h),
            final(self).lib_table().libs() == with_library(old(self).lib_table().libs(), lib@),
            h.index() == library_position(old(self).lib_table().libs(), lib@),
            final(self).lib_table().used() == old(self).lib_table().used(),
            final(self).lib_table().used_names() == old(self).lib_table().used_names(),
            final(self).lib_table().symbol_tables() == if holds_library(
                old(self).lib_table().libs(),
                lib@,
            ) {
                old(self).lib_table().symbol_tables()
            } else {
                old(self).lib_table().symbol_tables().push(None)
            },
            final(self).strings() == old(self).strings(),
            final(self).kernel_libs() == old(self).kernel_libs(),
            final(self).processes() == old(self).processes(),
            final(self).thread_owners() == old(self).thread_owners(),
    {
        self.global_libs.handle_for_lib(lib)
    }

    /// Gives the library `h` the symbol table `symbols`, in place of the one it
    /// may have had.
    pub fn set_lib_symbol_table(&mut self, h: LibraryHandle, symbols: Vec<Symbol>)
        requires
            old(self).wf(),
            old(self).has_lib(h),
        ensures
            final(self).wf(),
            final(self).lib_table().libs() == old(self).lib_table().libs(),
            final(self).lib_table().used() == old(self).lib_table().used(),
            final(self).lib_table().used_names() == old(self).lib_table().used_names(),
            final(self).lib_table().symbol_tables() == old(self).lib_table().symbol_tables().update(
                h.index() as int,
                Some(symbol_views(symbols@)),
            ),
            final(self).strings() == old(self).strings(),
            final(self).kernel_libs() == old(self).kernel_libs(),
            final(self).processes() == old(self).processes(),
            final(self).thread_owners() == old(self).thread_owners(),
    {
        self.global_libs.set_lib_symbol_table(h, symbols);
    }

    /// The description of the library that `h` stands for.
    pub fn get_lib(&self, h: LibraryHandle) -> (lib: &LibraryInfo)
        requires
            self.has_lib(h),
        ensures
            lib@ == self.lib_table().lib(h),
    {
        self.global_libs.get_lib(h)
    }

    /// Whether `h` stands for a library of this profile.
    pub fn contains_lib(&self, h: LibraryHandle) -> (b: bool)
        ensures
            b == self.has_lib(h),
    {
        self.global_libs.contains_handle(h)
    }

    /// Whether `h` stands for a process of this profile.
    pub fn contains_process(&self, h: ProcessHandle) -> (b: bool)
        ensures
            b == self.has_process(h),
    {
        self.processes.contains(h)
    }

    /// The registry of libraries.
    pub fn global_libs(&self) -> (table: &GlobalLibTable)
        ensures
            *table == self.lib_table(),
    {
        &self.global_libs
    }

    /// The string table.
    pub fn string_table(&self) -> (table: &ProfileStringTable)
        ensures
            table@ == self.strings(),
    {
        &self.string_table
    }

    /// The processes.
    pub fn directory(&self) -> (directory: &ProcessDirectory)
        ensures
            directory.processes() == self.processes(),
            directory.thread_owners() == self.thread_owners(),
            self.wf() ==> directory.wf(),
    {
        &self.processes
    }

    /// Takes note of a process that was seen for the first time.
    pub fn add_process(&mut self, name: &str, pid: String, start_time: Timestamp) -> (h:
        ProcessHandle)
        requires
            old(self).wf(),
        ensures
            final(self).wf(),
            h.index() == old(self).processes().len(),
            final(self).processes() == old(self).processes().push(
                ProcessView {
                    pid: pid@,
                    name: name@,
                    threads: Seq::empty(),
                    main_thread: None,
                    start_time,
                    end_time: None,
                    libs: Set::empty(),
                },
            ),
            final(self).thread_owners() == old(self).thread_owners(),
            final(self).lib_table() == old(self).lib_table(),
            final(self).strings() == old(self).strings(),
            final(self).kernel_libs() == old(self).kernel_libs(),
    {
        self.processes.create(name, pid, start_time)
    }

    /// Gives a process a new thread. See [`ProcessDirectory::add_thread`].
    pub fn add_thread(&mut self, process: ProcessHandle, is_main: bool) -> (t: ThreadHandle)
        requires
            old(self).wf(),
            old(self).has_process(process),
        ensures
            final(self).wf(),
            t.index() == old(self).thread_owners().len(),
            final(self).thread_owners() == old(self).thread_owners().push(process),
            final(self).processes() == old(self).processes().update(
                process.index() as int,
                ProcessView {
                    threads: old(self).process(process).threads.push(t),
                    main_thread: if is_main && old(self).process(process).main_thread is None {
                        Some(t)
                    } else {
                        old(self).process(process).main_thread
                    },
                    ..old(self).process(process)
                },
            ),
            final(self).lib_table() == old(self).lib_table(),
            final(self).strings() == old(self).strings(),
            final(self).kernel_libs() == old(self).kernel_libs(),
    {
        self.processes.add_thread(process, is_main)
    }

    /// Corrects the start time of a process.
    pub fn set_process_start_time(&mut self, process: ProcessHandle, start_time: Timestamp)
        requires
            old(self).wf(),
            old(self).has_process(process),
        ensures
            final(self).wf(),
            final(self).processes() == old(self).processes().update(
                process.index() as int,
                ProcessView { start_time, ..old(self).process(process) },
            ),
            final(self).thread_owners() == old(self).thread_owners(),
            final(self).lib_table() == old(self).lib_table(),
            final(self).strings() == old(self).strings(),
            final(self).kernel_libs() == old(self).kernel_libs(),
    {
        self.processes.set_start_time(process, start_time);
    }

    /// Marks a process as ended at `end_time`.
    pub fn set_process_end_time(&mut self, process: ProcessHandle, end_time: Timestamp)
        requires
            old(self).wf(),
            old(self).has_process(process),
        ensures
            final(self).wf(),
            final(self).processes() == old(self).processes().update(
                process.index() as int,
                ProcessView { end_time: Some(end_time), ..old(self).process(process) },
            ),
            final(self).thread_owners() == old(self).thread_owners(),
            final(self).lib_table() == old(self).lib_table(),
            final(self).strings() == old(self).strings(),
            final(self).kernel_libs() == old(self).kernel_libs(),
    {
        self.processes.set_end_time(process, end_time);
    }

    /// Gives a process a new name.
    pub fn set_process_name(&mut self, process: ProcessHandle, name: &str)
        requires
            old(self).wf(),
            old(self).has_process(process),
        ensures
            final(self).wf(),
            final(self).processes() == old(self).processes().update(
                process.index() as int,
                ProcessView { name: name@, ..old(self).process(process) },
            ),
            final(self).thread_owners() == old(self).thread_owners(),
            final(self).lib_table() == old(self).lib_table(),
            final(self).strings() == old(self).strings(),
            final(self).kernel_libs() == old(self).kernel_libs(),
    {
        self.processes.set_name(process, name);
    }

    /// Maps the library `lib` at `[start_avma, end_avma)` in the address space of
    /// a process. Whatever was mapped at any of these addresses gives way.
    pub fn add_lib_mapping(
        &mut self,
        process: ProcessHandle,
        lib: LibraryHandle,
        start_avma: u64,
        end_avma: u64,
        relative_address_at_start: u32,
    )
        requires
            old(self).wf(),
            old(self).has_process(process),
            old(self).has_lib(lib),
            range_fits(start_avma, end_avma, relative_address_at_start),
        ensures
            final(self).wf(),
            final(self).processes() == old(self).processes().update(
                process.index() as int,
                ProcessView {
                    libs: with_mapping(
                        old(self).process(process).libs,
                        Mapping { start_avma, end_avma, relative_address_at_start, value: lib },
                    ),
                    ..old(self).process(process)
                },
            ),
            final(self).thread_owners() == old(self).thread_owners(),
            final(self).lib_table() == old(self).lib_table(),
            final(self).strings() == old(self).strings(),
            final(self).kernel_libs() == old(self).kernel_libs(),
    {
        self.processes.add_lib_mapping(
            process,
            lib,
            start_avma,
            end_avma,
            relative_address_at_start,
        );
    }

    /// Unmaps the library that was mapped in a process at a range starting at
    /// `start_avma`. Where none was, nothing changes.
    pub fn remove_lib_mapping(&mut self, process: ProcessHandle, start_avma: u64)
        requires
            old(self).wf(),
            old(self).has_process(process),
        ensures
            final(self).wf(),
            final(self).processes() == old(self).processes().update(
                process.index() as int,
                ProcessView {
                    libs: without_start(old(self).process(process).libs, start_avma),
                    ..old(self).process(process)
                },
            ),
            starting_at(old(self).process(process).libs, start_avma) is None
                ==> final(self).processes() == old(self).processes(),
            final(self).thread_owners() == old(self).thread_owners(),
            final(self).lib_table() == old(self).lib_table(),
            final(self).strings() == old(self).strings(),
            final(self).kernel_libs() == old(self).kernel_libs(),
    {
        self.processes.remove_lib_mapping(process, start_avma);
    }

    /// Unmaps every library of a process.
    pub fn remove_all_lib_mappings(&mut self, process: ProcessHandle)
        requires
            old(self).wf(),
            old(self).has_process(process),
        ensures
            final(self).wf(),
            final(self).processes() == old(self).processes().update(
                process.index() as int,
                ProcessView { libs: Set::empty(), ..old(self).process(process) },
            ),
            final(self).thread_owners() == old(self).thread_owners(),
            final(self).lib_table() == old(self).lib_table(),
            final(self).strings() == old(self).strings(),
            final(self).kernel_libs() == old(self).kernel_libs(),
    {
        self.processes.remove_all_lib_mappings(process);
    }

    /// Maps the library `lib` at `[start_avma, end_avma)` in the kernel's address
    /// space. Whatever was mapped at any of these addresses gives way.
    pub fn add_kernel_lib_mapping(
        &mut self,
        lib: LibraryHandle,
        start_avma: u64,
        end_avma: u64,
        relative_address_at_start: u32,
    )
        requires
            old(self).wf(),
            old(self).has_lib(lib),
            range_fits(start_avma, end_avma, relative_address_at_start),
        ensures
            final(self).wf(),
            final(self).kernel_libs() == with_mapping(
                old(self).kernel_libs(),
                Mapping { start_avma, end_avma, relative_address_at_start, value: lib },
            ),
            final(self).processes() == old(self).processes(),
            final(self).thread_owners() == old(self).thread_owners(),
            final(self).lib_table() == old(self).lib_table(),
            final(self).strings() == old(self).strings(),
    {
        self.kernel_libs.add_mapping(start_avma, end_avma, relative_address_at_start, lib);
    }

    /// Unmaps the library that was mapped in the kernel's address space at a
    /// range starting at `start_avma`. Where none was, nothing changes.
    pub fn remove_kernel_lib_mapping(&mut self, start_avma: u64)
        requires
            old(self).wf(),
        ensures
            final(self).wf(),
            final(self).kernel_libs() == without_start(old(self).kernel_libs(), start_avma),
            starting_at(old(self).kernel_libs(), start_avma) is None ==> final(self).kernel_libs()
                == old(self).kernel_libs(),
            final(self).processes() == old(self).processes(),
            final(self).thread_owners() == old(self).thread_owners(),
            final(self).lib_table() == old(self).lib_table(),
            final(self).strings() == old(self).strings(),
    {
        self.kernel_libs.remove_mapping(start_avma);
    }

    /// Resolves an address that was sampled in a process. The kernel's libraries
    /// are asked first, then the process's own. Where a library is found, it is
    /// marked as used and the address becomes a relative address in that
    /// library. Where none is found, the address is kept as it is, and nothing
    /// changes. Every address of every process can be resolved.
    pub fn resolve(&mut self, process: ProcessHandle, address: u64) -> (frame:
        InternalFrameAddress)
        requires
            old(self).wf(),
            old(self).has_process(process),
        ensures
            final(self).wf(),
            final(self).kernel_libs() == old(self).kernel_libs(),
            final(self).processes() == old(self).processes(),
            final(self).thread_owners() == old(self).thread_owners(),
            match resolve(old(self).kernel_libs(), old(self).process(process).libs, address) {
                Some(m) => frame matches InternalFrameAddress::InLib(relative_address, index)
                    && relative_address == m.relative_address(address) && old(self).has_lib(
                    m.value,
                ) && marks_used(
                    old(self).lib_table(),
                    old(self).strings(),
                    m.value,
                    final(self).lib_table(),
                    final(self).strings(),
                    index,
                ),
                None => frame == InternalFrameAddress::Unknown(address) && final(self).lib_table()
                    == old(self).lib_table() && final(self).strings() == old(self).strings(),
            },
    {
        proof {
            lemma_lookup_none(self.kernel_libs@, address);
            lemma_lookup_none(self.processes.process(process).libs, address);
        }
        self.processes.resolve(
            process,
            &mut self.global_libs,
            &self.kernel_libs,
            &mut self.string_table,
            address,
        )
    }

    /// How the process `a` stands to the process `b` in the order in which
    /// processes are written out: by start time, and among processes that started
    /// together by process id, compared as strings and not as numbers.
    pub fn order_for_output(&self, a: ProcessHandle, b: ProcessHandle) -> (o: Ordering)
        requires
            self.has_process(a),
            self.has_process(b),
        ensures
            o == json_order(self.process(a), self.process(b)),
    {
        self.processes.order_for_output(a, b)
    }
}

} // verus!
