//! The processes of a profile, each known by a handle.
//!
//! The directory owns the processes. Whoever watches the traced system tells it
//! what happens to a process: that it was seen, that it got a thread, that a
//! library was mapped in it, that it ended.

use std::cmp::Ordering;
use vstd::prelude::*;
use crate::frame_table::InternalFrameAddress;
use crate::global_lib_table::{marks_used, GlobalLibTable, LibraryHandle};
use crate::lib_mappings::LibMappings;
use crate::process::{json_order, resolve, Process, ProcessView, ThreadHandle};
use crate::ranges::{range_fits, starting_at, with_mapping, without_start, Mapping};
use crate::string_table::ProfileStringTable;
use crate::timestamp::Timestamp;

verus! {

/// A process of a [`ProcessDirectory`].
#[derive(Clone, Copy, Debug, PartialEq, Eq, Structural)]
pub struct ProcessHandle(usize);

impl ProcessHandle {
    /// The place of the process among the processes of its directory.
    pub closed spec fn index(self) -> nat {
        self.0 as nat
    }

    /// Two handles with one place are one handle.
    pub proof fn lemma_same_index(self, other: ProcessHandle)
        ensures
            self.index() == other.index() <==> self == other,
    {
    }
}

/// The processes of a profile and their threads.
pub struct ProcessDirectory {
    /// The processes, by the place that their handles hold.
    processes: Vec<Process>,
    /// For each thread, by its number, the process that it belongs to.
    thread_owners: Vec<ProcessHandle>,
}

impl ProcessDirectory {
    /// The processes, in the order in which they were created. A handle's place
    /// is the place of its process here.
    pub closed spec fn processes(&self) -> Seq<ProcessView> {
        Seq::new(self.processes.len() as nat, |i: int| self.processes[i]@)
    }

    /// For each thread, by its number, the process that it belongs to.
    pub closed spec fn thread_owners(&self) -> Seq<ProcessHandle> {
        self.thread_owners@
    }

    /// The handle was made by this directory.
    pub open spec fn has_process(&self, h: ProcessHandle) -> bool {
        h.index() < self.processes().len()
    }

    /// The process that `h` stands for.
    pub open spec fn process(&self, h: ProcessHandle) -> ProcessView {
        self.processes()[h.index() as int]
    }

    /// The directory after the process `h` became `p`.
    pub open spec fn with_process(&self, h: ProcessHandle, p: ProcessView) -> Seq<ProcessView> {
        self.processes().update(h.index() as int, p)
    }

    /// The invariant of the type: each process is well formed, and each thread
    /// belongs to a process of the directory.
    pub closed spec fn wf(&self) -> bool {
        &&& forall|i: int| 0 <= i < self.processes.len() ==> (#[trigger] self.processes[i]).wf()
        &&& forall|t: int|
            0 <= t < self.thread_owners.len() ==> (#[trigger] self.thread_owners[t]).0
                < self.processes.len()
    }

    /// In a well-formed directory the libraries of each process lie at disjoint
    /// ranges, and each thread belongs to a process of the directory.
    pub proof fn lemma_wf(&self)
        requires
            self.wf(),
        ensures
            forall|i: int|
                0 <= i < self.processes().len() ==> crate::ranges::disjoint_ranges(
                    (#[trigger] self.processes()[i]).libs,
                ),
            forall|t: int|
                0 <= t < self.thread_owners().len() ==> self.has_process(
                    #[trigger] self.thread_owners()[t],
                ),
    {
        assert forall|i: int| 0 <= i < self.processes().len() implies crate::ranges::disjoint_ranges(
            (#[trigger] self.processes()[i]).libs,
        ) by {
            self.processes[i].lemma_disjoint();
        }
        assert forall|t: int| 0 <= t < self.thread_owners().len() implies self.has_process(
            #[trigger] self.thread_owners()[t],
        ) by {
            assert(self.thread_owners[t].0 < self.processes.len());
        }
    }

    /// A directory without processes.
    pub fn new() -> (d: Self)
        ensures
            d.wf(),
            d.processes() == Seq::<ProcessView>::empty(),
            d.thread_owners() == Seq::<ProcessHandle>::empty(),
    {
        let d = ProcessDirectory { processes: Vec::new(), thread_owners: Vec::new() };
        assert(d.processes() =~= Seq::<ProcessView>::empty());
        d
    }

    /// Takes note of a process that was seen for the first time. It has no
    /// threads and no end yet, and nothing is mapped in it.
    pub fn create(&mut self, name: &str, pid: String, start_time: Timestamp) -> (h: ProcessHandle)
        requires
            old(self).wf(),
        ensures
            final(self).wf(),
            h.index() == old(self).processes().len(),
            final(self).processes() == old(self).processes().push(
                ProcessView {
                    pid: pid@,
                    name: name@,
                    threads: Seq::empty(),
                    main_thread: None,
                    start_time,
                    end_time: None,
                    libs: Set::empty(),
                },
            ),
            final(self).thread_owners() == old(self).thread_owners(),
    {
        let h = ProcessHandle(self.processes.len());
        let process = Process::new(name, pid, start_time);
        let ghost view = process@;
        self.processes.push(process);
        proof {
            assert(self.processes() =~= old(self).processes().push(view));
        }
        h
    }

    /// The number of processes.
    pub fn process_count(&self) -> (n: usize)
        ensures
            n == self.processes().len(),
    {
        self.processes.len()
    }

    /// Whether `h` was made by this directory.
    pub fn contains(&self, h: ProcessHandle) -> (b: bool)
        ensures
            b == self.has_process(h),
    {
        h.0 < self.processes.len()
    }

    /// The process that `h` stands for.
    pub fn get(&self, h: ProcessHandle) -> (p: &Process)
        requires
            self.wf(),
            self.has_process(h),
        ensures
            p@ == self.process(h),
            p.wf(),
    {
        &self.processes[h.0]
    }

    /// The process that the thread `t` belongs to; `None` where the directory
    /// has no such thread.
    pub fn process_of(&self, t: ThreadHandle) -> (h: Option<ProcessHandle>)
        ensures
            h == if t.index() < self.thread_owners().len() {
                Some(self.thread_owners()[t.index() as int])
            } else {
                None
            },
    {
        let i = t.to_usize();
        if i < self.thread_owners.len() {
            Some(self.thread_owners[i])
        } else {
            None
        }
    }

    /// Corrects the start time of a process.
    pub fn set_start_time(&mut self, h: ProcessHandle, start_time: Timestamp)
        requires
            old(self).wf(),
            old(self).has_process(h),
        ensures
            final(self).wf(),
            final(self).processes() == old(self).with_process(
                h,
                ProcessView { start_time, ..old(self).process(h) },
            ),
            final(self).thread_owners() == old(self).thread_owners(),
    {
        self.processes[h.0].set_start_time(start_time);
        proof {
            self.lemma_changed_one(*old(self), h);
        }
    }

    /// Marks a process as ended at `end_time`.
    pub fn set_end_time(&mut self, h: ProcessHandle, end_time: Timestamp)
        requires
            old(self).wf(),
            old(self).has_process(h),
        ensures
            final(self).wf(),
            final(self).processes() == old(self).with_process(
                h,
                ProcessView { end_time: Some(end_time), ..old(self).process(h) },
            ),
            final(self).thread_owners() == old(self).thread_owners(),
    {
        self.processes[h.0].set_end_time(end_time);
        proof {
            self.lemma_changed_one(*old(self), h);
        }
    }

    /// Gives a process a new name.
    pub fn set_name(&mut self, h: ProcessHandle, name: &str)
        requires
            old(self).wf(),
            old(self).has_process(h),
        ensures
            final(self).wf(),
            final(self).processes() == old(self).with_process(
                h,
                ProcessView { name: name@, ..old(self).process(h) },
            ),
            final(self).thread_owners() == old(self).thread_owners(),
    {
        self.processes[h.0].set_name(name);
        proof {
            self.lemma_changed_one(*old(self), h);
        }
    }

    /// Gives a process a new thread, and returns the thread's handle. The first
    /// thread that is added as the main thread is the main thread for good.
    pub fn add_thread(&mut self, h: ProcessHandle, is_main: bool) -> (t: ThreadHandle)
        requires
            old(self).wf(),
            old(self).has_process(h),
        ensures
            final(self).wf(),
            t.index() == old(self).thread_owners().len(),
            final(self).thread_owners() == old(self).thread_owners().push(h),
            final(self).processes() == old(self).with_process(
                h,
                ProcessView {
                    threads: old(self).process(h).threads.push(t),
                    main_thread: if is_main && old(self).process(h).main_thread is None {
                        Some(t)
                    } else {
                        old(self).process(h).main_thread
                    },
                    ..old(self).process(h)
                },
            ),
    {
        let t = ThreadHandle::from_index(self.thread_owners.len());
        self.thread_owners.push(h);
        self.processes[h.0].add_thread(t, is_main);
        proof {
            self.lemma_changed_one(*old(self), h);
        }
        t
    }

    /// Maps the library `lib` at `[start_avma, end_avma)` in the address space of
    /// a process. Whatever was mapped at any of these addresses gives way.
    pub fn add_lib_mapping(
        &mut self,
        h: ProcessHandle,
        lib: LibraryHandle,
        start_avma: u64,
        end_avma: u64,
        relative_address_at_start: u32,
    )
        requires
            old(self).wf(),
            old(self).has_process(h),
            range_fits(start_avma, end_avma, relative_address_at_start),
        ensures
            final(self).wf(),
            final(self).processes() == old(self).with_process(
                h,
                ProcessView {
                    libs: with_mapping(
                        old(self).process(h).libs,
                        Mapping { start_avma, end_avma, relative_address_at_start, value: lib },
                    ),
                    ..old(self).process(h)
                },
            ),
            final(self).thread_owners() == old(self).thread_owners(),
    {
        self.processes[h.0].add_lib_mapping(lib, start_avma, end_avma, relative_address_at_start);
        proof {
            self.lemma_changed_one(*old(self), h);
        }
    }

    /// Unmaps the library that was mapped in a process at a range starting at
    /// `start_avma`. Where none was, nothing changes.
    pub fn remove_lib_mapping(&mut self, h: ProcessHandle, start_avma: u64)
        requires
            old(self).wf(),
            old(self).has_process(h),
        ensures
            final(self).wf(),
            final(self).processes() == old(self).with_process(
                h,
                ProcessView {
                    libs: without_start(old(self).process(h).libs, start_avma),
                    ..old(self).process(h)
                },
            ),
            starting_at(old(self).process(h).libs, start_avma) is None ==> final(self).processes()
                == old(self).processes(),
            final(self).thread_owners() == old(self).thread_owners(),
    {
        self.processes[h.0].remove_lib_mapping(start_avma);
        proof {
            self.lemma_changed_one(*old(self), h);
            if starting_at(old(self).process(h).libs, start_avma) is None {
                assert(self.processes() =~= old(self).processes());
            }
        }
    }

    /// Unmaps every library of a process.
    pub fn remove_all_lib_mappings(&mut self, h: ProcessHandle)
        requires
            old(self).wf(),
            old(self).has_process(h),
        ensures
            final(self).wf(),
            final(self).processes() == old(self).with_process(
                h,
                ProcessView { libs: Set::empty(), ..old(self).process(h) },
            ),
            final(self).thread_owners() == old(self).thread_owners(),
    {
        self.processes[h.0].remove_all_lib_mappings();
        proof {
            self.lemma_changed_one(*old(self), h);
        }
    }

    /// Resolves an address that was sampled in the process `h`. The kernel's
    /// libraries are asked first, then the process's own. Where a library is
    /// found, it is marked as used in `global_libs` and the address becomes a
    /// relative address in that library. Where none is found, the address is
    /// kept as it is, and nothing changes.
    pub fn resolve(
        &self,
        h: ProcessHandle,
        global_libs: &mut GlobalLibTable,
        kernel_libs: &LibMappings<LibraryHandle>,
        string_table: &mut ProfileStringTable,
        address: u64,
    ) -> (frame: InternalFrameAddress)
        requires
            self.wf(),
            self.has_process(h),
            kernel_libs.wf(),
            old(global_libs).wf(),
            old(string_table).wf(),
            resolve(kernel_libs@, self.process(h).libs, address) matches Some(m) ==> old(
                global_libs,
            ).has_handle(m.value),
        ensures
            final(global_libs).wf(),
            final(string_table).wf(),
            match resolve(kernel_libs@, self.process(h).libs, address) {
                Some(m) => frame matches InternalFrameAddress::InLib(relative_address, index)
                    && relative_address == m.relative_address(address) && marks_used(
                    *old(global_libs),
                    old(string_table)@,
                    m.value,
                    *final(global_libs),
                    final(string_table)@,
                    index,
                ),
                None => frame == InternalFrameAddress::Unknown(address) && *final(global_libs)
                    == *old(global_libs) && *final(string_table) == *old(string_table),
            },
    {
        self.processes[h.0].resolve_address(global_libs, kernel_libs, string_table, address)
    }

    /// How the process `a` stands to the process `b` in the order in which
    /// processes are written out: by start time, and among processes that started
    /// together by process id, compared as strings and not as numbers.
    pub fn order_for_output(&self, a: ProcessHandle, b: ProcessHandle) -> (o: Ordering)
        requires
            self.has_process(a),
            self.has_process(b),
        ensures
            o == json_order(self.process(a), self.process(b)),
    {
        self.processes[a.0].cmp_for_json_order(&self.processes[b.0])
    }

    /// After a change to the process `h` alone, the processes are the old ones
    /// with that one replaced, and the directory is well formed if the process is.
    proof fn lemma_changed_one(&self, before: ProcessDirectory, h: ProcessHandle)
        requires
            before.wf(),
            h.0 < before.processes.len(),
            self.processes.len() == before.processes.len(),
            forall|i: int|
                0 <= i < self.processes.len() && i != h.0 ==> self.processes[i]
                    == before.processes[i],
            self.processes[h.0 as int].wf(),
            self.thread_owners@ == before.thread_owners@ || self.thread_owners@
                == before.thread_owners@.push(h),
        ensures
            self.wf(),
            self.processes() == before.with_process(h, self.processes[h.0 as int]@),
    {
        assert(self.processes() =~= before.with_process(h, self.processes[h.0 as int]@));
        assert forall|t: int| 0 <= t < self.thread_owners.len() implies (
        #[trigger] self.thread_owners[t]).0 < self.processes.len() by {
            if t < before.thread_owners.len() {
                assert(self.thread_owners[t] == before.thread_owners[t]);
            }
        }
    }
}

} // verus!
