//! The course of a recording: which processes it is about, how often the
//! program under observation is launched, and what is left to clean up.

use vstd::prelude::*;
use vstd::string::StringExecFns;

verus! {

/// The processes that a profile is to hold.
#[derive(Debug)]
pub struct IncludedProcesses {
    /// Processes whose name holds one of these strings are included.
    pub name_substrings: Vec<String>,
    /// Processes with one of these ids are included.
    pub pids: Vec<u32>,
}

/// The processes to include when one process is observed: that process alone.
pub fn included_processes_for_pid(pid: u32) -> (included: IncludedProcesses)
    ensures
        included.name_substrings@.len() == 0,
        included.pids@ == seq![pid],
{
    let mut pids: Vec<u32> = Vec::new();
    pids.push(pid);
    IncludedProcesses { name_substrings: Vec::new(), pids }
}

/// The launches of the program under observation, as the contracts see them.
pub struct LaunchesView {
    /// How often the program is to be launched at most.
    pub iteration_count: u32,
    /// Whether a launch that ended badly is followed by another all the same.
    pub ignore_exit_code: bool,
    /// The ids of the processes launched so far.
    pub pids: Seq<u32>,
    /// Whether a launch ended so that no other follows.
    pub given_up: bool,
}

impl LaunchesView {
    /// Whether the program is to be launched once more.
    pub open spec fn wants_launch(self) -> bool {
        !self.given_up && self.pids.len() < self.iteration_count
    }
}

/// The launches of the program under observation: it is launched again and
/// again, up to a given number of times, and each launch is waited for. A launch
/// that ends badly is the last, unless exit codes are ignored.
pub struct Launches {
    iteration_count: u32,
    ignore_exit_code: bool,
    pids: Vec<u32>,
    given_up: bool,
}

impl View for Launches {
    type V = LaunchesView;

    closed spec fn view(&self) -> LaunchesView {
        LaunchesView {
            iteration_count: self.iteration_count,
            ignore_exit_code: self.ignore_exit_code,
            pids: self.pids@,
            given_up: self.given_up,
        }
    }
}

impl Launches {
    /// No launch yet.
    pub fn new(iteration_count: u32, ignore_exit_code: bool) -> (launches: Self)
        ensures
            launches@ == (LaunchesView {
                iteration_count,
                ignore_exit_code,
                pids: Seq::empty(),
                given_up: false,
            }),
    {
        Launches { iteration_count, ignore_exit_code, pids: Vec::new(), given_up: false }
    }

    /// Whether the program is to be launched once more.
    pub fn wants_launch(&self) -> (b: bool)
        ensures
            b == self@.wants_launch(),
    {
        !self.given_up && self.pids.len() < self.iteration_count as usize
    }

    /// Takes note of a launch that has ended: the id of its process, and whether
    /// it ended well. Returns whether the launches that were still to come are
    /// skipped because of how this one ended.
    pub fn launch_ended(&mut self, pid: u32, success: bool) -> (skips_rest: bool)
        ensures
            skips_rest == (!old(self)@.ignore_exit_code && !success),
            final(self)@ == (LaunchesView {
                pids: old(self)@.pids.push(pid),
                given_up: old(self)@.given_up || skips_rest,
                ..old(self)@
            }),
    {
        self.pids.push(pid);
        if !self.ignore_exit_code && !success {
            self.given_up = true;
            true
        } else {
            false
        }
    }

    /// The processes to include in the profile: those that were launched.
    pub fn into_included_processes(self) -> (included: IncludedProcesses)
        ensures
            included.name_substrings@.len() == 0,
            included.pids@ == self@.pids,
    {
        IncludedProcesses { name_substrings: Vec::new(), pids: self.pids }
    }
}

/// The architecture that the profile is made for: the one that was asked for,
/// or else that of this machine.
pub fn profile_arch(override_arch: Option<String>, native_arch: &str) -> (arch: String)
    ensures
        arch@ == match override_arch {
            Some(a) => a@,
            None => native_arch@,
        },
{
    match override_arch {
        Some(a) => a,
        None => String::from_str(native_arch),
    }
}

/// The name of the operating system in the profile.
pub fn os_name(windows_version: &str) -> (name: String)
    ensures
        name@ == "Windows "@ + windows_version@,
{
    let mut name = String::from_str("Windows ");
    name.append(windows_version);
    name
}

/// The trace files besides the kernel's that are to be read: the user's, where
/// there is one.
pub fn extra_etls(user_output_file: Option<&str>) -> (files: Vec<String>)
    ensures
        files@.len() == if user_output_file is Some {
            1nat
        } else {
            0nat
        },
        user_output_file matches Some(f) ==> files@[0]@ == f@,
{
    let mut files: Vec<String> = Vec::new();
    if let Some(f) = user_output_file {
        files.push(String::from_str(f));
    }
    files
}

/// The trace files to delete once the profile is made: none where they are to
/// be kept; else the kernel's, and then the user's where there is one.
pub fn etls_to_delete(keep_etl: bool, kernel_output_file: &str, user_output_file: Option<&str>) -> (files: Vec<String>)
    ensures
        files@.len() == if keep_etl {
            0nat
        } else if user_output_file is Some {
            2nat
        } else {
            1nat
        },
        !keep_etl ==> files@[0]@ == kernel_output_file@,
        !keep_etl ==> (user_output_file matches Some(f) ==> files@[1]@ == f@),
{
    let mut files: Vec<String> = Vec::new();
    if !keep_etl {
        files.push(String::from_str(kernel_output_file));
        if let Some(f) = user_output_file {
            files.push(String::from_str(f));
        }
    }
    files
}

} // verus!
