//! The recorder `xperf`: whether it is recording, to which files, and with which
//! arguments it is to be started and stopped.
//!
//! Nothing here runs `xperf`. The functions keep track of the recording and say
//! what is to be run; whoever calls them runs it.

use vstd::prelude::*;
use vstd::string::StringExecFns;
use crate::text::{decimal_string, decimal_text, join, joined, texts};

verus! {

/// The shortest sampling interval that `xperf` takes, in nanoseconds (8192 Hz).
pub const MIN_INTERVAL_NANOS: u64 = 122100;

/// `xperf` counts the sampling interval in ticks of this many nanoseconds.
pub const NANOS_PER_TICK: u64 = 100;

/// Why a recording could not be started or stopped.
#[derive(Clone, Copy, Debug, PartialEq, Eq, Structural)]
pub enum XperfError {
    /// No `xperf` is installed where it could be found.
    NotFound,
    /// There is no recording to stop.
    NotRunning,
}

/// How a recording is to be made.
pub struct ElevatedRecordingProps {
    /// The time between two samples, in nanoseconds.
    pub interval_nanos: u64,
    /// Whether to leave out the events that a virtual machine cannot record.
    pub vm_hack: bool,
}

/// A call of `xperf`: the program and its arguments.
#[derive(Debug)]
pub struct XperfCommand {
    pub program: String,
    pub args: Vec<String>,
}

/// What is to be done to stop a recording: `command` is run, which merges what
/// was recorded into `merged_etl`; then the files `unmerged_etls` are deleted,
/// in order, up to the first that cannot be.
#[derive(Debug)]
pub struct StopPlan {
    pub command: XperfCommand,
    pub merged_etl: String,
    pub unmerged_etls: Vec<String>,
}

/// What is to be done to start a recording: where one was running, it is
/// stopped first, whether or not that goes well; then `command` is run.
#[derive(Debug)]
pub struct StartPlan {
    pub stop_first: Option<StopPlan>,
    pub command: XperfCommand,
}

/// What `xperf` is recording.
pub enum Recording {
    /// Nothing.
    Stopped,
    /// The kernel's events, to this file.
    KernelToFile(Seq<char>),
    /// The kernel's events to the first file, and the events of user providers
    /// to the second.
    KernelAndUserToFile(Seq<char>, Seq<char>),
}

/// The sampling interval in ticks: intervals below the shortest are raised to
/// it, and a part of a tick is dropped.
pub open spec fn interval_ticks_of(interval_nanos: u64) -> nat {
    if interval_nanos < MIN_INTERVAL_NANOS {
        (MIN_INTERVAL_NANOS / NANOS_PER_TICK) as nat
    } else {
        (interval_nanos / NANOS_PER_TICK) as nat
    }
}

/// The kernel events that are recorded.
pub open spec fn kernel_events(vm_hack: bool) -> Seq<char> {
    if vm_hack {
        "PROC_THREAD+LOADER+CSWITCH+SYSCALL+VIRT_ALLOC+OB_HANDLE"@
    } else {
        "PROC_THREAD+LOADER+PROFILE+CSWITCH"@
    }
}

/// The kernel events with which stacks are recorded.
pub open spec fn stackwalk_events(vm_hack: bool) -> Seq<char> {
    if vm_hack {
        "CSWITCH+VirtualAlloc+VirtualFree+HandleCreate+HandleClose"@
    } else {
        "PROFILE+CSWITCH"@
    }
}

/// The arguments that start a recording of the kernel's events to
/// `kernel_etl_file` and, where there are user providers, of their events to
/// `user_etl_file`. All user providers go into one argument, with `+` between
/// them.
pub open spec fn start_args(
    kernel_etl_file: Seq<char>,
    user_etl_file: Seq<char>,
    props: ElevatedRecordingProps,
    user_providers: Seq<Seq<char>>,
) -> Seq<Seq<char>> {
    let kernel = seq![
        "-SetProfInt"@,
        decimal_text(interval_ticks_of(props.interval_nanos)),
        "-on"@,
        kernel_events(props.vm_hack),
        "-stackwalk"@,
        stackwalk_events(props.vm_hack),
        "-f"@,
        kernel_etl_file,
    ];
    if user_providers.len() > 0 {
        kernel + seq![
            "-start"@,
            "SamplySession"@,
            "-on"@,
            joined(user_providers, "+"@),
            "-f"@,
            user_etl_file,
        ]
    } else {
        kernel
    }
}

/// What is being recorded once a recording with these files and user providers
/// was started.
pub open spec fn recording_to(
    kernel_etl_file: Seq<char>,
    user_etl_file: Seq<char>,
    user_providers: Seq<Seq<char>>,
) -> Recording {
    if user_providers.len() > 0 {
        Recording::KernelAndUserToFile(kernel_etl_file, user_etl_file)
    } else {
        Recording::KernelToFile(kernel_etl_file)
    }
}

/// The arguments that stop a recording and merge it into `merged_etl`.
pub open spec fn stop_args(user_session: bool, merged_etl: Seq<char>) -> Seq<Seq<char>> {
    if user_session {
        seq!["-stop"@, "-stop"@, "SamplySession"@, "-d"@, merged_etl]
    } else {
        seq!["-stop"@, "-d"@, merged_etl]
    }
}

/// The files that a recording leaves behind once it was merged.
pub open spec fn unmerged_files(recording: Recording) -> Seq<Seq<char>> {
    match recording {
        Recording::Stopped => Seq::empty(),
        Recording::KernelToFile(kernel) => seq![kernel],
        Recording::KernelAndUserToFile(kernel, user) => seq![kernel, user],
    }
}

/// `plan` stops `recording` with the program `program`.
pub open spec fn stops(plan: StopPlan, program: Seq<char>, recording: Recording) -> bool {
    &&& plan.command.program@ == program
    &&& texts(plan.command.args@) == stop_args(
        recording is KernelAndUserToFile,
        plan.merged_etl@,
    )
    &&& texts(plan.unmerged_etls@) == unmerged_files(recording)
}

/// The text holds no character that parts the names of a path on any platform:
/// neither `/` nor `\`.
pub open spec fn without_separators(text: Seq<char>) -> bool {
    forall|i: int| 0 <= i < text.len() ==> text[i] != '/' && text[i] != '\\'
}

/// Calls `std::path::Path::with_extension` on `path`, and hands the new path
/// back as a string. That function panics on an extension that holds a path
/// separator, so such an extension is not taken. How a path is taken apart
/// depends on the platform, so the contract claims nothing of the result.
#[verifier::external_body]
fn with_extension(path: &str, extension: &str) -> String
    requires
        without_separators(extension@),
{
    std::path::Path::new(path).with_extension(extension).to_string_lossy().into_owned()
}

/// The sampling interval in ticks.
pub fn interval_ticks(interval_nanos: u64) -> (ticks: u64)
    ensures
        ticks == interval_ticks_of(interval_nanos),
{
    let interval_nanos = if interval_nanos < MIN_INTERVAL_NANOS {
        MIN_INTERVAL_NANOS
    } else {
        interval_nanos
    };
    interval_nanos / NANOS_PER_TICK
}

/// The arguments that start a recording. See [`start_args`].
pub fn start_command_args(
    kernel_etl_file: &str,
    user_etl_file: &str,
    props: &ElevatedRecordingProps,
    user_providers: &Vec<String>,
) -> (args: Vec<String>)
    ensures
        texts(args@) == start_args(kernel_etl_file@, user_etl_file@, *props, texts(user_providers@)),
{
    let mut args: Vec<String> = Vec::new();
    args.push(String::from_str("-SetProfInt"));
    args.push(decimal_string(interval_ticks(props.interval_nanos)));
    args.push(String::from_str("-on"));
    if !props.vm_hack {
        args.push(String::from_str("PROC_THREAD+LOADER+PROFILE+CSWITCH"));
        args.push(String::from_str("-stackwalk"));
        args.push(String::from_str("PROFILE+CSWITCH"));
    } else {
        args.push(String::from_str("PROC_THREAD+LOADER+CSWITCH+SYSCALL+VIRT_ALLOC+OB_HANDLE"));
        args.push(String::from_str("-stackwalk"));
        args.push(
            String::from_str("CSWITCH+VirtualAlloc+VirtualFree+HandleCreate+HandleClose"),
        );
    }
    args.push(String::from_str("-f"));
    args.push(String::from_str(kernel_etl_file));
    if user_providers.len() > 0 {
        args.push(String::from_str("-start"));
        args.push(String::from_str("SamplySession"));
        args.push(String::from_str("-on"));
        args.push(join(user_providers, "+"));
        args.push(String::from_str("-f"));
        args.push(String::from_str(user_etl_file));
    }
    proof {
        assert(texts(args@) =~= start_args(
            kernel_etl_file@,
            user_etl_file@,
            *props,
            texts(user_providers@),
        ));
    }
    args
}

/// The arguments that stop a recording and merge it into `merged_etl`. See
/// [`stop_args`].
pub fn stop_command_args(user_session: bool, merged_etl: &str) -> (args: Vec<String>)
    ensures
        texts(args@) == stop_args(user_session, merged_etl@),
{
    let mut args: Vec<String> = Vec::new();
    args.push(String::from_str("-stop"));
    if user_session {
        args.push(String::from_str("-stop"));
        args.push(String::from_str("SamplySession"));
    }
    args.push(String::from_str("-d"));
    args.push(String::from_str(merged_etl));
    proof {
        assert(texts(args@) =~= stop_args(user_session, merged_etl@));
    }
    args
}

/// What is being recorded, to which files.
enum XperfState {
    Stopped,
    RecordingKernelToFile(String),
    RecordingKernelAndUserToFile(String, String),
}

/// The recorder.
pub struct Xperf {
    state: XperfState,
    xperf_path: Option<String>,
}

impl Xperf {
    /// What is being recorded.
    pub closed spec fn recording(&self) -> Recording {
        match self.state {
            XperfState::Stopped => Recording::Stopped,
            XperfState::RecordingKernelToFile(kernel) => Recording::KernelToFile(kernel@),
            XperfState::RecordingKernelAndUserToFile(kernel, user) => Recording::KernelAndUserToFile(
                kernel@,
                user@,
            ),
        }
    }

    /// The path of `xperf`, once it was found.
    pub closed spec fn known_path(&self) -> Option<Seq<char>> {
        match self.xperf_path {
            Some(path) => Some(path@),
            None => None,
        }
    }

    /// The invariant of the type: while a recording runs, the path of `xperf` is
    /// known.
    pub open spec fn wf(&self) -> bool {
        !(self.recording() is Stopped) ==> self.known_path() is Some
    }

    /// A recorder that records nothing and has not looked for `xperf` yet.
    pub fn new() -> (x: Self)
        ensures
            x.wf(),
            x.recording() is Stopped,
            x.known_path() is None,
    {
        Self { state: XperfState::Stopped, xperf_path: None }
    }

    /// Whether a recording runs.
    pub fn is_running(&self) -> (b: bool)
        ensures
            b == !(self.recording() is Stopped),
    {
        match &self.state {
            XperfState::RecordingKernelToFile(_) => true,
            XperfState::RecordingKernelAndUserToFile(_, _) => true,
            XperfState::Stopped => false,
        }
    }

    /// The path of `xperf`, once it was found.
    pub fn xperf_path(&self) -> (path: Option<String>)
        ensures
            match path {
                Some(p) => self.known_path() == Some(p@),
                None => self.known_path() is None,
            },
    {
        match &self.xperf_path {
            Some(p) => Some(p.clone()),
            None => None,
        }
    }

    /// The path of `xperf`. Where it is known already, it is returned, and
    /// `found` does not count. Otherwise `found` is what a search for `xperf`
    /// gave: a path, which is kept from now on, or nothing, which is an error.
    pub fn get_xperf_path(&mut self, found: Option<String>) -> (r: Result<String, XperfError>)
        ensures
            final(self).recording() == old(self).recording(),
            match (old(self).known_path(), found) {
                (Some(known), _) => r matches Ok(p) && p@ == known && final(self).known_path()
                    == Some(known),
                (None, Some(f)) => r matches Ok(p) && p@ == f@ && final(self).known_path() == Some(
                    f@,
                ),
                (None, None) => r == Err::<String, XperfError>(XperfError::NotFound)
                    && final(self).known_path() is None,
            },
    {
        if let Some(p) = &self.xperf_path {
            return Ok(p.clone());
        }
        match found {
            Some(f) => {
                self.xperf_path = Some(f.clone());
                Ok(f)
            },
            None => Err(XperfError::NotFound),
        }
    }

    /// Stops the recording, and says what is to be done for it: the call of
    /// `xperf` that stops and merges the recording, the file that it merges
    /// into (the kernel's file with the extension `etl`), and the files to
    /// delete afterwards. Where nothing is being recorded, that is an error.
    pub fn stop_xperf(&mut self) -> (r: Result<StopPlan, XperfError>)
        requires
            old(self).wf(),
        ensures
            final(self).wf(),
            final(self).recording() is Stopped,
            final(self).known_path() == old(self).known_path(),
            match old(self).recording() {
                Recording::Stopped => r == Err::<StopPlan, XperfError>(XperfError::NotRunning),
                recording => r matches Ok(plan) && stops(
                    plan,
                    old(self).known_path()->0,
                    recording,
                ),
            },
    {
        let mut prev_state = XperfState::Stopped;
        std::mem::swap(&mut self.state, &mut prev_state);
        let (kernel_etl, user_etl) = match prev_state {
            XperfState::Stopped => {
                return Err(XperfError::NotRunning);
            },
            XperfState::RecordingKernelToFile(kpath) => (kpath, None),
            XperfState::RecordingKernelAndUserToFile(kpath, upath) => (kpath, Some(upath)),
        };
        proof {
            reveal_strlit("etl");
        }
        let merged_etl = with_extension(kernel_etl.as_str(), "etl");
        let program = match &self.xperf_path {
            Some(p) => p.clone(),
            None => {
                return Err(XperfError::NotRunning);
            },
        };
        let args = stop_command_args(user_etl.is_some(), merged_etl.as_str());
        let mut unmerged_etls: Vec<String> = Vec::new();
        let ghost kernel_text = kernel_etl@;
        unmerged_etls.push(kernel_etl);
        match user_etl {
            Some(user_etl) => {
                let ghost user_text = user_etl@;
                unmerged_etls.push(user_etl);
                proof {
                    assert(texts(unmerged_etls@) =~= seq![kernel_text, user_text]);
                }
            },
            None => {
                proof {
                    assert(texts(unmerged_etls@) =~= seq![kernel_text]);
                }
            },
        }
        Ok(StopPlan { command: XperfCommand { program, args }, merged_etl, unmerged_etls })
    }

    /// Starts a recording, and says what is to be done for it. `found` is what a
    /// search for `xperf` gave, and counts only where the path of `xperf` is not
    /// known yet; where it is neither known nor found, that is an error and
    /// nothing changes.
    ///
    /// A recording that runs is stopped first. The kernel's events are then
    /// recorded to `output_path` with the extension `unmerged-etl`, and where
    /// there are user providers, their events to the same path with the
    /// extension `user-unmerged-etl`.
    pub fn start_xperf(
        &mut self,
        found: Option<String>,
        output_path: &str,
        props: &ElevatedRecordingProps,
        user_providers: &Vec<String>,
    ) -> (r: Result<StartPlan, XperfError>)
        requires
            old(self).wf(),
        ensures
            final(self).wf(),
            match r {
                Ok(plan) => {
                    &&& old(self).known_path() is Some || found is Some
                    &&& final(self).known_path() == Some(plan.command.program@)
                    &&& plan.command.program@ == if old(self).known_path() is Some {
                        old(self).known_path()->0
                    } else {
                        found->0@
                    }
                    &&& match plan.stop_first {
                        Some(stop) => !(old(self).recording() is Stopped) && stops(
                            stop,
                            plan.command.program@,
                            old(self).recording(),
                        ),
                        None => old(self).recording() is Stopped,
                    }
                    &&& exists|kernel_etl_file: Seq<char>, user_etl_file: Seq<char>|
                        final(self).recording() == recording_to(
                            kernel_etl_file,
                            user_etl_file,
                            texts(user_providers@),
                        ) && texts(plan.command.args@) == #[trigger] start_args(
                            kernel_etl_file,
                            user_etl_file,
                            *props,
                            texts(user_providers@),
                        )
                },
                Err(e) => e == XperfError::NotFound && old(self).known_path() is None
                    && found is None && final(self).recording() == old(self).recording()
                    && final(self).known_path() is None,
            },
    {
        let program = match self.get_xperf_path(found) {
            Ok(p) => p,
            Err(e) => {
                return Err(e);
            },
        };
        let stop_first = if self.is_running() {
            match self.stop_xperf() {
                Ok(plan) => Some(plan),
                Err(_) => None,
            }
        } else {
            None
        };
        proof {
            reveal_strlit("unmerged-etl");
            reveal_strlit("user-unmerged-etl");
        }
        let kernel_etl_file = with_extension(output_path, "unmerged-etl");
        let user_etl_file = with_extension(kernel_etl_file.as_str(), "user-unmerged-etl");
        let args = self.record_to(kernel_etl_file, user_etl_file, props, user_providers);
        Ok(StartPlan { stop_first, command: XperfCommand { program, args } })
    }

    /// Takes note that a recording to these files starts, and returns the
    /// arguments that start it. The user's file counts only where there are user
    /// providers.
    pub fn record_to(
        &mut self,
        kernel_etl_file: String,
        user_etl_file: String,
        props: &ElevatedRecordingProps,
        user_providers: &Vec<String>,
    ) -> (args: Vec<String>)
        ensures
            final(self).known_path() == old(self).known_path(),
            final(self).recording() == recording_to(
                kernel_etl_file@,
                user_etl_file@,
                texts(user_providers@),
            ),
            texts(args@) == start_args(
                kernel_etl_file@,
                user_etl_file@,
                *props,
                texts(user_providers@),
            ),
    {
        let args = start_command_args(
            kernel_etl_file.as_str(),
            user_etl_file.as_str(),
            props,
            user_providers,
        );
        if user_providers.len() > 0 {
            self.state = XperfState::RecordingKernelAndUserToFile(kernel_etl_file, user_etl_file);
        } else {
            self.state = XperfState::RecordingKernelToFile(kernel_etl_file);
        }
        args
    }
}

impl XperfError {
    /// The error in words.
    pub fn message(&self) -> (text: &'static str)
        ensures
            text@ == match *self {
                XperfError::NotFound => "Could not find an xperf installation.\nPlease install the Windows Performance Toolkit: https://learn.microsoft.com/en-us/windows-hardware/test/wpt/\n(Download the ADK from https://go.microsoft.com/fwlink/?linkid=2243390 and uncheck everything\nexcept \"Windows Performance Toolkit\" during the installation.)"@,
                XperfError::NotRunning => "xperf wasn't running, can't stop it"@,
            },
    {
        match self {
            XperfError::NotFound => "Could not find an xperf installation.\nPlease install the Windows Performance Toolkit: https://learn.microsoft.com/en-us/windows-hardware/test/wpt/\n(Download the ADK from https://go.microsoft.com/fwlink/?linkid=2243390 and uncheck everything\nexcept \"Windows Performance Toolkit\" during the installation.)",
            XperfError::NotRunning => "xperf wasn't running, can't stop it",
        }
    }
}

} // verus!
