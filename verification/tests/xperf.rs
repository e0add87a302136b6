use profile_core::xperf::{
    interval_ticks, start_command_args, stop_command_args, ElevatedRecordingProps, Xperf,
    XperfError, MIN_INTERVAL_NANOS, NANOS_PER_TICK,
};

fn props(interval_nanos: u64, vm_hack: bool) -> ElevatedRecordingProps {
    ElevatedRecordingProps { interval_nanos, vm_hack }
}

fn strings(words: &[&str]) -> Vec<String> {
    words.iter().map(|w| w.to_string()).collect()
}

#[test]
fn new_recorder_is_not_running() {
    let x = Xperf::new();
    assert!(!x.is_running());
    assert_eq!(x.xperf_path(), None);
}

#[test]
fn interval_is_counted_in_ticks() {
    assert_eq!(MIN_INTERVAL_NANOS, 122100);
    assert_eq!(NANOS_PER_TICK, 100);
    assert_eq!(interval_ticks(1_000_000), 10_000);
    assert_eq!(interval_ticks(122_100), 1221);
    assert_eq!(interval_ticks(122_199), 1221);
    assert_eq!(interval_ticks(122_200), 1222);
    assert_eq!(interval_ticks(122_099), 1221);
    assert_eq!(interval_ticks(0), 1221);
    assert_eq!(interval_ticks(u64::MAX), u64::MAX / 100);
}

#[test]
fn start_arguments_for_the_kernel_alone() {
    let args = start_command_args("out.unmerged-etl", "unused", &props(1_000_000, false), &Vec::new());
    assert_eq!(
        args,
        strings(&[
            "-SetProfInt",
            "10000",
            "-on",
            "PROC_THREAD+LOADER+PROFILE+CSWITCH",
            "-stackwalk",
            "PROFILE+CSWITCH",
            "-f",
            "out.unmerged-etl",
        ])
    );
}

#[test]
fn start_arguments_with_user_providers() {
    let providers = strings(&["Microsoft-Windows-DotNETRuntime:0x1:5", "Other"]);
    let args = start_command_args("k.etl", "u.etl", &props(50, false), &providers);
    assert_eq!(
        args,
        strings(&[
            "-SetProfInt",
            "1221",
            "-on",
            "PROC_THREAD+LOADER+PROFILE+CSWITCH",
            "-stackwalk",
            "PROFILE+CSWITCH",
            "-f",
            "k.etl",
            "-start",
            "SamplySession",
            "-on",
            "Microsoft-Windows-DotNETRuntime:0x1:5+Other",
            "-f",
            "u.etl",
        ])
    );
}

#[test]
fn start_arguments_in_a_virtual_machine() {
    let args = start_command_args("k.etl", "u.etl", &props(200_000, true), &Vec::new());
    assert_eq!(
        args,
        strings(&[
            "-SetProfInt",
            "2000",
            "-on",
            "PROC_THREAD+LOADER+CSWITCH+SYSCALL+VIRT_ALLOC+OB_HANDLE",
            "-stackwalk",
            "CSWITCH+VirtualAlloc+VirtualFree+HandleCreate+HandleClose",
            "-f",
            "k.etl",
        ])
    );
}

#[test]
fn stop_arguments() {
    assert_eq!(stop_command_args(false, "out.etl"), strings(&["-stop", "-d", "out.etl"]));
    assert_eq!(
        stop_command_args(true, "out.etl"),
        strings(&["-stop", "-stop", "SamplySession", "-d", "out.etl"])
    );
}

#[test]
fn path_of_xperf_is_looked_up_once() {
    let mut x = Xperf::new();
    assert_eq!(x.get_xperf_path(None), Err(XperfError::NotFound));
    assert_eq!(x.xperf_path(), None);
    assert_eq!(x.get_xperf_path(Some("C:/wpt/xperf.exe".to_string())), Ok("C:/wpt/xperf.exe".to_string()));
    assert_eq!(x.xperf_path(), Some("C:/wpt/xperf.exe".to_string()));
    assert_eq!(x.get_xperf_path(Some("elsewhere".to_string())), Ok("C:/wpt/xperf.exe".to_string()));
    assert_eq!(x.get_xperf_path(None), Ok("C:/wpt/xperf.exe".to_string()));
    assert!(!x.is_running());
}

#[test]
fn stopping_what_does_not_run_is_an_error() {
    let mut x = Xperf::new();
    assert_eq!(x.stop_xperf().err(), Some(XperfError::NotRunning));
    assert!(!x.is_running());
    assert_eq!(XperfError::NotRunning.message(), "xperf wasn't running, can't stop it");
}

#[test]
fn starting_without_xperf_is_an_error() {
    let mut x = Xperf::new();
    let r = x.start_xperf(None, "out.json", &props(1_000_000, false), &Vec::new());
    assert_eq!(r.err(), Some(XperfError::NotFound));
    assert!(!x.is_running());
    let message = XperfError::NotFound.message();
    assert!(message.starts_with("Could not find an xperf installation.\nPlease install"));
    assert!(message.ends_with("except \"Windows Performance Toolkit\" during the installation.)"));
    assert_eq!(message.lines().count(), 4);
}

#[test]
fn kernel_recording_is_started_and_stopped() {
    let mut x = Xperf::new();
    let plan = x
        .start_xperf(Some("xperf".to_string()), "out.json", &props(1_000_000, false), &Vec::new())
        .unwrap();
    assert!(x.is_running());
    assert!(plan.stop_first.is_none());
    assert_eq!(plan.command.program, "xperf");
    assert_eq!(plan.command.args.len(), 8);
    assert_eq!(plan.command.args[6], "-f");
    assert_eq!(plan.command.args[7], "out.unmerged-etl");
    let stop = x.stop_xperf().unwrap();
    assert!(!x.is_running());
    assert_eq!(stop.command.program, "xperf");
    assert_eq!(stop.merged_etl, "out.etl");
    assert_eq!(stop.command.args, strings(&["-stop", "-d", "out.etl"]));
    assert_eq!(stop.unmerged_etls, strings(&["out.unmerged-etl"]));
    assert_eq!(x.stop_xperf().err(), Some(XperfError::NotRunning));
}

#[test]
fn user_recording_is_started_and_stopped() {
    let mut x = Xperf::new();
    let providers = strings(&["A", "B", "C"]);
    let plan = x
        .start_xperf(Some("xperf".to_string()), "dir/profile.json", &props(1, true), &providers)
        .unwrap();
    assert!(x.is_running());
    assert_eq!(plan.command.args.len(), 14);
    assert_eq!(plan.command.args[7], "dir/profile.unmerged-etl");
    assert_eq!(plan.command.args[11], "A+B+C");
    assert_eq!(plan.command.args[13], "dir/profile.user-unmerged-etl");
    let stop = x.stop_xperf().unwrap();
    assert_eq!(stop.merged_etl, "dir/profile.etl");
    assert_eq!(
        stop.command.args,
        strings(&["-stop", "-stop", "SamplySession", "-d", "dir/profile.etl"])
    );
    assert_eq!(
        stop.unmerged_etls,
        strings(&["dir/profile.unmerged-etl", "dir/profile.user-unmerged-etl"])
    );
}

#[test]
fn starting_again_stops_first() {
    let mut x = Xperf::new();
    x.start_xperf(Some("xperf".to_string()), "one.json", &props(1, false), &strings(&["A"]))
        .unwrap();
    let plan = x.start_xperf(None, "two.json", &props(1, false), &Vec::new()).unwrap();
    assert!(x.is_running());
    let stop = plan.stop_first.expect("a recording ran");
    assert_eq!(stop.merged_etl, "one.etl");
    assert_eq!(stop.unmerged_etls, strings(&["one.unmerged-etl", "one.user-unmerged-etl"]));
    assert_eq!(plan.command.program, "xperf");
    assert_eq!(plan.command.args[7], "two.unmerged-etl");
    let stop = x.stop_xperf().unwrap();
    assert_eq!(stop.unmerged_etls, strings(&["two.unmerged-etl"]));
}

#[test]
fn recording_to_given_files() {
    let mut x = Xperf::new();
    let args = x.record_to("k".to_string(), "u".to_string(), &props(1_000_000, false), &strings(&["P"]));
    assert!(x.is_running());
    assert_eq!(args, start_command_args("k", "u", &props(1_000_000, false), &strings(&["P"])));
}
