use profile_core::perf_map::Symbol;
use profile_core::frame_table::InternalFrameAddress;
use profile_core::library_info::{DebugIdentifier, LibraryInfo};
use profile_core::profile::Profile;
use profile_core::timestamp::Timestamp;
use std::cmp::Ordering;

fn at(nanos: u64) -> Timestamp {
    Timestamp::from_nanos_since_reference(nanos)
}

fn lib(name: &str, uuid: u128) -> LibraryInfo {
    LibraryInfo {
        name: name.to_string(),
        debug_name: format!("{}.pdb", name),
        path: format!("/lib/{}", name),
        debug_path: format!("/debug/{}", name),
        debug_id: DebugIdentifier { uuid, appendix: 1, is_pdb20: false },
        code_id: Some("abc".to_string()),
        arch: Some("x86_64".to_string()),
    }
}

fn in_lib(frame: InternalFrameAddress) -> (u32, usize) {
    match frame {
        InternalFrameAddress::InLib(relative_address, index) => (relative_address, index.to_usize()),
        InternalFrameAddress::Unknown(address) => panic!("{:#x} lies in a library", address),
    }
}

#[test]
fn empty_profile_resolves_nothing() {
    let mut profile = Profile::new();
    let p = profile.add_process("p", "1".to_string(), at(0));
    assert_eq!(profile.resolve(p, 0), InternalFrameAddress::Unknown(0));
    assert_eq!(profile.resolve(p, 0x1234), InternalFrameAddress::Unknown(0x1234));
    assert_eq!(profile.global_libs().used_lib_count(), 0);
    assert_eq!(profile.string_table().len(), 0);
}

#[test]
fn samples_resolve_through_the_mappings_of_their_process() {
    let mut profile = Profile::new();
    let libc = profile.add_lib(lib("libc.so", 1));
    let app = profile.add_lib(lib("app", 2));
    let p = profile.add_process("p", "1".to_string(), at(0));
    let q = profile.add_process("q", "2".to_string(), at(0));
    profile.add_lib_mapping(p, libc, 0x7000_0000, 0x7010_0000, 0x1000);
    profile.add_lib_mapping(p, app, 0x40_0000, 0x50_0000, 0);
    profile.add_lib_mapping(q, libc, 0x6000_0000, 0x6010_0000, 0x1000);
    assert_eq!(in_lib(profile.resolve(p, 0x40_1234)), (0x1234, 0));
    assert_eq!(in_lib(profile.resolve(p, 0x7000_0010)), (0x1010, 1));
    assert_eq!(in_lib(profile.resolve(q, 0x6000_0010)), (0x1010, 1));
    assert_eq!(profile.resolve(q, 0x7000_0010), InternalFrameAddress::Unknown(0x7000_0010));
    assert_eq!(profile.resolve(q, 0x40_1234), InternalFrameAddress::Unknown(0x40_1234));
    assert_eq!(profile.global_libs().used_lib(0), Some(app));
    assert_eq!(profile.global_libs().used_lib(1), Some(libc));
    assert_eq!(profile.string_table().len(), 2);
}

#[test]
fn kernel_mappings_count_for_every_process_and_come_first() {
    let mut profile = Profile::new();
    let kernel = profile.add_lib(lib("vmlinux", 1));
    let app = profile.add_lib(lib("app", 2));
    let p = profile.add_process("p", "1".to_string(), at(0));
    let q = profile.add_process("q", "2".to_string(), at(0));
    profile.add_kernel_lib_mapping(kernel, 0xffff_0000_0000, 0xffff_1000_0000, 0);
    profile.add_lib_mapping(p, app, 0xffff_0000_0000, 0xffff_0000_1000, 0x50);
    let from_p = profile.resolve(p, 0xffff_0000_0040);
    let from_q = profile.resolve(q, 0xffff_0000_0040);
    assert_eq!(from_p, from_q);
    assert_eq!(in_lib(from_p), (0x40, 0));
    assert_eq!(profile.global_libs().used_lib(0), Some(kernel));
    assert_eq!(profile.global_libs().used_lib_count(), 1);
    profile.remove_kernel_lib_mapping(0xffff_0000_0000);
    assert_eq!(in_lib(profile.resolve(p, 0xffff_0000_0040)), (0x90, 1));
    assert_eq!(
        profile.resolve(q, 0xffff_0000_0040),
        InternalFrameAddress::Unknown(0xffff_0000_0040)
    );
}

#[test]
fn mappings_come_and_go_while_samples_are_resolved() {
    let mut profile = Profile::new();
    let a = profile.add_lib(lib("a", 1));
    let b = profile.add_lib(lib("b", 2));
    let p = profile.add_process("p", "1".to_string(), at(0));
    profile.add_lib_mapping(p, a, 0x1000, 0x3000, 0);
    assert_eq!(in_lib(profile.resolve(p, 0x2800)), (0x1800, 0));
    profile.add_lib_mapping(p, b, 0x2000, 0x4000, 0);
    assert_eq!(in_lib(profile.resolve(p, 0x2800)), (0x800, 1));
    assert_eq!(profile.resolve(p, 0x1800), InternalFrameAddress::Unknown(0x1800));
    profile.remove_lib_mapping(p, 0x2800);
    assert_eq!(in_lib(profile.resolve(p, 0x2800)), (0x800, 1));
    profile.remove_lib_mapping(p, 0x2000);
    assert_eq!(profile.resolve(p, 0x2800), InternalFrameAddress::Unknown(0x2800));
    profile.add_lib_mapping(p, a, 0x2000, 0x4000, 0x100);
    assert_eq!(in_lib(profile.resolve(p, 0x2800)), (0x900, 0));
    profile.remove_all_lib_mappings(p);
    assert_eq!(profile.resolve(p, 0x2800), InternalFrameAddress::Unknown(0x2800));
    assert_eq!(profile.global_libs().used_lib_count(), 2);
}

#[test]
fn libraries_are_held_once() {
    let mut profile = Profile::new();
    let a = profile.add_lib(lib("a", 1));
    let again = profile.add_lib(lib("a", 1));
    let b = profile.add_lib(lib("b", 1));
    assert_eq!(a, again);
    assert_ne!(a, b);
    assert!(profile.contains_lib(a));
    assert!(profile.contains_lib(b));
    assert_eq!(profile.get_lib(a).debug_name, "a.pdb");
    assert_eq!(profile.get_lib(b).arch, Some("x86_64".to_string()));
    assert_eq!(profile.global_libs().lib_count(), 2);
}

#[test]
fn processes_are_changed_through_the_profile() {
    let mut profile = Profile::new();
    let p = profile.add_process("p", "10".to_string(), at(5));
    let q = profile.add_process("q", "2".to_string(), at(5));
    assert!(profile.contains_process(p));
    assert_eq!(profile.order_for_output(p, q), Ordering::Less);
    assert_eq!(profile.order_for_output(q, p), Ordering::Greater);
    profile.set_process_start_time(q, at(4));
    assert_eq!(profile.order_for_output(p, q), Ordering::Greater);
    profile.set_process_name(p, "renamed");
    profile.set_process_end_time(p, at(9));
    let t0 = profile.add_thread(p, false);
    let t1 = profile.add_thread(q, true);
    let t2 = profile.add_thread(p, true);
    let dir = profile.directory();
    assert_eq!(dir.get(p).name(), "renamed");
    assert_eq!(dir.get(p).end_time(), Some(at(9)));
    assert_eq!(dir.get(q).end_time(), None);
    assert_eq!(dir.get(q).start_time(), at(4));
    assert_eq!(dir.get(p).threads(), &[t0, t2]);
    assert_eq!(dir.get(q).threads(), &[t1]);
    assert_eq!(dir.get(p).thread_handle_for_allocations(), Some(t2));
    assert_eq!(dir.process_of(t0), Some(p));
    assert_eq!(dir.process_of(t1), Some(q));
    assert_eq!(t0.to_usize(), 0);
    assert_eq!(t2.to_usize(), 2);
}

#[test]
fn symbol_tables_are_stored_through_the_profile() {
    let mut profile = Profile::new();
    let a = profile.add_lib(lib("a", 1));
    let b = profile.add_lib(lib("b", 2));
    profile.set_lib_symbol_table(a, vec![Symbol { address: 4, size: Some(2), name: "f".to_string() }]);
    let table = profile.global_libs().lib_symbol_table(a).expect("the library was given a table");
    assert_eq!(table.len(), 1);
    assert_eq!(table[0].name, "f");
    assert!(profile.global_libs().lib_symbol_table(b).is_none());
}
