use profile_core::etw_providers::{
    guid_string, list_etw_providers, parse_provider_list, provider_line, provider_name, read_name,
    read_provider, read_u16, read_u32, schema_source_name,
};
use profile_core::text::{append_chars, upper_hex_digits};
use profile_core::recording::{
    etls_to_delete, extra_etls, included_processes_for_pid, os_name, profile_arch, Launches,
};
use profile_core::tdh::{
    asks_for_buffer, enumeration_failure_message, property_size_result, succeeded,
    TdhNativeError, ERROR_INSUFFICIENT_BUFFER, ERROR_SUCCESS,
};

fn utf16z(text: &str) -> Vec<u8> {
    let mut bytes = Vec::new();
    for unit in text.encode_utf16() {
        bytes.extend_from_slice(&unit.to_le_bytes());
    }
    bytes.extend_from_slice(&[0, 0]);
    bytes
}

fn block(providers: &[([u8; 16], u32, &str)]) -> Vec<u8> {
    let mut bytes = Vec::new();
    bytes.extend_from_slice(&(providers.len() as u32).to_le_bytes());
    bytes.extend_from_slice(&[0xaa; 4]);
    let mut names_at = 8 + 24 * providers.len();
    let mut names = Vec::new();
    for (guid, schema_source, name) in providers.iter() {
        bytes.extend_from_slice(guid);
        bytes.extend_from_slice(&schema_source.to_le_bytes());
        bytes.extend_from_slice(&(names_at as u32).to_le_bytes());
        let encoded = utf16z(name);
        names_at += encoded.len();
        names.extend_from_slice(&encoded);
    }
    bytes.extend_from_slice(&names);
    bytes
}

const GUID_A: [u8; 16] =
    [0x78, 0x56, 0x34, 0x12, 0xbc, 0x9a, 0xf0, 0xde, 1, 2, 3, 4, 5, 6, 7, 8];
const GUID_B: [u8; 16] = [0xff; 16];

#[test]
fn numbers_are_read_least_significant_byte_first() {
    let bytes = [0x34, 0x12, 0x78, 0x56, 0xff, 0xff, 0xff, 0xff];
    assert_eq!(read_u16(&bytes, 0), 0x1234);
    assert_eq!(read_u16(&bytes, 1), 0x7812);
    assert_eq!(read_u32(&bytes, 0), 0x5678_1234);
    assert_eq!(read_u32(&bytes, 4), u32::MAX);
    assert_eq!(read_u16(&bytes, 6), u16::MAX);
}

#[test]
fn name_runs_to_the_first_zero() {
    let bytes = utf16z("Kernel");
    assert_eq!(read_name(&bytes, 0), Some("Kernel".encode_utf16().collect::<Vec<u16>>()));
    assert_eq!(read_name(&bytes, 4), Some("rnel".encode_utf16().collect::<Vec<u16>>()));
    assert_eq!(read_name(&bytes, 12), Some(Vec::new()));
    assert_eq!(read_name(&bytes, 13), None);
    assert_eq!(read_name(&bytes, 14), None);
    assert_eq!(read_name(&bytes, 1000), None);
    assert_eq!(read_name(&bytes[..12], 0), None);
    assert_eq!(read_name(&[0x41, 0x00, 0x00], 0), None);
}

#[test]
fn providers_are_read_in_order() {
    let bytes = block(&[(GUID_A, 0, "First"), (GUID_B, 1, "Second provider"), (GUID_A, 7, "")]);
    let providers = parse_provider_list(&bytes).expect("the block is whole");
    assert_eq!(providers.len(), 3);
    assert_eq!(providers[0].guid.data1, 0x1234_5678);
    assert_eq!(providers[0].guid.data2, 0x9abc);
    assert_eq!(providers[0].guid.data3, 0xdef0);
    assert_eq!(providers[0].guid.data4, vec![1, 2, 3, 4, 5, 6, 7, 8]);
    assert_eq!(providers[0].schema_source, 0);
    assert_eq!(provider_name(&providers[0].name), "First");
    assert_eq!(providers[1].guid.data1, u32::MAX);
    assert_eq!(providers[1].schema_source, 1);
    assert_eq!(provider_name(&providers[1].name), "Second provider");
    assert_eq!(providers[2].schema_source, 7);
    assert_eq!(provider_name(&providers[2].name), "");
    let second = read_provider(&bytes, 1).expect("the block holds three providers");
    assert_eq!(provider_name(&second.name), "Second provider");
    assert!(read_provider(&bytes, 3).is_none());
}

#[test]
fn empty_list_of_providers() {
    assert_eq!(parse_provider_list(&[0, 0, 0, 0, 9, 9, 9, 9]).map(|v| v.len()), Some(0));
    assert!(parse_provider_list(&[]).is_none());
    assert!(parse_provider_list(&[0, 0, 0, 0, 0, 0, 0]).is_none());
}

#[test]
fn short_block_is_refused() {
    let bytes = block(&[(GUID_A, 0, "First"), (GUID_B, 1, "Second")]);
    assert!(parse_provider_list(&bytes).is_some());
    assert!(parse_provider_list(&bytes[..bytes.len() - 1]).is_none());
    assert!(parse_provider_list(&bytes[..bytes.len() - 2]).is_none());
    assert!(parse_provider_list(&bytes[..8 + 24 + 23]).is_none());
    assert!(parse_provider_list(&bytes[..8 + 24]).is_none());
    let mut claims_more = bytes.clone();
    claims_more[0] = 3;
    assert!(parse_provider_list(&claims_more).is_none());
    let mut claims_many = bytes.clone();
    claims_many[0..4].copy_from_slice(&u32::MAX.to_le_bytes());
    assert!(parse_provider_list(&claims_many).is_none());
    let mut name_outside = bytes.clone();
    name_outside[8 + 20..8 + 24].copy_from_slice(&u32::MAX.to_le_bytes());
    assert!(parse_provider_list(&name_outside).is_none());
}

#[test]
fn names_are_decoded_from_utf16() {
    let units: Vec<u16> = "Microsoft-Windows-Kernel-Process".encode_utf16().collect();
    assert_eq!(provider_name(&units), "Microsoft-Windows-Kernel-Process");
    let units: Vec<u16> = "é名\u{1F600}x".encode_utf16().collect();
    assert_eq!(units.len(), 5);
    assert_eq!(provider_name(&units), "é名\u{1F600}x");
    assert_eq!(provider_name(&[]), "");
    assert_eq!(provider_name(&[0xD7FF, 0xE000, 0xFFFF]), "\u{D7FF}\u{E000}\u{FFFF}");
    assert_eq!(provider_name(&[0xD800, 0xDC00]), "\u{10000}");
    assert_eq!(provider_name(&[0xDBFF, 0xDFFF]), "\u{10FFFF}");
    assert_eq!(provider_name(&[0xD800]), "Error converting to string");
    assert_eq!(provider_name(&[0xDC00, 0xD800]), "Error converting to string");
    assert_eq!(provider_name(&[0x41, 0xD800, 0x41]), "Error converting to string");
    assert_eq!(provider_name(&[0xD800, 0xD800, 0xDC00]), "Error converting to string");
}

#[test]
fn schema_sources_are_named() {
    assert_eq!(schema_source_name(0), "XML manifest");
    assert_eq!(schema_source_name(1), "MOF");
    assert_eq!(schema_source_name(u32::MAX), "MOF");
}

#[test]
fn statuses_are_told_apart() {
    assert_eq!(ERROR_SUCCESS, 0);
    assert_eq!(ERROR_INSUFFICIENT_BUFFER, 122);
    assert!(asks_for_buffer(122));
    assert!(!asks_for_buffer(0));
    assert!(!asks_for_buffer(5));
    assert!(succeeded(0));
    assert!(!succeeded(122));
    assert_eq!(
        enumeration_failure_message(5),
        "TdhEnumerateProviders failed with error code 5"
    );
    assert_eq!(
        enumeration_failure_message(u32::MAX),
        "TdhEnumerateProviders failed with error code 4294967295"
    );
}

#[test]
fn property_size_or_the_error_of_the_status() {
    assert!(matches!(property_size_result(0, 16), Ok(16)));
    assert!(matches!(property_size_result(0, 0), Ok(0)));
    match property_size_result(5, 16) {
        Err(TdhNativeError::IoError(e)) => assert_eq!(e.raw_os_error(), Some(5)),
        Ok(_) => panic!("the status says that the call failed"),
    }
    match property_size_result(0x8000_0005, 16) {
        Err(TdhNativeError::IoError(e)) => assert_eq!(e.raw_os_error(), Some(0x8000_0005u32 as i32)),
        Ok(_) => panic!("the status says that the call failed"),
    }
}

#[test]
fn io_errors_become_native_errors() {
    let e = TdhNativeError::from(std::io::Error::from_raw_os_error(2));
    match e {
        TdhNativeError::IoError(inner) => assert_eq!(inner.raw_os_error(), Some(2)),
    }
}

#[test]
fn one_process_is_included_by_its_id() {
    let included = included_processes_for_pid(77);
    assert_eq!(included.pids, vec![77]);
    assert!(included.name_substrings.is_empty());
}

#[test]
fn launches_go_on_while_they_end_well() {
    let mut launches = Launches::new(3, false);
    assert!(launches.wants_launch());
    assert!(!launches.launch_ended(10, true));
    assert!(launches.wants_launch());
    assert!(!launches.launch_ended(11, true));
    assert!(launches.wants_launch());
    assert!(!launches.launch_ended(12, true));
    assert!(!launches.wants_launch());
    assert_eq!(launches.into_included_processes().pids, vec![10, 11, 12]);
}

#[test]
fn bad_end_skips_the_remaining_launches() {
    let mut launches = Launches::new(3, false);
    assert!(!launches.launch_ended(10, true));
    assert!(launches.launch_ended(11, false));
    assert!(!launches.wants_launch());
    let included = launches.into_included_processes();
    assert_eq!(included.pids, vec![10, 11]);
    assert!(included.name_substrings.is_empty());
}

#[test]
fn bad_end_counts_for_nothing_where_exit_codes_are_ignored() {
    let mut launches = Launches::new(2, true);
    assert!(!launches.launch_ended(10, false));
    assert!(launches.wants_launch());
    assert!(!launches.launch_ended(11, false));
    assert!(!launches.wants_launch());
    assert_eq!(launches.into_included_processes().pids, vec![10, 11]);
}

#[test]
fn no_launch_where_none_is_asked_for() {
    let launches = Launches::new(0, false);
    assert!(!launches.wants_launch());
    assert!(launches.into_included_processes().pids.is_empty());
}

#[test]
fn architecture_and_system_name() {
    assert_eq!(profile_arch(Some("arm64".to_string()), "x86_64"), "arm64");
    assert_eq!(profile_arch(None, "x86_64"), "x86_64");
    assert_eq!(os_name("10.0.22631"), "Windows 10.0.22631");
}

#[test]
fn trace_files_to_read_and_to_delete() {
    assert_eq!(extra_etls(None), Vec::<String>::new());
    assert_eq!(extra_etls(Some("user.etl")), vec!["user.etl".to_string()]);
    assert_eq!(etls_to_delete(true, "k.etl", Some("u.etl")), Vec::<String>::new());
    assert_eq!(etls_to_delete(true, "k.etl", None), Vec::<String>::new());
    assert_eq!(etls_to_delete(false, "k.etl", None), vec!["k.etl".to_string()]);
    assert_eq!(
        etls_to_delete(false, "k.etl", Some("u.etl")),
        vec!["k.etl".to_string(), "u.etl".to_string()]
    );
}

#[test]
fn hexadecimal_digits_in_upper_case_and_fixed_width() {
    let text = |n: u64, width: usize| upper_hex_digits(n, width).into_iter().collect::<String>();
    assert_eq!(text(0, 0), "");
    assert_eq!(text(0, 2), "00");
    assert_eq!(text(0xab, 2), "AB");
    assert_eq!(text(0x9, 2), "09");
    assert_eq!(text(0x1234_abcd, 8), "1234ABCD");
    assert_eq!(text(0xf, 8), "0000000F");
    assert_eq!(text(0x1234, 2), "34");
    assert_eq!(text(u64::MAX, 16), "FFFFFFFFFFFFFFFF");
    for n in [0u64, 1, 9, 10, 15, 16, 255, 256, 0xdead_beef] {
        assert_eq!(text(n, 8), format!("{:08X}", n));
        assert_eq!(text(n & 0xffff, 4), format!("{:04X}", n & 0xffff));
        assert_eq!(text(n & 0xff, 2), format!("{:02X}", n & 0xff));
    }
    let mut s = "ab".to_string();
    append_chars(&mut s, &vec!['c', 'é']);
    append_chars(&mut s, &Vec::new());
    assert_eq!(s, "abcé");
}

#[test]
fn providers_are_listed_line_by_line() {
    let bytes = block(&[(GUID_A, 0, "First"), (GUID_B, 1, "Second provider"), ([0; 16], 2, "")]);
    let providers = parse_provider_list(&bytes).unwrap();
    assert_eq!(guid_string(&providers[0]), "12345678-9ABC-DEF0-0102-030405060708");
    assert_eq!(guid_string(&providers[1]), "FFFFFFFF-FFFF-FFFF-FFFF-FFFFFFFFFFFF");
    assert_eq!(
        provider_line(&providers[0]),
        "  12345678-9ABC-DEF0-0102-030405060708 - First - XML manifest"
    );
    assert_eq!(
        list_etw_providers(&bytes),
        Some(vec![
            "  12345678-9ABC-DEF0-0102-030405060708 - First - XML manifest".to_string(),
            "  FFFFFFFF-FFFF-FFFF-FFFF-FFFFFFFFFFFF - Second provider - MOF".to_string(),
            "  00000000-0000-0000-0000-000000000000 -  - MOF".to_string(),
        ])
    );
    assert_eq!(list_etw_providers(&bytes[..bytes.len() - 1]), None);
    assert_eq!(list_etw_providers(&[0; 8]), Some(Vec::new()));
}

#[test]
fn provider_with_a_name_that_is_not_utf16() {
    let mut bytes = block(&[(GUID_A, 0, "ab")]);
    let name_at = 8 + 24;
    bytes[name_at..name_at + 2].copy_from_slice(&0xD800u16.to_le_bytes());
    assert_eq!(
        list_etw_providers(&bytes),
        Some(vec![
            "  12345678-9ABC-DEF0-0102-030405060708 - Error converting to string - XML manifest"
                .to_string()
        ])
    );
}
