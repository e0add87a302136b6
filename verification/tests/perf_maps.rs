use profile_core::global_lib_table::{GlobalLibTable, LibraryHandle};
use profile_core::library_info::DebugIdentifier;
use profile_core::perf_map::{
    assemble_perf_map, load_perf_map, load_perf_map_recycling, perf_map_library, perf_map_name,
    perf_map_path, try_load_perf_map, FunctionRecycler, JitLibrary, NoRecycler,
};
use profile_core::text::{decimal_digits, decimal_string, join, string_from_chars};
use profile_core::perf_map_line::{
    chars_of, find_char, hex_digit, parse_hex_field, parse_line_range, process_perf_map_line,
};

fn hex(text: &str) -> Option<u64> {
    let chars: Vec<char> = text.chars().collect();
    parse_hex_field(&chars, 0, chars.len())
}

#[test]
fn line_with_three_fields_parses() {
    assert_eq!(process_perf_map_line("1000 20 foo"), Some((0x1000, 0x20, "foo")));
}

#[test]
fn line_with_empty_name_is_dropped() {
    assert_eq!(process_perf_map_line("1000 20 "), None);
}

#[test]
fn line_with_invalid_hex_is_dropped() {
    assert_eq!(process_perf_map_line("zz 20 foo"), None);
    assert_eq!(process_perf_map_line("1000 2g foo"), None);
}

#[test]
fn line_with_too_few_fields_is_dropped() {
    assert_eq!(process_perf_map_line(""), None);
    assert_eq!(process_perf_map_line("1000"), None);
    assert_eq!(process_perf_map_line("1000 20"), None);
    assert_eq!(process_perf_map_line(" "), None);
    assert_eq!(process_perf_map_line("  "), None);
}

#[test]
fn name_is_the_rest_of_the_line() {
    assert_eq!(
        process_perf_map_line("7f00 1a void foo(int, char)"),
        Some((0x7f00, 0x1a, "void foo(int, char)"))
    );
    assert_eq!(process_perf_map_line("1 2  x"), Some((1, 2, " x")));
    assert_eq!(process_perf_map_line("1 2  "), Some((1, 2, " ")));
    assert_eq!(process_perf_map_line("1 2 名前 é"), Some((1, 2, "名前 é")));
}

#[test]
fn fields_are_split_at_single_spaces() {
    assert_eq!(process_perf_map_line("1000  20 foo"), None);
    assert_eq!(process_perf_map_line(" 1000 20 foo"), None);
    assert_eq!(process_perf_map_line("1000\t20\tfoo"), None);
}

#[test]
fn hex_prefixes_and_case() {
    assert_eq!(process_perf_map_line("0x1000 0x20 foo"), Some((0x1000, 0x20, "foo")));
    assert_eq!(process_perf_map_line("0x0xAbC 0XF foo"), None);
    assert_eq!(process_perf_map_line("0x0xAbC F foo"), Some((0xabc, 0xf, "foo")));
    assert_eq!(hex("DEADbeef"), Some(0xdeadbeef));
    assert_eq!(hex("0x"), None);
    assert_eq!(hex(""), None);
    assert_eq!(hex("0"), Some(0));
    assert_eq!(hex("0x0"), Some(0));
    assert_eq!(hex("x10"), None);
    assert_eq!(hex("10x"), None);
    assert_eq!(hex("1 0"), None);
    assert_eq!(hex("-1"), None);
    assert_eq!(hex("é"), None);
}

#[test]
fn hex_sign() {
    assert_eq!(hex("+10"), Some(0x10));
    assert_eq!(hex("0x+10"), Some(0x10));
    assert_eq!(hex("+0x10"), None);
    assert_eq!(hex("+"), None);
    assert_eq!(hex("++1"), None);
    assert_eq!(hex("+-1"), None);
}

#[test]
fn hex_range() {
    assert_eq!(hex("ffffffffffffffff"), Some(u64::MAX));
    assert_eq!(hex("10000000000000000"), None);
    assert_eq!(hex("fffffffffffffffff"), None);
    assert_eq!(hex("0000000000000000000000001"), Some(1));
    assert_eq!(hex("00000000ffffffffffffffff"), Some(u64::MAX));
}

#[test]
fn hex_agrees_with_the_standard_library() {
    let fields = [
        "", "0", "1f", "+1f", "0x1f", "0x0x1f", "0X1f", "g", "+", "-", "-1", "ffffffffffffffff",
        "10000000000000000", "0x", "0x+", "0x0", "00x1", "1_0", " 1", "1 ", "ABCDEF", "abcdef",
        "0123456789", "+0", "0x+0x1", "７",
    ];
    for f in fields.iter() {
        let expected = u64::from_str_radix(f.trim_start_matches("0x"), 16).ok();
        assert_eq!(hex(f), expected);
    }
}

#[test]
fn line_agrees_with_a_split_at_two_spaces() {
    let lines = [
        "1000 20 foo", "1000 20 ", "zz 20 foo", "a b c d", "a  b", "0x10 +20 x y z", " 1 2", "1 2",
        "ffffffffffffffff 1 top", "1 ffffffffffffffffff big", "1 2 3", "é 1 x", "1 2 é",
    ];
    for line in lines.iter() {
        let mut split = line.splitn(3, ' ');
        let expected = (|| {
            let addr = split.next()?;
            let len = split.next()?;
            let name = split.next()?;
            if name.is_empty() {
                return None;
            }
            let addr = u64::from_str_radix(addr.trim_start_matches("0x"), 16).ok()?;
            let len = u64::from_str_radix(len.trim_start_matches("0x"), 16).ok()?;
            Some((addr, len, name))
        })();
        assert_eq!(process_perf_map_line(line), expected);
    }
}

#[test]
fn helpers_work_on_parts_of_a_slice() {
    let chars = chars_of("ab cd 1f x");
    assert_eq!(chars.len(), 10);
    assert_eq!(chars[3], 'c');
    assert_eq!(find_char(&chars, 0, 10, ' '), 2);
    assert_eq!(find_char(&chars, 3, 10, ' '), 5);
    assert_eq!(find_char(&chars, 3, 5, ' '), 5);
    assert_eq!(find_char(&chars, 0, 10, 'q'), 10);
    assert_eq!(find_char(&chars, 4, 4, 'd'), 4);
    assert_eq!(parse_hex_field(&chars, 0, 2), Some(0xab));
    assert_eq!(parse_hex_field(&chars, 3, 5), Some(0xcd));
    assert_eq!(parse_hex_field(&chars, 2, 5), None);
    assert_eq!(parse_hex_field(&chars, 5, 5), None);
    assert_eq!(parse_line_range(&chars, 0, 10), Some((0xab, 0xcd, 6)));
    assert_eq!(parse_line_range(&chars, 3, 10), Some((0xcd, 0x1f, 9)));
    assert_eq!(parse_line_range(&chars, 3, 9), None);
    assert_eq!(hex_digit('0'), Some(0));
    assert_eq!(hex_digit('9'), Some(9));
    assert_eq!(hex_digit('a'), Some(10));
    assert_eq!(hex_digit('f'), Some(15));
    assert_eq!(hex_digit('A'), Some(10));
    assert_eq!(hex_digit('F'), Some(15));
    assert_eq!(hex_digit('g'), None);
    assert_eq!(hex_digit('G'), None);
    assert_eq!(hex_digit('/'), None);
    assert_eq!(hex_digit(':'), None);
    assert_eq!(hex_digit('@'), None);
    assert_eq!(hex_digit('`'), None);
}

#[test]
fn perf_map_is_named_after_the_process() {
    assert_eq!(perf_map_name(1234), "perf-1234.map");
    assert_eq!(perf_map_path(1234), "/tmp/perf-1234.map");
    assert_eq!(perf_map_name(0), "perf-0.map");
    assert_eq!(perf_map_name(7), "perf-7.map");
    assert_eq!(perf_map_name(10), "perf-10.map");
    assert_eq!(perf_map_name(u32::MAX), "perf-4294967295.map");
    assert_eq!(decimal_digits(9050), vec!['9', '0', '5', '0']);
    for n in [0u64, 1, 9, 10, 11, 99, 100, 101, 1000, 65535, 4294967295, u64::MAX] {
        let digits: String = decimal_digits(n).into_iter().collect();
        assert_eq!(digits, n.to_string());
        assert_eq!(decimal_string(n), n.to_string());
    }
}

#[test]
fn strings_are_joined_with_a_separator() {
    let none: Vec<String> = Vec::new();
    assert_eq!(join(&none, "+"), "");
    assert_eq!(join(&vec!["a".to_string()], "+"), "a");
    assert_eq!(join(&vec!["a".to_string(), "b".to_string(), "".to_string()], "+"), "a+b+");
    assert_eq!(join(&vec!["x".to_string(), "y".to_string()], ", "), "x, y");
}

#[test]
fn perf_map_library_has_no_identifiers() {
    let lib = perf_map_library(42);
    assert_eq!(lib.name, "perf-42.map");
    assert_eq!(lib.debug_name, "perf-42.map");
    assert_eq!(lib.path, "/tmp/perf-42.map");
    assert_eq!(lib.debug_path, "/tmp/perf-42.map");
    assert_eq!(lib.debug_id, DebugIdentifier { uuid: 0, appendix: 0, is_pdb20: false });
    assert!(lib.debug_id.is_nil());
    assert_eq!(lib.code_id, None);
    assert_eq!(lib.arch, None);
}

fn load(content: &str) -> (GlobalLibTable, JitLibrary) {
    let mut libs = GlobalLibTable::new();
    let lib = assemble_perf_map::<NoRecycler>(1, Some(content), &mut libs, None);
    (libs, lib.expect("a text gives a library"))
}

#[test]
fn missing_perf_map_gives_no_library() {
    let mut libs = GlobalLibTable::new();
    let lib = assemble_perf_map::<NoRecycler>(1, None, &mut libs, None);
    assert!(lib.is_none());
    assert_eq!(libs.lib_count(), 0);
}

#[test]
fn empty_perf_map_gives_an_empty_library() {
    let (libs, lib) = load("");
    assert_eq!(libs.lib_count(), 1);
    assert_eq!(libs.get_lib(lib.lib_handle()).name, "perf-1.map");
    assert_eq!(lib.symbol_count(), 0);
    assert_eq!(lib.next_address(), 0);
    assert_eq!(lib.mappings().len(), 0);
}

#[test]
fn code_is_laid_out_one_after_another() {
    let (_, lib) = load("1000 20 foo\n5000 10 bar\n2000 8 baz\n");
    let h = lib.lib_handle();
    assert_eq!(lib.symbol_count(), 3);
    assert_eq!((lib.symbol(0).address, lib.symbol(0).size), (0, Some(0x20)));
    assert_eq!((lib.symbol(1).address, lib.symbol(1).size), (0x20, Some(0x10)));
    assert_eq!((lib.symbol(2).address, lib.symbol(2).size), (0x30, Some(8)));
    assert_eq!(lib.symbol(0).name, "foo");
    assert_eq!(lib.symbol(1).name, "bar");
    assert_eq!(lib.symbol(2).name, "baz");
    assert_eq!(lib.next_address(), 0x38);
    assert_eq!(lib.mappings().convert_address(0x1000), Some((0, &h)));
    assert_eq!(lib.mappings().convert_address(0x101f), Some((0x1f, &h)));
    assert_eq!(lib.mappings().convert_address(0x1020), None);
    assert_eq!(lib.mappings().convert_address(0x5008), Some((0x28, &h)));
    assert_eq!(lib.mappings().convert_address(0x2007), Some((0x37, &h)));
}

#[test]
fn overlapping_code_gets_disjoint_relative_addresses() {
    let (_, lib) = load("1000 20 first\n1010 20 second\n");
    let h = lib.lib_handle();
    assert_eq!(lib.symbol_count(), 2);
    assert_eq!((lib.symbol(0).address, lib.symbol(0).size), (0, Some(0x20)));
    assert_eq!((lib.symbol(1).address, lib.symbol(1).size), (0x20, Some(0x20)));
    assert_eq!(lib.mappings().convert_address(0x1010), Some((0x20, &h)));
    assert_eq!(lib.mappings().convert_address(0x102f), Some((0x3f, &h)));
    assert_eq!(lib.mappings().convert_address(0x1008), None);
    assert_eq!(lib.mappings().len(), 1);
}

#[test]
fn bad_lines_are_passed_over() {
    let (_, lib) = load("garbage\n1000 20 foo\n\nzz 20 nothex\n1000 20 \n3000 10 bar\n1 2\n");
    assert_eq!(lib.symbol_count(), 2);
    assert_eq!(lib.symbol(0).name, "foo");
    assert_eq!(lib.symbol(1).name, "bar");
    assert_eq!(lib.symbol(1).address, 0x20);
}

#[test]
fn perf_map_of_bad_lines_only_gives_an_empty_library() {
    let (libs, lib) = load("a\nb c\n\n\nzz zz zz\n");
    assert_eq!(lib.symbol_count(), 0);
    assert_eq!(lib.mappings().len(), 0);
    assert_eq!(libs.lib_count(), 1);
}

#[test]
fn line_endings() {
    let (_, lib) = load("1000 20 foo\r\n2000 10 bar\n3000 10 baz");
    assert_eq!(lib.symbol_count(), 3);
    assert_eq!(lib.symbol(0).name, "foo");
    assert_eq!(lib.symbol(1).name, "bar");
    assert_eq!(lib.symbol(2).name, "baz");
    let (_, lib) = load("1000 20 foo\r");
    assert_eq!(lib.symbol(0).name, "foo\r");
    let (_, lib) = load("1000 20 foo\r\r\n");
    assert_eq!(lib.symbol(0).name, "foo\r");
    let (_, lib) = load("1000 20 \r\n2000 10 x\n");
    assert_eq!(lib.symbol_count(), 1);
    assert_eq!(lib.symbol(0).name, "x");
    let (_, lib) = load("\n\r\n1000 20 a b\n");
    assert_eq!(lib.symbol_count(), 1);
    assert_eq!(lib.symbol(0).name, "a b");
}

#[test]
fn lines_agree_with_the_standard_library() {
    let texts = [
        "", "\n", "\r\n", "a", "a\n", "a\r\n", "a\r", "a\n\nb", "1 2 x\r\n3 4 y\r", "\r", "\r\r\n",
        "1 2 x\n\r3 4 y\n", "1 2 x", "1 2 x\n3 4 y", "1 2 é\n3 4 名\r\n",
    ];
    for text in texts.iter() {
        let expected: Vec<(u64, u64, String)> = text
            .lines()
            .filter_map(process_perf_map_line)
            .map(|(a, l, n)| (a, l, n.to_string()))
            .collect();
        let (_, lib) = load(text);
        assert_eq!(lib.symbol_count(), expected.len());
        let mut next = 0u32;
        for (i, (_, length, name)) in expected.iter().enumerate() {
            assert_eq!(&lib.symbol(i).name, name);
            assert_eq!(lib.symbol(i).address, next);
            assert_eq!(lib.symbol(i).size, Some(*length as u32));
            next += *length as u32;
        }
    }
}

#[test]
fn code_of_no_length_gets_a_symbol_and_no_range() {
    let (_, lib) = load("1000 0 empty\n1000 10 real\n");
    assert_eq!(lib.symbol_count(), 2);
    assert_eq!((lib.symbol(0).address, lib.symbol(0).size), (0, Some(0)));
    assert_eq!((lib.symbol(1).address, lib.symbol(1).size), (0, Some(0x10)));
    assert_eq!(lib.mappings().len(), 1);
}

#[test]
fn code_that_does_not_fit_is_left_out() {
    let (_, lib) = load(
        "1000 100000000 toolong\nffffffffffffffff 2 pastend\n1000 ffffffff most\n2000 1 nomore\n3000 0 nothing\n",
    );
    assert_eq!(lib.symbol_count(), 2);
    assert_eq!(lib.symbol(0).name, "most");
    assert_eq!(lib.symbol(0).size, Some(u32::MAX));
    assert_eq!(lib.symbol(1).name, "nothing");
    assert_eq!(lib.symbol(1).address, u32::MAX);
    assert_eq!(lib.next_address(), u32::MAX);
    let h = lib.lib_handle();
    assert_eq!(lib.mappings().convert_address(0x1000 + 0xffff_fffe), Some((0xffff_fffe, &h)));
    assert_eq!(lib.mappings().convert_address(0x2000), Some((0x1000, &h)));
}

#[test]
fn library_is_interned_once_per_process() {
    let mut libs = GlobalLibTable::new();
    let a = assemble_perf_map::<NoRecycler>(5, Some("1 2 x\n"), &mut libs, None).unwrap();
    let b = assemble_perf_map::<NoRecycler>(5, Some("3 4 y\n"), &mut libs, None).unwrap();
    let c = assemble_perf_map::<NoRecycler>(6, Some("3 4 y\n"), &mut libs, None).unwrap();
    assert_eq!(a.lib_handle(), b.lib_handle());
    assert_ne!(a.lib_handle(), c.lib_handle());
    assert_eq!(libs.lib_count(), 2);
    assert_eq!(libs.get_lib(c.lib_handle()).path, "/tmp/perf-6.map");
    assert_eq!(libs.used_lib_count(), 0);
}

struct Remembering {
    known: Vec<(String, u32, LibraryHandle, u32)>,
    asked: Vec<(String, u32, LibraryHandle, u32)>,
}

impl FunctionRecycler for Remembering {
    fn recycle(
        &mut self,
        name: &str,
        code_size: u32,
        lib_handle: LibraryHandle,
        relative_address: u32,
    ) -> (LibraryHandle, u32) {
        self.asked.push((name.to_string(), code_size, lib_handle, relative_address));
        for (n, s, h, r) in self.known.iter() {
            if n == name && *s == code_size {
                return (*h, *r);
            }
        }
        self.known.push((name.to_string(), code_size, lib_handle, relative_address));
        (lib_handle, relative_address)
    }
}

#[test]
fn recycler_is_asked_for_each_piece_of_code() {
    let mut libs = GlobalLibTable::new();
    let mut recycler = Remembering { known: Vec::new(), asked: Vec::new() };
    let lib =
        assemble_perf_map(1, Some("1000 20 foo\nbad\n3000 10 bar baz\n"), &mut libs, Some(&mut recycler))
            .unwrap();
    let h = lib.lib_handle();
    assert_eq!(
        recycler.asked,
        vec![("foo".to_string(), 0x20, h, 0), ("bar baz".to_string(), 0x10, h, 0x20)]
    );
}

#[test]
fn recycled_code_is_found_at_its_old_place() {
    let mut libs = GlobalLibTable::new();
    let mut recycler = Remembering { known: Vec::new(), asked: Vec::new() };
    let first =
        assemble_perf_map(1, Some("1000 20 foo\n3000 10 bar\n"), &mut libs, Some(&mut recycler))
            .unwrap();
    let second =
        assemble_perf_map(2, Some("8000 10 bar\n9000 30 new\n9100 20 foo\n"), &mut libs, Some(&mut recycler))
            .unwrap();
    let old = first.lib_handle();
    let new = second.lib_handle();
    assert_ne!(old, new);
    assert_eq!(second.symbol_count(), 3);
    assert_eq!(second.symbol(0).address, 0);
    assert_eq!(second.symbol(1).address, 0x10);
    assert_eq!(second.symbol(2).address, 0x40);
    assert_eq!(second.mappings().convert_address(0x8004), Some((0x24, &old)));
    assert_eq!(second.mappings().convert_address(0x9004), Some((0x14, &new)));
    assert_eq!(second.mappings().convert_address(0x9104), Some((0x4, &old)));
}

struct TooHigh;

impl FunctionRecycler for TooHigh {
    fn recycle(&mut self, _: &str, _: u32, lib_handle: LibraryHandle, _: u32) -> (LibraryHandle, u32) {
        (lib_handle, u32::MAX - 7)
    }
}

#[test]
fn recycled_place_without_room_is_not_taken() {
    let mut libs = GlobalLibTable::new();
    let mut recycler = TooHigh;
    let lib = assemble_perf_map(1, Some("1000 8 fits\n2000 9 not\n"), &mut libs, Some(&mut recycler))
        .unwrap();
    let h = lib.lib_handle();
    assert_eq!(lib.mappings().convert_address(0x1000), Some((u32::MAX - 7, &h)));
    assert_eq!(lib.mappings().convert_address(0x1007), Some((u32::MAX, &h)));
    assert_eq!(lib.mappings().convert_address(0x2000), Some((8, &h)));
}

#[test]
fn library_can_be_built_by_hand_and_taken_apart() {
    let mut libs = GlobalLibTable::new();
    let h = libs.handle_for_lib(perf_map_library(3));
    let other = libs.handle_for_lib(perf_map_library(4));
    let mut lib = JitLibrary::new(h);
    assert!(lib.accepts(0x1000, 0x10));
    assert!(!lib.accepts(u64::MAX, 1));
    assert!(lib.accepts(u64::MAX, 0));
    assert!(!lib.accepts(0, 0x1_0000_0000));
    assert!(lib.add_function(0x1000, 0x10, "a".to_string(), None));
    assert!(lib.add_function(0x2000, 0x10, "b".to_string(), Some((other, 0x500))));
    assert!(!lib.add_function(0x3000, u64::MAX, "c".to_string(), None));
    let (handle, symbols, mappings) = lib.into_parts();
    assert_eq!(handle, h);
    assert_eq!(symbols.len(), 2);
    assert_eq!(symbols[1].name, "b");
    assert_eq!(symbols[1].address, 0x10);
    assert_eq!(mappings.convert_address(0x1001), Some((1, &h)));
    assert_eq!(mappings.convert_address(0x2001), Some((0x501, &other)));
}

#[test]
fn strings_are_made_of_parts_of_slices() {
    let chars = chars_of("héllo wörld");
    assert_eq!(string_from_chars(&chars, 0, chars.len()), "héllo wörld");
    assert_eq!(string_from_chars(&chars, 6, 11), "wörld");
    assert_eq!(string_from_chars(&chars, 1, 2), "é");
    assert_eq!(string_from_chars(&chars, 3, 3), "");
}

#[test]
fn recycler_that_remembers_nothing_gives_back_what_it_is_told() {
    let mut libs = GlobalLibTable::new();
    let h = libs.handle_for_lib(perf_map_library(1));
    let other = libs.handle_for_lib(perf_map_library(2));
    let mut recycler = NoRecycler;
    assert_eq!(recycler.recycle("foo", 0x20, h, 0x40), (h, 0x40));
    assert_eq!(recycler.recycle("foo", 0x20, other, 0), (other, 0));
    assert_eq!(recycler.recycle("", 0, h, u32::MAX), (h, u32::MAX));
    let text = "1000 20 foo\n1010 8 bar\n";
    let with = assemble_perf_map(3, Some(text), &mut libs, Some(&mut recycler)).unwrap();
    let without = assemble_perf_map::<NoRecycler>(3, Some(text), &mut libs, None).unwrap();
    for address in [0x1000u64, 0x100f, 0x1010, 0x1017, 0x1018, 0x101f] {
        assert_eq!(
            with.mappings().convert_address(address),
            without.mappings().convert_address(address)
        );
    }
}

#[test]
fn library_is_assembled_for_a_given_handle() {
    let mut libs = GlobalLibTable::new();
    let h = libs.handle_for_lib(perf_map_library(9));
    let lib = load_perf_map(h, "1000 20 foo\nbad line\n3000 10 bar\n");
    assert_eq!(lib.lib_handle(), h);
    assert_eq!(lib.symbol_count(), 2);
    assert_eq!(lib.mappings().convert_address(0x3008), Some((0x28, &h)));
    let mut recycler = Remembering { known: Vec::new(), asked: Vec::new() };
    let recycled = load_perf_map_recycling(h, "1000 20 foo\nbad line\n3000 10 bar\n", &mut recycler);
    assert_eq!(recycled.symbol_count(), 2);
    assert_eq!(recycled.mappings().convert_address(0x3008), Some((0x28, &h)));
    assert_eq!(
        recycler.asked,
        vec![("foo".to_string(), 0x20, h, 0), ("bar".to_string(), 0x10, h, 0x20)]
    );
}

#[test]
fn recycler_is_not_asked_about_code_that_does_not_fit() {
    let mut libs = GlobalLibTable::new();
    let h = libs.handle_for_lib(perf_map_library(9));
    let mut recycler = Remembering { known: Vec::new(), asked: Vec::new() };
    let lib = load_perf_map_recycling(
        h,
        "1000 100000000 toolong\nffffffffffffffff 2 pastend\n1000 8 fits\n",
        &mut recycler,
    );
    assert_eq!(lib.symbol_count(), 1);
    assert_eq!(recycler.asked, vec![("fits".to_string(), 8, h, 0)]);
}

struct Counting {
    calls: u32,
}

impl FunctionRecycler for Counting {
    fn recycle(&mut self, _: &str, _: u32, lib_handle: LibraryHandle, _: u32) -> (LibraryHandle, u32) {
        self.calls += 1;
        (lib_handle, 0x1000 * self.calls)
    }
}

#[test]
fn each_answer_of_the_recycler_is_used_for_its_own_line() {
    let mut libs = GlobalLibTable::new();
    let h = libs.handle_for_lib(perf_map_library(9));
    let mut recycler = Counting { calls: 0 };
    let lib = load_perf_map_recycling(h, "100 10 a\n\n200 10 b\nxx\n300 10 c\n", &mut recycler);
    assert_eq!(recycler.calls, 3);
    assert_eq!(lib.mappings().convert_address(0x101), Some((0x1001, &h)));
    assert_eq!(lib.mappings().convert_address(0x201), Some((0x2001, &h)));
    assert_eq!(lib.mappings().convert_address(0x301), Some((0x3001, &h)));
    assert_eq!(lib.symbol(2).address, 0x20);
}

#[test]
fn loading_stores_the_symbols_and_returns_the_ranges() {
    let mut libs = GlobalLibTable::new();
    let text = "1000 20 foo\nbad line\n3000 10 bar baz\n";
    let mappings = try_load_perf_map::<NoRecycler>(7, Some(text), &mut libs, None)
        .expect("a text gives ranges");
    assert_eq!(libs.lib_count(), 1);
    let h = libs.handle_for_lib(perf_map_library(7));
    assert_eq!(libs.lib_count(), 1);
    assert_eq!(mappings.len(), 2);
    assert_eq!(mappings.convert_address(0x1004), Some((4, &h)));
    assert_eq!(mappings.convert_address(0x3004), Some((0x24, &h)));
    assert_eq!(mappings.convert_address(0x2000), None);
    let table = libs.lib_symbol_table(h).expect("the symbols were stored");
    assert_eq!(table.len(), 2);
    assert_eq!((table[0].address, table[0].size, table[0].name.as_str()), (0, Some(0x20), "foo"));
    assert_eq!(
        (table[1].address, table[1].size, table[1].name.as_str()),
        (0x20, Some(0x10), "bar baz")
    );
}

#[test]
fn loading_nothing_stores_nothing() {
    let mut libs = GlobalLibTable::new();
    let other = libs.handle_for_lib(perf_map_library(1));
    assert!(try_load_perf_map::<NoRecycler>(7, None, &mut libs, None).is_none());
    assert_eq!(libs.lib_count(), 1);
    assert!(libs.lib_symbol_table(other).is_none());
}

#[test]
fn loading_an_empty_perf_map_stores_an_empty_table() {
    let mut libs = GlobalLibTable::new();
    let mappings = try_load_perf_map::<NoRecycler>(7, Some(""), &mut libs, None).unwrap();
    assert_eq!(mappings.len(), 0);
    let h = libs.handle_for_lib(perf_map_library(7));
    assert_eq!(libs.lib_symbol_table(h).map(|table| table.len()), Some(0));
}

#[test]
fn loading_leaves_the_tables_of_other_libraries() {
    let mut libs = GlobalLibTable::new();
    let first = try_load_perf_map::<NoRecycler>(1, Some("10 4 a\n"), &mut libs, None).unwrap();
    let second = try_load_perf_map::<NoRecycler>(2, Some("20 4 b\n30 4 c\n"), &mut libs, None).unwrap();
    let h1 = libs.handle_for_lib(perf_map_library(1));
    let h2 = libs.handle_for_lib(perf_map_library(2));
    assert_ne!(h1, h2);
    assert_eq!(first.convert_address(0x10), Some((0, &h1)));
    assert_eq!(second.convert_address(0x30), Some((4, &h2)));
    assert_eq!(libs.lib_symbol_table(h1).map(|table| table.len()), Some(1));
    assert_eq!(libs.lib_symbol_table(h2).map(|table| table.len()), Some(2));
    assert_eq!(libs.lib_symbol_table(h1).unwrap()[0].name, "a");
    let again = try_load_perf_map::<NoRecycler>(1, Some("10 4 x\n14 4 y\n18 4 z\n"), &mut libs, None);
    assert!(again.is_some());
    assert_eq!(libs.lib_count(), 2);
    assert_eq!(libs.lib_symbol_table(h1).map(|table| table.len()), Some(3));
    assert_eq!(libs.lib_symbol_table(h2).map(|table| table.len()), Some(2));
    assert_eq!(libs.used_lib_count(), 0);
}

#[test]
fn loading_with_a_recycler_stores_the_symbols_where_they_lie() {
    let mut libs = GlobalLibTable::new();
    let mut recycler = Remembering { known: Vec::new(), asked: Vec::new() };
    let first =
        try_load_perf_map(1, Some("1000 20 foo\n"), &mut libs, Some(&mut recycler)).unwrap();
    let second = try_load_perf_map(2, Some("8000 10 new\n9000 20 foo\n"), &mut libs, Some(&mut recycler))
        .unwrap();
    let h1 = libs.handle_for_lib(perf_map_library(1));
    let h2 = libs.handle_for_lib(perf_map_library(2));
    assert_eq!(first.convert_address(0x1001), Some((1, &h1)));
    assert_eq!(second.convert_address(0x8001), Some((1, &h2)));
    assert_eq!(second.convert_address(0x9001), Some((1, &h1)));
    let table = libs.lib_symbol_table(h2).unwrap();
    assert_eq!(table.len(), 2);
    assert_eq!((table[1].address, table[1].name.as_str()), (0x10, "foo"));
    assert_eq!(recycler.asked.len(), 3);
}
