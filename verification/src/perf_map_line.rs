//! One line of a perf map: a line of text that names a piece of code, in the form
//! `<hex address> <hex length> <name>`.
//!
//! The fields are separated by single spaces. The name is the rest of the line
//! and may hold spaces itself.

use vstd::prelude::*;

verus! {

/// The value of a hexadecimal digit, in either case.
pub open spec fn hex_digit_value(c: char) -> Option<nat> {
    if '0' <= c <= '9' {
        Some((c as nat - '0' as nat) as nat)
    } else if 'a' <= c <= 'f' {
        Some((c as nat - 'a' as nat + 10) as nat)
    } else if 'A' <= c <= 'F' {
        Some((c as nat - 'A' as nat + 10) as nat)
    } else {
        None
    }
}

/// The number that the hexadecimal digits `s` write, most significant digit
/// first; `None` where a character of `s` is not such a digit. No digits write
/// zero.
pub open spec fn hex_digits_value(s: Seq<char>) -> Option<nat>
    decreases s.len(),
{
    if s.len() == 0 {
        Some(0)
    } else {
        match (hex_digits_value(s.drop_last()), hex_digit_value(s.last())) {
            (Some(v), Some(d)) => Some(v * 16 + d),
            _ => None,
        }
    }
}

/// `s` without the prefixes `0x` that it starts with, however many they are.
pub open spec fn without_hex_prefixes(s: Seq<char>) -> Seq<char>
    decreases s.len(),
{
    if s.len() >= 2 && s[0] == '0' && s[1] == 'x' {
        without_hex_prefixes(s.skip(2))
    } else {
        s
    }
}

/// The number that the field `s` writes: after any prefixes `0x` and one
/// optional `+`, one or more hexadecimal digits whose value is below 2^64.
/// Anything else is no number.
pub open spec fn parse_hex(s: Seq<char>) -> Option<u64> {
    let unprefixed = without_hex_prefixes(s);
    let digits = if unprefixed.len() > 0 && unprefixed[0] == '+' {
        unprefixed.skip(1)
    } else {
        unprefixed
    };
    if digits.len() == 0 {
        None
    } else {
        match hex_digits_value(digits) {
            Some(v) => if v <= u64::MAX {
                Some(v as u64)
            } else {
                None
            },
            None => None,
        }
    }
}

/// The place of the first `c` in `s`; the length of `s` where it holds none.
pub open spec fn position_of(s: Seq<char>, c: char) -> int
    decreases s.len(),
{
    if s.len() == 0 || s[0] == c {
        0
    } else {
        1 + position_of(s.drop_first(), c)
    }
}

/// What the line says: the address, the length and the name of a piece of code.
/// The line is split at its first two spaces. A line with fewer than two spaces,
/// with an empty name, or with an address or a length that is no hexadecimal
/// number says nothing.
pub open spec fn parse_line(line: Seq<char>) -> Option<(u64, u64, Seq<char>)> {
    let first = position_of(line, ' ');
    if first >= line.len() {
        None
    } else {
        let rest = line.skip(first + 1);
        let second = position_of(rest, ' ');
        if second >= rest.len() {
            None
        } else {
            let name = rest.skip(second + 1);
            if name.len() == 0 {
                None
            } else {
                match (parse_hex(line.take(first)), parse_hex(rest.take(second))) {
                    (Some(address), Some(length)) => Some((address, length, name)),
                    _ => None,
                }
            }
        }
    }
}

/// The first `c` of `s` stands at `i`, where no `c` stands before `i` and one
/// stands at `i` or `s` ends there.
pub proof fn lemma_position_of(s: Seq<char>, c: char, i: int)
    requires
        0 <= i <= s.len(),
        forall|j: int| 0 <= j < i ==> s[j] != c,
        i < s.len() ==> s[i] == c,
    ensures
        position_of(s, c) == i,
    decreases s.len(),
{
    if s.len() != 0 && s[0] != c {
        let t = s.drop_first();
        assert forall|j: int| 0 <= j < i - 1 implies t[j] != c by {
            assert(t[j] == s[j + 1]);
        }
        lemma_position_of(t, c, i - 1);
    }
}

/// The digits at the start of a number are a number too, and not a larger one.
pub proof fn lemma_hex_digits_prefix(s: Seq<char>, k: int)
    requires
        0 <= k <= s.len(),
    ensures
        hex_digits_value(s) matches Some(v) ==> (hex_digits_value(s.take(k)) matches Some(p) && p
            <= v),
    decreases s.len(),
{
    if k == s.len() {
        assert(s.take(k) =~= s);
    } else {
        assert(s.drop_last().take(k) =~= s.take(k));
        lemma_hex_digits_prefix(s.drop_last(), k);
    }
}

/// The value of the character `c` as a hexadecimal digit.
pub fn hex_digit(c: char) -> (d: Option<u8>)
    ensures
        match hex_digit_value(c) {
            Some(v) => d == Some(v as u8) && v < 16,
            None => d is None,
        },
{
    if c >= '0' && c <= '9' {
        Some((c as u32 - '0' as u32) as u8)
    } else if c >= 'a' && c <= 'f' {
        Some((c as u32 - 'a' as u32 + 10) as u8)
    } else if c >= 'A' && c <= 'F' {
        Some((c as u32 - 'A' as u32 + 10) as u8)
    } else {
        None
    }
}

/// The place of the first `c` in `s[from..to]`, counted from the start of `s`;
/// `to` where there is none.
pub fn find_char(s: &[char], from: usize, to: usize, c: char) -> (i: usize)
    requires
        from <= to <= s.len(),
    ensures
        from <= i <= to,
        i - from == position_of(s@.subrange(from as int, to as int), c),
        forall|j: int| from <= j < i ==> s[j] != c,
        i < to ==> s[i as int] == c,
{
    let mut i: usize = from;
    while i < to && s[i] != c
        invariant
            from <= i <= to <= s.len(),
            forall|j: int| from <= j < i ==> s[j] != c,
        decreases to - i,
    {
        i += 1;
    }
    proof {
        lemma_position_of(s@.subrange(from as int, to as int), c, i - from);
    }
    i
}

/// Reads the field `s[from..to]` as a hexadecimal number.
pub fn parse_hex_field(s: &[char], from: usize, to: usize) -> (r: Option<u64>)
    requires
        from <= to <= s.len(),
    ensures
        r == parse_hex(s@.subrange(from as int, to as int)),
{
    let ghost field = s@.subrange(from as int, to as int);
    let mut i: usize = from;
    while i < to && to - i >= 2 && s[i] == '0' && s[i + 1] == 'x'
        invariant
            from <= i <= to <= s.len(),
            without_hex_prefixes(field) == without_hex_prefixes(s@.subrange(i as int, to as int)),
        decreases to - i,
    {
        proof {
            let here = s@.subrange(i as int, to as int);
            assert(here[0] == s[i as int] && here[1] == s[i + 1]);
            assert(here.skip(2) =~= s@.subrange(i + 2, to as int));
        }
        i += 2;
    }
    let ghost unprefixed = s@.subrange(i as int, to as int);
    proof {
        if unprefixed.len() >= 2 {
            assert(unprefixed[0] == s[i as int] && unprefixed[1] == s[i + 1]);
        }
        assert(without_hex_prefixes(field) == unprefixed);
    }
    if i < to && s[i] == '+' {
        proof {
            assert(unprefixed[0] == '+');
            assert(unprefixed.skip(1) =~= s@.subrange(i + 1, to as int));
        }
        i += 1;
    } else {
        proof {
            if unprefixed.len() > 0 {
                assert(unprefixed[0] == s[i as int]);
            }
        }
    }
    let ghost digits = s@.subrange(i as int, to as int);
    if i == to {
        return None;
    }
    let start = i;
    let mut value: u64 = 0;
    while i < to
        invariant
            start <= i <= to <= s.len(),
            digits == s@.subrange(start as int, to as int),
            digits.len() > 0,
            field == s@.subrange(from as int, to as int),
            parse_hex(field) == match hex_digits_value(digits) {
                Some(v) => if v <= u64::MAX {
                    Some(v as u64)
                } else {
                    None
                },
                None => None,
            },
            hex_digits_value(s@.subrange(start as int, i as int)) == Some(value as nat),
        decreases to - i,
    {
        let ghost sofar = s@.subrange(start as int, i as int);
        let ghost next = s@.subrange(start as int, i + 1);
        proof {
            assert(next.drop_last() =~= sofar);
            assert(next.last() == s[i as int]);
            assert(digits.take(i + 1 - start) =~= next);
            lemma_hex_digits_prefix(digits, i + 1 - start);
        }
        let d = match hex_digit(s[i]) {
            Some(d) => d,
            None => {
                return None;
            },
        };
        let shifted = match value.checked_mul(16) {
            Some(v) => v,
            None => {
                return None;
            },
        };
        value = match shifted.checked_add(d as u64) {
            Some(v) => v,
            None => {
                return None;
            },
        };
        i += 1;
    }
    proof {
        assert(s@.subrange(start as int, i as int) =~= digits);
    }
    Some(value)
}

/// Reads the line `s[from..to]`. Returns the address, the length, and the place
/// in `s` where the name starts; the name runs from there to `to`.
pub fn parse_line_range(s: &[char], from: usize, to: usize) -> (r: Option<(u64, u64, usize)>)
    requires
        from <= to <= s.len(),
    ensures
        match parse_line(s@.subrange(from as int, to as int)) {
            Some((address, length, name)) => r matches Some((a, l, name_start)) && a == address
                && l == length && from <= name_start < to && name == s@.subrange(
                name_start as int,
                to as int,
            ),
            None => r is None,
        },
{
    let ghost line = s@.subrange(from as int, to as int);
    let first = find_char(s, from, to, ' ');
    if first >= to {
        return None;
    }
    let ghost rest = line.skip(first - from + 1);
    proof {
        assert(rest =~= s@.subrange(first + 1, to as int));
        assert(line.take(first - from) =~= s@.subrange(from as int, first as int));
    }
    let second = find_char(s, first + 1, to, ' ');
    if second >= to {
        return None;
    }
    proof {
        assert(rest.skip(second - first) =~= s@.subrange(second + 1, to as int));
        assert(rest.take(second - first - 1) =~= s@.subrange(first + 1, second as int));
    }
    if second + 1 >= to {
        return None;
    }
    let address = match parse_hex_field(s, from, first) {
        Some(a) => a,
        None => {
            return None;
        },
    };
    let length = match parse_hex_field(s, first + 1, second) {
        Some(l) => l,
        None => {
            return None;
        },
    };
    Some((address, length, second + 1))
}

/// The characters of `s`, one by one.
pub fn chars_of(s: &str) -> (chars: Vec<char>)
    ensures
        chars@ == s@,
{
    let mut chars: Vec<char> = Vec::new();
    for c in it: s.chars()
        invariant
            chars@ == it.seq().take(it.index() as int),
            it.seq() == s@,
    {
        chars.push(c);
    }
    chars
}

/// Reads one line of a perf map: the address, the length and the name of a piece
/// of code. See [`parse_line`] for what a line may look like; a line that does
/// not look so gives `None`.
pub fn process_perf_map_line(line: &str) -> (r: Option<(u64, u64, &str)>)
    ensures
        match parse_line(line@) {
            Some((address, length, name)) => r matches Some((a, l, symbol_name)) && a == address
                && l == length && symbol_name@ == name,
            None => r is None,
        },
{
    let chars = chars_of(line);
    proof {
        assert(chars@.subrange(0, chars.len() as int) =~= line@);
    }
    match parse_line_range(chars.as_slice(), 0, chars.len()) {
        Some((address, length, name_start)) => {
            let symbol_name = line.substring_char(name_start, chars.len());
            Some((address, length, symbol_name))
        },
        None => None,
    }
}

} // verus!
