//! Numbers written out as text, and text put together from parts.

use vstd::prelude::*;
use vstd::string::StringExecFns;

verus! {

/// The decimal digit for `d`.
pub open spec fn digit_char(d: nat) -> char {
    (d + '0' as nat) as char
}

/// The number `n` written in decimal digits, without leading zeros.
pub open spec fn decimal_text(n: nat) -> Seq<char>
    decreases n,
{
    if n < 10 {
        seq![digit_char(n)]
    } else {
        decimal_text(n / 10).push(digit_char(n % 10))
    }
}

/// Calls `String::push`. The contract claims that the character is appended to
/// the string, and that the string is otherwise left as it was.
#[verifier::external_body]
fn push_char(s: &mut String, c: char)
    ensures
        final(s)@ == old(s)@.push(c),
{
    s.push(c)
}

/// The string that holds the characters `chars[from..to]`.
pub fn string_from_chars(chars: &[char], from: usize, to: usize) -> (s: String)
    requires
        from <= to <= chars.len(),
    ensures
        s@ == chars@.subrange(from as int, to as int),
{
    let mut s = String::new();
    let mut i: usize = from;
    while i < to
        invariant
            from <= i <= to <= chars.len(),
            s@ == chars@.subrange(from as int, i as int),
        decreases to - i,
    {
        push_char(&mut s, chars[i]);
        proof {
            assert(s@ =~= chars@.subrange(from as int, i + 1));
        }
        i += 1;
    }
    s
}

/// The number `n` in decimal digits.
pub fn decimal_digits(n: u64) -> (digits: Vec<char>)
    ensures
        digits@ == decimal_text(n as nat),
{
    let mut digits: Vec<char> = Vec::new();
    digits.push(((n % 10) as u8 + 48) as char);
    let mut rest: u64 = n / 10;
    proof {
        assert(digits@ =~= seq![digit_char((n % 10) as nat)]);
        if n >= 10 {
            assert(decimal_text(n as nat) =~= decimal_text(rest as nat) + digits@);
        }
    }
    while rest > 0
        invariant
            decimal_text(n as nat) == if rest > 0 {
                decimal_text(rest as nat) + digits@
            } else {
                digits@
            },
        decreases rest,
    {
        let ghost before = digits@;
        digits.insert(0, ((rest % 10) as u8 + 48) as char);
        proof {
            let d = digit_char((rest % 10) as nat);
            assert(digits@ =~= seq![d] + before);
            if rest >= 10 {
                assert(decimal_text(rest as nat) + before =~= decimal_text((rest / 10) as nat)
                    + digits@);
            } else {
                assert(decimal_text(rest as nat) + before =~= digits@);
            }
        }
        rest = rest / 10;
    }
    digits
}

/// The hexadecimal digit for `d`, in upper case.
pub open spec fn upper_hex_digit_char(d: nat) -> char {
    if d < 10 {
        (d + '0' as nat) as char
    } else {
        (d - 10 + 'A' as nat) as char
    }
}

/// The last `width` hexadecimal digits of `n`, in upper case, with zeros in
/// front where `n` has fewer.
pub open spec fn upper_hex_text(n: nat, width: nat) -> Seq<char>
    decreases width,
{
    if width == 0 {
        Seq::empty()
    } else {
        upper_hex_text(n / 16, (width - 1) as nat).push(upper_hex_digit_char(n % 16))
    }
}

/// The last `width` hexadecimal digits of `n`, in upper case, with zeros in
/// front where `n` has fewer.
pub fn upper_hex_digits(n: u64, width: usize) -> (digits: Vec<char>)
    ensures
        digits@ == upper_hex_text(n as nat, width as nat),
{
    let mut digits: Vec<char> = Vec::new();
    let mut rest: u64 = n;
    let mut left: usize = width;
    proof {
        assert(upper_hex_text(rest as nat, left as nat) + digits@ =~= upper_hex_text(
            n as nat,
            width as nat,
        ));
    }
    while left > 0
        invariant
            upper_hex_text(rest as nat, left as nat) + digits@ == upper_hex_text(
                n as nat,
                width as nat,
            ),
        decreases left,
    {
        let d: u8 = (rest % 16) as u8;
        let c: char = if d < 10 {
            (d + 48) as char
        } else {
            (d - 10 + 65) as char
        };
        let ghost before = digits@;
        digits.insert(0, c);
        proof {
            assert(c == upper_hex_digit_char((rest % 16) as nat));
            assert(digits@ =~= seq![c] + before);
            assert(upper_hex_text(rest as nat, left as nat) + before =~= upper_hex_text(
                (rest / 16) as nat,
                (left - 1) as nat,
            ) + digits@);
        }
        rest = rest / 16;
        left = left - 1;
    }
    proof {
        assert(upper_hex_text(rest as nat, 0) + digits@ =~= digits@);
    }
    digits
}

/// Appends the characters to the string.
pub fn append_chars(s: &mut String, chars: &Vec<char>)
    ensures
        final(s)@ == old(s)@ + chars@,
{
    let mut i: usize = 0;
    proof {
        assert(s@ =~= old(s)@ + chars@.take(0));
    }
    while i < chars.len()
        invariant
            i <= chars.len(),
            s@ == old(s)@ + chars@.take(i as int),
        decreases chars.len() - i,
    {
        push_char(s, chars[i]);
        proof {
            assert(s@ =~= old(s)@ + chars@.take(i + 1));
        }
        i += 1;
    }
    proof {
        assert(chars@.take(i as int) =~= chars@);
    }
}

/// The parts one after another, with `separator` between each two.
pub open spec fn joined(parts: Seq<Seq<char>>, separator: Seq<char>) -> Seq<char>
    decreases parts.len(),
{
    if parts.len() == 0 {
        Seq::empty()
    } else if parts.len() == 1 {
        parts[0]
    } else {
        joined(parts.drop_last(), separator) + separator + parts.last()
    }
}

/// The characters of each string.
pub open spec fn texts(parts: Seq<String>) -> Seq<Seq<char>> {
    Seq::new(parts.len(), |i: int| parts[i]@)
}

/// The number `n` in decimal digits, as a string.
pub fn decimal_string(n: u64) -> (s: String)
    ensures
        s@ == decimal_text(n as nat),
{
    let digits = decimal_digits(n);
    proof {
        assert(digits@.subrange(0, digits.len() as int) =~= digits@);
    }
    string_from_chars(digits.as_slice(), 0, digits.len())
}

/// Puts the strings together, with `separator` between each two.
pub fn join(parts: &Vec<String>, separator: &str) -> (s: String)
    ensures
        s@ == joined(texts(parts@), separator@),
{
    let mut s = String::new();
    let mut i: usize = 0;
    while i < parts.len()
        invariant
            i <= parts.len(),
            s@ == joined(texts(parts@).take(i as int), separator@),
        decreases parts.len() - i,
    {
        proof {
            let now = texts(parts@).take(i + 1);
            assert(now.drop_last() =~= texts(parts@).take(i as int));
            assert(now.last() == parts[i as int]@);
            if i == 0 {
                assert(s@ + parts[i as int]@ =~= parts[i as int]@);
            }
        }
        if i > 0 {
            s.append(separator);
        }
        s.append(parts[i].as_str());
        i += 1;
    }
    proof {
        assert(texts(parts@).take(i as int) =~= texts(parts@));
    }
    s
}

} // verus!
