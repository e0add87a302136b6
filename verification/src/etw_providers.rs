//! The list of event providers, as the system hands it out in one block of
//! bytes.
//!
//! The block starts with the number of providers (four bytes) and four bytes that
//! are not used. Then comes one record of 24 bytes for each provider: its GUID
//! (16 bytes), the source of its schema (four bytes), and the place in the block
//! where its name starts (four bytes). A name is written in UTF-16 and ends with
//! a zero. All numbers have their least significant byte first.

use vstd::prelude::*;
use vstd::string::StringExecFns;
use crate::text::{append_chars, upper_hex_digits, upper_hex_text};

verus! {

/// The length of what stands before the records.
pub const HEADER_LEN: u64 = 8;

/// The length of one record.
pub const RECORD_LEN: u64 = 24;

/// A GUID, in its four parts.
#[derive(Debug)]
pub struct Guid {
    pub data1: u32,
    pub data2: u16,
    pub data3: u16,
    pub data4: Vec<u8>,
}

/// One provider of the list.
#[derive(Debug)]
pub struct TraceProviderInfo {
    /// The GUID of the provider.
    pub guid: Guid,
    /// Where the schema of the provider's events comes from: 0 for an XML
    /// manifest, anything else for MOF.
    pub schema_source: u32,
    /// The name of the provider, in UTF-16, without the zero at its end.
    pub name: Vec<u16>,
}

/// A [`TraceProviderInfo`] as the contracts see it.
pub struct ProviderRecord {
    pub data1: u32,
    pub data2: u16,
    pub data3: u16,
    pub data4: Seq<u8>,
    pub schema_source: u32,
    pub name: Seq<u16>,
}

impl View for TraceProviderInfo {
    type V = ProviderRecord;

    open spec fn view(&self) -> ProviderRecord {
        ProviderRecord {
            data1: self.guid.data1,
            data2: self.guid.data2,
            data3: self.guid.data3,
            data4: self.guid.data4@,
            schema_source: self.schema_source,
            name: self.name@,
        }
    }
}

/// The number that the two bytes at `at` write.
pub open spec fn u16_at(block: Seq<u8>, at: int) -> u16 {
    (block[at] + 0x100 * block[at + 1]) as u16
}

/// The number that the four bytes at `at` write.
pub open spec fn u32_at(block: Seq<u8>, at: int) -> u32 {
    (block[at] + 0x100 * block[at + 1] + 0x1_0000 * block[at + 2] + 0x100_0000 * block[at
        + 3]) as u32
}

/// The name that starts at `at`: the 16-bit units up to the first zero. `None`
/// where the block ends before a zero comes.
pub open spec fn name_at(block: Seq<u8>, at: int) -> Option<Seq<u16>>
    decreases block.len() - at,
{
    if at < 0 || at + 2 > block.len() {
        None
    } else if u16_at(block, at) == 0 {
        Some(Seq::empty())
    } else {
        match name_at(block, at + 2) {
            Some(rest) => Some(seq![u16_at(block, at)] + rest),
            None => None,
        }
    }
}

/// The number of providers that the block says it holds; `None` where the block
/// is too short to say.
pub open spec fn provider_count(block: Seq<u8>) -> Option<u32> {
    if block.len() < HEADER_LEN {
        None
    } else {
        Some(u32_at(block, 0))
    }
}

/// The provider with the number `index`, counted from zero; `None` where its
/// record or its name does not lie within the block.
pub open spec fn provider_at(block: Seq<u8>, index: int) -> Option<ProviderRecord> {
    let at = HEADER_LEN + RECORD_LEN * index;
    if index < 0 || at + RECORD_LEN > block.len() {
        None
    } else {
        match name_at(block, u32_at(block, at + 20) as int) {
            Some(name) => Some(
                ProviderRecord {
                    data1: u32_at(block, at),
                    data2: u16_at(block, at + 4),
                    data3: u16_at(block, at + 6),
                    data4: block.subrange(at + 8, at + 16),
                    schema_source: u32_at(block, at + 16),
                    name,
                },
            ),
            None => None,
        }
    }
}

/// The providers of the block, in order; `None` where the block is too short
/// for what it says it holds.
pub open spec fn providers_of(block: Seq<u8>) -> Option<Seq<ProviderRecord>> {
    match provider_count(block) {
        Some(count) => if forall|i: int| 0 <= i < count ==> (#[trigger] provider_at(block, i))
            is Some {
            Some(Seq::new(count as nat, |i: int| provider_at(block, i)->0))
        } else {
            None
        },
        None => None,
    }
}

/// What the source of a provider's schema is called.
pub open spec fn schema_source_text(schema_source: u32) -> Seq<char> {
    if schema_source == 0 {
        "XML manifest"@
    } else {
        "MOF"@
    }
}

/// What the 16-bit units write in UTF-16; `None` where they are not UTF-16. A
/// unit outside the surrogates is a character by itself. A high surrogate and
/// the low surrogate behind it are one character beyond U+FFFF. A surrogate that
/// stands otherwise is not UTF-16.
pub open spec fn utf16_text(units: Seq<u16>) -> Option<Seq<char>>
    decreases units.len(),
{
    if units.len() == 0 {
        Some(Seq::empty())
    } else if units[0] < 0xD800 || units[0] > 0xDFFF {
        match utf16_text(units.skip(1)) {
            Some(rest) => Some(seq![units[0] as char] + rest),
            None => None,
        }
    } else if units[0] <= 0xDBFF && units.len() >= 2 && 0xDC00 <= units[1] <= 0xDFFF {
        match utf16_text(units.skip(2)) {
            Some(rest) => Some(
                seq![(0x1_0000 + (units[0] - 0xD800) * 0x400 + (units[1] - 0xDC00)) as char] + rest,
            ),
            None => None,
        }
    } else {
        None
    }
}

/// The name of a provider as text. Where the name is not UTF-16, a notice of
/// that stands in its place.
pub open spec fn provider_name_text(units: Seq<u16>) -> Seq<char> {
    match utf16_text(units) {
        Some(text) => text,
        None => "Error converting to string"@,
    }
}

/// Calls `String::from_utf16` on `units`, and gives the string where the call
/// succeeds, `None` where it fails. The contract claims that the call decodes
/// UTF-16 as [`utf16_text`] says, and fails exactly where the units are not
/// UTF-16.
#[verifier::external_body]
fn decode_utf16(units: &[u16]) -> (text: Option<String>)
    ensures
        match utf16_text(units@) {
            Some(t) => text matches Some(s) && s@ == t,
            None => text is None,
        },
{
    String::from_utf16(units).ok()
}

/// Reads the two bytes at `at` as a number.
pub fn read_u16(block: &[u8], at: usize) -> (n: u16)
    requires
        at + 2 <= block.len(),
    ensures
        n == u16_at(block@, at as int),
{
    block[at] as u16 + 0x100 * (block[at + 1] as u16)
}

/// Reads the four bytes at `at` as a number.
pub fn read_u32(block: &[u8], at: usize) -> (n: u32)
    requires
        at + 4 <= block.len(),
    ensures
        n == u32_at(block@, at as int),
{
    block[at] as u32 + 0x100 * (block[at + 1] as u32) + 0x1_0000 * (block[at + 2] as u32)
        + 0x100_0000 * (block[at + 3] as u32)
}

/// Reads the name that starts at `at`.
pub fn read_name(block: &[u8], at: usize) -> (name: Option<Vec<u16>>)
    ensures
        match name_at(block@, at as int) {
            Some(units) => name matches Some(v) && v@ == units,
            None => name is None,
        },
{
    let mut units: Vec<u16> = Vec::new();
    let mut i: usize = at;
    loop
        invariant
            at <= i,
            name_at(block@, at as int) == match name_at(block@, i as int) {
                Some(rest) => Some(units@ + rest),
                None => None,
            },
        decreases block.len() - i,
    {
        if i > block.len() || block.len() - i < 2 {
            return None;
        }
        let unit = read_u16(block, i);
        if unit == 0 {
            proof {
                assert(units@ + Seq::<u16>::empty() =~= units@);
            }
            return Some(units);
        }
        proof {
            let ghost_before = units@;
            if let Some(rest) = name_at(block@, i + 2) {
                assert(ghost_before + (seq![unit] + rest) =~= ghost_before.push(unit) + rest);
            }
        }
        units.push(unit);
        i += 2;
    }
}

/// Reads the provider with the number `index`, counted from zero.
pub fn read_provider(block: &[u8], index: u32) -> (provider: Option<TraceProviderInfo>)
    ensures
        match provider_at(block@, index as int) {
            Some(record) => provider matches Some(p) && p@ == record,
            None => provider is None,
        },
{
    let at: u64 = HEADER_LEN + RECORD_LEN * (index as u64);
    if block.len() as u64 <= at || block.len() as u64 - at < RECORD_LEN {
        return None;
    }
    let at: usize = at as usize;
    let name_offset = read_u32(block, at + 20);
    let name = match read_name(block, name_offset as usize) {
        Some(name) => name,
        None => {
            return None;
        },
    };
    let mut data4: Vec<u8> = Vec::new();
    let mut k: usize = 0;
    while k < 8
        invariant
            k <= 8,
            at + RECORD_LEN <= block.len(),
            data4@ == block@.subrange(at + 8, at + 8 + k),
        decreases 8 - k,
    {
        data4.push(block[at + 8 + k]);
        proof {
            assert(data4@ =~= block@.subrange(at + 8, at + 8 + k + 1));
        }
        k += 1;
    }
    Some(
        TraceProviderInfo {
            guid: Guid {
                data1: read_u32(block, at),
                data2: read_u16(block, at + 4),
                data3: read_u16(block, at + 6),
                data4,
            },
            schema_source: read_u32(block, at + 16),
            name,
        },
    )
}

/// Reads the providers of a block; `None` where the block is too short for what
/// it says it holds.
pub fn parse_provider_list(block: &[u8]) -> (providers: Option<Vec<TraceProviderInfo>>)
    ensures
        match providers_of(block@) {
            Some(records) => providers matches Some(v) && v@.len() == records.len() && forall|
                i: int,
            |
                0 <= i < records.len() ==> (#[trigger] v@[i])@ == records[i],
            None => providers is None,
        },
{
    if block.len() < 8 {
        return None;
    }
    let count = read_u32(block, 0);
    let mut providers: Vec<TraceProviderInfo> = Vec::new();
    let mut i: u32 = 0;
    while i < count
        invariant
            i <= count,
            block.len() >= HEADER_LEN,
            count == u32_at(block@, 0),
            providers@.len() == i,
            forall|k: int| 0 <= k < i ==> (#[trigger] provider_at(block@, k)) is Some,
            forall|k: int| 0 <= k < i ==> (#[trigger] providers@[k])@ == provider_at(block@, k)->0,
        decreases count - i,
    {
        match read_provider(block, i) {
            Some(p) => {
                providers.push(p);
            },
            None => {
                proof {
                    assert(provider_at(block@, i as int) is None);
                }
                return None;
            },
        }
        i += 1;
    }
    Some(providers)
}

/// What the source of a provider's schema is called.
pub fn schema_source_name(schema_source: u32) -> (name: &'static str)
    ensures
        name@ == schema_source_text(schema_source),
{
    if schema_source == 0 {
        "XML manifest"
    } else {
        "MOF"
    }
}

/// The name of a provider as text.
pub fn provider_name(units: &[u16]) -> (name: String)
    ensures
        name@ == provider_name_text(units@),
{
    match decode_utf16(units) {
        Some(text) => text,
        None => String::from_str("Error converting to string"),
    }
}

/// The GUID of a provider as text: its parts in upper-case hexadecimal digits,
/// in groups of 8, 4, 4, 4 and 12 digits with hyphens between them.
pub open spec fn guid_text(record: ProviderRecord) -> Seq<char>
    recommends
        record.data4.len() == 8,
{
    upper_hex_text(record.data1 as nat, 8) + "-"@ + upper_hex_text(record.data2 as nat, 4) + "-"@
        + upper_hex_text(record.data3 as nat, 4) + "-"@ + upper_hex_text(
        record.data4[0] as nat,
        2,
    ) + upper_hex_text(record.data4[1] as nat, 2) + "-"@ + upper_hex_text(
        record.data4[2] as nat,
        2,
    ) + upper_hex_text(record.data4[3] as nat, 2) + upper_hex_text(record.data4[4] as nat, 2)
        + upper_hex_text(record.data4[5] as nat, 2) + upper_hex_text(record.data4[6] as nat, 2)
        + upper_hex_text(record.data4[7] as nat, 2)
}

/// The line that says what a provider is: two spaces, then its GUID, its name
/// and the source of its schema, with ` - ` between them.
pub open spec fn provider_line_text(record: ProviderRecord) -> Seq<char> {
    "  "@ + guid_text(record) + " - "@ + provider_name_text(record.name) + " - "@
        + schema_source_text(record.schema_source)
}

/// The GUID of a provider as text.
pub fn guid_string(provider: &TraceProviderInfo) -> (text: String)
    requires
        provider@.data4.len() == 8,
    ensures
        text@ == guid_text(provider@),
{
    let mut text = String::new();
    proof {
        assert(text@ + upper_hex_text(provider@.data1 as nat, 8) =~= upper_hex_text(
            provider@.data1 as nat,
            8,
        ));
    }
    append_chars(&mut text, &upper_hex_digits(provider.guid.data1 as u64, 8));
    text.append("-");
    append_chars(&mut text, &upper_hex_digits(provider.guid.data2 as u64, 4));
    text.append("-");
    append_chars(&mut text, &upper_hex_digits(provider.guid.data3 as u64, 4));
    text.append("-");
    append_chars(&mut text, &upper_hex_digits(provider.guid.data4[0] as u64, 2));
    append_chars(&mut text, &upper_hex_digits(provider.guid.data4[1] as u64, 2));
    text.append("-");
    append_chars(&mut text, &upper_hex_digits(provider.guid.data4[2] as u64, 2));
    append_chars(&mut text, &upper_hex_digits(provider.guid.data4[3] as u64, 2));
    append_chars(&mut text, &upper_hex_digits(provider.guid.data4[4] as u64, 2));
    append_chars(&mut text, &upper_hex_digits(provider.guid.data4[5] as u64, 2));
    append_chars(&mut text, &upper_hex_digits(provider.guid.data4[6] as u64, 2));
    append_chars(&mut text, &upper_hex_digits(provider.guid.data4[7] as u64, 2));
    text
}

/// The line that says what a provider is.
pub fn provider_line(provider: &TraceProviderInfo) -> (line: String)
    requires
        provider@.data4.len() == 8,
    ensures
        line@ == provider_line_text(provider@),
{
    let mut line = String::from_str("  ");
    line.append(guid_string(provider).as_str());
    line.append(" - ");
    line.append(provider_name(provider.name.as_slice()).as_str());
    line.append(" - ");
    line.append(schema_source_name(provider.schema_source));
    line
}

/// The lines that list the providers of a block, one line for each provider, in
/// order; `None` where the block is too short for what it says it holds.
pub fn list_etw_providers(block: &[u8]) -> (lines: Option<Vec<String>>)
    ensures
        match providers_of(block@) {
            Some(records) => lines matches Some(v) && v@.len() == records.len() && forall|
                i: int,
            |
                0 <= i < records.len() ==> (#[trigger] v@[i])@ == provider_line_text(records[i]),
            None => lines is None,
        },
{
    let providers = match parse_provider_list(block) {
        Some(providers) => providers,
        None => {
            return None;
        },
    };
    let ghost records = providers_of(block@)->0;
    let mut lines: Vec<String> = Vec::new();
    let mut i: usize = 0;
    while i < providers.len()
        invariant
            i <= providers.len(),
            providers@.len() == records.len(),
            providers_of(block@) == Some(records),
            forall|k: int| 0 <= k < records.len() ==> (#[trigger] providers@[k])@ == records[k],
            lines@.len() == i,
            forall|k: int| 0 <= k < i ==> (#[trigger] lines@[k])@ == provider_line_text(records[k]),
        decreases providers.len() - i,
    {
        proof {
            assert(providers@[i as int]@ == records[i as int]);
            assert(provider_at(block@, i as int) is Some);
            assert(records[i as int] == provider_at(block@, i as int)->0);
        }
        lines.push(provider_line(&providers[i]));
        i += 1;
    }
    Some(lines)
}

} // verus!
