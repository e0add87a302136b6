//! What is known of a library: its names, its paths and its identifiers.

use vstd::prelude::*;

verus! {

/// The identifier of a debug information file, in plain values: the sixteen bytes
/// of its UUID read as one big-endian number, the appendix (the age of a PDB
/// file), and whether it is of the old PDB 2.0 kind. Two identifiers are the same
/// when all three agree.
#[derive(Clone, Copy, Debug, PartialEq, Eq, Structural)]
pub struct DebugIdentifier {
    pub uuid: u128,
    pub appendix: u32,
    pub is_pdb20: bool,
}

/// Calls `debugid::DebugId::nil` and hands back the UUID, the appendix and the
/// kind of the identifier it made. The contract claims what that function's
/// documentation says: the identifier holds only zeros, so its UUID and its
/// appendix are zero, and it is not of the PDB 2.0 kind.
#[verifier::external_body]
fn nil_debug_id() -> (id: DebugIdentifier)
    ensures
        id.uuid == 0,
        id.appendix == 0,
        !id.is_pdb20,
{
    let id = debugid::DebugId::nil();
    DebugIdentifier {
        uuid: id.uuid().as_u128(),
        appendix: id.appendix(),
        is_pdb20: id.is_pdb20(),
    }
}

impl DebugIdentifier {
    /// The identifier that holds only zeros. It stands for "no identifier".
    pub fn nil() -> (id: DebugIdentifier)
        ensures
            id == (DebugIdentifier { uuid: 0, appendix: 0, is_pdb20: false }),
    {
        nil_debug_id()
    }

    /// Whether this is the identifier that holds only zeros.
    pub fn is_nil(&self) -> (b: bool)
        ensures
            b == (self.uuid == 0 && self.appendix == 0),
    {
        self.uuid == 0 && self.appendix == 0
    }
}

/// What is known of a library.
#[derive(Debug)]
pub struct LibraryInfo {
    /// The name of the binary file.
    pub name: String,
    /// The name of the file that holds the debug information.
    pub debug_name: String,
    /// The path of the binary file.
    pub path: String,
    /// The path of the file that holds the debug information.
    pub debug_path: String,
    /// The identifier of the debug information.
    pub debug_id: DebugIdentifier,
    /// The identifier of the binary, where it is known.
    pub code_id: Option<String>,
    /// The architecture of the binary, where it is known.
    pub arch: Option<String>,
}

/// A [`LibraryInfo`] with its strings as sequences of characters.
pub struct LibraryInfoView {
    pub name: Seq<char>,
    pub debug_name: Seq<char>,
    pub path: Seq<char>,
    pub debug_path: Seq<char>,
    pub debug_id: DebugIdentifier,
    pub code_id: Option<Seq<char>>,
    pub arch: Option<Seq<char>>,
}

/// The characters of a string that may be absent.
pub open spec fn optional_text(s: Option<String>) -> Option<Seq<char>> {
    match s {
        Some(s) => Some(s@),
        None => None,
    }
}

impl View for LibraryInfo {
    type V = LibraryInfoView;

    open spec fn view(&self) -> LibraryInfoView {
        LibraryInfoView {
            name: self.name@,
            debug_name: self.debug_name@,
            path: self.path@,
            debug_path: self.debug_path@,
            debug_id: self.debug_id,
            code_id: optional_text(self.code_id),
            arch: optional_text(self.arch),
        }
    }
}

/// Two descriptions are of one library when they agree in the debug identifier
/// and in the path. The other fields do not count.
pub open spec fn same_library(a: LibraryInfoView, b: LibraryInfoView) -> bool {
    a.debug_id == b.debug_id && a.path == b.path
}

impl LibraryInfo {
    /// Whether `self` and `other` describe one library: they agree in the debug
    /// identifier and in the path.
    pub fn is_same_library(&self, other: &LibraryInfo) -> (b: bool)
        ensures
            b == same_library(self@, other@),
    {
        self.debug_id == other.debug_id && self.path == other.path
    }
}

} // verus!
