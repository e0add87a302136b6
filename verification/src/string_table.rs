//! The table of strings that the profile's output refers to by number.

use vstd::prelude::*;

verus! {

/// A string of a [`ProfileStringTable`], by its position in the table.
#[derive(Clone, Copy, Debug, PartialEq, Eq, Structural)]
pub struct StringHandle(usize);

impl StringHandle {
    /// The position of the string in its table.
    pub closed spec fn index(self) -> nat {
        self.0 as nat
    }

    /// Two handles with one position are one handle.
    pub proof fn lemma_same_index(self, other: StringHandle)
        ensures
            self.index() == other.index() <==> self == other,
    {
    }

    /// The position of the string in its table.
    pub fn to_usize(self) -> (i: usize)
        ensures
            i == self.index(),
    {
        self.0
    }
}

/// Where `s` stands in `table`, if it does; where it would stand after being
/// appended, if not.
pub open spec fn string_position(table: Seq<Seq<char>>, s: Seq<char>) -> nat {
    if table.contains(s) {
        table.index_of(s) as nat
    } else {
        table.len()
    }
}

/// The table after `s` was interned: unchanged where it holds `s`, else with `s`
/// appended.
pub open spec fn with_string(table: Seq<Seq<char>>, s: Seq<char>) -> Seq<Seq<char>> {
    if table.contains(s) {
        table
    } else {
        table.push(s)
    }
}

/// In a table without repetition, a string has the place where it is found.
pub proof fn lemma_string_position(table: Seq<Seq<char>>, s: Seq<char>, i: int)
    requires
        table.no_duplicates(),
        0 <= i < table.len(),
        table[i] == s,
    ensures
        table.contains(s),
        string_position(table, s) == i,
        with_string(table, s) == table,
{
    table.index_of_first_ensures(s);
    let j = table.index_of(s);
    if j != i {
        assert(table[j] == table[i]);
    }
}

/// A table that holds each string once, in the order in which they first came.
pub struct ProfileStringTable {
    strings: Vec<String>,
}

impl View for ProfileStringTable {
    type V = Seq<Seq<char>>;

    /// The strings of the table, in order.
    closed spec fn view(&self) -> Seq<Seq<char>> {
        Seq::new(self.strings.len() as nat, |i: int| self.strings[i]@)
    }
}

impl ProfileStringTable {
    /// The invariant of the type: no string stands twice in the table.
    pub closed spec fn wf(&self) -> bool {
        self@.no_duplicates()
    }

    /// The strings of a well-formed table differ from each other.
    pub proof fn lemma_no_duplicates(&self)
        requires
            self.wf(),
        ensures
            self@.no_duplicates(),
    {
    }

    /// An empty table.
    pub fn new() -> (t: Self)
        ensures
            t.wf(),
            t@ == Seq::<Seq<char>>::empty(),
    {
        let t = ProfileStringTable { strings: Vec::new() };
        assert(t@ =~= Seq::<Seq<char>>::empty());
        t
    }

    /// The number of strings in the table.
    pub fn len(&self) -> (n: usize)
        ensures
            n == self@.len(),
    {
        self.strings.len()
    }

    /// The handle of `s` in the table. A string that the table does not hold yet
    /// is appended first; one that it holds keeps its handle, and the table stays
    /// as it is.
    pub fn index_for_string(&mut self, s: &str) -> (h: StringHandle)
        requires
            old(self).wf(),
        ensures
            final(self).wf(),
            final(self)@ == with_string(old(self)@, s@),
            h.index() == string_position(old(self)@, s@),
            h.index() < final(self)@.len(),
            final(self)@[h.index() as int] == s@,
    {
        let ghost table = self@;
        let n = self.strings.len();
        let owned = s.to_owned();
        let mut i: usize = 0;
        while i < n
            invariant
                i <= n,
                n == self.strings.len(),
                self@ == table,
                table.no_duplicates(),
                forall|k: int| 0 <= k < i ==> table[k] != s@,
                owned@ == s@,
            decreases n - i,
        {
            if self.strings[i] == owned {
                proof {
                    assert(table[i as int] == s@);
                    assert(table.contains(s@));
                    table.index_of_first_ensures(s@);
                    let j = table.index_of(s@);
                    assert(table[j] == s@);
                    if j != i {
                        assert(table[j] == table[i as int]);
                    }
                }
                return StringHandle(i);
            }
            i += 1;
        }
        proof {
            assert(!table.contains(s@)) by {
                if table.contains(s@) {
                    let j = choose|j: int| 0 <= j < table.len() && table[j] == s@;
                    assert(table[j] != s@);
                }
            }
        }
        self.strings.push(owned);
        proof {
            assert(self@ =~= table.push(s@));
            assert forall|a: int, b: int|
                0 <= a < self@.len() && 0 <= b < self@.len() && a != b implies self@[a]
                != self@[b] by {
                if a < n && b < n {
                    assert(table[a] != table[b]);
                } else if a < n {
                    assert(table[a] != s@);
                } else {
                    assert(table[b] != s@);
                }
            }
        }
        StringHandle(n)
    }

    /// The string that `h` stands for.
    pub fn get_string(&self, h: StringHandle) -> (s: &str)
        requires
            h.index() < self@.len(),
        ensures
            s@ == self@[h.index() as int],
    {
        self.strings[h.0].as_str()
    }
}

} // verus!
