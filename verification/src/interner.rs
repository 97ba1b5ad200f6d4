//! Interned strings: a `StrI` is a handle into an `Interner`, so two equal names are one handle.

use vstd::prelude::*;

verus! {

/// An interned string, compared by identity.
#[derive(Clone, Copy, PartialEq, Eq, Structural, Debug)]
pub struct StrI(pub u32);

/// The table of interned strings; a `StrI(i)` names the `i`th entry.
pub struct Interner {
    pub strings: Vec<String>,
}

/// Interning `text` into the table `t` gave table `t2` and handle `s`: the handle of the first equal
/// entry and no change if there is one, else a new last entry.
pub open spec fn interned_text(t: Seq<Seq<char>>, text: Seq<char>, t2: Seq<Seq<char>>, s: StrI) -> bool {
    &&& s.0 < t2.len()
    &&& t2[s.0 as int] == text
    &&& forall|j: int| 0 <= j < s.0 ==> t2[j] != text
    &&& if exists|i: int| 0 <= i < t.len() && t[i] == text { t2 == t } else { t2 == t.push(text) }
}

/// Interning a text twice gives the same handle, and the second time changes nothing: equal names
/// are one handle.
pub proof fn law_intern_twice(t: Seq<Seq<char>>, text: Seq<char>, t1: Seq<Seq<char>>, t2: Seq<Seq<char>>, s1: StrI, s2: StrI)
    requires interned_text(t, text, t1, s1), interned_text(t1, text, t2, s2),
    ensures s1 == s2, t2 == t1,
{
    assert(t1[s1.0 as int] == text);
    if s2.0 < s1.0 {
        assert(t2[s2.0 as int] == text);
    } else if s1.0 < s2.0 {
        assert(t2[s1.0 as int] == text);
    }
}

impl Interner {
    pub open spec fn texts(&self) -> Seq<Seq<char>> {
        self.strings@.map_values(|s: String| s@)
    }

    /// Whether every handle in `ids` names an entry of this table.
    pub open spec fn holds(&self, s: StrI) -> bool {
        s.0 < self.strings@.len()
    }

    /// The text of an interned string (empty for a handle this table does not hold).
    pub open spec fn text_of(&self, s: StrI) -> Seq<char> {
        if self.holds(s) { self.strings@[s.0 as int]@ } else { Seq::empty() }
    }

    pub fn new() -> (r: Interner)
        ensures r.strings@.len() == 0,
    {
        Interner { strings: Vec::new() }
    }

    /// Intern `text`: the handle of an equal entry if there is one, else of a new last entry.
    pub fn intern(&mut self, text: &str) -> (r: StrI)
        requires old(self).strings@.len() < u32::MAX,
        ensures
            final(self).holds(r),
            final(self).text_of(r) == text@,
            old(self).strings@.len() <= final(self).strings@.len() <= old(self).strings@.len() + 1,
            forall|i: int| 0 <= i < old(self).strings@.len() ==> final(self).strings@[i] == old(self).strings@[i],
            (exists|i: int| 0 <= i < old(self).strings@.len() && old(self).strings@[i]@ == text@)
                <==> final(self).strings@.len() == old(self).strings@.len(),
            interned_text(old(self).texts(), text@, final(self).texts(), r),
    {
        let owned: String = text.to_owned();
        let n = self.strings.len();
        let mut i: usize = 0;
        while i < n
            invariant
                n == self.strings@.len(),
                n < u32::MAX,
                owned@ == text@,
                i <= n,
                forall|j: int| 0 <= j < i ==> self.strings@[j]@ != text@,
            decreases n - i,
        {
            if self.strings[i] == owned {
                proof {
                    assert(self.texts() =~= old(self).texts());
                    assert(self.texts()[i as int] == text@);
                    assert forall|j: int| 0 <= j < i implies self.texts()[j] != text@ by {
                        assert(self.texts()[j] == self.strings@[j]@);
                    }
                }
                return StrI(i as u32);
            }
            i = i + 1;
        }
        let ghost before = self.texts();
        self.strings.push(owned);
        proof {
            assert(self.texts() =~= before.push(text@));
            assert forall|j: int| 0 <= j < n implies before[j] != text@ by {
                assert(before[j] == self.strings@[j]@);
            }
        }
        StrI(n as u32)
    }

    /// The text of an interned string.
    pub fn lookup(&self, s: StrI) -> (r: &str)
        requires self.holds(s),
        ensures r@ == self.text_of(s),
    {
        self.strings[s.0 as usize].as_str()
    }
}

} // verus!
