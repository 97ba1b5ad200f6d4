//! `LocT`: where a node sits in its function's typed tree, as the path of child indices to it.

use vstd::prelude::*;

verus! {

/// A node's location: the child indices on the way down from the function body.
#[derive(Debug)]
pub struct LocT {
    pub path: Vec<i32>,
}

impl View for LocT {
    type V = Seq<i32>;

    open spec fn view(&self) -> Seq<i32> {
        self.path@
    }
}

impl LocT {
    /// The location of the `index`th child of this node.
    pub fn add(&self, index: i32) -> (r: LocT)
        requires self.path@.len() < usize::MAX,
        ensures r@ == self@.push(index),
    {
        let mut path = copy_path(&self.path);
        path.push(index);
        LocT { path }
    }

    /// A copy of this location.
    pub fn copy(&self) -> (r: LocT)
        ensures r@ == self@,
    {
        LocT { path: copy_path(&self.path) }
    }
}

/// A copy of a location path.
pub fn copy_path(path: &Vec<i32>) -> (r: Vec<i32>)
    ensures r@ == path@,
{
    let mut out: Vec<i32> = Vec::new();
    let mut i: usize = 0;
    while i < path.len()
        invariant
            i <= path@.len(),
            out@ == path@.subrange(0, i as int),
        decreases path@.len() - i,
    {
        out.push(path[i]);
        i = i + 1;
    }
    out
}

/// Lexicographic order on location paths: `a` sorts no later than `b`.
pub open spec fn path_le(a: Seq<i32>, b: Seq<i32>) -> bool
    decreases a.len(),
{
    if a.len() == 0 {
        true
    } else if b.len() == 0 {
        false
    } else if a[0] < b[0] {
        true
    } else if a[0] > b[0] {
        false
    } else {
        path_le(a.drop_first(), b.drop_first())
    }
}

/// Whether location path `a` sorts no later than `b` (lexicographic, as slices compare).
pub fn path_le_exec(a: &Vec<i32>, b: &Vec<i32>) -> (r: bool)
    ensures r == path_le(a@, b@),
{
    let mut i: usize = 0;
    assert(a@.subrange(0, a@.len() as int) =~= a@);
    assert(b@.subrange(0, b@.len() as int) =~= b@);
    while i < a.len()
        invariant
            i <= a@.len(),
            i <= b@.len(),
            path_le(a@, b@) == path_le(a@.subrange(i as int, a@.len() as int), b@.subrange(i as int, b@.len() as int)),
        decreases a@.len() - i,
    {
        if i >= b.len() {
            return false;
        }
        if a[i] < b[i] {
            return true;
        }
        if a[i] > b[i] {
            return false;
        }
        proof {
            let sa = a@.subrange(i as int, a@.len() as int);
            let sb = b@.subrange(i as int, b@.len() as int);
            assert(sa.drop_first() =~= a@.subrange(i + 1, a@.len() as int));
            assert(sb.drop_first() =~= b@.subrange(i + 1, b@.len() as int));
        }
        i = i + 1;
    }
    proof {
        assert(a@.subrange(i as int, a@.len() as int).len() == 0);
    }
    true
}

/// Every path sorts no later than itself.
pub proof fn lemma_path_le_reflexive(a: Seq<i32>)
    ensures path_le(a, a),
    decreases a.len(),
{
    if a.len() > 0 {
        lemma_path_le_reflexive(a.drop_first());
    }
}

/// The order on paths is transitive.
pub proof fn lemma_path_le_transitive(a: Seq<i32>, b: Seq<i32>, c: Seq<i32>)
    requires path_le(a, b), path_le(b, c),
    ensures path_le(a, c),
    decreases a.len(),
{
    if a.len() > 0 && b.len() > 0 && c.len() > 0 && a[0] == b[0] && b[0] == c[0] {
        lemma_path_le_transitive(a.drop_first(), b.drop_first(), c.drop_first());
    }
}

/// Any two paths are ordered one way or the other.
pub proof fn lemma_path_le_total(a: Seq<i32>, b: Seq<i32>)
    ensures path_le(a, b) || path_le(b, a),
    decreases a.len(),
{
    if a.len() > 0 && b.len() > 0 && a[0] == b[0] {
        lemma_path_le_total(a.drop_first(), b.drop_first());
    }
}

} // verus!
