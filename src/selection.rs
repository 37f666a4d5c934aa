//! Which points the edit commands act on.

use vstd::prelude::*;

verus! {

/// The selected points, by position in the point store.
///
/// A well-formed selection is collapsed: `Multiple` always holds at least two
/// distinct indices, one index is `Single`, none is `Empty`.
#[derive(Clone, Debug)]
pub enum Selection {
    Empty,
    Single(usize),
    Multiple(Vec<usize>),
}

/// `s` with every repeated element dropped after its first occurrence.
pub open spec fn dedup(s: Seq<usize>) -> Seq<usize>
    decreases s.len(),
{
    if s.len() == 0 {
        s
    } else {
        let rest = dedup(s.drop_last());
        if rest.contains(s.last()) {
            rest
        } else {
            rest.push(s.last())
        }
    }
}

/// What `dedup` keeps: every element once, nothing else, and a sequence
/// without repeats unchanged.
pub proof fn lemma_dedup(s: Seq<usize>)
    ensures
        dedup(s).no_duplicates(),
        forall|x: usize| #[trigger] dedup(s).contains(x) <==> s.contains(x),
        s.no_duplicates() ==> dedup(s) == s,
    decreases s.len(),
{
    if s.len() > 0 {
        let init = s.drop_last();
        lemma_dedup(init);
        let rest = dedup(init);
        assert forall|x: usize| s.contains(x) <==> (init.contains(x) || x == s.last()) by {
            if s.contains(x) {
                let k = choose|k: int| 0 <= k < s.len() && s[k] == x;
                if k < s.len() - 1 {
                    assert(init[k] == x);
                }
            }
            if init.contains(x) {
                let k = choose|k: int| 0 <= k < init.len() && init[k] == x;
                assert(s[k] == x);
            }
            if x == s.last() {
                assert(s[s.len() - 1] == x);
            }
        }
        if !rest.contains(s.last()) {
            let r = rest.push(s.last());
            assert forall|x: usize| r.contains(x) <==> (rest.contains(x) || x == s.last()) by {
                if r.contains(x) {
                    let k = choose|k: int| 0 <= k < r.len() && r[k] == x;
                    if k < rest.len() {
                        assert(rest[k] == x);
                    }
                }
                if rest.contains(x) {
                    let k = choose|k: int| 0 <= k < rest.len() && rest[k] == x;
                    assert(r[k] == x);
                }
                if x == s.last() {
                    assert(r[rest.len() as int] == x);
                }
            }
        }
        if s.no_duplicates() {
            assert(init.no_duplicates());
            assert(!init.contains(s.last())) by {
                if init.contains(s.last()) {
                    let k = choose|k: int| 0 <= k < init.len() && init[k] == s.last();
                    assert(s[k] == s[s.len() - 1]);
                }
            }
            assert(s == init.push(s.last()));
        }
    }
}

impl Selection {
    /// The selected indices in iteration order.
    pub open spec fn indices(&self) -> Seq<usize> {
        match self {
            Selection::Empty => seq![],
            Selection::Single(i) => seq![*i],
            Selection::Multiple(v) => v@,
        }
    }

    /// The collapsing rule: `Multiple` holds two indices or more.
    pub open spec fn collapsed(&self) -> bool {
        match self {
            Selection::Multiple(v) => v@.len() >= 2,
            _ => true,
        }
    }

    /// Collapsed, without repeats, and every index below `n`.
    pub open spec fn valid_for(&self, n: nat) -> bool {
        &&& self.collapsed()
        &&& self.indices().no_duplicates()
        &&& forall|k: int| 0 <= k < self.indices().len() ==> (#[trigger] self.indices()[k]) < n
    }

    /// The selection of the given indices, each taken once in order of first
    /// occurrence, as `Empty`, `Single` or `Multiple` by their number.
    pub fn from_indices(v: Vec<usize>) -> (r: Selection)
        ensures
            r.indices() == dedup(v@),
            r.collapsed(),
    {
        let mut out: Vec<usize> = Vec::new();
        let mut i: usize = 0;
        while i < v.len()
            invariant
                0 <= i <= v.len(),
                out@ == dedup(v@.take(i as int)),
            decreases v.len() - i,
        {
            assert(v@.take(i + 1).drop_last() =~= v@.take(i as int));
            if !contains_index(&out, v[i]) {
                out.push(v[i]);
            }
            i += 1;
        }
        assert(v@.take(v.len() as int) =~= v@);
        if out.len() == 0 {
            assert(out@ =~= seq![]);
            Selection::Empty
        } else if out.len() == 1 {
            assert(out@ =~= seq![out[0]]);
            Selection::Single(out[0])
        } else {
            Selection::Multiple(out)
        }
    }
}

/// Whether `v` holds `x`.
pub fn contains_index(v: &Vec<usize>, x: usize) -> (r: bool)
    ensures
        r == v@.contains(x),
{
    let mut i: usize = 0;
    while i < v.len()
        invariant
            0 <= i <= v.len(),
            forall|k: int| 0 <= k < i ==> v@[k] != x,
        decreases v.len() - i,
    {
        if v[i] == x {
            assert(v@[i as int] == x);
            return true;
        }
        i += 1;
    }
    false
}

} // verus!
