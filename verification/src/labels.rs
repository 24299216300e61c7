//! The set of statement labels in scope.
use vstd::prelude::*;
use crate::tokens::str_eq;

verus! {

/// Whether some string of `items` is `t`.
pub open spec fn has_in(items: Seq<String>, t: Seq<char>) -> bool {
    exists|j: int| 0 <= j < items.len() && (#[trigger] items[j])@ == t
}

/// A set of label names.
pub struct LabelSet {
    items: Vec<String>,
}

impl LabelSet {
    /// No name occurs twice.
    #[verifier::type_invariant]
    spec fn no_repeats(&self) -> bool {
        forall|i: int, j: int|
            0 <= i < j < self.items.len() ==> (#[trigger] self.items@[i])@ != (#[trigger] self.items@[j])@
    }

    /// Whether the set holds the name `s`.
    pub closed spec fn contains(&self, s: Seq<char>) -> bool {
        exists|i: int| 0 <= i < self.items.len() && (#[trigger] self.items@[i])@ == s
    }

    /// The empty set.
    pub fn new() -> (r: Self)
        ensures
            forall|s: Seq<char>| !r.contains(s),
    {
        LabelSet { items: Vec::new() }
    }

    /// Whether the set holds `s`.
    pub fn has(&self, s: &str) -> (r: bool)
        ensures
            r == self.contains(s@),
    {
        let mut i: usize = 0;
        while i < self.items.len()
            invariant
                i <= self.items.len(),
                forall|j: int| 0 <= j < i ==> (#[trigger] self.items@[j])@ != s@,
            decreases self.items.len() - i,
        {
            if str_eq(self.items[i].as_str(), s) {
                return true;
            }
            i = i + 1;
        }
        false
    }

    /// Add `s`; true when it was not there before.
    pub fn insert(&mut self, s: String) -> (r: bool)
        ensures
            r == !old(self).contains(s@),
            forall|t: Seq<char>| final(self).contains(t) <==> (old(self).contains(t) || t == s@),
    {
        proof {
            use_type_invariant(&*self);
        }
        if self.has(s.as_str()) {
            return false;
        }
        let ghost before = self.items@;
        let mut items: Vec<String> = Vec::new();
        std::mem::swap(&mut items, &mut self.items);
        assert(items@ == before);
        items.push(s);
        assert(forall|i: int| 0 <= i < before.len() ==> items@[i] == before[i]);
        assert(forall|i: int| 0 <= i < before.len() ==> (#[trigger] before[i])@ != s@);
        self.items = items;
        assert forall|t: Seq<char>| self.contains(t) <==> (old(self).contains(t) || t == s@) by {
            if old(self).contains(t) {
                let i = choose|i: int| 0 <= i < before.len() && (#[trigger] before[i])@ == t;
                assert(self.items@[i] == before[i]);
            }
            if t == s@ {
                assert(self.items@[before.len() as int]@ == t);
            }
            if self.contains(t) {
                let i = choose|i: int| 0 <= i < self.items.len() && (#[trigger] self.items@[i])@ == t;
                if i < before.len() {
                    assert(before[i] == self.items@[i]);
                }
            }
        }
        true
    }

    /// Take `s` out.
    pub fn remove(&mut self, s: &str)
        ensures
            forall|t: Seq<char>| final(self).contains(t) <==> (old(self).contains(t) && t != s@),
    {
        proof {
            use_type_invariant(&*self);
        }
        let mut kept: Vec<String> = Vec::new();
        let mut i: usize = 0;
        while i < self.items.len()
            invariant
                i <= self.items.len(),
                forall|a: int, b: int|
                    0 <= a < b < self.items.len() ==> (#[trigger] self.items@[a])@ != (#[trigger] self.items@[b])@,
                forall|a: int, b: int|
                    0 <= a < b < kept.len() ==> (#[trigger] kept@[a])@ != (#[trigger] kept@[b])@,
                forall|t: Seq<char>|
                    #[trigger] has_in(kept@, t) <==> (t != s@ && has_in(self.items@.take(i as int), t)),
            decreases self.items.len() - i,
        {
            let ghost before = kept@;
            let ghost pre = self.items@.take(i as int);
            let ghost post = self.items@.take(i + 1);
            assert(forall|t: Seq<char>| #[trigger] has_in(before, t) <==> (t != s@ && has_in(pre, t)));
            if !str_eq(self.items[i].as_str(), s) {
                let item = self.items[i].clone();
                proof {
                    if has_in(before, item@) {
                        let k = choose|k: int| 0 <= k < pre.len() && (#[trigger] pre[k])@ == item@;
                        assert(self.items@[k] == pre[k]);
                    }
                    assert forall|a: int| 0 <= a < before.len() implies (#[trigger] before[a])@ != item@ by {
                        if before[a]@ == item@ {
                            assert(has_in(before, item@));
                        }
                    }
                }
                kept.push(item);
                proof {
                    assert(forall|a: int| 0 <= a < before.len() ==> kept@[a] == before[a]);
                }
            }
            assert forall|t: Seq<char>|
                #[trigger] has_in(kept@, t) <==> (t != s@ && has_in(post, t)) by {
                if has_in(kept@, t) {
                    let j = choose|j: int| 0 <= j < kept@.len() && (#[trigger] kept@[j])@ == t;
                    if j < before.len() {
                        assert(kept@[j] == before[j]);
                        assert(has_in(before, t));
                        let k = choose|k: int| 0 <= k < pre.len() && (#[trigger] pre[k])@ == t;
                        assert(post[k] == pre[k]);
                    } else {
                        assert(post[i as int]@ == t);
                    }
                }
                if t != s@ && has_in(post, t) {
                    let j = choose|j: int| 0 <= j < post.len() && (#[trigger] post[j])@ == t;
                    if j < i {
                        assert(pre[j] == post[j]);
                        assert(pre[j]@ == t);
                        assert(has_in(pre, t));
                        assert(has_in(before, t));
                        let k = choose|k: int| 0 <= k < before.len() && (#[trigger] before[k])@ == t;
                        assert(kept@[k] == before[k]);
                    } else {
                        assert(kept@[before.len() as int]@ == t);
                    }
                }
            }
            i = i + 1;
        }
        assert(self.items@.take(self.items.len() as int) =~= self.items@);
        assert forall|t: Seq<char>| has_in(kept@, t) <==> (old(self).contains(t) && t != s@) by {
            assert(has_in(self.items@, t) == old(self).contains(t));
        }
        self.items = kept;
        assert forall|t: Seq<char>| self.contains(t) <==> (old(self).contains(t) && t != s@) by {
            assert(has_in(self.items@, t) == self.contains(t));
        }
    }

    /// A copy of the set.
    pub fn duplicate(&self) -> (r: Self)
        ensures
            forall|t: Seq<char>| r.contains(t) <==> self.contains(t),
    {
        proof {
            use_type_invariant(self);
        }
        let mut items: Vec<String> = Vec::new();
        let mut i: usize = 0;
        while i < self.items.len()
            invariant
                i <= self.items.len(),
                forall|a: int, b: int|
                    0 <= a < b < self.items.len() ==> (#[trigger] self.items@[a])@ != (#[trigger] self.items@[b])@,
                items.len() == i,
                forall|j: int| 0 <= j < i ==> (#[trigger] items@[j])@ == self.items@[j]@,
            decreases self.items.len() - i,
        {
            items.push(self.items[i].clone());
            i = i + 1;
        }
        let r = LabelSet { items };
        assert forall|t: Seq<char>| r.contains(t) <==> self.contains(t) by {
            if r.contains(t) {
                let j = choose|j: int| 0 <= j < r.items.len() && (#[trigger] r.items@[j])@ == t;
                assert(self.items@[j]@ == t);
            }
            if self.contains(t) {
                let j = choose|j: int| 0 <= j < self.items.len() && (#[trigger] self.items@[j])@ == t;
                assert(r.items@[j]@ == t);
            }
        }
        r
    }
}

} // verus!
