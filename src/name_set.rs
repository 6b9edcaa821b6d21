//! A duplicate-free list of names, kept in insertion order.

use vstd::prelude::*;

verus! {

/// `s` with every occurrence of `x` taken out, the rest in order.
pub open spec fn without(s: Seq<Seq<char>>, x: Seq<char>) -> Seq<Seq<char>>
    decreases s.len(),
{
    if s.len() == 0 {
        s
    } else {
        let rest = without(s.drop_last(), x);
        if s.last() == x {
            rest
        } else {
            rest.push(s.last())
        }
    }
}

/// `s` with `x` appended, unless `x` is already there.
pub open spec fn with(s: Seq<Seq<char>>, x: Seq<char>) -> Seq<Seq<char>> {
    if s.contains(x) {
        s
    } else {
        s.push(x)
    }
}

/// What `without` keeps: exactly the elements other than `x`.
pub proof fn lemma_without_contains(s: Seq<Seq<char>>, x: Seq<char>, y: Seq<char>)
    ensures
        without(s, x).contains(y) <==> (s.contains(y) && y != x),
    decreases s.len(),
{
    if s.len() > 0 {
        let d = s.drop_last();
        lemma_without_contains(d, x, y);
        let r = without(d, x);
        if d.contains(y) {
            let j = choose|j: int| 0 <= j < d.len() && d[j] == y;
            assert(s[j] == y);
        }
        if s.contains(y) && !d.contains(y) {
            let j = choose|j: int| 0 <= j < s.len() && s[j] == y;
            if j < d.len() {
                assert(d[j] == y);
            }
        }
        if s.last() != x {
            assert(r.push(s.last())[r.len() as int] == s.last());
            if r.push(s.last()).contains(y) && y != s.last() {
                let j = choose|j: int| 0 <= j < r.len() + 1 && r.push(s.last())[j] == y;
                assert(r[j] == y);
            }
            if r.contains(y) {
                let j = choose|j: int| 0 <= j < r.len() && r[j] == y;
                assert(r.push(s.last())[j] == y);
            }
        }
    }
}

/// `without` keeps a duplicate-free sequence duplicate-free.
pub proof fn lemma_without_no_duplicates(s: Seq<Seq<char>>, x: Seq<char>)
    requires
        s.no_duplicates(),
    ensures
        without(s, x).no_duplicates(),
    decreases s.len(),
{
    if s.len() > 0 {
        let d = s.drop_last();
        assert(d.no_duplicates()) by {
            assert forall|i: int, j: int| 0 <= i < d.len() && 0 <= j < d.len() && i != j implies d[i]
                != d[j] by {
                assert(d[i] == s[i] && d[j] == s[j]);
            }
        }
        lemma_without_no_duplicates(d, x);
        let r = without(d, x);
        if s.last() != x {
            lemma_without_contains(d, x, s.last());
            assert(!d.contains(s.last())) by {
                if d.contains(s.last()) {
                    let j = choose|j: int| 0 <= j < d.len() && d[j] == s.last();
                    assert(s[j] == s[s.len() - 1]);
                }
            }
            let p = r.push(s.last());
            assert forall|i: int, j: int| 0 <= i < p.len() && 0 <= j < p.len() && i != j implies p[i]
                != p[j] by {
                if i < r.len() && j < r.len() {
                    assert(p[i] == r[i] && p[j] == r[j]);
                } else if i < r.len() {
                    assert(p[i] == r[i]);
                    assert(r.contains(p[i]));
                } else {
                    assert(p[j] == r[j]);
                    assert(r.contains(p[j]));
                }
            }
        }
    }
}

/// A set of names, stored as a duplicate-free list in the order the names
/// were first added.
pub struct NameSet {
    items: Vec<String>,
}

impl View for NameSet {
    type V = Seq<Seq<char>>;

    closed spec fn view(&self) -> Seq<Seq<char>> {
        self.items.deep_view()
    }
}

impl NameSet {
    /// No name occurs twice.
    pub open spec fn wf(&self) -> bool {
        self@.no_duplicates()
    }

    /// The empty set.
    pub fn new() -> (r: NameSet)
        ensures
            r@ == Seq::<Seq<char>>::empty(),
            r.wf(),
    {
        let r = NameSet { items: Vec::new() };
        assert(r@ =~= Seq::<Seq<char>>::empty());
        r
    }

    /// Whether `name` is in the set.
    pub fn contains(&self, name: &String) -> (r: bool)
        ensures
            r == self@.contains(name@),
    {
        let mut i: usize = 0;
        while i < self.items.len()
            invariant
                i <= self.items@.len(),
                forall|j: int| 0 <= j < i ==> self@[j] != name@,
            decreases self.items@.len() - i,
        {
            if self.items[i] == *name {
                assert(self@[i as int] == name@);
                return true;
            }
            i = i + 1;
        }
        false
    }

    /// Adds `name` at the end, unless it is there already.
    pub fn insert(&mut self, name: String)
        requires
            old(self).wf(),
        ensures
            final(self)@ == with(old(self)@, name@),
            final(self).wf(),
    {
        if !self.contains(&name) {
            let ghost before = self@;
            self.items.push(name);
            assert(self@ =~= before.push(name@));
            assert forall|i: int, j: int|
                0 <= i < self@.len() && 0 <= j < self@.len() && i != j implies self@[i]
                != self@[j] by {
                if i == before.len() {
                    assert(before[j] == self@[j]);
                } else if j == before.len() {
                    assert(before[i] == self@[i]);
                }
            }
        }
    }

    /// Takes `name` out of the set; nothing changes if it is absent.
    pub fn remove(&mut self, name: &String)
        requires
            old(self).wf(),
        ensures
            final(self)@ == without(old(self)@, name@),
            final(self).wf(),
    {
        let ghost s = self@;
        let mut kept: Vec<String> = Vec::new();
        let mut i: usize = 0;
        while i < self.items.len()
            invariant
                i <= self.items@.len(),
                s == self@,
                kept.deep_view() == without(s.take(i as int), name@),
            decreases self.items@.len() - i,
        {
            let ghost before = kept.deep_view();
            assert(s.take(i + 1).drop_last() =~= s.take(i as int));
            if self.items[i] != *name {
                kept.push(self.items[i].clone());
                assert(kept.deep_view() =~= before.push(s[i as int]));
            } else {
                assert(kept.deep_view() =~= before);
            }
            i = i + 1;
        }
        assert(s.take(i as int) =~= s);
        self.items = kept;
        proof {
            lemma_without_no_duplicates(s, name@);
        }
    }

    /// An independent copy of the set.
    pub fn copy(&self) -> (r: NameSet)
        ensures
            r@ == self@,
    {
        NameSet { items: self.to_vec() }
    }

    /// The names, in the set's order.
    pub fn to_vec(&self) -> (r: Vec<String>)
        ensures
            r.deep_view() == self@,
    {
        let mut out: Vec<String> = Vec::new();
        let mut i: usize = 0;
        while i < self.items.len()
            invariant
                i <= self.items@.len(),
                out.deep_view() =~= self@.take(i as int),
            decreases self.items@.len() - i,
        {
            let ghost before = out.deep_view();
            out.push(self.items[i].clone());
            assert(out.deep_view() =~= before.push(self@[i as int]));
            assert(self@.take(i + 1) =~= self@.take(i as int).push(self@[i as int]));
            i = i + 1;
        }
        assert(self@.take(i as int) =~= self@);
        out
    }
}

} // verus!
