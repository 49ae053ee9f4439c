//! Sets of strings.
use crate::text::texts;
use vstd::hash_set::StringHashSet;
use vstd::prelude::*;

verus! {

/// A set of strings.
pub struct StringSet {
    members: StringHashSet,
}

impl View for StringSet {
    type V = Set<Seq<char>>;

    closed spec fn view(&self) -> Set<Seq<char>> {
        self.members@
    }
}

impl StringSet {
    /// The empty set.
    pub fn new() -> (r: StringSet)
        ensures
            r@ == Set::<Seq<char>>::empty(),
    {
        StringSet { members: StringHashSet::new() }
    }

    /// Adds `member`; tells whether it was missing before.
    pub fn insert(&mut self, member: String) -> (added: bool)
        ensures
            final(self)@ == old(self)@.insert(member@),
            added == !old(self)@.contains(member@),
    {
        self.members.insert(member)
    }

    /// Tells whether `member` is in the set.
    pub fn contains(&self, member: &str) -> (r: bool)
        ensures
            r == self@.contains(member@),
    {
        self.members.contains(member)
    }

    /// Tells whether the set has no member.
    pub fn is_empty(&self) -> (r: bool)
        ensures
            r == self@.is_empty(),
    {
        self.members.is_empty()
    }

    /// The number of members.
    pub fn len(&self) -> (n: usize)
        ensures
            n == self@.len(),
    {
        self.members.len()
    }
}

/// The number of distinct strings in `v`.
pub fn count_distinct(v: &Vec<String>) -> (n: usize)
    ensures
        n == texts(v@).to_set().len(),
{
    let mut seen: StringSet = StringSet::new();
    let mut i: usize = 0;
    assert(texts(v@).take(0).to_set() =~= Set::empty());
    while i < v.len()
        invariant
            i <= v.len(),
            seen@ == texts(v@).take(i as int).to_set(),
        decreases v.len() - i,
    {
        seen.insert(v[i].clone());
        proof {
            let before = texts(v@).take(i as int);
            let now = texts(v@).take(i + 1);
            assert(now =~= before.push(v[i as int]@));
            assert forall|x: Seq<char>| #[trigger]
                now.to_set().contains(x) == before.to_set().insert(v[i as int]@).contains(x) by {
                if before.contains(x) {
                    let k = choose|k: int| 0 <= k < before.len() && before[k] == x;
                    assert(now[k] == x);
                }
                assert(now[i as int] == v[i as int]@);
            }
            assert(now.to_set() =~= before.to_set().insert(v[i as int]@));
        }
        i = i + 1;
    }
    assert(texts(v@).take(i as int) =~= texts(v@));
    seen.len()
}

} // verus!
