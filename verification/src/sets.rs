//! Finite sets of strikes and of preparations, as the settings of a drill
//! hold them.
//!
//! A set keeps its members in the order in which they were first inserted
//! and never holds one twice, so a uniform draw from its members is a uniform
//! draw from the set. Its view is the mathematical set; `members` is the
//! sequence behind it.

use crate::preparation::Preparation;
use crate::types::Strike;
use vstd::prelude::*;

verus! {

/// A kind of value of which sets are kept: two values can be told apart
/// while the program runs.
pub trait Member: Copy {
    /// Whether `self` and `other` are the same value.
    fn same(&self, other: &Self) -> (same: bool)
        ensures
            same == (*self == *other),
    ;
}

impl Member for Strike {
    fn same(&self, other: &Self) -> (same: bool) {
        *self == *other
    }
}

impl Member for Preparation {
    fn same(&self, other: &Self) -> (same: bool) {
        *self == *other
    }
}

/// A set of strikes.
pub type StrikeSet = MemberSet<Strike>;

/// A set of preparations.
pub type PreparationSet = MemberSet<Preparation>;

/// A finite set of values of one kind.
pub struct MemberSet<T: Member> {
    items: Vec<T>,
}

impl<T: Member> View for MemberSet<T> {
    type V = Set<T>;

    closed spec fn view(&self) -> Set<T> {
        self.items@.to_set()
    }
}

impl<T: Member> MemberSet<T> {
    #[verifier::type_invariant]
    spec fn distinct(&self) -> bool {
        self.items@.no_duplicates()
    }

    /// The members in the order in which they were inserted.
    pub closed spec fn members(&self) -> Seq<T> {
        self.items@
    }

    /// The set holds its members and nothing else, and is finite.
    pub proof fn lemma_view(&self)
        ensures
            self@ == self.members().to_set(),
            self@.finite(),
    {
    }

    /// The empty set.
    pub fn new() -> (set: Self)
        ensures
            set@ == Set::<T>::empty(),
            set.members() == Seq::<T>::empty(),
    {
        MemberSet { items: Vec::new() }
    }

    /// Whether `item` is a member.
    pub fn contains(&self, item: T) -> (found: bool)
        ensures
            found == self@.contains(item),
    {
        let mut i: usize = 0;
        while i < self.items.len()
            invariant
                i <= self.items.len(),
                forall|j: int| 0 <= j < i ==> self.items@[j] != item,
            decreases self.items.len() - i,
        {
            if self.items[i].same(&item) {
                return true;
            }
            i += 1;
        }
        false
    }

    /// Adds `item` behind the other members, unless it is one already;
    /// returns whether it was new to the set.
    pub fn insert(&mut self, item: T) -> (fresh: bool)
        ensures
            fresh == !old(self)@.contains(item),
            final(self)@ == old(self)@.insert(item),
            final(self).members() == if fresh {
                old(self).members().push(item)
            } else {
                old(self).members()
            },
    {
        proof {
            use_type_invariant(&*self);
        }
        if self.contains(item) {
            false
        } else {
            let mut items = Vec::new();
            std::mem::swap(&mut items, &mut self.items);
            items.push(item);
            proof {
                old(self).items@.lemma_push_to_set_commute(item);
            }
            self.items = items;
            true
        }
    }

    /// The number of members.
    pub fn len(&self) -> (count: usize)
        ensures
            self@.finite(),
            count == self@.len(),
            count == self.members().len(),
    {
        proof {
            use_type_invariant(self);
            self.items@.unique_seq_to_set();
        }
        self.items.len()
    }

    /// Whether the set has no member.
    pub fn is_empty(&self) -> (empty: bool)
        ensures
            empty == self@.is_empty(),
            empty == (self.members().len() == 0),
    {
        proof {
            use_type_invariant(self);
            self.items@.unique_seq_to_set();
        }
        self.items.len() == 0
    }

    /// The members as a slice: each member once, in the order in which they
    /// were inserted.
    pub fn as_slice(&self) -> (slice: &[T])
        ensures
            slice@ == self.members(),
            slice@.no_duplicates(),
            slice@.to_set() == self@,
            slice@.len() == self@.len(),
    {
        proof {
            use_type_invariant(self);
            self.items@.unique_seq_to_set();
        }
        self.items.as_slice()
    }

    /// The set without `item`; the other members keep their order.
    pub fn without(&self, item: T) -> (rest: Self)
        ensures
            rest@ == self@.remove(item),
            rest.members() == others(self.members(), item),
    {
        proof {
            use_type_invariant(self);
        }
        let mut kept: Vec<T> = Vec::new();
        let mut i: usize = 0;
        while i < self.items.len()
            invariant
                i <= self.items.len(),
                self.items@.no_duplicates(),
                kept@.no_duplicates(),
                kept@ == others(self.items@.take(i as int), item),
                forall|member: T|
                    kept@.contains(member) <==> self.items@.take(i as int).contains(member)
                        && member != item,
            decreases self.items.len() - i,
        {
            let next = self.items[i];
            let ghost seen = self.items@.take(i as int);
            let ghost kept_before = kept@;
            proof {
                assert(self.items@.take(i + 1) =~= seen.push(next));
                assert(seen.push(next).drop_last() =~= seen);
                lemma_push(seen, next);
                lemma_push(kept_before, next);
            }
            if !next.same(&item) {
                kept.push(next);
            }
            i += 1;
            proof {
                assert forall|member: T|
                    kept@.contains(member) <==> seen.push(next).contains(member) && member
                        != item by {
                    assert(kept_before.contains(member) <==> seen.contains(member) && member
                        != item);
                }
            }
        }
        let rest = MemberSet { items: kept };
        proof {
            assert(self.items@.take(i as int) =~= self.items@);
        }
        rest
    }
}

/// The members of `members` other than `item`, in their order.
pub open spec fn others<T>(members: Seq<T>, item: T) -> Seq<T>
    decreases members.len(),
{
    if members.len() == 0 {
        Seq::empty()
    } else {
        let earlier = others(members.drop_last(), item);
        if members.last() != item {
            earlier.push(members.last())
        } else {
            earlier
        }
    }
}

/// What a sequence holds once `item` has been pushed, and that it still
/// holds nothing twice if `item` was new to it.
proof fn lemma_push<T>(members: Seq<T>, item: T)
    ensures
        forall|other: T|
            members.push(item).contains(other) <==> members.contains(other) || other == item,
        members.no_duplicates() && !members.contains(item) ==> members.push(item).no_duplicates(),
{
    let pushed = members.push(item);
    assert forall|other: T| pushed.contains(other) <==> members.contains(other) || other
        == item by {
        if members.contains(other) {
            let at = choose|at: int| 0 <= at < members.len() && members[at] == other;
            assert(pushed[at] == other);
        }
        if other == item {
            assert(pushed[members.len() as int] == other);
        }
    }
}

} // verus!
