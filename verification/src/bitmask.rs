//! A set of small numbers, as the bits of one integer.

use core::marker::PhantomData;
use vstd::prelude::*;

verus! {

/// A set of the numbers below [`BitMask::capacity`], one bit for each.
#[derive(Copy, Clone, Debug)]
pub struct BitMask(u128);

impl View for BitMask {
    type V = Set<u8>;

    closed spec fn view(&self) -> Set<u8> {
        Set::new(|index: u8| index < 128 && self.0 & (1u128 << index) != 0)
    }
}

impl Default for BitMask {
    /// The empty set.
    fn default() -> (mask: BitMask)
        ensures
            mask@ == Set::<u8>::empty(),
    {
        let mask = BitMask(0);
        assert(forall|index: u8| 0u128 & (1u128 << index) == 0) by (bit_vector);
        assert(mask@ =~= Set::<u8>::empty());
        mask
    }
}

impl BitMask {
    /// Every member is a number that the mask has a bit for.
    pub proof fn members_fit(self)
        ensures
            forall|index: u8| #[trigger] self@.contains(index) ==> index < 128,
    {
    }

    /// How many numbers the mask has a bit for.
    pub fn capacity() -> (capacity: u8)
        ensures
            capacity == 128,
    {
        u128::BITS as u8
    }

    /// The members, in ascending order.
    pub fn ones(self) -> (members: BitMaskIterator<Ones>)
        ensures
            members.mask() == self,
            members.position() == 0,
            members.remaining() == indices(self@, true, 0),
    {
        BitMaskIterator { mask: self, index: 0, _data: PhantomData }
    }

    /// The numbers that are not members, in ascending order.
    pub fn zeros(self) -> (others: BitMaskIterator<Zeros>)
        ensures
            others.mask() == self,
            others.position() == 0,
            others.remaining() == indices(self@, false, 0),
    {
        BitMaskIterator { mask: self, index: 0, _data: PhantomData }
    }

    /// Whether `index` is a member.
    pub fn get(self, index: u8) -> (member: bool)
        requires
            index < 128,
        ensures
            member == self@.contains(index),
    {
        (self.0 & (1u128 << index)) != 0
    }

    /// The set with `index` in it.
    pub fn set(self, index: u8) -> (mask: Self)
        requires
            index < 128,
        ensures
            mask@ == self@.insert(index),
    {
        let mask = BitMask(self.0 | (1u128 << index));
        let bits: u128 = self.0;
        assert(forall|other: u8|
            other < 128 ==> ((bits | (1u128 << index)) & #[trigger] (1u128 << other) != 0 <==> (
            other == index || bits & (1u128 << other) != 0))) by (bit_vector)
            requires
                index < 128,
        ;
        assert(mask@ =~= self@.insert(index));
        mask
    }

    /// The set without `index`.
    pub fn clear(&self, index: u8) -> (mask: Self)
        requires
            index < 128,
        ensures
            mask@ == self@.remove(index),
    {
        let mask = BitMask(self.0 & !(1u128 << index));
        let bits: u128 = self.0;
        assert(forall|other: u8|
            other < 128 ==> ((bits & !(1u128 << index)) & #[trigger] (1u128 << other) != 0 <==> (
            other != index && bits & (1u128 << other) != 0))) by (bit_vector)
            requires
                index < 128,
        ;
        assert(mask@ =~= self@.remove(index));
        mask
    }
}

/// The numbers from `from` on whose membership in `mask` is `member`, in ascending order.
pub open spec fn indices(mask: Set<u8>, member: bool, from: int) -> Seq<u8>
    decreases 128 - from,
{
    if from >= 128 {
        Seq::empty()
    } else if mask.contains(from as u8) == member {
        seq![from as u8] + indices(mask, member, from + 1)
    } else {
        indices(mask, member, from + 1)
    }
}

/// [`indices`] lists each such number once and no other, the smaller before the larger.
pub proof fn indices_are_exact(mask: Set<u8>, member: bool, from: int)
    requires
        0 <= from,
    ensures
        forall|index: u8| #[trigger]
            indices(mask, member, from).contains(index) <==> from <= index < 128 && mask.contains(
                index,
            ) == member,
        forall|i: int, j: int|
            0 <= i < j < indices(mask, member, from).len() ==> indices(mask, member, from)[i]
                < indices(mask, member, from)[j],
    decreases 128 - from,
{
    if from < 128 {
        let rest = indices(mask, member, from + 1);
        let all = indices(mask, member, from);
        indices_are_exact(mask, member, from + 1);
        if mask.contains(from as u8) == member {
            assert(all =~= seq![from as u8] + rest);
            assert forall|index: u8| #[trigger] all.contains(index) <==> from <= index < 128
                && mask.contains(index) == member by {
                if index == from {
                    assert(all[0] == index);
                } else if rest.contains(index) {
                    let i = choose|i: int| 0 <= i < rest.len() && rest[i] == index;
                    assert(all[i + 1] == index);
                }
                if all.contains(index) && index != from {
                    let i = choose|i: int| 0 <= i < all.len() && all[i] == index;
                    assert(rest[i - 1] == index);
                    assert(rest.contains(index));
                }
            }
            assert forall|i: int, j: int| 0 <= i < j < all.len() implies all[i] < all[j] by {
                assert(all[j] == rest[j - 1]);
                assert(rest.contains(all[j]));
                if i > 0 {
                    assert(all[i] == rest[i - 1]);
                }
            }
        }
    }
}

/// Every number that the mask has a bit for is either given by [`BitMask::ones`] or by
/// [`BitMask::zeros`], and none by both.
pub proof fn ones_and_zeros_are_complements(mask: Set<u8>, index: u8)
    requires
        index < 128,
    ensures
        indices(mask, true, 0).contains(index) != indices(mask, false, 0).contains(index),
{
    indices_are_exact(mask, true, 0);
    indices_are_exact(mask, false, 0);
}

/// Which numbers a [`BitMaskIterator`] gives.
pub trait Strategy {
    /// Whether it gives the members, or the numbers that are not members.
    spec fn members() -> bool;

    /// Whether it gives a number whose membership is `value`.
    fn accept(value: bool) -> (accepted: bool)
        ensures
            accepted == (value == Self::members()),
    ;
}

/// Gives the members.
#[derive(Debug)]
pub struct Ones;

/// Gives the numbers that are not members.
#[derive(Debug)]
pub struct Zeros;

impl Strategy for Ones {
    open spec fn members() -> bool {
        true
    }

    fn accept(value: bool) -> (accepted: bool) {
        value
    }
}

impl Strategy for Zeros {
    open spec fn members() -> bool {
        false
    }

    fn accept(value: bool) -> (accepted: bool) {
        !value
    }
}

/// Gives numbers one after the other, in ascending order.
#[derive(Debug)]
pub struct BitMaskIterator<T> {
    mask: BitMask,
    index: u8,
    _data: PhantomData<T>,
}

impl<T: Strategy> BitMaskIterator<T> {
    /// The set that is gone through.
    pub closed spec fn mask(self) -> BitMask {
        self.mask
    }

    /// The number that is looked at next.
    pub closed spec fn position(self) -> u8 {
        self.index
    }

    /// The numbers still to be given, in order.
    pub open spec fn remaining(self) -> Seq<u8> {
        indices(self.mask()@, T::members(), self.position() as int)
    }

    /// Gives the next number, if there is one left: the smallest from the position on.  The position
    /// is then right after it, and stays where it is if there is none.
    pub fn next(&mut self) -> (next: Option<u8>)
        ensures
            final(self).mask() == old(self).mask(),
            match next {
                Some(index) => {
                    &&& old(self).position() <= index < 128
                    &&& old(self).mask()@.contains(index) == T::members()
                    &&& forall|earlier: u8|
                        old(self).position() <= earlier < index ==> #[trigger] old(
                            self,
                        ).mask()@.contains(earlier) != T::members()
                    &&& final(self).position() == index + 1
                },
                None => {
                    &&& forall|index: u8|
                        old(self).position() <= index < 128 ==> #[trigger] old(
                            self,
                        ).mask()@.contains(index) != T::members()
                    &&& final(self).position() == old(self).position()
                },
            },
            old(self).remaining().len() == 0 ==> next is None && final(self).remaining()
                == old(self).remaining(),
            old(self).remaining().len() > 0 ==> next == Some(old(self).remaining()[0])
                && final(self).remaining() == old(self).remaining().drop_first(),
    {
        let mut index: u8 = self.index;
        while index < BitMask::capacity()
            invariant
                *self == *old(self),
                self.position() <= index,
                forall|earlier: u8|
                    self.position() <= earlier < index ==> #[trigger] self.mask@.contains(earlier)
                        != T::members(),
                self.remaining() == indices(self.mask@, T::members(), index as int),
            decreases 128 - index,
        {
            if T::accept(self.mask.get(index)) {
                self.index = index + 1;
                assert(old(self).remaining().drop_first() =~= self.remaining());
                return Some(index);
            }
            index = index + 1;
        }
        None
    }
}

} // verus!
