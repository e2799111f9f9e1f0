//! An adaptive container that holds zero, one, or many values.
//!
//! The container starts out in a compact shape that stores at most one value
//! without a separate heap allocation, and transparently upgrades to a
//! growable sequence the moment a second value is appended. Once upgraded,
//! the shape never reverts, even if the sequence later holds fewer than two
//! items. Insertion order is preserved throughout; elements are never
//! reordered or deduplicated.

use vstd::prelude::*;

verus! {

/// A container that stores either at most one value inline (`Single`) or an
/// ordered sequence of values (`Many`).
///
/// The `Single` shape holds zero or one value; the `Many` shape holds any
/// number of values, including zero or one, and is reached either by
/// appending a second value or by constructing the container directly from a
/// vector.
#[derive(Clone, Debug)]
pub enum OneOrMany<T> {
    Single(Option<T>),
    Many(Vec<T>),
}

impl<T> View for OneOrMany<T> {
    type V = Seq<T>;

    /// The mathematical model of the container: the sequence of stored
    /// elements in insertion order, regardless of shape.
    open spec fn view(&self) -> Seq<T> {
        match *self {
            OneOrMany::Single(Some(v)) => seq![v],
            OneOrMany::Single(None) => Seq::empty(),
            OneOrMany::Many(ref list) => list@,
        }
    }
}

impl<T> OneOrMany<T> {
    /// Whether the container is currently in the `Many` shape.
    pub open spec fn many_shape(&self) -> bool {
        *self is Many
    }

    /// Returns an empty container in the `Single` shape.
    pub fn new() -> (r: Self)
        ensures
            r@ == Seq::<T>::empty(),
            !r.many_shape(),
    {
        OneOrMany::Single(None)
    }

    /// True iff the container is in the `Single` shape and holds a value.
    pub fn is_one(&self) -> (r: bool)
        ensures
            r == (!self.many_shape() && self@.len() == 1),
    {
        match self {
            OneOrMany::Single(one) => one.is_some(),
            OneOrMany::Many(_) => false,
        }
    }

    /// True iff the container is in the `Many` shape, regardless of how many
    /// elements it holds.
    pub fn is_many(&self) -> (r: bool)
        ensures
            r == self.many_shape(),
    {
        match self {
            OneOrMany::Single(_) => false,
            OneOrMany::Many(_) => true,
        }
    }

    /// True iff the container holds at least one item. Despite its name this
    /// reports *non*-emptiness: it is the negation of what the name suggests,
    /// and is kept this way deliberately so that existing callers observe the
    /// same behaviour; the contract states the actual meaning.
    pub fn is_empty(&self) -> (r: bool)
        ensures
            r == (self@.len() != 0),
    {
        self.len() != 0
    }

    /// The exact number of stored items: 0 or 1 in the `Single` shape, the
    /// sequence length in the `Many` shape.
    pub fn len(&self) -> (r: usize)
        ensures
            r == self@.len(),
    {
        match self {
            OneOrMany::Single(one) => {
                if one.is_some() {
                    1
                } else {
                    0
                }
            },
            OneOrMany::Many(list) => list.len(),
        }
    }

    /// Appends one item, preserving insertion order.
    ///
    /// An empty `Single` container stores the item inline; an occupied
    /// `Single` container moves its value and the new item into a fresh
    /// sequence and upgrades to the `Many` shape; a `Many` container appends
    /// to the end of its sequence. The upgrade is irreversible.
    pub fn push(&mut self, item: T)
        ensures
            final(self)@ == old(self)@.push(item),
            final(self).many_shape() == (old(self).many_shape() || old(self)@.len() >= 1),
    {
        let mut taken = OneOrMany::Single(None);
        core::mem::swap(self, &mut taken);
        match taken {
            OneOrMany::Single(None) => {
                *self = OneOrMany::Single(Some(item));
                proof {
                    assert(self@ =~= old(self)@.push(item));
                }
            },
            OneOrMany::Single(Some(existing)) => {
                let mut list: Vec<T> = Vec::new();
                list.push(existing);
                list.push(item);
                *self = OneOrMany::Many(list);
                proof {
                    assert(self@ =~= old(self)@.push(item));
                }
            },
            OneOrMany::Many(mut list) => {
                list.push(item);
                *self = OneOrMany::Many(list);
                proof {
                    assert(self@ =~= old(self)@.push(item));
                }
            },
        }
    }

    /// Appends every item of `items`, in order, exactly as if `push` were
    /// called once per item. An empty input leaves the container unchanged.
    pub fn extend(&mut self, items: Vec<T>)
        ensures
            final(self)@ == old(self)@ + items@,
            final(self).many_shape() == (old(self).many_shape() || old(self)@.len() + items@.len()
                >= 2),
    {
        let ghost all = items@;
        let mut rest = items;
        while rest.len() > 0
            invariant
                rest@.len() <= all.len(),
                self@ + rest@ == old(self)@ + all,
                self.many_shape() == (old(self).many_shape() || old(self)@.len() + all.len()
                    - rest@.len() >= 2),
            decreases rest@.len(),
        {
            let ghost prev_view = self@;
            let ghost prev_rest = rest@;
            let next = rest.remove(0);
            self.push(next);
            proof {
                assert(self@ + rest@ =~= prev_view + prev_rest);
            }
        }
        proof {
            assert(rest@ =~= Seq::<T>::empty());
            assert(self@ =~= self@ + rest@);
        }
    }

    /// Builds a container by folding `push` over each element of `items` in
    /// order, exactly as if starting from `new` and appending one at a time:
    /// fewer than two elements leave it in the `Single` shape, two or more
    /// upgrade it to `Many`.
    pub fn from_iter(items: Vec<T>) -> (r: Self)
        ensures
            r@ == items@,
            r.many_shape() == (items@.len() >= 2),
    {
        let mut this = OneOrMany::new();
        this.extend(items);
        proof {
            assert(this@ =~= items@);
        }
        this
    }
}

impl<T> Default for OneOrMany<T> {
    /// Same as `new`: an empty container in the `Single` shape.
    fn default() -> (r: Self)
        ensures
            r@ == Seq::<T>::empty(),
            !r.many_shape(),
    {
        OneOrMany::new()
    }
}

impl<T> From<Option<T>> for OneOrMany<T> {
    /// `None` becomes the empty `Single` container, `Some(v)` the occupied
    /// one; no upgrade to `Many` takes place.
    fn from(item: Option<T>) -> (r: Self) {
        OneOrMany::Single(item)
    }
}

impl<T> vstd::std_specs::convert::FromSpecImpl<Option<T>> for OneOrMany<T> {
    open spec fn obeys_from_spec() -> bool {
        true
    }

    open spec fn from_spec(item: Option<T>) -> Self {
        OneOrMany::Single(item)
    }
}

impl<T> From<T> for OneOrMany<T> {
    /// A bare value becomes the occupied `Single` container.
    fn from(item: T) -> (r: Self) {
        OneOrMany::Single(Some(item))
    }
}

impl<T> vstd::std_specs::convert::FromSpecImpl<T> for OneOrMany<T> {
    open spec fn obeys_from_spec() -> bool {
        true
    }

    open spec fn from_spec(item: T) -> Self {
        OneOrMany::Single(Some(item))
    }
}

impl<T> From<Vec<T>> for OneOrMany<T> {
    /// Wraps the vector verbatim in the `Many` shape, even when it holds
    /// zero or one elements: direct construction from a sequence bypasses
    /// the `Single` optimisation on purpose.
    fn from(item: Vec<T>) -> (r: Self) {
        OneOrMany::Many(item)
    }
}

impl<T> vstd::std_specs::convert::FromSpecImpl<Vec<T>> for OneOrMany<T> {
    open spec fn obeys_from_spec() -> bool {
        true
    }

    open spec fn from_spec(item: Vec<T>) -> Self {
        OneOrMany::Many(item)
    }
}

/// A one-shot, forward-only traversal of a container's elements. Each call
/// of `next` hands ownership of the next element to the caller; the source
/// container was consumed to build it, so the elements cannot be observed
/// twice.
pub enum OneOrManyIntoIter<T> {
    Single(Option<T>),
    Many(Vec<T>),
}

impl<T> OneOrManyIntoIter<T> {
    /// The sequence of elements this traversal has yet to yield, in order.
    pub open spec fn remaining(&self) -> Seq<T> {
        match *self {
            OneOrManyIntoIter::Single(Some(v)) => seq![v],
            OneOrManyIntoIter::Single(None) => Seq::empty(),
            OneOrManyIntoIter::Many(ref list) => list@,
        }
    }

    /// Yields the next element in stored order, or `None` once exhausted.
    /// Further calls after exhaustion keep returning `None`.
    pub fn next(&mut self) -> (r: Option<T>)
        ensures
            old(self).remaining().len() == 0 ==> r is None && final(self).remaining()
                == old(self).remaining(),
            old(self).remaining().len() > 0 ==> r == Some(old(self).remaining()[0])
                && final(self).remaining() == old(self).remaining().drop_first(),
    {
        let r = match self {
            OneOrManyIntoIter::Single(one) => one.take(),
            OneOrManyIntoIter::Many(list) => {
                if list.len() > 0 {
                    Some(list.remove(0))
                } else {
                    None
                }
            },
        };
        proof {
            if old(self).remaining().len() > 0 {
                assert(self.remaining() =~= old(self).remaining().drop_first());
            } else {
                assert(self.remaining() =~= old(self).remaining());
            }
        }
        r
    }
}

impl<T> OneOrMany<T> {
    /// Consumes the container into a traversal over its elements: the single
    /// stored value if the `Single` shape is occupied, nothing if it is
    /// empty, or the whole underlying sequence start to end for `Many`.
    pub fn into_iter(self) -> (r: OneOrManyIntoIter<T>)
        ensures
            r.remaining() == self@,
    {
        match self {
            OneOrMany::Single(one) => OneOrManyIntoIter::Single(one),
            OneOrMany::Many(many) => OneOrManyIntoIter::Many(many),
        }
    }
}

/// A container in the `Single` shape never holds more than one value: the
/// shape bounds the length, so a length of two or more implies the `Many`
/// shape.
pub proof fn lemma_single_shape_len<T>(c: OneOrMany<T>)
    ensures
        !c.many_shape() ==> c@.len() <= 1,
{
    match c {
        OneOrMany::Single(Some(v)) => {
            assert(c@ =~= seq![v]);
        },
        OneOrMany::Single(None) => {
            assert(c@ =~= Seq::<T>::empty());
        },
        OneOrMany::Many(_) => {},
    }
}

/// Each append grows the length by exactly one, so a container built by
/// appending `n` items one at a time reports a length of exactly `n`.
pub proof fn lemma_append_length<T>(before: OneOrMany<T>, item: T, after: OneOrMany<T>)
    requires
        after@ == before@.push(item),
    ensures
        after@.len() == before@.len() + 1,
{
}

/// Round trip: draining a container through its consuming traversal yields
/// exactly its element sequence, and rebuilding a fresh container by
/// extending an empty one with that sequence reproduces the original
/// elements in the original order.
pub proof fn lemma_round_trip<T>(source: OneOrMany<T>, drained: Seq<T>, rebuilt: OneOrMany<T>)
    requires
        drained == source@,
        rebuilt@ == Seq::<T>::empty() + drained,
    ensures
        rebuilt@ == source@,
{
    assert(Seq::<T>::empty() + drained =~= drained);
}

/// Extending a container with an empty sequence changes neither its
/// elements nor its shape.
pub proof fn lemma_extend_empty<T>(before: OneOrMany<T>, after: OneOrMany<T>)
    requires
        after@ == before@ + Seq::<T>::empty(),
        after.many_shape() == (before.many_shape() || before@.len() >= 2),
    ensures
        after@ == before@,
        after.many_shape() == before.many_shape(),
{
    assert(before@ + Seq::<T>::empty() =~= before@);
    lemma_single_shape_len(before);
}

} // verus!
