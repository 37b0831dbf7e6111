//! Walking over the strings of an object.
//!
//! A walker is shown every string that an object owns, one after another, and
//! may put another string in its place.

use vstd::prelude::*;

verus! {

/// Something that is shown strings and may rewrite them.
///
/// What a walker makes of a string, and what the walker is afterwards, must
/// depend on the walker and on the string alone. Walkers are written outside
/// this crate: that they keep to `enter_string`'s contract is believed of
/// them, not proved.
pub trait ObjectWalker: Sized {
    /// The string that the walker puts in the place of `value`.
    open spec fn rewritten(&self, value: Seq<char>) -> Seq<char> {
        arbitrary::<spec_fn(Self, Seq<char>) -> Seq<char>>()(*self, value)
    }

    /// The walker after it was shown `value`.
    open spec fn advanced(&self, value: Seq<char>) -> Self {
        arbitrary::<spec_fn(Self, Seq<char>) -> Self>()(*self, value)
    }

    /// Looks at `value` and may put another string in its place.
    fn enter_string(&mut self, value: &mut String)
        ensures
            final(value)@ == old(self).rewritten(old(value)@),
            *final(self) == old(self).advanced(old(value)@),
    ;
}

/// An object whose strings a walker can visit.
pub trait ObjectTraversal<W: ObjectWalker>: Sized {
    /// `after` is this object after a walk by `walker`: every string that a
    /// walk visits is what the walker made of it when it came to it, and all
    /// else is as it was.
    spec fn walked(&self, after: &Self, walker: W) -> bool;

    /// `walker` after it was shown every string of this object that a walk
    /// visits, in the order of the walk.
    spec fn walker_after(&self, walker: W) -> W;

    /// Shows `walker` every string of the object that a walk visits, once
    /// each, and leaves in its place what the walker made of it.
    fn traverse(&mut self, walker: &mut W)
        ensures
            old(self).walked(final(self), *old(walker)),
            *final(walker) == old(self).walker_after(*old(walker)),
    ;
}

/// `walker` after a walk over the first `i` items of `items`.
pub open spec fn walker_at<W: ObjectWalker, T: ObjectTraversal<W>>(
    items: Seq<T>,
    walker: W,
    i: int,
) -> W
    decreases i,
{
    if i <= 0 {
        walker
    } else {
        items[i - 1].walker_after(walker_at(items, walker, i - 1))
    }
}

/// A walker whose way of rewriting never changes.
pub open spec fn steady<W: ObjectWalker>(walker: W) -> bool {
    forall|value: Seq<char>| #[trigger] walker.advanced(value) == walker
}

impl<W: ObjectWalker> ObjectTraversal<W> for String {
    open spec fn walked(&self, after: &Self, walker: W) -> bool {
        after@ == walker.rewritten(self@)
    }

    open spec fn walker_after(&self, walker: W) -> W {
        walker.advanced(self@)
    }

    fn traverse(&mut self, walker: &mut W) {
        walker.enter_string(self);
    }
}

impl<W: ObjectWalker> ObjectTraversal<W> for usize {
    open spec fn walked(&self, after: &Self, walker: W) -> bool {
        after == self
    }

    open spec fn walker_after(&self, walker: W) -> W {
        walker
    }

    fn traverse(&mut self, walker: &mut W) {
    }
}

impl<W: ObjectWalker> ObjectTraversal<W> for bool {
    open spec fn walked(&self, after: &Self, walker: W) -> bool {
        after == self
    }

    open spec fn walker_after(&self, walker: W) -> W {
        walker
    }

    fn traverse(&mut self, walker: &mut W) {
    }
}

impl<W: ObjectWalker, T: ObjectTraversal<W>> ObjectTraversal<W> for Option<T> {
    open spec fn walked(&self, after: &Self, walker: W) -> bool {
        match *self {
            Some(v) => *after matches Some(w) && v.walked(&w, walker),
            None => *after is None,
        }
    }

    open spec fn walker_after(&self, walker: W) -> W {
        match *self {
            Some(v) => v.walker_after(walker),
            None => walker,
        }
    }

    fn traverse(&mut self, walker: &mut W) {
        match self {
            Some(v) => {
                v.traverse(walker);
            },
            None => {},
        }
    }
}

impl<W: ObjectWalker, T: ObjectTraversal<W>> ObjectTraversal<W> for Vec<T> {
    open spec fn walked(&self, after: &Self, walker: W) -> bool {
        &&& after@.len() == self@.len()
        &&& forall|i: int|
            0 <= i < self@.len() ==> (#[trigger] self@[i]).walked(
                &after@[i],
                walker_at(self@, walker, i),
            )
    }

    open spec fn walker_after(&self, walker: W) -> W {
        walker_at(self@, walker, self@.len() as int)
    }

    fn traverse(&mut self, walker: &mut W) {
        let mut i: usize = 0;
        while i < self.len()
            invariant
                i <= self.len(),
                self@.len() == old(self)@.len(),
                *walker == walker_at(old(self)@, *old(walker), i as int),
                forall|k: int|
                    0 <= k < i ==> (#[trigger] old(self)@[k]).walked(
                        &self@[k],
                        walker_at(old(self)@, *old(walker), k),
                    ),
                forall|k: int| i <= k < self@.len() ==> self@[k] == old(self)@[k],
            decreases self.len() - i,
        {
            self[i].traverse(walker);
            i += 1;
        }
    }
}

/// A steady walker is the same after any walk.
pub proof fn lemma_steady_walker_at<W: ObjectWalker, T: ObjectTraversal<W>>(
    items: Seq<T>,
    walker: W,
    i: int,
)
    requires
        forall|k: int| 0 <= k < items.len() ==> (#[trigger] items[k]).walker_after(walker) == walker,
        i <= items.len(),
    ensures
        walker_at(items, walker, i) == walker,
    decreases i,
{
    if i > 0 {
        lemma_steady_walker_at(items, walker, i - 1);
    }
}

} // verus!
