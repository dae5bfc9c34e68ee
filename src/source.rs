use vstd::multiset::Multiset;
use vstd::prelude::*;

verus! {

/// What a pull on an asynchronous sequence gives back.
pub enum Pull<T> {
    /// The next item was ready.
    Ready(T),
    /// Nothing is ready yet; the sequence wakes its task once something is.
    Pending,
    /// The sequence has ended and yields no further item.
    Exhausted,
}

/// What polling a pending derivation gives back.
pub enum Resolution<S> {
    /// The derivation produced a secondary sequence.
    Derived(S),
    /// The derivation produced no secondary sequence.
    Nothing,
    /// The derivation is not resolved yet.
    Pending,
}

/// An ordered asynchronous sequence: the primary input of a fan-out merge.
///
/// The spec functions of these traits model an implementation for the
/// contracts of its methods. An implementation outside verified code may leave
/// them at their defaults, of which nothing is known.
pub trait Sequence<T>: Sized {
    /// The items that this sequence still yields, in order.
    closed spec fn upcoming(&self) -> Seq<T> {
        arbitrary()
    }

    /// A bound on how many more pulls may still find nothing ready.
    closed spec fn stalls(&self) -> nat {
        arbitrary()
    }

    /// Pulls the next item: the first of `upcoming`, nothing yet, or the end.
    fn pull_next(&mut self) -> (r: Pull<T>)
        ensures
            match r {
                Pull::Ready(x) => {
                    &&& old(self).upcoming().len() > 0
                    &&& x == old(self).upcoming()[0]
                    &&& final(self).upcoming() == old(self).upcoming().drop_first()
                    &&& final(self).stalls() <= old(self).stalls()
                },
                Pull::Pending => {
                    &&& final(self).upcoming() == old(self).upcoming()
                    &&& final(self).stalls() < old(self).stalls()
                },
                Pull::Exhausted => {
                    &&& old(self).upcoming().len() == 0
                    &&& final(self).upcoming().len() == 0
                    &&& final(self).stalls() <= old(self).stalls()
                },
            },
    ;

    /// The lower bound that `lower_bound` reports.
    closed spec fn hint(&self) -> nat {
        arbitrary()
    }

    /// A lower bound on the number of items still to come.
    fn lower_bound(&self) -> (r: usize)
        ensures
            r == self.hint(),
            r <= self.upcoming().len(),
    ;
}

/// An asynchronous sequence whose items come in no promised order: a secondary
/// input of a fan-out merge, or a fan-out merge itself.
pub trait Source<T>: Sized {
    /// The items that this source still yields.
    closed spec fn remaining(&self) -> Multiset<T> {
        arbitrary()
    }

    /// A bound on how many more pulls may still find nothing ready.
    closed spec fn stalls(&self) -> nat {
        arbitrary()
    }

    /// Pulls some item of `remaining`, nothing yet, or the end.
    fn pull(&mut self) -> (r: Pull<T>)
        ensures
            match r {
                Pull::Ready(x) => {
                    &&& old(self).remaining() == final(self).remaining().insert(x)
                    &&& final(self).stalls() <= old(self).stalls()
                },
                Pull::Pending => {
                    &&& final(self).remaining() == old(self).remaining()
                    &&& final(self).stalls() < old(self).stalls()
                },
                Pull::Exhausted => {
                    &&& old(self).remaining() == Multiset::<T>::empty()
                    &&& final(self).remaining() == Multiset::<T>::empty()
                    &&& final(self).stalls() <= old(self).stalls()
                },
            },
    ;

    /// The lower bound that `lower_bound` reports.
    closed spec fn hint(&self) -> nat {
        arbitrary()
    }

    /// A lower bound on the number of items still to come.
    fn lower_bound(&self) -> (r: usize)
        ensures
            r == self.hint(),
            r <= self.remaining().len(),
    ;
}

/// A pending derivation: an asynchronous computation that ends in a secondary
/// sequence or in nothing.
pub trait Derivation<S>: Sized {
    /// What the derivation resolves to.
    closed spec fn outcome(&self) -> Option<S> {
        arbitrary()
    }

    /// A bound on how many more polls may still find it unresolved.
    closed spec fn stalls(&self) -> nat {
        arbitrary()
    }

    /// Polls the derivation. Once resolved, it holds nothing more.
    fn resolve(&mut self) -> (r: Resolution<S>)
        ensures
            match r {
                Resolution::Derived(s) => {
                    &&& old(self).outcome() == Some(s)
                    &&& final(self).outcome() is None
                    &&& final(self).stalls() == 0
                },
                Resolution::Nothing => {
                    &&& old(self).outcome() is None
                    &&& final(self).outcome() is None
                    &&& final(self).stalls() == 0
                },
                Resolution::Pending => {
                    &&& final(self).outcome() == old(self).outcome()
                    &&& final(self).stalls() < old(self).stalls()
                },
            },
    ;
}

/// The items that a derivation contributes: those of the source it resolves
/// to, if any.
pub open spec fn derivation_items<T, S: Source<T>, F: Derivation<S>>(f: F) -> Multiset<T> {
    match f.outcome() {
        Some(s) => s.remaining(),
        None => Multiset::empty(),
    }
}

/// A bound on the pulls that find a derivation, or the source it resolves to,
/// not ready.
pub open spec fn derivation_stalls<T, S: Source<T>, F: Derivation<S>>(f: F) -> nat {
    f.stalls() + match f.outcome() {
        Some(s) => s.stalls(),
        None => 0,
    }
}

/// The mapping of a fan-out merge: from a primary item to its derivation.
pub trait Derive<T, S: Source<T>, F: Derivation<S>>: Sized {
    /// The items that the derivation started for `item` contributes.
    closed spec fn yields(&self, item: T) -> Multiset<T> {
        arbitrary()
    }

    /// A bound on the pulls that find that derivation, or its source, not ready.
    closed spec fn delays(&self, item: T) -> nat {
        arbitrary()
    }

    fn derive(&self, item: &T) -> (f: F)
        ensures
            derivation_items::<T, S, F>(f) == self.yields(*item),
            derivation_stalls::<T, S, F>(f) == self.delays(*item),
    ;
}

} // verus!
