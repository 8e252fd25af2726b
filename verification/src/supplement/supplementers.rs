//! Send supplementers provided by this crate.
use super::{SendSupplementer, round_trips};
use std::marker::PhantomData;
use vstd::prelude::*;

verus! {

/// A [`SendSupplementer`] that sends the data unchanged.
#[derive(Debug)]
pub struct NullSendSupplementer<T>(PhantomData<T>);

impl<T> Clone for NullSendSupplementer<T> {
    fn clone(&self) -> (copy: Self) {
        NullSendSupplementer(PhantomData)
    }
}

impl<T> Default for NullSendSupplementer<T> {
    fn default() -> Self {
        NullSendSupplementer(PhantomData)
    }
}

impl<T> Copy for NullSendSupplementer<T> {

}

impl<T> PartialEq for NullSendSupplementer<T> {
    /// All unchanging supplementers are alike.
    fn eq(&self, other: &Self) -> (equal: bool) {
        true
    }
}

impl<T> vstd::std_specs::cmp::PartialEqSpecImpl for NullSendSupplementer<T> {
    open spec fn obeys_eq_spec() -> bool {
        true
    }

    open spec fn eq_spec(&self, other: &Self) -> bool {
        true
    }
}

impl<T> Eq for NullSendSupplementer<T> {

}

impl<T> NullSendSupplementer<T> {
    /// Creates a new [`NullSendSupplementer`].
    #[must_use]
    pub fn new() -> Self {
        NullSendSupplementer(PhantomData)
    }
}

impl<T> SendSupplementer for NullSendSupplementer<T> {
    type From = T;

    type To = T;

    open spec fn enriches(&self, data: T, to: T) -> bool {
        to == data
    }

    open spec fn unenriches(&self, to: T, data: T) -> bool {
        data == to
    }

    fn enrich(&self, data: T) -> (to: T)
        ensures
            to == data,
    {
        data
    }

    fn unenrich(&self, data: T) -> (from: T)
        ensures
            from == data,
    {
        data
    }
}

/// A [`SendSupplementer`] that sends each datum together with what its function computes from
/// it, the computed value first.
#[derive(Debug)]
#[verifier::reject_recursive_types(T)]
#[verifier::reject_recursive_types(U)]
pub struct PrependSendSupplementer<F: Fn(&T) -> U, T, U>(F, PhantomData<T>, PhantomData<U>);

impl<F: Fn(&T) -> U, T, U> PrependSendSupplementer<F, T, U> {
    /// The function can be called on every datum.
    #[verifier::type_invariant]
    spec fn computes_for_every_datum(self) -> bool {
        forall|data: &T| self.0.requires((data,))
    }

    /// The function that computes what is prepended.
    pub closed spec fn prefix_function(&self) -> F {
        self.0
    }

    /// Creates a [`PrependSendSupplementer`] that prepends what `function` computes.
    pub fn new(function: F) -> (supplementer: Self)
        requires
            forall|data: &T| function.requires((data,)),
        ensures
            supplementer.prefix_function() == function,
    {
        PrependSendSupplementer(function, PhantomData, PhantomData)
    }
}

impl<F: Fn(&T) -> U, T, U> SendSupplementer for PrependSendSupplementer<F, T, U> {
    type From = T;

    type To = (U, T);

    open spec fn enriches(&self, data: T, to: (U, T)) -> bool {
        &&& to.1 == data
        &&& self.prefix_function().ensures((&data,), to.0)
    }

    open spec fn unenriches(&self, to: (U, T), data: T) -> bool {
        data == to.1
    }

    fn enrich(&self, data: T) -> (to: (U, T))
        ensures
            to.1 == data,
            self.prefix_function().ensures((&data,), to.0),
    {
        proof {
            use_type_invariant(self);
        }
        ((self.0)(&data), data)
    }

    fn unenrich(&self, data: (U, T)) -> (from: T)
        ensures
            from == data.1,
    {
        data.1
    }
}

/// The unchanging supplementer gives back exactly what it was given.
pub proof fn lemma_null_send_supplementer_round_trips<T>(supplementer: NullSendSupplementer<T>)
    ensures
        round_trips(supplementer),
{
}

/// The prepending supplementer gives back exactly the datum it was given.
pub proof fn lemma_prepend_send_supplementer_round_trips<F: Fn(&T) -> U, T, U>(
    supplementer: PrependSendSupplementer<F, T, U>,
)
    ensures
        round_trips(supplementer),
{
}

} // verus!
