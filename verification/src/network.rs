//! The adapter between the agreement engine and the node's network.
//!
//! The engine sends and receives its messages through an interface of its
//! own. The adapter gives that interface to any network of the node, for each
//! version of the engine alike: what the engine addresses in its own terms is
//! handed to the network in the node's terms, and a message the network
//! cannot send is lost without the engine being told.

use std::marker::PhantomData;
use vstd::prelude::*;
use vstd::std_specs::convert::IntoSpec;

verus! {

/// The index of a member of the committee.
#[derive(Clone, Copy, Debug, PartialEq, Eq, Hash, Structural)]
pub struct NodeIndex(pub u64);

/// Whom a message of the agreement engine is for.
#[derive(Clone, Copy, Debug, PartialEq, Eq, Hash, Structural)]
pub enum Recipient {
    /// Every member of the committee.
    Everyone,
    /// One member.
    Node(NodeIndex),
}

/// A network that carries messages of type `D` among the committee.
pub trait Network<D> {
    type Error;

    /// Whether the network may give `answer` when it is handed `data` for
    /// `recipient`. This holds of every answer unless an implementation says
    /// otherwise.
    open spec fn send_gives(
        &self,
        data: D,
        recipient: Recipient,
        answer: Result<(), Self::Error>,
    ) -> bool {
        true
    }

    /// Sends `data` to `recipient`, or says why it could not.
    fn send(&self, data: D, recipient: Recipient) -> (answer: Result<(), Self::Error>)
        ensures
            self.send_gives(data, recipient, answer),
    ;
}

/// What the wrapper hands back for the answer of the network: nothing where
/// the network took the message, and its failure otherwise.
pub open spec fn failure_of<E>(answer: Result<(), E>) -> Option<E> {
    match answer {
        Ok(_) => None,
        Err(error) => Some(error),
    }
}

/// A network of the node, as the agreement engine sees it.
pub struct NetworkWrapper<D, DN: Network<D>> {
    inner: DN,
    _phantom: PhantomData<D>,
}

impl<D, DN: Network<D>> From<DN> for NetworkWrapper<D, DN> {
    /// Wraps the network `inner`.
    fn from(inner: DN) -> (wrapper: Self)
        ensures
            wrapper.network() == inner,
    {
        NetworkWrapper { inner, _phantom: PhantomData }
    }
}

impl<D, DN: Network<D>> vstd::std_specs::convert::FromSpecImpl<DN> for NetworkWrapper<D, DN> {
    open spec fn obeys_from_spec() -> bool {
        true
    }

    closed spec fn from_spec(inner: DN) -> Self {
        NetworkWrapper { inner, _phantom: PhantomData }
    }
}

impl<D, DN: Network<D>> NetworkWrapper<D, DN> {
    /// The network inside.
    pub closed spec fn network(&self) -> DN {
        self.inner
    }

    /// Wraps the network `inner`.
    pub fn new(inner: DN) -> (wrapper: Self)
        ensures
            wrapper.network() == inner,
    {
        NetworkWrapper { inner, _phantom: PhantomData }
    }

    /// Sends `data` to `recipient` as well as the network can: the
    /// recipient is put in the node's terms and the message handed to the
    /// network. Where the network fails the message is lost; the failure is
    /// handed back for the record, and nothing else follows from it.
    pub fn send<R: Into<Recipient>>(&self, data: D, recipient: R) -> (failure: Option<DN::Error>)
        ensures
            exists|converted: Recipient, answer: Result<(), DN::Error>|
                {
                    &&& R::obeys_into_spec() ==> converted == recipient.into_spec()
                    &&& #[trigger] self.network().send_gives(data, converted, answer)
                    &&& failure == failure_of(answer)
                },
    {
        let converted: Recipient = recipient.into();
        let answer = self.inner.send(data, converted);
        let ghost given = answer;
        proof {
            assert(self.inner.send_gives(data, converted, given));
        }
        let failure = match answer {
            Ok(_) => None,
            Err(error) => Some(error),
        };
        proof {
            assert(failure == failure_of(given));
            assert(self.network().send_gives(data, converted, given));
        }
        failure
    }

    /// The network inside, to receive from.
    pub fn inner_mut(&mut self) -> (inner: &mut DN)
        ensures
            *inner == old(self).network(),
            final(self).network() == *final(inner),
    {
        &mut self.inner
    }

    /// Takes the wrapper off.
    pub fn into_inner(self) -> (inner: DN)
        ensures
            inner == self.network(),
    {
        self.inner
    }
}

} // verus!
