//! Endpoints, the ordered collection of them, and the builder that makes one.

use crate::address::{is_supported_url, resolution, resolve, InvalidEndpointError};
use vstd::prelude::*;

verus! {

/// One remote target: the transport client it is reached through and the URL it
/// is reached at. An endpoint does not change once it is made.
#[derive(Debug)]
pub struct Endpoint<C> {
    client: C,
    url: String,
}

/// What an endpoint stands for in contracts.
pub struct EndpointView<C> {
    pub client: C,
    pub url: Seq<char>,
}

impl<C> EndpointView<C> {
    /// Whether the endpoint names a target that a transport can reach.
    pub open spec fn is_usable(self) -> bool {
        is_supported_url(self.url)
    }
}

impl<C> View for Endpoint<C> {
    type V = EndpointView<C>;

    closed spec fn view(&self) -> EndpointView<C> {
        EndpointView { client: self.client, url: self.url@ }
    }
}

impl<C> Endpoint<C> {
    #[verifier::type_invariant]
    spec fn usable(self) -> bool {
        self@.is_usable()
    }

    /// Binds a transport client to the target that `address` resolves to.
    pub fn new(client: C, address: &str) -> (r: Result<Self, InvalidEndpointError>)
        ensures
            match resolution(address@) {
                Ok(url) => r matches Ok(e) && e@ == (EndpointView { client, url }),
                Err(e) => r matches Err(x) && x == e,
            },
    {
        match resolve(address) {
            Ok(url) => Ok(Endpoint { client, url }),
            Err(e) => Err(e),
        }
    }

    /// The transport client that calls to this endpoint go through.
    pub fn client(&self) -> (c: &C)
        ensures
            *c == self@.client,
    {
        &self.client
    }

    /// The normalised URL of the target. Its scheme is `http` or `https`.
    pub fn url(&self) -> (u: &str)
        ensures
            u@ == self@.url,
            self@.is_usable(),
    {
        proof {
            use_type_invariant(self);
        }
        self.url.as_str()
    }
}

/// An ordered collection of endpoints. The order is the order in which they were
/// added, and it fixes the order of the outcomes of every broadcast over the
/// collection. A collection does not change once it is built.
#[derive(Debug)]
pub struct Endpoints<C> {
    items: Vec<Endpoint<C>>,
}

impl<C> View for Endpoints<C> {
    type V = Seq<EndpointView<C>>;

    closed spec fn view(&self) -> Seq<EndpointView<C>> {
        self.items@.map_values(|e: Endpoint<C>| e@)
    }
}

impl<C> Endpoints<C> {
    #[verifier::type_invariant]
    spec fn usable(self) -> bool {
        forall|i: int| 0 <= i < self.items@.len() ==> (#[trigger] self.items@[i])@.is_usable()
    }

    /// The number of endpoints.
    pub fn len(&self) -> (n: usize)
        ensures
            n == self@.len(),
    {
        self.items.len()
    }

    /// Whether the collection holds no endpoint.
    pub fn is_empty(&self) -> (b: bool)
        ensures
            b == (self@.len() == 0),
    {
        self.items.len() == 0
    }

    /// The endpoint at a position, if the collection reaches that far.
    pub fn get(&self, index: usize) -> (e: Option<&Endpoint<C>>)
        ensures
            match e {
                Some(endpoint) => index < self@.len() && endpoint@ == self@[index as int]
                    && endpoint@.is_usable(),
                None => index >= self@.len(),
            },
    {
        proof {
            use_type_invariant(self);
        }
        if index < self.items.len() {
            Some(&self.items[index])
        } else {
            None
        }
    }
}

/// What an endpoint is added from.
#[derive(Debug)]
pub enum EndpointSpec<'a, C> {
    /// An address alone: the endpoint is reached through a copy of the builder's
    /// default transport.
    Address(&'a str),
    /// A transport handle that was made beforehand.
    Transport(Endpoint<C>),
}

/// Collects endpoints, in the order in which they are added, and makes an
/// [`Endpoints`] collection of them. Building touches no network.
#[derive(Debug)]
pub struct EndpointsBuilder<C> {
    default_transport: Option<C>,
    pending: Vec<Endpoint<C>>,
}

/// What a builder stands for in contracts.
pub struct BuilderView<C> {
    pub default_transport: Option<C>,
    pub pending: Seq<EndpointView<C>>,
}

impl<C: Clone> BuilderView<C> {
    /// Why a specification is rejected, if it is: an address that does not
    /// resolve, for the reason why it does not, and an address alone where there
    /// is no default transport. A transport handle is never rejected.
    pub open spec fn rejection(self, spec: EndpointSpec<'_, C>) -> Option<InvalidEndpointError> {
        match spec {
            EndpointSpec::Transport(_) => None,
            EndpointSpec::Address(address) => match resolution(address@) {
                Err(e) => Some(e),
                Ok(_) => if self.default_transport is None {
                    Some(InvalidEndpointError::NoTransport)
                } else {
                    None
                },
            },
        }
    }

    /// Whether `endpoint` is what an accepted specification is added as: the
    /// transport handle itself, or the URL that the address resolves to together
    /// with a clone of the default transport.
    pub open spec fn admits(self, spec: EndpointSpec<'_, C>, endpoint: EndpointView<C>) -> bool {
        match spec {
            EndpointSpec::Transport(handle) => endpoint == handle@,
            EndpointSpec::Address(address) => {
                &&& resolution(address@) == Ok::<Seq<char>, InvalidEndpointError>(endpoint.url)
                &&& self.default_transport matches Some(transport)
                &&& cloned(transport, endpoint.client)
            },
        }
    }

    /// Whether `after` is this builder with the endpoint of an accepted
    /// specification added behind the endpoints that it held.
    pub open spec fn is_extended_by(self, spec: EndpointSpec<'_, C>, after: Self) -> bool {
        &&& after.default_transport == self.default_transport
        &&& after.pending.len() == self.pending.len() + 1
        &&& after.pending.drop_last() == self.pending
        &&& self.admits(spec, after.pending.last())
        &&& after.pending.last().is_usable()
    }
}

impl<C> View for EndpointsBuilder<C> {
    type V = BuilderView<C>;

    closed spec fn view(&self) -> BuilderView<C> {
        BuilderView {
            default_transport: self.default_transport,
            pending: self.pending@.map_values(|e: Endpoint<C>| e@),
        }
    }
}

impl<C> EndpointsBuilder<C> {
    #[verifier::type_invariant]
    spec fn usable(self) -> bool {
        forall|i: int| 0 <= i < self.pending@.len() ==> (#[trigger] self.pending@[i])@.is_usable()
    }
}

impl<C: Clone> EndpointsBuilder<C> {
    /// An empty builder. Endpoints that are added by address alone are reached
    /// through copies of `default_transport`.
    pub fn new(default_transport: Option<C>) -> (builder: Self)
        ensures
            builder@ == (BuilderView { default_transport, pending: Seq::empty() }),
    {
        let builder = EndpointsBuilder { default_transport, pending: Vec::new() };
        assert(builder@.pending =~= Seq::empty());
        builder
    }

    /// Adds one endpoint after those added before and hands the builder back.
    /// A specification that names no usable target is rejected with the reason.
    pub fn add(self, spec: EndpointSpec<'_, C>) -> (r: Result<Self, InvalidEndpointError>)
        ensures
            match self@.rejection(spec) {
                Some(e) => r matches Err(x) && x == e,
                None => r matches Ok(builder) && self@.is_extended_by(spec, builder@),
            },
    {
        proof {
            use_type_invariant(&self);
        }
        let endpoint = match spec {
            EndpointSpec::Transport(handle) => handle,
            EndpointSpec::Address(address) => {
                let url = match resolve(address) {
                    Ok(url) => url,
                    Err(e) => {
                        return Err(e);
                    },
                };
                match &self.default_transport {
                    Some(transport) => Endpoint { client: transport.clone(), url },
                    None => {
                        return Err(InvalidEndpointError::NoTransport);
                    },
                }
            },
        };
        proof {
            use_type_invariant(&endpoint);
        }
        let EndpointsBuilder { default_transport, mut pending } = self;
        pending.push(endpoint);
        let builder = EndpointsBuilder { default_transport, pending };
        assert(builder@.pending.drop_last() =~= self@.pending);
        Ok(builder)
    }

    /// The number of endpoints added so far.
    pub fn len(&self) -> (n: usize)
        ensures
            n == self@.pending.len(),
    {
        self.pending.len()
    }

    /// Ends the building: the collection of the endpoints added, in the order in
    /// which they were added. Every one of them names a usable target.
    pub fn finish(self) -> (endpoints: Endpoints<C>)
        ensures
            endpoints@ == self@.pending,
            forall|i: int| 0 <= i < endpoints@.len() ==> (#[trigger] endpoints@[i]).is_usable(),
    {
        proof {
            use_type_invariant(&self);
        }
        Endpoints { items: self.pending }
    }
}

} // verus!
