use vstd::prelude::*;

use crate::encoding::Encoding;
use crate::error::ServerFnError;
use crate::error::ServerRegistrationFnError;
use crate::registry::DioxusServerFnRegistry;
use crate::registry::ServerFunction;

verus! {

/// Defines a "server function": a function declared once and callable
/// either locally or remotely by routing a request path to it.
///
/// The trait is implemented on a type that describes the server
/// function (typically its argument record), not on the function
/// itself. An implementor supplies the route key, the invocable
/// handle and the encoding; `register` has a default body that
/// inserts them into a registry, so that a dispatcher can later find
/// the function by URL.
pub trait ServerFn<F: Copy> {
    /// The route key of this server function, as a mathematical value.
    spec fn spec_url() -> Seq<char>;

    /// The invocable handle of this server function, as a
    /// mathematical value.
    spec fn spec_handle() -> F;

    /// The encoding declared for this route, as a mathematical value.
    spec fn spec_encoding() -> Encoding;

    /// The route key (URL) the function is reachable under; never
    /// empty.
    fn url() -> (r: String)
        ensures
            r@ == Self::spec_url(),
            r@.len() > 0,
    ;

    /// The invocable handle for this server function.
    fn handle() -> (r: F)
        ensures
            r == Self::spec_handle(),
    ;

    /// The encoding declared for this route.
    fn encoding() -> (r: Encoding)
        ensures
            r == Self::spec_encoding(),
    ;

    /// Registers the server function, allowing a dispatcher to query
    /// it by URL. The first registration succeeds; registering the
    /// same route key twice fails with an error carrying the key, and
    /// the record registered first stays in place. On a registry whose
    /// store was marked as failed, the recorded failure detail is
    /// surfaced instead and nothing is inserted.
    fn register(registry: &mut DioxusServerFnRegistry<F>) -> (r: Result<(), ServerFnError>)
        requires
            old(registry).wf(),
        ensures
            final(registry).wf(),
            final(registry).spec_poison() == old(registry).spec_poison(),
            old(registry).poisoned() ==> {
                &&& (r matches Err(ServerFnError::Registration(d)) && Some(d@) == old(
                    registry,
                ).spec_poison())
                &&& final(registry).routes() == old(registry).routes()
            },
            !old(registry).poisoned() && old(registry).routes().dom().contains(Self::spec_url())
                ==> {
                &&& (r matches Err(ServerFnError::Registration(d)) && d@ == Self::spec_url())
                &&& final(registry).routes() == old(registry).routes()
            },
            !old(registry).poisoned() && !old(registry).routes().dom().contains(Self::spec_url())
                ==> {
                &&& r is Ok
                &&& final(registry).routes() == old(registry).routes().insert(
                    Self::spec_url(),
                    (ServerFunction { trait_obj: Self::spec_handle(), encoding: Self::spec_encoding() }),
                )
            },
    {
        let url = Self::url();
        match registry.register(url.as_str(), Self::handle(), Self::encoding()) {
            Ok(()) => Ok(()),
            Err(ServerRegistrationFnError::AlreadyRegistered(k)) => Err(
                ServerFnError::Registration(k),
            ),
            Err(ServerRegistrationFnError::Poisoned(d)) => Err(ServerFnError::Registration(d)),
        }
    }
}

} // verus!
