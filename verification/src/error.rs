use vstd::prelude::*;

verus! {

/// Errors that can occur when registering a server function.
#[derive(Clone, Debug, PartialEq, Eq)]
pub enum ServerRegistrationFnError {
    /// A record already exists for this route key; the registration is
    /// rejected and the existing record is left untouched. The payload
    /// is the offending key.
    AlreadyRegistered(String),
    /// The shared store became unusable because a prior writer failed
    /// while mutating it. The payload describes the failure.
    Poisoned(String),
}

/// The error a server function's registration surfaces to its caller.
#[derive(Clone, Debug, PartialEq, Eq)]
pub enum ServerFnError {
    /// Registration of the function failed; the payload carries the
    /// route key or failure detail from the registry.
    Registration(String),
}

impl ServerRegistrationFnError {
    /// A human-readable description of the error. The route key or the
    /// failure detail is returned unchanged, so callers that need the
    /// offending key can recover it.
    pub fn detail(&self) -> (r: &String)
        ensures
            (match self {
                ServerRegistrationFnError::AlreadyRegistered(k) => r == k,
                ServerRegistrationFnError::Poisoned(d) => r == d,
            }),
    {
        match self {
            ServerRegistrationFnError::AlreadyRegistered(k) => k,
            ServerRegistrationFnError::Poisoned(d) => d,
        }
    }
}

} // verus!
