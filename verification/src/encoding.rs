use vstd::prelude::*;

verus! {

/// The serialization scheme declared for one route: how the arguments
/// and the result of that route are encoded on the wire.
///
/// The registry only stores and hands back this tag; the dispatcher
/// uses it to pick a deserialization strategy before invoking a handle.
#[derive(Clone, Copy, Debug, PartialEq, Eq, Structural)]
pub enum Encoding {
    /// Form-style URL encoding.
    Url,
    /// Structured JSON text.
    Json,
    /// Structured binary (CBOR).
    Cbor,
}

} // verus!
