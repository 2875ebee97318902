use vstd::prelude::*;

verus! {

/// The ways a lookup or a registration can fail.
#[derive(Debug, Clone, Copy, PartialEq, Eq, Structural)]
pub enum EngineError {
    /// A component type was queried that the registry does not hold.
    ComponentNotFound,
    /// A name was queried that was never registered with the asset manager.
    AssetNotFound,
    /// A name resolved to a payload of another kind than the one asked for.
    ResourceTypeMismatch,
    /// Image bytes could not be decoded.
    DecodeFailure,
}

} // verus!
