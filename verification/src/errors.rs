use vstd::prelude::*;

verus! {

/// The reasons for which an operation aborts without touching any state.
///
/// Every operation of the engine either returns a value or aborts with one of
/// these; an aborted call leaves the engine exactly as it was.
#[derive(Clone, Copy, Debug, PartialEq, Eq, Structural)]
pub enum BlogError {
    /// A referenced post or comment does not exist.
    NotFound,
    /// An argument is outside its allowed range: a zero page or page size, a
    /// comment body shorter than the minimum, a donation amount below one.
    ValidationError,
    /// The caller is not the configured owner of an owner-only action.
    Unauthorized,
    /// A requested donation amount exceeds the balance available to the call.
    InsufficientResources,
}

} // verus!
