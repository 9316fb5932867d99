//! The failures of a storage reservation.

use crate::layout::{Layout, LayoutError};
use vstd::prelude::*;
use vstd::std_specs::convert::FromSpecImpl;

verus! {

/// Why a reservation failed.
#[derive(Clone, Copy, PartialEq, Eq, Debug, Structural)]
pub enum TryReserveErrorKind {
    /// The requested capacity, or its size in bytes, cannot be represented.
    CapacityOverflow,
    /// The allocator declined a well-formed request of the given layout.
    ///
    /// The buffers of this crate take their memory from the standard
    /// allocator, which does not return from a request that it cannot meet;
    /// they report no failure of this kind themselves.
    AllocError { layout: Layout },
}

/// The error of a fallible reservation.
#[derive(Clone, Copy, PartialEq, Eq, Debug, Structural)]
pub struct TryReserveError {
    kind: TryReserveErrorKind,
}

/// The text that describes a failure of the given kind.
pub open spec fn message_text(kind: TryReserveErrorKind) -> Seq<char> {
    match kind {
        TryReserveErrorKind::CapacityOverflow =>
            "memory allocation failed because the computed capacity exceeded the collection's maximum"@,
        TryReserveErrorKind::AllocError { .. } =>
            "memory allocation failed because the memory allocator returned an error"@,
    }
}

impl TryReserveError {
    /// The reason of the failure.
    pub closed spec fn spec_kind(&self) -> TryReserveErrorKind {
        self.kind
    }

    /// The reason of the failure.
    #[must_use]
    #[verifier::when_used_as_spec(spec_kind)]
    pub fn kind(&self) -> (kind: TryReserveErrorKind)
        ensures
            kind == self.spec_kind(),
    {
        self.kind
    }

    /// Describes the failure in words.
    pub fn message(&self) -> (text: &'static str)
        ensures
            text@ == message_text(self.kind()),
    {
        match self.kind {
            TryReserveErrorKind::CapacityOverflow =>
                "memory allocation failed because the computed capacity exceeded the collection's maximum",
            TryReserveErrorKind::AllocError { .. } =>
                "memory allocation failed because the memory allocator returned an error",
        }
    }
}

/// Unwraps the outcome of a reservation that cannot have failed.
///
/// A failed reservation is fatal to the public operations, so they only
/// hand over outcomes that they have shown to be successes.
pub fn handle_reserve<T>(result: Result<T, TryReserveError>) -> (res: T)
    requires
        result is Ok,
    ensures
        result == Ok::<T, TryReserveError>(res),
{
    match result {
        Ok(res) => res,
        Err(_) => vstd::pervasive::unreached(),
    }
}

impl From<TryReserveErrorKind> for TryReserveError {
    fn from(kind: TryReserveErrorKind) -> (e: Self)
        ensures
            e.kind() == kind,
    {
        Self { kind }
    }
}

impl FromSpecImpl<TryReserveErrorKind> for TryReserveError {
    open spec fn obeys_from_spec() -> bool {
        true
    }

    closed spec fn from_spec(kind: TryReserveErrorKind) -> Self {
        TryReserveError { kind }
    }
}

impl From<LayoutError> for TryReserveErrorKind {
    fn from(e: LayoutError) -> (kind: Self) {
        TryReserveErrorKind::CapacityOverflow
    }
}

impl FromSpecImpl<LayoutError> for TryReserveErrorKind {
    open spec fn obeys_from_spec() -> bool {
        true
    }

    open spec fn from_spec(e: LayoutError) -> Self {
        TryReserveErrorKind::CapacityOverflow
    }
}

} // verus!
