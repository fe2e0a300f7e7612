//! Why a cost could not be computed.
use vstd::prelude::*;

verus! {

#[derive(PartialEq, Eq, Structural, Clone, Copy, Debug)]
pub enum CostError {
    /// A named type is not in the schema.
    UnknownType,
    /// An argument is declared with an object, interface or union type.
    IllegalArgumentType,
    /// An input-object literal holds a field that its type does not define.
    UnknownInputField,
    /// A selected field is not defined on its parent type.
    UnknownField,
    /// A field's argument is not defined on the field.
    UnknownArgument,
    /// A fragment spread names no fragment of the document.
    UnknownFragment,
    /// The schema has no root type for the operation's kind.
    UnsupportedRootType,
    /// A list-size directive asks for exactly one slicing argument and does not get it.
    SlicingArgumentCount,
    /// Fragment spreads nest deeper than the document has fragments: they form a cycle.
    CyclicFragments,
    /// Requires directives nest deeper than the schema has them: they form a cycle.
    CyclicRequirements,
    /// A plan fetches from a subgraph whose schema was not supplied.
    UnknownSubgraph,
    /// A plan's sub-operation was read before it was parsed.
    SubgraphOperationNotInitialized,
}

/// Adds `c` to a cost, keeping an error as it is.
pub open spec fn add_res(c: nat, r: Result<nat, CostError>) -> Result<nat, CostError> {
    match r {
        Ok(x) => Ok(c + x),
        Err(e) => Err(e),
    }
}

/// A cost as the executable code returns it: saturated into `u64`.
pub open spec fn capped_result(r: Result<nat, CostError>) -> Result<u64, CostError> {
    match r {
        Ok(x) => Ok(crate::cost::capped(x)),
        Err(e) => Err(e),
    }
}

/// The weight of an optional cost directive, or a default.
pub open spec fn weight_or(cost: Option<u64>, default: nat) -> nat {
    match cost {
        Some(w) => w as nat,
        None => default,
    }
}

pub fn weight(cost: Option<u64>, default: u64) -> (r: u64)
    ensures
        r == weight_or(cost, default as nat),
{
    match cost {
        Some(w) => w,
        None => default,
    }
}

} // verus!
