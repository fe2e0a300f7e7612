//! The executable document that is scored: operations, selections and
//! argument literals, as a GraphQL parser hands them over.
use vstd::prelude::*;

use crate::lookup::{first_index, lemma_first_index_at, lemma_first_index_none};

verus! {

/// A literal argument value.
pub enum ArgValue {
    Null,
    /// An integer literal.
    Int(i64),
    /// Any other scalar or enum literal (boolean, string, float, enum value, variable).
    Scalar,
    List(Vec<ArgValue>),
    Object(Vec<Argument>),
}

/// A named argument value: an argument of a field, or a field of an input object literal.
pub struct Argument {
    pub name: String,
    pub value: ArgValue,
}

/// A field selected in the query.
pub struct Field {
    pub name: String,
    pub alias: Option<String>,
    pub arguments: Vec<Argument>,
    /// The literal `if` of an `@include` directive on the field.
    pub include_if: Option<bool>,
    /// The literal `if` of a `@skip` directive on the field.
    pub skip_if: Option<bool>,
    pub selection_set: SelectionSet,
}

pub struct InlineFragment {
    pub type_condition: Option<String>,
    pub selection_set: SelectionSet,
}

/// A spread of the named fragment of the document.
pub struct FragmentSpread {
    pub fragment_name: String,
}

pub enum Selection {
    Field(Field),
    FragmentSpread(FragmentSpread),
    InlineFragment(InlineFragment),
}

/// An ordered selection set, with the name of the type it selects from.
pub struct SelectionSet {
    pub ty: String,
    pub selections: Vec<Selection>,
}

#[derive(PartialEq, Eq, Structural, Clone, Copy)]
pub enum OperationKind {
    Query,
    Mutation,
    Subscription,
}

pub struct Operation {
    pub name: Option<String>,
    pub kind: OperationKind,
    pub selection_set: SelectionSet,
}

pub struct Fragment {
    pub name: String,
    pub selection_set: SelectionSet,
}

/// An executable document: its operations (the anonymous one, if any, first)
/// and its fragment definitions.
pub struct Document {
    pub operations: Vec<Operation>,
    pub fragments: Vec<Fragment>,
}

/// Whether a literal `@include(if: false)` or `@skip(if: true)` leaves the field out.
pub open spec fn spec_skipped(field: Field) -> bool {
    field.include_if == Some(false) || field.skip_if == Some(true)
}

/// The name under which the field appears in a response.
pub open spec fn spec_response_key(field: Field) -> Seq<char> {
    match field.alias {
        Some(a) => a@,
        None => field.name@,
    }
}

pub open spec fn fragment_names(fragments: Seq<Fragment>) -> Seq<Seq<char>> {
    fragments.map_values(|f: Fragment| f.name@)
}

impl Field {
    pub fn skipped_by_directives(&self) -> (r: bool)
        ensures
            r == spec_skipped(*self),
    {
        let excluded = match self.include_if {
            Some(b) => !b,
            None => false,
        };
        let skipped = match self.skip_if {
            Some(b) => b,
            None => false,
        };
        excluded || skipped
    }

    pub fn response_key(&self) -> (r: &String)
        ensures
            r@ == spec_response_key(*self),
    {
        match &self.alias {
            Some(a) => a,
            None => &self.name,
        }
    }
}

/// The position of the first fragment of the given name.
pub fn find_fragment(fragments: &Vec<Fragment>, name: &String) -> (r: Option<usize>)
    ensures
        r matches Some(i) ==> first_index(fragment_names(fragments@), name@) == Some(i as int),
        r is None ==> first_index(fragment_names(fragments@), name@) is None,
{
    let ghost names = fragment_names(fragments@);
    let mut i: usize = 0;
    while i < fragments.len()
        invariant
            i <= fragments.len(),
            names == fragment_names(fragments@),
            forall|j: int| 0 <= j < i ==> names[j] != name@,
        decreases fragments.len() - i,
    {
        if fragments[i].name == *name {
            proof {
                lemma_first_index_at(names, name@, i as int);
            }
            return Some(i);
        }
        i = i + 1;
    }
    proof {
        lemma_first_index_none(names, name@);
    }
    None
}

} // verus!
