//! The schema facts that scoring reads: named types, their fields and
//! arguments, and the cost, list-size and requires directives attached to them.
use vstd::prelude::*;

use crate::lookup::{first_index, lemma_first_index_at, lemma_first_index_none};
use crate::query::{ArgValue, OperationKind, SelectionSet};

verus! {

#[derive(PartialEq, Eq, Structural, Clone, Copy)]
pub enum TypeKind {
    Scalar,
    Enum,
    Object,
    Interface,
    Union,
    InputObject,
}

/// An argument definition or an input-object field definition.
pub struct InputValueDef {
    pub name: String,
    /// The named type inside any list or non-null wrapping.
    pub named_type: String,
    pub default_value: Option<ArgValue>,
    /// The weight of the cost directive that applies here, if any.
    pub cost: Option<u64>,
}

/// A list-size directive on a field definition.
pub struct ListSize {
    pub assumed_size: Option<u64>,
    /// Arguments of the field whose integer value gives the size.
    pub slicing_arguments: Vec<String>,
    /// Child fields whose length the size describes (instead of this field's own).
    pub sized_fields: Vec<String>,
    pub require_one_slicing_argument: bool,
}

pub struct FieldDef {
    pub name: String,
    /// The named return type inside any list or non-null wrapping.
    pub named_type: String,
    /// Whether the return type is a list.
    pub is_list: bool,
    pub arguments: Vec<InputValueDef>,
    /// The weight of the cost directive that applies to this field, if any.
    pub cost: Option<u64>,
    pub list_size: Option<ListSize>,
    /// The selection set, on the parent type, that a requires directive names.
    pub requires: Option<SelectionSet>,
}

pub struct TypeDef {
    pub name: String,
    pub kind: TypeKind,
    /// Fields of an object or interface type.
    pub fields: Vec<FieldDef>,
    /// Fields of an input-object type.
    pub input_fields: Vec<InputValueDef>,
}

pub struct Schema {
    pub types: Vec<TypeDef>,
    pub query_type: Option<String>,
    pub mutation_type: Option<String>,
    pub subscription_type: Option<String>,
}

pub open spec fn type_names(types: Seq<TypeDef>) -> Seq<Seq<char>> {
    types.map_values(|t: TypeDef| t.name@)
}

pub open spec fn field_names(fields: Seq<FieldDef>) -> Seq<Seq<char>> {
    fields.map_values(|f: FieldDef| f.name@)
}

pub open spec fn input_value_names(defs: Seq<InputValueDef>) -> Seq<Seq<char>> {
    defs.map_values(|d: InputValueDef| d.name@)
}

/// The type of the given name.
pub open spec fn spec_type(schema: Schema, name: Seq<char>) -> Option<TypeDef> {
    match first_index(type_names(schema.types@), name) {
        Some(i) => Some(schema.types@[i]),
        None => None,
    }
}

/// The field of the given name in a list of field definitions.
pub open spec fn spec_field_in(fields: Seq<FieldDef>, name: Seq<char>) -> Option<FieldDef> {
    match first_index(field_names(fields), name) {
        Some(i) => Some(fields[i]),
        None => None,
    }
}

/// The definition of field `name` on type `parent`.
pub open spec fn spec_type_field(schema: Schema, parent: Seq<char>, name: Seq<char>) -> Option<
    FieldDef,
> {
    match spec_type(schema, parent) {
        Some(t) => spec_field_in(t.fields@, name),
        None => None,
    }
}

/// The argument or input field of the given name.
pub open spec fn spec_input_value(defs: Seq<InputValueDef>, name: Seq<char>) -> Option<
    InputValueDef,
> {
    match first_index(input_value_names(defs), name) {
        Some(i) => Some(defs[i]),
        None => None,
    }
}

/// The root type that the schema gives to operations of a kind.
pub open spec fn spec_root_type(schema: Schema, kind: OperationKind) -> Option<String> {
    match kind {
        OperationKind::Query => schema.query_type,
        OperationKind::Mutation => schema.mutation_type,
        OperationKind::Subscription => schema.subscription_type,
    }
}

/// Whether a type is an object, interface or union.
pub open spec fn is_composite(kind: TypeKind) -> bool {
    kind == TypeKind::Object || kind == TypeKind::Interface || kind == TypeKind::Union
}

pub fn composite(kind: TypeKind) -> (r: bool)
    ensures
        r == is_composite(kind),
{
    match kind {
        TypeKind::Object | TypeKind::Interface | TypeKind::Union => true,
        _ => false,
    }
}

/// The argument or input field of the given name.
pub fn find_input_value<'a>(defs: &'a Vec<InputValueDef>, name: &String) -> (r: Option<
    &'a InputValueDef,
>)
    ensures
        r matches Some(d) ==> spec_input_value(defs@, name@) == Some(*d),
        r is None ==> spec_input_value(defs@, name@) is None,
{
    let ghost names = input_value_names(defs@);
    let mut i: usize = 0;
    while i < defs.len()
        invariant
            i <= defs.len(),
            names == input_value_names(defs@),
            forall|j: int| 0 <= j < i ==> names[j] != name@,
        decreases defs.len() - i,
    {
        if defs[i].name == *name {
            proof {
                lemma_first_index_at(names, name@, i as int);
            }
            return Some(&defs[i]);
        }
        i = i + 1;
    }
    proof {
        lemma_first_index_none(names, name@);
    }
    None
}

/// The field of the given name in a list of field definitions.
pub fn find_field<'a>(fields: &'a Vec<FieldDef>, name: &String) -> (r: Option<&'a FieldDef>)
    ensures
        r matches Some(f) ==> spec_field_in(fields@, name@) == Some(*f),
        r is None ==> spec_field_in(fields@, name@) is None,
{
    let ghost names = field_names(fields@);
    let mut i: usize = 0;
    while i < fields.len()
        invariant
            i <= fields.len(),
            names == field_names(fields@),
            forall|j: int| 0 <= j < i ==> names[j] != name@,
        decreases fields.len() - i,
    {
        if fields[i].name == *name {
            proof {
                lemma_first_index_at(names, name@, i as int);
            }
            return Some(&fields[i]);
        }
        i = i + 1;
    }
    proof {
        lemma_first_index_none(names, name@);
    }
    None
}

impl Schema {
    /// The type of the given name.
    pub fn find_type(&self, name: &String) -> (r: Option<&TypeDef>)
        ensures
            r matches Some(t) ==> spec_type(*self, name@) == Some(*t),
            r is None ==> spec_type(*self, name@) is None,
    {
        let ghost names = type_names(self.types@);
        let mut i: usize = 0;
        while i < self.types.len()
            invariant
                i <= self.types.len(),
                names == type_names(self.types@),
                forall|j: int| 0 <= j < i ==> names[j] != name@,
            decreases self.types.len() - i,
        {
            if self.types[i].name == *name {
                proof {
                    lemma_first_index_at(names, name@, i as int);
                }
                return Some(&self.types[i]);
            }
            i = i + 1;
        }
        proof {
            lemma_first_index_none(names, name@);
        }
        None
    }

    /// The definition of field `name` on type `parent`.
    pub fn type_field(&self, parent: &String, name: &String) -> (r: Option<&FieldDef>)
        ensures
            r matches Some(f) ==> spec_type_field(*self, parent@, name@) == Some(*f),
            r is None ==> spec_type_field(*self, parent@, name@) is None,
    {
        match self.find_type(parent) {
            Some(t) => find_field(&t.fields, name),
            None => None,
        }
    }

    /// The root type that the schema gives to operations of a kind.
    pub fn root_operation(&self, kind: OperationKind) -> (r: Option<&String>)
        ensures
            r matches Some(n) ==> spec_root_type(*self, kind) == Some(*n),
            r is None ==> spec_root_type(*self, kind) is None,
    {
        match kind {
            OperationKind::Query => self.query_type.as_ref(),
            OperationKind::Mutation => self.mutation_type.as_ref(),
            OperationKind::Subscription => self.subscription_type.as_ref(),
        }
    }
}

} // verus!

verus! {

/// How many of `fields` carry a requires directive.
pub open spec fn requires_in_fields(fields: Seq<FieldDef>) -> nat
    decreases fields.len(),
{
    if fields.len() == 0 {
        0
    } else {
        requires_in_fields(fields.drop_last()) + if fields.last().requires is Some {
            1nat
        } else {
            0nat
        }
    }
}

/// How many field definitions of `types` carry a requires directive.
pub open spec fn requires_in_types(types: Seq<TypeDef>) -> nat
    decreases types.len(),
{
    if types.len() == 0 {
        0
    } else {
        requires_in_types(types.drop_last()) + requires_in_fields(types.last().fields@)
    }
}

impl Schema {
    /// How many field definitions carry a requires directive, saturated into `u64`.
    /// Requirements that nest deeper than this repeat a field: they form a cycle.
    pub fn requires_count(&self) -> (r: u64)
        ensures
            r == crate::cost::capped(requires_in_types(self.types@)),
    {
        let mut total: u64 = 0;
        let mut i: usize = 0;
        while i < self.types.len()
            invariant
                i <= self.types.len(),
                total == crate::cost::capped(requires_in_types(self.types@.take(i as int))),
            decreases self.types.len() - i,
        {
            assert(self.types@.take(i + 1).drop_last() =~= self.types@.take(i as int));
            let fields = &self.types[i].fields;
            let mut n: u64 = 0;
            let mut j: usize = 0;
            while j < fields.len()
                invariant
                    j <= fields.len(),
                    n == crate::cost::capped(requires_in_fields(fields@.take(j as int))),
                decreases fields.len() - j,
            {
                assert(fields@.take(j + 1).drop_last() =~= fields@.take(j as int));
                if fields[j].requires.is_some() {
                    proof {
                        crate::cost::lemma_capped_add(requires_in_fields(fields@.take(j as int)), 1);
                    }
                    n = crate::cost::add_cost(n, 1);
                }
                j = j + 1;
            }
            assert(fields@.take(fields.len() as int) =~= fields@);
            proof {
                crate::cost::lemma_capped_add(
                    requires_in_types(self.types@.take(i as int)),
                    requires_in_fields(fields@),
                );
            }
            total = crate::cost::add_cost(total, n);
            i = i + 1;
        }
        assert(self.types@.take(self.types.len() as int) =~= self.types@);
        total
    }
}

} // verus!
