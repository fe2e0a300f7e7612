//! The actual cost: a walk over a received response, in step with the
//! query's selections, that counts what was really returned.
use vstd::prelude::*;

use crate::arguments::{argument_cost, score_argument};
use crate::cost::{add_cost, capped, lemma_capped_add_left};
use crate::error::{weight, weight_or};
use crate::estimate::StaticCostCalculator;
use crate::lookup::{first_index, lemma_first_index, lemma_first_index_at, lemma_first_index_none};
use crate::query::{
    find_fragment, fragment_names, spec_response_key, Argument, Document, Field, Selection,
    SelectionSet,
};
use crate::schema::{find_input_value, spec_input_value, spec_type_field, InputValueDef, Schema};

verus! {

broadcast use {
    vstd::std_specs::vec::group_vec_axioms,
    vstd::seq::group_seq_axioms,
    crate::lookup::lemma_first_index_bound,
};

/// A response value. Only its shape plays a part in cost.
pub enum ResponseValue {
    Null,
    Bool(bool),
    Number,
    String(String),
    Array(Vec<ResponseValue>),
    Object(Vec<ResponseEntry>),
}

pub struct ResponseEntry {
    pub key: String,
    pub value: ResponseValue,
}

pub struct Response {
    pub data: Option<ResponseValue>,
}

pub open spec fn entry_keys(entries: Seq<ResponseEntry>) -> Seq<Seq<char>> {
    entries.map_values(|e: ResponseEntry| e.key@)
}

/// The weight of the cost directive on field `field` of type `parent`, if any.
pub open spec fn field_weight(schema: Schema, parent: Seq<char>, field: Field) -> Option<u64> {
    match spec_type_field(schema, parent, field.name@) {
        Some(d) => d.cost,
        None => None,
    }
}

/// The summed cost of a field's arguments, where each one that cannot be
/// resolved or scored counts 0.
pub open spec fn args_actual(schema: Schema, args: Seq<Argument>, defs: Seq<InputValueDef>) -> nat
    decreases args.len(),
{
    if args.len() == 0 {
        0
    } else {
        (match spec_input_value(defs, args[0].name@) {
            None => 0,
            Some(d) => match argument_cost(schema, args[0].value, d) {
                Ok(x) => x,
                Err(_) => 0,
            },
        }) + args_actual(schema, args.drop_first(), defs)
    }
}

/// The arguments' part of a visited field; 0 when the field has no definition.
pub open spec fn field_args_actual(schema: Schema, parent: Seq<char>, field: Field) -> nat {
    match spec_type_field(schema, parent, field.name@) {
        None => 0,
        Some(d) => args_actual(schema, field.arguments@, d.arguments@),
    }
}

/// The cost of one value returned for a field: the field's weight (default 0)
/// for a leaf; each element in turn for an array; the field's weight (default
/// 1) plus its selections over the object's entries for an object.
pub open spec fn item_actual(
    schema: Schema,
    doc: Document,
    parent: Seq<char>,
    field: Field,
    value: ResponseValue,
) -> nat
    decreases value, 0nat, value,
{
    match value {
        ResponseValue::Array(items) => items_actual(schema, doc, parent, field, items@),
        ResponseValue::Object(children) => weight_or(field_weight(schema, parent, field), 1)
            + sels_actual(
            schema,
            doc,
            field.selection_set.selections@,
            field.selection_set.ty@,
            children@,
            doc.fragments.len() as nat,
        ),
        _ => weight_or(field_weight(schema, parent, field), 0),
    }
}

/// The summed cost of the elements of an array returned for a field.
pub open spec fn items_actual(
    schema: Schema,
    doc: Document,
    parent: Seq<char>,
    field: Field,
    items: Seq<ResponseValue>,
) -> nat
    decreases items, 0nat, items,
{
    if items.len() == 0 {
        0
    } else {
        item_actual(schema, doc, parent, field, items[0]) + items_actual(
            schema,
            doc,
            parent,
            field,
            items.drop_first(),
        )
    }
}

/// The cost of one selection of a set on type `ty` over an object's entries:
/// a field whose key is present costs its value plus its arguments; a
/// fragment costs its selections over the same entries. A field that is
/// missing, or a fragment that cannot be resolved, costs 0.
pub open spec fn sel_actual(
    schema: Schema,
    doc: Document,
    sel: Selection,
    ty: Seq<char>,
    children: Seq<ResponseEntry>,
    fb: nat,
) -> nat
    decreases children, fb, sel,
{
    match sel {
        Selection::Field(f) => match first_index(entry_keys(children), spec_response_key(f)) {
            None => 0,
            Some(i) => item_actual(schema, doc, ty, f, children[i].value) + field_args_actual(
                schema,
                ty,
                f,
            ),
        },
        Selection::FragmentSpread(spread) => match first_index(
            fragment_names(doc.fragments@),
            spread.fragment_name@,
        ) {
            None => 0,
            Some(i) => if fb == 0 {
                0
            } else {
                sels_actual(
                    schema,
                    doc,
                    doc.fragments@[i].selection_set.selections@,
                    doc.fragments@[i].selection_set.ty@,
                    children,
                    (fb - 1) as nat,
                )
            },
        },
        Selection::InlineFragment(inline) => sels_actual(
            schema,
            doc,
            inline.selection_set.selections@,
            inline.selection_set.ty@,
            children,
            fb,
        ),
    }
}

/// The summed cost of a set's selections over an object's entries.
pub open spec fn sels_actual(
    schema: Schema,
    doc: Document,
    sels: Seq<Selection>,
    ty: Seq<char>,
    children: Seq<ResponseEntry>,
    fb: nat,
) -> nat
    decreases children, fb, sels,
{
    if sels.len() == 0 {
        0
    } else {
        sel_actual(schema, doc, sels[0], ty, children, fb) + sels_actual(
            schema,
            doc,
            sels.drop_first(),
            ty,
            children,
            fb,
        )
    }
}

/// The summed cost of operations over the response's top-level entries.
pub open spec fn operations_actual(
    schema: Schema,
    doc: Document,
    ops: Seq<crate::query::Operation>,
    children: Seq<ResponseEntry>,
) -> nat
    decreases ops.len(),
{
    if ops.len() == 0 {
        0
    } else {
        sels_actual(
            schema,
            doc,
            ops[0].selection_set.selections@,
            ops[0].selection_set.ty@,
            children,
            doc.fragments.len() as nat,
        ) + operations_actual(schema, doc, ops.drop_first(), children)
    }
}

/// The actual cost of a response to a document: each of the document's
/// operations walked over the response's data, when that is an object.
pub open spec fn spec_actual(schema: Schema, doc: Document, response: Response) -> nat {
    match response.data {
        Some(ResponseValue::Object(children)) => operations_actual(
            schema,
            doc,
            doc.operations@,
            children@,
        ),
        _ => 0,
    }
}

} // verus!

verus! {

fn find_entry(entries: &Vec<ResponseEntry>, key: &String) -> (r: Option<usize>)
    ensures
        r matches Some(i) ==> first_index(entry_keys(entries@), key@) == Some(i as int),
        r is None ==> first_index(entry_keys(entries@), key@) is None,
{
    let ghost names = entry_keys(entries@);
    let mut i: usize = 0;
    while i < entries.len()
        invariant
            i <= entries.len(),
            names == entry_keys(entries@),
            forall|j: int| 0 <= j < i ==> names[j] != key@,
        decreases entries.len() - i,
    {
        if entries[i].key == *key {
            proof {
                lemma_first_index_at(names, key@, i as int);
            }
            return Some(i);
        }
        i = i + 1;
    }
    proof {
        lemma_first_index_none(names, key@);
    }
    None
}

/// Accumulates the actual cost of a response.
pub struct ResponseCostCalculator<'a> {
    pub cost: u64,
    pub schema: &'a Schema,
}

impl<'a> ResponseCostCalculator<'a> {
    pub fn new(schema: &'a Schema) -> (r: Self)
        ensures
            r.cost == 0,
            r.schema == schema,
    {
        ResponseCostCalculator { cost: 0, schema }
    }

    /// Adds the cost of a field's value and of its arguments.
    pub fn visit_field(
        &mut self,
        request: &Document,
        parent_ty: &String,
        field: &Field,
        value: &ResponseValue,
    )
        ensures
            final(self).schema == old(self).schema,
            final(self).cost == capped(
                (old(self).cost + item_actual(*old(self).schema, *request, parent_ty@, *field, *value)
                    + field_args_actual(*old(self).schema, parent_ty@, *field)) as nat,
            ),
        decreases value, 1nat, value,
    {
        let ghost o = self.cost as nat;
        let ghost schema = *self.schema;
        self.visit_list_item(request, parent_ty, field, value);
        let ghost done: nat = o + item_actual(schema, *request, parent_ty@, *field, *value);
        let definition = match self.schema.type_field(parent_ty, &field.name) {
            Some(d) => d,
            None => {
                return;
            },
        };
        let args = &field.arguments;
        let ghost s = args@;
        let ghost defs = definition.arguments@;
        assert(s.subrange(0, s.len() as int) =~= s);
        let mut i: usize = 0;
        let ghost mut c: nat = done;
        while i < args.len()
            invariant
                i <= args.len(),
                s == args@,
                s == field.arguments@,
                defs == definition.arguments@,
                *self.schema == schema,
                self.schema == old(self).schema,
                schema == *old(self).schema,
                spec_type_field(schema, parent_ty@, field.name@) == Some(*definition),
                done + args_actual(schema, s, defs) == c + args_actual(
                    schema,
                    s.subrange(i as int, s.len() as int),
                    defs,
                ),
                self.cost == capped(c),
                done == o + item_actual(schema, *request, parent_ty@, *field, *value),
                o == old(self).cost,
            decreases args.len() - i,
        {
            let ghost rest = s.subrange(i as int, s.len() as int);
            assert(rest[0] == s[i as int]);
            assert(rest.drop_first() =~= s.subrange(i + 1, s.len() as int));
            match find_input_value(&definition.arguments, &args[i].name) {
                Some(d) => match score_argument(&args[i].value, d, self.schema) {
                    Ok(score) => {
                        proof {
                            lemma_capped_add_left(c, argument_cost(schema, s[i as int].value, *d)->Ok_0);
                            crate::cost::lemma_capped_add(c, argument_cost(schema, s[i as int].value, *d)->Ok_0);
                            c = c + argument_cost(schema, s[i as int].value, *d)->Ok_0;
                        }
                        self.cost = add_cost(self.cost, score);
                    },
                    Err(_) => {},
                },
                None => {},
            }
            i = i + 1;
        }
    }

    /// Adds the cost of one value returned for `field`: an array counts each
    /// of its elements, with the same field and parent type.
    pub fn visit_list_item(
        &mut self,
        request: &Document,
        parent_ty: &String,
        field: &Field,
        value: &ResponseValue,
    )
        ensures
            final(self).schema == old(self).schema,
            final(self).cost == capped(
                (old(self).cost + item_actual(*old(self).schema, *request, parent_ty@, *field, *value)) as nat,
            ),
        decreases value, 0nat, value,
    {
        let ghost o = self.cost as nat;
        let ghost schema = *self.schema;
        let cost_directive = match self.schema.type_field(parent_ty, &field.name) {
            Some(d) => d.cost,
            None => None,
        };
        match value {
            ResponseValue::Array(items) => {
                assert(decreases_to!(*value => items@));
                let ghost s = items@;
                assert(s.subrange(0, s.len() as int) =~= s);
                let ghost mut c: nat = o;
                let mut k: usize = 0;
                while k < items.len()
                    invariant
                        k <= items.len(),
                        s == items@,
                        *value == ResponseValue::Array(*items),
                        decreases_to!(*value => items@),
                        *self.schema == schema,
                        self.schema == old(self).schema,
                        schema == *old(self).schema,
                        o + items_actual(schema, *request, parent_ty@, *field, s) == c + items_actual(
                            schema,
                            *request,
                            parent_ty@,
                            *field,
                            s.subrange(k as int, s.len() as int),
                        ),
                        self.cost == capped(c),
                        o == old(self).cost,
                    decreases items.len() - k,
                {
                    let ghost rest = s.subrange(k as int, s.len() as int);
                    assert(rest[0] == s[k as int]);
                    assert(rest.drop_first() =~= s.subrange(k + 1, s.len() as int));
                    proof {
                        assert(decreases_to!(items@ => items@[k as int]));
                        assert(decreases_to!(*value => items@[k as int]));
                    }
                    self.visit_list_item(request, parent_ty, field, &items[k]);
                    proof {
                        let x = item_actual(schema, *request, parent_ty@, *field, s[k as int]);
                        lemma_capped_add_left(c, x);
                        c = c + x;
                    }
                    k = k + 1;
                }
            },
            ResponseValue::Object(children) => {
                proof {
                    lemma_capped_add_left(o, weight_or(cost_directive, 1));
                }
                self.cost = add_cost(self.cost, weight(cost_directive, 1));
                proof {
                    assert(decreases_to!(*value => children@));
                    lemma_capped_add_left(
                        o + weight_or(cost_directive, 1),
                        sels_actual(
                            schema,
                            *request,
                            field.selection_set.selections@,
                            field.selection_set.ty@,
                            children@,
                            request.fragments.len() as nat,
                        ),
                    );
                }
                self.visit_selections(
                    request,
                    &field.selection_set,
                    children,
                    request.fragments.len(),
                );
            },
            _ => {
                self.cost = add_cost(self.cost, weight(cost_directive, 0));
            },
        }
    }

    /// Adds the cost of a selection set over an object's entries, matching
    /// fields by response key.
    pub fn visit_selections(
        &mut self,
        request: &Document,
        selection_set: &SelectionSet,
        fields: &Vec<ResponseEntry>,
        fb: usize,
    )
        ensures
            final(self).schema == old(self).schema,
            final(self).cost == capped(
                (old(self).cost + sels_actual(
                    *old(self).schema,
                    *request,
                    selection_set.selections@,
                    selection_set.ty@,
                    fields@,
                    fb as nat,
                )) as nat,
            ),
        decreases fields@, fb, selection_set,
    {
        let ghost o = self.cost as nat;
        let ghost schema = *self.schema;
        let sels = &selection_set.selections;
        let ghost s = sels@;
        let ghost ty = selection_set.ty@;
        assert(s.subrange(0, s.len() as int) =~= s);
        let ghost mut c: nat = o;
        let mut i: usize = 0;
        while i < sels.len()
            invariant
                i <= sels.len(),
                s == sels@,
                sels == selection_set.selections,
                ty == selection_set.ty@,
                *self.schema == schema,
                self.schema == old(self).schema,
                schema == *old(self).schema,
                o + sels_actual(schema, *request, s, ty, fields@, fb as nat) == c + sels_actual(
                    schema,
                    *request,
                    s.subrange(i as int, s.len() as int),
                    ty,
                    fields@,
                    fb as nat,
                ),
                self.cost == capped(c),
                o == old(self).cost,
            decreases sels.len() - i,
        {
            let ghost rest = s.subrange(i as int, s.len() as int);
            assert(rest[0] == s[i as int]);
            assert(rest.drop_first() =~= s.subrange(i + 1, s.len() as int));
            let ghost x = sel_actual(schema, *request, s[i as int], ty, fields@, fb as nat);
            proof {
                assert(decreases_to!(*selection_set => selection_set.selections@[i as int]));
            }
            match &sels[i] {
                Selection::Field(f) => {
                    match find_entry(fields, f.response_key()) {
                        Some(j) => {
                            proof {
                                lemma_first_index(entry_keys(fields@), spec_response_key(*f));
                                assert(decreases_to!(fields@ => fields@[j as int].value));
                            }
                            self.visit_field(request, &selection_set.ty, f, &fields[j].value);
                        },
                        None => {},
                    }
                },
                Selection::FragmentSpread(spread) => {
                    match find_fragment(&request.fragments, &spread.fragment_name) {
                        Some(k) => {
                            proof {
                                lemma_first_index(
                                    fragment_names(request.fragments@),
                                    spread.fragment_name@,
                                );
                            }
                            if fb > 0 {
                                self.visit_selections(
                                    request,
                                    &request.fragments[k].selection_set,
                                    fields,
                                    fb - 1,
                                );
                            }
                        },
                        None => {},
                    }
                },
                Selection::InlineFragment(inline) => {
                    self.visit_selections(request, &inline.selection_set, fields, fb);
                },
            }
            proof {
                lemma_capped_add_left(c, x);
                c = c + x;
            }
            i = i + 1;
        }
    }

    /// Adds the cost of a response: each of the document's operations walked
    /// over the response's data, when that is an object.
    pub fn visit(&mut self, request: &Document, response: &Response)
        ensures
            final(self).schema == old(self).schema,
            final(self).cost == capped(
                (old(self).cost + spec_actual(*old(self).schema, *request, *response)) as nat,
            ),
    {
        let children = match &response.data {
            Some(ResponseValue::Object(children)) => children,
            _ => {
                return;
            },
        };
        let ghost o = self.cost as nat;
        let ghost schema = *self.schema;
        let ops = &request.operations;
        let ghost s = ops@;
        assert(s.subrange(0, s.len() as int) =~= s);
        let ghost mut c: nat = o;
        let mut i: usize = 0;
        while i < ops.len()
            invariant
                i <= ops.len(),
                s == ops@,
                s == request.operations@,
                *self.schema == schema,
                self.schema == old(self).schema,
                schema == *old(self).schema,
                o + operations_actual(schema, *request, s, children@) == c + operations_actual(
                    schema,
                    *request,
                    s.subrange(i as int, s.len() as int),
                    children@,
                ),
                self.cost == capped(c),
                o == old(self).cost,
            decreases ops.len() - i,
        {
            let ghost rest = s.subrange(i as int, s.len() as int);
            assert(rest[0] == s[i as int]);
            assert(rest.drop_first() =~= s.subrange(i + 1, s.len() as int));
            let ghost x = sels_actual(
                schema,
                *request,
                s[i as int].selection_set.selections@,
                s[i as int].selection_set.ty@,
                children@,
                request.fragments.len() as nat,
            );
            self.visit_selections(
                request,
                &ops[i].selection_set,
                children,
                request.fragments.len(),
            );
            proof {
                lemma_capped_add_left(c, x);
                c = c + x;
            }
            i = i + 1;
        }
    }
}

impl StaticCostCalculator {
    /// The actual cost of a response to a document, against the supergraph
    /// schema. It never fails: what cannot be resolved counts 0.
    pub fn actual(&self, request: &Document, response: &Response) -> (r: Result<
        u64,
        crate::error::CostError,
    >)
        ensures
            r == Ok::<u64, crate::error::CostError>(
                capped(spec_actual(self.supergraph_schema, *request, *response)),
            ),
    {
        let mut visitor = ResponseCostCalculator::new(&self.supergraph_schema);
        visitor.visit(request, response);
        Ok(visitor.cost)
    }
}

} // verus!
