//! Properties that hold of every schema, document, plan and response.
use vstd::prelude::*;

use crate::arguments::{argument_cost, entries_cost, items_cost};
use crate::error::{add_res, weight_or, CostError};
use crate::estimate::{
    field_cost, instance_count, operation_cost, operations_cost, sel_cost, sels_cost,
    spec_estimated, type_weight, requires_budget,
};
use crate::query::{spec_skipped, ArgValue, Document, Field, Operation, OperationKind, Selection};
use crate::schema::{is_composite, spec_root_type, spec_type, spec_type_field, InputValueDef, Schema, TypeKind};

verus! {

/// A field that `@skip(if: true)` or `@include(if: false)` leaves out costs
/// exactly 0: neither its arguments nor its selections count.
pub proof fn lemma_skipped_field_is_free(
    default_size: nat,
    schema: Schema,
    doc: Document,
    field: Field,
    parent: Seq<char>,
    req: bool,
    upstream: Option<u64>,
    rb: nat,
    fb: nat,
)
    requires
        spec_skipped(field),
    ensures
        field_cost(default_size, schema, doc, field, parent, req, upstream, rb, fb) == Ok::<
            nat,
            CostError,
        >(0),
{
}

/// A field of scalar or enum type, with no cost, list-size or requires
/// directive, no arguments and no selections, costs 0.
pub proof fn lemma_plain_scalar_field_is_free(
    default_size: nat,
    schema: Schema,
    doc: Document,
    field: Field,
    parent: Seq<char>,
    req: bool,
    upstream: Option<u64>,
    rb: nat,
    fb: nat,
)
    requires
        spec_type_field(schema, parent, field.name@) is Some,
        ({
            let def = spec_type_field(schema, parent, field.name@)->Some_0;
            &&& def.cost is None
            &&& def.list_size is None
            &&& def.requires is None
            &&& spec_type(schema, def.named_type@) is Some
            &&& !is_composite(spec_type(schema, def.named_type@)->Some_0.kind)
        }),
        field.arguments@.len() == 0,
        field.selection_set.selections@.len() == 0,
    ensures
        field_cost(default_size, schema, doc, field, parent, req, upstream, rb, fb) == Ok::<
            nat,
            CostError,
        >(0),
{
    let def = spec_type_field(schema, parent, field.name@)->Some_0;
    let count = instance_count(def, upstream, None, default_size);
    assert(count * (0nat + 0nat) == 0) by (nonlinear_arith);
}

/// A non-list field of object, interface or union type, with no cost,
/// list-size or requires directive and no arguments, costs 1 plus its selections.
pub proof fn lemma_composite_field_costs_one_plus_subtree(
    default_size: nat,
    schema: Schema,
    doc: Document,
    field: Field,
    parent: Seq<char>,
    req: bool,
    upstream: Option<u64>,
    rb: nat,
    fb: nat,
)
    requires
        !spec_skipped(field),
        spec_type_field(schema, parent, field.name@) is Some,
        ({
            let def = spec_type_field(schema, parent, field.name@)->Some_0;
            &&& def.cost is None
            &&& def.list_size is None
            &&& def.requires is None
            &&& !def.is_list
            &&& spec_type(schema, def.named_type@) is Some
            &&& is_composite(spec_type(schema, def.named_type@)->Some_0.kind)
        }),
        field.arguments@.len() == 0,
    ensures
        field_cost(default_size, schema, doc, field, parent, req, upstream, rb, fb) == add_res(
            1,
            sels_cost(
                default_size,
                schema,
                doc,
                field.selection_set.selections@,
                spec_type_field(schema, parent, field.name@)->Some_0.named_type@,
                req,
                Seq::empty(),
                None,
                rb,
                fb,
            ),
        ),
{
}

/// A list field with neither a size from its parent nor a list-size
/// directive, and no requires directive, costs the default list size times its
/// weight plus its selections, plus its arguments.
pub proof fn lemma_unsized_list_uses_default_size(
    default_size: nat,
    schema: Schema,
    doc: Document,
    field: Field,
    parent: Seq<char>,
    req: bool,
    rb: nat,
    fb: nat,
)
    requires
        !spec_skipped(field),
        spec_type_field(schema, parent, field.name@) is Some,
        ({
            let def = spec_type_field(schema, parent, field.name@)->Some_0;
            &&& def.is_list
            &&& def.list_size is None
            &&& def.requires is None
            &&& spec_type(schema, def.named_type@) is Some
        }),
    ensures
        ({
            let def = spec_type_field(schema, parent, field.name@)->Some_0;
            let ty = spec_type(schema, def.named_type@)->Some_0;
            field_cost(default_size, schema, doc, field, parent, req, None, rb, fb) == match sels_cost(
                default_size,
                schema,
                doc,
                field.selection_set.selections@,
                def.named_type@,
                req,
                Seq::empty(),
                None,
                rb,
                fb,
            ) {
                Err(e) => Err(e),
                Ok(children) => match crate::estimate::arguments_cost(
                    schema,
                    field.arguments@,
                    def.arguments@,
                ) {
                    Err(e) => Err(e),
                    Ok(a) => Ok(default_size * (type_weight(def, ty) + children) + a),
                },
            }
        }),
{
}

/// A mutation costs 10 on top of its selections on the mutation root type,
/// whatever they are; a query or a subscription costs its selections alone.
pub proof fn lemma_operation_surcharge(
    default_size: nat,
    schema: Schema,
    doc: Document,
    op: Operation,
    req: bool,
)
    requires
        spec_root_type(schema, op.kind) is Some,
    ensures
        operation_cost(default_size, schema, doc, op, req) == add_res(
            if op.kind == OperationKind::Mutation {
                10nat
            } else {
                0nat
            },
            sels_cost(
                default_size,
                schema,
                doc,
                op.selection_set.selections@,
                spec_root_type(schema, op.kind)->Some_0@,
                req,
                Seq::empty(),
                None,
                requires_budget(schema),
                doc.fragments.len() as nat,
            ),
        ),
{
}

/// An input-object literal against an input-object argument without a cost
/// directive costs 1 plus the costs of the fields it holds.
pub proof fn lemma_input_object_weight(schema: Schema, entries: Vec<crate::query::Argument>, def: InputValueDef)
    requires
        def.cost is None,
        spec_type(schema, def.named_type@) is Some,
        spec_type(schema, def.named_type@)->Some_0.kind == TypeKind::InputObject,
    ensures
        argument_cost(schema, ArgValue::Object(entries), def) == add_res(
            1,
            entries_cost(schema, entries@, spec_type(schema, def.named_type@)->Some_0.input_fields@),
        ),
{
}

/// A null literal costs 0 whatever cost directive its argument carries,
/// wherever an argument of that type is legal.
pub proof fn lemma_null_argument_is_free(schema: Schema, def: InputValueDef)
    requires
        spec_type(schema, def.named_type@) is Some,
        !is_composite(spec_type(schema, def.named_type@)->Some_0.kind),
    ensures
        argument_cost(schema, ArgValue::Null, def) == Ok::<nat, CostError>(0),
{
}

proof fn lemma_plain_items(schema: Schema, items: Seq<ArgValue>, def: InputValueDef)
    requires
        def.cost is None,
        spec_type(schema, def.named_type@) is Some,
        !is_composite(spec_type(schema, def.named_type@)->Some_0.kind),
        spec_type(schema, def.named_type@)->Some_0.kind != TypeKind::InputObject,
    ensures
        items_cost(schema, items, def) == Ok::<nat, CostError>(0),
    decreases items,
{
    if items.len() > 0 {
        lemma_plain_argument(schema, items[0], def);
        lemma_plain_items(schema, items.drop_first(), def);
    }
}

proof fn lemma_plain_argument(schema: Schema, value: ArgValue, def: InputValueDef)
    requires
        def.cost is None,
        spec_type(schema, def.named_type@) is Some,
        !is_composite(spec_type(schema, def.named_type@)->Some_0.kind),
        spec_type(schema, def.named_type@)->Some_0.kind != TypeKind::InputObject,
    ensures
        argument_cost(schema, value, def) == Ok::<nat, CostError>(0),
    decreases value,
{
    if let ArgValue::List(items) = value {
        lemma_plain_items(schema, items@, def);
    }
}

/// Without cost directives, an argument whose type is not an input object
/// costs the same whatever literal it is given: a literal's value never
/// changes the estimate. (An input-object literal still costs 1 per object.)
pub proof fn lemma_argument_value_is_irrelevant(
    schema: Schema,
    v1: ArgValue,
    v2: ArgValue,
    def: InputValueDef,
)
    requires
        def.cost is None,
        spec_type(schema, def.named_type@) is Some ==> spec_type(
            schema,
            def.named_type@,
        )->Some_0.kind != TypeKind::InputObject,
    ensures
        argument_cost(schema, v1, def) == argument_cost(schema, v2, def),
{
    if spec_type(schema, def.named_type@) is Some && !is_composite(
        spec_type(schema, def.named_type@)->Some_0.kind,
    ) {
        lemma_plain_argument(schema, v1, def);
        lemma_plain_argument(schema, v2, def);
    }
}

} // verus!

verus! {

proof fn lemma_requires_monotone_field(
    default_size: nat,
    schema: Schema,
    doc: Document,
    field: Field,
    parent: Seq<char>,
    upstream: Option<u64>,
    rb: nat,
    fb: nat,
)
    requires
        field_cost(default_size, schema, doc, field, parent, true, upstream, rb, fb) is Ok,
    ensures
        field_cost(default_size, schema, doc, field, parent, false, upstream, rb, fb) is Ok,
        field_cost(default_size, schema, doc, field, parent, false, upstream, rb, fb)->Ok_0
            <= field_cost(default_size, schema, doc, field, parent, true, upstream, rb, fb)->Ok_0,
    decreases rb, fb, field,
{
    if !spec_skipped(field) {
        let def = spec_type_field(schema, parent, field.name@)->Some_0;
        let resolved = match def.list_size {
            Some(dir) => crate::list_size::spec_expected_size(dir, def, field),
            None => Ok(None),
        };
        let sized = match def.list_size {
            Some(dir) => dir.sized_fields@,
            None => Seq::empty(),
        };
        let expected = resolved->Ok_0;
        let sels = field.selection_set.selections@;
        lemma_requires_monotone_sels(
            default_size,
            schema,
            doc,
            sels,
            def.named_type@,
            sized,
            expected,
            rb,
            fb,
        );
        let ct = sels_cost(default_size, schema, doc, sels, def.named_type@, true, sized, expected, rb, fb)->Ok_0;
        let cf = sels_cost(default_size, schema, doc, sels, def.named_type@, false, sized, expected, rb, fb)->Ok_0;
        let ty = spec_type(schema, def.named_type@)->Some_0;
        let count = instance_count(def, upstream, expected, default_size);
        let w = type_weight(def, ty);
        assert(count * (w + cf) <= count * (w + ct)) by (nonlinear_arith)
            requires
                cf <= ct,
        ;
    }
}

proof fn lemma_requires_monotone_sel(
    default_size: nat,
    schema: Schema,
    doc: Document,
    sel: Selection,
    parent: Seq<char>,
    sized: Seq<String>,
    expected: Option<u64>,
    rb: nat,
    fb: nat,
)
    requires
        sel_cost(default_size, schema, doc, sel, parent, true, sized, expected, rb, fb) is Ok,
    ensures
        sel_cost(default_size, schema, doc, sel, parent, false, sized, expected, rb, fb) is Ok,
        sel_cost(default_size, schema, doc, sel, parent, false, sized, expected, rb, fb)->Ok_0
            <= sel_cost(default_size, schema, doc, sel, parent, true, sized, expected, rb, fb)->Ok_0,
    decreases rb, fb, sel,
{
    match sel {
        Selection::Field(f) => {
            lemma_requires_monotone_field(
                default_size,
                schema,
                doc,
                f,
                parent,
                crate::list_size::spec_size_of(sized, expected, f),
                rb,
                fb,
            );
        },
        Selection::FragmentSpread(spread) => {
            match crate::lookup::first_index(
                crate::query::fragment_names(doc.fragments@),
                spread.fragment_name@,
            ) {
                Some(i) => if fb > 0 {
                    lemma_requires_monotone_sels(
                        default_size,
                        schema,
                        doc,
                        doc.fragments@[i].selection_set.selections@,
                        parent,
                        sized,
                        expected,
                        rb,
                        (fb - 1) as nat,
                    );
                },
                None => {},
            }
        },
        Selection::InlineFragment(inline) => {
            lemma_requires_monotone_sels(
                default_size,
                schema,
                doc,
                inline.selection_set.selections@,
                match inline.type_condition {
                    Some(t) => t@,
                    None => parent,
                },
                sized,
                expected,
                rb,
                fb,
            );
        },
    }
}

proof fn lemma_requires_monotone_sels(
    default_size: nat,
    schema: Schema,
    doc: Document,
    sels: Seq<Selection>,
    parent: Seq<char>,
    sized: Seq<String>,
    expected: Option<u64>,
    rb: nat,
    fb: nat,
)
    requires
        sels_cost(default_size, schema, doc, sels, parent, true, sized, expected, rb, fb) is Ok,
    ensures
        sels_cost(default_size, schema, doc, sels, parent, false, sized, expected, rb, fb) is Ok,
        sels_cost(default_size, schema, doc, sels, parent, false, sized, expected, rb, fb)->Ok_0
            <= sels_cost(default_size, schema, doc, sels, parent, true, sized, expected, rb, fb)->Ok_0,
    decreases rb, fb, sels,
{
    if sels.len() > 0 {
        lemma_requires_monotone_sel(
            default_size,
            schema,
            doc,
            sels[0],
            parent,
            sized,
            expected,
            rb,
            fb,
        );
        lemma_requires_monotone_sels(
            default_size,
            schema,
            doc,
            sels.drop_first(),
            parent,
            sized,
            expected,
            rb,
            fb,
        );
    }
}

proof fn lemma_requires_monotone_ops(
    default_size: nat,
    schema: Schema,
    doc: Document,
    ops: Seq<Operation>,
)
    requires
        operations_cost(default_size, schema, doc, ops, true) is Ok,
    ensures
        operations_cost(default_size, schema, doc, ops, false) is Ok,
        operations_cost(default_size, schema, doc, ops, false)->Ok_0 <= operations_cost(
            default_size,
            schema,
            doc,
            ops,
            true,
        )->Ok_0,
    decreases ops.len(),
{
    if ops.len() > 0 {
        let op = ops[0];
        let root = spec_root_type(schema, op.kind)->Some_0;
        lemma_requires_monotone_sels(
            default_size,
            schema,
            doc,
            op.selection_set.selections@,
            root@,
            Seq::empty(),
            None,
            requires_budget(schema),
            doc.fragments.len() as nat,
        );
        lemma_requires_monotone_ops(default_size, schema, doc, ops.drop_first());
    }
}

/// Estimating requirements never lowers an estimate: when the estimate with
/// requirements succeeds, the one without succeeds too and is no larger.
pub proof fn lemma_requirements_only_add(
    default_size: nat,
    doc: Document,
    schema: Schema,
)
    requires
        spec_estimated(default_size, doc, schema, true) is Ok,
    ensures
        spec_estimated(default_size, doc, schema, false) is Ok,
        spec_estimated(default_size, doc, schema, false)->Ok_0 <= spec_estimated(
            default_size,
            doc,
            schema,
            true,
        )->Ok_0,
{
    lemma_requires_monotone_ops(default_size, schema, doc, doc.operations@);
}

/// A plan's fetch is estimated without requirements: the plan already holds
/// the fetches that requirements need, so they are not counted twice.
pub proof fn lemma_fetch_skips_requirements(
    default_size: nat,
    subgraphs: Seq<crate::estimate::SubgraphSchema>,
    fetch: crate::plan::FetchNode,
)
    requires
        crate::lookup::first_index(crate::plan::subgraph_names(subgraphs), fetch.service_name@) is Some,
        fetch.operation is Parsed,
    ensures
        crate::plan::fetch_cost(default_size, subgraphs, fetch) == spec_estimated(
            default_size,
            fetch.operation->Parsed_0,
            subgraphs[crate::lookup::first_index(
                crate::plan::subgraph_names(subgraphs),
                fetch.service_name@,
            )->Some_0].schema,
            false,
        ),
{
}

} // verus!

verus! {

proof fn lemma_leaf_items(
    schema: Schema,
    doc: Document,
    parent: Seq<char>,
    field: Field,
    items: Seq<crate::response::ResponseValue>,
)
    requires
        forall|k: int|
            0 <= k < items.len() ==> !(#[trigger] items[k] is Array) && !(items[k] is Object),
    ensures
        crate::response::items_actual(schema, doc, parent, field, items) == items.len()
            * weight_or(crate::response::field_weight(schema, parent, field), 0),
    decreases items.len(),
{
    let w = weight_or(crate::response::field_weight(schema, parent, field), 0);
    if items.len() > 0 {
        assert(!(items[0] is Array) && !(items[0] is Object));
        assert forall|k: int| 0 <= k < items.drop_first().len() implies !(
        #[trigger] items.drop_first()[k] is Array) && !(items.drop_first()[k] is Object) by {
            assert(items.drop_first()[k] == items[k + 1]);
        }
        lemma_leaf_items(schema, doc, parent, field, items.drop_first());
        assert(crate::response::item_actual(schema, doc, parent, field, items[0]) == w);
        assert(items.len() * w == w + (items.len() - 1) * w) by (nonlinear_arith);
    }
}

/// An array of N scalar values returned for a field costs N times the
/// field's weight (0 without a cost directive): the real length counts, not
/// any estimate of it.
pub proof fn lemma_actual_counts_scalar_elements(
    schema: Schema,
    doc: Document,
    parent: Seq<char>,
    field: Field,
    items: Vec<crate::response::ResponseValue>,
)
    requires
        forall|k: int|
            0 <= k < items@.len() ==> !(#[trigger] items@[k] is Array) && !(items@[k] is Object),
    ensures
        crate::response::item_actual(
            schema,
            doc,
            parent,
            field,
            crate::response::ResponseValue::Array(items),
        ) == items@.len() * weight_or(crate::response::field_weight(schema, parent, field), 0),
{
    lemma_leaf_items(schema, doc, parent, field, items@);
}

proof fn lemma_object_items(
    schema: Schema,
    doc: Document,
    parent: Seq<char>,
    field: Field,
    items: Seq<crate::response::ResponseValue>,
)
    requires
        field.selection_set.selections@.len() == 0,
        forall|k: int| 0 <= k < items.len() ==> #[trigger] items[k] is Object,
    ensures
        crate::response::items_actual(schema, doc, parent, field, items) == items.len()
            * weight_or(crate::response::field_weight(schema, parent, field), 1),
    decreases items.len(),
{
    let w = weight_or(crate::response::field_weight(schema, parent, field), 1);
    if items.len() > 0 {
        assert(items[0] is Object);
        assert forall|k: int| 0 <= k < items.drop_first().len() implies #[trigger] items.drop_first()[k] is Object by {
            assert(items.drop_first()[k] == items[k + 1]);
        }
        lemma_object_items(schema, doc, parent, field, items.drop_first());
        assert(crate::response::item_actual(schema, doc, parent, field, items[0]) == w);
        assert(items.len() * w == w + (items.len() - 1) * w) by (nonlinear_arith);
    }
}

/// An array of N objects returned for a field without selections costs N
/// times the field's weight (1 without a cost directive).
pub proof fn lemma_actual_counts_object_elements(
    schema: Schema,
    doc: Document,
    parent: Seq<char>,
    field: Field,
    items: Vec<crate::response::ResponseValue>,
)
    requires
        field.selection_set.selections@.len() == 0,
        forall|k: int| 0 <= k < items@.len() ==> #[trigger] items@[k] is Object,
    ensures
        crate::response::item_actual(
            schema,
            doc,
            parent,
            field,
            crate::response::ResponseValue::Array(items),
        ) == items@.len() * weight_or(crate::response::field_weight(schema, parent, field), 1),
{
    lemma_object_items(schema, doc, parent, field, items@);
}

} // verus!
