//! The static estimate: an upper bound of an operation's cost, computed from
//! the document and the schema's cost annotations alone.
use vstd::prelude::*;

use crate::arguments::{argument_cost, score_argument};
use crate::cost::{add_cost, capped, lemma_capped_add, lemma_capped_mul, mul_cost};
use crate::error::{add_res, capped_result, CostError};
use crate::list_size::{size_of, spec_expected_size, spec_size_of};
use crate::lookup::first_index;
use crate::query::{
    find_fragment, fragment_names, spec_skipped, Argument, Document, Field, FragmentSpread, InlineFragment,
    Operation, OperationKind, Selection, SelectionSet,
};
use crate::schema::{
    composite, find_input_value, is_composite, requires_in_types, spec_input_value,
    spec_root_type, spec_type, spec_type_field, FieldDef, InputValueDef, Schema,
};

verus! {

broadcast use {vstd::std_specs::vec::group_vec_axioms, vstd::seq::group_seq_axioms};

/// The schema of one subgraph of a federated graph.
pub struct SubgraphSchema {
    pub name: String,
    pub schema: Schema,
}

/// Computes estimated, planned and actual costs.
pub struct StaticCostCalculator {
    /// The length assumed for a list whose size nothing else gives.
    pub list_size: u32,
    pub supergraph_schema: Schema,
    pub subgraph_schemas: Vec<SubgraphSchema>,
}

/// The flat surcharge of an operation kind.
pub open spec fn surcharge(kind: OperationKind) -> nat {
    if kind == OperationKind::Mutation {
        10
    } else {
        0
    }
}

/// The summed cost of a field's arguments, each against its definition among `defs`.
pub open spec fn arguments_cost(schema: Schema, args: Seq<Argument>, defs: Seq<InputValueDef>) -> Result<
    nat,
    CostError,
>
    decreases args.len(),
{
    if args.len() == 0 {
        Ok(0)
    } else {
        match spec_input_value(defs, args[0].name@) {
            None => Err(CostError::UnknownArgument),
            Some(d) => match argument_cost(schema, args[0].value, d) {
                Err(e) => Err(e),
                Ok(x) => add_res(x, arguments_cost(schema, args.drop_first(), defs)),
            },
        }
    }
}

/// How many instances of a field a query asks for: 1 for a non-list field;
/// else the size handed down by the parent, else the field's own expected
/// size, else the default list size.
pub open spec fn instance_count(
    def: FieldDef,
    upstream: Option<u64>,
    expected: Option<u64>,
    default_size: nat,
) -> nat {
    if !def.is_list {
        1
    } else {
        match upstream {
            Some(v) => v as nat,
            None => match expected {
                Some(e) => e as nat,
                None => default_size,
            },
        }
    }
}

/// The weight of one instance of a field: its cost directive, else 1 for an
/// object, interface or union, else 0.
pub open spec fn type_weight(def: FieldDef, ty: crate::schema::TypeDef) -> nat {
    match def.cost {
        Some(w) => w as nat,
        None => if is_composite(ty.kind) {
            1
        } else {
            0
        },
    }
}

/// The cost of a selected field on type `parent`.
///
/// `rb` bounds how deep requires directives may nest and `fb` how deep
/// fragment spreads may nest; an acyclic schema and document never reach either bound.
pub open spec fn field_cost(
    default_size: nat,
    schema: Schema,
    doc: Document,
    field: Field,
    parent: Seq<char>,
    req: bool,
    upstream: Option<u64>,
    rb: nat,
    fb: nat,
) -> Result<nat, CostError>
    decreases rb, fb, field,
{
    if spec_skipped(field) {
        Ok(0)
    } else {
        match spec_type_field(schema, parent, field.name@) {
            None => Err(CostError::UnknownField),
            Some(def) => match spec_type(schema, def.named_type@) {
                None => Err(CostError::UnknownType),
                Some(ty) => {
                    let resolved = match def.list_size {
                        Some(dir) => spec_expected_size(dir, def, field),
                        None => Ok(None),
                    };
                    let sized = match def.list_size {
                        Some(dir) => dir.sized_fields@,
                        None => Seq::empty(),
                    };
                    match resolved {
                        Err(e) => Err(e),
                        Ok(expected) => match sels_cost(
                            default_size,
                            schema,
                            doc,
                            field.selection_set.selections@,
                            def.named_type@,
                            req,
                            sized,
                            expected,
                            rb,
                            fb,
                        ) {
                            Err(e) => Err(e),
                            Ok(children) => match arguments_cost(
                                schema,
                                field.arguments@,
                                def.arguments@,
                            ) {
                                Err(e) => Err(e),
                                Ok(a) => {
                                    let count = instance_count(def, upstream, expected, default_size);
                                    let own = count * (type_weight(def, ty) + children) + a;
                                    if !req || def.requires is None {
                                        Ok(own)
                                    } else if rb == 0 {
                                        Err(CostError::CyclicRequirements)
                                    } else {
                                        add_res(
                                            own,
                                            sels_cost(
                                                default_size,
                                                schema,
                                                doc,
                                                def.requires->Some_0.selections@,
                                                parent,
                                                req,
                                                sized,
                                                expected,
                                                (rb - 1) as nat,
                                                doc.fragments.len() as nat,
                                            ),
                                        )
                                    }
                                },
                            },
                        },
                    }
                },
            },
        }
    }
}

/// The cost of one selection on type `parent`; `sized` and `expected` are the
/// enclosing field's list-size resolution.
pub open spec fn sel_cost(
    default_size: nat,
    schema: Schema,
    doc: Document,
    sel: Selection,
    parent: Seq<char>,
    req: bool,
    sized: Seq<String>,
    expected: Option<u64>,
    rb: nat,
    fb: nat,
) -> Result<nat, CostError>
    decreases rb, fb, sel,
{
    match sel {
        Selection::Field(f) => field_cost(
            default_size,
            schema,
            doc,
            f,
            parent,
            req,
            spec_size_of(sized, expected, f),
            rb,
            fb,
        ),
        Selection::FragmentSpread(spread) => match first_index(
            fragment_names(doc.fragments@),
            spread.fragment_name@,
        ) {
            None => Err(CostError::UnknownFragment),
            Some(i) => if fb == 0 {
                Err(CostError::CyclicFragments)
            } else {
                sels_cost(
                    default_size,
                    schema,
                    doc,
                    doc.fragments@[i].selection_set.selections@,
                    parent,
                    req,
                    sized,
                    expected,
                    rb,
                    (fb - 1) as nat,
                )
            },
        },
        Selection::InlineFragment(inline) => sels_cost(
            default_size,
            schema,
            doc,
            inline.selection_set.selections@,
            match inline.type_condition {
                Some(t) => t@,
                None => parent,
            },
            req,
            sized,
            expected,
            rb,
            fb,
        ),
    }
}

/// The summed cost of a sequence of selections on type `parent`.
pub open spec fn sels_cost(
    default_size: nat,
    schema: Schema,
    doc: Document,
    sels: Seq<Selection>,
    parent: Seq<char>,
    req: bool,
    sized: Seq<String>,
    expected: Option<u64>,
    rb: nat,
    fb: nat,
) -> Result<nat, CostError>
    decreases rb, fb, sels,
{
    if sels.len() == 0 {
        Ok(0)
    } else {
        match sel_cost(default_size, schema, doc, sels[0], parent, req, sized, expected, rb, fb) {
            Err(e) => Err(e),
            Ok(x) => add_res(
                x,
                sels_cost(
                    default_size,
                    schema,
                    doc,
                    sels.drop_first(),
                    parent,
                    req,
                    sized,
                    expected,
                    rb,
                    fb,
                ),
            ),
        }
    }
}

} // verus!

verus! {

/// How deep requires directives may nest in a schema before they must repeat a field.
pub open spec fn requires_budget(schema: Schema) -> nat {
    capped(requires_in_types(schema.types@)) as nat
}

/// The cost of an operation: its kind's surcharge plus its selections on the
/// schema's root type for that kind.
pub open spec fn operation_cost(
    default_size: nat,
    schema: Schema,
    doc: Document,
    op: Operation,
    req: bool,
) -> Result<nat, CostError> {
    match spec_root_type(schema, op.kind) {
        None => Err(CostError::UnsupportedRootType),
        Some(root) => add_res(
            surcharge(op.kind),
            sels_cost(
                default_size,
                schema,
                doc,
                op.selection_set.selections@,
                root@,
                req,
                Seq::empty(),
                None,
                requires_budget(schema),
                doc.fragments.len() as nat,
            ),
        ),
    }
}

/// The summed cost of a sequence of operations.
pub open spec fn operations_cost(
    default_size: nat,
    schema: Schema,
    doc: Document,
    ops: Seq<Operation>,
    req: bool,
) -> Result<nat, CostError>
    decreases ops.len(),
{
    if ops.len() == 0 {
        Ok(0)
    } else {
        match operation_cost(default_size, schema, doc, ops[0], req) {
            Err(e) => Err(e),
            Ok(x) => add_res(x, operations_cost(default_size, schema, doc, ops.drop_first(), req)),
        }
    }
}

/// The static estimate of a document: the sum over all of its operations.
pub open spec fn spec_estimated(default_size: nat, doc: Document, schema: Schema, req: bool) -> Result<
    nat,
    CostError,
> {
    operations_cost(default_size, schema, doc, doc.operations@, req)
}

/// Scores a field's arguments against their definitions on the field.
pub fn score_arguments(field: &Field, definition: &FieldDef, schema: &Schema) -> (r: Result<
    u64,
    CostError,
>)
    ensures
        r == capped_result(arguments_cost(*schema, field.arguments@, definition.arguments@)),
{
    let args = &field.arguments;
    let ghost s = args@;
    let ghost defs = definition.arguments@;
    let ghost whole = arguments_cost(*schema, s, defs);
    let mut cost: u64 = 0;
    let ghost mut c: nat = 0;
    assert(s.subrange(0, s.len() as int) =~= s);
    let mut i: usize = 0;
    while i < args.len()
        invariant
            i <= args.len(),
            s == args@,
            defs == definition.arguments@,
            s == field.arguments@,
            whole == arguments_cost(*schema, field.arguments@, definition.arguments@),
            whole == add_res(c, arguments_cost(*schema, s.subrange(i as int, s.len() as int), defs)),
            cost == capped(c),
        decreases args.len() - i,
    {
        let ghost rest = s.subrange(i as int, s.len() as int);
        assert(rest[0] == s[i as int]);
        assert(rest.drop_first() =~= s.subrange(i + 1, s.len() as int));
        let d = match find_input_value(&definition.arguments, &args[i].name) {
            Some(d) => d,
            None => return Err(CostError::UnknownArgument),
        };
        let x = match score_argument(&args[i].value, d, schema) {
            Ok(x) => x,
            Err(e) => return Err(e),
        };
        proof {
            let xe = argument_cost(*schema, s[i as int].value, *d)->Ok_0;
            lemma_capped_add(c, xe);
            c = c + xe;
        }
        cost = add_cost(cost, x);
        i = i + 1;
    }
    Ok(cost)
}

impl StaticCostCalculator {
    pub fn new(supergraph_schema: Schema, subgraph_schemas: Vec<SubgraphSchema>, list_size: u32) -> (r:
        Self)
        ensures
            r.list_size == list_size,
            r.supergraph_schema == supergraph_schema,
            r.subgraph_schemas == subgraph_schemas,
    {
        StaticCostCalculator { list_size, supergraph_schema, subgraph_schemas }
    }

    /// Scores a field on type `parent_type`: instance count times the type
    /// cost (weight plus selections), plus its arguments, plus, when asked,
    /// the selections that its requires directive names, on the same parent.
    /// The last may count data twice when fields require the same thing; as an
    /// upper bound that is acceptable.
    pub fn score_field(
        &self,
        field: &Field,
        parent_type: &String,
        schema: &Schema,
        executable: &Document,
        should_estimate_requires: bool,
        list_size_from_upstream: Option<u64>,
        rb: u64,
        fb: usize,
    ) -> (r: Result<u64, CostError>)
        ensures
            r == capped_result(
                field_cost(
                    self.list_size as nat,
                    *schema,
                    *executable,
                    *field,
                    parent_type@,
                    should_estimate_requires,
                    list_size_from_upstream,
                    rb as nat,
                    fb as nat,
                ),
            ),
        decreases rb, fb, 2nat, field,
    {
        if field.skipped_by_directives() {
            return Ok(0);
        }
        let definition = match schema.type_field(parent_type, &field.name) {
            Some(d) => d,
            None => return Err(CostError::UnknownField),
        };
        let ty = match schema.find_type(&definition.named_type) {
            Some(t) => t,
            None => return Err(CostError::UnknownType),
        };
        let expected = match &definition.list_size {
            Some(dir) => match dir.expected_size(definition, field) {
                Ok(e) => e,
                Err(e) => return Err(e),
            },
            None => None,
        };
        let empty: Vec<String> = Vec::new();
        let sized: &Vec<String> = match &definition.list_size {
            Some(dir) => &dir.sized_fields,
            None => &empty,
        };
        assert(sized@ == match definition.list_size {
            Some(dir) => dir.sized_fields@,
            None => Seq::<String>::empty(),
        });
        let instance_count: u64 = if !definition.is_list {
            1
        } else {
            match list_size_from_upstream {
                Some(v) => v,
                None => match expected {
                    Some(e) => e,
                    None => self.list_size as u64,
                },
            }
        };
        let base: u64 = match definition.cost {
            Some(w) => w,
            None => if composite(ty.kind) {
                1
            } else {
                0
            },
        };
        let children = match self.score_selection_set(
            &field.selection_set,
            &definition.named_type,
            schema,
            executable,
            should_estimate_requires,
            sized,
            expected,
            rb,
            fb,
        ) {
            Ok(c) => c,
            Err(e) => return Err(e),
        };
        let args_cost = match score_arguments(field, definition, schema) {
            Ok(a) => a,
            Err(e) => return Err(e),
        };
        let ghost ch = sels_cost(
            self.list_size as nat,
            *schema,
            *executable,
            field.selection_set.selections@,
            definition.named_type@,
            should_estimate_requires,
            sized@,
            expected,
            rb as nat,
            fb as nat,
        )->Ok_0;
        let ghost a = arguments_cost(*schema, field.arguments@, definition.arguments@)->Ok_0;
        let ghost tc: nat = (base + ch) as nat;
        let ghost prod: nat = (instance_count * tc) as nat;
        let ghost own: nat = prod + a;
        proof {
            lemma_capped_add(base as nat, ch);
            lemma_capped_mul(instance_count as nat, tc);
            lemma_capped_add(prod, a);
        }
        let type_cost = add_cost(base, children);
        let cost = add_cost(mul_cost(instance_count, type_cost), args_cost);
        assert(cost == capped(own));
        if !should_estimate_requires {
            return Ok(cost);
        }
        match &definition.requires {
            None => Ok(cost),
            Some(requirements) => {
                if rb == 0 {
                    return Err(CostError::CyclicRequirements);
                }
                let required = match self.score_selection_set(
                    requirements,
                    parent_type,
                    schema,
                    executable,
                    should_estimate_requires,
                    sized,
                    expected,
                    rb - 1,
                    executable.fragments.len(),
                ) {
                    Ok(c) => c,
                    Err(e) => return Err(e),
                };
                proof {
                    lemma_capped_add(
                        own,
                        sels_cost(
                            self.list_size as nat,
                            *schema,
                            *executable,
                            requirements.selections@,
                            parent_type@,
                            should_estimate_requires,
                            sized@,
                            expected,
                            (rb - 1) as nat,
                            executable.fragments.len() as nat,
                        )->Ok_0,
                    );
                }
                Ok(add_cost(cost, required))
            },
        }
    }

    /// Scores the selections of the fragment that a spread names, on type `parent_type`.
    pub fn score_fragment_spread(
        &self,
        fragment_spread: &FragmentSpread,
        parent_type: &String,
        schema: &Schema,
        executable: &Document,
        should_estimate_requires: bool,
        sized: &Vec<String>,
        expected: Option<u64>,
        rb: u64,
        fb: usize,
    ) -> (r: Result<u64, CostError>)
        ensures
            r == capped_result(
                sel_cost(
                    self.list_size as nat,
                    *schema,
                    *executable,
                    Selection::FragmentSpread(*fragment_spread),
                    parent_type@,
                    should_estimate_requires,
                    sized@,
                    expected,
                    rb as nat,
                    fb as nat,
                ),
            ),
        decreases rb, fb, 1nat, fragment_spread,
    {
        let i = match find_fragment(&executable.fragments, &fragment_spread.fragment_name) {
            Some(i) => i,
            None => return Err(CostError::UnknownFragment),
        };
        proof {
            crate::lookup::lemma_first_index(
                fragment_names(executable.fragments@),
                fragment_spread.fragment_name@,
            );
        }
        if fb == 0 {
            return Err(CostError::CyclicFragments);
        }
        self.score_selection_set(
            &executable.fragments[i].selection_set,
            parent_type,
            schema,
            executable,
            should_estimate_requires,
            sized,
            expected,
            rb,
            fb - 1,
        )
    }

    /// Scores the selections of an inline fragment on type `parent_type`.
    pub fn score_inline_fragment(
        &self,
        inline_fragment: &InlineFragment,
        parent_type: &String,
        schema: &Schema,
        executable: &Document,
        should_estimate_requires: bool,
        sized: &Vec<String>,
        expected: Option<u64>,
        rb: u64,
        fb: usize,
    ) -> (r: Result<u64, CostError>)
        ensures
            r == capped_result(
                sels_cost(
                    self.list_size as nat,
                    *schema,
                    *executable,
                    inline_fragment.selection_set.selections@,
                    parent_type@,
                    should_estimate_requires,
                    sized@,
                    expected,
                    rb as nat,
                    fb as nat,
                ),
            ),
        decreases rb, fb, 2nat, inline_fragment,
    {
        self.score_selection_set(
            &inline_fragment.selection_set,
            parent_type,
            schema,
            executable,
            should_estimate_requires,
            sized,
            expected,
            rb,
            fb,
        )
    }

    /// Scores one selection: a field gets the size that the enclosing
    /// list-size resolution gives it; an inline fragment narrows the parent
    /// type to its type condition.
    pub fn score_selection(
        &self,
        selection: &Selection,
        parent_type: &String,
        schema: &Schema,
        executable: &Document,
        should_estimate_requires: bool,
        sized: &Vec<String>,
        expected: Option<u64>,
        rb: u64,
        fb: usize,
    ) -> (r: Result<u64, CostError>)
        ensures
            r == capped_result(
                sel_cost(
                    self.list_size as nat,
                    *schema,
                    *executable,
                    *selection,
                    parent_type@,
                    should_estimate_requires,
                    sized@,
                    expected,
                    rb as nat,
                    fb as nat,
                ),
            ),
        decreases rb, fb, 2nat, selection,
    {
        match selection {
            Selection::Field(f) => self.score_field(
                f,
                parent_type,
                schema,
                executable,
                should_estimate_requires,
                size_of(sized, expected, f),
                rb,
                fb,
            ),
            Selection::FragmentSpread(s) => self.score_fragment_spread(
                s,
                parent_type,
                schema,
                executable,
                should_estimate_requires,
                sized,
                expected,
                rb,
                fb,
            ),
            Selection::InlineFragment(i) => self.score_inline_fragment(
                i,
                match &i.type_condition {
                    Some(t) => t,
                    None => parent_type,
                },
                schema,
                executable,
                should_estimate_requires,
                sized,
                expected,
                rb,
                fb,
            ),
        }
    }

    /// Scores a selection set on type `parent_type_name`: the sum of its selections.
    pub fn score_selection_set(
        &self,
        selection_set: &SelectionSet,
        parent_type_name: &String,
        schema: &Schema,
        executable: &Document,
        should_estimate_requires: bool,
        sized: &Vec<String>,
        expected: Option<u64>,
        rb: u64,
        fb: usize,
    ) -> (r: Result<u64, CostError>)
        ensures
            r == capped_result(
                sels_cost(
                    self.list_size as nat,
                    *schema,
                    *executable,
                    selection_set.selections@,
                    parent_type_name@,
                    should_estimate_requires,
                    sized@,
                    expected,
                    rb as nat,
                    fb as nat,
                ),
            ),
        decreases rb, fb, 2nat, selection_set,
    {
        let sels = &selection_set.selections;
        let ghost s = sels@;
        let ghost dl = self.list_size as nat;
        let ghost whole = sels_cost(
            dl,
            *schema,
            *executable,
            s,
            parent_type_name@,
            should_estimate_requires,
            sized@,
            expected,
            rb as nat,
            fb as nat,
        );
        let mut cost: u64 = 0;
        let ghost mut c: nat = 0;
        assert(s.subrange(0, s.len() as int) =~= s);
        let mut i: usize = 0;
        while i < sels.len()
            invariant
                i <= sels.len(),
                s == sels@,
                sels == selection_set.selections,
                dl == self.list_size as nat,
                whole == sels_cost(
                    dl,
                    *schema,
                    *executable,
                    selection_set.selections@,
                    parent_type_name@,
                    should_estimate_requires,
                    sized@,
                    expected,
                    rb as nat,
                    fb as nat,
                ),
                whole == add_res(
                    c,
                    sels_cost(
                        dl,
                        *schema,
                        *executable,
                        s.subrange(i as int, s.len() as int),
                        parent_type_name@,
                        should_estimate_requires,
                        sized@,
                        expected,
                        rb as nat,
                        fb as nat,
                    ),
                ),
                cost == capped(c),
            decreases sels.len() - i,
        {
            let ghost rest = s.subrange(i as int, s.len() as int);
            assert(rest[0] == s[i as int]);
            assert(rest.drop_first() =~= s.subrange(i + 1, s.len() as int));
            proof {
                assert(decreases_to!(*selection_set => selection_set.selections@[i as int]));
            }
            let x = match self.score_selection(
                &sels[i],
                parent_type_name,
                schema,
                executable,
                should_estimate_requires,
                sized,
                expected,
                rb,
                fb,
            ) {
                Ok(x) => x,
                Err(e) => return Err(e),
            };
            proof {
                let xe = sel_cost(
                    dl,
                    *schema,
                    *executable,
                    s[i as int],
                    parent_type_name@,
                    should_estimate_requires,
                    sized@,
                    expected,
                    rb as nat,
                    fb as nat,
                )->Ok_0;
                lemma_capped_add(c, xe);
                c = c + xe;
            }
            cost = add_cost(cost, x);
            i = i + 1;
        }
        Ok(cost)
    }

    /// Scores an operation: 10 for a mutation, 0 otherwise, plus its
    /// selections on the schema's root type for its kind.
    pub fn score_operation(
        &self,
        operation: &Operation,
        schema: &Schema,
        executable: &Document,
        should_estimate_requires: bool,
    ) -> (r: Result<u64, CostError>)
        ensures
            r == capped_result(
                operation_cost(
                    self.list_size as nat,
                    *schema,
                    *executable,
                    *operation,
                    should_estimate_requires,
                ),
            ),
    {
        let surcharge: u64 = if operation.kind == OperationKind::Mutation {
            10
        } else {
            0
        };
        let root_type_name = match schema.root_operation(operation.kind) {
            Some(n) => n,
            None => return Err(CostError::UnsupportedRootType),
        };
        let empty: Vec<String> = Vec::new();
        assert(empty@ == Seq::<String>::empty());
        let selections = match self.score_selection_set(
            &operation.selection_set,
            root_type_name,
            schema,
            executable,
            should_estimate_requires,
            &empty,
            None,
            schema.requires_count(),
            executable.fragments.len(),
        ) {
            Ok(c) => c,
            Err(e) => return Err(e),
        };
        proof {
            lemma_capped_add(
                surcharge as nat,
                sels_cost(
                    self.list_size as nat,
                    *schema,
                    *executable,
                    operation.selection_set.selections@,
                    root_type_name@,
                    should_estimate_requires,
                    Seq::empty(),
                    None,
                    requires_budget(*schema),
                    executable.fragments.len() as nat,
                )->Ok_0,
            );
        }
        Ok(add_cost(surcharge, selections))
    }

    /// The static estimate of a document against a schema: the sum over all
    /// of its operations. With `should_estimate_requires`, each field also
    /// counts the selections that its requires directive names.
    pub fn estimated(&self, query: &Document, schema: &Schema, should_estimate_requires: bool) -> (r:
        Result<u64, CostError>)
        ensures
            r == capped_result(
                spec_estimated(self.list_size as nat, *query, *schema, should_estimate_requires),
            ),
    {
        let ops = &query.operations;
        let ghost s = ops@;
        let ghost dl = self.list_size as nat;
        let ghost whole = operations_cost(dl, *schema, *query, s, should_estimate_requires);
        let mut cost: u64 = 0;
        let ghost mut c: nat = 0;
        assert(s.subrange(0, s.len() as int) =~= s);
        let mut i: usize = 0;
        while i < ops.len()
            invariant
                i <= ops.len(),
                s == ops@,
                s == query.operations@,
                dl == self.list_size as nat,
                whole == spec_estimated(dl, *query, *schema, should_estimate_requires),
                whole == add_res(
                    c,
                    operations_cost(
                        dl,
                        *schema,
                        *query,
                        s.subrange(i as int, s.len() as int),
                        should_estimate_requires,
                    ),
                ),
                cost == capped(c),
            decreases ops.len() - i,
        {
            let ghost rest = s.subrange(i as int, s.len() as int);
            assert(rest[0] == s[i as int]);
            assert(rest.drop_first() =~= s.subrange(i + 1, s.len() as int));
            let x = match self.score_operation(&ops[i], schema, query, should_estimate_requires) {
                Ok(x) => x,
                Err(e) => return Err(e),
            };
            proof {
                let xe = operation_cost(dl, *schema, *query, s[i as int], should_estimate_requires)->Ok_0;
                lemma_capped_add(c, xe);
                c = c + xe;
            }
            cost = add_cost(cost, x);
            i = i + 1;
        }
        Ok(cost)
    }
}

} // verus!
