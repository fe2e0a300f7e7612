use demand_control::error::CostError;
use demand_control::estimate::StaticCostCalculator;
use demand_control::query::{
    ArgValue, Argument, Document, Field, Fragment, FragmentSpread, InlineFragment, Operation,
    OperationKind, Selection, SelectionSet,
};
use demand_control::response::{Response, ResponseEntry, ResponseValue};
use demand_control::schema::{FieldDef, InputValueDef, ListSize, Schema, TypeDef, TypeKind};

fn s(x: &str) -> String {
    x.to_string()
}

fn input(name: &str, ty: &str) -> InputValueDef {
    InputValueDef { name: s(name), named_type: s(ty), default_value: None, cost: None }
}

fn fdef(name: &str, ty: &str, is_list: bool, arguments: Vec<InputValueDef>) -> FieldDef {
    FieldDef {
        name: s(name),
        named_type: s(ty),
        is_list,
        arguments,
        cost: None,
        list_size: None,
        requires: None,
    }
}

fn ty(name: &str, kind: TypeKind, fields: Vec<FieldDef>) -> TypeDef {
    TypeDef { name: s(name), kind, fields, input_fields: vec![] }
}

fn input_ty(name: &str, input_fields: Vec<InputValueDef>) -> TypeDef {
    TypeDef { name: s(name), kind: TypeKind::InputObject, fields: vec![], input_fields }
}

fn basic_schema() -> Schema {
    let query = ty(
        "Query",
        TypeKind::Object,
        vec![
            fdef("getScalar", "String", false, vec![input("id", "ID")]),
            fdef("getScalarByObject", "String", false, vec![input("args", "OuterInput")]),
            fdef("getObjectsByObject", "SecondObjectType", true, vec![input("args", "OuterInput")]),
            fdef("someScalarList", "String", true, vec![]),
            fdef("someObject", "FirstObjectType", false, vec![]),
            fdef("someObjects", "FirstObjectType", true, vec![]),
            fdef("someInterface", "MyInterface", false, vec![]),
            fdef("someUnion", "UnionOfObjectTypes", false, vec![]),
        ],
    );
    let mutation = ty("Mutation", TypeKind::Object, vec![fdef("doSomething", "Int", false, vec![])]);
    let first = ty(
        "FirstObjectType",
        TypeKind::Object,
        vec![
            fdef("field1", "Int", false, vec![]),
            fdef("innerList", "SecondObjectType", true, vec![]),
        ],
    );
    let iface = ty("MyInterface", TypeKind::Interface, vec![fdef("field2", "String", false, vec![])]);
    let second = ty(
        "SecondObjectType",
        TypeKind::Object,
        vec![fdef("field1", "Int", false, vec![]), fdef("field2", "String", false, vec![])],
    );
    let union = ty("UnionOfObjectTypes", TypeKind::Union, vec![]);
    let inner = input_ty("InnerInput", vec![input("id", "ID")]);
    let outer = input_ty(
        "OuterInput",
        vec![input("inner", "InnerInput"), input("listOfInner", "InnerInput")],
    );
    let mut types = vec![query, mutation, first, iface, second, union, inner, outer];
    for scalar in ["String", "Int", "ID", "Boolean"] {
        types.push(ty(scalar, TypeKind::Scalar, vec![]));
    }
    Schema {
        types,
        query_type: Some(s("Query")),
        mutation_type: Some(s("Mutation")),
        subscription_type: None,
    }
}

fn set(ty: &str, selections: Vec<Selection>) -> SelectionSet {
    SelectionSet { ty: s(ty), selections }
}

fn field(name: &str, arguments: Vec<Argument>, ty: &str, selections: Vec<Selection>) -> Field {
    Field {
        name: s(name),
        alias: None,
        arguments,
        include_if: None,
        skip_if: None,
        selection_set: set(ty, selections),
    }
}

fn leaf(name: &str) -> Selection {
    Selection::Field(field(name, vec![], "", vec![]))
}

fn node(name: &str, ty: &str, selections: Vec<Selection>) -> Selection {
    Selection::Field(field(name, vec![], ty, selections))
}

fn arg(name: &str, value: ArgValue) -> Argument {
    Argument { name: s(name), value }
}

fn doc(kind: OperationKind, root: &str, selections: Vec<Selection>) -> Document {
    Document {
        operations: vec![Operation { name: None, kind, selection_set: set(root, selections) }],
        fragments: vec![],
    }
}

fn query(selections: Vec<Selection>) -> Document {
    doc(OperationKind::Query, "Query", selections)
}

fn basic_estimated_cost(schema: Schema, query: &Document) -> u64 {
    let calculator = StaticCostCalculator::new(schema, vec![], 100);
    calculator.estimated(query, &calculator.supergraph_schema, true).unwrap()
}

fn basic_actual_cost(schema: Schema, query: &Document, response: &Response) -> u64 {
    StaticCostCalculator::new(schema, vec![], 100).actual(query, response).unwrap()
}

/// `{ inner: { id: "a" }, listOfInner: [{ id: "b" }, { id: "c" }] }`
fn outer_input() -> ArgValue {
    let inner = || ArgValue::Object(vec![arg("id", ArgValue::Scalar)]);
    ArgValue::Object(vec![
        arg("inner", inner()),
        arg("listOfInner", ArgValue::List(vec![inner(), inner()])),
    ])
}

#[test]
fn query_cost() {
    let query = query(vec![Selection::Field(field(
        "getScalar",
        vec![arg("id", ArgValue::Scalar)],
        "String",
        vec![],
    ))]);
    assert_eq!(basic_estimated_cost(basic_schema(), &query), 0)
}

#[test]
fn mutation_cost() {
    let query = doc(OperationKind::Mutation, "Mutation", vec![leaf("doSomething")]);
    assert_eq!(basic_estimated_cost(basic_schema(), &query), 10)
}

#[test]
fn object_cost() {
    let query = query(vec![node("someObject", "FirstObjectType", vec![leaf("field1")])]);
    assert_eq!(basic_estimated_cost(basic_schema(), &query), 1)
}

#[test]
fn interface_cost() {
    let query = query(vec![node("someInterface", "MyInterface", vec![leaf("field2")])]);
    assert_eq!(basic_estimated_cost(basic_schema(), &query), 1)
}

#[test]
fn union_cost() {
    let inline = Selection::InlineFragment(InlineFragment {
        type_condition: Some(s("SecondObjectType")),
        selection_set: set("SecondObjectType", vec![leaf("field1")]),
    });
    let query = query(vec![node("someUnion", "UnionOfObjectTypes", vec![inline])]);
    assert_eq!(basic_estimated_cost(basic_schema(), &query), 1)
}

#[test]
fn list_cost() {
    let query = query(vec![node("someObjects", "FirstObjectType", vec![leaf("field1")])]);
    assert_eq!(basic_estimated_cost(basic_schema(), &query), 100)
}

#[test]
fn scalar_list_cost() {
    let query = query(vec![leaf("someScalarList")]);
    assert_eq!(basic_estimated_cost(basic_schema(), &query), 0)
}

#[test]
fn nested_object_lists() {
    let inner = node("innerList", "SecondObjectType", vec![leaf("field1")]);
    let query = query(vec![node("someObjects", "FirstObjectType", vec![inner])]);
    assert_eq!(basic_estimated_cost(basic_schema(), &query), 10100)
}

#[test]
fn input_object_cost() {
    let query = query(vec![Selection::Field(field(
        "getScalarByObject",
        vec![arg("args", outer_input())],
        "String",
        vec![],
    ))]);
    assert_eq!(basic_estimated_cost(basic_schema(), &query), 4)
}

#[test]
fn input_object_cost_with_returned_objects() {
    let query = query(vec![Selection::Field(field(
        "getObjectsByObject",
        vec![arg("args", outer_input())],
        "SecondObjectType",
        vec![leaf("field1")],
    ))]);
    let object = || {
        ResponseValue::Object(vec![ResponseEntry { key: s("field1"), value: ResponseValue::Number }])
    };
    let response = Response {
        data: Some(ResponseValue::Object(vec![ResponseEntry {
            key: s("getObjectsByObject"),
            value: ResponseValue::Array(vec![object(), object(), object()]),
        }])),
    };

    assert_eq!(basic_estimated_cost(basic_schema(), &query), 104);
    // The cost of the arguments from the query should be included when scoring the response
    assert_eq!(basic_actual_cost(basic_schema(), &query, &response), 7);
}

#[test]
fn skip_directive_excludes_cost() {
    let mut skipped = field("someObject", vec![], "FirstObjectType", vec![leaf("field1")]);
    skipped.skip_if = Some(true);
    let query = query(vec![Selection::Field(skipped)]);
    assert_eq!(basic_estimated_cost(basic_schema(), &query), 0)
}

#[test]
fn include_directive_excludes_cost() {
    let mut excluded = field("someObject", vec![], "FirstObjectType", vec![leaf("field1")]);
    excluded.include_if = Some(false);
    let query = query(vec![Selection::Field(excluded)]);
    assert_eq!(basic_estimated_cost(basic_schema(), &query), 0)
}

fn estimate_with(schema: Schema, query: &Document, list_size: u32, requires: bool) -> Result<u64, CostError> {
    let calculator = StaticCostCalculator::new(schema, vec![], list_size);
    calculator.estimated(query, &calculator.supergraph_schema, requires)
}

#[test]
fn lowering_the_default_list_size_scales_the_estimate() {
    let query = query(vec![node("someObjects", "FirstObjectType", vec![leaf("field1")])]);
    assert_eq!(estimate_with(basic_schema(), &query, 100, true), Ok(100));
    assert_eq!(estimate_with(basic_schema(), &query, 5, true), Ok(5));
    let inner = node("innerList", "SecondObjectType", vec![leaf("field1")]);
    let nested = query_of(vec![node("someObjects", "FirstObjectType", vec![inner])]);
    assert_eq!(estimate_with(basic_schema(), &nested, 5, true), Ok(30));
}

fn query_of(selections: Vec<Selection>) -> Document {
    query(selections)
}

#[test]
fn fragment_spreads_score_the_named_fragment() {
    let spread = Selection::FragmentSpread(FragmentSpread { fragment_name: s("Objects") });
    let mut document = query(vec![spread]);
    document.fragments.push(Fragment {
        name: s("Objects"),
        selection_set: set("Query", vec![node("someObjects", "FirstObjectType", vec![leaf("field1")])]),
    });
    assert_eq!(estimate_with(basic_schema(), &document, 100, true), Ok(100));
}

#[test]
fn missing_fragment_is_an_error() {
    let spread = Selection::FragmentSpread(FragmentSpread { fragment_name: s("Nowhere") });
    assert_eq!(estimate_with(basic_schema(), &query(vec![spread]), 100, true), Err(CostError::UnknownFragment));
}

#[test]
fn cyclic_fragments_are_an_error() {
    let spread = || Selection::FragmentSpread(FragmentSpread { fragment_name: s("Loop") });
    let mut document = query(vec![spread()]);
    document.fragments.push(Fragment { name: s("Loop"), selection_set: set("Query", vec![spread()]) });
    assert_eq!(estimate_with(basic_schema(), &document, 100, true), Err(CostError::CyclicFragments));
}

#[test]
fn inline_fragment_narrows_the_parent_type() {
    let inline = Selection::InlineFragment(InlineFragment {
        type_condition: Some(s("FirstObjectType")),
        selection_set: set("FirstObjectType", vec![node("innerList", "SecondObjectType", vec![])]),
    });
    let query = query(vec![node("someUnion", "UnionOfObjectTypes", vec![inline])]);
    assert_eq!(estimate_with(basic_schema(), &query, 100, true), Ok(101));
}

#[test]
fn unknown_field_is_an_error() {
    assert_eq!(estimate_with(basic_schema(), &query(vec![leaf("nope")]), 100, true), Err(CostError::UnknownField));
}

#[test]
fn unknown_argument_is_an_error() {
    let query = query(vec![Selection::Field(field("getScalar", vec![arg("other", ArgValue::Null)], "String", vec![]))]);
    assert_eq!(estimate_with(basic_schema(), &query, 100, true), Err(CostError::UnknownArgument));
}

#[test]
fn unknown_input_field_is_an_error() {
    let value = ArgValue::Object(vec![arg("unknown", ArgValue::Scalar)]);
    let query = query(vec![Selection::Field(field("getScalarByObject", vec![arg("args", value)], "String", vec![]))]);
    assert_eq!(estimate_with(basic_schema(), &query, 100, true), Err(CostError::UnknownInputField));
}

#[test]
fn object_typed_argument_is_an_error() {
    let mut schema = basic_schema();
    schema.types[0].fields.push(fdef("bad", "String", false, vec![input("o", "FirstObjectType")]));
    let query = query(vec![Selection::Field(field("bad", vec![arg("o", ArgValue::Null)], "String", vec![]))]);
    assert_eq!(estimate_with(schema, &query, 100, true), Err(CostError::IllegalArgumentType));
}

#[test]
fn argument_of_unknown_type_is_an_error() {
    let mut schema = basic_schema();
    schema.types[0].fields.push(fdef("odd", "String", false, vec![input("x", "Missing")]));
    let query = query(vec![Selection::Field(field("odd", vec![arg("x", ArgValue::Scalar)], "String", vec![]))]);
    assert_eq!(estimate_with(schema, &query, 100, true), Err(CostError::UnknownType));
}

#[test]
fn unsupported_root_type_is_an_error() {
    let document = doc(OperationKind::Subscription, "Subscription", vec![leaf("doSomething")]);
    assert_eq!(estimate_with(basic_schema(), &document, 100, true), Err(CostError::UnsupportedRootType));
}

#[test]
fn null_argument_is_free_whatever_its_weight() {
    let mut schema = basic_schema();
    let mut weighted = input("args", "OuterInput");
    weighted.cost = Some(50);
    schema.types[0].fields.push(fdef("weighted", "String", false, vec![weighted]));
    let null_query = query(vec![Selection::Field(field("weighted", vec![arg("args", ArgValue::Null)], "String", vec![]))]);
    assert_eq!(estimate_with(schema, &null_query, 100, true), Ok(0));
}

#[test]
fn list_argument_scores_each_element_against_the_same_type() {
    let mut schema = basic_schema();
    let mut ids = input("ids", "ID");
    ids.cost = Some(3);
    schema.types[0].fields.push(fdef("byIds", "String", false, vec![ids]));
    let list = ArgValue::List(vec![ArgValue::Scalar, ArgValue::Int(7)]);
    let query = query(vec![Selection::Field(field("byIds", vec![arg("ids", list)], "String", vec![]))]);
    assert_eq!(estimate_with(schema, &query, 100, true), Ok(9));
}

#[test]
fn argument_values_do_not_change_a_plain_estimate() {
    let with = |value: ArgValue| {
        query(vec![Selection::Field(field("getScalar", vec![arg("id", value)], "String", vec![]))])
    };
    let a = estimate_with(basic_schema(), &with(ArgValue::Int(1)), 100, true);
    let b = estimate_with(basic_schema(), &with(ArgValue::List(vec![])), 100, true);
    let c = estimate_with(basic_schema(), &with(ArgValue::Null), 100, true);
    assert_eq!(a, Ok(0));
    assert_eq!(a, b);
    assert_eq!(a, c);
}

fn custom_schema() -> Schema {
    let mut schema = basic_schema();
    let mut first = input("first", "Int");
    first.default_value = Some(ArgValue::Int(5));
    let mut paged = fdef("paged", "FirstObjectType", true, vec![first, input("last", "Int")]);
    paged.cost = Some(2);
    paged.list_size = Some(ListSize {
        assumed_size: Some(20),
        slicing_arguments: vec![s("first"), s("last")],
        sized_fields: vec![],
        require_one_slicing_argument: false,
    });
    let mut assumed = fdef("assumed", "FirstObjectType", true, vec![]);
    assumed.list_size = Some(ListSize {
        assumed_size: Some(7),
        slicing_arguments: vec![],
        sized_fields: vec![],
        require_one_slicing_argument: true,
    });
    let mut strict = fdef("strict", "FirstObjectType", true, vec![input("first", "Int"), input("last", "Int")]);
    strict.list_size = Some(ListSize {
        assumed_size: None,
        slicing_arguments: vec![s("first"), s("last")],
        sized_fields: vec![],
        require_one_slicing_argument: true,
    });
    let mut connection = fdef("connection", "Connection", false, vec![input("first", "Int")]);
    connection.list_size = Some(ListSize {
        assumed_size: None,
        slicing_arguments: vec![s("first")],
        sized_fields: vec![s("edges")],
        require_one_slicing_argument: true,
    });
    schema.types[0].fields.extend(vec![paged, assumed, strict, connection]);
    schema.types.push(ty(
        "Connection",
        TypeKind::Object,
        vec![fdef("edges", "FirstObjectType", true, vec![]), fdef("total", "Int", false, vec![])],
    ));
    schema
}

#[test]
fn list_size_assumed_size_replaces_the_default() {
    let query = query(vec![node("assumed", "FirstObjectType", vec![leaf("field1")])]);
    assert_eq!(estimate_with(custom_schema(), &query, 100, true), Ok(7));
}

#[test]
fn slicing_argument_default_gives_the_size() {
    let query = query(vec![node("paged", "FirstObjectType", vec![leaf("field1")])]);
    assert_eq!(estimate_with(custom_schema(), &query, 100, true), Ok(10));
}

#[test]
fn largest_slicing_argument_gives_the_size() {
    let paged = field("paged", vec![arg("first", ArgValue::Int(3)), arg("last", ArgValue::Int(12))], "FirstObjectType", vec![]);
    let query = query(vec![Selection::Field(paged)]);
    assert_eq!(estimate_with(custom_schema(), &query, 100, true), Ok(24));
}

#[test]
fn exactly_one_slicing_argument_is_required() {
    let none = query(vec![node("strict", "FirstObjectType", vec![])]);
    assert_eq!(estimate_with(custom_schema(), &none, 100, true), Err(CostError::SlicingArgumentCount));
    let both = field("strict", vec![arg("first", ArgValue::Int(1)), arg("last", ArgValue::Int(2))], "FirstObjectType", vec![]);
    assert_eq!(estimate_with(custom_schema(), &query_of(vec![Selection::Field(both)]), 100, true), Err(CostError::SlicingArgumentCount));
    let one = field("strict", vec![arg("last", ArgValue::Int(4))], "FirstObjectType", vec![]);
    assert_eq!(estimate_with(custom_schema(), &query_of(vec![Selection::Field(one)]), 100, true), Ok(4));
}

#[test]
fn sized_fields_take_the_parent_size() {
    let edges = node("edges", "FirstObjectType", vec![leaf("field1")]);
    let connection = field("connection", vec![arg("first", ArgValue::Int(10))], "Connection", vec![edges, leaf("total")]);
    let query = query(vec![Selection::Field(connection)]);
    // connection: 1 + edges: 10 instances of 1
    assert_eq!(estimate_with(custom_schema(), &query, 100, true), Ok(11));
}

fn requires_schema() -> Schema {
    let mut schema = basic_schema();
    let mut fee = fdef("fee", "Int", false, vec![]);
    fee.cost = Some(1);
    fee.requires = Some(set("Query", vec![node("someObjects", "FirstObjectType", vec![leaf("field1")])]));
    schema.types[0].fields.push(fee);
    schema
}

#[test]
fn requirements_add_to_the_estimate_only_when_asked() {
    let query = query(vec![leaf("fee")]);
    assert_eq!(estimate_with(requires_schema(), &query, 100, false), Ok(1));
    assert_eq!(estimate_with(requires_schema(), &query, 100, true), Ok(101));
}

#[test]
fn cyclic_requirements_are_an_error() {
    let mut schema = basic_schema();
    let mut me = fdef("me", "Int", false, vec![]);
    me.requires = Some(set("Query", vec![leaf("me")]));
    schema.types[0].fields.push(me);
    assert_eq!(estimate_with(schema, &query(vec![leaf("me")]), 100, true), Err(CostError::CyclicRequirements));
}

#[test]
fn all_operations_of_a_document_are_summed() {
    let mut document = doc(OperationKind::Mutation, "Mutation", vec![leaf("doSomething")]);
    document.operations.push(Operation {
        name: Some(s("Named")),
        kind: OperationKind::Query,
        selection_set: set("Query", vec![node("someObject", "FirstObjectType", vec![])]),
    });
    assert_eq!(estimate_with(basic_schema(), &document, 100, true), Ok(11));
}

#[test]
fn costs_saturate_instead_of_overflowing() {
    let mut schema = basic_schema();
    let mut heavy = fdef("heavy", "FirstObjectType", true, vec![]);
    heavy.cost = Some(u64::MAX / 2);
    heavy.list_size = Some(ListSize { assumed_size: Some(3), slicing_arguments: vec![], sized_fields: vec![], require_one_slicing_argument: false });
    schema.types[0].fields.push(heavy);
    assert_eq!(estimate_with(schema, &query(vec![node("heavy", "FirstObjectType", vec![])]), 100, true), Ok(u64::MAX));
}

#[test]
fn aliased_field_is_matched_by_response_key() {
    let mut aliased = field("someObject", vec![], "FirstObjectType", vec![leaf("field1")]);
    aliased.alias = Some(s("renamed"));
    let query = query(vec![Selection::Field(aliased)]);
    let response = Response {
        data: Some(ResponseValue::Object(vec![ResponseEntry {
            key: s("renamed"),
            value: ResponseValue::Object(vec![ResponseEntry { key: s("field1"), value: ResponseValue::Number }]),
        }])),
    };
    assert_eq!(basic_actual_cost(basic_schema(), &query, &response), 1);
}
