use demand_control::error::CostError;
use demand_control::estimate::{StaticCostCalculator, SubgraphSchema};
use demand_control::plan::{DeferredNode, FetchNode, PlanNode, QueryPlan, SubgraphOperation};
use demand_control::query::{
    Document, Field, Fragment, FragmentSpread, Operation, OperationKind, Selection, SelectionSet,
};
use demand_control::response::{Response, ResponseEntry, ResponseValue};
use demand_control::schema::{FieldDef, Schema, TypeDef, TypeKind};

fn s(x: &str) -> String {
    x.to_string()
}

fn fdef(name: &str, ty: &str, is_list: bool, cost: Option<u64>) -> FieldDef {
    FieldDef {
        name: s(name),
        named_type: s(ty),
        is_list,
        arguments: vec![],
        cost,
        list_size: None,
        requires: None,
    }
}

/// `type Query { ships: [Ship] }`, `type Ship { name: String, owner: User }`,
/// `type User { name: String, tags: [String] @cost(weight: 2) }`
fn ships_schema() -> Schema {
    let types = vec![
        TypeDef {
            name: s("Query"),
            kind: TypeKind::Object,
            fields: vec![fdef("ships", "Ship", true, None), fdef("me", "User", false, None)],
            input_fields: vec![],
        },
        TypeDef {
            name: s("Ship"),
            kind: TypeKind::Object,
            fields: vec![fdef("name", "String", false, None), fdef("owner", "User", false, None)],
            input_fields: vec![],
        },
        TypeDef {
            name: s("User"),
            kind: TypeKind::Object,
            fields: vec![fdef("name", "String", false, None), fdef("tags", "String", true, Some(2))],
            input_fields: vec![],
        },
        TypeDef { name: s("String"), kind: TypeKind::Scalar, fields: vec![], input_fields: vec![] },
    ];
    Schema { types, query_type: Some(s("Query")), mutation_type: None, subscription_type: None }
}

fn set(ty: &str, selections: Vec<Selection>) -> SelectionSet {
    SelectionSet { ty: s(ty), selections }
}

fn node(name: &str, ty: &str, selections: Vec<Selection>) -> Selection {
    Selection::Field(Field {
        name: s(name),
        alias: None,
        arguments: vec![],
        include_if: None,
        skip_if: None,
        selection_set: set(ty, selections),
    })
}

fn leaf(name: &str) -> Selection {
    node(name, "", vec![])
}

fn query(selections: Vec<Selection>) -> Document {
    Document {
        operations: vec![Operation {
            name: None,
            kind: OperationKind::Query,
            selection_set: set("Query", selections),
        }],
        fragments: vec![],
    }
}

/// `{ ships { name owner { name } } }`: 100 ships of 1 with an owner of 1.
fn ships_query() -> Document {
    query(vec![node("ships", "Ship", vec![leaf("name"), node("owner", "User", vec![leaf("name")])])])
}

/// `{ me { name } }`: one user.
fn me_query() -> Document {
    query(vec![node("me", "User", vec![leaf("name")])])
}

fn calculator() -> StaticCostCalculator {
    StaticCostCalculator::new(
        ships_schema(),
        vec![SubgraphSchema { name: s("vehicles"), schema: ships_schema() }],
        100,
    )
}

fn fetch(service: &str, document: Document) -> PlanNode {
    PlanNode::Fetch(FetchNode { service_name: s(service), operation: SubgraphOperation::Parsed(document) })
}

fn planned(root: PlanNode) -> Result<u64, CostError> {
    calculator().planned(&QueryPlan { root })
}

#[test]
fn fetch_is_scored_against_its_subgraph() {
    assert_eq!(planned(fetch("vehicles", ships_query())), Ok(200));
}

#[test]
fn sequence_and_parallel_sum_their_nodes() {
    let nodes = || vec![fetch("vehicles", ships_query()), fetch("vehicles", me_query())];
    assert_eq!(planned(PlanNode::Sequence { nodes: nodes() }), Ok(201));
    assert_eq!(planned(PlanNode::Parallel { nodes: nodes() }), Ok(201));
    assert_eq!(planned(PlanNode::Sequence { nodes: vec![] }), Ok(0));
}

#[test]
fn flatten_is_transparent() {
    assert_eq!(planned(PlanNode::Flatten(Box::new(fetch("vehicles", me_query())))), Ok(1));
}

#[test]
fn condition_takes_the_larger_branch() {
    let both = PlanNode::Condition {
        if_clause: Some(Box::new(fetch("vehicles", me_query()))),
        else_clause: Some(Box::new(fetch("vehicles", ships_query()))),
    };
    assert_eq!(planned(both), Ok(200));
    let only_if = PlanNode::Condition { if_clause: Some(Box::new(fetch("vehicles", me_query()))), else_clause: None };
    assert_eq!(planned(only_if), Ok(1));
    assert_eq!(planned(PlanNode::Condition { if_clause: None, else_clause: None }), Ok(0));
}

#[test]
fn defer_sums_primary_and_deferred_nodes() {
    let defer = PlanNode::Defer {
        primary: Some(Box::new(fetch("vehicles", ships_query()))),
        deferred: vec![
            DeferredNode { node: Some(Box::new(fetch("vehicles", me_query()))) },
            DeferredNode { node: None },
            DeferredNode { node: Some(Box::new(fetch("vehicles", me_query()))) },
        ],
    };
    assert_eq!(planned(defer), Ok(202));
}

#[test]
fn subscription_scores_its_primary_fetch() {
    let subscription = PlanNode::Subscription {
        primary: FetchNode { service_name: s("vehicles"), operation: SubgraphOperation::Parsed(me_query()) },
        rest: Some(Box::new(fetch("vehicles", ships_query()))),
    };
    assert_eq!(planned(subscription), Ok(1));
}

#[test]
fn fetch_from_unknown_subgraph_is_an_error() {
    assert_eq!(planned(fetch("nowhere", me_query())), Err(CostError::UnknownSubgraph));
}

#[test]
fn unparsed_sub_operation_is_an_error() {
    let node = PlanNode::Fetch(FetchNode { service_name: s("vehicles"), operation: SubgraphOperation::Unparsed });
    assert_eq!(planned(node), Err(CostError::SubgraphOperationNotInitialized));
}

fn requiring_schema() -> Schema {
    let mut schema = ships_schema();
    schema.types[0].fields[1].requires = Some(set("Query", vec![node("ships", "Ship", vec![])]));
    schema
}

#[test]
fn plan_does_not_count_requirements() {
    let calculator = StaticCostCalculator::new(
        requiring_schema(),
        vec![SubgraphSchema { name: s("users"), schema: requiring_schema() }],
        100,
    );
    let estimated = calculator.estimated(&me_query(), &calculator.subgraph_schemas[0].schema, true);
    let planned = calculator.planned(&QueryPlan { root: fetch("users", me_query()) });
    assert_eq!(estimated, Ok(101));
    assert_eq!(planned, Ok(1));
}

fn object(entries: Vec<(&str, ResponseValue)>) -> ResponseValue {
    ResponseValue::Object(entries.into_iter().map(|(k, v)| ResponseEntry { key: s(k), value: v }).collect())
}

fn ship() -> ResponseValue {
    object(vec![
        ("name", ResponseValue::String(s("Boaty"))),
        ("owner", object(vec![("name", ResponseValue::Null)])),
    ])
}

#[test]
fn actual_cost_counts_returned_elements() {
    let response = Response { data: Some(object(vec![("ships", ResponseValue::Array(vec![ship(), ship(), ship()]))])) };
    // 3 ships of 1, each with an owner of 1
    assert_eq!(calculator().actual(&ships_query(), &response), Ok(6));
    let empty = Response { data: Some(object(vec![("ships", ResponseValue::Array(vec![]))])) };
    assert_eq!(calculator().actual(&ships_query(), &empty), Ok(0));
}

#[test]
fn actual_cost_of_scalar_list_uses_the_field_weight() {
    let query = query(vec![node("me", "User", vec![leaf("tags")])]);
    let tags = ResponseValue::Array(vec![ResponseValue::Bool(true), ResponseValue::Number, ResponseValue::Null, ResponseValue::Number]);
    let response = Response { data: Some(object(vec![("me", object(vec![("tags", tags)]))])) };
    // me: 1, four tags of weight 2
    assert_eq!(calculator().actual(&query, &response), Ok(9));
}

#[test]
fn actual_cost_skips_missing_keys_and_non_object_data() {
    let response = Response { data: Some(object(vec![])) };
    assert_eq!(calculator().actual(&ships_query(), &response), Ok(0));
    assert_eq!(calculator().actual(&ships_query(), &Response { data: None }), Ok(0));
    assert_eq!(calculator().actual(&ships_query(), &Response { data: Some(ResponseValue::Null) }), Ok(0));
}

#[test]
fn actual_cost_follows_fragments() {
    let mut document = query(vec![Selection::FragmentSpread(FragmentSpread { fragment_name: s("Me") })]);
    document.fragments.push(Fragment { name: s("Me"), selection_set: set("Query", vec![node("me", "User", vec![leaf("name")])]) });
    let response = Response { data: Some(object(vec![("me", object(vec![("name", ResponseValue::Null)]))])) };
    assert_eq!(calculator().actual(&document, &response), Ok(1));
}

#[test]
fn actual_cost_ignores_unresolvable_fields() {
    let query = query(vec![node("unknown", "User", vec![])]);
    let response = Response { data: Some(object(vec![("unknown", object(vec![]))])) };
    // the object still counts its default weight of 1
    assert_eq!(calculator().actual(&query, &response), Ok(1));
}
