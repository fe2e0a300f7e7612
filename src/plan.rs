//! The plan-based estimate: a walk over a federated query plan whose fetches
//! are scored against their subgraphs' schemas.
use vstd::prelude::*;

use crate::cost::{add_cost, capped, lemma_capped_add, lemma_capped_max, max_nat};
use crate::error::{add_res, capped_result, CostError};
use crate::estimate::{spec_estimated, StaticCostCalculator, SubgraphSchema};
use crate::lookup::{first_index, lemma_first_index, lemma_first_index_at, lemma_first_index_none};
use crate::query::Document;

verus! {

broadcast use {vstd::std_specs::vec::group_vec_axioms, vstd::seq::group_seq_axioms};

/// A subgraph operation, parsed lazily.
pub enum SubgraphOperation {
    /// Not parsed yet.
    Unparsed,
    Parsed(Document),
}

pub struct FetchNode {
    pub service_name: String,
    pub operation: SubgraphOperation,
}

pub struct DeferredNode {
    pub node: Option<Box<PlanNode>>,
}

pub enum PlanNode {
    Sequence { nodes: Vec<PlanNode> },
    Parallel { nodes: Vec<PlanNode> },
    Flatten(Box<PlanNode>),
    Condition { if_clause: Option<Box<PlanNode>>, else_clause: Option<Box<PlanNode>> },
    Defer { primary: Option<Box<PlanNode>>, deferred: Vec<DeferredNode> },
    Fetch(FetchNode),
    Subscription { primary: FetchNode, rest: Option<Box<PlanNode>> },
}

pub struct QueryPlan {
    pub root: PlanNode,
}

pub open spec fn subgraph_names(subgraphs: Seq<SubgraphSchema>) -> Seq<Seq<char>> {
    subgraphs.map_values(|s: SubgraphSchema| s.name@)
}

/// The cost of a fetch: its parsed operation, estimated as a document of its
/// own against its subgraph's schema, without requirements (the plan already
/// fetches them).
pub open spec fn fetch_cost(default_size: nat, subgraphs: Seq<SubgraphSchema>, fetch: FetchNode) -> Result<
    nat,
    CostError,
> {
    match first_index(subgraph_names(subgraphs), fetch.service_name@) {
        None => Err(CostError::UnknownSubgraph),
        Some(i) => match fetch.operation {
            SubgraphOperation::Unparsed => Err(CostError::SubgraphOperationNotInitialized),
            SubgraphOperation::Parsed(doc) => spec_estimated(
                default_size,
                doc,
                subgraphs[i].schema,
                false,
            ),
        },
    }
}

/// The cost of a plan node: sequences, parallel groups and deferrals sum
/// their parts, a flatten is its inner node, a condition is the larger of its
/// branches, fetches and subscriptions are scored as operations.
pub open spec fn node_cost(default_size: nat, subgraphs: Seq<SubgraphSchema>, node: PlanNode) -> Result<
    nat,
    CostError,
>
    decreases node,
{
    match node {
        PlanNode::Sequence { nodes } => nodes_cost(default_size, subgraphs, nodes@),
        PlanNode::Parallel { nodes } => nodes_cost(default_size, subgraphs, nodes@),
        PlanNode::Flatten(inner) => node_cost(default_size, subgraphs, *inner),
        PlanNode::Condition { if_clause, else_clause } => match if_clause {
            None => match else_clause {
                None => Ok(0),
                Some(r) => node_cost(default_size, subgraphs, *r),
            },
            Some(l) => match else_clause {
                None => node_cost(default_size, subgraphs, *l),
                Some(r) => match node_cost(default_size, subgraphs, *l) {
                    Err(e) => Err(e),
                    Ok(a) => match node_cost(default_size, subgraphs, *r) {
                        Err(e) => Err(e),
                        Ok(b) => Ok(max_nat(a, b)),
                    },
                },
            },
        },
        PlanNode::Defer { primary, deferred } => match primary {
            None => deferred_cost(default_size, subgraphs, deferred@),
            Some(p) => match node_cost(default_size, subgraphs, *p) {
                Err(e) => Err(e),
                Ok(a) => add_res(a, deferred_cost(default_size, subgraphs, deferred@)),
            },
        },
        PlanNode::Fetch(fetch) => fetch_cost(default_size, subgraphs, fetch),
        PlanNode::Subscription { primary, rest: _ } => fetch_cost(default_size, subgraphs, primary),
    }
}

/// The summed cost of a sequence of plan nodes.
pub open spec fn nodes_cost(default_size: nat, subgraphs: Seq<SubgraphSchema>, nodes: Seq<PlanNode>) -> Result<
    nat,
    CostError,
>
    decreases nodes,
{
    if nodes.len() == 0 {
        Ok(0)
    } else {
        match node_cost(default_size, subgraphs, nodes[0]) {
            Err(e) => Err(e),
            Ok(x) => add_res(x, nodes_cost(default_size, subgraphs, nodes.drop_first())),
        }
    }
}

/// The summed cost of the deferred nodes that are present.
pub open spec fn deferred_cost(
    default_size: nat,
    subgraphs: Seq<SubgraphSchema>,
    deferred: Seq<DeferredNode>,
) -> Result<nat, CostError>
    decreases deferred,
{
    if deferred.len() == 0 {
        Ok(0)
    } else {
        match deferred[0].node {
            None => deferred_cost(default_size, subgraphs, deferred.drop_first()),
            Some(n) => match node_cost(default_size, subgraphs, *n) {
                Err(e) => Err(e),
                Ok(x) => add_res(x, deferred_cost(default_size, subgraphs, deferred.drop_first())),
            },
        }
    }
}

fn find_subgraph(subgraphs: &Vec<SubgraphSchema>, name: &String) -> (r: Option<usize>)
    ensures
        r matches Some(i) ==> first_index(subgraph_names(subgraphs@), name@) == Some(i as int),
        r is None ==> first_index(subgraph_names(subgraphs@), name@) is None,
{
    let ghost names = subgraph_names(subgraphs@);
    let mut i: usize = 0;
    while i < subgraphs.len()
        invariant
            i <= subgraphs.len(),
            names == subgraph_names(subgraphs@),
            forall|j: int| 0 <= j < i ==> names[j] != name@,
        decreases subgraphs.len() - i,
    {
        if subgraphs[i].name == *name {
            proof {
                lemma_first_index_at(names, name@, i as int);
            }
            return Some(i);
        }
        i = i + 1;
    }
    proof {
        lemma_first_index_none(names, name@);
    }
    None
}

impl StaticCostCalculator {
    /// Scores a plan node.
    pub fn score_plan_node(&self, plan_node: &PlanNode) -> (r: Result<u64, CostError>)
        ensures
            r == capped_result(node_cost(self.list_size as nat, self.subgraph_schemas@, *plan_node)),
        decreases plan_node, 1nat,
    {
        match plan_node {
            PlanNode::Sequence { nodes } => self.summed_score_of_nodes(nodes),
            PlanNode::Parallel { nodes } => self.summed_score_of_nodes(nodes),
            PlanNode::Flatten(inner) => self.score_plan_node(inner),
            PlanNode::Condition { if_clause, else_clause } => self.max_score_of_nodes(
                if_clause,
                else_clause,
            ),
            PlanNode::Defer { primary, deferred } => self.summed_score_of_deferred_nodes(
                primary,
                deferred,
            ),
            PlanNode::Fetch(fetch) => self.estimated_cost_of_operation(
                &fetch.service_name,
                &fetch.operation,
            ),
            PlanNode::Subscription { primary, rest: _ } => self.estimated_cost_of_operation(
                &primary.service_name,
                &primary.operation,
            ),
        }
    }

    /// Scores a fetch's operation against the schema of its subgraph.
    pub fn estimated_cost_of_operation(&self, subgraph: &String, operation: &SubgraphOperation) -> (r:
        Result<u64, CostError>)
        ensures
            r == capped_result(
                fetch_cost(
                    self.list_size as nat,
                    self.subgraph_schemas@,
                    (FetchNode { service_name: *subgraph, operation: *operation }),
                ),
            ),
    {
        let i = match find_subgraph(&self.subgraph_schemas, subgraph) {
            Some(i) => i,
            None => return Err(CostError::UnknownSubgraph),
        };
        proof {
            lemma_first_index(subgraph_names(self.subgraph_schemas@), subgraph@);
        }
        match operation {
            SubgraphOperation::Unparsed => Err(CostError::SubgraphOperationNotInitialized),
            SubgraphOperation::Parsed(doc) => self.estimated(
                doc,
                &self.subgraph_schemas[i].schema,
                false,
            ),
        }
    }

    /// Scores a condition: the larger of its branches, 0 for an absent one.
    pub fn max_score_of_nodes(&self, left: &Option<Box<PlanNode>>, right: &Option<Box<PlanNode>>) -> (r:
        Result<u64, CostError>)
        ensures
            r == capped_result(
                node_cost(
                    self.list_size as nat,
                    self.subgraph_schemas@,
                    (PlanNode::Condition { if_clause: *left, else_clause: *right }),
                ),
            ),
        decreases (PlanNode::Condition { if_clause: *left, else_clause: *right }), 0nat,
    {
        match left {
            None => match right {
                None => Ok(0),
                Some(r) => self.score_plan_node(r),
            },
            Some(l) => match right {
                None => self.score_plan_node(l),
                Some(r) => {
                    let left_score = match self.score_plan_node(l) {
                        Ok(x) => x,
                        Err(e) => return Err(e),
                    };
                    let right_score = match self.score_plan_node(r) {
                        Ok(x) => x,
                        Err(e) => return Err(e),
                    };
                    proof {
                        lemma_capped_max(
                            node_cost(self.list_size as nat, self.subgraph_schemas@, **l)->Ok_0,
                            node_cost(self.list_size as nat, self.subgraph_schemas@, **r)->Ok_0,
                        );
                    }
                    if left_score >= right_score {
                        Ok(left_score)
                    } else {
                        Ok(right_score)
                    }
                },
            },
        }
    }

    /// Scores a deferral: its primary node plus every deferred node.
    pub fn summed_score_of_deferred_nodes(
        &self,
        primary: &Option<Box<PlanNode>>,
        deferred: &Vec<DeferredNode>,
    ) -> (r: Result<u64, CostError>)
        ensures
            r == capped_result(
                node_cost(
                    self.list_size as nat,
                    self.subgraph_schemas@,
                    (PlanNode::Defer { primary: *primary, deferred: *deferred }),
                ),
            ),
        decreases (PlanNode::Defer { primary: *primary, deferred: *deferred }), 0nat,
    {
        let ghost dl = self.list_size as nat;
        let ghost subs = self.subgraph_schemas@;
        let mut score: u64 = 0;
        let ghost mut c: nat = 0;
        match primary {
            Some(node) => {
                score = match self.score_plan_node(node) {
                    Ok(x) => x,
                    Err(e) => return Err(e),
                };
                proof {
                    c = node_cost(dl, subs, **node)->Ok_0;
                }
            },
            None => {},
        }
        let ghost whole = node_cost(dl, subs, PlanNode::Defer { primary: *primary, deferred: *deferred });
        let ghost s = deferred@;
        assert(s.subrange(0, s.len() as int) =~= s);
        let mut i: usize = 0;
        while i < deferred.len()
            invariant
                i <= deferred.len(),
                s == deferred@,
                dl == self.list_size as nat,
                subs == self.subgraph_schemas@,
                whole == node_cost(dl, subs, (PlanNode::Defer { primary: *primary, deferred: *deferred })),
                whole == add_res(c, deferred_cost(dl, subs, s.subrange(i as int, s.len() as int))),
                score == capped(c),
            decreases deferred.len() - i,
        {
            let ghost rest = s.subrange(i as int, s.len() as int);
            assert(rest[0] == s[i as int]);
            assert(rest.drop_first() =~= s.subrange(i + 1, s.len() as int));
            match &deferred[i].node {
                Some(node) => {
                    proof {
                        let ghost d = PlanNode::Defer { primary: *primary, deferred: *deferred };
                        assert(decreases_to!(d => **node));
                    }
                    let x = match self.score_plan_node(node) {
                        Ok(x) => x,
                        Err(e) => return Err(e),
                    };
                    proof {
                        let xe = node_cost(dl, subs, **node)->Ok_0;
                        lemma_capped_add(c, xe);
                        c = c + xe;
                    }
                    score = add_cost(score, x);
                },
                None => {},
            }
            i = i + 1;
        }
        Ok(score)
    }

    /// Scores a sequence or a parallel group: the sum of its nodes.
    pub fn summed_score_of_nodes(&self, nodes: &Vec<PlanNode>) -> (r: Result<u64, CostError>)
        ensures
            r == capped_result(nodes_cost(self.list_size as nat, self.subgraph_schemas@, nodes@)),
        decreases nodes, 0nat,
    {
        let ghost dl = self.list_size as nat;
        let ghost subs = self.subgraph_schemas@;
        let ghost s = nodes@;
        let ghost whole = nodes_cost(dl, subs, s);
        let mut sum: u64 = 0;
        let ghost mut c: nat = 0;
        assert(s.subrange(0, s.len() as int) =~= s);
        let mut i: usize = 0;
        while i < nodes.len()
            invariant
                i <= nodes.len(),
                s == nodes@,
                dl == self.list_size as nat,
                subs == self.subgraph_schemas@,
                whole == nodes_cost(dl, subs, s),
                whole == add_res(c, nodes_cost(dl, subs, s.subrange(i as int, s.len() as int))),
                sum == capped(c),
            decreases nodes.len() - i,
        {
            let ghost rest = s.subrange(i as int, s.len() as int);
            assert(rest[0] == s[i as int]);
            assert(rest.drop_first() =~= s.subrange(i + 1, s.len() as int));
            proof {
                assert(decreases_to!(*nodes => nodes@[i as int]));
            }
            let x = match self.score_plan_node(&nodes[i]) {
                Ok(x) => x,
                Err(e) => return Err(e),
            };
            proof {
                let xe = node_cost(dl, subs, s[i as int])->Ok_0;
                lemma_capped_add(c, xe);
                c = c + xe;
            }
            sum = add_cost(sum, x);
            i = i + 1;
        }
        Ok(sum)
    }

    /// The plan-based estimate of a query plan.
    pub fn planned(&self, query_plan: &QueryPlan) -> (r: Result<u64, CostError>)
        ensures
            r == capped_result(
                node_cost(self.list_size as nat, self.subgraph_schemas@, query_plan.root),
            ),
    {
        self.score_plan_node(&query_plan.root)
    }
}

} // verus!
