//! Prepared queries: a compiled plan, with its rendering when the query asked to be
//! explained, and the interface through which write queries change a graph.
use crate::query::ast::Query;
use crate::query::error::{other, Error, Result};
use crate::query::identifiers::{explain_rest, strip_explain_prefix};
use crate::query::plan::{Plan, PlanView};
use crate::query::planner::{compile_m3_plan, m3_plan, WriteSemantics};
use crate::query::render::{plan_text, render_plan};
use crate::query::value::{Row, Value, ValueView};
use crate::storage::api::{ExternalId, InternalNodeId, LabelId, RelTypeId};
use crate::storage::property::PropertyValue;
use vstd::prelude::*;

verus! {

/// The writes that a graph accepts from a write query.
pub trait WriteableGraph {
    fn create_node(&mut self, external_id: ExternalId, label_id: LabelId) -> Result<InternalNodeId>;

    fn add_node_label(&mut self, node: InternalNodeId, label_id: LabelId) -> Result<()>;

    fn remove_node_label(&mut self, node: InternalNodeId, label_id: LabelId) -> Result<()>;

    fn create_edge(&mut self, src: InternalNodeId, rel: RelTypeId, dst: InternalNodeId) -> Result<()>;

    fn set_node_property(&mut self, node: InternalNodeId, key: String, value: PropertyValue) -> Result<()>;

    fn set_edge_property(
        &mut self,
        src: InternalNodeId,
        rel: RelTypeId,
        dst: InternalNodeId,
        key: String,
        value: PropertyValue,
    ) -> Result<()>;

    fn remove_node_property(&mut self, node: InternalNodeId, key: &str) -> Result<()>;

    fn remove_edge_property(&mut self, src: InternalNodeId, rel: RelTypeId, dst: InternalNodeId, key: &str) -> Result<()>;

    fn tombstone_node(&mut self, node: InternalNodeId) -> Result<()>;

    fn tombstone_edge(&mut self, src: InternalNodeId, rel: RelTypeId, dst: InternalNodeId) -> Result<()>;

    fn get_or_create_label_id(&mut self, name: &str) -> Result<LabelId>;

    fn get_or_create_rel_type_id(&mut self, name: &str) -> Result<RelTypeId>;
}

/// A query compiled once, to be run any number of times.
pub struct PreparedQuery {
    plan: Plan,
    explain: Option<String>,
    write: WriteSemantics,
}

impl PreparedQuery {
    /// The compiled plan.
    pub closed spec fn plan_value(&self) -> Plan {
        self.plan
    }

    /// The view of the compiled plan.
    pub open spec fn plan_view(&self) -> PlanView {
        self.plan_value()@
    }

    /// The rendered plan, for a query that asked to be explained.
    pub closed spec fn explain_view(&self) -> Option<Seq<char>> {
        match self.explain {
            Some(s) => Some(s@),
            None => None,
        }
    }

    /// How the query's writes apply.
    pub closed spec fn write_view(&self) -> WriteSemantics {
        self.write
    }

    /// Whether the query only explains its plan.
    pub fn is_explain(&self) -> (r: bool)
        ensures
            r == self.explain_view() is Some,
    {
        self.explain.is_some()
    }

    /// The rendered plan of a query that asked to be explained.
    pub fn explain_string(&self) -> (r: Option<&str>)
        ensures
            match r {
                Some(s) => self.explain_view() == Some(s@),
                None => self.explain_view() is None,
            },
    {
        match &self.explain {
            Some(s) => Some(s.as_str()),
            None => None,
        }
    }

    /// The compiled plan.
    pub fn plan(&self) -> (r: &Plan)
        ensures
            r@ == self.plan_view(),
    {
        &self.plan
    }

    /// How the query's writes apply.
    pub fn write_semantics(&self) -> (r: WriteSemantics)
        ensures
            r == self.write_view(),
    {
        self.write
    }

    /// What running an explained query yields instead of executing its plan: one row whose
    /// column `plan` holds the rendered plan. `None` for a query that is not explained.
    pub fn explain_row(&self) -> (r: Option<Row>)
        ensures
            match r {
                Some(row) => self.explain_view() matches Some(text) && row@ == seq![
                    ("plan"@, ValueView::String(text)),
                ],
                None => self.explain_view() is None,
            },
    {
        match &self.explain {
            Some(text) => {
                let row = Row::empty().with("plan", Value::String(text.clone()));
                proof {
                    reveal_strlit("plan");
                    assert(row@ =~= seq![("plan"@, ValueView::String(text@))]);
                }
                Some(row)
            },
            None => None,
        }
    }

    /// The error with which an explained query refuses to run as a write query; `None` for a
    /// query that is not explained.
    pub fn write_refusal(&self) -> (r: Option<Error>)
        ensures
            match r {
                Some(e) => self.explain_view() is Some && e@ == other("EXPLAIN cannot be executed as a write query"@),
                None => self.explain_view() is None,
            },
    {
        if self.explain.is_some() {
            Some(Error::other_from("EXPLAIN cannot be executed as a write query"))
        } else {
            None
        }
    }
}

/// The text that is parsed: what follows an `EXPLAIN` keyword, or else the whole input.
pub open spec fn query_text(cypher: Seq<char>) -> Seq<char> {
    match explain_rest(cypher) {
        Some(rest) => rest,
        None => cypher,
    }
}

/// `r` is what preparing gives when parsing gave `parsed`: a parse error is passed on, and
/// a query is compiled (see `m3_plan`); the plan of an explained query is rendered (see
/// `plan_text`).
pub open spec fn prepared_from(r: Result<PreparedQuery>, parsed: Result<Query>, explained: bool) -> bool {
    match parsed {
        Err(e) => r matches Err(x) && x@ == e@,
        Ok(q) => match m3_plan(q) {
            Err(e) => r matches Err(x) && x@ == e,
            Ok((p, w)) => r matches Ok(pq) && pq.plan_view() == p && pq.write_view() == w && if explained {
                pq.explain_view() == Some(plan_text(pq.plan_view()))
            } else {
                pq.explain_view() is None
            },
        },
    }
}

/// Prepares a query: an `EXPLAIN` keyword in front is taken off, and an `EXPLAIN` with
/// nothing after it is refused; the rest is parsed by `parse` and compiled, and the plan
/// of an explained query is rendered (see `render_plan`).
pub fn prepare<P: Fn(&str) -> Result<Query>>(cypher: &str, parse: P) -> (r: Result<PreparedQuery>)
    requires
        forall|s: &str| #[trigger] parse.requires((s,)),
    ensures
        explain_rest(cypher@) == Some(Seq::<char>::empty()) ==> (r matches Err(e) && e@ == other(
            "EXPLAIN requires a query"@,
        )),
        explain_rest(cypher@) != Some(Seq::<char>::empty()) ==> exists|s: &str, parsed: Result<Query>|
            #[trigger] parse.ensures((s,), parsed) && s@ == query_text(cypher@) && prepared_from(
                r,
                parsed,
                explain_rest(cypher@) is Some,
            ),
{
    let target = strip_explain_prefix(cypher);
    let explained = target.is_some();
    let text: &str = match target {
        Some(inner) => {
            if inner.unicode_len() == 0 {
                proof {
                    assert(inner@ =~= Seq::<char>::empty());
                }
                return Err(Error::other_from("EXPLAIN requires a query"));
            }
            inner
        },
        None => cypher,
    };
    let parsed = parse(text);
    let ghost parsed_copy = parsed;
    let r = match parsed {
        Err(e) => Err(e),
        Ok(query) => match compile_m3_plan(query) {
            Err(e) => Err(e),
            Ok(compiled) => {
                let explain = if explained {
                    let rendered = render_plan(&compiled.plan);
                    Some(rendered)
                } else {
                    None
                };
                Ok(PreparedQuery { plan: compiled.plan, explain, write: compiled.write })
            },
        },
    };
    proof {
        assert(parse.ensures((text,), parsed_copy));
        assert(prepared_from(r, parsed_copy, explained));
    }
    r
}

} // verus!
