//! Remote query stub: the client-side planner decision. A logical plan is
//! either shipped to the scheduler as a deferred distributed query, or —
//! when its entire content is a catalog/table-definition statement —
//! resolved locally into an empty result, since table definitions are a
//! client-local concern. Building the handle is synchronous and does no
//! I/O; only iterating it (done outside this library) performs network
//! calls.

use vstd::prelude::*;

use crate::config::KapotConfig;

verus! {

/// The top-level shape of a client's logical plan, as far as the planner
/// decision reads it: a closed set of variants.
#[derive(Debug, Clone, Copy, PartialEq, Eq, Structural)]
pub enum LogicalStatement {
    /// A catalog/table-definition statement; handled locally.
    CreateExternalTable,
    /// Anything else: a query to run on the distributed engine.
    Query,
}

/// The client-side physical plan the planner hands back: either an empty
/// local result, or a deferred handle that will submit the plan to the
/// named scheduler when first pulled.
#[derive(Debug)]
pub enum ClientPhysicalPlan {
    LocalEmpty,
    DistributedQuery { scheduler_url: String, session_id: String, started: bool },
}

/// Client query planner: sends logical plans to a kapot scheduler.
#[derive(Debug)]
pub struct KapotQueryPlanner {
    pub scheduler_url: String,
    pub config: KapotConfig,
}

impl KapotQueryPlanner {
    /// A planner for the given scheduler endpoint and configuration.
    pub fn new(scheduler_url: String, config: KapotConfig) -> (r: KapotQueryPlanner)
        ensures
            r.scheduler_url == scheduler_url,
            r.config == config,
    {
        KapotQueryPlanner { scheduler_url, config }
    }

    /// The planner decision: a table-definition statement becomes an empty
    /// local result and is never submitted; everything else becomes a
    /// deferred distributed query against this planner's scheduler, not
    /// yet started — building it performs no network call.
    pub fn create_physical_plan(&self, plan: LogicalStatement, session_id: &str) -> (r:
        ClientPhysicalPlan)
        ensures
            plan == LogicalStatement::CreateExternalTable ==> r matches ClientPhysicalPlan::LocalEmpty,
            plan == LogicalStatement::Query ==> (r matches ClientPhysicalPlan::DistributedQuery {
                scheduler_url,
                session_id: sid,
                started,
            } && scheduler_url@ == self.scheduler_url@ && sid@ == session_id@ && !started),
    {
        match plan {
            LogicalStatement::CreateExternalTable => ClientPhysicalPlan::LocalEmpty,
            LogicalStatement::Query => ClientPhysicalPlan::DistributedQuery {
                scheduler_url: self.scheduler_url.clone(),
                session_id: session_id.to_owned(),
                started: false,
            },
        }
    }
}

impl ClientPhysicalPlan {
    /// Mark a deferred query as started: the one point at which iteration
    /// begins and network calls become allowed. A local empty result is
    /// unchanged.
    pub fn start(self) -> (r: ClientPhysicalPlan)
        ensures
            self matches ClientPhysicalPlan::LocalEmpty ==> r matches ClientPhysicalPlan::LocalEmpty,
            self matches ClientPhysicalPlan::DistributedQuery { scheduler_url, session_id, .. }
                ==> (r matches ClientPhysicalPlan::DistributedQuery {
                scheduler_url: u2,
                session_id: s2,
                started,
            } && u2 == scheduler_url && s2 == session_id && started),
    {
        match self {
            ClientPhysicalPlan::LocalEmpty => ClientPhysicalPlan::LocalEmpty,
            ClientPhysicalPlan::DistributedQuery { scheduler_url, session_id, started: _ } => {
                ClientPhysicalPlan::DistributedQuery { scheduler_url, session_id, started: true }
            },
        }
    }
}

} // verus!
