//! The agents of the trading pipeline (scout, validator, executor), what
//! each may do, and how their choices decide an opportunity.

use vstd::prelude::*;

verus! {

/// Agent type in the multi-agent system.
#[derive(Debug, Clone, Copy, PartialEq, Eq, Hash, Structural)]
pub enum AgentType {
    /// Discovers trading opportunities
    Scout,
    /// Validates signals and assesses risk
    Validator,
    /// Executes trades with optimal timing
    Executor,
}

/// Market condition (discretized for Q-learning).
#[derive(Debug, Clone, Copy, PartialEq, Eq, Hash, Structural)]
pub enum MarketCondition {
    BullishHigh,
    BullishLow,
    BearishHigh,
    BearishLow,
    Sideways,
    Volatile,
}

/// Action that an agent can take.
#[derive(Debug, Clone, Copy, PartialEq, Eq, Hash, Structural)]
pub enum AgentAction {
    ScanAggressive,
    ScanConservative,
    ScanBalanced,
    Wait,
    ApproveHigh,
    ApproveLow,
    Reject,
    ExecuteImmediate,
    ExecuteDelayed,
    ExecuteWithLimit,
    Skip,
}

/// An agent's state serialized for on-chain storage.
#[derive(Debug, Clone)]
pub struct OnChainUpdate {
    pub agent_type: AgentType,
    pub data: Vec<u8>,
}

/// The actions open to an agent of each type, in order.
pub open spec fn actions_of(t: AgentType) -> Seq<AgentAction> {
    match t {
        AgentType::Scout => seq![
            AgentAction::ScanAggressive,
            AgentAction::ScanConservative,
            AgentAction::ScanBalanced,
            AgentAction::Wait,
        ],
        AgentType::Validator => seq![AgentAction::ApproveHigh, AgentAction::ApproveLow, AgentAction::Reject],
        AgentType::Executor => seq![
            AgentAction::ExecuteImmediate,
            AgentAction::ExecuteDelayed,
            AgentAction::ExecuteWithLimit,
            AgentAction::Skip,
        ],
    }
}

/// The actions open to an agent of type `t`.
pub fn available_actions(t: AgentType) -> (v: Vec<AgentAction>)
    ensures
        v@ == actions_of(t),
{
    match t {
        AgentType::Scout => vec![
            AgentAction::ScanAggressive,
            AgentAction::ScanConservative,
            AgentAction::ScanBalanced,
            AgentAction::Wait,
        ],
        AgentType::Validator => vec![AgentAction::ApproveHigh, AgentAction::ApproveLow, AgentAction::Reject],
        AgentType::Executor => vec![
            AgentAction::ExecuteImmediate,
            AgentAction::ExecuteDelayed,
            AgentAction::ExecuteWithLimit,
            AgentAction::Skip,
        ],
    }
}

/// Whether the scout's action lets the opportunity go on to the validator.
pub fn scout_proceeds(a: AgentAction) -> (r: bool)
    ensures
        r == (a == AgentAction::ScanAggressive || a == AgentAction::ScanConservative
            || a == AgentAction::ScanBalanced),
{
    match a {
        AgentAction::ScanAggressive | AgentAction::ScanConservative | AgentAction::ScanBalanced => true,
        _ => false,
    }
}

/// Whether the validator's action approves the opportunity.
pub fn validator_approves(a: AgentAction) -> (r: bool)
    ensures
        r == (a == AgentAction::ApproveHigh || a == AgentAction::ApproveLow),
{
    match a {
        AgentAction::ApproveHigh | AgentAction::ApproveLow => true,
        _ => false,
    }
}

/// How the executor's action has the trade carried out. A limit order is
/// placed one percent above the opportunity's price.
#[derive(Debug, Clone, Copy, PartialEq, Eq, Structural)]
pub enum ExecutionPlan {
    Immediate,
    Delayed { delay_ms: u64 },
    WithLimit,
    Skipped,
    InvalidAction,
}

/// The plan for the executor's action `a`.
pub open spec fn plan_of(a: AgentAction) -> ExecutionPlan {
    match a {
        AgentAction::ExecuteImmediate => ExecutionPlan::Immediate,
        AgentAction::ExecuteDelayed => ExecutionPlan::Delayed { delay_ms: 500 },
        AgentAction::ExecuteWithLimit => ExecutionPlan::WithLimit,
        AgentAction::Skip => ExecutionPlan::Skipped,
        _ => ExecutionPlan::InvalidAction,
    }
}

/// The plan for the executor's action `a`: a delayed execution waits 500 ms.
pub fn execution_plan(a: AgentAction) -> (p: ExecutionPlan)
    ensures
        p == plan_of(a),
{
    match a {
        AgentAction::ExecuteImmediate => ExecutionPlan::Immediate,
        AgentAction::ExecuteDelayed => ExecutionPlan::Delayed { delay_ms: 500 },
        AgentAction::ExecuteWithLimit => ExecutionPlan::WithLimit,
        AgentAction::Skip => ExecutionPlan::Skipped,
        _ => ExecutionPlan::InvalidAction,
    }
}

} // verus!
