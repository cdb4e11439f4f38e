//! Composable execution strategies that coordinate calls to a text-completion
//! service: chaining, fan-out with voting and guardrails, dependency-graph
//! orchestration, evaluate-and-refine loops, routing and a tool-using agent;
//! and the model of a skills browser with its feeds.
//!
//! Every strategy is written as a state machine: the library decides what to
//! ask the completion service next and what to make of each reply, and the
//! host performs the calls and hands the replies back.

pub mod agent;
pub mod chain;
pub mod completion;
pub mod evaluator;
pub mod fanout;
pub mod feed;
pub mod graph;
pub mod install;
pub mod orchestrator;
pub mod protocol;
pub mod router;
pub mod skill;
pub mod text;
pub mod ui;
