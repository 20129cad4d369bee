//! Verified core of the Jesus digital-twin agent service.
//!
//! The library holds the decision logic of the twin: the coverage gate, prompt assembly,
//! query stop-word stripping, the turn state machine that orders retrieval, refusal and
//! generation, the mind-map projection, skill authorization and the skill registry, the
//! built-in skills' arguments and answers, reading machine-tagging replies and corpus files,
//! gate-calibration bookkeeping, and the projections of the canonical event stream onto the
//! OpenAI, AG-UI, A2A and MCP wire formats. Everything that awaits, touches the database or
//! the network lives in the application around it.

pub mod gate;
pub mod text;
pub mod stopwords;
pub mod prompt;
pub mod retrieve;
pub mod wire;
pub mod ids;
pub mod event;
pub mod session;
pub mod mindmap;
pub mod inference;
pub mod agent;
pub mod admission;
pub mod orchestrator;
pub mod skills;
pub mod builtins;
pub mod tagging;
pub mod openai;
pub mod agui;
pub mod a2a;
pub mod mcp;
pub mod corpus;
pub mod calibration;
pub mod jsontext;
