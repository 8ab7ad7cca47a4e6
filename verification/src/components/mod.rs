//! Components around the trading core: signal provenance, path pruning,
//! agent coordination and the GUI bridge.

pub mod provenance_graph;
pub mod gui_bridge;
pub mod multi_agent_rl;
pub mod price_stream;
pub mod quantum_pruner;
