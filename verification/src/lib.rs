//! Scheduling of mutations for a smart-contract fuzzer: a DQN agent picks an action, the
//! action selects a full mutation code, the code drives the mutator, and the feedback of the
//! stage becomes the agent's reward and adjusts the mutation-operator probabilities.
pub mod action_file;
pub mod decimal;
pub mod dqn;
pub mod evm_input;
pub mod global_info;
pub mod mutator_dqn;
pub mod py_bridge;
