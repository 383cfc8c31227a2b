pub mod errors;
pub mod fund_type;
pub mod fund_module;
pub mod fund_transf_module;
pub mod node_config;
pub mod owner_list;
pub mod phase;
pub mod delegation;
pub mod node_activation;
pub mod laws;
