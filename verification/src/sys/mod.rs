pub mod audit_logger;
pub mod orchestrator;
pub mod policy_engine;
pub mod supervisor;
