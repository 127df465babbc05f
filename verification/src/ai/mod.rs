pub mod llm;
pub mod planner;
