pub mod dag;
pub mod memory;
pub mod scheduler;
pub mod timetravel;
