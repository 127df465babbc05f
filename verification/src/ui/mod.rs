pub mod command_palette;
pub mod dag_editor;
pub mod dashboard;
pub mod theme;
