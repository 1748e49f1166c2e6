//! Background sub-agents, surfaces and canvases for a coding agent.
pub mod canvas_document;
pub mod canvas_files;
pub mod canvas_page;
pub mod canvas_registry;
pub mod canvas_shell;
pub mod canvas_tools;
pub mod canvas_view;
pub mod file_paths;
pub mod json;
pub mod surface;
pub mod text;
pub mod tools;
pub mod write_coordinator;
