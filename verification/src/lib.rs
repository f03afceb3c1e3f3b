pub mod adt;
pub mod automate;
pub mod callspec;
pub mod channels;
pub mod connectors;
pub mod graph;
pub mod mcp;
pub mod order;
pub mod prompts;
pub mod rank;
pub mod seed;
pub mod tui;
pub mod text;
pub mod tools;
pub mod workflows;
