pub mod anthropic;
pub mod can_use_tool;
pub mod message;
pub mod options;
pub mod tool_input;
