pub mod chat;
pub mod chat_table;
pub mod claude;
pub mod hub;
pub mod message;
pub mod model;
pub mod prompt_hub;
pub mod resume;
pub mod setting;
pub mod websocket;
pub mod work_dir;
