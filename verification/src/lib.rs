//! Verified core of a script host: standalone-binary metadata, an in-memory
//! file overlay, task bookkeeping for the script scheduler, and the decisions
//! behind the window and webview bindings.

pub mod builtin;
pub mod connection;
pub mod context;
pub mod event;
pub mod input;
pub mod metadata;
pub mod pixels;
pub mod port;
pub mod regex;
pub mod relay;
pub mod response;
pub mod scheduler;
pub mod script;
pub mod standalone;
pub mod table;
pub mod text;
pub mod url;
pub mod vfs;
pub mod webview;
pub mod window;
