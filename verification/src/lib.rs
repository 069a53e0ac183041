//! Client-side logic for launching a program inside a container managed by a
//! local engine: HTTP/1.1 framing over a byte buffer, the engine's multiplexed
//! stdout/stderr stream format, request-body construction, and the mount and
//! environment rules that shape a container spec.

pub mod ascii;
pub mod body;
pub mod builder;
pub mod command;
pub mod container;
pub mod engine;
pub mod error;
pub mod frame;
pub mod http;
pub mod json;
pub mod run;
pub mod text;
