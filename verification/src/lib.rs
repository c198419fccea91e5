//! The Inkbox channel: replies to A2A tasks, and realtime voice calls.
//!
//! Every decision of the channel is made here and proved against its contract; requests, sockets
//! and clocks are driven from outside, by what [`reply::ReplyRun`] and [`call::Call`] ask for.
pub mod a2a;
pub mod bridge;
pub mod call;
pub mod clock;
pub mod headers;
pub mod json;
pub mod realtime;
pub mod reply;
pub mod task;
pub mod text;
pub mod url;
