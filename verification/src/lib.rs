//! A verified core for a channel-watching notifier: parsers for upstream
//! duration codes and description links, the notification item itself, and
//! the decision step of the polling loop.

pub mod duration;
pub mod link;
pub mod poll;
pub mod text;
pub mod video;
