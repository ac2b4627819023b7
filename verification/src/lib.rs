//! State, text layout and event routing for a terminal chat client.

pub mod app;
pub mod catalog;
pub mod clock;
pub mod composer;
pub mod conversation;
pub mod dispatch;
pub mod layout;
pub mod markup;
pub mod screen;
pub mod scroll;
pub mod text;
