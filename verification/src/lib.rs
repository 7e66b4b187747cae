//! Core of a terminal to-do list manager: an ordered task store with a
//! "hide completed" view filter, wrap-around selection, a three-mode input
//! state machine (browse / editing form / info overlay), and a JSON codec
//! for persistence, all with verified contracts.
pub mod app;
pub mod clock;
pub mod codec;
pub mod input;
pub mod layout;
pub mod task;
pub mod view;
