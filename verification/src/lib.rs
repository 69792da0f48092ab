//! The event scheduler of a chat bot, and the small decisions of its other
//! commands.
//!
//! A store holds a queue of reminders, kept in the order in which their
//! times of day come up next. Requests to create, list, delete, subscribe
//! and unsubscribe arrive as signals read out of chat text. The scheduler
//! waits for the soonest event or the next signal, whichever comes first,
//! and decides what is sent and what is saved. Waiting, sending and saving
//! are left to the program around this library, which performs the actions
//! that the decisions return.

#![allow(non_snake_case)]
#![allow(non_camel_case_types)]

pub mod clock;
pub mod command;
pub mod helper;
pub mod invariants;
pub mod media;
pub mod members;
pub mod notify;
pub mod parse;
pub mod predict;
pub mod queue;
pub mod recurrence;
pub mod scheduler;
pub mod shop;
pub mod store;
pub mod text;
