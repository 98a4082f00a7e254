//! The orchestration core of a browser assistant: a bounded cycle that
//! queries a language model, runs the tool it asks for in the page, and
//! feeds the observation back.
//!
//! The library decides and never waits. Talking to the model, sending
//! events to the page and sleeping between polls are the caller's part;
//! the caller tells the library what happened and is told what to do next.
//!
//! - [`action`]: the grammar of `Action:` lines, and its parser.
//! - [`store`]: the shared store in which the page's answers meet the
//!   requests that wait for them.
//! - [`dispatch`]: one tool request, from its correlation id to its answer
//!   or its timeout.
//! - [`transcript`]: the conversation with the model.
//! - [`agent`]: the session that drives the cycle of thought, action and
//!   observation within its iteration budget.
//! - [`demo`]: the keyword-driven stand-in for the model.
//! - [`chat`]: the plain conversation without tools, and the reply or
//!   failure that a model's answer amounts to.
//! - [`payload`]: looking into the model's answer, a JSON document.
//! - [`text`]: what the others need to know about characters.
//!
//! The functions are verified against contracts over a mathematical model
//! of their data: texts are sequences of characters, the store is a map, a
//! session is a record of sequences and counters. The general facts about
//! the models are stated as `lemma_` functions next to them. The few calls
//! that leave the library (for a random id, a lower-case form, a look into
//! a JSON document) are each wrapped in a function whose contract is
//! believed, not proved, and says so.

pub mod action;
pub mod agent;
pub mod chat;
pub mod demo;
pub mod dispatch;
pub mod payload;
pub mod store;
pub mod text;
pub mod transcript;
