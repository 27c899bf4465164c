//! The decision core of a chat bot that relays channel messages to a hosted
//! assistant and posts the assistant's answer back to the channel.
//!
//! Nothing here performs I/O. Every invocation of the bot is a
//! [`dispatch::Task`]: a small state machine that hands its driver one
//! [`effect::Action`] at a time and is resumed with the [`effect::Event`]
//! that answers it. A driver is a loop of three lines:
//!
//! ```text
//! let (mut task, mut pending) = on_message(message, &config);
//! while let Some(action) = pending {
//!     (task, pending) = task.step(perform(action));
//! }
//! ```
//!
//! The modules, from the leaves up:
//!
//! - [`status`] and [`content`]: the provider's run statuses and message
//!   contents, and what the bot makes of them;
//! - [`effect`]: the actions and events that flows and drivers exchange;
//! - [`machine`]: flows as state machines over views, their traces, and the
//!   lemmas about traces that every flow shares;
//! - [`store`]: a model of the conversation store, against which the laws of
//!   the flows are stated;
//! - [`lifecycle`]: finding, creating and forgetting the thread of a channel;
//! - [`relay`]: submitting a text, polling the run, reading the answer;
//! - [`config`]: the configuration and how it is read;
//! - [`dispatch`]: the tasks that handle a deployment, a message or a
//!   command, composed of the flows above.
//!
//! Each executable function states its result exactly, over the views of its
//! arguments. What holds of whole runs is stated and proved in [`laws`].

pub mod config;
pub mod content;
pub mod dispatch;
pub mod effect;
pub mod laws;
pub mod lifecycle;
pub mod machine;
pub mod relay;
pub mod status;
pub mod store;
