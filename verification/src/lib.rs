//! A chat-bot runtime for a line-oriented, IRC-style chat protocol.
//!
//! The crate holds the decision logic of the bot: the argument grammar of
//! commands, the access policy, the help registry, the routing of chat
//! messages to bound handlers, and the state machine of a connection.
//! Every function is stated over mathematical models of its data, so that
//! what a call returns can be read from its contract.

pub mod args;
pub mod args_laws;
pub mod bind;
pub mod client;
pub mod command;
pub mod command_file;
pub mod config;
pub mod context;
pub mod dispatcher;
pub mod help;
pub mod message;
pub mod outcome;
pub mod ping;
pub mod response;
pub mod text;
pub mod text_map;
pub mod user_defined;
pub mod writer;

pub use args::{ArgKind, ArgType, Arguments, ExampleArgs, ExampleError, Match};
pub use bind::{BindOptions, Binding, Decision};
pub use client::{
    Badge, Client, Color, Effect, Either, Error, Event, Flow, Identity, Inbound, Reconnect, Step,
};
pub use command::{Access, Command, CommandBuilder, CommandBuilderError, PrivmsgAccess};
pub use command_file::{CommandFile, CommandFileError};
pub use config::Config;
pub use context::Context;
pub use dispatcher::{Bound, Dispatch, Dispatcher, DispatcherBuilder};
pub use help::{Help, HelpRegistry};
pub use message::ChatMessage;
pub use outcome::Outcome;
pub use ping::PingTracker;
pub use response::{Response, ResponseBuilder};
pub use text_map::TextMap;
pub use user_defined::{UserCommand, UserDefined, UserDefinedError};
pub use writer::WriteKind;
