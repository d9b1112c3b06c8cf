//! A command registration, lookup, arity-validation, and typed-argument-binding
//! library.
//!
//! Independently defined commands register a descriptor (name, aliases, arity
//! bounds, parameter shape) together with a handler in a [`registry::CommandRegistry`].
//! Raw string tokens are dispatched through `execute_command`, which resolves
//! the name, validates the argument count against the descriptor's bounds, and
//! invokes the handler; handlers bind typed parameters positionally with
//! `binding::bind_arguments` through the converters of `parse_argument`.

pub mod binding;
pub mod command_error;
pub mod command_handler;
pub mod command_info;
pub mod parse_argument;
pub mod registry;

pub use binding::{bind_arguments, BoundValue};
pub use command_error::CommandError;
pub use command_handler::{CommandHandler, RecordingHandler};
pub use command_info::{BuildError, CommandInfo, ParamSpec};
pub use parse_argument::{ArgType, ParseArgument, ParsedValue};
pub use registry::CommandRegistry;
