//! The binding of a command to a handler: whether a message calls the
//! handler, and what is reported back to the channel.

use vstd::prelude::*;
use vstd::string::StringExecFns;
use crate::args::{extract_spec, Arguments, Match, MatchView};
use crate::command::{allows, names_of, tail_of, Command};
use crate::command_file::CommandFile;
use crate::message::ChatMessage;
use crate::text_map::texts;

verus! {

/// What a binding reports back to the channel.
#[derive(Debug, Copy, Clone)]
#[non_exhaustive]
pub struct BindOptions {
    /// Reply with the usage where a required argument is left out.
    pub report_invalid_usage: bool,
    /// Reply with the error of a handler that fails.
    pub report_command_error: bool,
    /// Reply to a sender who may not use the command.
    pub report_access_error: bool,
    /// Take the definition of the command from the store of definitions,
    /// where the store holds one.
    pub use_command_file: bool,
}

impl Default for BindOptions {
    /// Bad usage and the errors of handlers are reported; refusals are
    /// not, and the store of definitions is not used.
    fn default() -> (r: BindOptions)
        ensures
            r.report_invalid_usage,
            r.report_command_error,
            !r.report_access_error,
            !r.use_command_file,
    {
        BindOptions {
            report_invalid_usage: true,
            report_command_error: true,
            report_access_error: false,
            use_command_file: false,
        }
    }
}

/// What a message means to a binding.
#[derive(Debug)]
pub enum Decision {
    /// Call the handler with these arguments.
    Invoke(Arguments),
    /// Reply with this text, and do not call the handler.
    Reply(String),
    /// Do nothing.
    Ignore,
    /// Call the handler, which listens to every message.
    Listen,
}

/// What a message means to a binding, as a mathematical value.
pub enum DecisionView {
    Invoke(Map<Seq<char>, Seq<char>>),
    Reply(Seq<char>),
    Ignore,
    Listen,
}

impl View for Decision {
    type V = DecisionView;

    open spec fn view(&self) -> DecisionView {
        match self {
            Decision::Invoke(arguments) => DecisionView::Invoke(arguments@),
            Decision::Reply(text) => DecisionView::Reply(text@),
            Decision::Ignore => DecisionView::Ignore,
            Decision::Listen => DecisionView::Listen,
        }
    }
}

/// The reply to a message that leaves a required argument out.
pub open spec fn usage_of(command: Command) -> Seq<char> {
    "usage: "@ + command.command@ + " "@ + command.arguments.usage@
}

/// The reply to a sender who may not use a command.
pub open spec fn refusal() -> Seq<char> {
    "you cannot use that command"@
}

/// The arguments that a command takes from a text. A command without
/// slots that the text names takes no arguments. Else the command
/// extracts them from what follows its name in the text: nothing where
/// the text does not start with a name or does not fit the grammar, the
/// usage as an error where a required argument is left out.
pub open spec fn extract_args_of(command: Command, data: Seq<char>) -> Result<
    Option<Map<Seq<char>, Seq<char>>>,
    Seq<char>,
> {
    if command.arguments@.slots.len() == 0 && names_of(command).contains(data) {
        Ok(Some(Map::empty()))
    } else {
        match tail_of(names_of(command), data) {
            None => Ok(None),
            Some(tail) => match extract_spec(command.arguments@.slots, tail) {
                MatchView::Required => Err(usage_of(command)),
                MatchView::NoMatch => Ok(None),
                MatchView::Match(found) => Ok(Some(found)),
            },
        }
    }
}

/// What a message means to a command under the options of a binding.
///
/// A sender who may use the command calls the handler where the text
/// gives the arguments, and is told the usage, if that is reported, where
/// a required argument is left out. A text that is not for the command is
/// ignored. A sender who may not use the command is told so, if that is
/// reported.
pub open spec fn decide(command: Command, options: BindOptions, message: ChatMessage)
    -> DecisionView {
    let allowed = allows(command.allowed@, message);
    match extract_args_of(command, message.data@) {
        Ok(None) => DecisionView::Ignore,
        Ok(Some(found)) => if allowed {
            DecisionView::Invoke(found)
        } else if options.report_access_error {
            DecisionView::Reply(refusal())
        } else {
            DecisionView::Ignore
        },
        Err(usage) => if allowed {
            if options.report_invalid_usage {
                DecisionView::Reply(usage)
            } else {
                DecisionView::Ignore
            }
        } else if options.report_access_error {
            DecisionView::Reply(refusal())
        } else {
            DecisionView::Ignore
        },
    }
}

/// What is reported of the outcome of a handler: its error, if it failed
/// and that is reported.
pub open spec fn report_of(options: BindOptions, outcome: Option<String>) -> Option<Seq<char>> {
    match outcome {
        Some(error) => if options.report_command_error {
            Some(error@)
        } else {
            None
        },
        None => None,
    }
}

/// A command with the options under which a handler is bound to it.
#[derive(Debug)]
pub struct Binding {
    pub command: Command,
    pub options: BindOptions,
}

/// What the arguments or the usage hold, as texts.
pub open spec fn extracted_view(r: Result<Option<Arguments>, String>) -> Result<
    Option<Map<Seq<char>, Seq<char>>>,
    Seq<char>,
> {
    match r {
        Ok(Some(arguments)) => Ok(Some(arguments@)),
        Ok(None) => Ok(None),
        Err(usage) => Err(usage@),
    }
}

impl Binding {
    /// Binds a command under options.
    pub fn new(command: Command, options: BindOptions) -> (r: Binding)
        ensures
            r.command == command,
            r.options == options,
    {
        Binding { command, options }
    }

    /// The arguments that a command takes from a message.
    pub fn extract_args(command: &Command, message: &ChatMessage) -> (r: Result<
        Option<Arguments>,
        String,
    >)
        ensures
            extracted_view(r) == extract_args_of(*command, message.data@),
            r matches Ok(Some(arguments)) ==> arguments.wf(),
    {
        if command.arguments.args.len() == 0 && command.is_command_match(message.data.as_str()) {
            return Ok(Some(Arguments::default()));
        }
        let tail = match command.tail(message.data.as_str()) {
            Some(tail) => tail,
            None => {
                return Ok(None);
            },
        };
        match command.arguments.extract(tail) {
            Match::Required => {
                let mut usage = String::from_str("usage: ");
                usage.append(command.command.as_str());
                usage.append(" ");
                usage.append(command.arguments.usage.as_str());
                Err(usage)
            },
            Match::NoMatch => Ok(None),
            Match::Match(map) => Ok(Some(Arguments { map })),
        }
    }

    /// What a message means to a command under the options of a binding.
    pub fn check_cmd_access(command: &Command, message: &ChatMessage, options: BindOptions) -> (r:
        Decision)
        ensures
            r@ == decide(*command, options, *message),
            r matches Decision::Invoke(arguments) ==> arguments.wf(),
    {
        let allowed = command.is_allowed(message);
        match Self::extract_args(command, message) {
            Ok(None) => {
                return Decision::Ignore;
            },
            Ok(Some(arguments)) => {
                if allowed {
                    return Decision::Invoke(arguments);
                }
            },
            Err(usage) => {
                if allowed {
                    if options.report_invalid_usage {
                        return Decision::Reply(usage);
                    }
                    return Decision::Ignore;
                }
            },
        }
        if options.report_access_error && !allowed {
            Decision::Reply(String::from_str("you cannot use that command"))
        } else {
            Decision::Ignore
        }
    }

    /// The definition that the binding goes by: that of the store under
    /// the id of the command, where the store is used and holds one; else
    /// the command it was bound with.
    pub open spec fn current(&self, store: CommandFile) -> Command {
        if self.options.use_command_file && store.initialized && store.commands@.contains_key(
            self.command.id@,
        ) {
            store.commands@[self.command.id@]
        } else {
            self.command
        }
    }

    /// What a message means to the binding, by its current definition.
    pub fn decide(&self, message: &ChatMessage, store: &CommandFile) -> (r: Decision)
        requires
            store.wf(),
        ensures
            r@ == decide(self.current(*store), self.options, *message),
            r matches Decision::Invoke(arguments) ==> arguments.wf(),
    {
        if self.options.use_command_file {
            match store.get_ref(self.command.id.as_str()) {
                Ok(command) => Self::check_cmd_access(command, message, self.options),
                Err(_) => Self::check_cmd_access(&self.command, message, self.options),
            }
        } else {
            Self::check_cmd_access(&self.command, message, self.options)
        }
    }

    /// The text to reply with once the handler has run: its error, if it
    /// failed and that is reported.
    pub fn report(&self, outcome: Option<String>) -> (r: Option<String>)
        ensures
            match r {
                Some(text) => report_of(self.options, outcome) == Some(text@),
                None => report_of(self.options, outcome) is None,
            },
    {
        if self.options.report_command_error {
            outcome
        } else {
            None
        }
    }
}

} // verus!
