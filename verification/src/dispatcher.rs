//! The routing of chat messages to the handlers that are bound to
//! commands.
//!
//! The dispatcher holds what each handler is bound to, in the order in
//! which the handlers were bound. For a message it says what each handler
//! is to do; the caller runs the handlers, each on its own.

use vstd::prelude::*;
use vstd::string::StringExecFns;
use crate::args::{extract_spec, ArgKind, ArgType, ExampleArgs, Match, MatchView, Slot};
use crate::bind::{decide, report_of, BindOptions, Binding, Decision, DecisionView};
use crate::command::{names_of, tail_of, Command};
use crate::command_file::{added, CommandFile};
use crate::help::{describes, help_reply_of, HelpRegistry};
use crate::message::ChatMessage;
use crate::text::{trim, trimmed};

verus! {

/// What a handler is bound to.
#[derive(Debug)]
pub enum Bound {
    /// A command: the handler is called for the messages that the
    /// command takes.
    Command(Binding),
    /// Every message.
    Listener(BindOptions),
}

/// What a message asks of the dispatcher.
#[derive(Debug)]
pub enum Dispatch {
    /// The message is for the help command: reply with this text, and run
    /// no handler.
    Help(String),
    /// What each handler is to do, in the order of the handlers.
    Handlers(Vec<Decision>),
}

/// What a message asks of the dispatcher, as a mathematical value.
pub enum DispatchView {
    Help(Seq<char>),
    Handlers(Seq<DecisionView>),
}

/// What the decisions hold, as mathematical values.
pub open spec fn decision_views(decisions: Seq<Decision>) -> Seq<DecisionView> {
    decisions.map_values(|d: Decision| d@)
}

impl View for Dispatch {
    type V = DispatchView;

    open spec fn view(&self) -> DispatchView {
        match self {
            Dispatch::Help(text) => DispatchView::Help(text@),
            Dispatch::Handlers(decisions) => DispatchView::Handlers(decision_views(decisions@)),
        }
    }
}

/// The id under which the help command is registered.
pub open spec fn help_command_id() -> Seq<char> {
    "__twitch_bot@0.1.0_help_command"@
}

/// The key of the argument of the help command.
pub open spec fn help_key() -> Seq<char> {
    "command"@
}

/// What the help command is asked about by a text: a name, or nothing;
/// none where the text is not for the help command.
pub open spec fn help_query(help: Command, data: Seq<char>) -> Option<Option<Seq<char>>> {
    match tail_of(names_of(help), data) {
        None => None,
        Some(tail) => match extract_spec(help.arguments@.slots, tail) {
            MatchView::Match(found) => if found.contains_key(help_key()) {
                Some(Some(found[help_key()]))
            } else {
                Some(None)
            },
            _ => None,
        },
    }
}

/// What a message means to a handler.
pub open spec fn decision_of(bound: Bound, store: CommandFile, message: ChatMessage)
    -> DecisionView {
    match bound {
        Bound::Command(binding) => decide(binding.current(store), binding.options, message),
        Bound::Listener(_) => DecisionView::Listen,
    }
}

/// The grammar of the help command: one optional argument, the name of a
/// command.
pub fn help_grammar() -> (r: ExampleArgs)
    ensures
        r.usage@ == "<command?>"@,
        r@.slots == seq![Slot { key: help_key(), kind: ArgKind::Optional }],
{
    let mut args: Vec<ArgType> = Vec::new();
    args.push(ArgType { key: String::from_str("command"), kind: ArgKind::Optional });
    let r = ExampleArgs { usage: String::from_str("<command?>"), args };
    assert(r@.slots =~= seq![Slot { key: help_key(), kind: ArgKind::Optional }]);
    r
}

/// What a dispatcher routes by.
#[derive(Debug)]
pub struct Dispatcher {
    /// What each handler is bound to, in the order of the handlers.
    pub bound: Vec<Bound>,
    /// The help command, if there is one.
    pub help_cmd: Option<Command>,
    /// The help that the commands publish.
    pub registry: HelpRegistry,
    /// The store of the command definitions.
    pub store: CommandFile,
}

/// A dispatcher in the making.
#[derive(Debug)]
pub struct DispatcherBuilder {
    pub bound: Vec<Bound>,
    pub help_cmd: Option<Command>,
    pub registry: HelpRegistry,
    pub store: CommandFile,
}

impl DispatcherBuilder {
    /// The invariant of the builder: that of its registry and its store.
    pub open spec fn wf(&self) -> bool {
        self.registry.wf() && self.store.wf()
    }

    /// Binds a handler to a command. The command publishes its help, and
    /// enters the store of definitions where the binding uses the store,
    /// which must then hold definitions.
    pub fn bind(self, command: Command, options: BindOptions) -> (r: DispatcherBuilder)
        requires
            self.wf(),
            options.use_command_file ==> self.store.initialized,
        ensures
            r.wf(),
            r.bound@ == self.bound@.push(Bound::Command(Binding { command, options })),
            r.help_cmd == self.help_cmd,
            r.registry.help@.dom() == self.registry.help@.dom().insert(command.id@),
            describes(r.registry.help@[command.id@], command),
            forall|id: Seq<char>|
                id != command.id@ && self.registry.help@.contains_key(id)
                    ==> r.registry.help@[id] == self.registry.help@[id],
            !options.use_command_file ==> r.store == self.store,
            options.use_command_file ==> added(r.store, self.store, command),
    {
        let mut registry = self.registry;
        let mut store = self.store;
        let mut bound = self.bound;
        registry.register(&command);
        if options.use_command_file {
            let _ = store.add(&command);
        }
        bound.push(Bound::Command(Binding { command, options }));
        DispatcherBuilder { bound, help_cmd: self.help_cmd, registry, store }
    }

    /// Binds a handler to every message.
    pub fn listen(self, options: BindOptions) -> (r: DispatcherBuilder)
        ensures
            r.bound@ == self.bound@.push(Bound::Listener(options)),
            r.help_cmd == self.help_cmd,
            r.registry == self.registry,
            r.store == self.store,
    {
        let mut bound = self.bound;
        bound.push(Bound::Listener(options));
        DispatcherBuilder {
            bound,
            help_cmd: self.help_cmd,
            registry: self.registry,
            store: self.store,
        }
    }

    /// Gives the dispatcher a help command with a name and a description,
    /// neither of which may be empty once trimmed. The help command takes
    /// the name of a command as its one, optional argument, and publishes
    /// its own help.
    pub fn with_help(self, help_command: &str, help_description: &str) -> (r: DispatcherBuilder)
        requires
            self.wf(),
            trimmed(help_command@).len() > 0,
            trimmed(help_description@).len() > 0,
        ensures
            r.wf(),
            r.bound == self.bound,
            r.store == self.store,
            r.help_cmd matches Some(help) && help.id@ == help_command_id() && help.command@
                == trimmed(help_command@) && help.description@ == trimmed(help_description@)
                && help.arguments.usage@ == "<command?>"@ && help.arguments@.slots == seq![
                Slot { key: help_key(), kind: ArgKind::Optional },
            ] && help.aliases@.len() == 0 && help.allowed@.len() == 0 && describes(
                r.registry.help@[help_command_id()],
                help,
            ),
            r.registry.help@.dom() == self.registry.help@.dom().insert(help_command_id()),
            forall|id: Seq<char>|
                id != help_command_id() && self.registry.help@.contains_key(id)
                    ==> r.registry.help@[id] == self.registry.help@[id],
    {
        let help = Command {
            id: String::from_str("__twitch_bot@0.1.0_help_command"),
            command: String::from_str(trim(help_command)),
            description: String::from_str(trim(help_description)),
            allowed: Vec::new(),
            arguments: help_grammar(),
            aliases: Vec::new(),
        };
        let mut registry = self.registry;
        registry.register(&help);
        DispatcherBuilder { bound: self.bound, help_cmd: Some(help), registry, store: self.store }
    }

    /// The dispatcher.
    pub fn into_dispatcher(self) -> (r: Dispatcher)
        ensures
            r.bound == self.bound,
            r.help_cmd == self.help_cmd,
            r.registry == self.registry,
            r.store == self.store,
    {
        Dispatcher {
            bound: self.bound,
            help_cmd: self.help_cmd,
            registry: self.registry,
            store: self.store,
        }
    }
}

impl Dispatcher {
    /// The invariant of the dispatcher: that of its registry and its
    /// store.
    pub open spec fn wf(&self) -> bool {
        self.registry.wf() && self.store.wf()
    }

    /// A dispatcher in the making, with no handler, no help command, an
    /// empty registry, and a store that holds no definitions.
    pub fn builder() -> (r: DispatcherBuilder)
        ensures
            r.wf(),
            r.bound@.len() == 0,
            r.help_cmd is None,
            r.registry.help@ == Map::<Seq<char>, crate::help::Help>::empty(),
            !r.store.initialized,
    {
        DispatcherBuilder {
            bound: Vec::new(),
            help_cmd: None,
            registry: HelpRegistry::new(),
            store: CommandFile::new(),
        }
    }

    /// What a message asks of the dispatcher. A message for the help
    /// command is answered with the help, and no handler runs. For any
    /// other message each handler gets its own decision, which depends on
    /// what that handler is bound to and on nothing else.
    pub open spec fn dispatch_of(&self, message: ChatMessage) -> DispatchView {
        if self.help_cmd is Some && help_query(self.help_cmd.unwrap(), message.data@) is Some {
            DispatchView::Help(
                help_reply_of(
                    self.registry.entries(),
                    help_query(self.help_cmd.unwrap(), message.data@).unwrap(),
                    message,
                ),
            )
        } else {
            DispatchView::Handlers(
                self.bound@.map_values(|b: Bound| decision_of(b, self.store, message)),
            )
        }
    }

    /// What a message asks of the dispatcher.
    pub fn dispatch(&self, message: &ChatMessage) -> (r: Dispatch)
        requires
            self.wf(),
        ensures
            r@ == self.dispatch_of(*message),
            r matches Dispatch::Handlers(decisions) ==> forall|i: int|
                0 <= i < decisions@.len() ==> ((#[trigger] decisions@[i]) matches Decision::Invoke(
                    arguments,
                ) ==> arguments.wf()),
    {
        match &self.help_cmd {
            Some(help) => {
                match help.tail(message.data.as_str()) {
                    Some(tail) => {
                        match help.arguments.extract(tail) {
                            Match::Match(found) => {
                                proof {
                                    reveal_strlit("command");
                                }
                                return Dispatch::Help(self.registry.help_reply(&found, message));
                            },
                            _ => {},
                        }
                    },
                    None => {},
                }
            },
            None => {},
        }
        let ghost all = self.bound@.map_values(|b: Bound| decision_of(b, self.store, *message));
        let mut decisions: Vec<Decision> = Vec::new();
        let mut i: usize = 0;
        assert(decision_views(decisions@) =~= all.take(0));
        while i < self.bound.len()
            invariant
                i <= self.bound.len(),
                self.wf(),
                all == self.bound@.map_values(|b: Bound| decision_of(b, self.store, *message)),
                decision_views(decisions@) == all.take(i as int),
                forall|k: int|
                    0 <= k < decisions@.len() ==> ((#[trigger] decisions@[k]) matches Decision::Invoke(
                        arguments,
                    ) ==> arguments.wf()),
            decreases self.bound.len() - i,
        {
            let decision = match &self.bound[i] {
                Bound::Command(binding) => binding.decide(message, &self.store),
                Bound::Listener(_) => Decision::Listen,
            };
            proof {
                assert(all[i as int] == decision@);
                assert(decision_views(decisions@.push(decision)) =~= decision_views(decisions@).push(
                    decision@,
                ));
                assert(all.take(i as int + 1) =~= all.take(i as int).push(all[i as int]));
            }
            decisions.push(decision);
            i = i + 1;
        }
        assert(all.take(i as int) =~= all);
        Dispatch::Handlers(decisions)
    }

    /// The text to reply with once the handler at an index has run: its
    /// error, if it failed and the handler's options report that.
    pub fn report(&self, index: usize, outcome: Option<String>) -> (r: Option<String>)
        requires
            index < self.bound@.len(),
        ensures
            match r {
                Some(text) => report_of(self.options_at(index as int), outcome) == Some(text@),
                None => report_of(self.options_at(index as int), outcome) is None,
            },
    {
        let report: bool = match &self.bound[index] {
            Bound::Command(binding) => binding.options.report_command_error,
            Bound::Listener(options) => options.report_command_error,
        };
        if report {
            outcome
        } else {
            None
        }
    }

    /// The options of the handler at an index.
    pub open spec fn options_at(&self, index: int) -> BindOptions {
        match self.bound@[index] {
            Bound::Command(binding) => binding.options,
            Bound::Listener(options) => options,
        }
    }

    /// Publishes the help of a command.
    pub fn help_register(&mut self, command: &Command)
        requires
            old(self).wf(),
        ensures
            final(self).wf(),
            final(self).registry.help@.dom() == old(self).registry.help@.dom().insert(command.id@),
            describes(final(self).registry.help@[command.id@], *command),
            forall|id: Seq<char>|
                id != command.id@ && old(self).registry.help@.contains_key(id)
                    ==> final(self).registry.help@[id] == old(self).registry.help@[id],
            final(self).bound == old(self).bound,
            final(self).help_cmd == old(self).help_cmd,
            final(self).store == old(self).store,
    {
        self.registry.register(command);
    }

    /// Takes back the help of a command.
    pub fn help_remove(&mut self, command: &Command)
        requires
            old(self).wf(),
        ensures
            final(self).wf(),
            final(self).registry.help@ == old(self).registry.help@.remove(command.id@),
            final(self).bound == old(self).bound,
            final(self).help_cmd == old(self).help_cmd,
            final(self).store == old(self).store,
    {
        self.registry.remove(command.id.as_str());
    }
}

/// A message that is not for the help command gives every handler a
/// decision of its own: that of the handler at an index is what the
/// message means to what this handler is bound to, whatever the other
/// handlers are bound to and whatever becomes of them.
pub proof fn law_handlers_decide_alone(dispatcher: Dispatcher, message: ChatMessage, index: int)
    requires
        0 <= index < dispatcher.bound@.len(),
        dispatcher.help_cmd is Some ==> help_query(dispatcher.help_cmd.unwrap(), message.data@)
            is None,
    ensures
        dispatcher.dispatch_of(message) matches DispatchView::Handlers(decisions)
            && decisions.len() == dispatcher.bound@.len() && decisions[index] == decision_of(
            dispatcher.bound@[index],
            dispatcher.store,
            message,
        ),
{
}

} // verus!
