//! The help that commands publish, and the replies of the help command.

use vstd::prelude::*;
use vstd::string::StringExecFns;
use vstd::string::StrSliceExecFns;
use crate::command::{allows, copy_access, Access, Command, PrivmsgAccess};
use crate::message::ChatMessage;
use crate::text::{
    join_by_index, join_indexed, join_lines_max, join_multiline_max, join_nonempty, join_with,
    list_contains, list_copy, string_views, text_eq,
};
use crate::text_map::{texts, TextMap};

verus! {

/// What a command publishes about itself.
#[derive(Debug)]
pub struct Help {
    pub command: String,
    pub aliases: Vec<String>,
    pub description: String,
    pub usage: String,
    pub access: Vec<Access>,
}

/// Whether the help is that of the command.
pub open spec fn describes(help: Help, command: Command) -> bool {
    &&& help.command == command.command
    &&& help.aliases@ == command.aliases@
    &&& help.description == command.description
    &&& help.usage == command.arguments.usage
    &&& help.access@ == command.allowed@
}

/// Whether the help is published under the name: as the name of its
/// command, or as one of its aliases.
pub open spec fn answers_to(help: Help, name: Seq<char>) -> bool {
    help.command@ == name || string_views(help.aliases@).contains(name)
}

/// The index of the first help, from `from` on, that is published under
/// the name; none where there is none.
pub open spec fn first_answering(entries: Seq<Help>, name: Seq<char>, from: int) -> Option<int>
    decreases entries.len() - from,
{
    if from < 0 || from >= entries.len() {
        None
    } else if answers_to(entries[from], name) {
        Some(from)
    } else {
        first_answering(entries, name, from + 1)
    }
}

/// How a command is listed: its name, and its aliases in brackets.
pub open spec fn listing(help: Help) -> Seq<char> {
    let aliases = string_views(help.aliases@);
    if aliases.len() == 0 {
        help.command@
    } else if aliases.len() == 1 {
        help.command@ + " (alias: "@ + aliases[0] + ")"@
    } else {
        help.command@ + " (aliases: "@ + join_with(aliases, ", "@) + ")"@
    }
}

/// How the commands that the sender may use are listed, in order.
pub open spec fn listings(entries: Seq<Help>, message: ChatMessage) -> Seq<Seq<char>>
    decreases entries.len(),
{
    if entries.len() == 0 {
        Seq::empty()
    } else if allows(entries.last().access@, message) {
        listings(entries.drop_last(), message).push(listing(entries.last()))
    } else {
        listings(entries.drop_last(), message)
    }
}

/// How one command is described: its name and usage, its description, and
/// its aliases on a line of their own.
pub open spec fn description_of(help: Help) -> Seq<char> {
    let aliases = string_views(help.aliases@);
    let name = if help.usage@.len() > 0 {
        help.command@ + " "@ + help.usage@
    } else {
        help.command@
    };
    let head = name + ": "@ + help.description@;
    if aliases.len() == 0 {
        head
    } else if aliases.len() == 1 {
        head + "\navailable alias: "@ + aliases[0]
    } else {
        head + "\navailable aliases: "@ + join_indexed(aliases, ", "@)
    }
}

/// How many commands are listed on a line.
pub const HELP_LINE_MAX: usize = 10;

/// The reply of the help command. Asked about a name, it describes the
/// first command, in the order of the ids, that is published under the
/// name, if the sender may use it; else it says that the command is
/// unknown. Asked about nothing, it lists the commands that the sender
/// may use, in the order of their ids.
pub open spec fn help_reply_of(entries: Seq<Help>, query: Option<Seq<char>>, message: ChatMessage)
    -> Seq<char> {
    match query {
        Some(name) => match first_answering(entries, name, 0) {
            Some(i) => if allows(entries[i].access@, message) {
                description_of(entries[i])
            } else {
                "unknown command: "@ + name
            },
            None => "unknown command: "@ + name,
        },
        None => join_multiline_max(listings(entries, message), HELP_LINE_MAX as int),
    }
}

impl Help {
    /// A copy of the help.
    pub fn duplicate(&self) -> (r: Help)
        ensures
            r.command == self.command,
            r.aliases@ == self.aliases@,
            r.description == self.description,
            r.usage == self.usage,
            r.access@ == self.access@,
    {
        Help {
            command: self.command.clone(),
            aliases: list_copy(&self.aliases),
            description: self.description.clone(),
            usage: self.usage.clone(),
            access: copy_access(&self.access),
        }
    }

    /// The help that a command publishes.
    pub fn of(command: &Command) -> (r: Help)
        ensures
            describes(r, *command),
    {
        Help {
            command: command.command.clone(),
            aliases: list_copy(&command.aliases),
            description: command.description.clone(),
            usage: command.arguments.usage.clone(),
            access: copy_access(&command.allowed),
        }
    }

    /// Tells whether the help is published under the name.
    pub fn is_named(&self, name: &str) -> (b: bool)
        ensures
            b == answers_to(*self, name@),
    {
        text_eq(self.command.as_str(), name) || list_contains(&self.aliases, name)
    }

    /// How the command is listed: its name, and its aliases in brackets.
    pub fn listing(&self) -> (r: String)
        ensures
            r@ == listing(*self),
    {
        let mut r = self.command.clone();
        if self.aliases.len() == 1 {
            r.append(" (alias: ");
            r.append(self.aliases[0].as_str());
            r.append(")");
        } else if self.aliases.len() > 1 {
            let joined = join_nonempty(&self.aliases, ", ");
            r.append(" (aliases: ");
            r.append(joined.as_str());
            r.append(")");
        }
        r
    }

    /// How the command is described.
    pub fn description(&self) -> (r: String)
        ensures
            r@ == description_of(*self),
    {
        let mut r = self.command.clone();
        if self.usage.as_str().unicode_len() > 0 {
            r.append(" ");
            r.append(self.usage.as_str());
        }
        r.append(": ");
        r.append(self.description.as_str());
        if self.aliases.len() == 1 {
            r.append("\navailable alias: ");
            r.append(self.aliases[0].as_str());
        } else if self.aliases.len() > 1 {
            let joined = join_by_index(&self.aliases, ", ");
            r.append("\navailable aliases: ");
            r.append(joined.as_str());
        }
        r
    }
}

/// The help of the registered commands, by the id of each command, in the
/// order of the ids.
#[derive(Debug)]
pub struct HelpRegistry {
    pub help: TextMap<Help>,
}

impl Default for HelpRegistry {
    /// The registry of no command.
    fn default() -> (r: HelpRegistry)
        ensures
            r.wf(),
            r.help@ == Map::<Seq<char>, Help>::empty(),
            r.entries() == Seq::<Help>::empty(),
    {
        HelpRegistry { help: TextMap::new() }
    }
}

/// Whether the registry publishes under an id what it published before.
pub open spec fn untouched(after: HelpRegistry, before: HelpRegistry, id: Seq<char>) -> bool {
    &&& after.help@.contains_key(id) == before.help@.contains_key(id)
    &&& before.help@.contains_key(id) ==> after.help@[id] == before.help@[id]
}

impl HelpRegistry {
    /// The invariant of the registry: that of its map.
    pub open spec fn wf(&self) -> bool {
        self.help.wf()
    }

    /// The help of each command, in the order of the ids.
    pub open spec fn entries(&self) -> Seq<Help> {
        self.help.values()
    }

    /// The registry of no command.
    pub fn new() -> (r: HelpRegistry)
        ensures
            r.wf(),
            r.help@ == Map::<Seq<char>, Help>::empty(),
            r.entries() == Seq::<Help>::empty(),
    {
        HelpRegistry { help: TextMap::new() }
    }

    /// Publishes the help of a command under its id, in place of what was
    /// published under that id.
    pub fn register(&mut self, command: &Command)
        requires
            old(self).wf(),
        ensures
            final(self).wf(),
            final(self).help@.dom() == old(self).help@.dom().insert(command.id@),
            describes(final(self).help@[command.id@], *command),
            forall|id: Seq<char>|
                id != command.id@ && old(self).help@.contains_key(id) ==> final(self).help@[id]
                    == old(self).help@[id],
    {
        let help = Help::of(command);
        self.help.insert(command.id.clone(), help);
    }

    /// Takes back what is published under an id.
    pub fn remove(&mut self, id: &str)
        requires
            old(self).wf(),
        ensures
            final(self).wf(),
            final(self).help@ == old(self).help@.remove(id@),
    {
        self.help.remove(id);
    }

    /// The help of the first command, in the order of the ids, that is
    /// published under the name.
    pub fn lookup(&self, name: &str) -> (r: Option<&Help>)
        ensures
            match r {
                Some(help) => first_answering(self.entries(), name@, 0) matches Some(i)
                    && self.entries()[i] == *help,
                None => first_answering(self.entries(), name@, 0) is None,
            },
    {
        let n: usize = self.help.len();
        let mut i: usize = 0;
        while i < n
            invariant
                i <= n,
                n == self.entries().len(),
                first_answering(self.entries(), name@, 0) == first_answering(
                    self.entries(),
                    name@,
                    i as int,
                ),
            decreases n - i,
        {
            let help = self.help.value_at(i);
            if help.is_named(name) {
                return Some(help);
            }
            i = i + 1;
        }
        None
    }

    /// Every command with its help, in the order of the ids.
    pub fn get_all(&self) -> (r: Vec<(&str, &Help)>)
        ensures
            r@.len() == self.entries().len(),
            forall|i: int|
                0 <= i < r@.len() ==> (#[trigger] r@[i]).0@ == self.entries()[i].command@
                    && *r@[i].1 == self.entries()[i],
    {
        let n: usize = self.help.len();
        let mut r: Vec<(&str, &Help)> = Vec::new();
        let mut i: usize = 0;
        while i < n
            invariant
                i <= n,
                n == self.entries().len(),
                r@.len() == i,
                forall|j: int|
                    0 <= j < i ==> (#[trigger] r@[j]).0@ == self.entries()[j].command@
                        && *r@[j].1 == self.entries()[j],
            decreases n - i,
        {
            let help = self.help.value_at(i);
            r.push((help.command.as_str(), help));
            i = i + 1;
        }
        r
    }

    /// The reply of the help command to a message, asked about the
    /// command that the arguments name under `command`, or about nothing.
    pub fn help_reply(&self, arguments: &TextMap<String>, message: &ChatMessage) -> (r: String)
        requires
            arguments.wf(),
        ensures
            r@ == help_reply_of(
                self.entries(),
                if texts(arguments@).contains_key("command"@) {
                    Some(texts(arguments@)["command"@])
                } else {
                    None
                },
                *message,
            ),
    {
        match arguments.get("command") {
            Some(name) => {
                let mut unknown = String::from_str("unknown command: ");
                unknown.append(name.as_str());
                match self.lookup(name.as_str()) {
                    Some(help) => {
                        if message.is_allowed(help.access.as_slice()) {
                            help.description()
                        } else {
                            unknown
                        }
                    },
                    None => unknown,
                }
            },
            None => {
                let n: usize = self.help.len();
                let ghost entries = self.entries();
                let mut lines: Vec<String> = Vec::new();
                let mut i: usize = 0;
                assert(entries.take(0) =~= Seq::<Help>::empty());
                assert(string_views(lines@) =~= Seq::<Seq<char>>::empty());
                while i < n
                    invariant
                        i <= n,
                        entries == self.entries(),
                        n == entries.len(),
                        string_views(lines@) == listings(entries.take(i as int), *message),
                    decreases n - i,
                {
                    proof {
                        assert(entries.take(i as int + 1).drop_last() =~= entries.take(i as int));
                        assert(entries.take(i as int + 1).last() == entries[i as int]);
                    }
                    let help = self.help.value_at(i);
                    if message.is_allowed(help.access.as_slice()) {
                        let line = help.listing();
                        assert(string_views(lines@.push(line)) =~= string_views(lines@).push(
                            line@,
                        ));
                        lines.push(line);
                    }
                    i = i + 1;
                }
                assert(entries.take(i as int) =~= entries);
                join_lines_max(&lines, HELP_LINE_MAX)
            },
        }
    }
}

} // verus!
