//! Commands, and who may use them.

use vstd::prelude::*;
use vstd::string::StringExecFns;
use vstd::string::StrSliceExecFns;
use crate::args::ExampleArgs;
use crate::message::ChatMessage;
use crate::text::{
    distinct, eq_ignore_ascii_case, is_prefix, lemma_with_once, list_contains, slice, starts_with,
    string_views, text_eq, text_eq_ignore_ascii_case, text_of, trim, trimmed, with_once,
};

verus! {

/// One condition that lets a sender use a command.
#[derive(Debug, PartialEq, PartialOrd, Eq, Ord, Hash)]
pub enum Access {
    /// The sender moderates the channel.
    Moderator,
    /// The sender owns the channel.
    Broadcaster,
    /// The sender subscribes to the channel.
    Subscriber,
    /// The sender is a VIP of the channel.
    Vip,
    /// The sender has this login name, whatever the case of its letters.
    User { name: String },
    /// The sender has this id.
    UserId { id: String },
    /// Any sender.
    All,
}

impl Default for Access {
    /// Any sender.
    fn default() -> (r: Access)
        ensures
            r is All,
    {
        Access::All
    }
}

impl Clone for Access {
    fn clone(&self) -> (r: Access)
        ensures
            r == *self,
    {
        match self {
            Access::Moderator => Access::Moderator,
            Access::Broadcaster => Access::Broadcaster,
            Access::Subscriber => Access::Subscriber,
            Access::Vip => Access::Vip,
            Access::User { name } => Access::User { name: name.clone() },
            Access::UserId { id } => Access::UserId { id: id.clone() },
            Access::All => Access::All,
        }
    }
}

/// A copy of the conditions.
pub fn copy_access(list: &Vec<Access>) -> (r: Vec<Access>)
    ensures
        r@ == list@,
{
    let mut r: Vec<Access> = Vec::new();
    let mut i: usize = 0;
    while i < list.len()
        invariant
            i <= list.len(),
            r@ == list@.take(i as int),
        decreases list.len() - i,
    {
        r.push(list[i].clone());
        assert(r@ =~= list@.take(i as int + 1));
        i = i + 1;
    }
    assert(list@.take(i as int) =~= list@);
    r
}

/// Whether the condition holds of the sender of the message.
pub open spec fn grants(access: Access, message: ChatMessage) -> bool {
    match access {
        Access::Moderator => message.moderator,
        Access::Broadcaster => message.broadcaster,
        Access::Subscriber => message.subscriber,
        Access::Vip => message.vip,
        Access::User { name } => eq_ignore_ascii_case(name@, message.sender@),
        Access::UserId { id } => message.user_id matches Some(user_id) && id@ == user_id@,
        Access::All => true,
    }
}

/// Whether the conditions let the sender of the message in: there is no
/// condition, or the sender has no id, or some condition holds of the
/// sender.
pub open spec fn allows(access: Seq<Access>, message: ChatMessage) -> bool {
    ||| access.len() == 0
    ||| message.user_id is None
    ||| exists|i: int| 0 <= i < access.len() && grants(#[trigger] access[i], message)
}

/// Tells whether the condition holds of the sender of the message.
pub fn is_granted(access: &Access, message: &ChatMessage) -> (b: bool)
    ensures
        b == grants(*access, *message),
{
    match access {
        Access::Moderator => message.moderator,
        Access::Broadcaster => message.broadcaster,
        Access::Subscriber => message.subscriber,
        Access::Vip => message.vip,
        Access::User { name } => text_eq_ignore_ascii_case(name.as_str(), message.sender.as_str()),
        Access::UserId { id } => match &message.user_id {
            Some(user_id) => *id == *user_id,
            None => false,
        },
        Access::All => true,
    }
}

/// What can be asked whether conditions let it in.
pub trait PrivmsgAccess {
    /// Tells whether the conditions let the sender in.
    fn is_allowed(&self, access: &[Access]) -> bool;
}

impl PrivmsgAccess for ChatMessage {
    /// Tells whether the conditions let the sender of the message in. The
    /// conditions are tried in order, and the first that holds lets the
    /// sender in: the list is an "or" of its conditions.
    fn is_allowed(&self, access: &[Access]) -> (b: bool)
        ensures
            b == allows(access@, *self),
    {
        if access.len() == 0 {
            return true;
        }
        if self.user_id.is_none() {
            return true;
        }
        let mut i: usize = 0;
        while i < access.len()
            invariant
                i <= access.len(),
                forall|j: int| 0 <= j < i ==> !grants(#[trigger] access@[j], *self),
            decreases access.len() - i,
        {
            if is_granted(&access[i], self) {
                return true;
            }
            i = i + 1;
        }
        false
    }
}

/// With no condition every sender is let in.
pub proof fn law_no_condition_allows_all(message: ChatMessage)
    ensures
        allows(Seq::<Access>::empty(), message),
{
}

/// Where the one condition is an id, a sender with an id is let in exactly
/// if that is its id.
pub proof fn law_single_user_id(id: String, message: ChatMessage)
    requires
        message.user_id is Some,
    ensures
        allows(seq![Access::UserId { id }], message) <==> message.user_id.unwrap()@ == id@,
{
    let access = seq![Access::UserId { id }];
    if message.user_id.unwrap()@ == id@ {
        assert(grants(access[0], message));
    }
}

/// A command: what it is called, what it is for, who may use it, and the
/// arguments it takes.
#[derive(Debug, PartialEq, PartialOrd)]
pub struct Command {
    /// The stable id of the command; users do not see it.
    pub id: String,
    /// The name that users write.
    pub command: String,
    pub description: String,
    pub allowed: Vec<Access>,
    pub arguments: ExampleArgs,
    /// Other names that users may write, each once, in the order given.
    pub aliases: Vec<String>,
}

impl Clone for Command {
    fn clone(&self) -> (r: Command)
        ensures
            r.id == self.id,
            r.command == self.command,
            r.description == self.description,
            r.allowed@ == self.allowed@,
            r.arguments@ == self.arguments@,
            r.arguments.args@ == self.arguments.args@,
            r.aliases@ == self.aliases@,
    {
        Command {
            id: self.id.clone(),
            command: self.command.clone(),
            description: self.description.clone(),
            allowed: copy_access(&self.allowed),
            arguments: self.arguments.duplicate(),
            aliases: crate::text::list_copy(&self.aliases),
        }
    }
}

/// What a sequence of names holds, as texts.
pub open spec fn name_views(names: Seq<&String>) -> Seq<Seq<char>> {
    names.map_values(|n: &String| n@)
}

/// The names that a command answers to: its name, then its aliases.
pub open spec fn names_of(command: Command) -> Seq<Seq<char>> {
    seq![command.command@] + string_views(command.aliases@)
}

/// The first name, from `from` on, that the text starts with.
pub open spec fn first_prefix(names: Seq<Seq<char>>, data: Seq<char>, from: int) -> Option<int>
    decreases names.len() - from,
{
    if from < 0 || from >= names.len() {
        None
    } else if is_prefix(names[from], data) {
        Some(from)
    } else {
        first_prefix(names, data, from + 1)
    }
}

/// What follows, trimmed, the first name that the text starts with; none
/// where the text starts with no name.
pub open spec fn tail_of(names: Seq<Seq<char>>, data: Seq<char>) -> Option<Seq<char>> {
    match first_prefix(names, data, 0) {
        Some(i) => Some(trimmed(data.skip(names[i].len() as int))),
        None => None,
    }
}

/// A text that starts with a name has a prefix among the names from
/// `from` on: the first is found.
proof fn lemma_first_prefix(names: Seq<Seq<char>>, data: Seq<char>, from: int, i: int)
    requires
        0 <= from <= i < names.len(),
        is_prefix(names[i], data),
        forall|j: int| from <= j < i ==> !is_prefix(#[trigger] names[j], data),
    ensures
        first_prefix(names, data, from) == Some(i),
    decreases i - from,
{
    if from < i {
        assert(!is_prefix(names[from], data));
        lemma_first_prefix(names, data, from + 1, i);
    }
}

/// Every name of a command matches alike: what follows a name in a text
/// is the rest of the text, trimmed, whichever name it is, as long as the
/// text starts with no name that comes before it.
pub proof fn law_names_match_alike(names: Seq<Seq<char>>, i: int, rest: Seq<char>)
    requires
        0 <= i < names.len(),
        forall|j: int| 0 <= j < i ==> !is_prefix(#[trigger] names[j], names[i] + rest),
    ensures
        tail_of(names, names[i] + rest) == Some(trimmed(rest)),
{
    let data = names[i] + rest;
    assert(data.take(names[i].len() as int) =~= names[i]);
    assert(data.skip(names[i].len() as int) =~= rest);
    lemma_first_prefix(names, data, 0, i);
}

impl Command {
    /// Starts a command from its id, name and description, each trimmed.
    pub fn builder(id: &str, command: &str, description: &str) -> (r: CommandBuilder)
        ensures
            r.id@ == trimmed(id@),
            r.command@ == trimmed(command@),
            r.description@ == trimmed(description@),
            r.args@.usage.len() == 0,
            r.args@.slots.len() == 0,
            r.aliases@.len() == 0,
            r.allowed@.len() == 0,
            r.duplicate is None,
    {
        CommandBuilder {
            id: String::from_str(trim(id)),
            command: String::from_str(trim(command)),
            description: String::from_str(trim(description)),
            args: ExampleArgs::default(),
            aliases: Vec::new(),
            allowed: Vec::new(),
            duplicate: None,
        }
    }

    /// Tells whether the sender of the message may use the command.
    pub fn is_allowed(&self, message: &ChatMessage) -> (b: bool)
        ensures
            b == allows(self.allowed@, *message),
    {
        message.is_allowed(self.allowed.as_slice())
    }

    /// The names that the command answers to: its name, then its aliases.
    pub fn possible_commands(&self) -> (names: Vec<&String>)
        ensures
            name_views(names@) == names_of(*self),
    {
        let mut names: Vec<&String> = Vec::new();
        names.push(&self.command);
        let mut i: usize = 0;
        assert(name_views(names@) =~= seq![self.command@] + string_views(
            self.aliases@,
        ).take(0));
        while i < self.aliases.len()
            invariant
                i <= self.aliases.len(),
                name_views(names@) == seq![self.command@] + string_views(
                    self.aliases@,
                ).take(i as int),
            decreases self.aliases.len() - i,
        {
            let ghost before = name_views(names@);
            let ghost aliases = string_views(self.aliases@);
            names.push(&self.aliases[i]);
            proof {
                assert(name_views(names@) =~= before.push(self.aliases@[i as int]@));
                assert(aliases.take(i as int + 1) =~= aliases.take(i as int).push(
                    aliases[i as int],
                ));
                assert((seq![self.command@] + aliases.take(i as int)).push(aliases[i as int])
                    =~= seq![self.command@] + aliases.take(i as int + 1));
            }
            i = i + 1;
        }
        assert(string_views(self.aliases@).take(i as int) =~= string_views(self.aliases@));
        names
    }

    /// What follows the command in a text: the text after the first of the
    /// command's names that the text starts with, trimmed.
    pub fn tail<'a>(&self, data: &'a str) -> (r: Option<&'a str>)
        ensures
            match r {
                Some(t) => tail_of(names_of(*self), data@) == Some(t@),
                None => tail_of(names_of(*self), data@) is None,
            },
    {
        let names = self.possible_commands();
        let ghost all = names_of(*self);
        let mut i: usize = 0;
        while i < names.len()
            invariant
                i <= names.len(),
                all == names_of(*self),
                name_views(names@) == all,
                first_prefix(all, data@, 0) == first_prefix(all, data@, i as int),
            decreases names.len() - i,
        {
            assert(all[i as int] == names@[i as int]@);
            if starts_with(data, names[i].as_str()) {
                let from: usize = names[i].as_str().unicode_len();
                let to: usize = data.unicode_len();
                assert(data@.subrange(from as int, to as int) =~= data@.skip(from as int));
                return Some(trim(slice(data, from, to)));
            }
            i = i + 1;
        }
        None
    }

    /// Tells whether the text is one of the command's names.
    pub fn is_command_match(&self, query: &str) -> (b: bool)
        ensures
            b == names_of(*self).contains(query@),
    {
        if text_eq(self.command.as_str(), query) {
            assert(names_of(*self)[0] == query@);
            return true;
        }
        let b = list_contains(&self.aliases, query);
        proof {
            let names = names_of(*self);
            let aliases = string_views(self.aliases@);
            if b {
                let j = choose|j: int| 0 <= j < aliases.len() && aliases[j] == query@;
                assert(names[j + 1] == query@);
            }
            if names.contains(query@) {
                let j = choose|j: int| 0 <= j < names.len() && names[j] == query@;
                assert(aliases[j - 1] == query@);
            }
        }
        b
    }
}

/// A command in the making.
#[derive(Debug)]
pub struct CommandBuilder {
    pub id: String,
    pub command: String,
    pub description: String,
    pub args: ExampleArgs,
    /// The aliases given so far, each once, in the order given.
    pub aliases: Vec<String>,
    pub allowed: Vec<Access>,
    /// The first alias that was given a second time, if any was.
    pub duplicate: Option<String>,
}

/// Why a command in the making is refused.
#[derive(Debug, PartialEq, Eq, Clone)]
#[non_exhaustive]
pub enum CommandBuilderError {
    /// The id is empty.
    MissingId,
    /// The name is empty.
    MissingCommand,
    /// The description is empty.
    MissingDescription,
    /// This alias was given twice.
    DuplicateAlias { alias: String },
}

impl CommandBuilderError {
    /// What the error says.
    pub open spec fn message(&self) -> Seq<char> {
        match self {
            CommandBuilderError::MissingId => "Missing id"@,
            CommandBuilderError::MissingCommand => "Missing command"@,
            CommandBuilderError::MissingDescription => "Missing description"@,
            CommandBuilderError::DuplicateAlias { alias } => "Duplicate alias: "@ + alias@,
        }
    }

    /// What the error says.
    pub fn to_string(&self) -> (r: String)
        ensures
            r@ == self.message(),
    {
        match self {
            CommandBuilderError::MissingId => String::from_str("Missing id"),
            CommandBuilderError::MissingCommand => String::from_str("Missing command"),
            CommandBuilderError::MissingDescription => String::from_str("Missing description"),
            CommandBuilderError::DuplicateAlias { alias } => {
                let mut r = String::from_str("Duplicate alias: ");
                r.append(alias.as_str());
                r
            },
        }
    }
}

/// The first alias given twice, once one more alias is given: the one
/// noted before, or else the new alias if it is among those given.
pub open spec fn duplicate_after(
    noted: Option<Seq<char>>,
    aliases: Seq<Seq<char>>,
    alias: Seq<char>,
) -> Option<Seq<char>> {
    if noted is Some {
        noted
    } else if aliases.contains(alias) {
        Some(alias)
    } else {
        None
    }
}

impl CommandBuilder {
    /// Gives the command its arguments.
    pub fn args(self, args: ExampleArgs) -> (r: CommandBuilder)
        ensures
            r.args == args,
            r.id == self.id,
            r.command == self.command,
            r.description == self.description,
            r.aliases == self.aliases,
            r.allowed == self.allowed,
            r.duplicate == self.duplicate,
    {
        CommandBuilder {
            id: self.id,
            command: self.command,
            description: self.description,
            args,
            aliases: self.aliases,
            allowed: self.allowed,
            duplicate: self.duplicate,
        }
    }

    /// Gives the command another name. An alias that was given before is
    /// not added again: it is noted, and the command will be refused when
    /// it is built. The aliases stay in the order in which they were first
    /// given, each once.
    pub fn alias(self, alias: &str) -> (r: CommandBuilder)
        ensures
            string_views(r.aliases@) == with_once(string_views(self.aliases@), alias@),
            text_of(r.duplicate) == duplicate_after(
                text_of(self.duplicate),
                string_views(self.aliases@),
                alias@,
            ),
            distinct(string_views(self.aliases@)) ==> distinct(string_views(r.aliases@)),
            r.id == self.id,
            r.command == self.command,
            r.description == self.description,
            r.args == self.args,
            r.allowed == self.allowed,
    {
        proof {
            if distinct(string_views(self.aliases@)) {
                lemma_with_once(string_views(self.aliases@), alias@);
            }
        }
        let mut aliases = self.aliases;
        let mut duplicate = self.duplicate;
        if list_contains(&aliases, alias) {
            if duplicate.is_none() {
                duplicate = Some(String::from_str(alias));
            }
        } else {
            let name = String::from_str(alias);
            assert(string_views(aliases@.push(name)) =~= string_views(aliases@).push(alias@));
            aliases.push(name);
        }
        CommandBuilder {
            id: self.id,
            command: self.command,
            description: self.description,
            args: self.args,
            aliases,
            allowed: self.allowed,
            duplicate,
        }
    }

    /// Adds a condition that lets a sender use the command.
    pub fn allow(self, access: Access) -> (r: CommandBuilder)
        ensures
            r.allowed@ == self.allowed@.push(access),
            r.id == self.id,
            r.command == self.command,
            r.description == self.description,
            r.args == self.args,
            r.aliases == self.aliases,
            r.duplicate == self.duplicate,
    {
        let mut allowed = self.allowed;
        allowed.push(access);
        CommandBuilder {
            id: self.id,
            command: self.command,
            description: self.description,
            args: self.args,
            aliases: self.aliases,
            allowed,
            duplicate: self.duplicate,
        }
    }

    /// The command, unless it is refused: for an empty id, else for an
    /// empty name, else for an empty description, else for an alias that
    /// was given twice, which the error names.
    pub fn build(self) -> (r: Result<Command, CommandBuilderError>)
        ensures
            match r {
                Ok(c) => {
                    &&& self.id@.len() > 0
                    &&& self.command@.len() > 0
                    &&& self.description@.len() > 0
                    &&& self.duplicate is None
                    &&& c.id == self.id
                    &&& c.command == self.command
                    &&& c.description == self.description
                    &&& c.allowed == self.allowed
                    &&& c.arguments == self.args
                    &&& c.aliases == self.aliases
                },
                Err(CommandBuilderError::MissingId) => self.id@.len() == 0,
                Err(CommandBuilderError::MissingCommand) => self.id@.len() > 0
                    && self.command@.len() == 0,
                Err(CommandBuilderError::MissingDescription) => self.id@.len() > 0
                    && self.command@.len() > 0 && self.description@.len() == 0,
                Err(CommandBuilderError::DuplicateAlias { alias }) => self.id@.len() > 0
                    && self.command@.len() > 0 && self.description@.len() > 0 && self.duplicate
                    == Some(alias),
            },
    {
        if self.id.as_str().unicode_len() == 0 {
            return Err(CommandBuilderError::MissingId);
        }
        if self.command.as_str().unicode_len() == 0 {
            return Err(CommandBuilderError::MissingCommand);
        }
        if self.description.as_str().unicode_len() == 0 {
            return Err(CommandBuilderError::MissingDescription);
        }
        match self.duplicate {
            Some(alias) => Err(CommandBuilderError::DuplicateAlias { alias }),
            None => Ok(
                Command {
                    id: self.id,
                    command: self.command,
                    description: self.description,
                    allowed: self.allowed,
                    arguments: self.args,
                    aliases: self.aliases,
                },
            ),
        }
    }
}

/// A duplicate alias is rejected when the command is built: once an alias
/// is given that is among those given before, every later state of the
/// builder has a duplicate noted, whatever else is given.
pub proof fn law_duplicate_alias_is_noted(
    noted: Option<Seq<char>>,
    aliases: Seq<Seq<char>>,
    alias: Seq<char>,
)
    ensures
        aliases.contains(alias) ==> duplicate_after(noted, aliases, alias) is Some,
        noted is Some ==> duplicate_after(noted, aliases, alias) == noted,
        with_once(aliases, alias).contains(alias),
        noted is None && !aliases.contains(alias) ==> duplicate_after(noted, aliases, alias)
            is None,
{
    if !aliases.contains(alias) {
        let out = aliases.push(alias);
        assert(out[out.len() - 1] == alias);
    }
}

} // verus!
