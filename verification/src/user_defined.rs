//! Commands that users of the chat define: a name, and the text said in
//! answer to it.

use vstd::prelude::*;
use vstd::string::StringExecFns;
use crate::args::ExampleArgs;
use crate::command::{allows, copy_access, Access, Command, PrivmsgAccess};
use crate::help::{untouched, HelpRegistry};
use crate::message::ChatMessage;
use crate::text::str_views;
use crate::text_map::TextMap;
use crate::writer::WriteKind;

verus! {

/// Why a user-defined command cannot be changed.
#[derive(Debug)]
#[non_exhaustive]
pub enum UserDefinedError {
    /// There is a command of this name.
    CommandExists { command: String },
    /// There is no command of this name.
    CommandDoesNotExist { command: String },
    /// The commands could not be loaded.
    LoadError { error: String },
    /// The commands could not be saved.
    SaveError { error: String },
}

impl UserDefinedError {
    /// What the error says.
    pub open spec fn message(&self) -> Seq<char> {
        match self {
            UserDefinedError::CommandExists { command } => "command already exists: "@ + command@,
            UserDefinedError::CommandDoesNotExist { command } => "command does not exist: "@
                + command@,
            UserDefinedError::LoadError { error } => "cannot load: "@ + error@,
            UserDefinedError::SaveError { error } => "cannot save: "@ + error@,
        }
    }

    /// What the error says.
    pub fn to_string(&self) -> (r: String)
        ensures
            r@ == self.message(),
    {
        match self {
            UserDefinedError::CommandExists { command } => {
                let mut r = String::from_str("command already exists: ");
                r.append(command.as_str());
                r
            },
            UserDefinedError::CommandDoesNotExist { command } => {
                let mut r = String::from_str("command does not exist: ");
                r.append(command.as_str());
                r
            },
            UserDefinedError::LoadError { error } => {
                let mut r = String::from_str("cannot load: ");
                r.append(error.as_str());
                r
            },
            UserDefinedError::SaveError { error } => {
                let mut r = String::from_str("cannot save: ");
                r.append(error.as_str());
                r
            },
        }
    }
}

/// What a user-defined command says, and who may use it.
#[derive(Debug)]
pub struct UserCommand {
    pub body: String,
    pub allowed: Vec<Access>,
}

impl Default for UserCommand {
    /// A command that says nothing, for everybody.
    fn default() -> (r: UserCommand)
        ensures
            r.body@.len() == 0,
            r.allowed@.len() == 0,
    {
        UserCommand { body: String::new(), allowed: Vec::new() }
    }
}

impl Clone for UserCommand {
    fn clone(&self) -> (r: UserCommand)
        ensures
            r.body == self.body,
            r.allowed@ == self.allowed@,
    {
        UserCommand { body: self.body.clone(), allowed: copy_access(&self.allowed) }
    }
}

/// The id under which a user-defined command publishes its help.
pub open spec fn fake_id(name: Seq<char>) -> Seq<char> {
    "__user_defined_"@ + name
}

/// Whether the help under the id of a name is that of the user-defined
/// command.
pub open spec fn publishes(help: HelpRegistry, name: Seq<char>, user: UserCommand) -> bool {
    let entry = help.help@[fake_id(name)];
    &&& help.help@.contains_key(fake_id(name))
    &&& entry.command@ == name
    &&& entry.description@ == user.body@
    &&& entry.access@ == user.allowed@
    &&& entry.usage@.len() == 0
    &&& entry.aliases@.len() == 0
}

/// Whether two registries publish the same but under one id.
pub open spec fn same_but(after: HelpRegistry, before: HelpRegistry, id: Seq<char>) -> bool {
    &&& after.help@.dom().remove(id) == before.help@.dom().remove(id)
    &&& forall|other: Seq<char>|
        other != id && before.help@.contains_key(other) ==> after.help@[other]
            == before.help@[other]
}

/// Whether the id is that of none of the first `n` names.
pub open spec fn is_no_id_of(id: Seq<char>, names: Seq<Seq<char>>, n: int) -> bool {
    forall|j: int| 0 <= j < n && j < names.len() ==> id != fake_id(#[trigger] names[j])
}

/// The commands that users defined, by their names.
#[derive(Debug)]
pub struct UserDefined {
    pub commands: TextMap<UserCommand>,
}

impl Default for UserDefined {
    /// No command.
    fn default() -> (r: UserDefined)
        ensures
            r.wf(),
            r.commands@ == Map::<Seq<char>, UserCommand>::empty(),
    {
        UserDefined { commands: TextMap::new() }
    }
}

impl UserDefined {
    /// The invariant of the commands: that of their map.
    pub open spec fn wf(&self) -> bool {
        self.commands.wf()
    }

    /// The id under which a user-defined command publishes its help.
    pub fn fake_command_id(name: &str) -> (r: String)
        ensures
            r@ == fake_id(name@),
    {
        let mut r = String::from_str("__user_defined_");
        r.append(name);
        r
    }

    /// The command that stands for a user-defined command in the help.
    pub fn fake_command(name: &str, body: &str, allowed: Vec<Access>) -> (r: Command)
        ensures
            r.id@ == fake_id(name@),
            r.command@ == name@,
            r.description@ == body@,
            r.allowed == allowed,
            r.arguments@.usage.len() == 0,
            r.arguments@.slots.len() == 0,
            r.aliases@.len() == 0,
    {
        Command {
            id: Self::fake_command_id(name),
            command: String::from_str(name),
            description: String::from_str(body),
            allowed,
            arguments: ExampleArgs::default(),
            aliases: Vec::new(),
        }
    }

    /// Publishes the help of the command of a name.
    fn publish(name: &str, user: &UserCommand, help: &mut HelpRegistry)
        requires
            old(help).wf(),
        ensures
            final(help).wf(),
            publishes(*final(help), name@, *user),
            same_but(*final(help), *old(help), fake_id(name@)),
    {
        let fake = Self::fake_command(name, user.body.as_str(), copy_access(&user.allowed));
        help.register(&fake);
        assert(final(help).help@.dom().remove(fake_id(name@)) =~= old(help).help@.dom().remove(
            fake_id(name@),
        ));
    }

    /// Loads the commands from a text, and publishes the help of each.
    /// What the registry publishes under other ids stays as it is.
    pub fn load_from_str<F: FnOnce(&str) -> Result<UserDefined, String>>(
        input: &str,
        load: F,
        help: &mut HelpRegistry,
    ) -> (r: Result<UserDefined, UserDefinedError>)
        requires
            old(help).wf(),
            call_requires(load, (input,)),
            forall|loaded: UserDefined|
                call_ensures(load, (input,), Ok::<UserDefined, String>(loaded)) ==> loaded.wf(),
        ensures
            final(help).wf(),
            match r {
                Ok(loaded) => {
                    &&& loaded.wf()
                    &&& call_ensures(load, (input,), Ok::<UserDefined, String>(loaded))
                    &&& forall|name: Seq<char>| #[trigger]
                        loaded.commands@.contains_key(name) ==> publishes(
                            *final(help),
                            name,
                            loaded.commands@[name],
                        )
                    &&& forall|id: Seq<char>|
                        is_no_id_of(id, loaded.commands.keys(), loaded.commands.keys().len() as int)
                            ==> #[trigger] untouched(*final(help), *old(help), id)
                },
                Err(UserDefinedError::LoadError { error }) => call_ensures(
                    load,
                    (input,),
                    Err::<UserDefined, String>(error),
                ) && *final(help) == *old(help),
                Err(_) => false,
            },
    {
        let loaded = match load(input) {
            Ok(loaded) => loaded,
            Err(error) => {
                return Err(UserDefinedError::LoadError { error });
            },
        };
        let n: usize = loaded.commands.len();
        let ghost keys = loaded.commands.keys();
        let ghost values = loaded.commands.values();
        let mut i: usize = 0;
        while i < n
            invariant
                i <= n,
                loaded.wf(),
                help.wf(),
                keys == loaded.commands.keys(),
                values == loaded.commands.values(),
                n == keys.len(),
                forall|j: int| 0 <= j < i ==> publishes(*help, #[trigger] keys[j], values[j]),
                forall|id: Seq<char>|
                    is_no_id_of(id, keys, i as int) ==> #[trigger] untouched(
                        *help,
                        *old(help),
                        id,
                    ),
            decreases n - i,
        {
            let ghost before = *help;
            let name = loaded.commands.key_at(i);
            let user = loaded.commands.value_at(i);
            Self::publish(name.as_str(), user, help);
            proof {
                let here = fake_id(keys[i as int]);
                assert forall|j: int| 0 <= j < i + 1 implies publishes(
                    *help,
                    #[trigger] keys[j],
                    values[j],
                ) by {
                    if j < i {
                        if keys[j] == keys[i as int] {
                            crate::text_map::lemma_ascending_distinct(keys, j, i as int);
                        }
                        lemma_fake_id_injective(keys[j], keys[i as int]);
                        assert(publishes(before, keys[j], values[j]));
                        assert(help.help@.dom().remove(here).contains(fake_id(keys[j]))
                            == before.help@.dom().remove(here).contains(fake_id(keys[j])));
                    }
                }
                assert forall|id: Seq<char>| is_no_id_of(id, keys, i as int + 1) implies #[trigger] untouched(
                    *help,
                    *old(help),
                    id,
                ) by {
                    assert(id != fake_id(keys[i as int]));
                    assert(is_no_id_of(id, keys, i as int));
                    assert(untouched(before, *old(help), id));
                    assert(help.help@.dom().remove(here).contains(id) == before.help@.dom().remove(
                        here,
                    ).contains(id));
                }
            }
            i = i + 1;
        }
        proof {
            assert forall|name: Seq<char>| #[trigger]
                loaded.commands@.contains_key(name) implies publishes(
                *help,
                name,
                loaded.commands@[name],
            ) by {
                let j = keys.index_of(name);
                crate::text_map::lemma_assoc_at(keys, values, j);
            }
        }
        Ok(loaded)
    }

    /// Defines a command, publishes its help, and saves the commands.
    /// Where there is a command of the name, nothing is done. The command
    /// stays defined where saving fails.
    pub fn add<S: FnOnce(&UserDefined) -> Result<(), String>>(
        &mut self,
        command: &str,
        body: &str,
        save: S,
        help: &mut HelpRegistry,
    ) -> (r: Result<(), UserDefinedError>)
        requires
            old(self).wf(),
            old(help).wf(),
            forall|state: &UserDefined| call_requires(save, (state,)),
        ensures
            final(self).wf(),
            final(help).wf(),
            match r {
                Err(UserDefinedError::CommandExists { command: name }) => {
                    &&& old(self).commands@.contains_key(command@)
                    &&& name@ == command@
                    &&& *final(self) == *old(self)
                    &&& *final(help) == *old(help)
                },
                Err(UserDefinedError::CommandDoesNotExist { .. }) => false,
                Err(UserDefinedError::LoadError { .. }) => false,
                _ => {
                    let user = final(self).commands@[command@];
                    &&& !old(self).commands@.contains_key(command@)
                    &&& final(self).commands@ == old(self).commands@.insert(command@, user)
                    &&& user.body@ == body@
                    &&& user.allowed@.len() == 0
                    &&& publishes(*final(help), command@, user)
                    &&& same_but(*final(help), *old(help), fake_id(command@))
                    &&& match r {
                        Ok(()) => call_ensures(save, (&*final(self),), Ok::<(), String>(())),
                        Err(UserDefinedError::SaveError { error }) => call_ensures(
                            save,
                            (&*final(self),),
                            Err::<(), String>(error),
                        ),
                        Err(_) => false,
                    }
                },
            },
    {
        if self.commands.contains_key(command) {
            return Err(UserDefinedError::CommandExists { command: String::from_str(command) });
        }
        let user = UserCommand { body: String::from_str(body), allowed: Vec::new() };
        Self::publish(command, &user, help);
        self.commands.insert(String::from_str(command), user);
        let saved = save(&*self);
        match saved {
            Ok(done) => {
                assert(done == ());
                Ok(())
            },
            Err(error) => Err(UserDefinedError::SaveError { error }),
        }
    }

    /// Changes a command by `update`, publishes its help, and saves the
    /// commands. Where there is no command of the name, nothing is done.
    /// The command stays changed where saving fails.
    pub fn update<U: FnOnce(UserCommand) -> UserCommand, S: FnOnce(&UserDefined) -> Result<
        (),
        String,
    >>(&mut self, command: &str, update: U, save: S, help: &mut HelpRegistry) -> (r: Result<
        (),
        UserDefinedError,
    >)
        requires
            old(self).wf(),
            old(help).wf(),
            forall|user: UserCommand| call_requires(update, (user,)),
            forall|state: &UserDefined| call_requires(save, (state,)),
        ensures
            final(self).wf(),
            final(help).wf(),
            match r {
                Err(UserDefinedError::CommandDoesNotExist { command: name }) => {
                    &&& !old(self).commands@.contains_key(command@)
                    &&& name@ == command@
                    &&& final(self).commands@ == old(self).commands@
                    &&& *final(help) == *old(help)
                },
                Err(UserDefinedError::CommandExists { .. }) => false,
                Err(UserDefinedError::LoadError { .. }) => false,
                _ => {
                    let user = final(self).commands@[command@];
                    &&& old(self).commands@.contains_key(command@)
                    &&& final(self).commands@ == old(self).commands@.insert(command@, user)
                    &&& call_ensures(update, (old(self).commands@[command@],), user)
                    &&& publishes(*final(help), command@, user)
                    &&& same_but(*final(help), *old(help), fake_id(command@))
                    &&& match r {
                        Ok(()) => call_ensures(save, (&*final(self),), Ok::<(), String>(())),
                        Err(UserDefinedError::SaveError { error }) => call_ensures(
                            save,
                            (&*final(self),),
                            Err::<(), String>(error),
                        ),
                        Err(_) => false,
                    }
                },
            },
    {
        let ghost before = self.commands@;
        let user = match self.commands.remove(command) {
            Some(user) => update(user),
            None => {
                assert(self.commands@ =~= before);
                return Err(
                    UserDefinedError::CommandDoesNotExist { command: String::from_str(command) },
                );
            },
        };
        Self::publish(command, &user, help);
        self.commands.insert(String::from_str(command), user);
        assert(self.commands@ =~= before.insert(command@, user));
        let saved = save(&*self);
        match saved {
            Ok(done) => {
                assert(done == ());
                Ok(())
            },
            Err(error) => Err(UserDefinedError::SaveError { error }),
        }
    }

    /// Takes a command back, with its help, saves the commands, and hands
    /// the command back. Where there is no command of the name, nothing
    /// is done. The command stays removed where saving fails.
    pub fn remove<S: FnOnce(&UserDefined) -> Result<(), String>>(
        &mut self,
        command: &str,
        save: S,
        help: &mut HelpRegistry,
    ) -> (r: Result<UserCommand, UserDefinedError>)
        requires
            old(self).wf(),
            old(help).wf(),
            forall|state: &UserDefined| call_requires(save, (state,)),
        ensures
            final(self).wf(),
            final(help).wf(),
            match r {
                Err(UserDefinedError::CommandDoesNotExist { command: name }) => {
                    &&& !old(self).commands@.contains_key(command@)
                    &&& name@ == command@
                    &&& final(self).commands@ == old(self).commands@
                    &&& *final(help) == *old(help)
                },
                Err(UserDefinedError::CommandExists { .. }) => false,
                Err(UserDefinedError::LoadError { .. }) => false,
                _ => {
                    &&& old(self).commands@.contains_key(command@)
                    &&& final(self).commands@ == old(self).commands@.remove(command@)
                    &&& final(help).help@ == old(help).help@.remove(fake_id(command@))
                    &&& match r {
                        Ok(user) => user == old(self).commands@[command@] && call_ensures(
                            save,
                            (&*final(self),),
                            Ok::<(), String>(()),
                        ),
                        Err(UserDefinedError::SaveError { error }) => call_ensures(
                            save,
                            (&*final(self),),
                            Err::<(), String>(error),
                        ),
                        Err(_) => false,
                    }
                },
            },
    {
        let ghost before = self.commands@;
        let user = match self.commands.remove(command) {
            Some(user) => user,
            None => {
                assert(self.commands@ =~= before);
                return Err(
                    UserDefinedError::CommandDoesNotExist { command: String::from_str(command) },
                );
            },
        };
        let id = Self::fake_command_id(command);
        help.remove(id.as_str());
        let saved = save(&*self);
        match saved {
            Ok(done) => {
                assert(done == ());
                Ok(user)
            },
            Err(error) => Err(UserDefinedError::SaveError { error }),
        }
    }

    /// What to say in answer to a message: the text of the command that
    /// the message names, on the channel of the message, if the sender may
    /// use the command.
    pub fn dispatch(&self, message: &ChatMessage) -> (r: Option<WriteKind>)
        requires
            self.wf(),
        ensures
            match r {
                Some(WriteKind::Privmsg { target, data }) => {
                    &&& self.commands@.contains_key(message.data@)
                    &&& allows(self.commands@[message.data@].allowed@, *message)
                    &&& target@ == message.channel@
                    &&& data@ == self.commands@[message.data@].body@
                },
                Some(_) => false,
                None => !(self.commands@.contains_key(message.data@) && allows(
                    self.commands@[message.data@].allowed@,
                    *message,
                )),
            },
    {
        match self.commands.get(message.data.as_str()) {
            Some(user) => {
                if message.is_allowed(user.allowed.as_slice()) {
                    Some(WriteKind::privmsg(message, user.body.as_str()))
                } else {
                    None
                }
            },
            None => None,
        }
    }

    /// The names of the commands, in their order.
    pub fn get_all_names(&self) -> (names: Vec<&str>)
        ensures
            str_views(names@) == self.commands.keys(),
    {
        let n: usize = self.commands.len();
        let mut names: Vec<&str> = Vec::new();
        let mut i: usize = 0;
        assert(str_views(names@) =~= self.commands.keys().take(0));
        while i < n
            invariant
                i <= n,
                n == self.commands.keys().len(),
                str_views(names@) == self.commands.keys().take(i as int),
            decreases n - i,
        {
            let name = self.commands.key_at(i).as_str();
            proof {
                let all = self.commands.keys();
                assert(str_views(names@.push(name)) =~= str_views(names@).push(name@));
                assert(all.take(i as int + 1) =~= all.take(i as int).push(all[i as int]));
            }
            names.push(name);
            i = i + 1;
        }
        assert(self.commands.keys().take(i as int) =~= self.commands.keys());
        names
    }

    /// The command of a name, if there is one.
    pub fn find(&self, name: &str) -> (r: Option<&UserCommand>)
        requires
            self.wf(),
        ensures
            match r {
                Some(user) => self.commands@.contains_key(name@) && self.commands@[name@]
                    == *user,
                None => !self.commands@.contains_key(name@),
            },
    {
        self.commands.get(name)
    }

    /// The command of a name, to be changed in place, if there is one.
    /// Once the command is changed, the commands are those before with
    /// this one replaced (see `TextMap::lemma_replaced`); the help and
    /// what is saved are not changed.
    pub fn find_mut(&mut self, name: &str) -> (r: Option<&mut UserCommand>)
        requires
            old(self).wf(),
        ensures
            match r {
                Some(user) => old(self).commands@.contains_key(name@) && *user == old(
                    self,
                ).commands@[name@] && final(self).commands.replaced(
                    &old(self).commands,
                    name@,
                    *final(user),
                ),
                None => !old(self).commands@.contains_key(name@) && *final(self) == *old(self),
            },
    {
        self.commands.get_mut(name)
    }
}

/// Different names have different ids.
pub proof fn lemma_fake_id_injective(a: Seq<char>, b: Seq<char>)
    ensures
        fake_id(a) == fake_id(b) ==> a == b,
{
    let prefix = "__user_defined_"@;
    if fake_id(a) == fake_id(b) {
        assert(a =~= fake_id(a).skip(prefix.len() as int));
        assert(b =~= fake_id(b).skip(prefix.len() as int));
    }
}

} // verus!
