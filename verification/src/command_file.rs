//! The store of the command definitions that can be changed while the bot
//! runs.

use vstd::prelude::*;
use vstd::string::StringExecFns;
use crate::command::Command;
use crate::help::{describes, untouched, HelpRegistry};
use crate::text_map::{lemma_ascending_distinct, lemma_assoc_at, TextMap};

verus! {

/// Why the store cannot answer.
#[non_exhaustive]
#[derive(Debug)]
pub enum CommandFileError {
    /// Nothing was loaded into the store.
    NotInitialized,
    /// The store holds no command with this id.
    IdNotFound { id: String },
    /// The definitions could not be read.
    CannotReadFile { error: String },
    /// The definitions could not be understood.
    CannotDeserialize { error: String },
}

impl CommandFileError {
    /// What the error says.
    pub open spec fn message(&self) -> Seq<char> {
        match self {
            CommandFileError::NotInitialized => "CommandFile is not initialized"@,
            CommandFileError::IdNotFound { id } => "Command id '"@ + id@ + "' not found"@,
            CommandFileError::CannotReadFile { error } => "Cannot read file: "@ + error@,
            CommandFileError::CannotDeserialize { error } => "Cannot deserialize file: "@
                + error@,
        }
    }

    /// What the error says.
    pub fn to_string(&self) -> (r: String)
        ensures
            r@ == self.message(),
    {
        match self {
            CommandFileError::NotInitialized => String::from_str("CommandFile is not initialized"),
            CommandFileError::IdNotFound { id } => {
                let mut r = String::from_str("Command id '");
                r.append(id.as_str());
                r.append("' not found");
                r
            },
            CommandFileError::CannotReadFile { error } => {
                let mut r = String::from_str("Cannot read file: ");
                r.append(error.as_str());
                r
            },
            CommandFileError::CannotDeserialize { error } => {
                let mut r = String::from_str("Cannot deserialize file: ");
                r.append(error.as_str());
                r
            },
        }
    }
}

/// The definitions that a list of ids and commands gives: each command
/// under its id, with that id as its own; of two commands under one id the
/// later stays.
pub open spec fn definitions(entries: Seq<(String, Command)>) -> Map<Seq<char>, Command>
    decreases entries.len(),
{
    if entries.len() == 0 {
        Map::empty()
    } else {
        definitions(entries.drop_last()).insert(
            entries.last().0@,
            Command { id: entries.last().0, ..entries.last().1 },
        )
    }
}

/// The ids among the first `n` that the definitions do not hold.
pub open spec fn dropped(ids: Seq<Seq<char>>, n: int, kept: Map<Seq<char>, Command>) -> Set<
    Seq<char>,
> {
    Set::new(|id: Seq<char>| exists|j: int| 0 <= j < n && j < ids.len() && #[trigger] ids[j] == id
        && !kept.contains_key(id))
}

/// Whether the id is none of the first `n`.
pub open spec fn is_none_of(id: Seq<char>, ids: Seq<Seq<char>>, n: int) -> bool {
    forall|j: int| 0 <= j < n && j < ids.len() ==> id != #[trigger] ids[j]
}

/// Whether the registry publishes the help of the definitions that were
/// loaded in place of those held before: the help of every definition
/// that is held now, no help under the id of a definition that is gone,
/// and under any other id what it published before.
pub open spec fn republished(
    after: HelpRegistry,
    before: HelpRegistry,
    now: Map<Seq<char>, Command>,
    gone: Map<Seq<char>, Command>,
) -> bool {
    &&& forall|id: Seq<char>| #[trigger]
        now.contains_key(id) ==> after.help@.contains_key(id) && describes(
            after.help@[id],
            now[id],
        )
    &&& forall|id: Seq<char>|
        !now.contains_key(id) && #[trigger] gone.contains_key(id) ==> !after.help@.contains_key(
            id,
        )
    &&& forall|id: Seq<char>|
        !now.contains_key(id) && !gone.contains_key(id) ==> #[trigger] untouched(
            after,
            before,
            id,
        )
}

/// The command definitions, by the id of each command.
#[derive(Debug)]
pub struct CommandFile {
    pub commands: TextMap<Command>,
    /// Whether definitions were loaded.
    pub initialized: bool,
}

impl CommandFile {
    /// The invariant of the store: that of its map; a store that was never
    /// loaded is empty; and the command under an id has that id.
    pub open spec fn wf(&self) -> bool {
        &&& self.commands.wf()
        &&& !self.initialized ==> self.commands@ == Map::<Seq<char>, Command>::empty()
        &&& forall|id: Seq<char>| #[trigger]
            self.commands@.contains_key(id) ==> self.commands@[id].id@ == id
    }

    /// A store into which nothing was loaded.
    pub fn new() -> (r: CommandFile)
        ensures
            r.wf(),
            !r.initialized,
            r.commands@ == Map::<Seq<char>, Command>::empty(),
    {
        CommandFile { commands: TextMap::new(), initialized: false }
    }

    /// The definitions of a list of ids and commands.
    fn collect(entries: Vec<(String, Command)>) -> (r: TextMap<Command>)
        ensures
            r.wf(),
            r@ == definitions(entries@),
            forall|id: Seq<char>| #[trigger] r@.contains_key(id) ==> r@[id].id@ == id,
    {
        let ghost all = entries@;
        let mut map: TextMap<Command> = TextMap::new();
        assert(all.take(0) =~= Seq::<(String, Command)>::empty());
        for entry in it: entries
            invariant
                it.seq() == all,
                map.wf(),
                map@ == definitions(all.take(it.index() as int)),
                forall|id: Seq<char>| #[trigger] map@.contains_key(id) ==> map@[id].id@ == id,
        {
            proof {
                let i = it.index() as int;
                assert(all.take(i + 1).drop_last() =~= all.take(i));
                assert(all.take(i + 1).last() == entry);
            }
            let (id, command) = entry;
            let named = Command {
                id: id.clone(),
                command: command.command,
                description: command.description,
                allowed: command.allowed,
                arguments: command.arguments,
                aliases: command.aliases,
            };
            map.insert(id, named);
        }
        assert(all.take(all.len() as int) =~= all);
        map
    }

    /// Loads definitions from a text in place of those that the store
    /// holds. Each command gets the id it stands under. The help of the
    /// commands that are gone is taken back, and the help of every command
    /// that the store holds now is published.
    pub fn load_from_str<F: FnOnce(&str) -> Result<Vec<(String, Command)>, String>>(
        &mut self,
        data: &str,
        deser: F,
        help: &mut HelpRegistry,
    ) -> (r: Result<(), CommandFileError>)
        requires
            old(self).wf(),
            old(help).wf(),
            call_requires(deser, (data,)),
        ensures
            final(self).wf(),
            final(help).wf(),
            match r {
                Ok(()) => {
                    &&& final(self).initialized
                    &&& exists|entries: Vec<(String, Command)>|
                        call_ensures(
                            deser,
                            (data,),
                            Ok::<Vec<(String, Command)>, String>(entries),
                        ) && final(self).commands@ == definitions(entries@)
                    &&& republished(
                        *final(help),
                        *old(help),
                        final(self).commands@,
                        old(self).commands@,
                    )
                },
                Err(CommandFileError::CannotDeserialize { error }) => {
                    &&& call_ensures(deser, (data,), Err::<Vec<(String, Command)>, String>(error))
                    &&& *final(self) == *old(self)
                    &&& *final(help) == *old(help)
                },
                Err(_) => false,
            },
    {
        let entries = match deser(data) {
            Ok(entries) => entries,
            Err(error) => {
                return Err(CommandFileError::CannotDeserialize { error });
            },
        };
        let fresh = Self::collect(entries);
        let ghost before = *help;
        let ghost gone = self.commands@;
        let ghost gone_ids = self.commands.keys();
        let ghost gone_values = self.commands.values();
        let n: usize = self.commands.len();
        let mut i: usize = 0;
        assert(before.help@.remove_keys(dropped(gone_ids, 0, fresh@)) =~= before.help@);
        while i < n
            invariant
                i <= n,
                *self == *old(self),
                self.wf(),
                help.wf(),
                n == gone_ids.len(),
                gone_ids == self.commands.keys(),
                help.help@ == before.help@.remove_keys(dropped(gone_ids, i as int, fresh@)),
            decreases n - i,
        {
            let id = self.commands.key_at(i);
            let ghost was = help.help@;
            if !fresh.contains_key(id.as_str()) {
                help.remove(id.as_str());
            }
            proof {
                let less = dropped(gone_ids, i as int, fresh@);
                let more = dropped(gone_ids, i as int + 1, fresh@);
                assert forall|k: Seq<char>| more.contains(k) <==> (less.contains(k) || (k
                    == gone_ids[i as int] && !fresh@.contains_key(k))) by {
                    if more.contains(k) {
                        let j = choose|j: int|
                            0 <= j < i + 1 && j < gone_ids.len() && #[trigger] gone_ids[j] == k
                                && !fresh@.contains_key(k);
                        if j < i {
                            assert(less.contains(k));
                        }
                    }
                    if less.contains(k) {
                        let j = choose|j: int|
                            0 <= j < i && j < gone_ids.len() && #[trigger] gone_ids[j] == k
                                && !fresh@.contains_key(k);
                        assert(0 <= j < i + 1 && gone_ids[j] == k);
                    }
                    if k == gone_ids[i as int] && !fresh@.contains_key(k) {
                        assert(gone_ids[i as int] == k);
                    }
                }
                assert(help.help@ =~= before.help@.remove_keys(more));
            }
            i = i + 1;
        }
        let ghost cleared = *help;
        proof {
            assert forall|id: Seq<char>|
                !fresh@.contains_key(id) && #[trigger] gone.contains_key(
                    id,
                ) implies !cleared.help@.contains_key(id) by {
                let j = gone_ids.index_of(id);
                assert(gone_ids[j] == id);
                assert(dropped(gone_ids, n as int, fresh@).contains(id));
            }
            assert forall|id: Seq<char>| !gone.contains_key(id) implies #[trigger] untouched(
                cleared,
                before,
                id,
            ) by {
                if dropped(gone_ids, n as int, fresh@).contains(id) {
                    let j = choose|j: int|
                        0 <= j < n && j < gone_ids.len() && #[trigger] gone_ids[j] == id
                            && !fresh@.contains_key(id);
                    lemma_assoc_at(gone_ids, gone_values, j);
                }
            }
        }
        let m: usize = fresh.len();
        let ghost ids = fresh.keys();
        let ghost values = fresh.values();
        let mut j: usize = 0;
        while j < m
            invariant
                j <= m,
                fresh.wf(),
                help.wf(),
                ids == fresh.keys(),
                values == fresh.values(),
                m == ids.len(),
                forall|id: Seq<char>| #[trigger] fresh@.contains_key(id) ==> fresh@[id].id@ == id,
                forall|k: int|
                    0 <= k < j ==> help.help@.contains_key(#[trigger] ids[k]) && describes(
                        help.help@[ids[k]],
                        values[k],
                    ),
                forall|id: Seq<char>|
                    is_none_of(id, ids, j as int) ==> #[trigger] untouched(*help, cleared, id),
            decreases m - j,
        {
            let ghost was = *help;
            let command = fresh.value_at(j);
            proof {
                lemma_assoc_at(ids, values, j as int);
                assert(fresh@.contains_key(ids[j as int]));
                assert(command.id@ == ids[j as int]);
            }
            help.register(command);
            proof {
                let here = ids[j as int];
                assert forall|k: int| 0 <= k < j + 1 implies help.help@.contains_key(
                    #[trigger] ids[k],
                ) && describes(help.help@[ids[k]], values[k]) by {
                    if k < j {
                        if ids[k] == here {
                            lemma_ascending_distinct(ids, k, j as int);
                        }
                        assert(was.help@.contains_key(ids[k]));
                    }
                }
                assert forall|id: Seq<char>| is_none_of(id, ids, j as int + 1) implies #[trigger] untouched(
                    *help,
                    cleared,
                    id,
                ) by {
                    assert(id != ids[j as int]);
                    assert(is_none_of(id, ids, j as int));
                    assert(untouched(was, cleared, id));
                    assert(help.help@.dom().contains(id) == was.help@.dom().insert(here).contains(
                        id,
                    ));
                }
            }
            j = j + 1;
        }
        proof {
            assert forall|id: Seq<char>| #[trigger]
                fresh@.contains_key(id) implies help.help@.contains_key(id) && describes(
                help.help@[id],
                fresh@[id],
            ) by {
                let k = ids.index_of(id);
                lemma_assoc_at(ids, values, k);
            }
            assert forall|id: Seq<char>| !fresh@.contains_key(id) implies is_none_of(
                id,
                ids,
                m as int,
            ) by {
                assert forall|k: int| 0 <= k < m && k < ids.len() implies id != #[trigger] ids[k] by {
                    lemma_assoc_at(ids, values, k);
                }
            }
            assert forall|id: Seq<char>|
                !fresh@.contains_key(id) && #[trigger] gone.contains_key(
                    id,
                ) implies !help.help@.contains_key(id) by {
                assert(is_none_of(id, ids, m as int));
                assert(untouched(*help, cleared, id));
            }
            assert forall|id: Seq<char>|
                !fresh@.contains_key(id) && !gone.contains_key(id) implies #[trigger] untouched(
                *help,
                before,
                id,
            ) by {
                assert(is_none_of(id, ids, m as int));
                assert(untouched(*help, cleared, id));
                assert(untouched(cleared, before, id));
            }
        }
        self.commands = fresh;
        self.initialized = true;
        Ok(())
    }

    /// The command with the id, where the store holds it.
    pub fn get_ref(&self, id: &str) -> (r: Result<&Command, CommandFileError>)
        requires
            self.wf(),
        ensures
            match r {
                Ok(command) => self.initialized && self.commands@.contains_key(id@)
                    && self.commands@[id@] == *command && command.id@ == id@,
                Err(CommandFileError::NotInitialized) => !self.initialized,
                Err(CommandFileError::IdNotFound { id: missing }) => self.initialized
                    && !self.commands@.contains_key(id@) && missing@ == id@,
                Err(_) => false,
            },
    {
        if !self.initialized {
            return Err(CommandFileError::NotInitialized);
        }
        match self.commands.get(id) {
            Some(command) => Ok(command),
            None => Err(CommandFileError::IdNotFound { id: String::from_str(id) }),
        }
    }

    /// A copy of the command with the id, where the store holds it.
    pub fn lookup(&self, id: &str) -> (r: Result<Command, CommandFileError>)
        requires
            self.wf(),
        ensures
            match r {
                Ok(command) => {
                    let held = self.commands@[id@];
                    &&& self.initialized
                    &&& self.commands@.contains_key(id@)
                    &&& command.id@ == id@
                    &&& command.id == held.id
                    &&& command.command == held.command
                    &&& command.description == held.description
                    &&& command.allowed@ == held.allowed@
                    &&& command.arguments@ == held.arguments@
                    &&& command.aliases@ == held.aliases@
                },
                Err(CommandFileError::NotInitialized) => !self.initialized,
                Err(CommandFileError::IdNotFound { id: missing }) => self.initialized
                    && !self.commands@.contains_key(id@) && missing@ == id@,
                Err(_) => false,
            },
    {
        match self.get_ref(id) {
            Ok(command) => Ok(command.clone()),
            Err(e) => Err(e),
        }
    }

    /// Puts a copy of the command into the store under its id, and hands
    /// back the command that the id had before, if any. Nothing is done
    /// where the store was never loaded.
    pub fn add(&mut self, command: &Command) -> (r: Result<Option<Command>, CommandFileError>)
        requires
            old(self).wf(),
        ensures
            final(self).wf(),
            match r {
                Ok(before) => {
                    &&& old(self).initialized
                    &&& added(*final(self), *old(self), *command)
                    &&& match before {
                        Some(c) => old(self).commands@.contains_key(command.id@)
                            && old(self).commands@[command.id@] == c,
                        None => !old(self).commands@.contains_key(command.id@),
                    }
                },
                Err(CommandFileError::NotInitialized) => !old(self).initialized && *final(self)
                    == *old(self),
                Err(_) => false,
            },
    {
        if !self.initialized {
            return Err(CommandFileError::NotInitialized);
        }
        let before = self.commands.insert(command.id.clone(), command.clone());
        Ok(before)
    }
}

/// Whether the store is the store before with a copy of the command under
/// the id of the command, and nothing else changed.
pub open spec fn added(after: CommandFile, before: CommandFile, command: Command) -> bool {
    let held = after.commands@[command.id@];
    &&& after.initialized == before.initialized
    &&& after.commands@.dom() == before.commands@.dom().insert(command.id@)
    &&& held.id == command.id
    &&& held.command == command.command
    &&& held.description == command.description
    &&& held.allowed@ == command.allowed@
    &&& held.arguments@ == command.arguments@
    &&& held.aliases@ == command.aliases@
    &&& forall|id: Seq<char>|
        id != command.id@ && before.commands@.contains_key(id) ==> #[trigger] after.commands@[id]
            == before.commands@[id]
}

} // verus!
