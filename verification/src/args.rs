//! The argument grammar of a command.
//!
//! A usage string such as `<name> <count?> <rest..>` compiles to an ordered
//! sequence of slots. A grammar extracts, from the free text that follows a
//! command, the text of each slot.

use vstd::prelude::*;
use vstd::string::StringExecFns;
use vstd::string::StrSliceExecFns;
use crate::text::{
    chars_of, find_char, index_of, join_nonempty, join_with, lemma_index_of_from, slice, split_by,
    split_text, split_whitespace, str_views, string_views, to_strings, trim, trimmed, words,
};
use crate::args_laws::{law_compiled_is_well_formed, well_formed};
use crate::text_map::{texts, TextMap};

verus! {

/// How a slot takes its text.
#[derive(Clone, Copy, Debug, PartialEq, Eq, PartialOrd, Ord, Structural)]
pub enum ArgKind {
    /// The slot must be given.
    Required,
    /// The slot may be left out.
    Optional,
    /// The slot takes all the text that is left.
    Variadic,
}

/// One slot of a grammar, as a mathematical value.
pub struct Slot {
    pub key: Seq<char>,
    pub kind: ArgKind,
}

/// One slot of a grammar: a key and the way it takes its text.
#[derive(Clone, Debug, PartialEq, Eq, PartialOrd, Ord)]
pub struct ArgType {
    pub key: String,
    pub kind: ArgKind,
}

impl View for ArgType {
    type V = Slot;

    open spec fn view(&self) -> Slot {
        Slot { key: self.key@, kind: self.kind }
    }
}

/// What a sequence of slots holds, as mathematical values.
pub open spec fn slots_of(args: Seq<ArgType>) -> Seq<Slot> {
    args.map_values(|a: ArgType| a@)
}

/// A grammar, as a mathematical value.
pub struct Grammar {
    pub usage: Seq<char>,
    pub slots: Seq<Slot>,
}

/// Why a usage string does not compile, as a mathematical value.
pub enum GrammarError {
    Duplicate { key: Seq<char> },
    MultipleVariadic { keys: Seq<Seq<char>> },
    VariadicNotInTail { key: Seq<char> },
    InvalidKey { key: Seq<char> },
    OptionalBeforeRequired { key: Seq<char> },
    EmptyInput,
    InvalidCommand { input: Seq<char> },
}

/// Why a usage string does not compile.
#[non_exhaustive]
#[derive(Debug, PartialEq, Eq)]
pub enum ExampleError {
    /// Two slots have this key.
    Duplicate { key: String },
    /// More than one slot is variadic: these are their keys.
    MultipleVariadic { keys: Vec<String> },
    /// The variadic slot with this key is not the last slot.
    VariadicNotInTail { key: String },
    /// This key holds a character other than `A-Z`, `a-z`, `0-9`, `_`, `-`,
    /// or is empty.
    InvalidKey { key: String },
    /// The optional slot with this key stands before a required slot.
    OptionalBeforeRequired { key: String },
    /// The usage string holds nothing but whitespace.
    EmptyInput,
    /// The text is no command.
    InvalidCommand { input: String },
}

impl View for ExampleError {
    type V = GrammarError;

    open spec fn view(&self) -> GrammarError {
        match self {
            ExampleError::Duplicate { key } => GrammarError::Duplicate { key: key@ },
            ExampleError::MultipleVariadic { keys } => GrammarError::MultipleVariadic {
                keys: string_views(keys@),
            },
            ExampleError::VariadicNotInTail { key } => GrammarError::VariadicNotInTail {
                key: key@,
            },
            ExampleError::InvalidKey { key } => GrammarError::InvalidKey { key: key@ },
            ExampleError::OptionalBeforeRequired { key } => GrammarError::OptionalBeforeRequired {
                key: key@,
            },
            ExampleError::EmptyInput => GrammarError::EmptyInput,
            ExampleError::InvalidCommand { input } => GrammarError::InvalidCommand {
                input: input@,
            },
        }
    }
}

impl GrammarError {
    /// What the error says.
    pub open spec fn message(self) -> Seq<char> {
        match self {
            GrammarError::Duplicate { key } => "duplicate key: "@ + key,
            GrammarError::MultipleVariadic { keys } => "multiple variadics: "@ + join_with(
                keys,
                ", "@,
            ),
            GrammarError::VariadicNotInTail { key } => "variadic '"@ + key
                + "' not in tail position"@,
            GrammarError::InvalidKey { key } => "invalid key: '"@ + key
                + "'. only A-Za-z0-9 and - and _ are allowed"@,
            GrammarError::OptionalBeforeRequired { key } =>
                "optional used before a required key: "@ + key,
            GrammarError::EmptyInput => "argument input was empty"@,
            GrammarError::InvalidCommand { input } => "cannot parse '"@ + input
                + "' as a command"@,
        }
    }
}

impl ExampleError {
    /// What the error says.
    pub fn to_string(&self) -> (r: String)
        ensures
            r@ == self@.message(),
    {
        match self {
            ExampleError::Duplicate { key } => {
                let mut r = String::from_str("duplicate key: ");
                r.append(key.as_str());
                r
            },
            ExampleError::MultipleVariadic { keys } => {
                let mut r = String::from_str("multiple variadics: ");
                let joined = join_nonempty(keys, ", ");
                r.append(joined.as_str());
                r
            },
            ExampleError::VariadicNotInTail { key } => {
                let mut r = String::from_str("variadic '");
                r.append(key.as_str());
                r.append("' not in tail position");
                r
            },
            ExampleError::InvalidKey { key } => {
                let mut r = String::from_str("invalid key: '");
                r.append(key.as_str());
                r.append("'. only A-Za-z0-9 and - and _ are allowed");
                r
            },
            ExampleError::OptionalBeforeRequired { key } => {
                let mut r = String::from_str("optional used before a required key: ");
                r.append(key.as_str());
                r
            },
            ExampleError::EmptyInput => String::from_str("argument input was empty"),
            ExampleError::InvalidCommand { input } => {
                let mut r = String::from_str("cannot parse '");
                r.append(input.as_str());
                r.append("' as a command");
                r
            },
        }
    }
}

/// The characters a key is made of: `A-Z`, `a-z`, `0-9`, `_` and `-`.
pub open spec fn is_key_char(c: char) -> bool {
    let n: u32 = c as u32;
    ||| 0x41 <= n <= 0x5A
    ||| 0x61 <= n <= 0x7A
    ||| 0x30 <= n <= 0x39
    ||| n == 0x5F
    ||| n == 0x2D
}

/// A key is valid if it is not empty and made of key characters only.
pub open spec fn valid_key(key: Seq<char>) -> bool {
    key.len() > 0 && forall|i: int| 0 <= i < key.len() ==> is_key_char(#[trigger] key[i])
}

/// The slot that a word of a usage string stands for: `<key..>` is
/// variadic, `<key?>` optional, `<key>` required; any other word is none.
pub open spec fn classify(token: Seq<char>) -> Option<Slot> {
    let n: int = token.len() as int;
    if n >= 4 && token[0] == '<' && token[n - 3] == '.' && token[n - 2] == '.' && token[n - 1]
        == '>' {
        Some(Slot { key: token.subrange(1, n - 3), kind: ArgKind::Variadic })
    } else if n >= 3 && token[0] == '<' && token[n - 2] == '?' && token[n - 1] == '>' {
        Some(Slot { key: token.subrange(1, n - 2), kind: ArgKind::Optional })
    } else if n >= 2 && token[0] == '<' && token[n - 1] == '>' {
        Some(Slot { key: token.subrange(1, n - 1), kind: ArgKind::Required })
    } else {
        None
    }
}

/// Whether some slot has the key.
pub open spec fn has_key(slots: Seq<Slot>, key: Seq<char>) -> bool {
    exists|i: int| 0 <= i < slots.len() && (#[trigger] slots[i]).key == key
}

/// The slots that the words of a usage string stand for, read from left to
/// right; or the first error: a key seen before, or a key that is not
/// valid.
pub open spec fn scan(tokens: Seq<Seq<char>>) -> Result<Seq<Slot>, GrammarError>
    decreases tokens.len(),
{
    if tokens.len() == 0 {
        Ok(Seq::empty())
    } else {
        match scan(tokens.drop_last()) {
            Err(e) => Err(e),
            Ok(slots) => match classify(tokens.last()) {
                None => Ok(slots),
                Some(slot) => if has_key(slots, slot.key) {
                    Err(GrammarError::Duplicate { key: slot.key })
                } else if !valid_key(slot.key) {
                    Err(GrammarError::InvalidKey { key: slot.key })
                } else {
                    Ok(slots.push(slot))
                },
            },
        }
    }
}

/// The keys of the variadic slots, in order.
pub open spec fn variadic_keys(slots: Seq<Slot>) -> Seq<Seq<char>>
    decreases slots.len(),
{
    if slots.len() == 0 {
        Seq::empty()
    } else if slots.last().kind == ArgKind::Variadic {
        variadic_keys(slots.drop_last()).push(slots.last().key)
    } else {
        variadic_keys(slots.drop_last())
    }
}

/// The first slot, from `from` on, that stands where it may not: an
/// optional slot right before a required one, or a variadic slot that is
/// not the last.
pub open spec fn first_misplaced(slots: Seq<Slot>, from: int) -> Option<GrammarError>
    decreases slots.len() - from,
{
    if from < 0 || from >= slots.len() {
        None
    } else if slots[from].kind == ArgKind::Optional && from + 1 < slots.len() && slots[from
        + 1].kind == ArgKind::Required {
        Some(GrammarError::OptionalBeforeRequired { key: slots[from].key })
    } else if slots[from].kind == ArgKind::Variadic && from + 1 < slots.len() {
        Some(GrammarError::VariadicNotInTail { key: slots[from].key })
    } else {
        first_misplaced(slots, from + 1)
    }
}

/// What is wrong with the order of the slots, if anything: more than one
/// variadic slot, or else the first misplaced slot.
pub open spec fn check_order(slots: Seq<Slot>) -> Option<GrammarError> {
    if variadic_keys(slots).len() > 1 {
        Some(GrammarError::MultipleVariadic { keys: variadic_keys(slots) })
    } else {
        first_misplaced(slots, 0)
    }
}

/// What a usage string compiles to.
pub open spec fn compile(input: Seq<char>) -> Result<Grammar, GrammarError> {
    let usage = trimmed(input);
    if usage.len() == 0 {
        Err(GrammarError::EmptyInput)
    } else {
        match scan(words(usage)) {
            Err(e) => Err(e),
            Ok(slots) => match check_order(slots) {
                Some(e) => Err(e),
                None => Ok(Grammar { usage, slots }),
            },
        }
    }
}

/// An error met in a prefix of the words is the error of the whole.
pub proof fn lemma_scan_error_stays(tokens: Seq<Seq<char>>, n: int)
    requires
        0 <= n <= tokens.len(),
        scan(tokens.take(n)) is Err,
    ensures
        scan(tokens) == scan(tokens.take(n)),
    decreases tokens.len(),
{
    if n == tokens.len() {
        assert(tokens.take(n) =~= tokens);
    } else {
        assert(tokens.drop_last().take(n) =~= tokens.take(n));
        lemma_scan_error_stays(tokens.drop_last(), n);
    }
}

/// Tells whether a character may stand in a key.
fn char_is_key_char(c: char) -> (b: bool)
    ensures
        b == is_key_char(c),
{
    let n: u32 = c as u32;
    (0x41 <= n && n <= 0x5A) || (0x61 <= n && n <= 0x7A) || (0x30 <= n && n <= 0x39) || n == 0x5F
        || n == 0x2D
}

/// Tells whether a key is valid.
pub fn is_valid_key(key: &str) -> (b: bool)
    ensures
        b == valid_key(key@),
{
    let v = chars_of(key);
    if v.len() == 0 {
        return false;
    }
    let mut i: usize = 0;
    while i < v.len()
        invariant
            i <= v.len(),
            v@ == key@,
            forall|j: int| 0 <= j < i ==> is_key_char(#[trigger] key@[j]),
        decreases v.len() - i,
    {
        if !char_is_key_char(v[i]) {
            return false;
        }
        i = i + 1;
    }
    true
}

/// The slot that a word of a usage string stands for, if any.
pub fn classify_token(token: &str) -> (r: Option<ArgType>)
    ensures
        match r {
            Some(a) => classify(token@) == Some(a@),
            None => classify(token@) is None,
        },
{
    let v = chars_of(token);
    let n: usize = v.len();
    if n >= 4 && v[0] == '<' && v[n - 3] == '.' && v[n - 2] == '.' && v[n - 1] == '>' {
        Some(ArgType { key: String::from_str(slice(token, 1, n - 3)), kind: ArgKind::Variadic })
    } else if n >= 3 && v[0] == '<' && v[n - 2] == '?' && v[n - 1] == '>' {
        Some(ArgType { key: String::from_str(slice(token, 1, n - 2)), kind: ArgKind::Optional })
    } else if n >= 2 && v[0] == '<' && v[n - 1] == '>' {
        Some(ArgType { key: String::from_str(slice(token, 1, n - 1)), kind: ArgKind::Required })
    } else {
        None
    }
}

/// Tells whether one of the slots has the key.
fn slots_have_key(args: &Vec<ArgType>, key: &String) -> (b: bool)
    ensures
        b == has_key(slots_of(args@), key@),
{
    let mut i: usize = 0;
    while i < args.len()
        invariant
            i <= args.len(),
            forall|j: int| 0 <= j < i ==> (#[trigger] slots_of(args@)[j]).key != key@,
        decreases args.len() - i,
    {
        if args[i].key == *key {
            assert(slots_of(args@)[i as int].key == key@);
            return true;
        }
        i = i + 1;
    }
    false
}

/// A compiled usage string: the text it was compiled from, and its slots.
#[derive(Clone, Debug, PartialEq, Eq, PartialOrd, Ord)]
pub struct ExampleArgs {
    pub usage: String,
    pub args: Vec<ArgType>,
}

impl View for ExampleArgs {
    type V = Grammar;

    open spec fn view(&self) -> Grammar {
        Grammar { usage: self.usage@, slots: slots_of(self.args@) }
    }
}

impl Default for ExampleArgs {
    /// The grammar without slots, of the empty usage string.
    fn default() -> (r: ExampleArgs)
        ensures
            r@.usage == Seq::<char>::empty(),
            r@.slots == Seq::<Slot>::empty(),
    {
        let r = ExampleArgs { usage: String::new(), args: Vec::new() };
        assert(slots_of(r.args@) =~= Seq::<Slot>::empty());
        r
    }
}

impl std::str::FromStr for ExampleArgs {
    type Err = ExampleError;

    /// Compiles a usage string, as `ExampleArgs::parse` does.
    fn from_str(input: &str) -> (r: Result<ExampleArgs, ExampleError>)
        ensures
            match r {
                Ok(g) => compile(input@) == Ok::<Grammar, GrammarError>(g@) && well_formed(g@),
                Err(e) => compile(input@) == Err::<Grammar, GrammarError>(e@),
            },
    {
        ExampleArgs::parse(input)
    }
}

impl ExampleArgs {
    /// Compiles a usage string.
    ///
    /// The text is trimmed and cut into words. A word `<key>`, `<key?>` or
    /// `<key..>` is a slot; any other word is passed over. The result is
    /// the grammar of these slots, or the first error met.
    pub fn parse(input: &str) -> (r: Result<ExampleArgs, ExampleError>)
        ensures
            match r {
                Ok(g) => compile(input@) == Ok::<Grammar, GrammarError>(g@) && well_formed(g@),
                Err(e) => compile(input@) == Err::<Grammar, GrammarError>(e@),
            },
    {
        proof {
            law_compiled_is_well_formed(input@);
        }
        let usage = trim(input);
        if usage.unicode_len() == 0 {
            return Err(ExampleError::EmptyInput);
        }
        let tokens = split_whitespace(usage);
        let ghost all = words(usage@);
        let mut args: Vec<ArgType> = Vec::new();
        let mut i: usize = 0;
        assert(all.take(0) =~= Seq::<Seq<char>>::empty());
        assert(slots_of(args@) =~= Seq::<Slot>::empty());
        while i < tokens.len()
            invariant
                i <= tokens.len(),
                str_views(tokens@) == all,
                all == words(trimmed(input@)),
                trimmed(input@).len() > 0,
                scan(all.take(i as int)) == Ok::<Seq<Slot>, GrammarError>(slots_of(args@)),
            decreases tokens.len() - i,
        {
            proof {
                assert(all.take(i as int + 1).drop_last() =~= all.take(i as int));
                assert(all.take(i as int + 1).last() == tokens@[i as int]@);
            }
            match classify_token(tokens[i]) {
                None => {},
                Some(arg) => {
                    if slots_have_key(&args, &arg.key) {
                        proof {
                            lemma_scan_error_stays(all, i as int + 1);
                        }
                        return Err(ExampleError::Duplicate { key: arg.key });
                    }
                    if !is_valid_key(arg.key.as_str()) {
                        proof {
                            lemma_scan_error_stays(all, i as int + 1);
                        }
                        return Err(ExampleError::InvalidKey { key: arg.key });
                    }
                    assert(slots_of(args@.push(arg)) =~= slots_of(args@).push(arg@));
                    args.push(arg);
                },
            }
            i = i + 1;
        }
        assert(all.take(i as int) =~= all);
        match Self::validate(args.as_slice()) {
            Err(e) => Err(e),
            Ok(()) => Ok(ExampleArgs { usage: String::from_str(usage), args }),
        }
    }

    /// Checks the order of the slots: at most one variadic slot, which is
    /// then the last, and no optional slot right before a required one.
    pub fn validate(args: &[ArgType]) -> (r: Result<(), ExampleError>)
        ensures
            match r {
                Ok(()) => check_order(slots_of(args@)) is None,
                Err(e) => check_order(slots_of(args@)) == Some(e@),
            },
    {
        let ghost slots = slots_of(args@);
        let mut keys: Vec<String> = Vec::new();
        let mut i: usize = 0;
        assert(slots.take(0) =~= Seq::<Slot>::empty());
        assert(string_views(keys@) =~= Seq::<Seq<char>>::empty());
        while i < args.len()
            invariant
                i <= args.len(),
                slots == slots_of(args@),
                string_views(keys@) == variadic_keys(slots.take(i as int)),
            decreases args.len() - i,
        {
            proof {
                assert(slots.take(i as int + 1).drop_last() =~= slots.take(i as int));
                assert(slots.take(i as int + 1).last() == args@[i as int]@);
            }
            if args[i].kind == ArgKind::Variadic {
                let key = args[i].key.clone();
                assert(string_views(keys@.push(key)) =~= string_views(keys@).push(key@));
                keys.push(key);
            }
            i = i + 1;
        }
        assert(slots.take(i as int) =~= slots);
        if keys.len() > 1 {
            return Err(ExampleError::MultipleVariadic { keys });
        }
        let mut i: usize = 0;
        while i < args.len()
            invariant
                i <= args.len(),
                slots == slots_of(args@),
                variadic_keys(slots).len() <= 1,
                first_misplaced(slots, 0) == first_misplaced(slots, i as int),
            decreases args.len() - i,
        {
            if i + 1 < args.len() {
                if args[i].kind == ArgKind::Optional && args[i + 1].kind == ArgKind::Required {
                    return Err(ExampleError::OptionalBeforeRequired { key: args[i].key.clone() });
                }
                if args[i].kind == ArgKind::Variadic {
                    return Err(ExampleError::VariadicNotInTail { key: args[i].key.clone() });
                }
            }
            i = i + 1;
        }
        Ok(())
    }

    /// A copy of the grammar.
    pub fn duplicate(&self) -> (r: ExampleArgs)
        ensures
            r.usage == self.usage,
            r.args@ == self.args@,
            r@ == self@,
    {
        let mut args: Vec<ArgType> = Vec::new();
        let mut i: usize = 0;
        while i < self.args.len()
            invariant
                i <= self.args.len(),
                args@ == self.args@.take(i as int),
            decreases self.args.len() - i,
        {
            args.push(ArgType { key: self.args[i].key.clone(), kind: self.args[i].kind });
            assert(args@ =~= self.args@.take(i as int + 1));
            i = i + 1;
        }
        assert(self.args@.take(i as int) =~= self.args@);
        ExampleArgs { usage: self.usage.clone(), args }
    }

    /// Tells whether the grammar has a slot of the kind.
    pub fn contains(&self, kind: &ArgKind) -> (b: bool)
        ensures
            b == has_kind(self@.slots, *kind),
    {
        let mut i: usize = 0;
        while i < self.args.len()
            invariant
                i <= self.args.len(),
                forall|j: int| 0 <= j < i ==> (#[trigger] self@.slots[j]).kind != *kind,
            decreases self.args.len() - i,
        {
            if self.args[i].kind == *kind {
                assert(self@.slots[i as int].kind == *kind);
                return true;
            }
            i = i + 1;
        }
        false
    }
}

/// Whether some slot is of the kind.
pub open spec fn has_kind(slots: Seq<Slot>, kind: ArgKind) -> bool {
    exists|i: int| 0 <= i < slots.len() && (#[trigger] slots[i]).kind == kind
}

/// What an extraction yields, as a mathematical value.
pub enum MatchView {
    Required,
    NoMatch,
    Match(Map<Seq<char>, Seq<char>>),
}

/// What an extraction yields.
#[derive(Debug, Clone)]
pub enum Match {
    /// A required slot is left without text.
    Required,
    /// The text does not fit the grammar.
    NoMatch,
    /// The text of each slot that has some, by the key of the slot.
    Match(TextMap<String>),
}

impl View for Match {
    type V = MatchView;

    open spec fn view(&self) -> MatchView {
        match self {
            Match::Required => MatchView::Required,
            Match::NoMatch => MatchView::NoMatch,
            Match::Match(m) => MatchView::Match(texts(m@)),
        }
    }
}

/// The text of the slots from `from` on, added to what was `found`.
///
/// A required or optional slot takes the text up to the first space, and
/// leaves what follows, trimmed, to the next slot. Where the text holds no
/// space, and in a variadic slot, the slot takes all the text and the walk
/// ends; empty text gives the slot no entry.
pub open spec fn bind_slots(
    slots: Seq<Slot>,
    from: int,
    input: Seq<char>,
    found: Map<Seq<char>, Seq<char>>,
) -> Map<Seq<char>, Seq<char>>
    decreases slots.len() - from,
{
    if from < 0 || from >= slots.len() {
        found
    } else if slots[from].kind == ArgKind::Variadic || index_of(input, ' ') is None {
        if input.len() > 0 {
            found.insert(slots[from].key, input)
        } else {
            found
        }
    } else {
        let pos: int = index_of(input, ' ').unwrap();
        bind_slots(
            slots,
            from + 1,
            trimmed(input.skip(pos)),
            found.insert(slots[from].key, input.take(pos)),
        )
    }
}

/// What the slots extract from the text that follows a command.
///
/// Without text, a grammar with a required slot yields `Required`. With
/// text, a grammar without slots yields `NoMatch`. Else each slot takes
/// its text in order.
pub open spec fn extract_spec(slots: Seq<Slot>, input: Seq<char>) -> MatchView {
    if input.len() == 0 && has_kind(slots, ArgKind::Required) {
        MatchView::Required
    } else if input.len() > 0 && slots.len() == 0 {
        MatchView::NoMatch
    } else {
        MatchView::Match(bind_slots(slots, 0, input, Map::empty()))
    }
}

impl ExampleArgs {
    /// Extracts the text of each slot from the text that follows a
    /// command.
    pub fn extract(&self, input: &str) -> (r: Match)
        ensures
            r@ == extract_spec(self@.slots, input@),
            r matches Match::Match(m) ==> m.wf(),
    {
        let empty: bool = input.unicode_len() == 0;
        if empty && self.contains(&ArgKind::Required) {
            return Match::Required;
        }
        if !empty && self.args.len() == 0 {
            return Match::NoMatch;
        }
        let ghost slots = self@.slots;
        let mut map: TextMap<String> = TextMap::new();
        let mut rest: &str = input;
        let mut i: usize = 0;
        assert(texts(map@) =~= Map::<Seq<char>, Seq<char>>::empty());
        while i < self.args.len()
            invariant
                i <= self.args.len(),
                slots == self@.slots,
                map.wf(),
                extract_spec(slots, input@) == MatchView::Match(
                    bind_slots(slots, 0, input@, Map::empty()),
                ),
                bind_slots(slots, 0, input@, Map::empty()) == bind_slots(
                    slots,
                    i as int,
                    rest@,
                    texts(map@),
                ),
            decreases self.args.len() - i,
        {
            let arg = &self.args[i];
            assert(slots[i as int] == arg@);
            let pos = find_char(rest, ' ');
            let n: usize = rest.unicode_len();
            let ghost before = map@;
            if arg.kind == ArgKind::Variadic || pos.is_none() {
                if n > 0 {
                    let text = String::from_str(rest);
                    map.insert(arg.key.clone(), text);
                    assert(texts(map@) =~= texts(before).insert(arg.key@, rest@));
                }
                return Match::Match(map);
            }
            let p: usize = pos.unwrap();
            proof {
                lemma_index_of_from(rest@, ' ', 0);
            }
            let head = String::from_str(slice(rest, 0, p));
            map.insert(arg.key.clone(), head);
            proof {
                assert(rest@.subrange(0, p as int) =~= rest@.take(p as int));
                assert(rest@.subrange(p as int, n as int) =~= rest@.skip(p as int));
                assert(texts(map@) =~= texts(before).insert(arg.key@, rest@.take(p as int)));
            }
            rest = trim(slice(rest, p, n));
            i = i + 1;
        }
        Match::Match(map)
    }
}

/// What the text under a key is cut into by a separator; nothing where
/// the key has no text.
pub open spec fn pieces_of(arguments: Map<Seq<char>, Seq<char>>, key: Seq<char>, sep: Seq<char>)
    -> Seq<Seq<char>> {
    if arguments.contains_key(key) {
        split_by(arguments[key], sep)
    } else {
        Seq::empty()
    }
}

/// The arguments of a command: the text of each slot that has some, by the
/// key of the slot.
#[derive(Debug, Clone)]
pub struct Arguments {
    pub map: TextMap<String>,
}

impl View for Arguments {
    type V = Map<Seq<char>, Seq<char>>;

    open spec fn view(&self) -> Map<Seq<char>, Seq<char>> {
        texts(self.map@)
    }
}

impl Default for Arguments {
    /// No arguments.
    fn default() -> (r: Arguments)
        ensures
            r.wf(),
            r@ == Map::<Seq<char>, Seq<char>>::empty(),
    {
        let r = Arguments { map: TextMap::new() };
        assert(texts(r.map@) =~= Map::<Seq<char>, Seq<char>>::empty());
        r
    }
}

impl Arguments {
    /// The invariant of the arguments: that of their map.
    pub open spec fn wf(&self) -> bool {
        self.map.wf()
    }

    /// Takes the text of a slot out of the arguments.
    pub fn take(&mut self, key: &str) -> (text: String)
        requires
            old(self).wf(),
            old(self)@.contains_key(key@),
        ensures
            final(self).wf(),
            text@ == old(self)@[key@],
            final(self)@ == old(self)@.remove(key@),
    {
        let ghost before = self.map@;
        let gone = self.map.remove(key);
        assert(texts(self.map@) =~= texts(before).remove(key@));
        gone.unwrap()
    }

    /// Takes the text of a slot out of the arguments, and cuts it at its
    /// spaces. A slot without text gives nothing.
    pub fn take_many(&mut self, key: &str) -> (r: Vec<String>)
        requires
            old(self).wf(),
        ensures
            final(self).wf(),
            final(self)@ == old(self)@.remove(key@),
            string_views(r@) == pieces_of(old(self)@, key@, " "@),
    {
        self.take_many_by(key, " ")
    }

    /// Takes the text of a slot out of the arguments, and cuts it at the
    /// separator. A slot without text gives nothing.
    pub fn take_many_by(&mut self, key: &str, sep: &str) -> (r: Vec<String>)
        requires
            old(self).wf(),
        ensures
            final(self).wf(),
            final(self)@ == old(self)@.remove(key@),
            string_views(r@) == pieces_of(old(self)@, key@, sep@),
    {
        let ghost before = self.map@;
        let gone = self.map.remove(key);
        assert(texts(self.map@) =~= texts(before).remove(key@));
        match gone {
            Some(text) => {
                let pieces = split_text(text.as_str(), sep);
                to_strings(&pieces)
            },
            None => {
                let r: Vec<String> = Vec::new();
                assert(string_views(r@) =~= Seq::<Seq<char>>::empty());
                r
            },
        }
    }

    /// The text of a slot, cut at its spaces. A slot without text gives
    /// nothing.
    pub fn get_many(&self, key: &str) -> (r: Vec<&str>)
        requires
            self.wf(),
        ensures
            str_views(r@) == pieces_of(self@, key@, " "@),
    {
        self.get_many_by(key, " ")
    }

    /// The text of a slot, cut at the separator. A slot without text gives
    /// nothing.
    pub fn get_many_by(&self, key: &str, sep: &str) -> (r: Vec<&str>)
        requires
            self.wf(),
        ensures
            str_views(r@) == pieces_of(self@, key@, sep@),
    {
        match self.map.get(key) {
            Some(text) => split_text(text.as_str(), sep),
            None => {
                let r: Vec<&str> = Vec::new();
                assert(str_views(r@) =~= Seq::<Seq<char>>::empty());
                r
            },
        }
    }

    /// Takes the text of a slot out of the arguments, and hands back what
    /// `parse` reads it as.
    pub fn take_parsed<T, E, F: FnOnce(String) -> Result<T, E>>(&mut self, key: &str, parse: F) -> (r:
        Result<T, E>)
        requires
            old(self).wf(),
            old(self)@.contains_key(key@),
            forall|text: String| text@ == old(self)@[key@] ==> call_requires(parse, (text,)),
        ensures
            final(self).wf(),
            final(self)@ == old(self)@.remove(key@),
            exists|text: String| text@ == old(self)@[key@] && call_ensures(parse, (text,), r),
    {
        let text = self.take(key);
        parse(text)
    }

    /// What `parse` reads the text of a slot as, if the slot has text.
    pub fn get_parsed<T, E, F: FnOnce(&str) -> Result<T, E>>(&self, key: &str, parse: F) -> (r:
        Option<Result<T, E>>)
        requires
            self.wf(),
            forall|text: &str| text@ == self@[key@] ==> call_requires(parse, (text,)),
        ensures
            match r {
                Some(read) => self@.contains_key(key@) && exists|text: &str|
                    text@ == self@[key@] && call_ensures(parse, (text,), read),
                None => !self@.contains_key(key@),
            },
    {
        match self.get(key) {
            Some(text) => Some(parse(text)),
            None => None,
        }
    }

    /// The text of a slot, if it has some.
    pub fn get(&self, key: &str) -> (text: Option<&str>)
        requires
            self.wf(),
        ensures
            match text {
                Some(t) => self@.contains_key(key@) && self@[key@] == t@,
                None => !self@.contains_key(key@),
            },
    {
        match self.map.get(key) {
            Some(t) => Some(t.as_str()),
            None => None,
        }
    }
}

} // verus!
