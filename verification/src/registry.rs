//! What is checked of a command before it is registered.

use vstd::prelude::*;
use vstd::string::*;
use crate::alias::{
    aliases_of,
    all_names,
    find_malformed,
    find_repeat,
    first_malformed,
    first_repeat,
    lemma_all_names_add,
    lemma_all_names_push,
    lemma_distinct_no_sharing,
    lemma_first_malformed_none,
    lemma_first_repeat_none,
    lemma_first_true,
    lemma_no_sharing_distinct,
    lemma_well_formed_sound,
    no_sharing,
    repeat_marks,
    repeats,
    texts,
    Aliased,
    Aliases,
};
use crate::command::{Command, CommandView, OptView, __COpt};

verus! {

/// Why a command was not registered.
#[derive(Debug)]
pub enum RegistrationError {
    /// An alias of the wrong length, or with a character that is no letter.
    MalformedAlias(String),
    /// An alias that is in use already.
    DuplicateAlias(String),
}

/// What a [`RegistrationError`] is, over sequences of characters.
pub enum RegistrationErrorView {
    MalformedAlias(Seq<char>),
    DuplicateAlias(Seq<char>),
}

impl View for RegistrationError {
    type V = RegistrationErrorView;

    open spec fn view(&self) -> RegistrationErrorView {
        match self {
            RegistrationError::MalformedAlias(alias) => RegistrationErrorView::MalformedAlias(
                alias@,
            ),
            RegistrationError::DuplicateAlias(alias) => RegistrationErrorView::DuplicateAlias(
                alias@,
            ),
        }
    }
}

impl RegistrationErrorView {
    /// The error in words.
    pub open spec fn message(self) -> Seq<char> {
        match self {
            RegistrationErrorView::MalformedAlias(alias) => "An alias must be made of letters, a long one of two at least and a short one of one: `"@
                + alias + "`"@,
            RegistrationErrorView::DuplicateAlias(alias) => "The alias is in use already: `"@
                + alias + "`"@,
        }
    }
}

impl RegistrationError {
    /// Writes the error in words.
    pub fn message(&self) -> (text: String)
        ensures
            text@ == self@.message(),
    {
        match self {
            RegistrationError::MalformedAlias(alias) => {
                "An alias must be made of letters, a long one of two at least and a short one of one: `".to_owned().concat(
                    alias.as_str(),
                ).concat("`")
            },
            RegistrationError::DuplicateAlias(alias) => {
                "The alias is in use already: `".to_owned().concat(alias.as_str()).concat("`")
            },
        }
    }
}

/// The flag that every registered command gets.
pub open spec fn help_flag() -> OptView {
    OptView { alias: "help"@, alias_short: Some("h"@), desc: "Print help"@ }
}

/// The names that no command may take: those of the help and version
/// options.
pub open spec fn reserved() -> Seq<(Seq<char>, bool)> {
    seq![("help"@, true), ("h"@, false), ("version"@, true), ("v"@, false)]
}

/// The aliases of each command of a list.
pub open spec fn command_aliases(commands: Seq<CommandView>) -> Seq<Aliases> {
    Seq::new(commands.len(), |i: int| commands[i].aliases())
}

/// The names that are taken once `commands` are registered.
pub open spec fn taken(commands: Seq<CommandView>) -> Seq<(Seq<char>, bool)> {
    reserved() + all_names(command_aliases(commands))
}

impl CommandView {
    /// The names of the command's options: those of the flags, then those of
    /// the options that take a value.
    pub open spec fn option_names(self) -> Seq<(Seq<char>, bool)> {
        all_names(self.flag_aliases()) + all_names(self.value_aliases())
    }

    /// Every name that the command declares: its own, then those of its
    /// options.
    pub open spec fn declared_names(self) -> Seq<(Seq<char>, bool)> {
        self.aliases().names() + self.option_names()
    }

    /// The names among which a registered command finds its options: those
    /// that it declares, then those of the help flag.
    pub open spec fn option_space(self) -> Seq<(Seq<char>, bool)> {
        self.option_names() + help_flag().aliases().names()
    }

    /// What is wrong with the command by itself: its first malformed name,
    /// else the first name of an option that repeats an earlier one.
    pub open spec fn shape_error(self) -> Option<RegistrationErrorView> {
        let declared = self.declared_names();
        match first_malformed(declared) {
            Some(i) => Some(RegistrationErrorView::MalformedAlias(declared[i].0)),
            None => {
                let space = texts(self.option_space());
                match first_repeat(space, 0) {
                    Some(j) => Some(RegistrationErrorView::DuplicateAlias(space[j])),
                    None => None,
                }
            },
        }
    }

    /// What keeps the command from being registered beside `registered`: what
    /// is wrong with it by itself, else the first of its own names that is
    /// taken.
    pub open spec fn registration_error(self, registered: Seq<CommandView>) -> Option<
        RegistrationErrorView,
    > {
        match self.shape_error() {
            Some(e) => Some(e),
            None => {
                let space = texts(taken(registered) + self.aliases().names());
                match first_repeat(space, taken(registered).len() as int) {
                    Some(j) => Some(RegistrationErrorView::DuplicateAlias(space[j])),
                    None => None,
                }
            },
        }
    }

    /// The command as it is registered: with the help flag after its own.
    pub open spec fn with_help(self) -> CommandView {
        CommandView { opts: self.opts.push(help_flag()), ..self }
    }
}

/// Appends the names of each item of `items` to `names`.
pub fn push_names<T: Aliased>(items: &Vec<T>, names: &mut Vec<(String, bool)>)
    ensures
        final(names).deep_view() == old(names).deep_view() + all_names(aliases_of(items@)),
{
    let ghost before = names.deep_view();
    let ghost all = aliases_of(items@);
    let mut i: usize = 0;
    assert(names.deep_view() =~= before + all_names(all.take(0)));
    while i < items.len()
        invariant
            i <= items.len(),
            all == aliases_of(items@),
            names.deep_view() == before + all_names(all.take(i as int)),
        decreases items.len() - i,
    {
        let ghost prev = names.deep_view();
        names.push((items[i].long_alias().clone(), true));
        assert(names.deep_view() =~= prev.push((all[i as int].long, true)));
        match items[i].short_alias() {
            Some(short) => {
                names.push((short.clone(), false));
                assert(names.deep_view() =~= prev.push((all[i as int].long, true)).push(
                    (all[i as int].short->0, false),
                ));
            },
            None => {},
        }
        proof {
            lemma_all_names_push(all.take(i as int), all[i as int]);
            assert(all.take(i as int).push(all[i as int]) =~= all.take(i as int + 1));
            assert(names.deep_view() =~= before + all_names(all.take(i as int + 1)));
        }
        i += 1;
    }
    assert(all.take(items.len() as int) =~= all);
}

/// Appends one name to `names`.
pub fn push_name(names: &mut Vec<(String, bool)>, text: &str, long: bool)
    ensures
        final(names).deep_view() == old(names).deep_view().push((text@, long)),
{
    names.push((text.to_owned(), long));
    assert(names.deep_view() =~= old(names).deep_view().push((text@, long)));
}

/// The texts of a list of names.
pub fn texts_of(names: &Vec<(String, bool)>) -> (list: Vec<String>)
    ensures
        list.deep_view() == texts(names.deep_view()),
{
    let mut list: Vec<String> = Vec::new();
    let mut i: usize = 0;
    while i < names.len()
        invariant
            i <= names.len(),
            list.len() == i,
            forall|j: int| 0 <= j < i ==> (#[trigger] list[j])@ == names[j].0@,
        decreases names.len() - i,
    {
        list.push(names[i].0.clone());
        i += 1;
    }
    assert(list.deep_view() =~= texts(names.deep_view()));
    list
}

/// The help flag.
pub fn help_option() -> (flag: __COpt)
    ensures
        flag@ == help_flag(),
{
    __COpt::new("help", Some("h"), "Print help")
}

/// The names of one command or option.
pub fn names_of<T: Aliased>(item: &T) -> (names: Vec<(String, bool)>)
    ensures
        names.deep_view() == item.aliases().names(),
{
    let mut names: Vec<(String, bool)> = Vec::new();
    names.push((item.long_alias().clone(), true));
    match item.short_alias() {
        Some(short) => {
            names.push((short.clone(), false));
        },
        None => {},
    }
    assert(names.deep_view() =~= item.aliases().names());
    names
}

/// Checks a command by itself: that each of its names is well formed, and
/// that no two names of its options, the help flag among them, are the same.
pub fn check_shape(command: &Command) -> (r: Result<(), RegistrationError>)
    ensures
        match command@.shape_error() {
            Some(e) => r is Err && r->Err_0@ == e,
            None => r is Ok,
        },
{
    proof {
        assert(aliases_of(command.options@) =~= command@.flag_aliases());
        assert(aliases_of(command.optional_args@) =~= command@.value_aliases());
    }
    let mut declared = names_of(command);
    push_names(&command.options, &mut declared);
    push_names(&command.optional_args, &mut declared);
    assert(declared.deep_view() =~= command@.declared_names());
    match find_malformed(&declared) {
        Some(i) => {
            return Err(RegistrationError::MalformedAlias(declared[i].0.clone()));
        },
        None => {},
    }
    let mut space: Vec<(String, bool)> = Vec::new();
    assert(space.deep_view() =~= Seq::empty());
    push_names(&command.options, &mut space);
    push_names(&command.optional_args, &mut space);
    push_name(&mut space, "help", true);
    push_name(&mut space, "h", false);
    assert(space.deep_view() =~= command@.option_space());
    let list = texts_of(&space);
    match find_repeat(&list, 0) {
        Some(j) => Err(RegistrationError::DuplicateAlias(list[j].clone())),
        None => Ok(()),
    }
}

/// Checks a command against those that are registered: by itself first, and
/// then that none of its own names is reserved or taken.
pub fn check_registration(registered: &Vec<Command>, command: &Command) -> (r: Result<
    (),
    RegistrationError,
>)
    ensures
        match command@.registration_error(registered.deep_view()) {
            Some(e) => r is Err && r->Err_0@ == e,
            None => r is Ok,
        },
{
    match check_shape(command) {
        Err(e) => {
            return Err(e);
        },
        Ok(()) => {},
    }
    let mut space: Vec<(String, bool)> = Vec::new();
    assert(space.deep_view() =~= Seq::empty());
    push_name(&mut space, "help", true);
    push_name(&mut space, "h", false);
    push_name(&mut space, "version", true);
    push_name(&mut space, "v", false);
    assert(space.deep_view() =~= reserved());
    push_names(registered, &mut space);
    proof {
        assert(aliases_of(registered@) =~= command_aliases(registered.deep_view()));
        assert(space.deep_view() =~= taken(registered.deep_view()));
    }
    let from = space.len();
    let mut own = names_of(command);
    space.append(&mut own);
    assert(space.deep_view() =~= taken(registered.deep_view()) + command@.aliases().names());
    let list = texts_of(&space);
    match find_repeat(&list, from) {
        Some(j) => Err(RegistrationError::DuplicateAlias(list[j].clone())),
        None => Ok(()),
    }
}

/// The aliases of the help and version options.
pub open spec fn reserved_aliases() -> Seq<Aliases> {
    seq![
        Aliases { long: "help"@, short: Some("h"@) },
        Aliases { long: "version"@, short: Some("v"@) },
    ]
}

impl CommandView {
    /// The aliases of the command's options: those of the flags, then those
    /// of the options that take a value.
    pub open spec fn option_aliases(self) -> Seq<Aliases> {
        self.flag_aliases() + self.value_aliases()
    }

    /// Every name of the command is well formed, and no two of its options
    /// share a name.
    pub open spec fn sound(self) -> bool {
        &&& self.aliases().sound()
        &&& forall|i: int|
            0 <= i < self.option_aliases().len() ==> (#[trigger] self.option_aliases()[i]).sound()
        &&& no_sharing(self.option_aliases())
    }

    /// The command is as a registered one is: sound, and with the help flag
    /// as the last of its flags.
    pub open spec fn valid(self) -> bool {
        &&& self.sound()
        &&& self.opts.len() > 0
        &&& self.opts.last() == help_flag()
    }
}

/// What holds of the commands of an application: each is valid, and no two
/// of them share a name with each other or with the help and version
/// options.
pub open spec fn registry_sound(commands: Seq<CommandView>) -> bool {
    &&& forall|i: int| 0 <= i < commands.len() ==> (#[trigger] commands[i]).valid()
    &&& no_sharing(reserved_aliases() + command_aliases(commands))
}

/// The names of a single item.
pub proof fn lemma_all_names_one(item: Aliases)
    ensures
        all_names(seq![item]) == item.names(),
{
    lemma_all_names_push(Seq::empty(), item);
    assert(Seq::<Aliases>::empty().push(item) =~= seq![item]);
    assert(all_names(Seq::<Aliases>::empty()) + item.names() =~= item.names());
}

/// The reserved names are those of the reserved aliases.
pub proof fn lemma_reserved()
    ensures
        reserved() == all_names(reserved_aliases()),
        taken(Seq::empty()) == reserved(),
        forall|commands: Seq<CommandView>| #[trigger]
            taken(commands) == all_names(reserved_aliases() + command_aliases(commands)),
{
    let help = Aliases { long: "help"@, short: Some("h"@) };
    let version = Aliases { long: "version"@, short: Some("v"@) };
    lemma_all_names_one(help);
    lemma_all_names_push(seq![help], version);
    assert(seq![help].push(version) =~= reserved_aliases());
    assert(help.names() + version.names() =~= reserved());
    assert(command_aliases(Seq::empty()) =~= Seq::<Aliases>::empty());
    assert(reserved() + all_names(Seq::<Aliases>::empty()) =~= reserved());
    assert forall|commands: Seq<CommandView>| #[trigger]
        taken(commands) == all_names(reserved_aliases() + command_aliases(commands)) by {
        lemma_all_names_add(reserved_aliases(), command_aliases(commands));
    }
}

/// The names of the help flag are well formed.
pub proof fn lemma_help_sound()
    ensures
        help_flag().aliases().sound(),
{
    reveal_strlit("help");
    reveal_strlit("h");
}

/// A command that is refused for nothing by itself is valid once it has the
/// help flag.
pub proof fn lemma_accepted_shape(command: CommandView)
    requires
        command.shape_error() is None,
    ensures
        command.with_help().valid(),
{
    let own = command.aliases();
    let flags = command.flag_aliases();
    let values = command.value_aliases();
    let help = help_flag().aliases();
    let after = command.with_help();
    // every declared name is well formed
    let declared = seq![own] + flags + values;
    lemma_all_names_one(own);
    lemma_all_names_add(seq![own], flags);
    lemma_all_names_add(seq![own] + flags, values);
    assert(all_names(declared) =~= command.declared_names());
    lemma_first_malformed_none(command.declared_names());
    lemma_well_formed_sound(declared);
    assert(declared[0].sound());
    lemma_help_sound();
    assert(after.flag_aliases() =~= flags.push(help));
    assert(after.value_aliases() == values);
    assert forall|i: int| 0 <= i < after.option_aliases().len() implies (
    #[trigger] after.option_aliases()[i]).sound() by {
        if i < flags.len() {
            assert(after.option_aliases()[i] == declared[i + 1]);
        } else if i == flags.len() {
        } else {
            assert(after.option_aliases()[i] == declared[i]);
        }
    }
    // no two options share a name
    let space = flags + values + seq![help];
    lemma_all_names_one(help);
    lemma_all_names_add(flags, values);
    lemma_all_names_add(flags + values, seq![help]);
    assert(all_names(space) =~= command.option_space());
    lemma_first_repeat_none(texts(command.option_space()));
    lemma_distinct_no_sharing(space);
    let moved = after.option_aliases();
    assert forall|i: int, j: int|
        0 <= i < moved.len() && 0 <= j < moved.len() && i != j implies !(#[trigger] moved[i]).shares(
        #[trigger] moved[j],
    ) by {
        let fi = if i < flags.len() {
            i
        } else if i == flags.len() {
            space.len() - 1
        } else {
            i - 1
        };
        let fj = if j < flags.len() {
            j
        } else if j == flags.len() {
            space.len() - 1
        } else {
            j - 1
        };
        assert(moved[i] == space[fi]);
        assert(moved[j] == space[fj]);
        assert(!space[fi].shares(space[fj]));
    }
    assert forall|i: int| 0 <= i < moved.len() implies (#[trigger] moved[i]).short != Some(
        moved[i].long,
    ) by {
        let fi = if i < flags.len() {
            i
        } else if i == flags.len() {
            space.len() - 1
        } else {
            i - 1
        };
        assert(moved[i] == space[fi]);
    }
}

/// A command that is accepted beside sound commands leaves them sound, and
/// shares no name with any of them.
pub proof fn lemma_accepted(registered: Seq<CommandView>, command: CommandView)
    requires
        command.registration_error(registered) is None,
        registry_sound(registered),
    ensures
        registry_sound(registered.push(command.with_help())),
{
    lemma_accepted_shape(command);
    lemma_reserved();
    let before = reserved_aliases() + command_aliases(registered);
    let own = command.aliases();
    let after = before.push(own);
    lemma_all_names_push(before, own);
    lemma_no_sharing_distinct(before);
    let list = texts(taken(registered) + own.names());
    assert(texts(all_names(after)) =~= list);
    lemma_first_true(repeat_marks(list), taken(registered).len() as int);
    assert forall|p: int, q: int| 0 <= p < q < list.len() implies list[p] != list[q] by {
        if q < taken(registered).len() {
            assert(texts(all_names(before))[p] == list[p]);
            assert(texts(all_names(before))[q] == list[q]);
        } else {
            assert(!repeat_marks(list)[q]);
        }
    }
    lemma_distinct_no_sharing(after);
    assert(after =~= reserved_aliases() + command_aliases(
        registered.push(command.with_help()),
    ));
}

} // verus!
