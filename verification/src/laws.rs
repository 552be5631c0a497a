//! What holds of every registry and every argument list, proved from the
//! definitions of the registration check, the classifier and the matcher.

use vstd::prelude::*;
use crate::alias::{
    find_alias,
    lemma_find_alias,
    lemma_first_true,
    lemma_names_at,
    names_before,
    repeat_marks,
    repeats,
    texts,
    Aliases,
};
use crate::app::{register_all, AppView};
use crate::command::{CommandView, OptArgView, OptView};
use crate::matcher::{
    flags_given,
    values_given,
    MatchView,
    MatcherView,
    ParseErrorView,
    Registry,
};
use crate::parse::{classify, strip_dashes, DefCmdState, TokenView};
use crate::registry::{
    command_aliases,
    help_flag,
    lemma_accepted_shape,
    lemma_reserved,
    registry_sound,
    reserved_aliases,
    taken,
};
use crate::text::has_dash_prefix;

verus! {

/// A command that shares a name with one of the aliases that are taken, a
/// reserved one or that of a registered command, is refused.
proof fn lemma_taken_refused(registered: Seq<CommandView>, command: CommandView, k: int)
    requires
        0 <= k < (reserved_aliases() + command_aliases(registered)).len(),
        (reserved_aliases() + command_aliases(registered))[k].shares(command.aliases()),
    ensures
        command.registration_error(registered) is Some,
{
    if command.shape_error() is None {
        lemma_reserved();
        let before = reserved_aliases() + command_aliases(registered);
        let own = command.aliases();
        let list = texts(taken(registered) + own.names());
        let from = taken(registered).len() as int;
        lemma_names_at(before, k);
        let p = names_before(before, k);
        assert(list[p] == before[k].long);
        if before[k].short is Some {
            assert(list[p + 1] == before[k].short->0);
        }
        assert(list[from] == own.long);
        if own.short is Some {
            assert(list[from + 1] == own.short->0);
        }
        lemma_first_true(repeat_marks(list), from);
        if before[k].has(own.long) {
            assert(repeats(list, from));
            assert(repeat_marks(list)[from]);
        } else {
            assert(repeats(list, from + 1));
            assert(repeat_marks(list)[from + 1]);
        }
    }
}

/// A command that shares a long or a short alias with a registered command
/// is refused.
pub proof fn law_shared_command_alias_refused(
    registered: Seq<CommandView>,
    command: CommandView,
    i: int,
)
    requires
        0 <= i < registered.len(),
        registered[i].aliases().shares(command.aliases()),
    ensures
        command.registration_error(registered) is Some,
{
    lemma_taken_refused(registered, command, reserved_aliases().len() + i);
}

/// A command that goes by a name of the help or the version option is
/// refused.
pub proof fn law_reserved_alias_refused(registered: Seq<CommandView>, command: CommandView)
    requires
        command.aliases().has("help"@) || command.aliases().has("h"@) || command.aliases().has(
            "version"@,
        ) || command.aliases().has("v"@),
    ensures
        command.registration_error(registered) is Some,
{
    if command.aliases().has("help"@) || command.aliases().has("h"@) {
        lemma_taken_refused(registered, command, 0);
    } else {
        lemma_taken_refused(registered, command, 1);
    }
}

/// A command with two options that share a long or a short alias, be they
/// flags or options with a value, is refused.
pub proof fn law_shared_option_alias_refused(
    registered: Seq<CommandView>,
    command: CommandView,
    i: int,
    j: int,
)
    requires
        0 <= i < j < command.option_aliases().len(),
        command.option_aliases()[i].shares(command.option_aliases()[j]),
    ensures
        command.registration_error(registered) is Some,
{
    if command.shape_error() is None {
        lemma_accepted_shape(command);
        let flags = command.flag_aliases();
        let moved = command.with_help().option_aliases();
        assert(command.with_help().flag_aliases() =~= flags.push(help_flag().aliases()));
        let fi = if i < flags.len() {
            i
        } else {
            i + 1
        };
        let fj = if j < flags.len() {
            j
        } else {
            j + 1
        };
        assert(moved[fi] == command.option_aliases()[i]);
        assert(moved[fj] == command.option_aliases()[j]);
        assert(!moved[fi].shares(moved[fj]));
    }
}

/// A command with an option that goes by a name of the help flag is
/// refused.
pub proof fn law_help_alias_refused(registered: Seq<CommandView>, command: CommandView, i: int)
    requires
        0 <= i < command.option_aliases().len(),
        command.option_aliases()[i].shares(help_flag().aliases()),
    ensures
        command.registration_error(registered) is Some,
{
    if command.shape_error() is None {
        lemma_accepted_shape(command);
        let flags = command.flag_aliases();
        let moved = command.with_help().option_aliases();
        assert(command.with_help().flag_aliases() =~= flags.push(help_flag().aliases()));
        let fi = if i < flags.len() {
            i
        } else {
            i + 1
        };
        assert(moved[fi] == command.option_aliases()[i]);
        assert(moved[flags.len() as int] == help_flag().aliases());
        assert(!moved[fi].shares(moved[flags.len() as int]));
    }
}

/// Where a command of a list shares a name with a registered one, the list
/// is refused.
proof fn lemma_register_all_taken(
    registered: Seq<CommandView>,
    new: Seq<CommandView>,
    k: int,
    j: int,
)
    requires
        0 <= k < registered.len(),
        0 <= j < new.len(),
        registered[k].aliases().shares(new[j].aliases()),
    ensures
        register_all(registered, new) is Err,
    decreases new.len(),
{
    if new.first().registration_error(registered) is None {
        if j == 0 {
            law_shared_command_alias_refused(registered, new[0], k);
        } else {
            lemma_register_all_taken(
                registered.push(new.first().with_help()),
                new.drop_first(),
                k,
                j - 1,
            );
        }
    }
}

/// A list of commands of which two share a long or a short alias is refused
/// as a whole, whatever was registered before.
pub proof fn law_shared_alias_in_list_refused(
    registered: Seq<CommandView>,
    new: Seq<CommandView>,
    i: int,
    j: int,
)
    requires
        0 <= i < j < new.len(),
        new[i].aliases().shares(new[j].aliases()),
    ensures
        register_all(registered, new) is Err,
    decreases new.len(),
{
    if new.first().registration_error(registered) is None {
        let next = registered.push(new.first().with_help());
        if i == 0 {
            lemma_register_all_taken(next, new.drop_first(), registered.len() as int, j - 1);
        } else {
            law_shared_alias_in_list_refused(next, new.drop_first(), i - 1, j - 1);
        }
    }
}

/// Among sound commands a name finds one command only: the command that
/// goes by an alias is the one that a lookup of that alias gives, whatever
/// the order in which the commands were registered.
pub proof fn law_lookup_finds_the_command(registry: Registry, alias: Seq<char>, i: int)
    requires
        registry_sound(registry.commands),
        0 <= i < registry.commands.len(),
        registry.commands[i].aliases().has(alias),
    ensures
        registry.resolve(alias) == Some(i),
{
    let aliases = command_aliases(registry.commands);
    lemma_find_alias(aliases, alias);
    let all = reserved_aliases() + aliases;
    match registry.resolve(alias) {
        Some(k) => {
            if k != i {
                assert(all[2 + k] == aliases[k]);
                assert(all[2 + i] == aliases[i]);
                assert(!all[2 + k].shares(all[2 + i]));
                assert(all[2 + i].short != Some(all[2 + i].long));
            }
        },
        None => {
            assert(aliases[i].has(alias));
        },
    }
}

/// No token of the list names a command.
pub open spec fn no_command_name(tokens: Seq<TokenView>) -> bool {
    forall|k: int| 0 <= k < tokens.len() ==> !(#[trigger] tokens[k] is Cmd)
}

/// A run over tokens of which none names a command leaves the active
/// command as it was, and every flag that was seen stays seen.
proof fn lemma_run_keeps(registry: Registry, m: MatcherView, tokens: Seq<TokenView>)
    requires
        registry.fits(m),
        no_command_name(tokens),
        registry.run(m, tokens) is Ok,
    ensures
        registry.run(m, tokens)->Ok_0.command == m.command,
        registry.run(m, tokens)->Ok_0.options.len() == m.options.len(),
        forall|i: int|
            0 <= i < m.options.len() && m.options[i] ==> registry.run(m, tokens)->Ok_0.options[i],
    decreases tokens.len(),
{
    if tokens.len() > 0 {
        let next = registry.step(m, tokens.first())->Ok_0;
        registry.lemma_step_fits(m, tokens.first());
        assert(!(tokens[0] is Cmd));
        let command = registry.active(m.command);
        lemma_find_alias(command.flag_aliases(), strip_dashes(tokens.first().text()));
        assert forall|k: int| 0 <= k < tokens.drop_first().len() implies !(
        #[trigger] tokens.drop_first()[k] is Cmd) by {
            assert(tokens.drop_first()[k] == tokens[k + 1]);
        }
        lemma_run_keeps(registry, next, tokens.drop_first());
        let last = registry.run(next, tokens.drop_first())->Ok_0;
        assert(registry.run(m, tokens) == Ok::<MatcherView, ParseErrorView>(last));
        assert forall|i: int| 0 <= i < m.options.len() && m.options[i] implies last.options[i] by {
            assert(next.options[i]);
        }
    }
}

/// A call of a registered command with only what the command can take and
/// as many positional values as it takes is matched to that command, with
/// those values in the order in which they were given; with fewer values it
/// fails for the number of arguments, which the error states, and with more
/// it fails for too many; never is a value dropped.
pub proof fn law_arity(registry: Registry, alias: Seq<char>, rest: Seq<TokenView>)
    requires
        registry.resolve(alias) is Some,
        registry.commands[registry.resolve(alias)->0].positional_values(rest) is Some,
    ensures
        ({
            let i = registry.resolve(alias)->0;
            let arity = registry.commands[i].arity();
            let given = registry.commands[i].positional_values(rest)->0.len();
            let outcome = registry.matched(seq![TokenView::Cmd(alias)] + rest);
            &&& given == arity ==> (outcome matches Ok(found) && found.command == Some(i)
                && found.args == registry.commands[i].positional_values(rest)->0)
            &&& given < arity ==> outcome == Err::<MatchView, ParseErrorView>(
                ParseErrorView::ArityMismatch(arity, given),
            )
            &&& given > arity ==> (outcome matches Err(ParseErrorView::TooManyArguments(_, n))
                && n == arity)
            &&& given != arity ==> (outcome matches Err(e) && e.is_arity_error())
        }),
{
    let i = registry.resolve(alias)->0;
    let start = registry.start();
    let first = seq![TokenView::Cmd(alias)];
    lemma_find_alias(command_aliases(registry.commands), alias);
    registry.lemma_run_one(start, TokenView::Cmd(alias));
    registry.lemma_run_add(start, first, rest);
    let m = registry.step(start, TokenView::Cmd(alias))->Ok_0;
    registry.lemma_run_counts(m, rest);
}

/// With no default command chosen, an argument list that names a registered
/// command and then holds only what that command can take is matched to it
/// where the positional values are as many as the command takes, and fails
/// with an arity error where they are fewer or more.
pub proof fn law_arity_of_call(app: AppView, args: Seq<Seq<char>>)
    requires
        app.def_cmd_state == DefCmdState::Def,
        args.len() > 0,
        !has_dash_prefix(args[0]),
        app.registry().resolve(args[0]) is Some,
        app.commands[app.registry().resolve(args[0])->0].positional_values(
            classify(args, app.def_cmd_state).drop_first(),
        ) is Some,
    ensures
        ({
            let i = app.registry().resolve(args[0])->0;
            let arity = app.commands[i].arity();
            let given = app.commands[i].positional_values(
                classify(args, app.def_cmd_state).drop_first(),
            )->0.len();
            &&& given == arity ==> (app.parse(args) matches Ok(found) && found.command == Some(i)
                && found.args == app.commands[i].positional_values(
                classify(args, app.def_cmd_state).drop_first(),
            )->0)
            &&& given != arity ==> (app.parse(args) matches Err(e) && e.is_arity_error())
        }),
{
    let tokens = classify(args, app.def_cmd_state);
    assert(tokens =~= seq![TokenView::Cmd(args[0])] + tokens.drop_first());
    law_arity(app.registry(), args[0], tokens.drop_first());
}

/// Where a default command was chosen, an argument list with only what
/// that command can take and as many positional values as it takes is
/// matched to it; with fewer values it fails for the number of arguments,
/// and with more for too many.
pub proof fn law_arity_of_default(registry: Registry, tokens: Seq<TokenView>)
    requires
        registry.default_command.positional_values(tokens) is Some,
    ensures
        ({
            let arity = registry.default_command.arity();
            let given = registry.default_command.positional_values(tokens)->0.len();
            let outcome = registry.matched(tokens);
            &&& given == arity ==> (outcome matches Ok(found) && found.command is None
                && found.args == registry.default_command.positional_values(tokens)->0)
            &&& given < arity ==> outcome == Err::<MatchView, ParseErrorView>(
                ParseErrorView::ArityMismatch(arity, given),
            )
            &&& given > arity ==> (outcome matches Err(ParseErrorView::TooManyArguments(_, n))
                && n == arity)
            &&& given != arity ==> (outcome matches Err(e) && e.is_arity_error())
        }),
{
    registry.lemma_run_counts(registry.start(), tokens);
}

/// A flag that is given again changes nothing: where an option was read as
/// a flag, and later, with no command named in between, the matcher is
/// ready for an option once more, an option there that goes by a name of the
/// same flag, the long or the short one, is matched as if it were not
/// there.
pub proof fn law_flag_given_again(
    registry: Registry,
    before: Seq<TokenView>,
    raw: Seq<char>,
    between: Seq<TokenView>,
    again: Seq<char>,
    after: Seq<TokenView>,
)
    requires
        registry.run(registry.start(), before) matches Ok(m) && m.state is Start
            && registry.active(m.command).flag(strip_dashes(raw)) is Some && registry.active(
            m.command,
        ).flag(strip_dashes(again)) == registry.active(m.command).flag(strip_dashes(raw)),
        no_command_name(between),
        registry.run(registry.start(), before + seq![TokenView::Opt(raw)] + between) matches Ok(
            n,
        ) && n.state is Start,
    ensures
        registry.matched(
            before + seq![TokenView::Opt(raw)] + between + seq![TokenView::Opt(again)] + after,
        ) == registry.matched(before + seq![TokenView::Opt(raw)] + between + after),
{
    let start = registry.start();
    let flag = TokenView::Opt(raw);
    let second = TokenView::Opt(again);
    let m = registry.run(start, before)->Ok_0;
    let command = registry.active(m.command);
    let i = command.flag(strip_dashes(raw))->0;
    lemma_find_alias(command.flag_aliases(), strip_dashes(raw));
    registry.lemma_run_fits(start, before);
    registry.lemma_run_add(start, before, seq![flag]);
    registry.lemma_run_one(m, flag);
    let seen = registry.step(m, flag)->Ok_0;
    registry.lemma_step_fits(m, flag);
    registry.lemma_run_add(start, before + seq![flag], between);
    let n = registry.run(seen, between)->Ok_0;
    registry.lemma_run_fits(seen, between);
    assert(seen.options[i]);
    lemma_run_keeps(registry, seen, between);
    assert(n.options.update(i, true) =~= n.options);
    registry.lemma_run_one(n, second);
    assert(registry.step(n, second) == Ok::<MatcherView, ParseErrorView>(n));
    let once = before + seq![flag] + between;
    registry.lemma_run_add(start, once, seq![second]);
    registry.lemma_run_add(start, once + seq![second], after);
    registry.lemma_run_add(start, once, after);
}

/// `with` is `plain`, or it is `plain` with the flag at `i` of the command
/// `command` seen, while that command is active.
pub open spec fn flag_added(plain: MatcherView, with: MatcherView, command: Option<int>, i: int) -> bool {
    with == plain || (plain.command == command && with == MatcherView {
        options: plain.options.update(i, true),
        ..plain
    })
}

/// A step keeps two matchers as `flag_added` has them, and fails for one
/// just where it fails for the other, with the same error.
proof fn lemma_step_flag_added(
    registry: Registry,
    plain: MatcherView,
    with: MatcherView,
    command: Option<int>,
    i: int,
    token: TokenView,
)
    requires
        registry.fits(plain),
        registry.has(command),
        0 <= i < registry.active(command).opts.len(),
        flag_added(plain, with, command, i),
    ensures
        match registry.step(plain, token) {
            Ok(next) => registry.step(with, token) matches Ok(other) && flag_added(
                next,
                other,
                command,
                i,
            ),
            Err(e) => registry.step(with, token) == Err::<MatcherView, ParseErrorView>(e),
        },
{
    if with != plain {
        let active = registry.active(command);
        lemma_find_alias(active.flag_aliases(), strip_dashes(token.text()));
        lemma_find_alias(active.value_aliases(), strip_dashes(token.text()));
        match registry.step(plain, token) {
            Ok(next) => {
                let other = registry.step(with, token)->Ok_0;
                if next.command == plain.command && !(plain.state is Start && token is Cmd) {
                    assert(other.options =~= next.options.update(i, true));
                }
            },
            Err(_) => {},
        }
    }
}

/// A run keeps two matchers as `flag_added` has them, and fails for one
/// just where it fails for the other, with the same error.
proof fn lemma_run_flag_added(
    registry: Registry,
    plain: MatcherView,
    with: MatcherView,
    command: Option<int>,
    i: int,
    tokens: Seq<TokenView>,
)
    requires
        registry.fits(plain),
        registry.has(command),
        0 <= i < registry.active(command).opts.len(),
        flag_added(plain, with, command, i),
    ensures
        match registry.run(plain, tokens) {
            Ok(last) => registry.run(with, tokens) matches Ok(other) && flag_added(
                last,
                other,
                command,
                i,
            ),
            Err(e) => registry.run(with, tokens) == Err::<MatcherView, ParseErrorView>(e),
        },
    decreases tokens.len(),
{
    if tokens.len() > 0 {
        lemma_step_flag_added(registry, plain, with, command, i, tokens.first());
        registry.lemma_step_fits(plain, tokens.first());
        match registry.step(plain, tokens.first()) {
            Ok(next) => {
                let other = registry.step(with, tokens.first())->Ok_0;
                lemma_run_flag_added(registry, next, other, command, i, tokens.drop_first());
            },
            Err(_) => {},
        }
    }
}

/// One more occurrence of a flag changes nothing: where an argument list
/// is matched with the flag seen, the same list with an option that goes by
/// a name of that flag, the long or the short one, put in at any place
/// where an option may stand, before or after the others, is matched to the
/// same invocation; and where the list fails, so does the longer one, with
/// the same error.
pub proof fn law_flag_idempotent(
    registry: Registry,
    before: Seq<TokenView>,
    raw: Seq<char>,
    after: Seq<TokenView>,
)
    requires
        registry.run(registry.start(), before) matches Ok(m) && m.state is Start
            && registry.active(m.command).flag(strip_dashes(raw)) is Some,
        registry.matched(before + after) matches Ok(found) ==> ({
            let m = registry.run(registry.start(), before)->Ok_0;
            found.command == m.command ==> found.options[registry.active(m.command).flag(
                strip_dashes(raw),
            )->0]
        }),
    ensures
        registry.matched(before + seq![TokenView::Opt(raw)] + after) == registry.matched(
            before + after,
        ),
{
    let start = registry.start();
    let flag = TokenView::Opt(raw);
    let m = registry.run(start, before)->Ok_0;
    let command = registry.active(m.command);
    let i = command.flag(strip_dashes(raw))->0;
    lemma_find_alias(command.flag_aliases(), strip_dashes(raw));
    registry.lemma_run_fits(start, before);
    registry.lemma_run_add(start, before, seq![flag]);
    registry.lemma_run_one(m, flag);
    let seen = registry.step(m, flag)->Ok_0;
    registry.lemma_run_add(start, before + seq![flag], after);
    registry.lemma_run_add(start, before, after);
    lemma_run_flag_added(registry, m, seen, m.command, i, after);
    match registry.run(m, after) {
        Ok(last) => {
            let other = registry.run(seen, after)->Ok_0;
            registry.lemma_run_fits(m, after);
            if other != last && registry.finish(last) is Ok {
                assert(last.options.update(i, true) =~= last.options);
            }
        },
        Err(_) => {},
    }
}

/// In a call too one more occurrence of a flag changes nothing: an argument
/// that is an option by a name of a flag, put in after the first argument
/// at a place where an option may stand, or anywhere such where a default
/// command was chosen, leaves what the arguments stand for as it is where
/// they stand for an invocation with that flag seen, and leaves the error
/// as it is where they fail.
pub proof fn law_flag_idempotent_in_call(
    app: AppView,
    before: Seq<Seq<char>>,
    raw: Seq<char>,
    after: Seq<Seq<char>>,
)
    requires
        has_dash_prefix(raw),
        before.len() > 0 || app.def_cmd_state == DefCmdState::Explicit,
        app.registry().run(app.registry().start(), classify(before, app.def_cmd_state)) matches Ok(
            m,
        ) && m.state is Start && app.registry().active(m.command).flag(strip_dashes(raw))
            is Some,
        app.parse(before + after) matches Ok(found) ==> ({
            let m = app.registry().run(
                app.registry().start(),
                classify(before, app.def_cmd_state),
            )->Ok_0;
            found.command == m.command ==> found.options[app.registry().active(m.command).flag(
                strip_dashes(raw),
            )->0]
        }),
    ensures
        app.parse(before + seq![raw] + after) == app.parse(before + after),
{
    let state = app.def_cmd_state;
    let head = classify(before, state);
    let tail = classify(before + after, state).skip(before.len() as int);
    assert(classify(before + after, state) =~= head + tail);
    assert(classify(before + seq![raw] + after, state) =~= head + seq![TokenView::Opt(raw)] + tail);
    law_flag_idempotent(app.registry(), head, raw, tail);
}

/// An option that takes a value takes the token after it, as it is written
/// and whatever it looks like, unless that token is an option.
pub proof fn law_value_follows_option(
    registry: Registry,
    before: Seq<TokenView>,
    raw: Seq<char>,
    value: TokenView,
)
    requires
        registry.run(registry.start(), before) matches Ok(m) && m.state is Start
            && registry.active(m.command).value_option(strip_dashes(raw)) is Some,
        !(value is Opt),
    ensures
        ({
            let m = registry.run(registry.start(), before)->Ok_0;
            let i = registry.active(m.command).value_option(strip_dashes(raw))->0;
            registry.run(registry.start(), before + seq![TokenView::Opt(raw), value]) == Ok::<
                MatcherView,
                ParseErrorView,
            >(MatcherView { opt_args: m.opt_args.update(i, Some(value.text())), ..m })
        }),
{
    let start = registry.start();
    let option = TokenView::Opt(raw);
    let m = registry.run(start, before)->Ok_0;
    registry.lemma_run_add(start, before, seq![option, value]);
    let pair = seq![option, value];
    assert(pair.first() == option);
    assert(pair.drop_first() =~= seq![value]);
    let next = registry.step(m, option)->Ok_0;
    registry.lemma_run_one(next, value);
}

/// An option that takes a value and is followed by another option, or by
/// nothing, fails the match for the want of its value.
pub proof fn law_option_needs_value(
    registry: Registry,
    before: Seq<TokenView>,
    raw: Seq<char>,
    next: Seq<char>,
    after: Seq<TokenView>,
)
    requires
        registry.run(registry.start(), before) matches Ok(m) && m.state is Start
            && registry.active(m.command).value_option(strip_dashes(raw)) is Some,
    ensures
        registry.matched(before + seq![TokenView::Opt(raw)]) == Err::<MatchView, ParseErrorView>(
            ParseErrorView::MissingOptionValue(strip_dashes(raw)),
        ),
        registry.matched(before + seq![TokenView::Opt(raw), TokenView::Opt(next)] + after)
            == Err::<MatchView, ParseErrorView>(
            ParseErrorView::MissingOptionValue(strip_dashes(raw)),
        ),
{
    let start = registry.start();
    let option = TokenView::Opt(raw);
    let m = registry.run(start, before)->Ok_0;
    registry.lemma_run_add(start, before, seq![option]);
    registry.lemma_run_one(m, option);
    let pair = seq![option, TokenView::Opt(next)];
    registry.lemma_run_add(start, before + pair, after);
    registry.lemma_run_add(start, before, pair);
    assert(pair.first() == option);
    assert(pair.drop_first() =~= seq![TokenView::Opt(next)]);
    let waiting = registry.step(m, option)->Ok_0;
    registry.lemma_run_one(waiting, TokenView::Opt(next));
}

/// An option that the active command does not have, at a place where an
/// option may stand, fails the match as an unknown option, whatever comes
/// after it: it is never taken for a positional value.
pub proof fn law_unknown_option_rejected(
    registry: Registry,
    before: Seq<TokenView>,
    raw: Seq<char>,
    after: Seq<TokenView>,
)
    requires
        registry.run(registry.start(), before) matches Ok(m) && m.state is Start
            && registry.active(m.command).flag(strip_dashes(raw)) is None && registry.active(
            m.command,
        ).value_option(strip_dashes(raw)) is None,
    ensures
        registry.matched(before + seq![TokenView::Opt(raw)] + after) == Err::<
            MatchView,
            ParseErrorView,
        >(ParseErrorView::UnknownOption(strip_dashes(raw))),
{
    let start = registry.start();
    let option = TokenView::Opt(raw);
    let m = registry.run(start, before)->Ok_0;
    registry.lemma_run_add(start, before + seq![option], after);
    registry.lemma_run_add(start, before, seq![option]);
    registry.lemma_run_one(m, option);
}

/// With no default command chosen, a first argument without a dash is the
/// name of a command: where no registered command goes by it the match
/// fails, and where one does, whatever is matched is matched to that
/// command.
pub proof fn law_first_argument_names_command(app: AppView, args: Seq<Seq<char>>)
    requires
        app.def_cmd_state == DefCmdState::Def,
        args.len() > 0,
        !has_dash_prefix(args[0]),
    ensures
        classify(args, app.def_cmd_state)[0] == TokenView::Cmd(args[0]),
        no_command_name(classify(args, app.def_cmd_state).drop_first()),
        match app.registry().resolve(args[0]) {
            None => app.parse(args) == Err::<MatchView, ParseErrorView>(
                ParseErrorView::UnknownCommand(args[0]),
            ),
            Some(i) => app.parse(args) matches Ok(found) ==> found.command == Some(i),
        },
{
    let registry = app.registry();
    let tokens = classify(args, app.def_cmd_state);
    let start = registry.start();
    let rest = tokens.drop_first();
    assert(tokens.first() == TokenView::Cmd(args[0]));
    assert forall|k: int| 0 <= k < rest.len() implies !(#[trigger] rest[k] is Cmd) by {
        assert(rest[k] == tokens[k + 1]);
    }
    lemma_find_alias(command_aliases(registry.commands), args[0]);
    match registry.resolve(args[0]) {
        None => {},
        Some(i) => {
            let m = registry.step(start, tokens.first())->Ok_0;
            registry.lemma_step_fits(start, tokens.first());
            if registry.run(m, rest) is Ok {
                lemma_run_keeps(registry, m, rest);
            }
        },
    }
}

/// With a default command chosen, no argument is the name of a command:
/// each is an option or a positional value, and whatever is matched is
/// matched to the default command.
pub proof fn law_default_command_takes_all(app: AppView, args: Seq<Seq<char>>)
    requires
        app.def_cmd_state == DefCmdState::Explicit,
    ensures
        no_command_name(classify(args, app.def_cmd_state)),
        app.parse(args) matches Ok(found) ==> found.command is None,
{
    let registry = app.registry();
    let tokens = classify(args, app.def_cmd_state);
    if registry.run(registry.start(), tokens) is Ok {
        lemma_run_keeps(registry, registry.start(), tokens);
    }
}

/// What `flags_given` lists: the long alias of each flag that was seen,
/// and nothing with a value.
proof fn lemma_flags_given(
    opts: Seq<OptView>,
    seen: Seq<bool>,
    upto: int,
    entry: (Seq<char>, Option<Seq<char>>),
)
    requires
        0 <= upto <= opts.len(),
        upto <= seen.len(),
    ensures
        flags_given(opts, seen, upto).contains(entry) <==> entry.1 is None && exists|i: int|
            0 <= i < upto && seen[i] && #[trigger] opts[i].alias == entry.0,
    decreases upto,
{
    if upto > 0 {
        lemma_flags_given(opts, seen, upto - 1, entry);
        let before = flags_given(opts, seen, upto - 1);
        let now = flags_given(opts, seen, upto);
        if seen[upto - 1] {
            let last = (opts[upto - 1].alias, None::<Seq<char>>);
            assert(now == before.push(last));
            if now.contains(entry) {
                let k = choose|k: int| 0 <= k < now.len() && now[k] == entry;
                if k < before.len() {
                    assert(before[k] == entry);
                } else {
                    assert(opts[upto - 1].alias == entry.0);
                }
            }
            if entry.1 is None && exists|i: int|
                0 <= i < upto && seen[i] && #[trigger] opts[i].alias == entry.0 {
                let i = choose|i: int| 0 <= i < upto && seen[i] && #[trigger] opts[i].alias == entry.0;
                if i == upto - 1 {
                    assert(now[before.len() as int] == entry);
                } else {
                    let k = choose|k: int| 0 <= k < before.len() && before[k] == entry;
                    assert(now[k] == entry);
                }
            }
        }
    }
}

/// What `values_given` lists: the long alias of each option that was given
/// a value, with that value.
proof fn lemma_values_given(
    opt_args: Seq<OptArgView>,
    values: Seq<Option<Seq<char>>>,
    upto: int,
    entry: (Seq<char>, Option<Seq<char>>),
)
    requires
        0 <= upto <= opt_args.len(),
        upto <= values.len(),
    ensures
        values_given(opt_args, values, upto).contains(entry) <==> entry.1 is Some && exists|
            i: int,
        |
            0 <= i < upto && values[i] == entry.1 && #[trigger] opt_args[i].alias == entry.0,
    decreases upto,
{
    if upto > 0 {
        lemma_values_given(opt_args, values, upto - 1, entry);
        let before = values_given(opt_args, values, upto - 1);
        let now = values_given(opt_args, values, upto);
        if values[upto - 1] is Some {
            let last = (opt_args[upto - 1].alias, values[upto - 1]);
            assert(now == before.push(last));
            if now.contains(entry) {
                let k = choose|k: int| 0 <= k < now.len() && now[k] == entry;
                if k < before.len() {
                    assert(before[k] == entry);
                } else {
                    assert(opt_args[upto - 1].alias == entry.0);
                }
            }
            if entry.1 is Some && exists|i: int|
                0 <= i < upto && values[i] == entry.1 && #[trigger] opt_args[i].alias
                    == entry.0 {
                let i = choose|i: int|
                    0 <= i < upto && values[i] == entry.1 && #[trigger] opt_args[i].alias
                        == entry.0;
                if i == upto - 1 {
                    assert(now[before.len() as int] == entry);
                } else {
                    let k = choose|k: int| 0 <= k < before.len() && before[k] == entry;
                    assert(now[k] == entry);
                }
            }
        }
    }
}

/// The list of the options that were supplied holds a flag, by its long
/// alias and without a value, just where that flag was seen.
pub proof fn law_supplied_flags(found: MatchView, command: CommandView, alias: Seq<char>)
    requires
        found.options.len() == command.opts.len(),
        found.opt_args.len() == command.opt_args.len(),
    ensures
        found.supplied(command).contains((alias, None)) <==> found.flags_triggered(
            command,
        ).contains(alias),
{
    let entry = (alias, None::<Seq<char>>);
    let flags = flags_given(command.opts, found.options, command.opts.len() as int);
    let values = values_given(command.opt_args, found.opt_args, command.opt_args.len() as int);
    lemma_flags_given(command.opts, found.options, command.opts.len() as int, entry);
    lemma_values_given(command.opt_args, found.opt_args, command.opt_args.len() as int, entry);
    if found.supplied(command).contains(entry) {
        let k = choose|k: int| 0 <= k < (flags + values).len() && (flags + values)[k] == entry;
        if k < flags.len() {
            assert(flags[k] == entry);
        } else {
            assert(values[k - flags.len()] == entry);
        }
    }
    if flags.contains(entry) {
        let k = choose|k: int| 0 <= k < flags.len() && flags[k] == entry;
        assert((flags + values)[k] == entry);
    }
}

/// Where no two options with a value have the same long alias, the list of
/// the options that were supplied holds an option with a value just where
/// that value was given to it.
pub proof fn law_supplied_values(
    found: MatchView,
    command: CommandView,
    alias: Seq<char>,
    value: Seq<char>,
)
    requires
        found.options.len() == command.opts.len(),
        found.opt_args.len() == command.opt_args.len(),
        forall|i: int, j: int|
            0 <= i < j < command.opt_args.len() ==> command.opt_args[i].alias
                != command.opt_args[j].alias,
    ensures
        found.supplied(command).contains((alias, Some(value))) <==> found.value_options_supplied(
            command,
        ).contains_pair(alias, value),
{
    let entry = (alias, Some(value));
    let flags = flags_given(command.opts, found.options, command.opts.len() as int);
    let values = values_given(command.opt_args, found.opt_args, command.opt_args.len() as int);
    lemma_flags_given(command.opts, found.options, command.opts.len() as int, entry);
    lemma_values_given(command.opt_args, found.opt_args, command.opt_args.len() as int, entry);
    let longs = Seq::new(
        command.opt_args.len(),
        |i: int| Aliases { long: command.opt_args[i].alias, short: None },
    );
    lemma_find_alias(longs, alias);
    if found.supplied(command).contains(entry) {
        let k = choose|k: int| 0 <= k < (flags + values).len() && (flags + values)[k] == entry;
        if k < flags.len() {
            assert(flags[k] == entry);
        } else {
            assert(values[k - flags.len()] == entry);
        }
        let i = choose|i: int|
            0 <= i < command.opt_args.len() && found.opt_args[i] == entry.1
                && #[trigger] command.opt_args[i].alias == entry.0;
        assert(longs[i].has(alias));
    }
    if found.value_options_supplied(command).contains_pair(alias, value) {
        let i = find_alias(longs, alias)->0;
        assert(command.opt_args[i].alias == alias);
        let k = choose|k: int| 0 <= k < values.len() && values[k] == entry;
        assert((flags + values)[flags.len() + k] == entry);
    }
}

} // verus!
