//! Help texts: one line for each option and command, and the screens that
//! are made of them.

use vstd::prelude::*;
use vstd::string::*;
use colored::Colorize;
use crate::app::{App, AppView};
use crate::command::{Command, CommandView, OptArgView, OptView, __CArg, __COArg, __COpt};

verus! {

/// `count` blanks.
pub open spec fn blanks(count: nat) -> Seq<char> {
    Seq::new(count, |i: int| ' ')
}

/// `text` with as many blanks after it as it lacks to `width` characters.
pub open spec fn padded(text: Seq<char>, width: nat) -> Seq<char> {
    if text.len() >= width {
        text
    } else {
        text + blanks((width - text.len()) as nat)
    }
}

/// Fills `text` with blanks on the right up to `width` characters.
pub fn pad(text: String, width: usize) -> (r: String)
    ensures
        r@ == padded(text@, width as nat),
{
    let n = text.as_str().unicode_len();
    let mut r = text;
    if n >= width {
        return r;
    }
    let mut i: usize = n;
    assert(r@ =~= text@ + blanks(0));
    while i < width
        invariant
            n == text@.len(),
            n <= i <= width,
            r@ == text@ + blanks((i - n) as nat),
        decreases width - i,
    {
        proof {
            reveal_strlit(" ");
        }
        r.append(" ");
        assert(r@ =~= text@ + blanks((i + 1 - n) as nat));
        i += 1;
    }
    r
}

/// The line of an option in a help text: four blanks, the short alias with
/// its dash or four blanks in its place, a comma, the long alias with its
/// dashes and, where the option takes a value, the name of the value in
/// angle brackets; all of it filled up to `width` characters; then the
/// description.
pub open spec fn option_entry(
    alias: Seq<char>,
    alias_short: Option<Seq<char>>,
    arg_name: Option<Seq<char>>,
    desc: Seq<char>,
    width: nat,
) -> Seq<char> {
    let short = match alias_short {
        Some(short) => "-"@ + short,
        None => "    "@,
    };
    let value = match arg_name {
        Some(name) => " <"@ + name + ">"@,
        None => Seq::empty(),
    };
    padded("    "@ + short + ", --"@ + alias + value, width) + desc
}

/// Writes the line of an option in a help text.
pub fn format_entry(
    alias: &String,
    alias_short: &Option<String>,
    arg_name: Option<&String>,
    desc: &String,
    width: usize,
) -> (line: String)
    ensures
        line@ == option_entry(
            alias@,
            alias_short.deep_view(),
            arg_name.deep_view(),
            desc@,
            width as nat,
        ),
{
    let ghost short = match alias_short.deep_view() {
        Some(short) => "-"@ + short,
        None => "    "@,
    };
    let ghost value = match arg_name.deep_view() {
        Some(name) => " <"@ + name + ">"@,
        None => Seq::empty(),
    };
    let mut line = "    ".to_owned();
    match alias_short {
        Some(short) => {
            line.append("-");
            line.append(short.as_str());
        },
        None => {
            line.append("    ");
        },
    }
    assert(line@ =~= "    "@ + short);
    line.append(", --");
    line.append(alias.as_str());
    match arg_name {
        Some(name) => {
            line.append(" <");
            line.append(name.as_str());
            line.append(">");
        },
        None => {},
    }
    assert(line@ =~= "    "@ + short + ", --"@ + alias@ + value);
    let mut line = pad(line, width);
    line.append(desc.as_str());
    line
}

/// The line of a flag in the help of the application.
pub open spec fn option_line(option: OptView) -> Seq<char> {
    option_entry(option.alias, option.alias_short, None, option.desc, 20)
}

/// Writes the line of a flag in the help of the application.
pub fn format_option_str(option: &__COpt) -> (line: String)
    ensures
        line@ == option_line(option@),
{
    format_entry(&option.alias, &option.alias_short, None, &option.desc, 20)
}

/// The line of a command in the help of the application: four blanks, the
/// long alias and, after a comma, the short one where there is one, filled
/// up to twelve characters; then the description.
pub open spec fn command_line(command: CommandView) -> Seq<char> {
    let short = match command.alias_short {
        Some(short) => ", "@ + short,
        None => Seq::empty(),
    };
    padded("    "@ + command.alias + short, 12) + command.desc
}

/// Writes the line of a command in the help of the application.
pub fn format_cmd_str(command: &Command) -> (line: String)
    ensures
        line@ == command_line(command@),
{
    let mut line = "    ".to_owned();
    line.append(command.alias_long.as_str());
    match &command.alias_short {
        Some(short) => {
            line.append(", ");
            line.append(short.as_str());
            assert(line@ =~= "    "@ + command@.alias + (", "@ + short@));
        },
        None => {
            assert(line@ =~= "    "@ + command@.alias + Seq::empty());
        },
    }
    let mut line = pad(line, 12);
    line.append(command.desc.as_str());
    line
}

/// The lines one after another, each with a line break after it.
pub open spec fn joined(lines: Seq<Seq<char>>) -> Seq<char>
    decreases lines.len(),
{
    if lines.len() == 0 {
        Seq::empty()
    } else {
        joined(lines.drop_last()) + lines.last() + "\n"@
    }
}

/// `joined` of a list with one more line.
pub proof fn lemma_joined_push(lines: Seq<Seq<char>>, line: Seq<char>)
    ensures
        joined(lines.push(line)) == joined(lines) + line + "\n"@,
{
    assert(lines.push(line).drop_last() =~= lines);
}

/// The lines of flags, each filled up to `width` characters before its
/// description.
pub open spec fn flag_entries(opts: Seq<OptView>, width: nat) -> Seq<Seq<char>> {
    Seq::new(
        opts.len(),
        |i: int| option_entry(opts[i].alias, opts[i].alias_short, None, opts[i].desc, width),
    )
}

/// The lines of options that take a value, each filled up to `width`
/// characters before its description.
pub open spec fn value_entries(opt_args: Seq<OptArgView>, width: nat) -> Seq<Seq<char>> {
    Seq::new(
        opt_args.len(),
        |i: int|
            option_entry(
                opt_args[i].alias,
                opt_args[i].alias_short,
                Some(opt_args[i].arg_name),
                opt_args[i].desc,
                width,
            ),
    )
}

/// The lines of the commands in the help of the application.
pub open spec fn command_lines(commands: Seq<CommandView>) -> Seq<Seq<char>> {
    Seq::new(commands.len(), |i: int| command_line(commands[i]))
}

/// The lines of the positional arguments in the help of a command: each
/// name in angle brackets after a tab.
pub open spec fn arg_lines(args: Seq<Seq<char>>) -> Seq<Seq<char>> {
    Seq::new(args.len(), |i: int| "\t<"@ + args[i] + ">"@)
}

/// The positional arguments in the usage line of a command: each name in
/// angle brackets after a blank.
pub open spec fn arg_marks(args: Seq<Seq<char>>) -> Seq<char>
    decreases args.len(),
{
    if args.len() == 0 {
        Seq::empty()
    } else {
        arg_marks(args.drop_last()) + " <"@ + args.last() + ">"@
    }
}

/// Writes the lines of flags.
pub fn format_flags(opts: &Vec<__COpt>, width: usize) -> (text: String)
    ensures
        text@ == joined(flag_entries(opts.deep_view(), width as nat)),
{
    let ghost lines = flag_entries(opts.deep_view(), width as nat);
    let mut text = String::new();
    let mut i: usize = 0;
    assert(text@ =~= joined(lines.take(0)));
    while i < opts.len()
        invariant
            i <= opts.len(),
            lines == flag_entries(opts.deep_view(), width as nat),
            text@ == joined(lines.take(i as int)),
        decreases opts.len() - i,
    {
        let line = format_entry(&opts[i].alias, &opts[i].alias_short, None, &opts[i].desc, width);
        text.append(line.as_str());
        text.append("\n");
        proof {
            lemma_joined_push(lines.take(i as int), lines[i as int]);
            assert(lines.take(i as int).push(lines[i as int]) =~= lines.take(i + 1));
        }
        i += 1;
    }
    assert(lines.take(lines.len() as int) =~= lines);
    text
}

/// Writes the lines of options that take a value.
pub fn format_values(opt_args: &Vec<__COArg>, width: usize) -> (text: String)
    ensures
        text@ == joined(value_entries(opt_args.deep_view(), width as nat)),
{
    let ghost lines = value_entries(opt_args.deep_view(), width as nat);
    let mut text = String::new();
    let mut i: usize = 0;
    assert(text@ =~= joined(lines.take(0)));
    while i < opt_args.len()
        invariant
            i <= opt_args.len(),
            lines == value_entries(opt_args.deep_view(), width as nat),
            text@ == joined(lines.take(i as int)),
        decreases opt_args.len() - i,
    {
        let line = format_entry(
            &opt_args[i].alias,
            &opt_args[i].alias_short,
            Some(&opt_args[i].arg_name),
            &opt_args[i].desc,
            width,
        );
        text.append(line.as_str());
        text.append("\n");
        proof {
            lemma_joined_push(lines.take(i as int), lines[i as int]);
            assert(lines.take(i as int).push(lines[i as int]) =~= lines.take(i + 1));
        }
        i += 1;
    }
    assert(lines.take(lines.len() as int) =~= lines);
    text
}

/// Writes the lines of commands.
pub fn format_commands(commands: &Vec<Command>) -> (text: String)
    ensures
        text@ == joined(command_lines(commands.deep_view())),
{
    let ghost lines = command_lines(commands.deep_view());
    let mut text = String::new();
    let mut i: usize = 0;
    assert(text@ =~= joined(lines.take(0)));
    while i < commands.len()
        invariant
            i <= commands.len(),
            lines == command_lines(commands.deep_view()),
            text@ == joined(lines.take(i as int)),
        decreases commands.len() - i,
    {
        let line = format_cmd_str(&commands[i]);
        text.append(line.as_str());
        text.append("\n");
        proof {
            lemma_joined_push(lines.take(i as int), lines[i as int]);
            assert(lines.take(i as int).push(lines[i as int]) =~= lines.take(i + 1));
        }
        i += 1;
    }
    assert(lines.take(lines.len() as int) =~= lines);
    text
}

/// Writes the lines of positional arguments.
pub fn format_args(args: &Vec<__CArg>) -> (text: String)
    ensures
        text@ == joined(arg_lines(args.deep_view())),
{
    let ghost lines = arg_lines(args.deep_view());
    let mut text = String::new();
    let mut i: usize = 0;
    assert(text@ =~= joined(lines.take(0)));
    while i < args.len()
        invariant
            i <= args.len(),
            lines == arg_lines(args.deep_view()),
            text@ == joined(lines.take(i as int)),
        decreases args.len() - i,
    {
        text.append("\t<");
        text.append(args[i].name.as_str());
        text.append(">");
        text.append("\n");
        proof {
            lemma_joined_push(lines.take(i as int), lines[i as int]);
            assert(lines.take(i as int).push(lines[i as int]) =~= lines.take(i + 1));
            assert(text@ =~= joined(lines.take(i + 1)));
        }
        i += 1;
    }
    assert(lines.take(lines.len() as int) =~= lines);
    text
}

/// Writes the positional arguments as they stand in a usage line.
pub fn format_arg_marks(args: &Vec<__CArg>) -> (text: String)
    ensures
        text@ == arg_marks(args.deep_view()),
{
    let ghost names = args.deep_view();
    let mut text = String::new();
    let mut i: usize = 0;
    assert(text@ =~= arg_marks(names.take(0)));
    while i < args.len()
        invariant
            i <= args.len(),
            names == args.deep_view(),
            text@ == arg_marks(names.take(i as int)),
        decreases args.len() - i,
    {
        text.append(" <");
        text.append(args[i].name.as_str());
        text.append(">");
        proof {
            assert(names.take(i + 1).drop_last() =~= names.take(i as int));
            assert(text@ =~= arg_marks(names.take(i + 1)));
        }
        i += 1;
    }
    assert(names.take(names.len() as int) =~= names);
    text
}

impl CommandView {
    /// The command has an option of either kind.
    pub open spec fn has_options(self) -> bool {
        self.opts.len() > 0 || self.opt_args.len() > 0
    }

    /// The usage line of the command in an application called `name`.
    pub open spec fn usage(self, name: Seq<char>) -> Seq<char> {
        "\t"@ + name + " "@ + self.alias + if self.has_options() {
            " [OPTIONS]"@
        } else {
            Seq::empty()
        } + arg_marks(self.args)
    }

    /// The help of the command in an application called `name`: its
    /// description, its usage line, its positional arguments where it has
    /// any, and its options where it has any, flags first.
    pub open spec fn help(self, name: Seq<char>) -> Seq<char> {
        self.desc + "\n\nUSAGE:\n"@ + self.usage(name) + "\n\n"@ + if self.args.len() > 0 {
            "ARGS:\n"@ + joined(arg_lines(self.args)) + "\n"@
        } else {
            Seq::empty()
        } + if self.has_options() {
            "OPTIONS:\n"@ + joined(flag_entries(self.opts, 30)) + joined(
                value_entries(self.opt_args, 30),
            )
        } else {
            Seq::empty()
        }
    }
}

impl AppView {
    /// The help of the application: its description, the usage line, the
    /// flags of the default command, the commands, and the last line.
    pub open spec fn help(self) -> Seq<char> {
        self.desc + "\n\n"@ + self.help_usage + "\n\nOptions:\n"@ + joined(
            flag_entries(self.default_command.opts, 20),
        ) + "\n"@ + self.help_commands + "\n"@ + joined(command_lines(self.commands)) + "\n"@
            + self.help_footer + "\n"@
    }

    /// The line that names the application and its version.
    pub open spec fn version_line(self) -> Seq<char> {
        self.name + " "@ + self.vers + "\n"@
    }
}

impl App {
    /// Writes the help of the application.
    pub fn help_app(&self) -> (text: String)
        ensures
            text@ == self@.help(),
    {
        let mut text = self.desc.clone();
        text.append("\n\n");
        text.append(self.help_usage.as_str());
        text.append("\n\nOptions:\n");
        text.append(format_flags(&self.default_command.options, 20).as_str());
        text.append("\n");
        text.append(self.help_commands.as_str());
        text.append("\n");
        text.append(format_commands(&self.commands).as_str());
        text.append("\n");
        text.append(self.help_footer.as_str());
        text.append("\n");
        assert(text@ =~= self@.help());
        text
    }

    /// Writes the help of one command.
    pub fn help_command(&self, command: &Command) -> (text: String)
        ensures
            text@ == command@.help(self@.name),
    {
        let has_options = command.options.len() > 0 || command.optional_args.len() > 0;
        let mut usage = "\t".to_owned();
        usage.append(self.name.as_str());
        usage.append(" ");
        usage.append(command.alias_long.as_str());
        if has_options {
            usage.append(" [OPTIONS]");
        }
        usage.append(format_arg_marks(&command.args).as_str());
        assert(usage@ =~= command@.usage(self@.name));
        let mut text = command.desc.clone();
        text.append("\n\nUSAGE:\n");
        text.append(usage.as_str());
        text.append("\n\n");
        let ghost head = text@;
        if command.args.len() > 0 {
            text.append("ARGS:\n");
            text.append(format_args(&command.args).as_str());
            text.append("\n");
            assert(text@ =~= head + ("ARGS:\n"@ + joined(arg_lines(command@.args)) + "\n"@));
        } else {
            assert(text@ =~= head + Seq::empty());
        }
        let ghost middle = text@;
        if has_options {
            text.append("OPTIONS:\n");
            text.append(format_flags(&command.options, 30).as_str());
            text.append(format_values(&command.optional_args, 30).as_str());
            assert(text@ =~= middle + ("OPTIONS:\n"@ + joined(flag_entries(command@.opts, 30))
                + joined(value_entries(command@.opt_args, 30))));
        } else {
            assert(text@ =~= middle + Seq::empty());
        }
        text
    }

    /// Writes the line that names the application and its version.
    pub fn version_text(&self) -> (text: String)
        ensures
            text@ == self@.version_line(),
    {
        let mut text = self.name.clone();
        text.append(" ");
        text.append(self.vers.as_str());
        text.append("\n");
        text
    }
}

/// The code that turns the text of a terminal red.
pub open spec fn red_on() -> Seq<char> {
    "\x1B[31m"@
}

/// The code that turns the colour of a terminal off.
pub open spec fn color_off() -> Seq<char> {
    "\x1B[0m"@
}

/// `painted` may be what painting `message` red gives: the message as it
/// is, where colours are off, or a text between the code for red and the
/// code that turns the colour off, which holds nothing but the message
/// unless the message has an escape character of its own.
pub open spec fn painted_red(message: Seq<char>, painted: Seq<char>) -> bool {
    ||| painted == message
    ||| {
        &&& painted.len() >= red_on().len() + color_off().len()
        &&& painted.take(red_on().len() as int) == red_on()
        &&& painted.skip(painted.len() - color_off().len()) == color_off()
        &&& !message.contains('\x1B') ==> painted == red_on() + message + color_off()
    }
}

/// Paints a message red for a terminal.
///
/// This calls `colored::Colorize::red` on the message and writes the
/// `ColoredString` that it gives out through its `Display`. That writes the
/// message alone where the crate finds colours switched off, by the
/// environment, by an override, or because the output is no terminal;
/// otherwise it writes the code for red, the message, and the code that
/// turns the colour off, and after each such code inside the message the code
/// for red again. Which of the two happens is not known here.
#[verifier::external_body]
pub(crate) fn red(message: &str) -> (painted: String)
    ensures
        painted_red(message@, painted@),
{
    format!("{}", message.red())
}

/// A help text with an error message after it.
pub open spec fn help_with(help: Seq<char>, painted: Seq<char>) -> Seq<char> {
    help + "\n"@ + painted + "\n"@
}

/// Puts an error message, as it was painted, after a help text: an empty
/// line, then the message.
pub fn append_error(help: String, painted: &str) -> (text: String)
    ensures
        text@ == help_with(help@, painted@),
{
    let mut text = help;
    text.append("\n");
    text.append(painted);
    text.append("\n");
    text
}

/// Puts an error message, painted red, after a help text.
pub fn with_error(help: String, message: &str) -> (text: String)
    ensures
        exists|painted: Seq<char>| #[trigger]
            painted_red(message@, painted) && text@ == help_with(help@, painted),
{
    let painted = red(message);
    append_error(help, painted.as_str())
}

} // verus!
