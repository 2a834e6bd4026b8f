//! The daemon's command line.

use vstd::prelude::*;
use crate::text::{after_prefix, concat2, concat3, opt_text, same_text, strip_prefix, texts, Text};

verus! {

/// How the daemon is called.
pub const USAGE: &'static str =
    "usage: splitway-daemon <run|status|revert> [--config <PATH>] [--socket-group <NAME>]";

/// Something a command can be parsed from.
pub trait CommandParser {
    fn parse_command(self) -> Result<Command, String>;
}

/// What the daemon is asked to do.
#[derive(Debug, PartialEq, Eq)]
pub enum Command {
    /// Run as a daemon.
    Run {
        /// The configuration file, in place of the default one.
        config: Option<String>,
        /// The group the control socket is opened to.
        socket_group: Option<String>,
    },
    /// Ask the running daemon for its status.
    Status,
    /// Revert directly, without a daemon.
    Revert { config: Option<String> },
}

/// The value of a [`Command`].
pub enum CommandModel {
    Run { config: Option<Text>, socket_group: Option<Text> },
    Status,
    Revert { config: Option<Text> },
}

impl View for Command {
    type V = CommandModel;

    open spec fn view(&self) -> CommandModel {
        match self {
            Command::Run { config, socket_group } => CommandModel::Run {
                config: opt_text(*config),
                socket_group: opt_text(*socket_group),
            },
            Command::Status => CommandModel::Status,
            Command::Revert { config } => CommandModel::Revert { config: opt_text(*config) },
        }
    }
}

/// The optional flags.
#[derive(Debug, PartialEq, Eq)]
pub struct Flags {
    pub config: Option<String>,
    pub socket_group: Option<String>,
}

/// The value of [`Flags`].
pub struct FlagsModel {
    pub config: Option<Text>,
    pub socket_group: Option<Text>,
}

impl View for Flags {
    type V = FlagsModel;

    open spec fn view(&self) -> FlagsModel {
        FlagsModel { config: opt_text(self.config), socket_group: opt_text(self.socket_group) }
    }
}

/// A message, followed by how the daemon is called.
pub open spec fn with_usage(message: Text) -> Text {
    message + "\n"@ + USAGE@
}

/// The value argument `i` gives to `flag`, and the argument after it. `None`
/// if it is not this flag. The value is the next argument, or follows an equals
/// sign; it may not be empty.
pub open spec fn value_at(args: Seq<Text>, i: int, flag: Text) -> Result<
    Option<(Text, int)>,
    Text,
> {
    let arg = args[i];
    let empty = with_usage(flag + " requires a non-empty value"@);
    if arg == flag {
        if i + 1 >= args.len() {
            Err(with_usage(flag + " requires an argument"@))
        } else if args[i + 1].len() == 0 {
            Err(empty)
        } else {
            Ok(Some((args[i + 1], i + 2)))
        }
    } else {
        match after_prefix(arg, flag + "="@) {
            Some(value) => if value.len() == 0 {
                Err(empty)
            } else {
                Ok(Some((value, i + 1)))
            },
            None => Ok(None),
        }
    }
}

/// The slot with the value in it, unless it holds one already.
pub open spec fn set_value(slot: Option<Text>, value: Text, flag: Text) -> Result<
    Option<Text>,
    Text,
> {
    if slot is Some {
        Err(with_usage(flag + " may only be given once"@))
    } else {
        Ok(Some(value))
    }
}

/// The flags among the arguments from `i` on, added to `flags`.
pub open spec fn flags_from(args: Seq<Text>, i: int, flags: FlagsModel) -> Result<FlagsModel, Text>
    decreases args.len() - i,
{
    if i >= args.len() {
        Ok(flags)
    } else {
        match value_at(args, i, "--config"@) {
            Err(e) => Err(e),
            Ok(Some((value, next))) => match set_value(flags.config, value, "--config"@) {
                Err(e) => Err(e),
                Ok(config) => flags_from(args, next, FlagsModel { config, ..flags }),
            },
            Ok(None) => match value_at(args, i, "--socket-group"@) {
                Err(e) => Err(e),
                Ok(Some((value, next))) => match set_value(
                    flags.socket_group,
                    value,
                    "--socket-group"@,
                ) {
                    Err(e) => Err(e),
                    Ok(socket_group) => flags_from(
                        args,
                        next,
                        FlagsModel { socket_group, ..flags },
                    ),
                },
                Ok(None) => Err(with_usage("unexpected argument: "@ + args[i])),
            },
        }
    }
}

/// No flags.
pub open spec fn no_flags() -> FlagsModel {
    FlagsModel { config: None, socket_group: None }
}

/// The command the flags and the name make up.
pub open spec fn command_named(name: Text, flags: FlagsModel) -> Result<CommandModel, Text> {
    if name == "run"@ {
        Ok(CommandModel::Run { config: flags.config, socket_group: flags.socket_group })
    } else if name == "status"@ {
        if flags.config is Some || flags.socket_group is Some {
            Err(
                with_usage(
                    "`status` queries the running daemon over IPC and takes no --config/--socket-group"@,
                ),
            )
        } else {
            Ok(CommandModel::Status)
        }
    } else if name == "revert"@ {
        if flags.socket_group is Some {
            Err(
                with_usage(
                    "`revert` does not bind the control socket and takes no --socket-group"@,
                ),
            )
        } else {
            Ok(CommandModel::Revert { config: flags.config })
        }
    } else {
        Err(with_usage("unknown command: "@ + name))
    }
}

/// The command in the arguments, the first of which is the program's name.
pub open spec fn command_in(args: Seq<Text>) -> Result<CommandModel, Text> {
    if args.len() < 2 {
        Err(with_usage("no command provided"@))
    } else {
        match flags_from(args, 2, no_flags()) {
            Err(e) => Err(e),
            Ok(flags) => command_named(args[1], flags),
        }
    }
}

fn usage_error(message: &str) -> (r: String)
    ensures
        r@ == with_usage(message@),
{
    concat3(message, "\n", USAGE)
}

/// The value argument `i` gives to `flag`, if it is this flag, and the index
/// of the argument after it.
pub fn take_value(args: &Vec<String>, i: usize, flag: &str) -> (r: Result<
    Option<(String, usize)>,
    String,
>)
    requires
        i < args.len(),
    ensures
        value_at(texts(args@), i as int, flag@) == match r {
            Ok(Some((value, next))) => Ok(Some((value@, next as int))),
            Ok(None) => Ok(None),
            Err(e) => Err(e@),
        },
{
    let ghost all = texts(args@);
    let arg = args[i].as_str();
    if same_text(arg, flag) {
        if i + 1 >= args.len() {
            return Err(usage_error(concat2(flag, " requires an argument").as_str()));
        }
        assert(all[i + 1] == args@[i + 1]@);
        if args[i + 1].as_str().is_empty() {
            return Err(usage_error(concat2(flag, " requires a non-empty value").as_str()));
        }
        Ok(Some((args[i + 1].clone(), i + 2)))
    } else {
        match strip_prefix(arg, concat2(flag, "=").as_str()) {
            Some(value) => if value.is_empty() {
                Err(usage_error(concat2(flag, " requires a non-empty value").as_str()))
            } else {
                Ok(Some((value.to_owned(), i + 1)))
            },
            None => Ok(None),
        }
    }
}

/// Put the value in the slot. A flag given twice is a mistake, not a choice of
/// the last.
pub fn set_once<T>(slot: &mut Option<T>, value: T, flag: &str) -> (r: Result<(), String>)
    ensures
        match r {
            Ok(_) => *old(slot) is None && *final(slot) == Some(value),
            Err(e) => *old(slot) is Some && *final(slot) == *old(slot) && e@ == with_usage(
                flag@ + " may only be given once"@,
            ),
        },
{
    if slot.is_some() {
        return Err(usage_error(concat2(flag, " may only be given once").as_str()));
    }
    *slot = Some(value);
    Ok(())
}

/// The flags among the arguments from `start` on. Any other argument is an
/// error.
pub fn parse_flags(args: &Vec<String>, start: usize) -> (r: Result<Flags, String>)
    ensures
        flags_from(texts(args@), start as int, no_flags()) == match r {
            Ok(flags) => Ok(flags@),
            Err(e) => Err(e@),
        },
{
    let ghost all = texts(args@);
    let mut flags = Flags { config: None, socket_group: None };
    let mut i: usize = start;
    while i < args.len()
        invariant
            all == texts(args@),
            flags_from(all, start as int, no_flags()) == flags_from(all, i as int, flags@),
        decreases args.len() - i,
    {
        match take_value(args, i, "--config") {
            Err(e) => {
                return Err(e);
            },
            Ok(Some((value, next))) => {
                let ghost before = flags@;
                match set_once(&mut flags.config, value, "--config") {
                    Err(e) => {
                        return Err(e);
                    },
                    Ok(_) => {},
                }
                assert(flags@ == (FlagsModel { config: Some(value@), ..before }));
                i = next;
            },
            Ok(None) => match take_value(args, i, "--socket-group") {
                Err(e) => {
                    return Err(e);
                },
                Ok(Some((value, next))) => {
                    let ghost before = flags@;
                    match set_once(&mut flags.socket_group, value, "--socket-group") {
                        Err(e) => {
                            return Err(e);
                        },
                        Ok(_) => {},
                    }
                    assert(flags@ == (FlagsModel { socket_group: Some(value@), ..before }));
                    i = next;
                },
                Ok(None) => {
                    return Err(
                        usage_error(concat2("unexpected argument: ", args[i].as_str()).as_str()),
                    );
                },
            },
        }
    }
    Ok(flags)
}

/// The command in the arguments, the first of which is the program's name.
pub fn parse_args(args: &Vec<String>) -> (r: Result<Command, String>)
    ensures
        command_in(texts(args@)) == match r {
            Ok(c) => Ok(c@),
            Err(e) => Err(e@),
        },
{
    if args.len() < 2 {
        return Err(usage_error("no command provided"));
    }
    let flags = match parse_flags(args, 2) {
        Ok(flags) => flags,
        Err(e) => {
            return Err(e);
        },
    };
    let name = args[1].as_str();
    assert(texts(args@)[1] == name@);
    if same_text(name, "run") {
        Ok(Command::Run { config: flags.config, socket_group: flags.socket_group })
    } else if same_text(name, "status") {
        if flags.config.is_some() || flags.socket_group.is_some() {
            return Err(
                usage_error(
                    "`status` queries the running daemon over IPC and takes no --config/--socket-group",
                ),
            );
        }
        Ok(Command::Status)
    } else if same_text(name, "revert") {
        if flags.socket_group.is_some() {
            return Err(
                usage_error(
                    "`revert` does not bind the control socket and takes no --socket-group",
                ),
            );
        }
        Ok(Command::Revert { config: flags.config })
    } else {
        Err(usage_error(concat2("unknown command: ", name).as_str()))
    }
}

impl CommandParser for Vec<String> {
    fn parse_command(self) -> (r: Result<Command, String>)
        ensures
            command_in(texts(self@)) == match r {
                Ok(c) => Ok(c@),
                Err(e) => Err(e@),
            },
    {
        parse_args(&self)
    }
}

// ---------------------------------------------------------------------------
// Laws
// ---------------------------------------------------------------------------

proof fn lemma_value_after_equals(flag: Text, value: Text, program: Text, name: Text)
    requires
        value.len() > 0,
    ensures
        after_prefix(flag + "="@ + value, flag + "="@) == Some(value),
        flag + "="@ + value != flag,
{
    reveal_strlit("=");
    let arg = flag + "="@ + value;
    let pat = flag + "="@;
    assert(arg.subrange(0, pat.len() as int) =~= pat);
    assert(arg.subrange(pat.len() as int, arg.len() as int) =~= value);
    assert(arg.len() > flag.len());
}

/// `--config VALUE` and `--config=VALUE` mean the same.
pub proof fn law_both_forms_of_a_flag_agree(program: Text, name: Text, value: Text)
    requires
        value.len() > 0,
    ensures
        command_in(seq![program, name, "--config"@, value]) == command_in(
            seq![program, name, "--config"@ + "="@ + value],
        ),
{
    let spaced = seq![program, name, "--config"@, value];
    let joined = seq![program, name, "--config"@ + "="@ + value];
    lemma_value_after_equals("--config"@, value, program, name);
    reveal_with_fuel(flags_from, 3);
    assert(value_at(spaced, 2, "--config"@) == Ok::<Option<(Text, int)>, Text>(Some((value, 4int))));
    assert(value_at(joined, 2, "--config"@) == Ok::<Option<(Text, int)>, Text>(Some((value, 3int))));
}

/// The order of the flags does not matter.
pub proof fn law_order_of_flags_does_not_matter(
    program: Text,
    name: Text,
    path: Text,
    group: Text,
)
    requires
        path.len() > 0,
        group.len() > 0,
    ensures
        command_in(seq![program, name, "--config"@, path, "--socket-group"@, group]) == command_in(
            seq![program, name, "--socket-group"@, group, "--config"@, path],
        ),
{
    reveal_strlit("--config");
    reveal_strlit("--socket-group");
    reveal_strlit("=");
    let a = seq![program, name, "--config"@, path, "--socket-group"@, group];
    let b = seq![program, name, "--socket-group"@, group, "--config"@, path];
    assert("--config"@[2] != "--socket-group"@[2]);
    assert(after_prefix("--socket-group"@, "--config"@ + "="@) is None) by {
        let pat = "--config"@ + "="@;
        if crate::text::has_prefix("--socket-group"@, pat) {
            assert("--socket-group"@.subrange(0, pat.len() as int)[2] == "--socket-group"@[2]);
            assert(pat[2] == "--config"@[2]);
        }
    }
    reveal_with_fuel(flags_from, 4);
    assert(value_at(a, 2, "--config"@) == Ok::<Option<(Text, int)>, Text>(Some((path, 4int))));
    assert(value_at(a, 4, "--config"@) == Ok::<Option<(Text, int)>, Text>(None));
    assert(value_at(a, 4, "--socket-group"@) == Ok::<Option<(Text, int)>, Text>(
        Some((group, 6int)),
    ));
    assert(value_at(b, 2, "--config"@) == Ok::<Option<(Text, int)>, Text>(None));
    assert(value_at(b, 2, "--socket-group"@) == Ok::<Option<(Text, int)>, Text>(
        Some((group, 4int)),
    ));
    assert(value_at(b, 4, "--config"@) == Ok::<Option<(Text, int)>, Text>(Some((path, 6int))));
}

/// Is the text other than both flags, and no flag with its value?
pub open spec fn is_no_flag(arg: Text) -> bool {
    &&& arg != "--config"@ && arg != "--socket-group"@
    &&& after_prefix(arg, "--config"@ + "="@) is None
    &&& after_prefix(arg, "--socket-group"@ + "="@) is None
}

proof fn lemma_group_is_not_config()
    ensures
        "--config"@ != "--socket-group"@,
        after_prefix("--socket-group"@, "--config"@ + "="@) is None,
{
    reveal_strlit("--config");
    reveal_strlit("--socket-group");
    reveal_strlit("=");
    assert("--config"@[2] != "--socket-group"@[2]);
    let pat = "--config"@ + "="@;
    if crate::text::has_prefix("--socket-group"@, pat) {
        assert("--socket-group"@.subrange(0, pat.len() as int)[2] == "--socket-group"@[2]);
        assert(pat[2] == "--config"@[2]);
    }
}

proof fn lemma_names_differ()
    ensures
        "run"@ != "status"@,
        "run"@ != "revert"@,
        "status"@ != "revert"@,
{
    reveal_strlit("run");
    reveal_strlit("status");
    reveal_strlit("revert");
    assert("run"@.len() == 3);
    assert("status"@[0] != "revert"@[0]);
}

/// The commands, with the flags each may have, are taken for what they are:
/// `run` with a file, with a group, with both or with neither, `revert` with a
/// file or without, and `status` alone.
pub proof fn law_commands_are_taken_for_what_they_are(program: Text, path: Text, group: Text)
    requires
        path.len() > 0,
        group.len() > 0,
    ensures
        command_in(seq![program, "run"@]) == Ok::<CommandModel, Text>(
            CommandModel::Run { config: None, socket_group: None },
        ),
        command_in(seq![program, "run"@, "--config"@, path]) == Ok::<CommandModel, Text>(
            CommandModel::Run { config: Some(path), socket_group: None },
        ),
        command_in(seq![program, "run"@, "--socket-group"@, group]) == Ok::<CommandModel, Text>(
            CommandModel::Run { config: None, socket_group: Some(group) },
        ),
        command_in(seq![program, "run"@, "--config"@, path, "--socket-group"@, group]) == Ok::<
            CommandModel,
            Text,
        >(CommandModel::Run { config: Some(path), socket_group: Some(group) }),
        command_in(seq![program, "status"@]) == Ok::<CommandModel, Text>(CommandModel::Status),
        command_in(seq![program, "revert"@]) == Ok::<CommandModel, Text>(
            CommandModel::Revert { config: None },
        ),
        command_in(seq![program, "revert"@, "--config"@, path]) == Ok::<CommandModel, Text>(
            CommandModel::Revert { config: Some(path) },
        ),
{
    lemma_group_is_not_config();
    lemma_names_differ();
    reveal_with_fuel(flags_from, 4);
    let none = seq![program, "run"@];
    let file = seq![program, "run"@, "--config"@, path];
    assert(value_at(file, 2, "--config"@) == Ok::<Option<(Text, int)>, Text>(Some((path, 4int))));
    let team = seq![program, "run"@, "--socket-group"@, group];
    assert(value_at(team, 2, "--config"@) == Ok::<Option<(Text, int)>, Text>(None));
    assert(value_at(team, 2, "--socket-group"@) == Ok::<Option<(Text, int)>, Text>(
        Some((group, 4int)),
    ));
    let both = seq![program, "run"@, "--config"@, path, "--socket-group"@, group];
    assert(value_at(both, 2, "--config"@) == Ok::<Option<(Text, int)>, Text>(Some((path, 4int))));
    assert(value_at(both, 4, "--config"@) == Ok::<Option<(Text, int)>, Text>(None));
    assert(value_at(both, 4, "--socket-group"@) == Ok::<Option<(Text, int)>, Text>(
        Some((group, 6int)),
    ));
    let back = seq![program, "revert"@, "--config"@, path];
    assert(value_at(back, 2, "--config"@) == Ok::<Option<(Text, int)>, Text>(Some((path, 4int))));
}

/// What is not a command with its flags is refused: no command, an unknown
/// one, a flag that the command does not take, one without a value or with an
/// empty one, one given twice, and anything else.
pub proof fn law_anything_else_is_refused(
    program: Text,
    name: Text,
    path: Text,
    other: Text,
    group: Text,
)
    requires
        path.len() > 0,
        other.len() > 0,
        group.len() > 0,
    ensures
        command_in(seq![program]) is Err,
        name != "run"@ && name != "status"@ && name != "revert"@ ==> command_in(seq![program, name])
            is Err,
        command_in(seq![program, "status"@, "--config"@, path]) is Err,
        command_in(seq![program, "status"@, "--socket-group"@, group]) is Err,
        command_in(seq![program, "revert"@, "--socket-group"@, group]) is Err,
        command_in(seq![program, name, "--config"@]) is Err,
        command_in(seq![program, name, "--config"@, Seq::empty()]) is Err,
        command_in(seq![program, name, "--config"@, path, "--config"@, other]) is Err,
        is_no_flag(other) ==> command_in(seq![program, name, other]) is Err,
{
    lemma_group_is_not_config();
    lemma_names_differ();
    reveal_with_fuel(flags_from, 4);
    let a = seq![program, "status"@, "--config"@, path];
    assert(value_at(a, 2, "--config"@) == Ok::<Option<(Text, int)>, Text>(Some((path, 4int))));
    let b = seq![program, "status"@, "--socket-group"@, group];
    assert(value_at(b, 2, "--config"@) == Ok::<Option<(Text, int)>, Text>(None));
    assert(value_at(b, 2, "--socket-group"@) == Ok::<Option<(Text, int)>, Text>(
        Some((group, 4int)),
    ));
    let c = seq![program, "revert"@, "--socket-group"@, group];
    assert(value_at(c, 2, "--config"@) == Ok::<Option<(Text, int)>, Text>(None));
    assert(value_at(c, 2, "--socket-group"@) == Ok::<Option<(Text, int)>, Text>(
        Some((group, 4int)),
    ));
    let d = seq![program, name, "--config"@];
    assert(value_at(d, 2, "--config"@) is Err);
    let e = seq![program, name, "--config"@, Seq::empty()];
    assert(value_at(e, 2, "--config"@) is Err);
    let f = seq![program, name, "--config"@, path, "--config"@, other];
    assert(value_at(f, 2, "--config"@) == Ok::<Option<(Text, int)>, Text>(Some((path, 4int))));
    assert(value_at(f, 4, "--config"@) == Ok::<Option<(Text, int)>, Text>(Some((other, 6int))));
    let g = seq![program, name, other];
    if is_no_flag(other) {
        assert(value_at(g, 2, "--config"@) == Ok::<Option<(Text, int)>, Text>(None));
        assert(value_at(g, 2, "--socket-group"@) == Ok::<Option<(Text, int)>, Text>(None));
    }
}

} // verus!
