//! The commands that administrators give in a room.
use vstd::prelude::*;

use crate::ids::{parse_user_id, parsed_user_id};
use crate::text::{
    begins_with, from_chars, from_chars_between, law_begins_with, law_trimming, rows, same_text,
    split_words, starts_with, to_chars, trim, trimmed, whitespace, word_end_from, word_len, words,
    CharClass,
};

verus! {

// ── Verifying a device ──────────────────────────────────────────────────────
/// The user and the device that the arguments of `!verify-device` name, given
/// whether the first argument is a user ID.
pub open spec fn device_arguments(arguments: Seq<char>, user_ok: bool) -> Result<
    (Seq<char>, Seq<char>),
    Seq<char>,
> {
    let ws = words(arguments);
    if ws.len() != 2 {
        Err("expected exactly a Matrix user ID and device ID"@)
    } else if !user_ok {
        Err("invalid Matrix user ID"@)
    } else {
        Ok((ws[0], ws[1]))
    }
}

pub open spec fn device_result(r: Result<(String, String), &'static str>) -> Result<
    (Seq<char>, Seq<char>),
    Seq<char>,
> {
    match r {
        Ok((user, device)) => Ok((user@, device@)),
        Err(e) => Err(e@),
    }
}

/// The user and the device that the arguments of `!verify-device` name, given
/// whether the first argument is a user ID.
pub fn device_arguments_given(arguments: &str, user_ok: bool) -> (r: Result<
    (String, String),
    &'static str,
>)
    ensures
        device_result(r) == device_arguments(arguments@, user_ok),
{
    let v = to_chars(arguments);
    let parts = split_words(&v);
    assert(rows(parts@).len() == parts@.len());
    if parts.len() != 2 {
        return Err("expected exactly a Matrix user ID and device ID");
    }
    assert(rows(parts@)[0] == parts@[0]@);
    assert(rows(parts@)[1] == parts@[1]@);
    if !user_ok {
        return Err("invalid Matrix user ID");
    }
    Ok((from_chars(&parts[0]), from_chars(&parts[1])))
}

/// Reads the arguments of `!verify-device`: exactly a Matrix user ID and a
/// device ID.
pub fn parse_verify_device_arguments(arguments: &str) -> (r: Result<(String, String), &'static str>)
    ensures
        device_result(r) == device_arguments(
            arguments@,
            parsed_user_id(words(arguments@)[0]) is Some,
        ),
{
    let v = to_chars(arguments);
    let parts = split_words(&v);
    assert(rows(parts@).len() == parts@.len());
    if parts.len() == 2 {
        assert(rows(parts@)[0] == parts@[0]@);
        let user = from_chars(&parts[0]);
        let user_ok: bool = parse_user_id(user.as_str()).is_some();
        device_arguments_given(arguments, user_ok)
    } else {
        device_arguments_given(arguments, false)
    }
}

// ── Recognizing commands ────────────────────────────────────────────────────
/// A command, with what follows its name.
pub enum Command {
    VerifyDevice { arguments: String },
    ResetTrust { target: String },
    Translate { subcommand: String, argument: String },
}

pub enum CommandView {
    VerifyDevice { arguments: Seq<char> },
    ResetTrust { target: Seq<char> },
    Translate { subcommand: Seq<char>, argument: Seq<char> },
}

impl View for Command {
    type V = CommandView;

    open spec fn view(&self) -> CommandView {
        match self {
            Command::VerifyDevice { arguments } => CommandView::VerifyDevice {
                arguments: arguments@,
            },
            Command::ResetTrust { target } => CommandView::ResetTrust { target: target@ },
            Command::Translate { subcommand, argument } => CommandView::Translate {
                subcommand: subcommand@,
                argument: argument@,
            },
        }
    }
}

pub open spec fn opt_command(c: Option<Command>) -> Option<CommandView> {
    match c {
        Some(command) => Some(command@),
        None => None,
    }
}

/// The first word of `s` and the rest, without white space around it; the rest
/// is empty where there is no white space.
pub open spec fn first_and_rest(s: Seq<char>) -> (Seq<char>, Seq<char>) {
    let n = word_len(s);
    if n < s.len() {
        (s.take(n), trimmed(s.skip(n + 1)))
    } else {
        (s, seq![])
    }
}

/// What follows the prefix `p` in `s`.
pub open spec fn after_prefix(s: Seq<char>, p: Seq<char>) -> Seq<char> {
    s.skip(p.len() as int)
}

/// The command that the trimmed message `raw` gives, if it gives one.
pub open spec fn command_in(raw: Seq<char>) -> Option<CommandView> {
    if begins_with(raw, "!verify-device "@) {
        Some(CommandView::VerifyDevice { arguments: after_prefix(raw, "!verify-device "@) })
    } else if begins_with(raw, "!reset-trust "@) {
        Some(CommandView::ResetTrust { target: after_prefix(raw, "!reset-trust "@) })
    } else if raw == "!translate"@ || begins_with(raw, "!translate "@) {
        let (subcommand, argument) = first_and_rest(trimmed(after_prefix(raw, "!translate"@)));
        Some(CommandView::Translate { subcommand, argument })
    } else {
        None
    }
}

fn after(raw: &str, prefix: &str) -> (r: String)
    requires
        raw@.len() >= prefix@.len(),
    ensures
        r@ == after_prefix(raw@, prefix@),
{
    let v = to_chars(raw);
    let w = to_chars(prefix);
    let r = from_chars_between(&v, w.len(), v.len());
    assert(r@ =~= after_prefix(raw@, prefix@));
    r
}

fn split_first(s: &str) -> (r: (String, String))
    ensures
        (r.0@, r.1@) == first_and_rest(s@),
{
    let v = to_chars(s);
    let n: usize = word_end_from(&v, 0);
    assert(v@.skip(0) =~= v@);
    if n < v.len() {
        let first = from_chars_between(&v, 0, n);
        let rest = from_chars_between(&v, n + 1, v.len());
        assert(first@ =~= s@.take(n as int));
        assert(rest@ =~= s@.skip(n + 1));
        (first, trim(rest.as_str()))
    } else {
        let rest: String = String::new();
        assert(rest@ =~= seq![]);
        (s.to_owned(), rest)
    }
}

/// The command that the trimmed message `raw` gives, if it gives one.
pub fn parse_command(raw: &str) -> (r: Option<Command>)
    ensures
        opt_command(r) == command_in(raw@),
{
    proof {
        reveal_strlit("!verify-device ");
        reveal_strlit("!reset-trust ");
        reveal_strlit("!translate ");
        reveal_strlit("!translate");
    }
    if starts_with(raw, "!verify-device ") {
        return Some(Command::VerifyDevice { arguments: after(raw, "!verify-device ") });
    }
    if starts_with(raw, "!reset-trust ") {
        return Some(Command::ResetTrust { target: after(raw, "!reset-trust ") });
    }
    if same_text(raw, "!translate") || starts_with(raw, "!translate ") {
        let rest = after(raw, "!translate");
        let trimmed_rest = trim(rest.as_str());
        let (subcommand, argument) = split_first(trimmed_rest.as_str());
        return Some(Command::Translate { subcommand, argument });
    }
    None
}

// ── Deciding on commands ────────────────────────────────────────────────────
/// What `!translate` is asked for.
pub enum Report {
    Status,
    Stats,
    Debug { event_id: String },
    Version,
    Retry { event_id: String },
    Usage,
}

pub enum ReportView {
    Status,
    Stats,
    Debug { event_id: Seq<char> },
    Version,
    Retry { event_id: Seq<char> },
    Usage,
}

impl View for Report {
    type V = ReportView;

    open spec fn view(&self) -> ReportView {
        match self {
            Report::Status => ReportView::Status,
            Report::Stats => ReportView::Stats,
            Report::Debug { event_id } => ReportView::Debug { event_id: event_id@ },
            Report::Version => ReportView::Version,
            Report::Retry { event_id } => ReportView::Retry { event_id: event_id@ },
            Report::Usage => ReportView::Usage,
        }
    }
}

/// The report that a subcommand of `!translate` asks for.
pub open spec fn report_for(subcommand: Seq<char>, argument: Seq<char>) -> ReportView {
    if subcommand == "status"@ {
        ReportView::Status
    } else if subcommand == "stats"@ {
        ReportView::Stats
    } else if subcommand == "debug"@ {
        ReportView::Debug { event_id: argument }
    } else if subcommand == "version"@ {
        ReportView::Version
    } else if subcommand == "retry"@ {
        ReportView::Retry { event_id: argument }
    } else {
        ReportView::Usage
    }
}

fn select_report(subcommand: &str, argument: String) -> (r: Report)
    ensures
        r@ == report_for(subcommand@, argument@),
{
    if same_text(subcommand, "status") {
        Report::Status
    } else if same_text(subcommand, "stats") {
        Report::Stats
    } else if same_text(subcommand, "debug") {
        Report::Debug { event_id: argument }
    } else if same_text(subcommand, "version") {
        Report::Version
    } else if same_text(subcommand, "retry") {
        Report::Retry { event_id: argument }
    } else {
        Report::Usage
    }
}

/// What to do about a command.
pub enum CommandAction {
    /// The sender is no administrator.
    Ignore,
    /// Grant and start the verification of a device.
    VerifyDevice { user: String, device: String },
    /// Allow a user to verify anew.
    GrantUser { user: String },
    /// The command is not well-formed; only logged.
    Reject { problem: &'static str },
    /// Answer with a report.
    Reply(Report),
}

pub enum ActionView {
    Ignore,
    VerifyDevice { user: Seq<char>, device: Seq<char> },
    GrantUser { user: Seq<char> },
    Reject { problem: Seq<char> },
    Reply(ReportView),
}

impl View for CommandAction {
    type V = ActionView;

    open spec fn view(&self) -> ActionView {
        match self {
            CommandAction::Ignore => ActionView::Ignore,
            CommandAction::VerifyDevice { user, device } => ActionView::VerifyDevice {
                user: user@,
                device: device@,
            },
            CommandAction::GrantUser { user } => ActionView::GrantUser { user: user@ },
            CommandAction::Reject { problem } => ActionView::Reject { problem: problem@ },
            CommandAction::Reply(report) => ActionView::Reply(report@),
        }
    }
}

/// The text of a command that has to be a user ID.
pub open spec fn named_user(command: CommandView) -> Seq<char> {
    match command {
        CommandView::VerifyDevice { arguments } => words(arguments)[0],
        CommandView::ResetTrust { target } => trimmed(target),
        CommandView::Translate { .. } => seq![],
    }
}

/// What is done about a command, given whether its sender is an administrator
/// and whether the user it names is a user ID.
pub open spec fn action_for(command: CommandView, is_admin: bool, user_ok: bool) -> ActionView {
    if !is_admin {
        ActionView::Ignore
    } else {
        match command {
            CommandView::VerifyDevice { arguments } => match device_arguments(arguments, user_ok) {
                Ok((user, device)) => ActionView::VerifyDevice { user, device },
                Err(problem) => ActionView::Reject { problem },
            },
            CommandView::ResetTrust { target } => if user_ok {
                ActionView::GrantUser { user: trimmed(target) }
            } else {
                ActionView::Reject { problem: "invalid user ID"@ }
            },
            CommandView::Translate { subcommand, argument } => ActionView::Reply(
                report_for(subcommand, argument),
            ),
        }
    }
}

/// Decides on a command, given whether its sender is an administrator and
/// whether the user it names is a user ID.
pub fn decide_command_given(command: Command, is_admin: bool, user_ok: bool) -> (r: CommandAction)
    ensures
        r@ == action_for(command@, is_admin, user_ok),
{
    if !is_admin {
        return CommandAction::Ignore;
    }
    match command {
        Command::VerifyDevice { arguments } => match device_arguments_given(
            arguments.as_str(),
            user_ok,
        ) {
            Ok((user, device)) => CommandAction::VerifyDevice { user, device },
            Err(problem) => CommandAction::Reject { problem },
        },
        Command::ResetTrust { target } => if user_ok {
            CommandAction::GrantUser { user: trim(target.as_str()) }
        } else {
            CommandAction::Reject { problem: "invalid user ID" }
        },
        Command::Translate { subcommand, argument } => CommandAction::Reply(
            select_report(subcommand.as_str(), argument),
        ),
    }
}

/// Decides on a command, given whether its sender is an administrator.
pub fn decide_command(command: Command, is_admin: bool) -> (r: CommandAction)
    ensures
        r@ == action_for(command@, is_admin, parsed_user_id(named_user(command@)) is Some),
{
    let user_ok: bool = match &command {
        Command::VerifyDevice { arguments } => match parse_verify_device_arguments(
            arguments.as_str(),
        ) {
            Ok(_) => true,
            Err(_) => false,
        },
        Command::ResetTrust { target } => {
            let user = trim(target.as_str());
            parse_user_id(user.as_str()).is_some()
        },
        Command::Translate { .. } => false,
    };
    decide_command_given(command, is_admin, user_ok)
}

/// A command of somebody who is no administrator has no effect at all.
pub proof fn law_commands_are_for_administrators(command: CommandView, user_ok: bool)
    ensures
        action_for(command, false, user_ok) == ActionView::Ignore,
{
}

/// A trust decision is taken only about a text that is a user ID.
pub proof fn law_trust_needs_a_user_id(command: CommandView, is_admin: bool, user_ok: bool)
    ensures
        action_for(command, is_admin, user_ok) matches ActionView::VerifyDevice { user, .. }
            ==> user_ok && user == named_user(command),
        action_for(command, is_admin, user_ok) matches ActionView::GrantUser { user } ==> user_ok
            && user == named_user(command),
{
}

/// Exactly two words name a device: a user ID and a device ID.
pub proof fn law_device_arguments(arguments: Seq<char>, user_ok: bool)
    ensures
        ({
            let ws = words(arguments);
            let r = device_arguments(arguments, user_ok);
            &&& r is Ok <==> ws.len() == 2 && user_ok
            &&& r matches Ok((user, device)) ==> user == ws[0] && device == ws[1]
            &&& ws.len() != 2 ==> r == Err::<(Seq<char>, Seq<char>), Seq<char>>(
                "expected exactly a Matrix user ID and device ID"@,
            )
            &&& ws.len() == 2 && !user_ok ==> r == Err::<(Seq<char>, Seq<char>), Seq<char>>(
                "invalid Matrix user ID"@,
            )
        }),
{
}

/// A command is its name, a space and what belongs to it; `!translate` stands
/// alone too. Its subcommand is the first word behind the name, and the argument
/// what follows that word, without white space around it.
pub proof fn law_commands(
    rest: Seq<char>,
    word: Seq<char>,
    sep: char,
    argument: Seq<char>,
)
    requires
        forall|i: int| 0 <= i < word.len() ==> !whitespace(#[trigger] word[i]),
        whitespace(sep),
    ensures
        command_in("!verify-device "@ + rest) == Some(
            CommandView::VerifyDevice { arguments: rest },
        ),
        command_in("!reset-trust "@ + rest) == Some(CommandView::ResetTrust { target: rest }),
        command_in("!translate"@) == Some(
            CommandView::Translate { subcommand: Seq::empty(), argument: Seq::empty() },
        ),
        command_in("!translate "@ + rest) matches Some(CommandView::Translate {
            subcommand,
            argument: found,
        }) && (subcommand, found) == first_and_rest(trimmed(" "@ + rest)),
        first_and_rest(word) == (word, Seq::<char>::empty()),
        first_and_rest(word + seq![sep] + argument) == (word, trimmed(argument)),
{
    reveal_strlit("!verify-device ");
    reveal_strlit("!reset-trust ");
    reveal_strlit("!translate ");
    reveal_strlit("!translate");
    reveal_strlit(" ");
    let v = "!verify-device "@ + rest;
    law_begins_with(rest, "!verify-device "@);
    assert(v.skip(15) =~= rest);
    let r = "!reset-trust "@ + rest;
    law_begins_with(rest, "!reset-trust "@);
    law_begins_with(r, "!verify-device "@);
    assert(r[1] == 'r' && "!verify-device "@[1] == 'v');
    assert(r.skip(13) =~= rest);
    let t = "!translate "@ + rest;
    law_begins_with(rest, "!translate "@);
    law_begins_with(t, "!verify-device "@);
    law_begins_with(t, "!reset-trust "@);
    assert(t[1] == 't' && "!reset-trust "@[1] == 'r');
    assert(t.skip(10) =~= " "@ + rest);
    let bare = "!translate"@;
    assert(bare.skip(10) =~= seq![]);
    assert(trimmed(seq![]) =~= seq![]) by {
        let (lo, hi) = law_trimming(seq![], CharClass::Whitespace);
    }
    law_begins_with(bare, "!verify-device "@);
    law_begins_with(bare, "!reset-trust "@);
    lemma_word_len_is(word, seq![]);
    assert(word + seq![] =~= word);
    let s = word + seq![sep] + argument;
    assert(s =~= word + (seq![sep] + argument));
    lemma_word_len_is(word, seq![sep] + argument);
    assert(s.take(word.len() as int) =~= word);
    assert(s.skip(word.len() as int + 1) =~= argument);
}

proof fn lemma_word_len_is(word: Seq<char>, rest: Seq<char>)
    requires
        forall|i: int| 0 <= i < word.len() ==> !whitespace(#[trigger] word[i]),
        rest.len() > 0 ==> whitespace(rest[0]),
    ensures
        word_len(word + rest) == word.len(),
    decreases word.len(),
{
    let s = word + rest;
    if word.len() == 0 {
        assert(s =~= rest);
    } else {
        let t = word.skip(1);
        assert(s[0] == word[0]);
        assert(s.skip(1) =~= t + rest);
        assert forall|i: int| 0 <= i < t.len() implies !whitespace(#[trigger] t[i]) by {
            assert(t[i] == word[i + 1]);
        }
        lemma_word_len_is(t, rest);
    }
}

/// What begins with none of the names is no command.
pub proof fn law_everything_else_is_no_command(raw: Seq<char>)
    requires
        !begins_with(raw, "!verify-device "@),
        !begins_with(raw, "!reset-trust "@),
        !begins_with(raw, "!translate "@),
        raw != "!translate"@,
    ensures
        command_in(raw) is None,
{
}

/// What an administrator's command does: it verifies the device or grants the
/// user that it names, where it names one rightly, and is rejected else; and
/// `!translate` answers with the report of its subcommand, or with its usage.
pub proof fn law_commands_of_administrators(
    text: Seq<char>,
    subcommand: Seq<char>,
    argument: Seq<char>,
    user_ok: bool,
)
    ensures
        match device_arguments(text, user_ok) {
            Ok((user, device)) => action_for(
                CommandView::VerifyDevice { arguments: text },
                true,
                user_ok,
            ) == (ActionView::VerifyDevice { user, device }),
            Err(problem) => action_for(
                CommandView::VerifyDevice { arguments: text },
                true,
                user_ok,
            ) == (ActionView::Reject { problem }),
        },
        action_for(CommandView::ResetTrust { target: text }, true, true) == (ActionView::GrantUser {
            user: trimmed(text),
        }),
        action_for(CommandView::ResetTrust { target: text }, true, false) == (ActionView::Reject {
            problem: "invalid user ID"@,
        }),
        ({
            let answer = |sub: Seq<char>|
                action_for(CommandView::Translate { subcommand: sub, argument }, true, user_ok);
            &&& answer("status"@) == ActionView::Reply(ReportView::Status)
            &&& answer("stats"@) == ActionView::Reply(ReportView::Stats)
            &&& answer("debug"@) == ActionView::Reply(ReportView::Debug { event_id: argument })
            &&& answer("version"@) == ActionView::Reply(ReportView::Version)
            &&& answer("retry"@) == ActionView::Reply(ReportView::Retry { event_id: argument })
            &&& subcommand != "status"@ && subcommand != "stats"@ && subcommand != "debug"@
                && subcommand != "version"@ && subcommand != "retry"@ ==> answer(subcommand)
                == ActionView::Reply(ReportView::Usage)
        }),
        named_user(CommandView::ResetTrust { target: text }) == trimmed(text),
        words(text).len() > 0 ==> named_user(CommandView::VerifyDevice { arguments: text }) == words(
            text,
        )[0],
{
    reveal_strlit("status");
    reveal_strlit("stats");
    reveal_strlit("debug");
    reveal_strlit("version");
    reveal_strlit("retry");
    assert("status"@.len() == 6 && "stats"@.len() == 5 && "debug"@[0] == 'd' && "version"@[0] == 'v'
        && "retry"@[0] == 'r' && "stats"@[0] == 's');
}

/// Commands and what is read of them say the texts that they hold.
pub proof fn law_command_views(a: String, b: String, c: Command)
    ensures
        device_result(Ok((a, b))) == Ok::<(Seq<char>, Seq<char>), Seq<char>>((a@, b@)),
        opt_command(Some(c)) == Some(c@),
        opt_command(None) is None,
        (Command::VerifyDevice { arguments: a })@ == (CommandView::VerifyDevice { arguments: a@ }),
        (Command::ResetTrust { target: a })@ == (CommandView::ResetTrust { target: a@ }),
        (Command::Translate { subcommand: a, argument: b })@ == (CommandView::Translate {
            subcommand: a@,
            argument: b@,
        }),
{
}

/// Actions and reports say what they hold.
pub proof fn law_action_views(a: String, b: String, report: Report, problem: &'static str)
    ensures
        CommandAction::Ignore@ == ActionView::Ignore,
        (CommandAction::VerifyDevice { user: a, device: b })@ == (ActionView::VerifyDevice {
            user: a@,
            device: b@,
        }),
        (CommandAction::GrantUser { user: a })@ == (ActionView::GrantUser { user: a@ }),
        (CommandAction::Reject { problem })@ == (ActionView::Reject { problem: problem@ }),
        CommandAction::Reply(report)@ == ActionView::Reply(report@),
        Report::Status@ == ReportView::Status,
        Report::Stats@ == ReportView::Stats,
        (Report::Debug { event_id: a })@ == (ReportView::Debug { event_id: a@ }),
        Report::Version@ == ReportView::Version,
        (Report::Retry { event_id: a })@ == (ReportView::Retry { event_id: a@ }),
        Report::Usage@ == ReportView::Usage,
{
}

} // verus!
