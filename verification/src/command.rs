//! The command model: one instruction for the remote machine, its parse
//! from text, its canonical textual form, and the outcome types that the
//! runner attaches to it.

use vstd::prelude::*;

use crate::text::{
    chars_of, count_char, count_in_range, dec_digits, find_char, find_in_range, is_space,
    lemma_count_char_zero, lemma_find_char_props, push_dec_u64, range_eq_str, trim, trim_str,
};

verus! {

use vstd::string::StrSliceExecFns;
use vstd::string::StringExecFns;

/// Errors raised when parsing a `Command`.
#[derive(Debug)]
pub enum Error {
    EmptyString,
    MissingArgument,
    UnknownCommand(String),
}

/// The mathematical value of an `Error`.
pub enum SyntaxErrorView {
    EmptyString,
    MissingArgument,
    UnknownCommand(Seq<char>),
}

impl View for Error {
    type V = SyntaxErrorView;

    open spec fn view(&self) -> SyntaxErrorView {
        match self {
            Error::EmptyString => SyntaxErrorView::EmptyString,
            Error::MissingArgument => SyntaxErrorView::MissingArgument,
            Error::UnknownCommand(s) => SyntaxErrorView::UnknownCommand(s@),
        }
    }
}

/// A command to be executed via a client.
#[derive(Debug)]
pub enum Command {
    Execute(String),
    Inspect,
    Upgrade,
}

/// The mathematical value of a `Command`.
pub enum CommandView {
    Execute(Seq<char>),
    Inspect,
    Upgrade,
}

impl View for Command {
    type V = CommandView;

    open spec fn view(&self) -> CommandView {
        match self {
            Command::Execute(s) => CommandView::Execute(s@),
            Command::Inspect => CommandView::Inspect,
            Command::Upgrade => CommandView::Upgrade,
        }
    }
}

impl Clone for Command {
    fn clone(&self) -> (r: Command)
        ensures
            r == *self,
    {
        match self {
            Command::Execute(s) => Command::Execute(s.clone()),
            Command::Inspect => Command::Inspect,
            Command::Upgrade => Command::Upgrade,
        }
    }
}

impl PartialEq for Command {
    fn eq(&self, other: &Command) -> (r: bool) {
        match (self, other) {
            (Command::Execute(a), Command::Execute(b)) => *a == *b,
            (Command::Inspect, Command::Inspect) => true,
            (Command::Upgrade, Command::Upgrade) => true,
            _ => false,
        }
    }
}

impl vstd::std_specs::cmp::PartialEqSpecImpl for Command {
    open spec fn obeys_eq_spec() -> bool {
        true
    }

    open spec fn eq_spec(&self, other: &Command) -> bool {
        self@ == other@
    }
}

/// What parsing one command text yields: the grammar is `NAME` or
/// `NAME: ARGUMENT`, the name is matched exactly against `EXECUTE`,
/// `INSPECT` and `UPGRADE`, and only `EXECUTE` takes an argument, exactly
/// one, which is kept trimmed.
pub open spec fn parse_command(s: Seq<char>) -> Result<CommandView, SyntaxErrorView> {
    if s.len() == 0 {
        Err(SyntaxErrorView::EmptyString)
    } else {
        let t = trim(s);
        let k = find_char(t, ':') as int;
        let head = t.take(k);
        if head == "EXECUTE"@ {
            if count_char(t, ':') == 1 {
                Ok(CommandView::Execute(trim(t.skip(k + 1))))
            } else {
                Err(SyntaxErrorView::MissingArgument)
            }
        } else if head == "INSPECT"@ {
            Ok(CommandView::Inspect)
        } else if head == "UPGRADE"@ {
            Ok(CommandView::Upgrade)
        } else {
            Err(SyntaxErrorView::UnknownCommand(s))
        }
    }
}

/// The canonical textual form of a command, the form `to_text` renders
/// and `from_str` accepts back.
pub open spec fn command_text(c: CommandView) -> Seq<char> {
    match c {
        CommandView::Execute(p) => "EXECUTE: "@ + p,
        CommandView::Inspect => "INSPECT"@,
        CommandView::Upgrade => "UPGRADE"@,
    }
}

impl Command {
    /// Parse one command from text.
    pub fn from_str(s: &str) -> (r: Result<Command, Error>)
        ensures
            match r {
                Ok(c) => parse_command(s@) == Ok::<CommandView, SyntaxErrorView>(c@),
                Err(e) => parse_command(s@) == Err::<CommandView, SyntaxErrorView>(e@),
            },
            match r {
                Ok(Command::Execute(p)) => p@ == trim(p@),
                _ => true,
            },
    {
        if s.is_empty() {
            return Err(Error::EmptyString);
        }
        let t = trim_str(s);
        let cs = chars_of(t);
        let n = cs.len();
        let k = find_in_range(&cs, 0, n, ':');
        proof {
            assert(cs@.subrange(0, n as int) =~= cs@);
            assert(cs@.subrange(0, k as int) =~= cs@.take(k as int));
        }
        if range_eq_str(&cs, 0, k, "EXECUTE") {
            let colons = count_in_range(&cs, 0, n, ':');
            if colons != 1 {
                Err(Error::MissingArgument)
            } else {
                proof {
                    lemma_count_char_zero(cs@, ':');
                    lemma_find_char_props(cs@, ':');
                }
                let payload = trim_str(t.substring_char(k + 1, n));
                proof {
                    assert(t@.subrange(k + 1, n as int) =~= t@.skip(k + 1));
                    crate::text::lemma_trim_idempotent(t@.skip(k + 1));
                }
                Ok(Command::Execute(payload.to_owned()))
            }
        } else if range_eq_str(&cs, 0, k, "INSPECT") {
            Ok(Command::Inspect)
        } else if range_eq_str(&cs, 0, k, "UPGRADE") {
            Ok(Command::Upgrade)
        } else {
            Err(Error::UnknownCommand(s.to_owned()))
        }
    }

    /// The canonical textual form of this command.
    pub fn to_text(&self) -> (r: String)
        ensures
            r@ == command_text(self@),
    {
        match self {
            Command::Execute(p) => {
                let mut out = "EXECUTE: ".to_owned();
                out.append(p.as_str());
                out
            },
            Command::Inspect => "INSPECT".to_owned(),
            Command::Upgrade => "UPGRADE".to_owned(),
        }
    }
}

/// Round-trip law: parsing the canonical text of a command yields the
/// command back, for every `Inspect` and `Upgrade` and for every
/// `Execute` whose payload is trimmed, non-empty and free of `':'`
/// (a colon in the payload would read as a second argument separator).
pub proof fn lemma_command_round_trip(c: CommandView)
    requires
        c matches CommandView::Execute(p) ==> p.len() > 0 && trim(p) == p && count_char(p, ':')
            == 0,
    ensures
        parse_command(command_text(c)) == Ok::<CommandView, SyntaxErrorView>(c),
{
    reveal_strlit("EXECUTE: ");
    reveal_strlit("EXECUTE");
    reveal_strlit("INSPECT");
    reveal_strlit("UPGRADE");
    match c {
        CommandView::Execute(p) => {
            let s = "EXECUTE: "@ + p;
            assert(s.len() == 9 + p.len());
            lemma_trimmed_all(p);
            assert(!is_space(s[0]));
            assert(s.last() == p.last());
            crate::text::lemma_trim_front_skip(s, 0);
            assert(s.skip(0) =~= s);
            crate::text::lemma_trim_back_take(s, s.len() as int);
            assert(s.take(s.len() as int) =~= s);
            assert(trim(s) == s);
            assert(s[7] == ':');
            crate::text::lemma_find_char_at(s, ':', 7);
            assert(s.take(7) =~= "EXECUTE"@);
            lemma_count_execute_prefix(p);
            assert(s.skip(8) =~= seq![' '] + p);
            assert((seq![' '] + p).drop_first() =~= p);
            assert(trim(s.skip(8)) == p);
        },
        CommandView::Inspect => {
            lemma_keyword_parse("INSPECT"@);
            assert("INSPECT"@ != "EXECUTE"@) by {
                assert("INSPECT"@[0] == 'I');
            }
        },
        CommandView::Upgrade => {
            lemma_keyword_parse("UPGRADE"@);
            assert("UPGRADE"@ != "EXECUTE"@) by {
                assert("UPGRADE"@[0] == 'U');
            }
            assert("UPGRADE"@ != "INSPECT"@) by {
                assert("UPGRADE"@[0] == 'U');
            }
        },
    }
}

/// The payload of every `Execute` command that parsing yields is
/// trimmed and free of `':'`.
pub proof fn lemma_parsed_execute_payload(s: Seq<char>)
    ensures
        parse_command(s) matches Ok(CommandView::Execute(p)) ==> trim(p) == p && count_char(
            p,
            ':',
        ) == 0,
{
    if s.len() > 0 {
        let t = trim(s);
        let k = find_char(t, ':') as int;
        if t.take(k) == "EXECUTE"@ && count_char(t, ':') == 1 {
            let rest = t.skip(k + 1);
            crate::text::lemma_trim_idempotent(rest);
            lemma_count_char_zero(t, ':');
            lemma_find_char_props(t, ':');
            assert(k < t.len()) by {
                if k == t.len() {
                    assert(forall|j: int| 0 <= j < t.len() ==> t[j] != ':');
                }
            }
            assert(t =~= t.take(k) + seq![t[k]] + rest);
            crate::text::lemma_count_char_concat(t.take(k) + seq![t[k]], rest, ':');
            crate::text::lemma_count_char_concat(t.take(k), seq![t[k]], ':');
            lemma_count_char_zero(t.take(k), ':');
            assert(seq![t[k]].drop_last() =~= Seq::<char>::empty());
            assert(count_char(seq![t[k]], ':') == 1);
            assert(count_char(rest, ':') == 0);
            lemma_count_char_zero(rest, ':');
            crate::text::lemma_trim_no_char(rest, ':');
            lemma_count_char_zero(trim(rest), ':');
        }
    }
}

/// Parsing, rendering and parsing again closes: every command that
/// parsing yields, with a non-empty payload when it is an `Execute`,
/// parses back from its own canonical text.
pub proof fn lemma_parse_round_trip(s: Seq<char>, c: CommandView)
    requires
        parse_command(s) == Ok::<CommandView, SyntaxErrorView>(c),
        c matches CommandView::Execute(p) ==> p.len() > 0,
    ensures
        parse_command(command_text(c)) == Ok::<CommandView, SyntaxErrorView>(c),
{
    lemma_parsed_execute_payload(s);
    lemma_command_round_trip(c);
}

/// A trimmed, non-empty text is left unchanged by every trim step.
proof fn lemma_trimmed_all(p: Seq<char>)
    requires
        p.len() > 0,
        trim(p) == p,
    ensures
        crate::text::trim_front(p) == p,
        crate::text::trim_back(p) == p,
        !is_space(p[0]),
        !is_space(p.last()),
{
    crate::text::lemma_trimmed_ends(p);
    crate::text::lemma_trim_front_skip(p, 0);
    assert(p.skip(0) =~= p);
    crate::text::lemma_trim_back_take(p, p.len() as int);
    assert(p.take(p.len() as int) =~= p);
}

/// `"EXECUTE: " + p` holds exactly one colon when `p` holds none.
proof fn lemma_count_execute_prefix(p: Seq<char>)
    requires
        count_char(p, ':') == 0,
    ensures
        count_char("EXECUTE: "@ + p, ':') == 1,
{
    reveal_strlit("EXECUTE: ");
    let lit = "EXECUTE: "@;
    let a = lit.subrange(0, 7);
    let b = lit.subrange(7, 8);
    let cc = lit.subrange(8, 9);
    assert(lit =~= a + b + cc);
    lemma_count_char_zero(a, ':');
    assert(count_char(Seq::<char>::empty(), ':') == 0);
    assert(b.drop_last() =~= Seq::<char>::empty());
    assert(b.last() == ':');
    assert(count_char(b, ':') == 1);
    assert(cc.drop_last() =~= Seq::<char>::empty());
    assert(cc.last() == ' ');
    assert(count_char(cc, ':') == 0);
    crate::text::lemma_count_char_concat(a, b, ':');
    crate::text::lemma_count_char_concat(a + b, cc, ':');
    assert(count_char(lit, ':') == 1);
    crate::text::lemma_count_char_concat(lit, p, ':');
}

/// A keyword with no whitespace and no colon parses with itself as head.
proof fn lemma_keyword_parse(t: Seq<char>)
    requires
        t.len() > 0,
        forall|j: int| 0 <= j < t.len() ==> !is_space(t[j]),
        forall|j: int| 0 <= j < t.len() ==> t[j] != ':',
    ensures
        trim(t) == t,
        find_char(t, ':') == t.len(),
        t.take(find_char(t, ':') as int) == t,
{
    crate::text::lemma_trim_front_skip(t, 0);
    assert(t.skip(0) =~= t);
    crate::text::lemma_trim_back_take(t, t.len() as int);
    assert(t.take(t.len() as int) =~= t);
    crate::text::lemma_find_char_none(t, ':');
}

/// The output carried by the execution of a command.
#[derive(Debug)]
pub enum CommandOutput {
    String(String),
    Uint32(u32),
}

/// The mathematical value of a `CommandOutput`.
pub enum CommandOutputView {
    String(Seq<char>),
    Uint32(u32),
}

impl View for CommandOutput {
    type V = CommandOutputView;

    open spec fn view(&self) -> CommandOutputView {
        match self {
            CommandOutput::String(s) => CommandOutputView::String(s@),
            CommandOutput::Uint32(u) => CommandOutputView::Uint32(*u),
        }
    }
}

impl PartialEq for CommandOutput {
    fn eq(&self, other: &CommandOutput) -> (r: bool) {
        match (self, other) {
            (CommandOutput::String(a), CommandOutput::String(b)) => *a == *b,
            (CommandOutput::Uint32(a), CommandOutput::Uint32(b)) => a == b,
            _ => false,
        }
    }
}

impl vstd::std_specs::cmp::PartialEqSpecImpl for CommandOutput {
    open spec fn obeys_eq_spec() -> bool {
        true
    }

    open spec fn eq_spec(&self, other: &CommandOutput) -> bool {
        self@ == other@
    }
}

/// The text an output is displayed as: text verbatim, a count in decimal.
pub open spec fn output_text(o: CommandOutputView) -> Seq<char> {
    match o {
        CommandOutputView::String(s) => s,
        CommandOutputView::Uint32(u) => dec_digits(u as nat),
    }
}

impl CommandOutput {
    /// The textual form of this output.
    pub fn to_text(&self) -> (r: String)
        ensures
            r@ == output_text(self@),
    {
        match self {
            CommandOutput::String(s) => s.clone(),
            CommandOutput::Uint32(u) => {
                let mut out = String::new();
                push_dec_u64(&mut out, *u as u64);
                out
            },
        }
    }
}

/// The status of the execution of one command: a genuine transport
/// failure, or success, possibly with an output.
#[derive(Debug)]
pub enum CommandStatus {
    Success(Option<CommandOutput>),
    Failure,
}

/// The mathematical value of a `CommandStatus`.
pub enum CommandStatusView {
    Success(Option<CommandOutputView>),
    Failure,
}

impl View for CommandStatus {
    type V = CommandStatusView;

    open spec fn view(&self) -> CommandStatusView {
        match self {
            CommandStatus::Success(o) => CommandStatusView::Success(
                match o {
                    Some(x) => Some(x@),
                    None => None,
                },
            ),
            CommandStatus::Failure => CommandStatusView::Failure,
        }
    }
}

impl PartialEq for CommandStatus {
    fn eq(&self, other: &CommandStatus) -> (r: bool) {
        match (self, other) {
            (CommandStatus::Success(a), CommandStatus::Success(b)) => match (a, b) {
                (Some(x), Some(y)) => x == y,
                (None, None) => true,
                _ => false,
            },
            (CommandStatus::Failure, CommandStatus::Failure) => true,
            _ => false,
        }
    }
}

impl vstd::std_specs::cmp::PartialEqSpecImpl for CommandStatus {
    open spec fn obeys_eq_spec() -> bool {
        true
    }

    open spec fn eq_spec(&self, other: &CommandStatus) -> bool {
        self@ == other@
    }
}

} // verus!
