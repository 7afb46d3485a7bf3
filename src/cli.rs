use vstd::prelude::*;
use vstd::string::StringExecFns;

use crate::exit_codes;
use crate::output::{texts, OutputMode};

verus! {

/// A parsed command line: one output mode and one command.
#[derive(Debug)]
pub struct Cli {
    pub mode: OutputMode,
    pub cmd: Command,
}

/// The command to carry out.
#[derive(Debug)]
pub enum Command {
    Env,
    Doctor,
    Version,
    Run { phase: String, args: Vec<String> },
    Help,
}

/// The mathematical value of a `Command`.
pub enum CommandView {
    Env,
    Doctor,
    Version,
    Run { phase: Seq<char>, args: Seq<Seq<char>> },
    Help,
}

impl View for Command {
    type V = CommandView;

    open spec fn view(&self) -> CommandView {
        match self {
            Command::Env => CommandView::Env,
            Command::Doctor => CommandView::Doctor,
            Command::Version => CommandView::Version,
            Command::Run { phase, args } => CommandView::Run { phase: phase@, args: texts(args@) },
            Command::Help => CommandView::Help,
        }
    }
}

impl View for Cli {
    type V = (OutputMode, CommandView);

    open spec fn view(&self) -> (OutputMode, CommandView) {
        (self.mode, self.cmd@)
    }
}

/// Where the scan of the leading global flags stops.
pub enum FlagStop {
    /// `-h` or `--help` was met, with the mode chosen so far.
    Help(OutputMode),
    /// An unrecognised token that starts with `-`.
    Unknown(Seq<char>),
    /// The command name (if any) is at this index; the mode chosen so far.
    At(nat, OutputMode),
}

pub open spec fn is_dash_token(t: Seq<char>) -> bool {
    t.len() > 0 && t[0] == '-'
}

/// Scans the global flags from index `i` on, in mode `mode`.
pub open spec fn scan_flags(args: Seq<Seq<char>>, i: nat, mode: OutputMode) -> FlagStop
    decreases args.len() - i,
{
    if i >= args.len() {
        FlagStop::At(i, mode)
    } else {
        let t = args[i as int];
        if t == "--json"@ {
            scan_flags(args, i + 1, OutputMode::Json)
        } else if t == "-h"@ || t == "--help"@ {
            FlagStop::Help(mode)
        } else if t == "--"@ {
            FlagStop::At(i + 1, mode)
        } else if is_dash_token(t) {
            FlagStop::Unknown(t)
        } else {
            FlagStop::At(i, mode)
        }
    }
}

/// The arguments handed on by `run`: what follows the phase, less one leading `--`.
pub open spec fn run_rest(args: Seq<Seq<char>>, j: int) -> Seq<Seq<char>> {
    if j < args.len() && args[j] == "--"@ {
        args.subrange(j + 1, args.len() as int)
    } else {
        args.subrange(j, args.len() as int)
    }
}

/// The meaning of the command name at index `i` and what follows it.
pub open spec fn command_at(args: Seq<Seq<char>>, i: int, mode: OutputMode) -> Result<
    (OutputMode, CommandView),
    (i32, Seq<char>),
> {
    let name = args[i];
    if name == "env"@ {
        Ok((mode, CommandView::Env))
    } else if name == "doctor"@ {
        Ok((mode, CommandView::Doctor))
    } else if name == "version"@ || name == "--version"@ || name == "-V"@ {
        Ok((mode, CommandView::Version))
    } else if name == "run"@ {
        if i + 1 >= args.len() {
            Err((exit_codes::USAGE, "run requires <phase>"@))
        } else {
            Ok((mode, CommandView::Run { phase: args[i + 1], args: run_rest(args, i + 2) }))
        }
    } else if name == "help"@ {
        Ok((mode, CommandView::Help))
    } else {
        Err((exit_codes::USAGE, "unknown command: "@ + name))
    }
}

/// What a command line means; `args[0]` is the program name.
pub open spec fn parse_spec(args: Seq<Seq<char>>) -> Result<(OutputMode, CommandView), (i32, Seq<char>)> {
    match scan_flags(args, 1, OutputMode::Text) {
        FlagStop::Help(mode) => Ok((mode, CommandView::Help)),
        FlagStop::Unknown(t) => Err((exit_codes::USAGE, "unknown flag: "@ + t)),
        FlagStop::At(i, mode) => if i >= args.len() {
            Ok((mode, CommandView::Help))
        } else {
            command_at(args, i as int, mode)
        },
    }
}

/// A usage error: the usage exit code with one of the parser's three messages.
pub open spec fn is_usage_error(e: (i32, Seq<char>)) -> bool {
    &&& e.0 == exit_codes::USAGE
    &&& {
        ||| e.1 == "run requires <phase>"@
        ||| exists|t: Seq<char>| e.1 == "unknown flag: "@ + t
        ||| exists|t: Seq<char>| e.1 == "unknown command: "@ + t
    }
}

/// Totality: every sequence of tokens parses to an invocation or to a usage
/// error; no other failure exists.
pub proof fn lemma_parse_total(args: Seq<Seq<char>>)
    ensures
        parse_spec(args) is Ok || (parse_spec(args) is Err && is_usage_error(parse_spec(args)->Err_0)),
{
    match scan_flags(args, 1, OutputMode::Text) {
        FlagStop::Unknown(t) => {
            assert(parse_spec(args)->Err_0.1 == "unknown flag: "@ + t);
        },
        FlagStop::At(i, mode) => {
            if i < args.len() {
                let name = args[i as int];
                if parse_spec(args) is Err && !(name == "run"@) {
                    assert(parse_spec(args)->Err_0.1 == "unknown command: "@ + name);
                }
            }
        },
        FlagStop::Help(_) => {},
    }
}

/// The mathematical value of a parse result.
pub open spec fn parse_result_view(r: Result<Cli, (i32, String)>) -> Result<
    (OutputMode, CommandView),
    (i32, Seq<char>),
> {
    match r {
        Ok(c) => Ok(c@),
        Err(e) => Err((e.0, e.1@)),
    }
}

fn same_text(a: &str, b: &str) -> (r: bool)
    ensures
        r == (a@ == b@),
{
    let n: usize = a.unicode_len();
    let m: usize = b.unicode_len();
    if n != m {
        return false;
    }
    let mut i: usize = 0;
    while i < n
        invariant
            n == a@.len(),
            m == b@.len(),
            n == m,
            i <= n,
            forall|k: int| 0 <= k < i ==> a@[k] == b@[k],
        decreases n - i,
    {
        if a.get_char(i) != b.get_char(i) {
            return false;
        }
        i = i + 1;
    }
    assert(a@ =~= b@);
    true
}

fn starts_with_dash(s: &str) -> (r: bool)
    ensures
        r == is_dash_token(s@),
{
    s.unicode_len() > 0 && s.get_char(0) == '-'
}

/// Parses a command line (`args[0]` is the program name) into a mode and a
/// command, or a usage error with its exit code and message.
pub fn parse_args(args: Vec<String>) -> (r: Result<Cli, (i32, String)>)
    ensures
        parse_result_view(r) == parse_spec(texts(args@)),
        r is Err ==> is_usage_error((r->Err_0.0, r->Err_0.1@)),
{
    proof {
        lemma_parse_total(texts(args@));
    }
    let ghost a = texts(args@);
    assert(a.len() == args@.len());
    let mut i: usize = 1;
    let mut mode = OutputMode::Text;
    let mut stop = false;
    while !stop && i < args.len()
        invariant
            a == texts(args@),
            i >= 1,
            !stop ==> scan_flags(a, 1, OutputMode::Text) == scan_flags(a, i as nat, mode),
            stop ==> scan_flags(a, 1, OutputMode::Text) == FlagStop::At(i as nat, mode),
            stop ==> i <= args.len(),
        decreases args.len() - i + (if stop { 0int } else { 1int }),
    {
        let t = args[i].as_str();
        if same_text(t, "--json") {
            mode = OutputMode::Json;
            i = i + 1;
        } else if same_text(t, "-h") || same_text(t, "--help") {
            return Ok(Cli { mode, cmd: Command::Help });
        } else if same_text(t, "--") {
            i = i + 1;
            stop = true;
        } else if starts_with_dash(t) {
            let mut msg = String::from_str("unknown flag: ");
            msg.append(t);
            return Err((exit_codes::USAGE, msg));
        } else {
            stop = true;
        }
    }
    if i >= args.len() {
        return Ok(Cli { mode, cmd: Command::Help });
    }
    let name = args[i].as_str();
    if same_text(name, "env") {
        Ok(Cli { mode, cmd: Command::Env })
    } else if same_text(name, "doctor") {
        Ok(Cli { mode, cmd: Command::Doctor })
    } else if same_text(name, "version") || same_text(name, "--version") || same_text(name, "-V") {
        Ok(Cli { mode, cmd: Command::Version })
    } else if same_text(name, "run") {
        if i + 1 >= args.len() {
            return Err((exit_codes::USAGE, String::from_str("run requires <phase>")));
        }
        let phase = args[i + 1].clone();
        let mut j: usize = i + 2;
        if j < args.len() && same_text(args[j].as_str(), "--") {
            j = j + 1;
        }
        let ghost start = j as int;
        let mut rest: Vec<String> = Vec::new();
        while j < args.len()
            invariant
                a == texts(args@),
                a.len() == args@.len(),
                0 <= start <= j <= args.len(),
                texts(rest@) == a.subrange(start, j as int),
            decreases args.len() - j,
        {
            let ghost before = rest@;
            rest.push(args[j].clone());
            proof {
                assert(rest@ == before.push(args@[j as int]));
                assert(texts(rest@) =~= texts(before).push(a[j as int]));
                assert(texts(rest@) =~= a.subrange(start, j + 1));
            }
            j = j + 1;
        }
        assert(texts(rest@) =~= run_rest(a, i + 2));
        Ok(Cli { mode, cmd: Command::Run { phase, args: rest } })
    } else if same_text(name, "help") {
        Ok(Cli { mode, cmd: Command::Help })
    } else {
        let mut msg = String::from_str("unknown command: ");
        msg.append(name);
        Err((exit_codes::USAGE, msg))
    }
}

/// The help text shown on the diagnostic stream.
pub fn usage_text() -> (r: &'static str)
    ensures
        r@ == usage_spec(),
{
    "kamfw device runtime\n\nUSAGE:\n  kamfw [--json] <command> [args...]\n\nCOMMANDS:\n  env\n  doctor\n  run <phase> -- [args...]\n  version\n\nFLAGS:\n  --json     output machine JSON to stdout\n  -h,--help  show help\n"
}

pub open spec fn usage_spec() -> Seq<char> {
    "kamfw device runtime\n\nUSAGE:\n  kamfw [--json] <command> [args...]\n\nCOMMANDS:\n  env\n  doctor\n  run <phase> -- [args...]\n  version\n\nFLAGS:\n  --json     output machine JSON to stdout\n  -h,--help  show help\n"@
}

} // verus!
