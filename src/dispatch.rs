use vstd::prelude::*;
use vstd::string::StringExecFns;

use crate::cli::{usage_spec, usage_text, Cli, Command, CommandView};
use crate::exit_codes;
use crate::output::{
    bool_text, field_texts, int_text, json_arr, json_array, json_bool, json_num_i32, json_obj,
    json_object, json_quote, json_str, join_with, join_words, kv_lines, kv_text, texts, OutputMode,
    single_line, lemma_quote_single_line, lemma_int_single_line, lemma_array_single_line,
    lemma_object_single_line,
};

verus! {

/// The resolved environment: named paths and identifiers.
#[derive(Debug)]
pub struct EnvSnapshot {
    pub kam_home: String,
    pub moddir: String,
    pub manager: String,
    pub local_bin: String,
    pub config_dir: String,
    pub state_dir: String,
    pub cache_dir: String,
    pub log_dir: String,
    pub tmp_dir: String,
}

/// A failure to resolve the environment, with the exit code it calls for.
#[derive(Debug)]
pub struct EnvError {
    pub message: String,
    pub code: i32,
}

/// One diagnostic check as reported by a doctor run.
#[derive(Debug)]
pub struct Check {
    pub name: String,
    pub ok: bool,
    pub detail: String,
}

/// What one invocation writes and how it exits.
#[derive(Debug)]
pub struct Outcome {
    /// The machine-parseable stream.
    pub stdout: String,
    /// The diagnostic stream.
    pub stderr: String,
    pub code: i32,
}

impl View for Outcome {
    type V = (Seq<char>, Seq<char>, i32);

    open spec fn view(&self) -> (Seq<char>, Seq<char>, i32) {
        (self.stdout@, self.stderr@, self.code)
    }
}

/// The outside work a command needs before it can be rendered.
#[derive(PartialEq, Eq, Structural, Clone, Copy, Debug)]
pub enum Collaborator {
    Nothing,
    Environment,
    Doctor,
}

/// The result of that outside work.
#[derive(Debug)]
pub enum Answer {
    Nothing,
    Environment(Result<EnvSnapshot, EnvError>),
    Doctor(Vec<Check>),
}

pub open spec fn line(s: Seq<char>) -> Seq<char> {
    s + seq!['\n']
}

pub open spec fn collaborator_spec(cmd: CommandView) -> Collaborator {
    match cmd {
        CommandView::Env => Collaborator::Environment,
        CommandView::Run { .. } => Collaborator::Environment,
        CommandView::Doctor => Collaborator::Doctor,
        _ => Collaborator::Nothing,
    }
}

/// Whether `answer` is the result of the work that `cmd` needs.
pub open spec fn answer_fits(cmd: CommandView, answer: Answer) -> bool {
    match collaborator_spec(cmd) {
        Collaborator::Nothing => answer is Nothing,
        Collaborator::Environment => answer is Environment,
        Collaborator::Doctor => answer is Doctor,
    }
}

pub open spec fn env_text_fields(e: EnvSnapshot) -> Seq<(Seq<char>, Seq<char>)> {
    seq![
        ("KAM_HOME"@, e.kam_home@),
        ("MODDIR"@, e.moddir@),
        ("KAMFW_MANAGER"@, e.manager@),
        ("KAM_HOME_EQ_MODDIR"@, "1"@),
        ("KAM_LOCAL_BIN"@, e.local_bin@),
        ("KAM_CONFIG_DIR"@, e.config_dir@),
        ("KAM_STATE_DIR"@, e.state_dir@),
        ("KAM_CACHE_DIR"@, e.cache_dir@),
        ("KAM_LOG_DIR"@, e.log_dir@),
        ("KAM_TMP_DIR"@, e.tmp_dir@),
    ]
}

pub open spec fn env_json_fields(e: EnvSnapshot) -> Seq<(Seq<char>, Seq<char>)> {
    seq![
        ("ok"@, bool_text(true)),
        ("kam_home"@, json_quote(e.kam_home@)),
        ("moddir"@, json_quote(e.moddir@)),
        ("manager"@, json_quote(e.manager@)),
        ("kam_home_eq_moddir"@, bool_text(true)),
        ("local_bin"@, json_quote(e.local_bin@)),
        ("config_dir"@, json_quote(e.config_dir@)),
        ("state_dir"@, json_quote(e.state_dir@)),
        ("cache_dir"@, json_quote(e.cache_dir@)),
        ("log_dir"@, json_quote(e.log_dir@)),
        ("tmp_dir"@, json_quote(e.tmp_dir@)),
    ]
}

/// The uniform JSON body of a failed command.
pub open spec fn error_json(message: Seq<char>, code: i32) -> Seq<char> {
    json_object(
        seq![
            ("ok"@, bool_text(false)),
            ("error"@, json_quote(message)),
            ("exit_code"@, int_text(code as int)),
        ],
    )
}

/// What a failed environment resolution writes, in either mode.
pub open spec fn env_error_outcome(mode: OutputMode, err: EnvError) -> (Seq<char>, Seq<char>, i32) {
    match mode {
        OutputMode::Text => (Seq::empty(), line("ERROR: "@ + err.message@), err.code),
        OutputMode::Json => (line(error_json(err.message@, err.code)), Seq::empty(), err.code),
    }
}

pub open spec fn env_outcome(mode: OutputMode, r: Result<EnvSnapshot, EnvError>) -> (
    Seq<char>,
    Seq<char>,
    i32,
) {
    match r {
        Err(err) => env_error_outcome(mode, err),
        Ok(e) => match mode {
            OutputMode::Text => (kv_lines(env_text_fields(e)), Seq::empty(), exit_codes::OK),
            OutputMode::Json => (line(json_object(env_json_fields(e))), Seq::empty(), exit_codes::OK),
        },
    }
}

/// The aggregate exit code of a doctor run: OK exactly when every check passed.
pub open spec fn doctor_code(checks: Seq<Check>) -> i32 {
    if forall|i: int| 0 <= i < checks.len() ==> #[trigger] checks[i].ok {
        exit_codes::OK
    } else {
        exit_codes::FAILURE
    }
}

pub open spec fn check_json(c: Check) -> Seq<char> {
    json_object(
        seq![
            ("name"@, json_quote(c.name@)),
            ("ok"@, bool_text(c.ok)),
            ("detail"@, json_quote(c.detail@)),
        ],
    )
}

pub open spec fn check_text(c: Check) -> Seq<char> {
    line((if c.ok { "OK "@ } else { "FAIL "@ }) + c.name@ + ": "@ + c.detail@)
}

/// The text lines of the checks, in order.
pub open spec fn checks_text(checks: Seq<Check>) -> Seq<char>
    decreases checks.len(),
{
    if checks.len() == 0 {
        Seq::empty()
    } else {
        checks_text(checks.drop_last()) + check_text(checks.last())
    }
}

pub open spec fn doctor_json(checks: Seq<Check>) -> Seq<char> {
    json_object(
        seq![
            ("ok"@, bool_text(doctor_code(checks) == exit_codes::OK)),
            ("exit_code"@, int_text(doctor_code(checks) as int)),
            ("checks"@, json_array(checks.map_values(|c: Check| check_json(c)))),
        ],
    )
}

pub open spec fn doctor_outcome(mode: OutputMode, checks: Seq<Check>) -> (Seq<char>, Seq<char>, i32) {
    match mode {
        OutputMode::Text => (Seq::empty(), checks_text(checks), doctor_code(checks)),
        OutputMode::Json => (line(doctor_json(checks)), Seq::empty(), doctor_code(checks)),
    }
}

pub open spec fn run_json(phase: Seq<char>, args: Seq<Seq<char>>, e: EnvSnapshot) -> Seq<char> {
    json_object(
        seq![
            ("ok"@, bool_text(true)),
            ("phase"@, json_quote(phase)),
            ("args"@, json_array(args.map_values(|a: Seq<char>| json_quote(a)))),
            ("status"@, json_quote("planned"@)),
            ("kam_home"@, json_quote(e.kam_home@)),
            ("moddir"@, json_quote(e.moddir@)),
        ],
    )
}

pub open spec fn run_outcome(
    mode: OutputMode,
    phase: Seq<char>,
    args: Seq<Seq<char>>,
    r: Result<EnvSnapshot, EnvError>,
) -> (Seq<char>, Seq<char>, i32) {
    match r {
        Err(err) => env_error_outcome(mode, err),
        Ok(e) => match mode {
            OutputMode::Text => (
                kv_lines(seq![("KAMFW_PHASE"@, phase), ("KAMFW_ARGS"@, join_with(args, ' '))]),
                line("planned phase="@ + phase),
                exit_codes::OK,
            ),
            OutputMode::Json => (line(run_json(phase, args, e)), Seq::empty(), exit_codes::OK),
        },
    }
}

pub open spec fn version_outcome(mode: OutputMode, version: Seq<char>) -> (Seq<char>, Seq<char>, i32) {
    match mode {
        OutputMode::Text => (Seq::empty(), line("kamfw "@ + version), exit_codes::OK),
        OutputMode::Json => (
            line(json_object(seq![("ok"@, bool_text(true)), ("version"@, json_quote(version))])),
            Seq::empty(),
            exit_codes::OK,
        ),
    }
}

pub open spec fn help_outcome() -> (Seq<char>, Seq<char>, i32) {
    (Seq::empty(), line(usage_spec()), exit_codes::OK)
}

/// A key of the text protocol: upper-case letters and underscores.
pub open spec fn is_key(k: Seq<char>) -> bool {
    &&& k.len() > 0
    &&& forall|i: int| 0 <= i < k.len() ==> ('A' <= #[trigger] k[i] <= 'Z' || k[i] == '_')
}

/// What the machine-parseable stream may carry: in text mode only `KEY=VALUE`
/// lines; in JSON mode nothing, or a single line holding one JSON object.
pub open spec fn stdout_discipline(mode: OutputMode, out: Seq<char>) -> bool {
    match mode {
        OutputMode::Text => exists|fields: Seq<(Seq<char>, Seq<char>)>|
            out == kv_lines(fields) && forall|i: int|
                0 <= i < fields.len() ==> is_key(#[trigger] fields[i].0),
        OutputMode::Json => out.len() == 0 || exists|j: Seq<char>|
            out == line(j) && single_line(j) && j[0] == '{',
    }
}

proof fn lemma_json_line(mode: OutputMode, j: Seq<char>)
    requires
        mode == OutputMode::Json,
        single_line(j),
        j[0] == '{',
    ensures
        stdout_discipline(mode, line(j)),
{
}

proof fn lemma_empty_stdout(mode: OutputMode)
    ensures
        stdout_discipline(mode, Seq::empty()),
{
    let none: Seq<(Seq<char>, Seq<char>)> = Seq::empty();
    assert(kv_lines(none) == Seq::<char>::empty());
}

proof fn lemma_error_json_line(message: Seq<char>, code: i32)
    ensures
        single_line(error_json(message, code)),
        error_json(message, code)[0] == '{',
{
    lemma_quote_single_line(message);
    lemma_int_single_line(code as int);
    lemma_object_single_line(
        seq![
            ("ok"@, bool_text(false)),
            ("error"@, json_quote(message)),
            ("exit_code"@, int_text(code as int)),
        ],
    );
}

proof fn lemma_env_error_discipline(mode: OutputMode, err: EnvError)
    ensures
        stdout_discipline(mode, env_error_outcome(mode, err).0),
{
    match mode {
        OutputMode::Text => lemma_empty_stdout(mode),
        OutputMode::Json => {
            lemma_error_json_line(err.message@, err.code);
            lemma_json_line(mode, error_json(err.message@, err.code));
        },
    }
}

proof fn lemma_env_discipline(mode: OutputMode, r: Result<EnvSnapshot, EnvError>)
    ensures
        stdout_discipline(mode, env_outcome(mode, r).0),
{
    match r {
        Err(err) => lemma_env_error_discipline(mode, err),
        Ok(e) => match mode {
            OutputMode::Text => {
                reveal_strlit("KAM_HOME");
                reveal_strlit("MODDIR");
                reveal_strlit("KAMFW_MANAGER");
                reveal_strlit("KAM_HOME_EQ_MODDIR");
                reveal_strlit("KAM_LOCAL_BIN");
                reveal_strlit("KAM_CONFIG_DIR");
                reveal_strlit("KAM_STATE_DIR");
                reveal_strlit("KAM_CACHE_DIR");
                reveal_strlit("KAM_LOG_DIR");
                reveal_strlit("KAM_TMP_DIR");
                let fields = env_text_fields(e);
                assert forall|i: int| 0 <= i < fields.len() implies is_key(#[trigger] fields[i].0) by {
                }
            },
            OutputMode::Json => {
                lemma_quote_single_line(e.kam_home@);
                lemma_quote_single_line(e.moddir@);
                lemma_quote_single_line(e.manager@);
                lemma_quote_single_line(e.local_bin@);
                lemma_quote_single_line(e.config_dir@);
                lemma_quote_single_line(e.state_dir@);
                lemma_quote_single_line(e.cache_dir@);
                lemma_quote_single_line(e.log_dir@);
                lemma_quote_single_line(e.tmp_dir@);
                lemma_object_single_line(env_json_fields(e));
                lemma_json_line(mode, json_object(env_json_fields(e)));
            },
        },
    }
}

proof fn lemma_doctor_discipline(mode: OutputMode, checks: Seq<Check>)
    ensures
        stdout_discipline(mode, doctor_outcome(mode, checks).0),
{
    match mode {
        OutputMode::Text => lemma_empty_stdout(mode),
        OutputMode::Json => {
            let items = checks.map_values(|c: Check| check_json(c));
            assert forall|i: int| 0 <= i < items.len() implies single_line(#[trigger] items[i]) by {
                let c = checks[i];
                lemma_quote_single_line(c.name@);
                lemma_quote_single_line(c.detail@);
                lemma_object_single_line(
                    seq![
                        ("name"@, json_quote(c.name@)),
                        ("ok"@, bool_text(c.ok)),
                        ("detail"@, json_quote(c.detail@)),
                    ],
                );
            }
            lemma_array_single_line(items);
            lemma_int_single_line(doctor_code(checks) as int);
            lemma_object_single_line(
                seq![
                    ("ok"@, bool_text(doctor_code(checks) == exit_codes::OK)),
                    ("exit_code"@, int_text(doctor_code(checks) as int)),
                    ("checks"@, json_array(items)),
                ],
            );
            lemma_json_line(mode, doctor_json(checks));
        },
    }
}

proof fn lemma_run_discipline(
    mode: OutputMode,
    phase: Seq<char>,
    args: Seq<Seq<char>>,
    r: Result<EnvSnapshot, EnvError>,
)
    ensures
        stdout_discipline(mode, run_outcome(mode, phase, args, r).0),
{
    match r {
        Err(err) => lemma_env_error_discipline(mode, err),
        Ok(e) => match mode {
            OutputMode::Text => {
                reveal_strlit("KAMFW_PHASE");
                reveal_strlit("KAMFW_ARGS");
                let fields = seq![("KAMFW_PHASE"@, phase), ("KAMFW_ARGS"@, join_with(args, ' '))];
                assert forall|i: int| 0 <= i < fields.len() implies is_key(#[trigger] fields[i].0) by {
                }
            },
            OutputMode::Json => {
                let items = args.map_values(|a: Seq<char>| json_quote(a));
                assert forall|i: int| 0 <= i < items.len() implies single_line(#[trigger] items[i]) by {
                    lemma_quote_single_line(args[i]);
                }
                lemma_array_single_line(items);
                lemma_quote_single_line(phase);
                lemma_quote_single_line("planned"@);
                lemma_quote_single_line(e.kam_home@);
                lemma_quote_single_line(e.moddir@);
                lemma_object_single_line(
                    seq![
                        ("ok"@, bool_text(true)),
                        ("phase"@, json_quote(phase)),
                        ("args"@, json_array(items)),
                        ("status"@, json_quote("planned"@)),
                        ("kam_home"@, json_quote(e.kam_home@)),
                        ("moddir"@, json_quote(e.moddir@)),
                    ],
                );
                lemma_json_line(mode, run_json(phase, args, e));
            },
        },
    }
}

/// Stream discipline: whatever the command, the mode and the outside results,
/// the machine-parseable stream carries only `KEY=VALUE` lines in text mode,
/// and at most one single-line JSON object in JSON mode.
pub proof fn lemma_stream_discipline(mode: OutputMode, cmd: CommandView, version: Seq<char>, answer: Answer)
    requires
        answer_fits(cmd, answer),
    ensures
        stdout_discipline(mode, dispatch_outcome(mode, cmd, version, answer).0),
{
    match cmd {
        CommandView::Help => lemma_empty_stdout(mode),
        CommandView::Version => match mode {
            OutputMode::Text => lemma_empty_stdout(mode),
            OutputMode::Json => {
                lemma_quote_single_line(version);
                let fields = seq![("ok"@, bool_text(true)), ("version"@, json_quote(version))];
                lemma_object_single_line(fields);
                lemma_json_line(mode, json_object(fields));
            },
        },
        CommandView::Env => match answer {
            Answer::Environment(r) => lemma_env_discipline(mode, r),
            _ => {},
        },
        CommandView::Doctor => match answer {
            Answer::Doctor(checks) => lemma_doctor_discipline(mode, checks@),
            _ => {},
        },
        CommandView::Run { phase, args } => match answer {
            Answer::Environment(r) => lemma_run_discipline(mode, phase, args, r),
            _ => {},
        },
    }
}

/// What an invocation writes and returns, given the answer to the work it needs.
pub open spec fn dispatch_outcome(
    mode: OutputMode,
    cmd: CommandView,
    version: Seq<char>,
    answer: Answer,
) -> (Seq<char>, Seq<char>, i32) {
    match cmd {
        CommandView::Help => help_outcome(),
        CommandView::Version => version_outcome(mode, version),
        CommandView::Env => match answer {
            Answer::Environment(r) => env_outcome(mode, r),
            _ => help_outcome(),
        },
        CommandView::Doctor => match answer {
            Answer::Doctor(checks) => doctor_outcome(mode, checks@),
            _ => help_outcome(),
        },
        CommandView::Run { phase, args } => match answer {
            Answer::Environment(r) => run_outcome(mode, phase, args, r),
            _ => help_outcome(),
        },
    }
}

fn text_line(s: &str) -> (r: String)
    ensures
        r@ == line(s@),
{
    let mut out = String::from_str(s);
    out.push('\n');
    out
}

fn env_error(mode: OutputMode, err: &EnvError) -> (r: Outcome)
    ensures
        r@ == env_error_outcome(mode, *err),
{
    match mode {
        OutputMode::Text => {
            let mut msg = String::from_str("ERROR: ");
            msg.append(err.message.as_str());
            msg.push('\n');
            Outcome { stdout: String::new(), stderr: msg, code: err.code }
        },
        OutputMode::Json => {
            let mut fields: Vec<(&str, String)> = Vec::new();
            fields.push(("ok", String::from_str(json_bool(false))));
            fields.push(("error", json_str(err.message.as_str())));
            fields.push(("exit_code", json_num_i32(err.code)));
            assert(field_texts(fields@) =~= seq![
                ("ok"@, bool_text(false)),
                ("error"@, json_quote(err.message@)),
                ("exit_code"@, int_text(err.code as int)),
            ]);
            let body = json_obj(fields.as_slice());
            Outcome { stdout: text_line(body.as_str()), stderr: String::new(), code: err.code }
        },
    }
}

/// The `env` command: the resolved fields, or the resolver's failure.
pub fn cmd_env(mode: OutputMode, env: &Result<EnvSnapshot, EnvError>) -> (r: Outcome)
    ensures
        r@ == env_outcome(mode, *env),
{
    let e = match env {
        Ok(v) => v,
        Err(err) => {
            return env_error(mode, err);
        },
    };
    match mode {
        OutputMode::Text => {
            let mut fields: Vec<(&str, String)> = Vec::new();
            fields.push(("KAM_HOME", e.kam_home.clone()));
            fields.push(("MODDIR", e.moddir.clone()));
            fields.push(("KAMFW_MANAGER", e.manager.clone()));
            fields.push(("KAM_HOME_EQ_MODDIR", String::from_str("1")));
            fields.push(("KAM_LOCAL_BIN", e.local_bin.clone()));
            fields.push(("KAM_CONFIG_DIR", e.config_dir.clone()));
            fields.push(("KAM_STATE_DIR", e.state_dir.clone()));
            fields.push(("KAM_CACHE_DIR", e.cache_dir.clone()));
            fields.push(("KAM_LOG_DIR", e.log_dir.clone()));
            fields.push(("KAM_TMP_DIR", e.tmp_dir.clone()));
            assert(field_texts(fields@) =~= env_text_fields(*e));
            Outcome { stdout: kv_text(fields.as_slice()), stderr: String::new(), code: exit_codes::OK }
        },
        OutputMode::Json => {
            let mut fields: Vec<(&str, String)> = Vec::new();
            fields.push(("ok", String::from_str(json_bool(true))));
            fields.push(("kam_home", json_str(e.kam_home.as_str())));
            fields.push(("moddir", json_str(e.moddir.as_str())));
            fields.push(("manager", json_str(e.manager.as_str())));
            fields.push(("kam_home_eq_moddir", String::from_str(json_bool(true))));
            fields.push(("local_bin", json_str(e.local_bin.as_str())));
            fields.push(("config_dir", json_str(e.config_dir.as_str())));
            fields.push(("state_dir", json_str(e.state_dir.as_str())));
            fields.push(("cache_dir", json_str(e.cache_dir.as_str())));
            fields.push(("log_dir", json_str(e.log_dir.as_str())));
            fields.push(("tmp_dir", json_str(e.tmp_dir.as_str())));
            assert(field_texts(fields@) =~= env_json_fields(*e));
            let body = json_obj(fields.as_slice());
            Outcome { stdout: text_line(body.as_str()), stderr: String::new(), code: exit_codes::OK }
        },
    }
}

/// The aggregate exit code of a doctor run: OK exactly when every check passed.
pub fn doctor_exit_code(checks: &Vec<Check>) -> (r: i32)
    ensures
        r == doctor_code(checks@),
{
    let mut i: usize = 0;
    while i < checks.len()
        invariant
            i <= checks@.len(),
            forall|k: int| 0 <= k < i ==> #[trigger] checks@[k].ok,
        decreases checks@.len() - i,
    {
        if !checks[i].ok {
            return exit_codes::FAILURE;
        }
        i = i + 1;
    }
    exit_codes::OK
}

fn check_object(c: &Check) -> (r: String)
    ensures
        r@ == check_json(*c),
{
    let mut fields: Vec<(&str, String)> = Vec::new();
    fields.push(("name", json_str(c.name.as_str())));
    fields.push(("ok", String::from_str(json_bool(c.ok))));
    fields.push(("detail", json_str(c.detail.as_str())));
    assert(field_texts(fields@) =~= seq![
        ("name"@, json_quote(c.name@)),
        ("ok"@, bool_text(c.ok)),
        ("detail"@, json_quote(c.detail@)),
    ]);
    json_obj(fields.as_slice())
}

/// The `doctor` command: every check reported in order, with the aggregate exit code.
pub fn cmd_doctor(mode: OutputMode, checks: &Vec<Check>) -> (r: Outcome)
    ensures
        r@ == doctor_outcome(mode, checks@),
{
    let code = doctor_exit_code(checks);
    match mode {
        OutputMode::Text => {
            let mut err = String::new();
            let mut i: usize = 0;
            while i < checks.len()
                invariant
                    i <= checks@.len(),
                    err@ == checks_text(checks@.take(i as int)),
                decreases checks@.len() - i,
            {
                proof {
                    assert(checks@.take(i + 1).drop_last() == checks@.take(i as int));
                }
                let c = &checks[i];
                if c.ok {
                    err.append("OK ");
                } else {
                    err.append("FAIL ");
                }
                err.append(c.name.as_str());
                err.append(": ");
                err.append(c.detail.as_str());
                err.push('\n');
                i = i + 1;
            }
            assert(checks@.take(checks@.len() as int) == checks@);
            Outcome { stdout: String::new(), stderr: err, code }
        },
        OutputMode::Json => {
            let mut items: Vec<String> = Vec::new();
            let mut i: usize = 0;
            while i < checks.len()
                invariant
                    i <= checks@.len(),
                    texts(items@) == checks@.take(i as int).map_values(|c: Check| check_json(c)),
                decreases checks@.len() - i,
            {
                let ghost before = items@;
                items.push(check_object(&checks[i]));
                proof {
                    assert(texts(items@) =~= texts(before).push(check_json(checks@[i as int])));
                    assert(texts(items@) =~= checks@.take(i + 1).map_values(|c: Check| check_json(c)));
                }
                i = i + 1;
            }
            assert(checks@.take(checks@.len() as int) == checks@);
            let mut fields: Vec<(&str, String)> = Vec::new();
            fields.push(("ok", String::from_str(json_bool(code == exit_codes::OK))));
            fields.push(("exit_code", json_num_i32(code)));
            fields.push(("checks", json_arr(items.as_slice())));
            assert(field_texts(fields@) =~= seq![
                ("ok"@, bool_text(doctor_code(checks@) == exit_codes::OK)),
                ("exit_code"@, int_text(doctor_code(checks@) as int)),
                ("checks"@, json_array(checks@.map_values(|c: Check| check_json(c)))),
            ]);
            let body = json_obj(fields.as_slice());
            Outcome { stdout: text_line(body.as_str()), stderr: String::new(), code }
        },
    }
}

/// The `run` command: plans the phase with its pass-through arguments; runs nothing.
pub fn cmd_run(mode: OutputMode, phase: &str, args: &[String], env: &Result<EnvSnapshot, EnvError>) -> (r: Outcome)
    ensures
        r@ == run_outcome(mode, phase@, texts(args@), *env),
{
    let e = match env {
        Ok(v) => v,
        Err(err) => {
            return env_error(mode, err);
        },
    };
    match mode {
        OutputMode::Text => {
            let mut fields: Vec<(&str, String)> = Vec::new();
            fields.push(("KAMFW_PHASE", String::from_str(phase)));
            fields.push(("KAMFW_ARGS", join_words(args)));
            assert(field_texts(fields@) =~= seq![
                ("KAMFW_PHASE"@, phase@),
                ("KAMFW_ARGS"@, join_with(texts(args@), ' ')),
            ]);
            let mut notice = String::from_str("planned phase=");
            notice.append(phase);
            notice.push('\n');
            Outcome { stdout: kv_text(fields.as_slice()), stderr: notice, code: exit_codes::OK }
        },
        OutputMode::Json => {
            let mut items: Vec<String> = Vec::new();
            let mut i: usize = 0;
            while i < args.len()
                invariant
                    i <= args@.len(),
                    texts(items@) == texts(args@).take(i as int).map_values(
                        |a: Seq<char>| json_quote(a),
                    ),
                decreases args@.len() - i,
            {
                let ghost before = items@;
                items.push(json_str(args[i].as_str()));
                proof {
                    assert(texts(items@) =~= texts(before).push(json_quote(args@[i as int]@)));
                    assert(texts(items@) =~= texts(args@).take(i + 1).map_values(
                        |a: Seq<char>| json_quote(a),
                    ));
                }
                i = i + 1;
            }
            assert(texts(args@).take(args@.len() as int) == texts(args@));
            let mut fields: Vec<(&str, String)> = Vec::new();
            fields.push(("ok", String::from_str(json_bool(true))));
            fields.push(("phase", json_str(phase)));
            fields.push(("args", json_arr(items.as_slice())));
            fields.push(("status", json_str("planned")));
            fields.push(("kam_home", json_str(e.kam_home.as_str())));
            fields.push(("moddir", json_str(e.moddir.as_str())));
            assert(field_texts(fields@) =~= seq![
                ("ok"@, bool_text(true)),
                ("phase"@, json_quote(phase@)),
                ("args"@, json_array(texts(args@).map_values(|a: Seq<char>| json_quote(a)))),
                ("status"@, json_quote("planned"@)),
                ("kam_home"@, json_quote(e.kam_home@)),
                ("moddir"@, json_quote(e.moddir@)),
            ]);
            let body = json_obj(fields.as_slice());
            Outcome { stdout: text_line(body.as_str()), stderr: String::new(), code: exit_codes::OK }
        },
    }
}

/// The `version` command.
pub fn cmd_version(mode: OutputMode, version: &str) -> (r: Outcome)
    ensures
        r@ == version_outcome(mode, version@),
{
    match mode {
        OutputMode::Text => {
            let mut notice = String::from_str("kamfw ");
            notice.append(version);
            notice.push('\n');
            Outcome { stdout: String::new(), stderr: notice, code: exit_codes::OK }
        },
        OutputMode::Json => {
            let mut fields: Vec<(&str, String)> = Vec::new();
            fields.push(("ok", String::from_str(json_bool(true))));
            fields.push(("version", json_str(version)));
            assert(field_texts(fields@) =~= seq![
                ("ok"@, bool_text(true)),
                ("version"@, json_quote(version@)),
            ]);
            let body = json_obj(fields.as_slice());
            Outcome { stdout: text_line(body.as_str()), stderr: String::new(), code: exit_codes::OK }
        },
    }
}

/// The `help` command: usage on the diagnostic stream.
pub fn cmd_help() -> (r: Outcome)
    ensures
        r@ == help_outcome(),
{
    Outcome { stdout: String::new(), stderr: text_line(usage_text()), code: exit_codes::OK }
}

/// What a malformed command line writes: the message and the usage, on the
/// diagnostic stream only, whatever the mode.
pub fn usage_error(code: i32, message: &str) -> (r: Outcome)
    ensures
        r@ == (Seq::<char>::empty(), line(message@) + line(usage_spec()), code),
        stdout_discipline(OutputMode::Text, r.stdout@),
        stdout_discipline(OutputMode::Json, r.stdout@),
{
    proof {
        lemma_empty_stdout(OutputMode::Text);
        lemma_empty_stdout(OutputMode::Json);
    }
    let mut err = text_line(message);
    let usage = text_line(usage_text());
    err.append(usage.as_str());
    Outcome { stdout: String::new(), stderr: err, code }
}

/// The outside work that `cmd` needs before it can be rendered.
pub fn collaborator_for(cmd: &Command) -> (r: Collaborator)
    ensures
        r == collaborator_spec(cmd@),
{
    match cmd {
        Command::Env => Collaborator::Environment,
        Command::Run { .. } => Collaborator::Environment,
        Command::Doctor => Collaborator::Doctor,
        _ => Collaborator::Nothing,
    }
}

/// Carries out a parsed invocation, given the answer to the work that
/// `collaborator_for` asked for.
pub fn dispatch(cli: &Cli, version: &str, answer: &Answer) -> (r: Outcome)
    requires
        answer_fits(cli.cmd@, *answer),
    ensures
        r@ == dispatch_outcome(cli.mode, cli.cmd@, version@, *answer),
        stdout_discipline(cli.mode, r.stdout@),
{
    proof {
        lemma_stream_discipline(cli.mode, cli.cmd@, version@, *answer);
    }
    match &cli.cmd {
        Command::Help => cmd_help(),
        Command::Version => cmd_version(cli.mode, version),
        Command::Env => match answer {
            Answer::Environment(r) => cmd_env(cli.mode, r),
            _ => cmd_help(),
        },
        Command::Doctor => match answer {
            Answer::Doctor(checks) => cmd_doctor(cli.mode, checks),
            _ => cmd_help(),
        },
        Command::Run { phase, args } => match answer {
            Answer::Environment(r) => cmd_run(cli.mode, phase.as_str(), args.as_slice(), r),
            _ => cmd_help(),
        },
    }
}

} // verus!
