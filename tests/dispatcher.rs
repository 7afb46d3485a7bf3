use kamfw::cli::{parse_args, usage_text};
use kamfw::dispatch::{
    cmd_doctor, cmd_env, cmd_run, cmd_version, collaborator_for, dispatch, doctor_exit_code,
    usage_error, Answer, Check, Collaborator, EnvError, EnvSnapshot,
};
use kamfw::exit_codes;
use kamfw::output::OutputMode;

fn snapshot() -> EnvSnapshot {
    EnvSnapshot {
        kam_home: "/data/kam".to_string(),
        moddir: "/data/kam".to_string(),
        manager: "magisk".to_string(),
        local_bin: "/data/kam/bin".to_string(),
        config_dir: "/data/kam/config".to_string(),
        state_dir: "/data/kam/state".to_string(),
        cache_dir: "/data/kam/cache".to_string(),
        log_dir: "/data/kam/log".to_string(),
        tmp_dir: "/data/kam/tmp".to_string(),
    }
}

fn check(name: &str, ok: bool, detail: &str) -> Check {
    Check { name: name.to_string(), ok, detail: detail.to_string() }
}

fn failure() -> EnvError {
    EnvError { message: "no \"home\"".to_string(), code: 3 }
}

#[test]
fn doctor_aggregates_failures_in_order() {
    let checks = vec![check("a", true, "fine"), check("b", false, "broken"), check("c", true, "fine")];
    assert_eq!(doctor_exit_code(&checks), exit_codes::FAILURE);
    let out = cmd_doctor(OutputMode::Json, &checks);
    assert_eq!(out.code, exit_codes::FAILURE);
    assert_eq!(
        out.stdout,
        "{\"ok\":false,\"exit_code\":1,\"checks\":[\
{\"name\":\"a\",\"ok\":true,\"detail\":\"fine\"},\
{\"name\":\"b\",\"ok\":false,\"detail\":\"broken\"},\
{\"name\":\"c\",\"ok\":true,\"detail\":\"fine\"}]}\n"
    );
    assert_eq!(out.stderr, "");
}

#[test]
fn doctor_text_goes_to_diagnostics() {
    let checks = vec![check("a", true, "fine"), check("b", false, "broken")];
    let out = cmd_doctor(OutputMode::Text, &checks);
    assert_eq!(out.stdout, "");
    assert_eq!(out.stderr, "OK a: fine\nFAIL b: broken\n");
    assert_eq!(out.code, exit_codes::FAILURE);
}

#[test]
fn doctor_all_ok_and_empty() {
    let checks = vec![check("a", true, "fine")];
    assert_eq!(doctor_exit_code(&checks), exit_codes::OK);
    let out = cmd_doctor(OutputMode::Json, &Vec::new());
    assert_eq!(out.stdout, "{\"ok\":true,\"exit_code\":0,\"checks\":[]}\n");
    assert_eq!(out.code, exit_codes::OK);
}

#[test]
fn env_text_is_key_value_lines() {
    let out = cmd_env(OutputMode::Text, &Ok(snapshot()));
    assert_eq!(
        out.stdout,
        "KAM_HOME=/data/kam\nMODDIR=/data/kam\nKAMFW_MANAGER=magisk\nKAM_HOME_EQ_MODDIR=1\n\
KAM_LOCAL_BIN=/data/kam/bin\nKAM_CONFIG_DIR=/data/kam/config\nKAM_STATE_DIR=/data/kam/state\n\
KAM_CACHE_DIR=/data/kam/cache\nKAM_LOG_DIR=/data/kam/log\nKAM_TMP_DIR=/data/kam/tmp\n"
    );
    assert_eq!(out.stderr, "");
    assert_eq!(out.code, exit_codes::OK);
}

#[test]
fn env_json_is_one_object() {
    let out = cmd_env(OutputMode::Json, &Ok(snapshot()));
    assert_eq!(
        out.stdout,
        "{\"ok\":true,\"kam_home\":\"/data/kam\",\"moddir\":\"/data/kam\",\"manager\":\"magisk\",\
\"kam_home_eq_moddir\":true,\"local_bin\":\"/data/kam/bin\",\"config_dir\":\"/data/kam/config\",\
\"state_dir\":\"/data/kam/state\",\"cache_dir\":\"/data/kam/cache\",\"log_dir\":\"/data/kam/log\",\
\"tmp_dir\":\"/data/kam/tmp\"}\n"
    );
}

#[test]
fn env_failure_in_both_modes() {
    let out = cmd_env(OutputMode::Json, &Err(failure()));
    assert_eq!(out.stdout, "{\"ok\":false,\"error\":\"no \\\"home\\\"\",\"exit_code\":3}\n");
    assert_eq!(out.code, 3);
    let out = cmd_env(OutputMode::Text, &Err(failure()));
    assert_eq!(out.stdout, "");
    assert_eq!(out.stderr, "ERROR: no \"home\"\n");
    assert_eq!(out.code, 3);
}

#[test]
fn run_plans_phase_in_text() {
    let args = vec!["--flag".to_string(), "x".to_string()];
    let out = cmd_run(OutputMode::Text, "boot", &args, &Ok(snapshot()));
    assert_eq!(out.stdout, "KAMFW_PHASE=boot\nKAMFW_ARGS=--flag x\n");
    assert_eq!(out.stderr, "planned phase=boot\n");
    assert_eq!(out.code, exit_codes::OK);
}

#[test]
fn run_plans_phase_in_json() {
    let args = vec!["--flag".to_string(), "a b".to_string()];
    let out = cmd_run(OutputMode::Json, "boot", &args, &Ok(snapshot()));
    assert_eq!(
        out.stdout,
        "{\"ok\":true,\"phase\":\"boot\",\"args\":[\"--flag\",\"a b\"],\"status\":\"planned\",\
\"kam_home\":\"/data/kam\",\"moddir\":\"/data/kam\"}\n"
    );
    assert_eq!(out.stderr, "");
    let out = cmd_run(OutputMode::Json, "boot", &[], &Err(failure()));
    assert_eq!(out.code, 3);
    assert!(out.stdout.starts_with("{\"ok\":false,"));
}

#[test]
fn version_in_both_modes() {
    let out = cmd_version(OutputMode::Json, "1.2.3");
    assert_eq!(out.stdout, "{\"ok\":true,\"version\":\"1.2.3\"}\n");
    let out = cmd_version(OutputMode::Text, "1.2.3");
    assert_eq!(out.stdout, "");
    assert_eq!(out.stderr, "kamfw 1.2.3\n");
}

#[test]
fn help_and_usage_error_use_diagnostics_only() {
    let cli = parse_args(vec!["prog".to_string(), "--json".to_string()]).unwrap();
    assert_eq!(collaborator_for(&cli.cmd), Collaborator::Nothing);
    let out = dispatch(&cli, "1.0.0", &Answer::Nothing);
    assert_eq!(out.stdout, "");
    assert_eq!(out.stderr, format!("{}\n", usage_text()));
    assert_eq!(out.code, exit_codes::OK);
    let out = usage_error(exit_codes::USAGE, "unknown command: frobnicate");
    assert_eq!(out.stdout, "");
    assert!(out.stderr.starts_with("unknown command: frobnicate\nkamfw device runtime\n"));
    assert_eq!(out.code, exit_codes::USAGE);
}

#[test]
fn dispatch_routes_commands() {
    let cli = parse_args(vec!["p".to_string(), "--json".to_string(), "doctor".to_string()]).unwrap();
    assert_eq!(collaborator_for(&cli.cmd), Collaborator::Doctor);
    let out = dispatch(&cli, "1.0.0", &Answer::Doctor(vec![check("x", false, "no")]));
    assert_eq!(out.code, exit_codes::FAILURE);
    let argv: Vec<String> = ["p", "run", "boot"].iter().map(|s| s.to_string()).collect();
    let cli = parse_args(argv).unwrap();
    assert_eq!(collaborator_for(&cli.cmd), Collaborator::Environment);
    let out = dispatch(&cli, "1.0.0", &Answer::Environment(Ok(snapshot())));
    assert_eq!(out.stdout, "KAMFW_PHASE=boot\nKAMFW_ARGS=\n");
    let cli = parse_args(vec!["p".to_string(), "env".to_string()]).unwrap();
    let out = dispatch(&cli, "1.0.0", &Answer::Environment(Err(failure())));
    assert_eq!(out.code, 3);
}
