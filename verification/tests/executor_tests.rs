use sconny::api::service_dispatch_error;
use sconny::api::ScyApiError;
use sconny::executor::classify_exit;
use sconny::executor::format_plan;
use sconny::executor::CommandPlan;
use sconny::executor::CommandResult;
use sconny::executor::ConfirmStrength;
use sconny::executor::ExecAction;
use sconny::executor::PlanExecutor;
use sconny::executor::PlanOutcome;
use sconny::executor::RunStatus;
use sconny::plan::decode_plan;
use sconny::setting::ExecPolicy;
use sconny::setting::LlmService;

fn plan_of(cmds: &[&str]) -> CommandPlan {
    CommandPlan {
        cmd: cmds.iter().map(|c| c.to_string()).collect(),
        explain: None,
        needs_confirmation: None,
        risk: None,
        assumptions: None,
        notes: None,
    }
}

fn policy(dry_run: bool, require_confirmation: bool) -> ExecPolicy {
    ExecPolicy { dry_run, require_confirmation, timeout_sec: 15 }
}

fn ok_result(stdout: &str) -> CommandResult {
    CommandResult {
        status: RunStatus::Exited(0),
        stdout: stdout.to_string(),
        stderr: String::new(),
    }
}

#[test]
fn empty_plan_is_content_error() {
    let (exec, action) = PlanExecutor::start(&policy(false, false), plan_of(&[]));
    assert_eq!(action, ExecAction::RejectEmptyPlan);
    assert_eq!(exec.outcome, Some(PlanOutcome::EmptyPlan));
    assert!(exec.results.is_empty());
}

#[test]
fn empty_plan_decodes_but_never_executes() {
    let plan = decode_plan(r#"{"cmd":[]}"#).expect("empty cmd should still decode");
    assert!(plan.cmd.is_empty());
    let (exec, action) = PlanExecutor::start(&policy(false, false), plan);
    assert_eq!(action, ExecAction::RejectEmptyPlan);
    assert!(exec.results.is_empty());
}

#[test]
fn dry_run_never_runs_anything() {
    for needs_confirmation in [None, Some(false), Some(true)] {
        for risk in [None, Some("low"), Some("high")] {
            let mut plan = plan_of(&["rm -rf /tmp/x"]);
            plan.needs_confirmation = needs_confirmation;
            plan.risk = risk.map(|r| r.to_string());
            let (exec, action) = PlanExecutor::start(&policy(true, true), plan);
            assert_eq!(action, ExecAction::ShowDryRun);
            assert_eq!(exec.outcome, Some(PlanOutcome::DryRun));
            assert!(exec.results.is_empty());
        }
    }
}

#[test]
fn high_risk_demands_exact_strong_token() {
    for reply in [Some("yes"), Some("y"), Some("YES "), None, Some(""), Some("no")] {
        let mut plan = plan_of(&["echo hi"]);
        plan.risk = Some("high".to_string());
        let (mut exec, action) = PlanExecutor::start(&policy(false, true), plan);
        assert_eq!(action, ExecAction::AskConfirmation(ConfirmStrength::Strong));
        let next = exec.on_confirmation(reply);
        if reply == Some("YES ") {
            // trimmed exact token: accepted
            assert_eq!(next, ExecAction::RunCommand(0));
        } else {
            assert_eq!(next, ExecAction::ReportCancelled);
            assert_eq!(exec.outcome, Some(PlanOutcome::Cancelled));
            assert!(exec.results.is_empty());
        }
    }
}

#[test]
fn high_risk_is_case_insensitive() {
    let mut plan = plan_of(&["echo hi"]);
    plan.risk = Some("  HIGH ".to_string());
    let (_, action) = PlanExecutor::start(&policy(false, true), plan);
    assert_eq!(action, ExecAction::AskConfirmation(ConfirmStrength::Strong));
}

#[test]
fn loose_confirmation_accepts_y_and_yes() {
    for (reply, accepted) in [
        (Some("y"), true),
        (Some("Yes"), true),
        (Some(" YES "), true),
        (Some("n"), false),
        (Some(""), false),
        (None, false),
    ] {
        let plan = plan_of(&["echo hi"]);
        let (mut exec, action) = PlanExecutor::start(&policy(false, true), plan);
        assert_eq!(action, ExecAction::AskConfirmation(ConfirmStrength::Loose));
        let next = exec.on_confirmation(reply);
        if accepted {
            assert_eq!(next, ExecAction::RunCommand(0));
        } else {
            assert_eq!(next, ExecAction::ReportCancelled);
        }
    }
}

#[test]
fn plan_flag_alone_forces_confirmation() {
    let mut plan = plan_of(&["echo hi"]);
    plan.needs_confirmation = Some(true);
    let (_, action) = PlanExecutor::start(&policy(false, false), plan);
    assert_eq!(action, ExecAction::AskConfirmation(ConfirmStrength::Loose));
}

#[test]
fn second_of_three_failing_stops_the_sequence() {
    let plan = plan_of(&["step one", "step two", "step three"]);
    let (mut exec, action) = PlanExecutor::start(&policy(false, false), plan);
    assert_eq!(action, ExecAction::RunCommand(0));
    let action = exec.on_command_finished(ok_result("one done\n"));
    assert_eq!(action, ExecAction::RunCommand(1));
    let action = exec.on_command_finished(CommandResult {
        status: RunStatus::Exited(2),
        stdout: String::new(),
        stderr: "step two exploded\n".to_string(),
    });
    assert_eq!(action, ExecAction::ReportFailure(1));
    assert_eq!(exec.outcome, Some(PlanOutcome::Failed(1)));
    // exactly commands 1 and 2 ran; command 3 was never issued
    assert_eq!(exec.results.len(), 2);
    assert_eq!(exec.results[1].stderr, "step two exploded\n");
    assert_eq!(exec.results[1].status, RunStatus::Exited(2));
}

#[test]
fn timeout_is_a_failure_distinct_from_exit_codes() {
    let plan = plan_of(&["sleep 100", "echo never"]);
    let (mut exec, action) = PlanExecutor::start(&policy(false, false), plan);
    assert_eq!(action, ExecAction::RunCommand(0));
    let action = exec.on_command_finished(CommandResult {
        status: RunStatus::TimedOut,
        stdout: String::new(),
        stderr: String::new(),
    });
    assert_eq!(action, ExecAction::ReportFailure(0));
    assert_eq!(exec.outcome, Some(PlanOutcome::Failed(0)));
    assert_ne!(exec.results[0].status, RunStatus::Exited(0));
    assert_ne!(exec.results[0].status, RunStatus::Exited(1));
}

#[test]
fn end_to_end_low_risk_plan_succeeds() {
    let answer = r#"{"cmd":["echo hi"],"risk":"low","needs_confirmation":false}"#;
    let plan = decode_plan(answer).expect("plan should decode");
    assert_eq!(plan.cmd, vec!["echo hi".to_string()]);
    assert_eq!(plan.risk.as_deref(), Some("low"));
    assert_eq!(plan.needs_confirmation, Some(false));
    let (mut exec, action) =
        PlanExecutor::start(&policy(false, false), plan);
    assert_eq!(action, ExecAction::RunCommand(0));
    // the shell runner reports what `echo hi` produced
    let action = exec.on_command_finished(ok_result("hi\n"));
    assert_eq!(action, ExecAction::ReportSuccess);
    assert_eq!(exec.outcome, Some(PlanOutcome::Succeeded));
    assert_eq!(exec.results.len(), 1);
    assert_eq!(exec.results[0].stdout, "hi\n");
}

#[test]
fn decode_accepts_full_plan() {
    let answer = r#"{"cmd":["a","b"],"explain":"two steps","needs_confirmation":true,
        "risk":"medium","assumptions":["x"],"notes":["y","z"],"extra_key":123}"#;
    let plan = decode_plan(answer).expect("plan should decode");
    assert_eq!(plan.cmd, vec!["a".to_string(), "b".to_string()]);
    assert_eq!(plan.explain.as_deref(), Some("two steps"));
    assert_eq!(plan.needs_confirmation, Some(true));
    assert_eq!(plan.risk.as_deref(), Some("medium"));
    assert_eq!(plan.assumptions, Some(vec!["x".to_string()]));
    assert_eq!(plan.notes, Some(vec!["y".to_string(), "z".to_string()]));
}

#[test]
fn decode_treats_null_optionals_as_absent() {
    let answer = r#"{"cmd":["a"],"explain":null,"needs_confirmation":null,"risk":null}"#;
    let plan = decode_plan(answer).expect("plan should decode");
    assert_eq!(plan.explain, None);
    assert_eq!(plan.needs_confirmation, None);
    assert_eq!(plan.risk, None);
}

#[test]
fn decode_keeps_the_last_duplicate_key() {
    let plan = decode_plan(r#"{"cmd":["a"],"cmd":["b"]}"#).expect("plan should decode");
    assert_eq!(plan.cmd, vec!["b".to_string()]);
}

#[test]
fn decode_rejects_bad_shapes() {
    assert!(decode_plan("not json at all").is_err());
    assert_eq!(
        decode_plan("[1,2,3]").unwrap_err(),
        "expected a JSON object"
    );
    assert_eq!(
        decode_plan(r#"{"explain":"no cmd"}"#).unwrap_err(),
        "missing required key: cmd"
    );
    assert_eq!(
        decode_plan(r#"{"cmd":"not an array"}"#).unwrap_err(),
        "cmd: expected an array of strings"
    );
    assert_eq!(
        decode_plan(r#"{"cmd":[1,2]}"#).unwrap_err(),
        "cmd: expected an array of strings"
    );
    assert_eq!(
        decode_plan(r#"{"cmd":["ok"],"explain":7}"#).unwrap_err(),
        "explain: expected a string"
    );
    assert_eq!(
        decode_plan(r#"{"cmd":["ok"],"needs_confirmation":"yes"}"#).unwrap_err(),
        "needs_confirmation: expected a boolean"
    );
    assert_eq!(
        decode_plan(r#"{"cmd":["ok"],"risk":42}"#).unwrap_err(),
        "risk: expected a string"
    );
    assert_eq!(
        decode_plan(r#"{"cmd":["ok"],"assumptions":[1]}"#).unwrap_err(),
        "assumptions: expected an array of strings"
    );
    assert_eq!(
        decode_plan(r#"{"cmd":["ok"],"notes":"n"}"#).unwrap_err(),
        "notes: expected an array of strings"
    );
}

#[test]
fn exit_classification_is_exact() {
    assert_eq!(classify_exit(Some(0), true), RunStatus::Exited(0));
    assert_eq!(classify_exit(Some(1), false), RunStatus::Exited(1));
    assert_eq!(classify_exit(Some(124), true), RunStatus::TimedOut);
    // without the wrapper, 124 is just a command's own exit code
    assert_eq!(classify_exit(Some(124), false), RunStatus::Exited(124));
    assert_eq!(classify_exit(None, true), RunStatus::Signaled);
    assert_eq!(classify_exit(None, false), RunStatus::Signaled);
}

#[test]
fn provider_dispatch_decision() {
    assert!(service_dispatch_error(LlmService::OpenAI).is_none());
    match service_dispatch_error(LlmService::Gemini) {
        Some(ScyApiError::ParseFailed(m)) => assert_eq!(m, "Gemini not implemented yet"),
        other => panic!("unexpected dispatch result: {other:?}"),
    }
}

#[test]
fn plan_display_is_exact() {
    let mut plan = plan_of(&["mkdir x", "tar -czf a.tar.gz x"]);
    plan.explain = Some("make then pack".to_string());
    plan.risk = Some("low".to_string());
    plan.needs_confirmation = Some(true);
    plan.assumptions = Some(vec!["x is new".to_string()]);
    plan.notes = Some(Vec::new());
    assert_eq!(
        format_plan(&plan),
        "\n=== PLAN ===\nExplain: make then pack\nRisk: low\nNeeds confirmation (plan): true\n\
         \nCommands:\n  1. mkdir x\n  2. tar -czf a.tar.gz x\n\nAssumptions:\n  - x is new\n"
    );
    let bare = plan_of(&["echo hi"]);
    assert_eq!(
        format_plan(&bare),
        "\n=== PLAN ===\nRisk: unknown\nNeeds confirmation (plan): false\n\nCommands:\n  1. echo hi\n"
    );
}
