use marlowe_api::analyze::{finish_deadline_safety, CounterexampleResult, DeadlineStep, SolverReply};
use marlowe_api::api::{AnalyzePropertyRequest, AuthorizationActionRequest, TypecheckExplainContextRequest};
use marlowe_api::ast::{ChoiceId, Party, Token};
use marlowe_api::cli::{
    analyze_outcome, cli_counterexample_analysis, invalid_authorization_rule, map_context_flags, map_state_file,
    parse_bigint, read_analysis_contract, repair_patch, repair_plan, repaired_result, run_preview, run_step,
    run_validate, step_input_form, warning_to_output, AccountBalanceFile, CliRepairPlan, ErrorKind, ExitCodeNum,
    Failure, JsonValue, StateFile, StepInputForm, StepMode, TraceEventOut,
};
use marlowe_api::integer::Integer;
use marlowe_api::sim::{SimInput, SimState, TransactionWarning};

const DEPOSIT_FIVE: &str = r#"
When:
  cases:
    - Case:
        action:
          Deposit:
            into: { Role: "Alice" }
            by: { Role: "Alice" }
            token: { Token: { currency_symbol: "", token_name: "" } }
            amount: { Constant: 5 }
        then: { Close: {} }
  timeout: { Timeout: 100 }
  timeout_continuation: { Close: {} }
"#;

const BOB_DEPOSITS: &str = r#"
When:
  cases:
    - Case:
        action:
          Deposit:
            into: { Role: "Alice" }
            by: { Role: "Bob" }
            token: { Token: { currency_symbol: "", token_name: "" } }
            amount: { Constant: 5 }
        then: { Close: {} }
  timeout: { Timeout: 100 }
  timeout_continuation: { Close: {} }
"#;

const NON_CLOSE_TIMEOUT: &str = r#"
When:
  cases: []
  timeout: { Timeout: 7 }
  timeout_continuation:
    Assert:
      cond: { "True": {} }
      then: { Close: {} }
"#;

const WITH_HOLE: &str = "When:\n  cases: []\n  timeout: $t\n  timeout_continuation: { Close: {} }\n";

fn alice() -> Party {
    Party::Role("Alice".to_owned())
}

fn ada() -> Token {
    Token::Token { currency_symbol: "".to_owned(), token_name: "".to_owned() }
}

fn text(s: &str) -> JsonValue {
    JsonValue::String(s.to_owned())
}

fn object(entries: Vec<(&str, JsonValue)>) -> JsonValue {
    JsonValue::Object(entries.into_iter().map(|(k, v)| (k.to_owned(), v)).collect())
}

fn resolve(step: DeadlineStep) -> CounterexampleResult {
    match step {
        DeadlineStep::Done(result) => result,
        DeadlineStep::Solve(w) => finish_deadline_safety(
            &w,
            &SolverReply::Exited { success: true, stdout: "sat\n".to_owned(), stderr: String::new() },
        ),
    }
}

#[test]
fn exit_codes_have_their_numbers() {
    assert_eq!(ExitCodeNum::Success.code(), 0);
    assert_eq!(ExitCodeNum::Internal.code(), 1);
    assert_eq!(ExitCodeNum::ValidationBlocking.code(), 2);
    assert_eq!(ExitCodeNum::SimulationError.code(), 3);
    assert_eq!(ExitCodeNum::CounterexampleFound.code(), 4);
    assert_eq!(ExitCodeNum::NoDeterministicRepair.code(), 5);
    assert_eq!(ExitCodeNum::StrictWarningGate.code(), 6);
}

#[test]
fn parse_bigint_names_the_field() {
    assert_eq!(parse_bigint("-42", "timeout").expect("integer"), Integer::from_i64(-42));
    let failure = parse_bigint("4x", "timeout").expect_err("not an integer");
    assert_eq!(failure.kind, ErrorKind::Validation);
    assert_eq!(failure.code, "InvalidInteger");
    assert_eq!(failure.message, "invalid integer '4x'");
    assert_eq!(failure.details, vec![("field".to_owned(), "timeout".to_owned())]);
    assert_eq!(failure.exit_code, ExitCodeNum::ValidationBlocking);
}

#[test]
fn validate_clean_contract_succeeds() {
    let (code, result) =
        run_validate(DEPOSIT_FIVE, Ok(TypecheckExplainContextRequest::default()), false).expect("validates");
    assert_eq!(code, ExitCodeNum::Success);
    assert!(result.valid);
    assert!(result.ready_to_run);
    assert!(result.blocking.is_empty());
    assert!(result.diagnostics.is_empty());
}

#[test]
fn validate_reports_a_hole_as_blocking() {
    let (code, result) =
        run_validate(WITH_HOLE, Ok(TypecheckExplainContextRequest::default()), false).expect("validates");
    assert_eq!(code, ExitCodeNum::ValidationBlocking);
    assert!(!result.ready_to_run);
    assert!(!result.blocking.is_empty());
}

#[test]
fn validate_parse_error_fails_with_path() {
    let failure = run_validate("Pay: [", Ok(TypecheckExplainContextRequest::default()), false).expect_err("parse error");
    assert_eq!(failure.code, "ParseError");
    assert_eq!(failure.exit_code, ExitCodeNum::ValidationBlocking);
}

#[test]
fn validate_passes_on_a_flag_failure() {
    let flag_failure = invalid_authorization_rule("bad flag".to_owned());
    let failure = run_validate(DEPOSIT_FIVE, Err(flag_failure), false).expect_err("flags refused");
    assert_eq!(failure.code, "InvalidAuthorizationRule");
    assert_eq!(failure.message, "bad flag");
}

#[test]
fn context_flags_map_known_parties() {
    let mut flags = TypecheckExplainContextRequest::default();
    flags.known_parties = vec![alice()];
    let context = map_context_flags(&flags).expect("maps");
    assert_eq!(context.known_parties.len(), 1);
}

#[test]
fn state_file_reads_accounts_and_empty_min_time() {
    let file = StateFile {
        min_time: String::new(),
        accounts: vec![AccountBalanceFile { owner: alice(), token: ada(), amount: "12".to_owned() }],
        choices: Vec::new(),
        bound_values: vec![("x".to_owned(), "3".to_owned())],
    };
    let state = map_state_file(file).expect("state");
    assert_eq!(state.min_time, Integer::from_i64(0));
    assert_eq!(state.accounts.len(), 1);
    assert_eq!(state.bound_values.get(&"x".to_owned()), Some(&Integer::from_i64(3)));
}

#[test]
fn state_file_bad_amount_names_its_field() {
    let file = StateFile {
        min_time: "5".to_owned(),
        accounts: vec![AccountBalanceFile { owner: alice(), token: ada(), amount: "twelve".to_owned() }],
        choices: Vec::new(),
        bound_values: Vec::new(),
    };
    let failure = map_state_file(file).expect_err("bad amount");
    assert_eq!(failure.code, "InvalidInteger");
    assert_eq!(failure.details, vec![("field".to_owned(), "state.accounts[].amount".to_owned())]);
}

#[test]
fn step_input_notify_forms() {
    assert_eq!(step_input_form(text("notify")), StepInputForm::Notify);
    assert_eq!(step_input_form(object(vec![("notify", JsonValue::Null)])), StepInputForm::Notify);
    assert_eq!(step_input_form(object(vec![("kind", text("notify"))])), StepInputForm::Notify);
}

#[test]
fn step_input_deposit_object_hands_out_inner_value() {
    let form = step_input_form(object(vec![("deposit", object(vec![("amount", text("5"))]))]));
    assert_eq!(form, StepInputForm::DepositObject(object(vec![("amount", text("5"))])));
}

#[test]
fn step_input_kind_deposit_reports_missing_field() {
    let form = step_input_form(object(vec![("kind", text("deposit")), ("amount", text("5"))]));
    match form {
        StepInputForm::DepositFields { into, amount, .. } => {
            let failure = into.expect_err("into is missing");
            assert_eq!(failure.code, "InvalidInputJson");
            assert_eq!(failure.message, "missing field 'into' for kind=deposit");
            assert_eq!(amount.expect("amount"), "5");
        }
        other => panic!("unexpected form {other:?}"),
    }
}

#[test]
fn step_input_unknown_form_is_unsupported() {
    match step_input_form(JsonValue::Bool(true)) {
        StepInputForm::Unsupported(f) => {
            assert_eq!(f.message, "unsupported input format; expected notify/deposit/choice");
        }
        other => panic!("unexpected form {other:?}"),
    }
}

#[test]
fn warning_output_writes_parties_as_json() {
    let warning = TransactionWarning::NonPositiveDeposit {
        into: alice(),
        by: alice(),
        token: ada(),
        amount: Integer::from_i64(0),
    };
    let out = warning_to_output(&warning);
    assert_eq!(out.code, "NonPositiveDeposit");
    assert_eq!(out.message, "Non-positive deposit amount");
    assert_eq!(out.fields[0], ("amount".to_owned(), "0".to_owned()));
    assert_eq!(out.fields[1], ("by".to_owned(), "{\"Role\":\"Alice\"}".to_owned()));
    assert_eq!(out.fields[3].0, "token");
}

#[test]
fn preview_lists_deposit_input() {
    let out = run_preview(DEPOSIT_FIVE, Ok(SimState::default()), "0", "10").expect("preview");
    assert_eq!(out.inputs.len(), 1);
    assert_eq!(out.context.min_time, "0");
}

#[test]
fn preview_bad_interval_names_field() {
    let failure = run_preview(DEPOSIT_FIVE, Ok(SimState::default()), "0", "ten").expect_err("bad end");
    assert_eq!(failure.code, "InvalidInteger");
}

#[test]
fn step_with_input_traces_events() {
    let input = SimInput::Deposit { into: alice(), by: alice(), token: ada(), amount: Integer::from_i64(5) };
    let out = run_step(DEPOSIT_FIVE, Ok(SimState::default()), StepMode::Input(Ok(input)), true).expect("step");
    assert_eq!(out.summary, "Simulation step applied");
    assert!(!out.trace_events.is_empty());
    match &out.trace_events[0] {
        TraceEventOut::InputApplied { event_id, input_index, .. } => {
            assert_eq!(event_id, "trace.0");
            assert_eq!(*input_index, 0);
        }
        other => panic!("unexpected event {other:?}"),
    }
}

#[test]
fn step_timeout_closes_contract() {
    let out = run_step(DEPOSIT_FIVE, Ok(SimState::default()), StepMode::Timeout("100".to_owned()), false).expect("step");
    assert!(out.context.contract_yaml.contains("Close"));
    assert_eq!(out.context.min_time, "100");
}

#[test]
fn step_bad_timeout_fails() {
    let failure =
        run_step(DEPOSIT_FIVE, Ok(SimState::default()), StepMode::Timeout("soon".to_owned()), false).expect_err("bad");
    assert_eq!(failure.details, vec![("field".to_owned(), "timeout".to_owned())]);
}

#[test]
fn step_wrong_input_is_a_simulation_failure() {
    let input = SimInput::Choice { id: ChoiceId::ChoiceId { name: "c".to_owned(), party: alice() }, value: Integer::from_i64(1) };
    let failure = run_step(DEPOSIT_FIVE, Ok(SimState::default()), StepMode::Input(Ok(input)), false).expect_err("no match");
    assert_eq!(failure.kind, ErrorKind::Simulation);
    assert_eq!(failure.exit_code, ExitCodeNum::SimulationError);
}

#[test]
fn analysis_refuses_unready_contract() {
    let failure = read_analysis_contract(WITH_HOLE).expect_err("not ready");
    assert_eq!(failure.code, "NotReadyToRun");
    assert_eq!(failure.message, "contract must be fully instantiated and type-safe before analysis");
    assert_eq!(failure.exit_code, ExitCodeNum::ValidationBlocking);
}

#[test]
fn authorization_needs_action_and_parties() {
    let contract = read_analysis_contract(DEPOSIT_FIVE).expect("ready");
    let failure = cli_counterexample_analysis(
        &contract,
        AnalyzePropertyRequest::AuthorizationSafety,
        None,
        None,
        Some(Ok(vec![alice()])),
        512,
    )
    .expect_err("no action");
    assert_eq!(failure.code, "MissingAuthorizationRule");
    assert_eq!(failure.message, "authorization_safety requires --action and --allowed-parties");
    let failure = cli_counterexample_analysis(
        &contract,
        AnalyzePropertyRequest::AuthorizationSafety,
        Some(AuthorizationActionRequest::Deposit),
        None,
        Some(Ok(Vec::new())),
        512,
    )
    .expect_err("empty parties");
    assert_eq!(failure.code, "InvalidAuthorizationRule");
    assert_eq!(failure.message, "authorization_rule.allowed_parties must not be empty");
}

#[test]
fn analyze_deadline_counterexample_sets_exit_code() {
    let contract = read_analysis_contract(NON_CLOSE_TIMEOUT).expect("ready");
    let (name, step) =
        cli_counterexample_analysis(&contract, AnalyzePropertyRequest::DeadlineSafety, None, None, None, 512)
            .expect("runs");
    assert_eq!(name, "deadline_safety");
    let (code, out) = analyze_outcome(name, &resolve(step));
    assert_eq!(code, ExitCodeNum::CounterexampleFound);
    assert_eq!(out.property, "deadline_safety");
    assert_eq!(out.status, "counterexample_found");
    assert_eq!(out.counterexample.expect("witness").timeout, Some("7".to_owned()));
}

#[test]
fn analyze_authorization_pass_exits_zero() {
    let contract = read_analysis_contract(DEPOSIT_FIVE).expect("ready");
    let (name, step) = cli_counterexample_analysis(
        &contract,
        AnalyzePropertyRequest::AuthorizationSafety,
        Some(AuthorizationActionRequest::Deposit),
        None,
        Some(Ok(vec![alice()])),
        512,
    )
    .expect("runs");
    let (code, out) = analyze_outcome(name, &resolve(step));
    assert_eq!(code, ExitCodeNum::Success);
    assert_eq!(out.status, "pass_bounded");
}

#[test]
fn repair_of_passing_contract_changes_nothing() {
    let contract = read_analysis_contract(DEPOSIT_FIVE).expect("ready");
    let (name, step) =
        cli_counterexample_analysis(&contract, AnalyzePropertyRequest::DeadlineSafety, None, None, None, 512)
            .expect("runs");
    match repair_plan(name, &resolve(step)).expect("plan") {
        CliRepairPlan::Unchanged(out) => {
            assert!(!out.repaired);
            assert_eq!(out.before.status, "pass_bounded");
            assert!(out.after.is_none());
            assert!(out.patched_contract_yaml.is_none());
        }
        other => panic!("unexpected plan {other:?}"),
    }
}

#[test]
fn repair_patches_deadline_and_rechecks() {
    let contract = read_analysis_contract(NON_CLOSE_TIMEOUT).expect("ready");
    let (name, step) =
        cli_counterexample_analysis(&contract, AnalyzePropertyRequest::DeadlineSafety, None, None, None, 512)
            .expect("runs");
    let (before, patch) = match repair_plan(name, &resolve(step)).expect("plan") {
        CliRepairPlan::Patch(before, patch) => (before, patch),
        other => panic!("unexpected plan {other:?}"),
    };
    let unused: Result<Party, String> = Err("no party is read for this patch".to_owned());
    let (patched, yaml) = repair_patch(&contract, &patch, &unused).expect("patch applies");
    let (_, after) =
        cli_counterexample_analysis(&patched, AnalyzePropertyRequest::DeadlineSafety, None, None, None, 512)
            .expect("runs");
    let out = repaired_result(name, before, &resolve(after), yaml);
    assert!(out.repaired);
    assert_eq!(out.before.status, "counterexample_found");
    assert_eq!(out.after.expect("after").status, "pass_bounded");
    assert!(out.patched_contract_yaml.expect("yaml").contains("timeout_continuation"));
}

#[test]
fn repair_replaces_unauthorized_depositor() {
    let contract = read_analysis_contract(BOB_DEPOSITS).expect("ready");
    let (name, step) = cli_counterexample_analysis(
        &contract,
        AnalyzePropertyRequest::AuthorizationSafety,
        Some(AuthorizationActionRequest::Deposit),
        None,
        Some(Ok(vec![alice()])),
        512,
    )
    .expect("runs");
    let before = resolve(step);
    let (_, patch) = match repair_plan(name, &before).expect("plan") {
        CliRepairPlan::Patch(report, patch) => {
            assert_eq!(report.property, "authorization_safety");
            (report, patch)
        }
        other => panic!("unexpected plan {other:?}"),
    };
    let (patched, yaml) = repair_patch(&contract, &patch, &Ok(alice())).expect("patch applies");
    assert!(!yaml.contains("Bob"));
    let (_, after) = cli_counterexample_analysis(
        &patched,
        AnalyzePropertyRequest::AuthorizationSafety,
        Some(AuthorizationActionRequest::Deposit),
        None,
        Some(Ok(vec![alice()])),
        512,
    )
    .expect("runs");
    assert!(matches!(resolve(after), CounterexampleResult::PassBounded { .. }));
}

#[test]
fn flag_failure_passes_through_analysis() {
    let contract = read_analysis_contract(DEPOSIT_FIVE).expect("ready");
    let given: Failure = invalid_authorization_rule("expected value at line 1".to_owned());
    let failure = cli_counterexample_analysis(
        &contract,
        AnalyzePropertyRequest::AuthorizationSafety,
        Some(AuthorizationActionRequest::Choice),
        None,
        Some(Err(given)),
        512,
    )
    .expect_err("refused");
    assert_eq!(failure.message, "expected value at line 1");
    assert_eq!(failure.exit_code, ExitCodeNum::ValidationBlocking);
}

#[test]
fn warning_output_escapes_party_names_as_json() {
    let warning = TransactionWarning::NonPositiveDeposit {
        into: alice(),
        by: Party::Role("x\"y\u{1}\n".to_owned()),
        token: ada(),
        amount: Integer::from_i64(-3),
    };
    let out = warning_to_output(&warning);
    assert_eq!(out.fields[0], ("amount".to_owned(), "-3".to_owned()));
    assert_eq!(out.fields[1], ("by".to_owned(), "{\"Role\":\"x\\\"y\\u0001\\n\"}".to_owned()));
    assert_eq!(out.fields[3], ("token".to_owned(), "{\"Token\":{\"currency_symbol\":\"\",\"token_name\":\"\"}}".to_owned()));
}

fn sat_for(_: &marlowe_api::analyze::WitnessRequest) -> SolverReply {
    SolverReply::Exited { success: true, stdout: "sat\n".to_owned(), stderr: String::new() }
}

fn alice_only(_: &str) -> Result<Party, String> {
    Ok(Party::Role("Alice".to_owned()))
}

#[test]
fn analyze_workflow_sets_exit_code() {
    let (code, out) = marlowe_api::cli::run_analyze_workflow(
        NON_CLOSE_TIMEOUT,
        AnalyzePropertyRequest::DeadlineSafety,
        None,
        None,
        None,
        512,
        &sat_for,
    )
    .expect("runs");
    assert_eq!(code, ExitCodeNum::CounterexampleFound);
    assert_eq!(out.status, "counterexample_found");
}

#[test]
fn repair_workflow_replaces_unauthorized_depositor() {
    let parties = || Some(Ok(vec![alice()]));
    let out = marlowe_api::cli::run_repair_workflow(
        BOB_DEPOSITS,
        AnalyzePropertyRequest::AuthorizationSafety,
        Some(AuthorizationActionRequest::Deposit),
        &None,
        512,
        &parties,
        &sat_for,
        &alice_only,
    )
    .expect("repairs");
    assert!(out.repaired);
    assert_eq!(out.before.status, "counterexample_found");
    assert_eq!(out.after.expect("after").status, "pass_bounded");
    assert!(!out.patched_contract_yaml.expect("yaml").contains("Bob"));
}

#[test]
fn repair_workflow_refuses_unready_contract() {
    let parties = || None;
    let failure = marlowe_api::cli::run_repair_workflow(
        WITH_HOLE,
        AnalyzePropertyRequest::DeadlineSafety,
        None,
        &None,
        512,
        &parties,
        &sat_for,
        &alice_only,
    )
    .expect_err("not ready");
    assert_eq!(failure.code, "NotReadyToRun");
}
