use marlowe_api::analysis_service::{
    analysis_response, analyze_apply_repair_start, analyze_counterexample_start, apply_repair_answer,
    apply_repair_patch, apply_repair_plan, RepairPlan,
};
use marlowe_api::analyze::{finish_deadline_safety, CounterexampleResult, DeadlineStep, SolverReply};
use marlowe_api::api::{
    AccountBalanceRequest, AnalyzeApplyRepairRequest, AnalyzeCounterexampleRequest, AnalyzePropertyRequest,
    BigIntValue, SimInputRequest, SimulatePreviewRequest, SimulateStateRequest, SimulateStepRequest,
    SimulateTxRequest, TypecheckExplainContextRequest, TypecheckExplainRequest,
};
use marlowe_api::ast::{Party, Token};
use marlowe_api::responses::{PreviewInputResponse, WarningResponse};
use marlowe_api::service::{simulate_preview, simulate_step, typecheck_explain, TraceEventResponse};

const DEPOSIT_FIVE: &str = r#"
When:
  cases:
    - Case:
        action:
          Deposit:
            into: { Role: "Alice" }
            by: { Role: "Alice" }
            token: { Token: { currency_symbol: "", token_name: "" } }
            amount: { Constant: 5 }
        then: { Close: {} }
  timeout: { Timeout: 100 }
  timeout_continuation: { Close: {} }
"#;

fn alice() -> Party {
    Party::Role("Alice".to_owned())
}

fn ada() -> Token {
    Token::Token { currency_symbol: "".to_owned(), token_name: "".to_owned() }
}

fn text(s: &str) -> BigIntValue {
    BigIntValue::String(s.to_owned())
}

fn step(contract: &str, state: SimulateStateRequest, start: &str, end: &str, inputs: Vec<SimInputRequest>, trace: bool) -> SimulateStepRequest {
    SimulateStepRequest {
        contract_yaml: contract.to_owned(),
        state,
        transaction: SimulateTxRequest { interval_start: text(start), interval_end: text(end), inputs },
        trace,
    }
}

fn deposit(amount: &str) -> SimInputRequest {
    SimInputRequest::Deposit { into: alice(), by: alice(), token: ada(), amount: text(amount) }
}

#[test]
fn simulate_step_success_response() {
    let (status, response) =
        simulate_step(step(DEPOSIT_FIVE, SimulateStateRequest::default(), "0", "10", vec![deposit("5")], false));
    assert_eq!(status, 200);
    assert_eq!(response.result, "success");
    let success = response.success.expect("success");
    assert_eq!(success.payments[0].amount, "5");
    assert_eq!(success.state.accounts.len(), 0);
    assert_eq!(success.contract_yaml.trim(), "Close: {}");
    assert!(success.trace.is_none());
    assert!(success.initial_position.is_none());
}

#[test]
fn simulate_step_rejects_uninstantiated_contract() {
    let contract = "When:\n  cases: []\n  timeout: $deadline\n  timeout_continuation: { Close: {} }\n";
    let (status, response) = simulate_step(step(contract, SimulateStateRequest::default(), "0", "10", vec![], false));
    assert_eq!(status, 400);
    let error = response.error.expect("error");
    assert_eq!(error.code, "NotReadyToRun");
    assert_eq!(error.path, Some("$.contract_yaml".to_owned()));
    let diagnostics = error.diagnostics.expect("diagnostics");
    assert!(diagnostics.iter().any(|d| d.subcode == "ParamUnresolved" && d.code == "Validation"));
    assert_eq!(diagnostics[0].details, vec![("name".to_owned(), "deadline".to_owned()), ("type".to_owned(), "Timeout".to_owned())]);
    assert_eq!(diagnostics[0].message, "parameter 'deadline' has inferred type Timeout and must be instantiated");
    assert!(diagnostics[0].line.is_none());
}

#[test]
fn simulate_step_rejects_ambiguous_interval() {
    let contract = "When:\n  cases: []\n  timeout: { Timeout: 10 }\n  timeout_continuation: { Close: {} }\n";
    let (status, response) = simulate_step(step(contract, SimulateStateRequest::default(), "0", "10", vec![], false));
    assert_eq!(status, 400);
    let error = response.error.expect("error");
    assert_eq!(error.code, "AmbiguousTimeInterval");
    assert_eq!(error.message, "interval straddles timeout boundary and is ambiguous");
    assert_eq!(error.path, Some("$.transaction".to_owned()));
}

#[test]
fn simulate_step_no_match_input_has_input_path() {
    let (status, response) =
        simulate_step(step(DEPOSIT_FIVE, SimulateStateRequest::default(), "0", "10", vec![deposit("2")], false));
    assert_eq!(status, 400);
    let error = response.error.expect("error");
    assert_eq!(error.code, "NoMatchForInput");
    assert_eq!(error.message, "input at index 0 did not match any contract case");
    assert_eq!(error.path, Some("$.transaction.inputs[0]".to_owned()));
}

#[test]
fn simulate_step_clamps_interval_to_state_min_time() {
    let contract = r#"
Pay:
  from: { Role: "Alice" }
  to_party: { Role: "Bob" }
  token: { Token: { currency_symbol: "", token_name: "" } }
  amount: { TimeIntervalStart: {} }
  then: { Close: {} }
"#;
    let state = SimulateStateRequest {
        min_time: text("40"),
        accounts: vec![AccountBalanceRequest { owner: alice(), token: ada(), amount: text("100") }],
        choices: Vec::new(),
        bound_values: Vec::new(),
    };
    let (status, response) = simulate_step(step(contract, state, "10", "50", vec![], false));
    assert_eq!(status, 200);
    let success = response.success.expect("success");
    assert_eq!(success.payments[0].amount, "40");
    assert_eq!(success.state.min_time, "40");
}

#[test]
fn simulate_step_reports_bad_state_integer() {
    let state = SimulateStateRequest {
        min_time: BigIntValue::Missing,
        accounts: vec![AccountBalanceRequest { owner: alice(), token: ada(), amount: text("12x") }],
        choices: Vec::new(),
        bound_values: Vec::new(),
    };
    let (status, response) = simulate_step(step(DEPOSIT_FIVE, state, "0", "10", vec![], false));
    assert_eq!(status, 400);
    let error = response.error.expect("error");
    assert_eq!(error.subcode, "StateError");
    assert_eq!(error.message, "invalid integer '12x'");
    assert_eq!(error.path, Some("$.state".to_owned()));
}

#[test]
fn simulate_step_reports_bad_transaction_integer() {
    let (status, response) =
        simulate_step(step(DEPOSIT_FIVE, SimulateStateRequest::default(), "zero", "10", vec![], false));
    assert_eq!(status, 400);
    let error = response.error.expect("error");
    assert_eq!(error.subcode, "TransactionError");
    assert_eq!(error.message, "invalid integer 'zero'");
    assert_eq!(error.path, Some("$.transaction".to_owned()));
}

#[test]
fn simulate_step_reports_parse_error_with_path() {
    let (status, response) =
        simulate_step(step("Mystery:\n  value: 1\n", SimulateStateRequest::default(), "0", "10", vec![], false));
    assert_eq!(status, 400);
    let error = response.error.expect("error");
    assert_eq!(error.code, "RequestError");
    assert_eq!(error.subcode, "ParseError");
    assert_eq!(error.message, "$: unknown Contract constructor 'Mystery'");
    assert_eq!(error.path, Some("$".to_owned()));
}

#[test]
fn simulate_step_trace_numbers_events_and_locates_the_root() {
    let (status, response) =
        simulate_step(step(DEPOSIT_FIVE, SimulateStateRequest::default(), "0", "10", vec![deposit("5")], true));
    assert_eq!(status, 200);
    let success = response.success.expect("success");
    let trace = success.trace.expect("trace");
    assert!(!trace.is_empty());
    match &trace[0] {
        TraceEventResponse::InputApplied { event_id, input_index, line, .. } => {
            assert_eq!(event_id, "trace-0000");
            assert_eq!(*input_index, 0);
            assert!(line.is_none());
        },
        other => panic!("expected the input first, got {other:?}"),
    }
    let last = trace.last().expect("a last event");
    match last {
        TraceEventResponse::Reduced { rule, line, column, end_column, .. } => {
            assert_eq!(rule, "CloseRefund");
            // `then: { Close: {} }` is the first line holding `Close:`.
            assert_eq!(*line, Some(11));
            assert_eq!(*column, Some(17));
            assert_eq!(*end_column, Some(21));
        },
        other => panic!("expected a reduction last, got {other:?}"),
    }
    let position = success.initial_position.expect("position");
    assert_eq!((position.line, position.column, position.end_line, position.end_column), (2, 1, Some(2), Some(4)));
}

#[test]
fn simulate_preview_lists_inputs_for_when_contract() {
    let contract = r#"
When:
  cases:
    - Case:
        action:
          Deposit:
            into: { Role: "Alice" }
            by: { Role: "Alice" }
            token: { Token: { currency_symbol: "", token_name: "" } }
            amount: { Constant: 5 }
        then: { Close: {} }
    - Case:
        action:
          Notify:
            if: { "True": {} }
        then: { Close: {} }
  timeout: { Timeout: 100 }
  timeout_continuation: { Close: {} }
"#;
    let (status, response) = simulate_preview(SimulatePreviewRequest {
        contract_yaml: contract.to_owned(),
        state: SimulateStateRequest::default(),
        interval_start: text("0"),
        interval_end: text("10"),
    });
    assert_eq!(status, 200);
    assert_eq!(response.result, "success");
    let success = response.success.expect("success");
    assert_eq!(success.inputs.len(), 2);
    match &success.inputs[0] {
        PreviewInputResponse::Deposit { amount, warnings, .. } => {
            assert_eq!(amount, "5");
            assert!(warnings.is_empty());
        },
        other => panic!("expected a deposit, got {other:?}"),
    }
    assert!(matches!(success.inputs[1], PreviewInputResponse::Notify { can_notify: true, .. }));
}

#[test]
fn simulate_preview_warns_of_non_positive_deposit() {
    let contract = DEPOSIT_FIVE.replace("Constant: 5", "Constant: 0");
    let (status, response) = simulate_preview(SimulatePreviewRequest {
        contract_yaml: contract,
        state: SimulateStateRequest::default(),
        interval_start: text("0"),
        interval_end: text("10"),
    });
    assert_eq!(status, 200);
    let success = response.success.expect("success");
    match &success.inputs[0] {
        PreviewInputResponse::Deposit { warnings, .. } => {
            assert_eq!(warnings.len(), 1);
            assert!(matches!(&warnings[0], WarningResponse::NonPositiveDeposit { amount, .. } if amount == "0"));
        },
        other => panic!("expected a deposit, got {other:?}"),
    }
}

#[test]
fn simulate_preview_returns_locatable_not_ready_error() {
    let contract = r#"
When:
  cases: []
  timeout: "$deadline"
  timeout_continuation: { Close: {} }
"#;
    let (status, response) = simulate_preview(SimulatePreviewRequest {
        contract_yaml: contract.to_owned(),
        state: SimulateStateRequest::default(),
        interval_start: text("0"),
        interval_end: text("10"),
    });
    assert_eq!(status, 400);
    let error = response.error.expect("error");
    assert_eq!(error.code, "NotReadyToRun");
    assert_eq!(error.path, Some("$.contract_yaml".to_owned()));
    let diagnostics = error.diagnostics.expect("diagnostics");
    assert_eq!(diagnostics.len(), 1);
    assert_eq!(diagnostics[0].line, Some(4));
    assert_eq!(diagnostics[0].column, Some(13));
    assert_eq!(diagnostics[0].end_line, Some(4));
    assert_eq!(diagnostics[0].end_column, Some(21));
}

#[test]
fn simulate_preview_reports_bad_interval_end() {
    let (status, response) = simulate_preview(SimulatePreviewRequest {
        contract_yaml: DEPOSIT_FIVE.to_owned(),
        state: SimulateStateRequest::default(),
        interval_start: BigIntValue::Integer(0),
        interval_end: text("ten"),
    });
    assert_eq!(status, 400);
    let error = response.error.expect("error");
    assert_eq!(error.subcode, "TransactionError");
    assert_eq!(error.path, Some("$.interval_end".to_owned()));
}

#[test]
fn typecheck_explain_gives_hints_and_counts() {
    let yaml = r#"
Pay:
  from: { Role: "alice" }
  to_party: { Role: "bob" }
  token: { Token: { currency_symbol: "", token_name: "" } }
  amount: { UseValue: "missing" }
  then: ?rest
"#;
    let (status, response) = typecheck_explain(&TypecheckExplainRequest {
        contract_yaml: yaml.to_owned(),
        context: TypecheckExplainContextRequest::default(),
    });
    assert_eq!(status, 200);
    let success = response.success.expect("success");
    assert!(!success.ready_to_run);
    assert_eq!(success.summary.error_count, 1);
    assert_eq!(success.summary.hole_count, 1);
    assert_eq!(success.summary.blocking_count, 2);
    assert_eq!(success.blocking[0].code, "TypeError");
    assert_eq!(
        success.blocking[0].hint,
        "Declare the referenced `Let.name` in scope before `UseValue`, or rename it to an existing binding."
    );
    assert_eq!(success.blocking[1].code, "HoleUnresolved");
    assert_eq!(success.blocking[1].message, "hole 'rest' has inferred type Contract");
    assert_eq!(success.blocking[1].hint, "Provide a concrete Contract value for '?rest' to fully instantiate the contract.");
}

#[test]
fn typecheck_explain_refuses_a_hole_in_the_context() {
    let mut context = TypecheckExplainContextRequest::default();
    context.known_parties = vec![Party::Role("alice".to_owned()), Party::Hole("who".to_owned())];
    let (status, response) =
        typecheck_explain(&TypecheckExplainRequest { contract_yaml: "Close: {}\n".to_owned(), context });
    assert_eq!(status, 400);
    let error = response.error.expect("error");
    assert_eq!(error.subcode, "ContextError");
    assert_eq!(error.message, "context definitions must be concrete; found hole '?who'");
    assert_eq!(error.path, Some("$.context.known_parties[1]".to_owned()));
}

const NON_CLOSE_TIMEOUT: &str = r#"
When:
  cases: []
  timeout: { Timeout: 7 }
  timeout_continuation:
    Assert:
      cond: { "True": {} }
      then: { Close: {} }
"#;

fn sat() -> SolverReply {
    SolverReply::Exited { success: true, stdout: "sat\n".to_owned(), stderr: String::new() }
}

fn resolve(step: DeadlineStep) -> CounterexampleResult {
    match step {
        DeadlineStep::Done(result) => result,
        DeadlineStep::Solve(w) => finish_deadline_safety(&w, &sat()),
    }
}

#[test]
fn counterexample_endpoint_reports_deadline_witness() {
    let request = AnalyzeCounterexampleRequest {
        contract_yaml: NON_CLOSE_TIMEOUT.to_owned(),
        property: AnalyzePropertyRequest::DeadlineSafety,
        authorization_rule: None,
        max_nodes: 512,
    };
    let (name, step) = analyze_counterexample_start(&request).expect("starts");
    assert_eq!(name, "deadline_safety");
    let (status, response) = analysis_response(name, &resolve(step));
    assert_eq!(status, 200);
    let success = response.success.expect("success");
    assert_eq!(success.status, "counterexample_found");
    let witness = success.counterexample.expect("witness");
    assert_eq!(witness.timeout, Some("7".to_owned()));
    assert_eq!(witness.steps[0].time, Some("7".to_owned()));
}

#[test]
fn counterexample_endpoint_needs_an_authorization_rule() {
    let request = AnalyzeCounterexampleRequest {
        contract_yaml: NON_CLOSE_TIMEOUT.to_owned(),
        property: AnalyzePropertyRequest::AuthorizationSafety,
        authorization_rule: None,
        max_nodes: 512,
    };
    let (status, response) = analyze_counterexample_start(&request).expect_err("refused");
    assert_eq!(status, 400);
    let error = response.error.expect("error");
    assert_eq!(error.subcode, "MissingAuthorizationRule");
    assert_eq!(error.path, Some("$.authorization_rule".to_owned()));
}

#[test]
fn counterexample_endpoint_refuses_unready_contract() {
    let request = AnalyzeCounterexampleRequest {
        contract_yaml: "When:\n  cases: []\n  timeout: $t\n  timeout_continuation: { Close: {} }\n".to_owned(),
        property: AnalyzePropertyRequest::DeadlineSafety,
        authorization_rule: None,
        max_nodes: 512,
    };
    let (status, response) = analyze_counterexample_start(&request).expect_err("refused");
    assert_eq!(status, 400);
    let error = response.error.expect("error");
    assert_eq!(error.message, "contract must be fully instantiated and type-safe before analysis");
}

#[test]
fn apply_repair_endpoint_patches_and_rechecks() {
    let request = AnalyzeApplyRepairRequest {
        contract_yaml: NON_CLOSE_TIMEOUT.to_owned(),
        property: AnalyzePropertyRequest::DeadlineSafety,
        authorization_rule: None,
        max_nodes: 512,
    };
    let (contract, name, step) = analyze_apply_repair_start(&request).expect("starts");
    let before = resolve(step);
    let (report, patch) = match apply_repair_plan(name, &before) {
        RepairPlan::Patch(report, patch) => (report, patch),
        other => panic!("expected a patch, got {other:?}"),
    };
    let unused: Result<Party, String> = Err("no party is read for this patch".to_owned());
    let (patched, yaml) = apply_repair_patch(&contract, &patch, &unused).expect("patch applies");
    let after = match marlowe_api::analysis_service::run_counterexample_analysis(&patched, request.property, None, 512) {
        Ok((_, step)) => resolve(step),
        Err(f) => panic!("analysis refused: {f:?}"),
    };
    let (status, response) = apply_repair_answer(name, report, &after, yaml);
    assert_eq!(status, 200);
    let success = response.success.expect("success");
    assert!(success.repaired);
    assert_eq!(success.before.status, "counterexample_found");
    assert_eq!(success.after.expect("after").status, "pass_bounded");
    assert!(success.patched_contract_yaml.expect("yaml").contains("timeout_continuation"));
}

fn sat_for(_: &marlowe_api::analyze::WitnessRequest) -> SolverReply {
    sat()
}

fn unread(_: &str) -> Result<Party, String> {
    Err("no party is read for this patch".to_owned())
}

#[test]
fn repair_workflow_patches_and_rechecks() {
    let request = AnalyzeApplyRepairRequest {
        contract_yaml: NON_CLOSE_TIMEOUT.to_owned(),
        property: AnalyzePropertyRequest::DeadlineSafety,
        authorization_rule: None,
        max_nodes: 512,
    };
    let (status, response) = marlowe_api::analysis_service::apply_repair_workflow(&request, &sat_for, &unread);
    assert_eq!(status, 200);
    let success = response.success.expect("success");
    assert!(success.repaired);
    assert_eq!(success.before.status, "counterexample_found");
    assert_eq!(success.after.expect("after").status, "pass_bounded");
    assert!(success.patched_contract_yaml.expect("yaml").contains("timeout_continuation"));
}

#[test]
fn repair_workflow_leaves_a_passing_contract() {
    let request = AnalyzeApplyRepairRequest {
        contract_yaml: DEPOSIT_FIVE.to_owned(),
        property: AnalyzePropertyRequest::DeadlineSafety,
        authorization_rule: None,
        max_nodes: 512,
    };
    let (status, response) = marlowe_api::analysis_service::apply_repair_workflow(&request, &sat_for, &unread);
    assert_eq!(status, 200);
    let success = response.success.expect("success");
    assert!(!success.repaired);
    assert!(success.after.is_none());
    assert!(success.patched_contract_yaml.is_none());
}

#[test]
fn counterexample_workflow_reports_witness() {
    let request = AnalyzeCounterexampleRequest {
        contract_yaml: NON_CLOSE_TIMEOUT.to_owned(),
        property: AnalyzePropertyRequest::DeadlineSafety,
        authorization_rule: None,
        max_nodes: 512,
    };
    let (status, response) = marlowe_api::analysis_service::analyze_counterexample_workflow(&request, &sat_for);
    assert_eq!(status, 200);
    assert_eq!(response.success.expect("success").status, "counterexample_found");
}

#[test]
fn counterexample_workflow_reports_missing_solver_as_unsupported() {
    let request = AnalyzeCounterexampleRequest {
        contract_yaml: NON_CLOSE_TIMEOUT.to_owned(),
        property: AnalyzePropertyRequest::DeadlineSafety,
        authorization_rule: None,
        max_nodes: 512,
    };
    let no_solver = |_: &marlowe_api::analyze::WitnessRequest| SolverReply::Unavailable("failed to start z3 process".to_owned());
    let (status, response) = marlowe_api::analysis_service::analyze_counterexample_workflow(&request, &no_solver);
    assert_eq!(status, 400);
    assert_eq!(response.error.expect("error").subcode, "UnsupportedContractForProperty");
}
