use marlowe_api::analyze::{
    analyze_authorization_safety, analyze_deadline_safety, apply_auto_repair_patch, finish_deadline_safety,
    AuthorizationAction, AuthorizationRule, CounterexampleRequest, CounterexampleResult, DeadlineStep, SolverReply,
};
use marlowe_api::ast::{Contract, Party};
use marlowe_api::parse_contract_yaml;

/// The deadline analysis, with the solver's answer to the witness query
/// given as `sat` (what z3 answers for it).
fn deadline(contract: &Contract) -> CounterexampleResult {
    match analyze_deadline_safety(contract, &CounterexampleRequest::default()) {
        DeadlineStep::Done(result) => result,
        DeadlineStep::Solve(witness) => finish_deadline_safety(
            &witness,
            &SolverReply::Exited { success: true, stdout: "sat\n".to_owned(), stderr: String::new() },
        ),
    }
}

const NON_CLOSE_TIMEOUT: &str = r#"
When:
  cases: []
  timeout: { Timeout: 7 }
  timeout_continuation:
    Assert:
      cond: { "True": {} }
      then: { Close: {} }
"#;

#[test]
fn deadline_safety_detects_non_close_timeout_branch() {
    let contract = parse_contract_yaml(NON_CLOSE_TIMEOUT).expect("valid contract");

    let result = deadline(&contract);
    match result {
        CounterexampleResult::CounterexampleFound { counterexample, .. } => {
            assert_eq!(counterexample.timeout.map(|v| v.to_decimal()), Some("7".to_owned()));
            assert_eq!(counterexample.witness_time.map(|v| v.to_decimal()), Some("7".to_owned()));
            assert_eq!(counterexample.steps.len(), 2);
            assert_eq!(counterexample.steps[0].id, "deadline_safety.step.0");
            assert_eq!(counterexample.steps[0].kind, "timeout_reached");
            assert_eq!(counterexample.steps[0].severity, "info");
            assert!(!counterexample.steps[0].suggested_fix.is_empty());
            assert_eq!(counterexample.steps[1].severity, "high");
            assert!(counterexample.steps[1].suggested_fix.contains("timeout_continuation"));
            let patch = counterexample.auto_repair_patch.expect("repair patch");
            assert_eq!(patch.kind, "set_contract");
            assert!(patch.path.ends_with(".timeout_continuation"));
            assert_eq!(patch.value, "{ Close: {} }");
        },
        other => panic!("expected counterexample, got {other:?}"),
    }
}

#[test]
fn deadline_safety_passes_when_all_timeouts_close() {
    let contract = parse_contract_yaml(
        r#"
When:
  cases:
    - Case:
        action: { Notify: { if: { "True": {} } } }
        then: { Close: {} }
  timeout: { Timeout: 7 }
  timeout_continuation: { Close: {} }
"#,
    )
    .expect("valid contract");

    let result = deadline(&contract);
    assert!(matches!(result, CounterexampleResult::PassBounded { .. }));
}

#[test]
fn authorization_safety_detects_unauthorized_choice_party() {
    let contract = parse_contract_yaml(
        r#"
When:
  cases:
    - Case:
        action:
          Choice:
            id: { ChoiceId: { name: "release", party: { Role: "eve" } } }
            bounds: [ { Bound: { from: { Constant: 0 }, to: { Constant: 1 } } } ]
        then: { Close: {} }
  timeout: { Timeout: 7 }
  timeout_continuation: { Close: {} }
"#,
    )
    .expect("valid contract");

    let result = analyze_authorization_safety(
        &contract,
        &CounterexampleRequest::default(),
        &AuthorizationRule {
            action: AuthorizationAction::Choice,
            target: Some("release".to_owned()),
            allowed_parties: vec![Party::Role("alice".to_owned())],
        },
    );

    match result {
        CounterexampleResult::CounterexampleFound { counterexample, .. } => {
            assert_eq!(counterexample.property, "authorization_safety");
            assert_eq!(counterexample.action, Some("choice"));
            assert_eq!(counterexample.offending_party, Some(Party::Role("eve".to_owned())));
            assert_eq!(counterexample.target, Some("release".to_owned()));
            assert_eq!(counterexample.steps.len(), 1);
            assert_eq!(counterexample.steps[0].id, "authorization_safety.step.0");
            assert_eq!(counterexample.steps[0].kind, "unauthorized_action");
            assert_eq!(counterexample.steps[0].severity, "high");
            assert!(counterexample.steps[0].suggested_fix.contains("allowed"));
            let patch = counterexample.auto_repair_patch.expect("repair patch");
            assert_eq!(patch.kind, "replace_party");
            assert!(patch.path.ends_with(".Choice.id.party"));
        },
        other => panic!("expected authorization counterexample, got {other:?}"),
    }
}

#[test]
fn apply_auto_repair_patch_updates_timeout_continuation() {
    let contract = parse_contract_yaml(NON_CLOSE_TIMEOUT).expect("valid contract");
    let analyzed = deadline(&contract);
    let patch = match analyzed {
        CounterexampleResult::CounterexampleFound { counterexample, .. } => counterexample.auto_repair_patch.expect("patch"),
        other => panic!("expected counterexample, got {other:?}"),
    };
    let unused: Result<Party, String> = Err("no party is read for this patch".to_owned());
    let repaired = apply_auto_repair_patch(&contract, &patch, &unused).expect("patch applies");
    let rechecked = deadline(&repaired);
    assert!(matches!(rechecked, CounterexampleResult::PassBounded { .. }));
}

const TWO_OPEN_BRANCHES: &str = r#"
When:
  cases:
    - Case:
        action: { Notify: { if: { "True": {} } } }
        then:
          When:
            cases: []
            timeout: { Timeout: 5 }
            timeout_continuation: { Assert: { cond: { "True": {} }, then: { Close: {} } } }
    - Case:
        action: { Notify: { if: { "True": {} } } }
        then:
          When:
            cases: []
            timeout: { Timeout: 6 }
            timeout_continuation: { Assert: { cond: { "True": {} }, then: { Close: {} } } }
  timeout: { Timeout: 9 }
  timeout_continuation: { Close: {} }
"#;

const FIRST_BRANCH_CLOSED: &str = r#"
When:
  cases:
    - Case:
        action: { Notify: { if: { "True": {} } } }
        then:
          When:
            cases: []
            timeout: { Timeout: 5 }
            timeout_continuation: { Close: {} }
    - Case:
        action: { Notify: { if: { "True": {} } } }
        then:
          When:
            cases: []
            timeout: { Timeout: 6 }
            timeout_continuation: { Assert: { cond: { "True": {} }, then: { Close: {} } } }
  timeout: { Timeout: 9 }
  timeout_continuation: { Close: {} }
"#;

#[test]
fn deadline_repair_closes_only_the_named_continuation() {
    let contract = parse_contract_yaml(TWO_OPEN_BRANCHES).expect("valid contract");
    let patch = match deadline(&contract) {
        CounterexampleResult::CounterexampleFound { counterexample, .. } => {
            assert_eq!(counterexample.violating_path, "$.When.cases[0].Case.then.When");
            counterexample.auto_repair_patch.expect("patch")
        }
        other => panic!("expected counterexample, got {other:?}"),
    };
    assert_eq!(patch.path, "$.When.cases[0].Case.then.When.timeout_continuation");
    let unused: Result<Party, String> = Err("no party is read for this patch".to_owned());
    let repaired = apply_auto_repair_patch(&contract, &patch, &unused).expect("patch applies");
    assert_eq!(repaired, parse_contract_yaml(FIRST_BRANCH_CLOSED).expect("valid contract"));
}

const TWO_DEPOSITS: &str = r#"
When:
  cases:
    - Case:
        action:
          Deposit:
            into: { Role: "alice" }
            by: { Role: "alice" }
            token: { Token: { currency_symbol: "", token_name: "" } }
            amount: { Constant: 1 }
        then: { Close: {} }
    - Case:
        action:
          Deposit:
            into: { Role: "alice" }
            by: { Role: "eve" }
            token: { Token: { currency_symbol: "", token_name: "" } }
            amount: { Constant: 2 }
        then: { Close: {} }
  timeout: { Timeout: 7 }
  timeout_continuation: { Close: {} }
"#;

const TWO_DEPOSITS_REPAIRED: &str = r#"
When:
  cases:
    - Case:
        action:
          Deposit:
            into: { Role: "alice" }
            by: { Role: "alice" }
            token: { Token: { currency_symbol: "", token_name: "" } }
            amount: { Constant: 1 }
        then: { Close: {} }
    - Case:
        action:
          Deposit:
            into: { Role: "alice" }
            by: { Role: "alice" }
            token: { Token: { currency_symbol: "", token_name: "" } }
            amount: { Constant: 2 }
        then: { Close: {} }
  timeout: { Timeout: 7 }
  timeout_continuation: { Close: {} }
"#;

#[test]
fn authorization_repair_replaces_only_the_offending_party() {
    let contract = parse_contract_yaml(TWO_DEPOSITS).expect("valid contract");
    let rule = AuthorizationRule {
        action: AuthorizationAction::Deposit,
        target: None,
        allowed_parties: vec![Party::Role("alice".to_owned()), Party::Role("bob".to_owned())],
    };
    let patch = match analyze_authorization_safety(&contract, &CounterexampleRequest::default(), &rule) {
        CounterexampleResult::CounterexampleFound { counterexample, .. } => counterexample.auto_repair_patch.expect("patch"),
        other => panic!("expected counterexample, got {other:?}"),
    };
    assert_eq!(patch.path, "$.When.cases[1].Case.action.Deposit.by");
    let repaired = apply_auto_repair_patch(&contract, &patch, &Ok(Party::Role("alice".to_owned()))).expect("patch applies");
    assert_eq!(repaired, parse_contract_yaml(TWO_DEPOSITS_REPAIRED).expect("valid contract"));
}
