use marlowe_api::analyze::{analyze_authorization_safety, AuthorizationAction, AuthorizationRule, CounterexampleRequest, CounterexampleResult};
use marlowe_api::api::{map_state_request, AccountBalanceRequest, BigIntValue, SimulateStateRequest};
use marlowe_api::assoc::SortedMap;
use marlowe_api::ast::{Party, Token};
use marlowe_api::integer::Integer;
use marlowe_api::responses::state_to_response;
use marlowe_api::{
    contract_to_yaml_string, parse_contract_yaml, simulate_transaction, simulate_transaction_with_trace, type_check,
    SimError, SimState, SimTransaction, SimTransactionResult, TypeCheckContext,
};

fn b(n: i64) -> Integer {
    Integer::from_i64(n)
}

fn ada() -> Token {
    Token::Token { currency_symbol: "".to_owned(), token_name: "".to_owned() }
}

#[test]
fn written_contract_reads_back_the_same() {
    let yaml = r#"
When:
  cases:
    - Case:
        action:
          Choice:
            id: { ChoiceId: { name: "price", party: { Role: "oracle" } } }
            bounds: [ { Bound: { from: { Constant: -5 }, to: { Constant: 5 } } } ]
        then:
          If:
            cond: { ValueGE: [ { ValueFromChoice: { ChoiceId: { name: "price", party: { Role: "oracle" } } } }, { Constant: 0 } ] }
            then: { Close: {} }
            else: { Close: {} }
  timeout: { Timeout: 100 }
  timeout_continuation: { Close: {} }
"#;
    let contract = parse_contract_yaml(yaml).expect("parses");
    let written = contract_to_yaml_string(&contract).expect("writes");
    assert_eq!(parse_contract_yaml(&written).expect("reads back"), contract);
}

#[test]
fn a_hole_used_twice_is_listed_once() {
    let yaml = r#"
Pay:
  from: ?who
  to_party: ?who
  token: { Token: { currency_symbol: "", token_name: "" } }
  amount: { Constant: 1 }
  then: { Close: {} }
"#;
    let contract = parse_contract_yaml(yaml).expect("parses");
    let result = type_check(&contract, &TypeCheckContext::default());
    assert_eq!(result.holes.len(), 1);
    assert_eq!(result.holes[0].name, "who");
    assert!(!result.ready_to_run);
}

#[test]
fn not_ready_contract_is_refused_whatever_the_interval() {
    let contract = parse_contract_yaml("Pay:\n  from: ?p\n  to_party: { Role: \"b\" }\n  token: { Token: { currency_symbol: \"\", token_name: \"\" } }\n  amount: { Constant: 1 }\n  then: { Close: {} }\n").expect("parses");
    for (start, end) in [(0, 1), (5, 2), (-3, -1)] {
        let tx = SimTransaction { interval_start: b(start), interval_end: b(end), inputs: Vec::new() };
        assert_eq!(simulate_transaction(&contract, &SimState::default(), &tx), SimTransactionResult::Error(SimError::NotReadyToRun));
    }
}

#[test]
fn success_moves_min_time_to_interval_start_and_keeps_positive_balances() {
    let contract = parse_contract_yaml("Close: {}\n").expect("parses");
    let mut state = SimState { min_time: b(3), ..SimState::default() };
    state.accounts.insert(marlowe_api::AccountId { owner: Party::Role("a".to_owned()), token: ada() }, b(9));
    let tx = SimTransaction { interval_start: b(8), interval_end: b(20), inputs: Vec::new() };
    match simulate_transaction_with_trace(&contract, &state, &tx, false) {
        SimTransactionResult::Success(success) => {
            assert_eq!(success.state.min_time, b(8));
            assert!(success.trace.is_empty());
        },
        other => panic!("unexpected {other:?}"),
    }
}

#[test]
fn later_entry_for_the_same_account_wins() {
    let owner = Party::Role("a".to_owned());
    let request = SimulateStateRequest {
        min_time: BigIntValue::Missing,
        accounts: vec![
            AccountBalanceRequest { owner: owner.clone(), token: ada(), amount: BigIntValue::Integer(1) },
            AccountBalanceRequest { owner: owner.clone(), token: ada(), amount: BigIntValue::String("2".to_owned()) },
        ],
        choices: Vec::new(),
        bound_values: vec![("z".to_owned(), BigIntValue::Integer(1)), ("a".to_owned(), BigIntValue::Integer(2))],
    };
    let state = map_state_request(request).expect("maps");
    let response = state_to_response(&state);
    assert_eq!(response.min_time, "0");
    assert_eq!(response.accounts.len(), 1);
    assert_eq!(response.accounts[0].amount, "2");
    assert_eq!(response.bound_values, vec![("a".to_owned(), "2".to_owned()), ("z".to_owned(), "1".to_owned())]);
}

#[test]
fn sorted_map_lists_keys_in_order_and_reads_back_writes() {
    let mut m: SortedMap<String> = SortedMap::new();
    assert_eq!(m.insert("b".to_owned(), b(2)), None);
    assert_eq!(m.insert("a".to_owned(), b(1)), None);
    assert_eq!(m.insert("b".to_owned(), b(3)), Some(b(2)));
    assert_eq!(m.get(&"b".to_owned()), Some(&b(3)));
    let keys: Vec<String> = m.entries().iter().map(|e| e.0.clone()).collect();
    assert_eq!(keys, vec!["a".to_owned(), "b".to_owned()]);
    assert_eq!(m.remove(&"a".to_owned()), Some(b(1)));
    assert!(!m.contains_key(&"a".to_owned()));
}

#[test]
fn the_offending_party_is_never_an_allowed_one() {
    let contract = parse_contract_yaml(
        r#"
When:
  cases:
    - Case:
        action:
          Deposit:
            into: { Role: "alice" }
            by: { Role: "mallory" }
            token: { Token: { currency_symbol: "", token_name: "" } }
            amount: { Constant: 1 }
        then: { Close: {} }
  timeout: { Timeout: 7 }
  timeout_continuation: { Close: {} }
"#,
    )
    .expect("parses");
    let allowed = vec![Party::Role("alice".to_owned()), Party::Role("bob".to_owned())];
    let rule = AuthorizationRule { action: AuthorizationAction::Deposit, target: None, allowed_parties: allowed.clone() };
    match analyze_authorization_safety(&contract, &CounterexampleRequest::default(), &rule) {
        CounterexampleResult::CounterexampleFound { counterexample, .. } => {
            let offender = counterexample.offending_party.expect("offender");
            assert_eq!(offender, Party::Role("mallory".to_owned()));
            assert!(!allowed.contains(&offender));
        },
        other => panic!("expected a counterexample, got {other:?}"),
    }
}

const SIMPLE_PAY_YAML: &str = r#"
Pay:
  from: { Role: "alice" }
  to_party: { Role: "bob" }
  token: { Token: { currency_symbol: "", token_name: "" } }
  amount: { Constant: 10 }
  then: { Close: {} }
"#;

#[test]
fn a_parameter_payer_is_refused_at_its_place() {
    let yaml = "Pay:\n  from: \"$p\"\n  to_party: { Role: \"bob\" }\n  token: { Token: { currency_symbol: \"\", token_name: \"\" } }\n  amount: { Constant: 1 }\n  then: { Close: {} }\n";
    let error = parse_contract_yaml(yaml).expect_err("a parameter is not a party");
    assert_eq!(error.path, "$.Pay.from");
    assert_eq!(error.message, "parameter '$p' is not valid in Party position");
}

#[test]
fn a_parameter_used_as_timeout_and_value_conflicts() {
    let yaml = "When:\n  cases: []\n  timeout: \"$n\"\n  timeout_continuation:\n    Let:\n      name: \"x\"\n      value: \"$n\"\n      then: { Close: {} }\n";
    let contract = parse_contract_yaml(yaml).expect("valid yaml");
    let result = type_check(&contract, &TypeCheckContext::default());
    assert_eq!(result.errors.len(), 1);
    assert!(result.errors[0].message.starts_with("parameter 'n' has conflicting inferred types: Timeout at "));
    assert!(result.errors[0].message.contains("and Value at"));
}

fn context_knowing(accounts: bool, parties: bool, tokens: bool) -> TypeCheckContext {
    let mut context = TypeCheckContext::default();
    context.require_known_definitions = true;
    if accounts {
        context.known_accounts.push(marlowe_api::PartyRef::Role("alice".to_owned()));
    }
    if parties {
        context.known_parties.push(marlowe_api::PartyRef::Role("bob".to_owned()));
    }
    if tokens {
        context.known_tokens.push(marlowe_api::TokenRef { currency_symbol: "".to_owned(), token_name: "".to_owned() });
    }
    context
}

#[test]
fn knowing_more_never_adds_unknown_definition_errors() {
    let contract = parse_contract_yaml(SIMPLE_PAY_YAML).expect("simple contract parses");
    let unknown = |c: &TypeCheckContext| type_check(&contract, c).errors.iter().filter(|e| e.message.contains("unknown")).count();
    for mask in 0u8..8 {
        for extra in 0u8..8 {
            let wider = mask | extra;
            let narrow = context_knowing(mask & 1 != 0, mask & 2 != 0, mask & 4 != 0);
            let wide = context_knowing(wider & 1 != 0, wider & 2 != 0, wider & 4 != 0);
            assert!(unknown(&wide) <= unknown(&narrow));
        }
    }
    assert_eq!(unknown(&context_knowing(false, false, false)), 3);
    assert_eq!(unknown(&context_knowing(true, true, true)), 0);
    assert_eq!(unknown(&TypeCheckContext::default()), 0);
}

#[test]
fn a_use_value_bound_by_an_enclosing_let_is_defined() {
    let names = ["a", "b", "c"];
    let mut inner = "Pay:\n  from: { Role: \"alice\" }\n  to_party: { Role: \"bob\" }\n  token: { Token: { currency_symbol: \"\", token_name: \"\" } }\n  amount: { UseValue: \"c\" }\n  then: { Close: {} }\n".to_owned();
    for name in names.iter().rev() {
        let indented: Vec<String> = inner.lines().map(|line| format!("    {line}")).collect();
        inner = format!("Let:\n  name: \"{name}\"\n  value: {{ Constant: 1 }}\n  then:\n{}\n", indented.join("\n"));
    }
    let contract = parse_contract_yaml(&inner).expect("nested lets parse");
    let result = type_check(&contract, &TypeCheckContext::default());
    assert!(result.errors.is_empty());
    assert!(!result.errors.iter().any(|e| e.message.contains("undefined let binding")));
}

#[test]
fn a_doubled_prefix_is_literal_text_not_a_hole() {
    let error = parse_contract_yaml("\"??x\"\n").expect_err("a literal text is no contract");
    assert_eq!(error.path, "$");
    assert_eq!(error.message, "expected Contract mapping");
    let hole = parse_contract_yaml("\"?x\"\n").expect("a hole");
    assert!(matches!(hole, marlowe_api::ast::Contract::Hole(ref n) if n == "x"));
    let yaml = "Pay:\n  from: { Role: \"??bob\" }\n  to_party: { Role: \"$$carol\" }\n  token: { Token: { currency_symbol: \"\", token_name: \"\" } }\n  amount: { Constant: 1 }\n  then: { Close: {} }\n";
    match parse_contract_yaml(yaml).expect("escaped names parse") {
        marlowe_api::ast::Contract::Pay { from, to, .. } => {
            assert_eq!(from, Party::Role("?bob".to_owned()));
            assert_eq!(to, marlowe_api::ast::PayeeTarget::ToParty(Party::Role("$carol".to_owned())));
        }
        other => panic!("unexpected contract {other:?}"),
    }
}

#[test]
fn asking_for_a_trace_changes_only_the_trace() {
    let yaml = "Pay:\n  from: { Role: \"alice\" }\n  to_party: { Role: \"bob\" }\n  token: { Token: { currency_symbol: \"\", token_name: \"\" } }\n  amount: { Constant: 10 }\n  then: { Close: {} }\n";
    let contract = parse_contract_yaml(yaml).expect("parses");
    let mut state = SimState::default();
    state.accounts.insert(
        marlowe_api::AccountId { owner: Party::Role("alice".to_owned()), token: ada() },
        b(25),
    );
    let tx = SimTransaction { interval_start: b(0), interval_end: b(5), inputs: Vec::new() };
    let plain = simulate_transaction_with_trace(&contract, &state, &tx, false);
    let traced = simulate_transaction_with_trace(&contract, &state, &tx, true);
    match (plain, traced) {
        (SimTransactionResult::Success(a), SimTransactionResult::Success(b)) => {
            assert!(a.trace.is_empty());
            assert!(!b.trace.is_empty());
            assert_eq!(a.payments, b.payments);
            assert_eq!(a.warnings, b.warnings);
            assert_eq!(a.contract, b.contract);
            assert_eq!(a.state, b.state);
        }
        other => panic!("unexpected results {other:?}"),
    }
}

#[test]
fn money_is_neither_made_nor_lost() {
    let yaml = "Pay:\n  from: { Role: \"alice\" }\n  to_party: { Role: \"bob\" }\n  token: { Token: { currency_symbol: \"\", token_name: \"\" } }\n  amount: { Constant: 10 }\n  then:\n    Pay:\n      from: { Role: \"alice\" }\n      to_account: { Role: \"carol\" }\n      token: { Token: { currency_symbol: \"\", token_name: \"\" } }\n      amount: { Constant: 4 }\n      then: { When: { cases: [], timeout: { Timeout: 100 }, timeout_continuation: { Close: {} } } }\n";
    let contract = parse_contract_yaml(yaml).expect("parses");
    let mut state = SimState::default();
    state.accounts.insert(marlowe_api::AccountId { owner: Party::Role("alice".to_owned()), token: ada() }, b(25));
    let tx = SimTransaction { interval_start: b(0), interval_end: b(5), inputs: Vec::new() };
    match simulate_transaction(&contract, &state, &tx) {
        SimTransactionResult::Success(s) => {
            let held: Vec<Integer> = s.state.accounts.entries().iter().map(|(_, v)| v.duplicate()).collect();
            assert_eq!(held, vec![b(11), b(4)]);
            let paid_out: Vec<Integer> = s
                .payments
                .iter()
                .filter(|p| !matches!(p.to, marlowe_api::ast::PayeeTarget::ToAccount(_)))
                .map(|p| p.amount.duplicate())
                .collect();
            assert_eq!(paid_out, vec![b(10)]);
        }
        other => panic!("unexpected result {other:?}"),
    }
}

fn token(name: &str) -> Token {
    Token::Token { currency_symbol: "cs".to_owned(), token_name: name.to_owned() }
}

#[test]
fn money_is_kept_token_by_token() {
    let yaml = "Pay:\n  from: { Role: \"alice\" }\n  to_party: { Role: \"bob\" }\n  token: { Token: { currency_symbol: \"\", token_name: \"\" } }\n  amount: { Constant: 10 }\n  then:\n    When:\n      cases:\n        - Case:\n            action:\n              Deposit:\n                into: { Role: \"alice\" }\n                by: { Role: \"bob\" }\n                token: { Token: { currency_symbol: \"cs\", token_name: \"x\" } }\n                amount: { Constant: 3 }\n            then: { When: { cases: [], timeout: { Timeout: 100 }, timeout_continuation: { Close: {} } } }\n      timeout: { Timeout: 100 }\n      timeout_continuation: { Close: {} }\n";
    let contract = parse_contract_yaml(yaml).expect("parses");
    let alice = Party::Role("alice".to_owned());
    let mut state = SimState::default();
    state.accounts.insert(marlowe_api::AccountId { owner: alice.clone(), token: ada() }, b(25));
    state.accounts.insert(marlowe_api::AccountId { owner: alice.clone(), token: token("x") }, b(7));
    let deposit = marlowe_api::SimInput::Deposit { into: alice.clone(), by: Party::Role("bob".to_owned()), token: token("x"), amount: b(3) };
    let tx = SimTransaction { interval_start: b(0), interval_end: b(5), inputs: vec![deposit] };
    match simulate_transaction(&contract, &state, &tx) {
        SimTransactionResult::Success(s) => {
            let ada_key = marlowe_api::AccountId { owner: alice.clone(), token: ada() };
            let x_key = marlowe_api::AccountId { owner: alice.clone(), token: token("x") };
            let held_ada = s.state.accounts.entries().iter().find(|(k, _)| *k == ada_key).map(|(_, v)| v.duplicate());
            let held_x = s.state.accounts.entries().iter().find(|(k, _)| *k == x_key).map(|(_, v)| v.duplicate());
            // 25 ada before = 15 held + 10 paid to bob; 7 x before + 3 deposited = 10 held.
            assert_eq!(held_ada, Some(b(15)));
            assert_eq!(held_x, Some(b(10)));
            assert_eq!(s.payments.len(), 1);
            assert_eq!(s.payments[0].token, ada());
            assert_eq!(s.payments[0].amount, b(10));
        }
        other => panic!("unexpected result {other:?}"),
    }
}

#[test]
fn a_successful_transaction_leaves_close_with_no_accounts_or_a_later_when() {
    let closing = parse_contract_yaml("Close: {}\n").expect("parses");
    let mut state = SimState::default();
    state.accounts.insert(marlowe_api::AccountId { owner: Party::Role("a".to_owned()), token: ada() }, b(9));
    state.accounts.insert(marlowe_api::AccountId { owner: Party::Role("b".to_owned()), token: token("x") }, b(2));
    let tx = SimTransaction { interval_start: b(0), interval_end: b(5), inputs: Vec::new() };
    match simulate_transaction(&closing, &state, &tx) {
        SimTransactionResult::Success(s) => {
            assert_eq!(s.contract, closing);
            assert!(s.state.accounts.entries().is_empty());
            assert_eq!(s.payments.len(), 2);
        }
        other => panic!("unexpected result {other:?}"),
    }
    let waiting = parse_contract_yaml(
        "When:\n  cases: []\n  timeout: { Timeout: 3 }\n  timeout_continuation: { When: { cases: [], timeout: { Timeout: 50 }, timeout_continuation: { Close: {} } } }\n",
    )
    .expect("parses");
    let tx = SimTransaction { interval_start: b(4), interval_end: b(10), inputs: Vec::new() };
    match simulate_transaction(&waiting, &SimState::default(), &tx) {
        SimTransactionResult::Success(s) => match s.contract {
            marlowe_api::ast::Contract::When { timeout: marlowe_api::ast::Timeout::PosixTime(t), .. } => {
                assert_eq!(t, b(50));
            }
            other => panic!("unexpected contract {other:?}"),
        },
        other => panic!("unexpected result {other:?}"),
    }
}
