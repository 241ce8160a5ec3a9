//! The command-line tool's decisions: how its inputs become the library's
//! values, what each command reports, and the exit code it ends with.
use crate::analysis_service::{
    party_read, solver_answered, step_outcome,
    analysis_success_is, analysis_success_response, authorization_analysis, deadline_analysis, rule_view,
    run_counterexample_analysis, AnalyzeCounterexampleSuccessResponse, AnalyzeCounterexampleWitnessResponse,
};
use crate::analyze::{
    SolverReply, WitnessRequest,
    analyze_deadline_safety, apply_auto_repair_patch, json_string, json_string_text, replacement_view, repaired,
    text_option_view, AuthorizationAction, AuthorizationRuleV, AutoRepairPatch, AutoRepairPatchV, CounterexampleRequest,
    CounterexampleResult, CounterexampleResultV, DeadlineStep, DeadlineStepV,
};
use crate::api::{
    choice_refs_from_request, choice_refs_of, party_refs_from_request, party_refs_of, token_refs_from_request,
    token_refs_of, AnalyzePropertyRequest, AuthorizationActionRequest, AuthorizationRuleRequest, ContextMapError,
    ContextMapErrorV, TypecheckExplainContextRequest,
};
use crate::assoc::SortedMap;
use crate::ast::{ChoiceId, ChoiceIdV, Contract, ContractV, Party, PartyV, PayeeTarget, PayeeTargetV, Token, TokenV};
use crate::integer::{decimal_integer, int_decimal, nat_decimal, Integer};
use crate::keys::{AccountId, AccountIdV};
use crate::parser::{join2, join3, parse_contract_yaml, read_contract_document};
use crate::service::{
    blocking_items, explained_warnings_is, blocking_is, hole_message, hole_message_text, param_message,
    param_message_text, parse_error_message, payment_option_is, sim_error_code, sim_error_code_text, sim_error_message,
    sim_error_message_text, sim_error_path, sim_error_path_text, warning_items, TypecheckExplainItemResponse,
    TypecheckExplainSummaryResponse,
};
use crate::sim::{
    preview_inputs, preview_spec, ready_to_run, simulate_spec, simulate_transaction_with_trace, warning_option_view, PreviewInput,
    PreviewInputV, SimError, SimErrorV, SimInput, SimState, SimStateV, SimTransaction, SimTransactionResult,
    SimTransactionResultV, SimTransactionSuccessV, SimTransactionV, TraceStep, TraceStepV, TransactionWarning,
    TransactionWarningV,
};
use crate::responses::{
    bounds_response_is, payment_to_response, state_response_is, state_to_response, trace_input_response_is,
    trace_input_to_response, trace_rule_name, trace_rule_text, PaymentResponse, PreviewBoundResponse, StateResponse,
    TraceInputResponse, TraceStateDeltaResponse,
};
use crate::serializer::{contract_to_yaml_string, write_contract};
use crate::text::usize_decimal;
use crate::yaml::yaml_text;
use crate::typecheck::{type_check, type_check_result_is, ContextV, TypeCheckContext, TypeCheckResult, TypeCheckResultV};
use vstd::prelude::*;

verus! {

/// The tool's exit codes.
#[derive(Debug, Clone, Copy, PartialEq, Eq, Structural)]
pub enum ExitCodeNum {
    Success,
    Internal,
    ValidationBlocking,
    SimulationError,
    CounterexampleFound,
    NoDeterministicRepair,
    StrictWarningGate,
}

pub open spec fn exit_number(e: ExitCodeNum) -> int {
    match e {
        ExitCodeNum::Success => 0,
        ExitCodeNum::Internal => 1,
        ExitCodeNum::ValidationBlocking => 2,
        ExitCodeNum::SimulationError => 3,
        ExitCodeNum::CounterexampleFound => 4,
        ExitCodeNum::NoDeterministicRepair => 5,
        ExitCodeNum::StrictWarningGate => 6,
    }
}

impl ExitCodeNum {
    /// The process exit code.
    pub fn code(self) -> (r: i32)
        ensures
            r == exit_number(self),
    {
        match self {
            ExitCodeNum::Success => 0,
            ExitCodeNum::Internal => 1,
            ExitCodeNum::ValidationBlocking => 2,
            ExitCodeNum::SimulationError => 3,
            ExitCodeNum::CounterexampleFound => 4,
            ExitCodeNum::NoDeterministicRepair => 5,
            ExitCodeNum::StrictWarningGate => 6,
        }
    }
}

/// What kind of failure a command reports.
#[derive(Debug, Clone, Copy, PartialEq, Eq, Structural)]
pub enum ErrorKind {
    Validation,
    Simulation,
    Analysis,
    Io,
    Internal,
}

/// A command's failure: its kind and code, a message, details, and the
/// exit code it ends with.
#[derive(Debug, PartialEq, Eq)]
pub struct Failure {
    pub kind: ErrorKind,
    pub code: String,
    pub message: String,
    pub details: Vec<(String, String)>,
    pub exit_code: ExitCodeNum,
}

pub struct FailureV {
    pub kind: ErrorKind,
    pub code: Seq<char>,
    pub message: Seq<char>,
    pub details: Seq<(Seq<char>, Seq<char>)>,
    pub exit_code: ExitCodeNum,
}

impl View for Failure {
    type V = FailureV;

    open spec fn view(&self) -> FailureV {
        FailureV {
            kind: self.kind,
            code: self.code@,
            message: self.message@,
            details: self.details@.map_values(|d: (String, String)| (d.0@, d.1@)),
            exit_code: self.exit_code,
        }
    }
}

pub open spec fn failure_of(kind: ErrorKind, code: Seq<char>, message: Seq<char>, details: Seq<(Seq<char>, Seq<char>)>, exit_code: ExitCodeNum) -> FailureV {
    FailureV { kind, code, message, details, exit_code }
}

pub fn fail(kind: ErrorKind, code: &str, message: String, exit_code: ExitCodeNum) -> (r: Failure)
    ensures
        r@ == failure_of(kind, code@, message@, seq![], exit_code),
{
    let r = Failure { kind, code: String::from_str(code), message, details: Vec::new(), exit_code };
    assert(r@.details =~= seq![]);
    r
}

pub fn fail_with_detail(kind: ErrorKind, code: &str, message: String, detail_key: &str, detail_value: String, exit_code: ExitCodeNum) -> (r: Failure)
    ensures
        r@ == failure_of(kind, code@, message@, seq![(detail_key@, detail_value@)], exit_code),
{
    let mut details: Vec<(String, String)> = Vec::new();
    details.push((String::from_str(detail_key), detail_value));
    let r = Failure { kind, code: String::from_str(code), message, details, exit_code };
    assert(r@.details =~= seq![(detail_key@, detail_value@)]);
    r
}

/// A decimal integer of the command line, or the failure naming its field.
pub open spec fn bigint_spec(value: Seq<char>, field_name: Seq<char>) -> Result<int, FailureV> {
    match decimal_integer(value) {
        Some(n) => Ok(n),
        None => Err(
            failure_of(
                ErrorKind::Validation,
                "InvalidInteger"@,
                "invalid integer '"@ + value + "'"@,
                seq![("field"@, field_name)],
                ExitCodeNum::ValidationBlocking,
            ),
        ),
    }
}

pub fn parse_bigint(value: &str, field_name: &str) -> (r: Result<Integer, Failure>)
    ensures
        match r {
            Ok(v) => bigint_spec(value@, field_name@) == Ok::<int, FailureV>(v@),
            Err(f) => bigint_spec(value@, field_name@) == Err::<int, FailureV>(f@),
        },
{
    match Integer::parse_decimal(value) {
        Some(v) => Ok(v),
        None => Err(
            fail_with_detail(
                ErrorKind::Validation,
                "InvalidInteger",
                join3("invalid integer '", value, "'"),
                "field",
                String::from_str(field_name),
                ExitCodeNum::ValidationBlocking,
            ),
        ),
    }
}

/// A state file's account.
#[derive(Debug, PartialEq, Eq)]
pub struct AccountBalanceFile {
    pub owner: Party,
    pub token: Token,
    pub amount: String,
}

/// A state file's choice.
#[derive(Debug, PartialEq, Eq)]
pub struct ChoiceValueFile {
    pub id: ChoiceId,
    pub value: String,
}

/// A state file; bound values in key order, and an empty minimum time
/// standing for zero.
#[derive(Debug, PartialEq, Eq)]
pub struct StateFile {
    pub min_time: String,
    pub accounts: Vec<AccountBalanceFile>,
    pub choices: Vec<ChoiceValueFile>,
    pub bound_values: Vec<(String, String)>,
}

/// Keyed decimal texts read in order, each named by `field` when it fails;
/// a later key replaces an earlier equal one.
pub open spec fn texts_to_map<K>(entries: Seq<(K, Seq<char>)>, field: Seq<char>) -> Result<Map<K, int>, FailureV>
    decreases entries.len(),
{
    if entries.len() == 0 {
        Ok(Map::empty())
    } else {
        match texts_to_map(entries.drop_last(), field) {
            Err(e) => Err(e),
            Ok(m) => match bigint_spec(entries.last().1, field) {
                Err(e) => Err(e),
                Ok(v) => Ok(m.insert(entries.last().0, v)),
            },
        }
    }
}

proof fn lemma_texts_to_map_err<K>(s: Seq<(K, Seq<char>)>, field: Seq<char>, k: int, e: FailureV)
    requires
        0 <= k <= s.len(),
        texts_to_map(s.subrange(0, k), field) == Err::<Map<K, int>, FailureV>(e),
    ensures
        texts_to_map(s, field) == Err::<Map<K, int>, FailureV>(e),
    decreases s.len() - k,
{
    if k < s.len() {
        assert(s.subrange(0, k + 1).drop_last() =~= s.subrange(0, k));
        lemma_texts_to_map_err(s, field, k + 1, e);
    } else {
        assert(s.subrange(0, k) =~= s);
    }
}

pub open spec fn file_accounts(a: Seq<AccountBalanceFile>) -> Seq<(AccountIdV, Seq<char>)> {
    a.map_values(|x: AccountBalanceFile| (AccountIdV { owner: x.owner@, token: x.token@ }, x.amount@))
}

pub open spec fn file_choices(c: Seq<ChoiceValueFile>) -> Seq<(ChoiceIdV, Seq<char>)> {
    c.map_values(|x: ChoiceValueFile| (x.id@, x.value@))
}

pub open spec fn file_bound_values(b: Seq<(String, String)>) -> Seq<(Seq<char>, Seq<char>)> {
    b.map_values(|x: (String, String)| (x.0@, x.1@))
}

/// The state a state file describes: the minimum time first, then the
/// accounts, the choices and the bound values.
pub open spec fn state_file_spec(f: StateFile) -> Result<SimStateV, FailureV> {
    match (if f.min_time@.len() == 0 { Ok(0int) } else { bigint_spec(f.min_time@, "state.min_time"@) }) {
        Err(e) => Err(e),
        Ok(min_time) => match texts_to_map(file_accounts(f.accounts@), "state.accounts[].amount"@) {
            Err(e) => Err(e),
            Ok(accounts) => match texts_to_map(file_choices(f.choices@), "state.choices[].value"@) {
                Err(e) => Err(e),
                Ok(choices) => match texts_to_map(file_bound_values(f.bound_values@), "state.bound_values"@) {
                    Err(e) => Err(e),
                    Ok(bound_values) => Ok(SimStateV { accounts, choices, bound_values, min_time }),
                },
            },
        },
    }
}

fn file_accounts_map(accounts: &Vec<AccountBalanceFile>) -> (r: Result<SortedMap<AccountId>, Failure>)
    ensures
        match r {
            Ok(m) => texts_to_map(file_accounts(accounts@), "state.accounts[].amount"@) == Ok::<Map<AccountIdV, int>, FailureV>(m@),
            Err(e) => texts_to_map(file_accounts(accounts@), "state.accounts[].amount"@) == Err::<Map<AccountIdV, int>, FailureV>(e@),
        },
{
    let ghost s = file_accounts(accounts@);
    let ghost field = "state.accounts[].amount"@;
    let mut m: SortedMap<AccountId> = SortedMap::new();
    let mut i: usize = 0;
    assert(s.subrange(0, 0) =~= Seq::<(AccountIdV, Seq<char>)>::empty());
    while i < accounts.len()
        invariant
            s == file_accounts(accounts@),
            field == "state.accounts[].amount"@,
            i <= accounts@.len(),
            texts_to_map(s.subrange(0, i as int), field) == Ok::<Map<AccountIdV, int>, FailureV>(m@),
        decreases accounts@.len() - i,
    {
        let a = &accounts[i];
        assert(s.subrange(0, i + 1).drop_last() =~= s.subrange(0, i as int));
        assert(s.subrange(0, i + 1).last() == s[i as int]);
        match parse_bigint(a.amount.as_str(), "state.accounts[].amount") {
            Ok(v) => {
                m.insert(AccountId { owner: a.owner.duplicate(), token: a.token.duplicate() }, v);
            },
            Err(e) => {
                proof { lemma_texts_to_map_err(s, field, i + 1, e@); }
                return Err(e);
            },
        }
        i = i + 1;
    }
    assert(s.subrange(0, i as int) =~= s);
    Ok(m)
}

fn file_choices_map(choices: &Vec<ChoiceValueFile>) -> (r: Result<SortedMap<ChoiceId>, Failure>)
    ensures
        match r {
            Ok(m) => texts_to_map(file_choices(choices@), "state.choices[].value"@) == Ok::<Map<ChoiceIdV, int>, FailureV>(m@),
            Err(e) => texts_to_map(file_choices(choices@), "state.choices[].value"@) == Err::<Map<ChoiceIdV, int>, FailureV>(e@),
        },
{
    let ghost s = file_choices(choices@);
    let ghost field = "state.choices[].value"@;
    let mut m: SortedMap<ChoiceId> = SortedMap::new();
    let mut i: usize = 0;
    assert(s.subrange(0, 0) =~= Seq::<(ChoiceIdV, Seq<char>)>::empty());
    while i < choices.len()
        invariant
            s == file_choices(choices@),
            field == "state.choices[].value"@,
            i <= choices@.len(),
            texts_to_map(s.subrange(0, i as int), field) == Ok::<Map<ChoiceIdV, int>, FailureV>(m@),
        decreases choices@.len() - i,
    {
        let c = &choices[i];
        assert(s.subrange(0, i + 1).drop_last() =~= s.subrange(0, i as int));
        assert(s.subrange(0, i + 1).last() == s[i as int]);
        match parse_bigint(c.value.as_str(), "state.choices[].value") {
            Ok(v) => {
                m.insert(c.id.duplicate(), v);
            },
            Err(e) => {
                proof { lemma_texts_to_map_err(s, field, i + 1, e@); }
                return Err(e);
            },
        }
        i = i + 1;
    }
    assert(s.subrange(0, i as int) =~= s);
    Ok(m)
}

fn file_bound_values_map(values: &Vec<(String, String)>) -> (r: Result<SortedMap<String>, Failure>)
    ensures
        match r {
            Ok(m) => texts_to_map(file_bound_values(values@), "state.bound_values"@) == Ok::<Map<Seq<char>, int>, FailureV>(m@),
            Err(e) => texts_to_map(file_bound_values(values@), "state.bound_values"@) == Err::<Map<Seq<char>, int>, FailureV>(e@),
        },
{
    let ghost s = file_bound_values(values@);
    let ghost field = "state.bound_values"@;
    let mut m: SortedMap<String> = SortedMap::new();
    let mut i: usize = 0;
    assert(s.subrange(0, 0) =~= Seq::<(Seq<char>, Seq<char>)>::empty());
    while i < values.len()
        invariant
            s == file_bound_values(values@),
            field == "state.bound_values"@,
            i <= values@.len(),
            texts_to_map(s.subrange(0, i as int), field) == Ok::<Map<Seq<char>, int>, FailureV>(m@),
        decreases values@.len() - i,
    {
        let b = &values[i];
        assert(s.subrange(0, i + 1).drop_last() =~= s.subrange(0, i as int));
        assert(s.subrange(0, i + 1).last() == s[i as int]);
        match parse_bigint(b.1.as_str(), "state.bound_values") {
            Ok(v) => {
                m.insert(b.0.clone(), v);
            },
            Err(e) => {
                proof { lemma_texts_to_map_err(s, field, i + 1, e@); }
                return Err(e);
            },
        }
        i = i + 1;
    }
    assert(s.subrange(0, i as int) =~= s);
    Ok(m)
}

/// The simulation state a state file describes.
pub fn map_state_file(file: StateFile) -> (r: Result<SimState, Failure>)
    ensures
        match r {
            Ok(s) => state_file_spec(file) == Ok::<SimStateV, FailureV>(s@),
            Err(e) => state_file_spec(file) == Err::<SimStateV, FailureV>(e@),
        },
{
    let min_time = if file.min_time.unicode_len() == 0 {
        Integer::zero()
    } else {
        parse_bigint(file.min_time.as_str(), "state.min_time")?
    };
    let accounts = file_accounts_map(&file.accounts)?;
    let choices = file_choices_map(&file.choices)?;
    let bound_values = file_bound_values_map(&file.bound_values)?;
    Ok(SimState { accounts, choices, bound_values, min_time })
}

/// The context the tool's flags describe: as for the service, but each
/// definition is found at `known_accounts[i]` and so on.
pub open spec fn cli_context_spec(r: TypecheckExplainContextRequest) -> Result<ContextV, ContextMapErrorV> {
    match party_refs_of(r.known_accounts@, "known_accounts"@) {
        Err(e) => Err(e),
        Ok(known_accounts) => match party_refs_of(r.known_parties@, "known_parties"@) {
            Err(e) => Err(e),
            Ok(known_parties) => match token_refs_of(r.known_tokens@, "known_tokens"@) {
                Err(e) => Err(e),
                Ok(known_tokens) => match choice_refs_of(r.known_choices@, "known_choices"@) {
                    Err(e) => Err(e),
                    Ok(known_choices) => Ok(ContextV {
                        known_accounts,
                        known_parties,
                        known_tokens,
                        known_choices,
                        require_known_definitions: r.require_known_definitions,
                    }),
                },
            },
        },
    }
}

pub open spec fn context_failure(e: ContextMapErrorV) -> FailureV {
    failure_of(ErrorKind::Validation, "ContextError"@, e.message, seq![("path"@, e.path)], ExitCodeNum::ValidationBlocking)
}

fn context_failure_of(e: ContextMapError) -> (r: Failure)
    ensures
        r@ == context_failure(e@),
{
    fail_with_detail(ErrorKind::Validation, "ContextError", e.message, "path", e.path, ExitCodeNum::ValidationBlocking)
}

/// The type-checking context of the tool's flags.
pub fn map_context_flags(flags: &TypecheckExplainContextRequest) -> (r: Result<TypeCheckContext, Failure>)
    ensures
        match r {
            Ok(c) => cli_context_spec(*flags) == Ok::<ContextV, ContextMapErrorV>(c@),
            Err(f) => cli_context_spec(*flags) matches Err(e) && f@ == context_failure(e),
        },
{
    proof {
        reveal_strlit("known_accounts");
        reveal_strlit("known_parties");
        reveal_strlit("known_tokens");
        reveal_strlit("known_choices");
    }
    let known_accounts = match party_refs_from_request(&flags.known_accounts, "known_accounts") {
        Ok(v) => v,
        Err(e) => return Err(context_failure_of(e)),
    };
    let known_parties = match party_refs_from_request(&flags.known_parties, "known_parties") {
        Ok(v) => v,
        Err(e) => return Err(context_failure_of(e)),
    };
    let known_tokens = match token_refs_from_request(&flags.known_tokens, "known_tokens") {
        Ok(v) => v,
        Err(e) => return Err(context_failure_of(e)),
    };
    let known_choices = match choice_refs_from_request(&flags.known_choices, "known_choices") {
        Ok(v) => v,
        Err(e) => return Err(context_failure_of(e)),
    };
    Ok(TypeCheckContext {
        known_accounts,
        known_parties,
        known_tokens,
        known_choices,
        require_known_definitions: flags.require_known_definitions,
    })
}

/// A diagnostic of `validate`.
#[derive(Debug, PartialEq, Eq)]
pub struct ValidationDiagnostic {
    pub message: String,
    pub path: String,
    pub code: String,
}

/// What `validate` reports.
#[derive(Debug, PartialEq, Eq)]
pub struct ValidateResult {
    pub valid: bool,
    pub ready_to_run: bool,
    pub summary: TypecheckExplainSummaryResponse,
    pub blocking: Vec<TypecheckExplainItemResponse>,
    pub warnings: Vec<TypecheckExplainItemResponse>,
    pub diagnostics: Vec<ValidationDiagnostic>,
}

pub open spec fn diagnostic_line_is(d: ValidationDiagnostic, message: Seq<char>, path: Seq<char>, code: Seq<char>) -> bool {
    d.message@ == message && d.path@ == path && d.code@ == code
}

/// One diagnostic per type error, unresolved hole and unresolved parameter.
pub open spec fn cli_diagnostics_is(d: Seq<ValidationDiagnostic>, tc: TypeCheckResultV) -> bool {
    let e = tc.errors.len();
    let h = tc.holes.len();
    &&& d.len() == e + h + tc.params.len()
    &&& forall|i: int| 0 <= i < e ==> diagnostic_line_is(#[trigger] d[i], tc.errors[i].message, tc.errors[i].path, "TypeError"@)
    &&& forall|i: int| 0 <= i < h ==> diagnostic_line_is(#[trigger] d[e + i], hole_message(tc.holes[i]), tc.holes[i].path, "HoleUnresolved"@)
    &&& forall|i: int|
        0 <= i < tc.params.len() ==> diagnostic_line_is(#[trigger] d[e + h + i], param_message(tc.params[i]), tc.params[i].path, "ParamUnresolved"@)
}

/// The report of a type check: valid when nothing blocks the contract.
pub open spec fn validate_result_is(r: ValidateResult, tc: TypeCheckResultV) -> bool {
    &&& r.valid == (r.blocking@.len() == 0)
    &&& r.ready_to_run == tc.ready_to_run
    &&& blocking_is(r.blocking@, tc)
    &&& explained_warnings_is(r.warnings@, tc)
    &&& cli_diagnostics_is(r.diagnostics@, tc)
    &&& r.summary.blocking_count == r.blocking@.len()
    &&& r.summary.warning_count == r.warnings@.len()
    &&& r.summary.error_count == tc.errors.len()
    &&& r.summary.hole_count == tc.holes.len()
    &&& r.summary.param_count == tc.params.len()
}

/// Blocking problems end with `ValidationBlocking`; under `strict`,
/// warnings alone end with `StrictWarningGate`.
pub open spec fn validate_exit(r: ValidateResult, strict: bool) -> ExitCodeNum {
    if !r.valid {
        ExitCodeNum::ValidationBlocking
    } else if strict && r.summary.warning_count > 0 {
        ExitCodeNum::StrictWarningGate
    } else {
        ExitCodeNum::Success
    }
}

fn cli_diagnostics(validation: &TypeCheckResult) -> (r: Vec<ValidationDiagnostic>)
    ensures
        cli_diagnostics_is(r@, validation@),
{
    let ghost tc = validation@;
    let mut d: Vec<ValidationDiagnostic> = Vec::new();
    let mut i: usize = 0;
    while i < validation.errors.len()
        invariant
            tc == validation@,
            i <= tc.errors.len(),
            d@.len() == i,
            forall|j: int| 0 <= j < i ==> diagnostic_line_is(#[trigger] d@[j], tc.errors[j].message, tc.errors[j].path, "TypeError"@),
        decreases tc.errors.len() - i,
    {
        let e = &validation.errors[i];
        assert(tc.errors[i as int] == e@);
        d.push(ValidationDiagnostic { message: e.message.clone(), path: e.path.clone(), code: String::from_str("TypeError") });
        i = i + 1;
    }
    let ne = validation.errors.len();
    let mut i: usize = 0;
    while i < validation.holes.len()
        invariant
            tc == validation@,
            ne == tc.errors.len(),
            i <= tc.holes.len(),
            d@.len() == ne + i,
            forall|j: int| 0 <= j < ne ==> diagnostic_line_is(#[trigger] d@[j], tc.errors[j].message, tc.errors[j].path, "TypeError"@),
            forall|j: int|
                0 <= j < i ==> diagnostic_line_is(#[trigger] d@[ne + j], hole_message(tc.holes[j]), tc.holes[j].path, "HoleUnresolved"@),
        decreases tc.holes.len() - i,
    {
        let h = &validation.holes[i];
        assert(tc.holes[i as int] == h@);
        let line = ValidationDiagnostic { message: hole_message_text(h), path: h.path.clone(), code: String::from_str("HoleUnresolved") };
        d.push(line);
        assert(d@[ne + i as int] == line);
        i = i + 1;
    }
    let nh = validation.holes.len();
    let mut i: usize = 0;
    while i < validation.params.len()
        invariant
            tc == validation@,
            ne == tc.errors.len(),
            nh == tc.holes.len(),
            i <= tc.params.len(),
            d@.len() == ne + nh + i,
            forall|j: int| 0 <= j < ne ==> diagnostic_line_is(#[trigger] d@[j], tc.errors[j].message, tc.errors[j].path, "TypeError"@),
            forall|j: int|
                0 <= j < nh ==> diagnostic_line_is(#[trigger] d@[ne + j], hole_message(tc.holes[j]), tc.holes[j].path, "HoleUnresolved"@),
            forall|j: int|
                0 <= j < i ==> diagnostic_line_is(
                    #[trigger] d@[ne + nh + j],
                    param_message(tc.params[j]),
                    tc.params[j].path,
                    "ParamUnresolved"@,
                ),
        decreases tc.params.len() - i,
    {
        let p = &validation.params[i];
        assert(tc.params[i as int] == p@);
        let line = ValidationDiagnostic { message: param_message_text(p), path: p.path.clone(), code: String::from_str("ParamUnresolved") };
        d.push(line);
        assert(d@[ne + nh + i as int] == line);
        i = i + 1;
    }
    d
}

/// The report of a type check, and the exit code it ends with.
pub fn validate_report(validation: &TypeCheckResult, strict: bool) -> (r: (ExitCodeNum, ValidateResult))
    ensures
        validate_result_is(r.1, validation@),
        r.0 == validate_exit(r.1, strict),
{
    let blocking = blocking_items(validation);
    let warnings = warning_items(validation);
    let diagnostics = cli_diagnostics(validation);
    let result = ValidateResult {
        valid: blocking.len() == 0,
        ready_to_run: validation.ready_to_run,
        summary: TypecheckExplainSummaryResponse {
            blocking_count: blocking.len(),
            warning_count: warnings.len(),
            error_count: validation.errors.len(),
            hole_count: validation.holes.len(),
            param_count: validation.params.len(),
        },
        blocking,
        warnings,
        diagnostics,
    };
    let exit_code = if !result.valid {
        ExitCodeNum::ValidationBlocking
    } else if strict && result.summary.warning_count > 0 {
        ExitCodeNum::StrictWarningGate
    } else {
        ExitCodeNum::Success
    };
    (exit_code, result)
}

pub open spec fn parse_failure(e: crate::parser::ParseErrorV) -> FailureV {
    failure_of(ErrorKind::Validation, "ParseError"@, parse_error_message(e), seq![], ExitCodeNum::ValidationBlocking)
}

/// Reads a contract the way every command does.
pub fn read_contract(contract_yaml: &str) -> (r: Result<Contract, Failure>)
    ensures
        match r {
            Ok(c) => read_contract_document(contract_yaml@) == Ok::<ContractV, crate::parser::ParseErrorV>(c@),
            Err(f) => read_contract_document(contract_yaml@) matches Err(e) && f@ == parse_failure(e),
        },
{
    match parse_contract_yaml(contract_yaml) {
        Ok(c) => Ok(c),
        Err(err) => Err(
            fail(
                ErrorKind::Validation,
                "ParseError",
                join3(err.path.as_str(), ": ", err.message.as_str()),
                ExitCodeNum::ValidationBlocking,
            ),
        ),
    }
}

/// `validate`: the contract is read first, then the context flags (already
/// read as JSON, or the failure of reading them), then the contract is
/// type-checked against the context.
pub open spec fn validate_is(r: Result<(ExitCodeNum, ValidateResult), Failure>, text: Seq<char>, flags: Result<TypecheckExplainContextRequest, Failure>, strict: bool) -> bool {
    match read_contract_document(text) {
        Err(e) => r matches Err(f) && f@ == parse_failure(e),
        Ok(c) => match flags {
            Err(f0) => r matches Err(f) && f@ == f0@,
            Ok(fl) => match cli_context_spec(fl) {
                Err(e) => r matches Err(f) && f@ == context_failure(e),
                Ok(ctx) => r matches Ok((code, res)) && code == validate_exit(res, strict) && exists|tc: TypeCheckResultV|
                    #[trigger] type_check_result_is(tc, ctx, c) && validate_result_is(res, tc),
            },
        },
    }
}

pub fn run_validate(contract_yaml: &str, flags: Result<TypecheckExplainContextRequest, Failure>, strict: bool) -> (r: Result<(ExitCodeNum, ValidateResult), Failure>)
    ensures
        validate_is(r, contract_yaml@, flags, strict),
{
    let ghost flags_in = flags;
    let contract = read_contract(contract_yaml)?;
    let flags = flags?;
    let context = map_context_flags(&flags)?;
    let validation = type_check(&contract, &context);
    let (code, result) = validate_report(&validation, strict);
    let ghost ctx = cli_context_spec(flags)->Ok_0;
    let ghost c = read_contract_document(contract_yaml@)->Ok_0;
    assert(ctx == context@ && c == contract@);
    assert(type_check_result_is(validation@, ctx, c));
    assert(exists|tc: TypeCheckResultV| #[trigger] type_check_result_is(tc, ctx, c) && validate_result_is(result, tc));
    Ok((code, result))
}

/// A JSON value as the tool reads it; an object's entries are distinct keys
/// in the order JSON objects keep them.
#[derive(Debug, PartialEq, Eq)]
pub enum JsonValue {
    Null,
    Bool(bool),
    Number(String),
    String(String),
    Array(Vec<JsonValue>),
    Object(Vec<(String, JsonValue)>),
}

/// The value of the first entry named `key`.
pub open spec fn json_field(entries: Seq<(String, JsonValue)>, key: Seq<char>) -> Option<JsonValue>
    decreases entries.len(),
{
    if entries.len() == 0 {
        None
    } else if entries[0].0@ == key {
        Some(entries[0].1)
    } else {
        json_field(entries.drop_first(), key)
    }
}

proof fn lemma_json_field_first(e: Seq<(String, JsonValue)>, key: Seq<char>, i: int)
    requires
        0 <= i < e.len(),
        e[i].0@ == key,
        forall|j: int| 0 <= j < i ==> e[j].0@ != key,
    ensures
        json_field(e, key) == Some(e[i].1),
    decreases i,
{
    if i > 0 {
        assert(e.drop_first()[i - 1] == e[i]);
        lemma_json_field_first(e.drop_first(), key, i - 1);
    }
}

proof fn lemma_json_field_none(e: Seq<(String, JsonValue)>, key: Seq<char>)
    requires
        forall|j: int| 0 <= j < e.len() ==> e[j].0@ != key,
    ensures
        json_field(e, key) is None,
    decreases e.len(),
{
    if e.len() > 0 {
        lemma_json_field_none(e.drop_first(), key);
    }
}

proof fn lemma_json_field_remove(e: Seq<(String, JsonValue)>, i: int, key: Seq<char>)
    requires
        0 <= i < e.len(),
        e[i].0@ != key,
    ensures
        json_field(e.remove(i), key) == json_field(e, key),
    decreases i,
{
    if i == 0 {
        assert(e.remove(0) =~= e.drop_first());
    } else {
        assert(e.remove(i)[0] == e[0]);
        assert(e.remove(i).drop_first() =~= e.drop_first().remove(i - 1));
        lemma_json_field_remove(e.drop_first(), i - 1, key);
    }
}

/// Takes out the first entry named `key`; the other keys read as before.
fn take_field(entries: &mut Vec<(String, JsonValue)>, key: &str) -> (r: Option<JsonValue>)
    ensures
        r == json_field(old(entries)@, key@),
        forall|k: Seq<char>| k != key@ ==> json_field(final(entries)@, k) == json_field(old(entries)@, k),
{
    let ghost e = entries@;
    let mut i: usize = 0;
    while i < entries.len()
        invariant
            e == entries@,
            e == old(entries)@,
            i <= e.len(),
            forall|j: int| 0 <= j < i ==> e[j].0@ != key@,
        decreases e.len() - i,
    {
        if crate::text::same_text(entries[i].0.as_str(), key) {
            proof { lemma_json_field_first(e, key@, i as int); }
            let (_, v) = entries.remove(i);
            proof {
                assert forall|k: Seq<char>| k != key@ implies json_field(entries@, k) == json_field(e, k) by {
                    lemma_json_field_remove(e, i as int, k);
                }
            }
            return Some(v);
        }
        i = i + 1;
    }
    proof { lemma_json_field_none(e, key@); }
    None
}

/// The value of the first entry named `key`, not taken.
fn has_field(entries: &Vec<(String, JsonValue)>, key: &str) -> (r: bool)
    ensures
        r == (json_field(entries@, key@) is Some),
{
    let mut i: usize = 0;
    while i < entries.len()
        invariant
            i <= entries@.len(),
            forall|j: int| 0 <= j < i ==> entries@[j].0@ != key@,
        decreases entries@.len() - i,
    {
        if crate::text::same_text(entries[i].0.as_str(), key) {
            proof { lemma_json_field_first(entries@, key@, i as int); }
            return true;
        }
        i = i + 1;
    }
    proof { lemma_json_field_none(entries@, key@); }
    false
}

/// How a step's input is written, with what is still to be read of it.
#[derive(Debug, PartialEq, Eq)]
pub enum StepInputForm {
    Notify,
    /// `{"deposit": {...}}`: the inner object is read as a deposit.
    DepositObject(JsonValue),
    /// `{"choice": {...}}`: the inner object is read as a choice.
    ChoiceObject(JsonValue),
    /// `{"kind": "deposit", ...}`: each field, or the failure of its absence.
    DepositFields {
        into: Result<JsonValue, Failure>,
        by: Result<JsonValue, Failure>,
        token: Result<JsonValue, Failure>,
        amount: Result<String, Failure>,
    },
    /// `{"kind": "choice", ...}`: each field, or the failure of its absence.
    ChoiceFields { id: Result<JsonValue, Failure>, value: Result<String, Failure> },
    Unsupported(Failure),
}

pub open spec fn input_failure(message: Seq<char>) -> FailureV {
    failure_of(ErrorKind::Validation, "InvalidInputJson"@, message, seq![], ExitCodeNum::ValidationBlocking)
}

/// The failure of a step input that is not the JSON it should be, with the
/// reader's message.
pub fn invalid_input(message: String) -> (r: Failure)
    ensures
        r@ == input_failure(message@),
{
    fail(ErrorKind::Validation, "InvalidInputJson", message, ExitCodeNum::ValidationBlocking)
}

pub open spec fn missing_field(field: Seq<char>, kind: Seq<char>) -> FailureV {
    input_failure("missing field '"@ + field + "' for kind="@ + kind)
}

/// A field that must be present.
pub open spec fn present_is(r: Result<JsonValue, Failure>, entries: Seq<(String, JsonValue)>, field: Seq<char>, kind: Seq<char>) -> bool {
    match json_field(entries, field) {
        Some(v) => r == Ok::<JsonValue, Failure>(v),
        None => r matches Err(f) && f@ == missing_field(field, kind),
    }
}

/// A field that must be present and a text.
pub open spec fn text_field_is(r: Result<String, Failure>, entries: Seq<(String, JsonValue)>, field: Seq<char>, kind: Seq<char>) -> bool {
    match json_field(entries, field) {
        Some(JsonValue::String(t)) => r matches Ok(x) && x@ == t@,
        _ => r matches Err(f) && f@ == missing_field(field, kind),
    }
}

/// The forms a step input may take, tried in order: the text `notify`; an
/// object with a `deposit`, `choice` or `notify` entry; an object whose
/// `kind` names the input and whose other entries give its fields.
pub open spec fn step_input_form_is(r: StepInputForm, value: JsonValue) -> bool {
    match value {
        JsonValue::String(t) => if t@ == "notify"@ {
            r is Notify
        } else {
            r matches StepInputForm::Unsupported(f) && f@ == input_failure(unsupported_input())
        },
        JsonValue::Object(entries) => {
            let e = entries@;
            if json_field(e, "deposit"@) is Some {
                r == StepInputForm::DepositObject(json_field(e, "deposit"@)->0)
            } else if json_field(e, "choice"@) is Some {
                r == StepInputForm::ChoiceObject(json_field(e, "choice"@)->0)
            } else if json_field(e, "notify"@) is Some {
                r is Notify
            } else {
                match json_field(e, "kind"@) {
                    Some(JsonValue::String(k)) => if k@ == "notify"@ {
                        r is Notify
                    } else if k@ == "deposit"@ {
                        r matches StepInputForm::DepositFields { into, by, token, amount } && present_is(
                            into,
                            e,
                            "into"@,
                            "deposit"@,
                        ) && present_is(by, e, "by"@, "deposit"@) && present_is(token, e, "token"@, "deposit"@)
                            && text_field_is(amount, e, "amount"@, "deposit"@)
                    } else if k@ == "choice"@ {
                        r matches StepInputForm::ChoiceFields { id, value } && present_is(id, e, "id"@, "choice"@)
                            && text_field_is(value, e, "value"@, "choice"@)
                    } else {
                        r matches StepInputForm::Unsupported(f) && f@ == input_failure(unsupported_input())
                    },
                    _ => r matches StepInputForm::Unsupported(f) && f@ == input_failure(unsupported_input()),
                }
            }
        },
        _ => r matches StepInputForm::Unsupported(f) && f@ == input_failure(unsupported_input()),
    }
}

pub open spec fn unsupported_input() -> Seq<char> {
    "unsupported input format; expected notify/deposit/choice"@
}

fn unsupported_form() -> (r: StepInputForm)
    ensures
        r matches StepInputForm::Unsupported(f) && f@ == input_failure(unsupported_input()),
{
    StepInputForm::Unsupported(
        fail(
            ErrorKind::Validation,
            "InvalidInputJson",
            String::from_str("unsupported input format; expected notify/deposit/choice"),
            ExitCodeNum::ValidationBlocking,
        ),
    )
}

fn missing(field: &str, kind: &str) -> (r: Failure)
    ensures
        r@ == missing_field(field@, kind@),
{
    let mut m = join3("missing field '", field, "' for kind=");
    m.append(kind);
    fail(ErrorKind::Validation, "InvalidInputJson", m, ExitCodeNum::ValidationBlocking)
}

fn present(field: Option<JsonValue>, name: &str, kind: &str) -> (r: Result<JsonValue, Failure>)
    ensures
        match field {
            Some(v) => r == Ok::<JsonValue, Failure>(v),
            None => r matches Err(f) && f@ == missing_field(name@, kind@),
        },
{
    match field {
        Some(v) => Ok(v),
        None => Err(missing(name, kind)),
    }
}

fn text_field(field: Option<JsonValue>, name: &str, kind: &str) -> (r: Result<String, Failure>)
    ensures
        match field {
            Some(JsonValue::String(t)) => r matches Ok(x) && x@ == t@,
            _ => r matches Err(f) && f@ == missing_field(name@, kind@),
        },
{
    match field {
        Some(JsonValue::String(t)) => Ok(t),
        _ => Err(missing(name, kind)),
    }
}

/// How a step input is written.
pub fn step_input_form(value: JsonValue) -> (r: StepInputForm)
    ensures
        step_input_form_is(r, value),
{
    proof {
        reveal_strlit("notify");
        reveal_strlit("deposit");
        reveal_strlit("choice");
        reveal_strlit("kind");
        reveal_strlit("into");
        reveal_strlit("by");
        reveal_strlit("token");
        reveal_strlit("amount");
        reveal_strlit("id");
        reveal_strlit("value");
    }
    match value {
        JsonValue::String(t) => if crate::text::same_text(t.as_str(), "notify") {
            StepInputForm::Notify
        } else {
            unsupported_form()
        },
        JsonValue::Object(entries) => {
            let ghost e = entries@;
            let mut entries = entries;
            if has_field(&entries, "deposit") {
                let inner = take_field(&mut entries, "deposit");
                return StepInputForm::DepositObject(inner.unwrap());
            }
            if has_field(&entries, "choice") {
                let inner = take_field(&mut entries, "choice");
                return StepInputForm::ChoiceObject(inner.unwrap());
            }
            if has_field(&entries, "notify") {
                return StepInputForm::Notify;
            }
            let kind = take_field(&mut entries, "kind");
            proof {
                assert("into"@ != "kind"@ && "by"@ != "kind"@ && "token"@ != "kind"@ && "amount"@ != "kind"@) by {
                    assert("into"@[0] != "kind"@[0]);
                    assert("by"@[0] != "kind"@[0]);
                    assert("token"@[0] != "kind"@[0]);
                    assert("amount"@[0] != "kind"@[0]);
                }
                assert("id"@ != "kind"@ && "value"@ != "kind"@) by {
                    assert("id"@[0] != "kind"@[0]);
                    assert("value"@[0] != "kind"@[0]);
                }
                assert("by"@ != "into"@ && "token"@ != "into"@ && "amount"@ != "into"@ && "token"@ != "by"@ && "amount"@ != "by"@
                    && "amount"@ != "token"@ && "value"@ != "id"@) by {
                    assert("by"@[0] != "into"@[0]);
                    assert("token"@[0] != "into"@[0]);
                    assert("amount"@[0] != "into"@[0]);
                    assert("token"@[0] != "by"@[0]);
                    assert("amount"@[0] != "by"@[0]);
                    assert("amount"@[0] != "token"@[0]);
                    assert("value"@[0] != "id"@[0]);
                }
            }
            match kind {
                Some(JsonValue::String(k)) => {
                    if crate::text::same_text(k.as_str(), "notify") {
                        StepInputForm::Notify
                    } else if crate::text::same_text(k.as_str(), "deposit") {
                        let into = take_field(&mut entries, "into");
                        let by = take_field(&mut entries, "by");
                        let token = take_field(&mut entries, "token");
                        let amount = take_field(&mut entries, "amount");
                        assert(into == json_field(e, "into"@));
                        assert(by == json_field(e, "by"@));
                        assert(token == json_field(e, "token"@));
                        assert(amount == json_field(e, "amount"@));
                        StepInputForm::DepositFields {
                            into: present(into, "into", "deposit"),
                            by: present(by, "by", "deposit"),
                            token: present(token, "token", "deposit"),
                            amount: text_field(amount, "amount", "deposit"),
                        }
                    } else if crate::text::same_text(k.as_str(), "choice") {
                        let id = take_field(&mut entries, "id");
                        let value = take_field(&mut entries, "value");
                        assert(id == json_field(e, "id"@));
                        assert(value == json_field(e, "value"@));
                        StepInputForm::ChoiceFields { id: present(id, "id", "choice"), value: text_field(value, "value", "choice") }
                    } else {
                        unsupported_form()
                    }
                },
                _ => unsupported_form(),
            }
        },
        _ => unsupported_form(),
    }
}

/// A deposit input once its parts are read; the amount named by `field`
/// when it is not an integer.
pub fn deposit_input(into: Party, by: Party, token: Token, amount: &str, field: &str) -> (r: Result<crate::sim::SimInput, Failure>)
    ensures
        match bigint_spec(amount@, field@) {
            Ok(a) => r matches Ok(i) && i@ == crate::sim::SimInputV::Deposit { into: into@, by: by@, token: token@, amount: a },
            Err(f) => r matches Err(x) && x@ == f,
        },
{
    let amount = parse_bigint(amount, field)?;
    Ok(crate::sim::SimInput::Deposit { into, by, token, amount })
}

/// A choice input once its parts are read.
pub fn choice_input(id: ChoiceId, value: &str, field: &str) -> (r: Result<crate::sim::SimInput, Failure>)
    ensures
        match bigint_spec(value@, field@) {
            Ok(v) => r matches Ok(i) && i@ == crate::sim::SimInputV::Choice { id: id@, value: v },
            Err(f) => r matches Err(x) && x@ == f,
        },
{
    let value = parse_bigint(value, field)?;
    Ok(crate::sim::SimInput::Choice { id, value })
}

/// `{"tag":inner}`: a variant as serde writes it in JSON.
pub open spec fn tagged(tag: Seq<char>, inner: Seq<char>) -> Seq<char> {
    "{\""@ + tag + "\":"@ + inner + "}"@
}

pub open spec fn tagged_text(tag: Seq<char>, text: Seq<char>) -> Option<Seq<char>> {
    match json_string(text) {
        Some(t) => Some(tagged(tag, t)),
        None => None,
    }
}

/// A party as JSON (none when a name cannot be written).
pub open spec fn party_json_part(p: PartyV) -> Option<Seq<char>> {
    match p {
        PartyV::Hole(n) => tagged_text("Hole"@, n),
        PartyV::Role(n) => tagged_text("Role"@, n),
        PartyV::Address(n) => tagged_text("Address"@, n),
    }
}

pub open spec fn token_json_part(t: TokenV) -> Option<Seq<char>> {
    match t {
        TokenV::Hole(n) => tagged_text("Hole"@, n),
        TokenV::Token { currency_symbol, token_name } => match (json_string(currency_symbol), json_string(token_name)) {
            (Some(a), Some(b)) => Some(tagged("Token"@, "{\"currency_symbol\":"@ + a + ",\"token_name\":"@ + b + "}"@)),
            _ => None,
        },
    }
}

pub open spec fn payee_json_part(p: PayeeTargetV) -> Option<Seq<char>> {
    match p {
        PayeeTargetV::Hole(n) => tagged_text("Hole"@, n),
        PayeeTargetV::ToParty(x) => match party_json_part(x) {
            Some(j) => Some(tagged("ToParty"@, j)),
            None => None,
        },
        PayeeTargetV::ToAccount(x) => match party_json_part(x) {
            Some(j) => Some(tagged("ToAccount"@, j)),
            None => None,
        },
    }
}

/// A JSON text, or `<unserializable>` when there is none.
pub open spec fn shown(o: Option<Seq<char>>) -> Seq<char> {
    match o {
        Some(t) => t,
        None => "<unserializable>"@,
    }
}

fn tagged_exec(tag: &str, inner: &str) -> (r: String)
    ensures
        r@ == tagged(tag@, inner@),
{
    let mut r = String::from_str("{\"");
    r.append(tag);
    r.append("\":");
    r.append(inner);
    r.append("}");
    r
}

fn tagged_text_exec(tag: &str, text: &str) -> (r: Option<String>)
    ensures
        text_option_view(r) == tagged_text(tag@, text@),
{
    match json_string_text(text) {
        Some(t) => Some(tagged_exec(tag, t.as_str())),
        None => None,
    }
}

fn party_json_exec(p: &Party) -> (r: Option<String>)
    ensures
        text_option_view(r) == party_json_part(p@),
{
    proof {
        reveal_strlit("Hole");
        reveal_strlit("Role");
        reveal_strlit("Address");
    }
    match p {
        Party::Hole(n) => tagged_text_exec("Hole", n.as_str()),
        Party::Role(n) => tagged_text_exec("Role", n.as_str()),
        Party::Address(n) => tagged_text_exec("Address", n.as_str()),
    }
}

fn token_json_exec(t: &Token) -> (r: Option<String>)
    ensures
        text_option_view(r) == token_json_part(t@),
{
    match t {
        Token::Hole(n) => tagged_text_exec("Hole", n.as_str()),
        Token::Token { currency_symbol, token_name } => {
            match (json_string_text(currency_symbol.as_str()), json_string_text(token_name.as_str())) {
                (Some(a), Some(b)) => {
                    let mut inner = join2("{\"currency_symbol\":", a.as_str());
                    inner.append(",\"token_name\":");
                    inner.append(b.as_str());
                    inner.append("}");
                    Some(tagged_exec("Token", inner.as_str()))
                },
                _ => None,
            }
        },
    }
}

fn payee_json_exec(p: &PayeeTarget) -> (r: Option<String>)
    ensures
        text_option_view(r) == payee_json_part(p@),
{
    match p {
        PayeeTarget::Hole(n) => tagged_text_exec("Hole", n.as_str()),
        PayeeTarget::ToParty(x) => match party_json_exec(x) {
            Some(j) => Some(tagged_exec("ToParty", j.as_str())),
            None => None,
        },
        PayeeTarget::ToAccount(x) => match party_json_exec(x) {
            Some(j) => Some(tagged_exec("ToAccount", j.as_str())),
            None => None,
        },
    }
}

fn shown_exec(o: Option<String>) -> (r: String)
    ensures
        r@ == shown(text_option_view(o)),
{
    match o {
        Some(t) => t,
        None => String::from_str("<unserializable>"),
    }
}

/// A warning as the tool reports it: a code, a message, and its fields by
/// name in name order (parties, payees and tokens as JSON).
#[derive(Debug, PartialEq, Eq)]
pub struct WarningOut {
    pub code: String,
    pub message: String,
    pub fields: Vec<(String, String)>,
}

pub open spec fn pairs_view(d: Seq<(String, String)>) -> Seq<(Seq<char>, Seq<char>)> {
    d.map_values(|e: (String, String)| (e.0@, e.1@))
}

pub open spec fn warning_out_is(w: WarningOut, t: TransactionWarningV) -> bool {
    match t {
        TransactionWarningV::NonPositiveDeposit { into, by, token, amount } => w.code@ == "NonPositiveDeposit"@ && w.message@
            == "Non-positive deposit amount"@ && pairs_view(w.fields@) == seq![
            ("amount"@, int_decimal(amount)),
            ("by"@, shown(party_json_part(by))),
            ("into"@, shown(party_json_part(into))),
            ("token"@, shown(token_json_part(token))),
        ],
        TransactionWarningV::NonPositivePay { from, to, token, amount } => w.code@ == "NonPositivePay"@ && w.message@
            == "Non-positive pay amount"@ && pairs_view(w.fields@) == seq![
            ("amount"@, int_decimal(amount)),
            ("from"@, shown(party_json_part(from))),
            ("to"@, shown(payee_json_part(to))),
            ("token"@, shown(token_json_part(token))),
        ],
        TransactionWarningV::PartialPay { from, to, token, expected, paid } => w.code@ == "PartialPay"@ && w.message@
            == "Partial payment"@ && pairs_view(w.fields@) == seq![
            ("expected"@, int_decimal(expected)),
            ("from"@, shown(party_json_part(from))),
            ("paid"@, int_decimal(paid)),
            ("to"@, shown(payee_json_part(to))),
            ("token"@, shown(token_json_part(token))),
        ],
        TransactionWarningV::Shadowing { name, old, new } => w.code@ == "Shadowing"@ && w.message@ == "Let binding shadowing"@
            && pairs_view(w.fields@) == seq![("name"@, name), ("new"@, int_decimal(new)), ("old"@, int_decimal(old))],
        TransactionWarningV::AssertionFailed => w.code@ == "AssertionFailed"@ && w.message@ == "Assertion failed"@
            && w.fields@.len() == 0,
    }
}

fn pair(k: &str, v: String) -> (r: (String, String))
    ensures
        r.0@ == k@,
        r.1@ == v@,
{
    (String::from_str(k), v)
}

fn deposit_warning_out(into: &Party, by: &Party, token: &Token, amount: &Integer) -> (r: WarningOut)
    ensures
        warning_out_is(r, TransactionWarningV::NonPositiveDeposit { into: into@, by: by@, token: token@, amount: amount@ }),
{
    let mut fields: Vec<(String, String)> = Vec::new();
    fields.push(pair("amount", amount.to_decimal()));
    fields.push(pair("by", shown_exec(party_json_exec(by))));
    fields.push(pair("into", shown_exec(party_json_exec(into))));
    fields.push(pair("token", shown_exec(token_json_exec(token))));
    let r = WarningOut {
        code: String::from_str("NonPositiveDeposit"),
        message: String::from_str("Non-positive deposit amount"),
        fields,
    };
    assert(pairs_view(r.fields@) =~= seq![
        ("amount"@, int_decimal(amount@)),
        ("by"@, shown(party_json_part(by@))),
        ("into"@, shown(party_json_part(into@))),
        ("token"@, shown(token_json_part(token@))),
    ]);
    r
}

pub fn warning_to_output(warning: &TransactionWarning) -> (r: WarningOut)
    ensures
        warning_out_is(r, warning@),
{
    match warning {
        TransactionWarning::NonPositiveDeposit { into, by, token, amount } => deposit_warning_out(into, by, token, amount),
        TransactionWarning::NonPositivePay { from, to, token, amount } => {
            let mut fields: Vec<(String, String)> = Vec::new();
            fields.push(pair("amount", amount.to_decimal()));
            fields.push(pair("from", shown_exec(party_json_exec(from))));
            fields.push(pair("to", shown_exec(payee_json_exec(to))));
            fields.push(pair("token", shown_exec(token_json_exec(token))));
            let r = WarningOut {
                code: String::from_str("NonPositivePay"),
                message: String::from_str("Non-positive pay amount"),
                fields,
            };
            assert(pairs_view(r.fields@) =~= seq![
                ("amount"@, int_decimal(amount@)),
                ("from"@, shown(party_json_part(from@))),
                ("to"@, shown(payee_json_part(to@))),
                ("token"@, shown(token_json_part(token@))),
            ]);
            r
        },
        TransactionWarning::PartialPay { from, to, token, expected, paid } => {
            let mut fields: Vec<(String, String)> = Vec::new();
            fields.push(pair("expected", expected.to_decimal()));
            fields.push(pair("from", shown_exec(party_json_exec(from))));
            fields.push(pair("paid", paid.to_decimal()));
            fields.push(pair("to", shown_exec(payee_json_exec(to))));
            fields.push(pair("token", shown_exec(token_json_exec(token))));
            let r = WarningOut { code: String::from_str("PartialPay"), message: String::from_str("Partial payment"), fields };
            assert(pairs_view(r.fields@) =~= seq![
                ("expected"@, int_decimal(expected@)),
                ("from"@, shown(party_json_part(from@))),
                ("paid"@, int_decimal(paid@)),
                ("to"@, shown(payee_json_part(to@))),
                ("token"@, shown(token_json_part(token@))),
            ]);
            r
        },
        TransactionWarning::Shadowing { name, old, new } => {
            let mut fields: Vec<(String, String)> = Vec::new();
            fields.push(pair("name", name.clone()));
            fields.push(pair("new", new.to_decimal()));
            fields.push(pair("old", old.to_decimal()));
            let r = WarningOut { code: String::from_str("Shadowing"), message: String::from_str("Let binding shadowing"), fields };
            assert(pairs_view(r.fields@) =~= seq![("name"@, name@), ("new"@, int_decimal(new@)), ("old"@, int_decimal(old@))]);
            r
        },
        TransactionWarning::AssertionFailed => WarningOut {
            code: String::from_str("AssertionFailed"),
            message: String::from_str("Assertion failed"),
            fields: Vec::new(),
        },
    }
}

pub open spec fn warnings_out_is(r: Seq<WarningOut>, ws: Seq<TransactionWarningV>) -> bool {
    &&& r.len() == ws.len()
    &&& forall|i: int| 0 <= i < r.len() ==> warning_out_is(#[trigger] r[i], ws[i])
}

pub fn warnings_to_output(warnings: &Vec<TransactionWarning>) -> (r: Vec<WarningOut>)
    ensures
        warnings_out_is(r@, warnings@.map_values(|w: TransactionWarning| w@)),
{
    let mut r: Vec<WarningOut> = Vec::new();
    let mut i: usize = 0;
    while i < warnings.len()
        invariant
            i <= warnings@.len(),
            r@.len() == i,
            forall|j: int| 0 <= j < i ==> warning_out_is(#[trigger] r@[j], warnings@[j]@),
        decreases warnings@.len() - i,
    {
        r.push(warning_to_output(&warnings[i]));
        i = i + 1;
    }
    r
}

/// An input the contract would accept next, as the tool reports it.
#[derive(Debug, PartialEq, Eq)]
pub enum PreviewInputOut {
    Deposit { into: Party, by: Party, token: Token, amount: String, warnings: Vec<WarningOut> },
    Choice { id: ChoiceId, bounds: Vec<PreviewBoundResponse>, warnings: Vec<WarningOut> },
    Notify { can_notify: bool, warnings: Vec<WarningOut> },
}

pub open spec fn preview_input_out_is(r: PreviewInputOut, p: PreviewInputV) -> bool {
    match p {
        PreviewInputV::Deposit { into, by, token, amount } => match r {
            PreviewInputOut::Deposit { into: a, by: b, token: t, amount: m, warnings: w } => {
                &&& a@ == into && b@ == by && t@ == token && m@ == int_decimal(amount)
                &&& if amount <= 0 {
                    w@.len() == 1 && warning_out_is(w@[0], TransactionWarningV::NonPositiveDeposit { into, by, token, amount })
                } else {
                    w@.len() == 0
                }
            },
            _ => false,
        },
        PreviewInputV::Choice { id, bounds } => match r {
            PreviewInputOut::Choice { id: d, bounds: b, warnings: w } => d@ == id && bounds_response_is(b@, bounds) && w@.len()
                == 0,
            _ => false,
        },
        PreviewInputV::Notify { can_notify } => match r {
            PreviewInputOut::Notify { can_notify: c, warnings: w } => c == can_notify && w@.len() == 0,
            _ => false,
        },
    }
}

pub fn preview_input_to_output(input: &PreviewInput) -> (r: PreviewInputOut)
    ensures
        preview_input_out_is(r, input@),
{
    match input {
        PreviewInput::Deposit { into, by, token, amount } => {
            let mut warnings: Vec<WarningOut> = Vec::new();
            if !amount.is_positive() {
                warnings.push(deposit_warning_out(into, by, token, amount));
            }
            PreviewInputOut::Deposit {
                into: into.duplicate(),
                by: by.duplicate(),
                token: token.duplicate(),
                amount: amount.to_decimal(),
                warnings,
            }
        },
        PreviewInput::Choice { id, bounds } => {
            let mut out: Vec<PreviewBoundResponse> = Vec::new();
            let mut i: usize = 0;
            while i < bounds.len()
                invariant
                    i <= bounds@.len(),
                    out@.len() == i,
                    forall|j: int|
                        0 <= j < i ==> (#[trigger] out@[j]).from@ == int_decimal(bounds@[j].0@) && out@[j].to@
                            == int_decimal(bounds@[j].1@),
                decreases bounds@.len() - i,
            {
                out.push(PreviewBoundResponse { from: bounds[i].0.to_decimal(), to: bounds[i].1.to_decimal() });
                i = i + 1;
            }
            PreviewInputOut::Choice { id: id.duplicate(), bounds: out, warnings: Vec::new() }
        },
        PreviewInput::Notify { can_notify } => PreviewInputOut::Notify { can_notify: *can_notify, warnings: Vec::new() },
    }
}

/// The contract and state a command leaves.
#[derive(Debug, PartialEq, Eq)]
pub struct SimulationContextOut {
    pub contract_yaml: String,
    pub state: StateResponse,
    pub min_time: String,
}

pub open spec fn context_out_is(c: SimulationContextOut, text: Seq<char>, st: SimStateV) -> bool {
    c.contract_yaml@ == text && state_response_is(c.state, st) && c.min_time@ == int_decimal(st.min_time)
}

fn context_out(contract_yaml: String, state: &SimState) -> (r: SimulationContextOut)
    ensures
        context_out_is(r, contract_yaml@, state@),
{
    SimulationContextOut { contract_yaml, state: state_to_response(state), min_time: state.min_time.to_decimal() }
}

/// What `preview` reports.
#[derive(Debug, PartialEq, Eq)]
pub struct PreviewResultOut {
    pub summary: String,
    pub warnings: Vec<WarningOut>,
    pub inputs: Vec<PreviewInputOut>,
    pub context: SimulationContextOut,
}

pub open spec fn sim_failure_of(e: SimErrorV) -> FailureV {
    failure_of(
        ErrorKind::Simulation,
        sim_error_code_text(e),
        sim_error_message_text(e),
        seq![("path"@, sim_error_path_text(e))],
        ExitCodeNum::SimulationError,
    )
}

pub fn sim_failure(error: &SimError) -> (r: Failure)
    ensures
        r@ == sim_failure_of(error@),
{
    let code = sim_error_code(error);
    let path = match sim_error_path(error) {
        Some(p) => p,
        None => String::new(),
    };
    fail_with_detail(ErrorKind::Simulation, code.as_str(), sim_error_message(error), "path", path, ExitCodeNum::SimulationError)
}

pub open spec fn serialize_failure(m: Seq<char>) -> FailureV {
    failure_of(ErrorKind::Internal, "SerializeError"@, m, seq![], ExitCodeNum::Internal)
}

fn contract_text(contract: &Contract) -> (r: Result<String, Failure>)
    ensures
        match yaml_text(write_contract(contract@)) {
            Ok(t) => r matches Ok(x) && x@ == t,
            Err(m) => r matches Err(f) && f@ == serialize_failure(m),
        },
{
    match contract_to_yaml_string(contract) {
        Ok(t) => Ok(t),
        Err(e) => Err(fail(ErrorKind::Internal, "SerializeError", e, ExitCodeNum::Internal)),
    }
}

pub open spec fn preview_summary(n: nat) -> Seq<char> {
    "Preview succeeded with "@ + nat_decimal(n) + " available input(s)"@
}

/// `preview`: the contract, the state (already read, or the failure of
/// reading it), the interval's ends, then the inputs the contract accepts.
pub open spec fn preview_is(r: Result<PreviewResultOut, Failure>, text: Seq<char>, state: Result<SimState, Failure>, start: Seq<char>, end: Seq<char>) -> bool {
    match read_contract_document(text) {
        Err(e) => r matches Err(f) && f@ == parse_failure(e),
        Ok(c) => match state {
            Err(f0) => r matches Err(f) && f@ == f0@,
            Ok(st) => match bigint_spec(start, "interval_start"@) {
                Err(x) => r matches Err(f) && f@ == x,
                Ok(a) => match bigint_spec(end, "interval_end"@) {
                    Err(x) => r matches Err(f) && f@ == x,
                    Ok(b) => match preview_spec(c, st@, a, b) {
                        Err(e) => r matches Err(f) && f@ == sim_failure_of(e),
                        Ok(p) => match yaml_text(write_contract(p.contract)) {
                            Err(m) => r matches Err(f) && f@ == serialize_failure(m),
                            Ok(t) => r matches Ok(out) && out.summary@ == preview_summary(p.inputs.len()) && out.warnings@.len()
                                == 0 && out.inputs@.len() == p.inputs.len() && (forall|i: int|
                                0 <= i < p.inputs.len() ==> preview_input_out_is(#[trigger] out.inputs@[i], p.inputs[i]))
                                && context_out_is(out.context, t, p.state),
                        },
                    },
                },
            },
        },
    }
}

pub fn run_preview(contract_yaml: &str, state: Result<SimState, Failure>, interval_start: &str, interval_end: &str) -> (r: Result<PreviewResultOut, Failure>)
    ensures
        preview_is(r, contract_yaml@, state, interval_start@, interval_end@),
{
    let contract = read_contract(contract_yaml)?;
    let state = state?;
    let start = parse_bigint(interval_start, "interval_start")?;
    let end = parse_bigint(interval_end, "interval_end")?;
    let preview = match preview_inputs(&contract, &state, &start, &end) {
        Ok(p) => p,
        Err(e) => return Err(sim_failure(&e)),
    };
    let text = contract_text(&preview.contract)?;
    let mut inputs: Vec<PreviewInputOut> = Vec::new();
    let mut i: usize = 0;
    while i < preview.inputs.len()
        invariant
            i <= preview.inputs@.len(),
            inputs@.len() == i,
            forall|j: int| 0 <= j < i ==> preview_input_out_is(#[trigger] inputs@[j], preview.inputs@[j]@),
        decreases preview.inputs@.len() - i,
    {
        inputs.push(preview_input_to_output(&preview.inputs[i]));
        i = i + 1;
    }
    let mut summary = join2("Preview succeeded with ", usize_decimal(preview.inputs.len()).as_str());
    summary.append(" available input(s)");
    Ok(PreviewResultOut { summary, warnings: Vec::new(), inputs, context: context_out(text, &preview.state) })
}

/// One step of a trace, as the tool reports it (the simulator does not say
/// where in the contract a step happens, so the paths are empty).
#[derive(Debug, PartialEq, Eq)]
pub enum TraceEventOut {
    Reduced {
        event_id: String,
        rule: String,
        contract_path: String,
        warning: Option<WarningOut>,
        payment: Option<PaymentResponse>,
        delta: Option<TraceStateDeltaResponse>,
    },
    InputApplied {
        event_id: String,
        input_index: usize,
        contract_path: String,
        next_contract_path: String,
        input: TraceInputResponse,
        warning: Option<WarningOut>,
        delta: Option<TraceStateDeltaResponse>,
    },
}

pub open spec fn warning_out_option_is(r: Option<WarningOut>, w: Option<TransactionWarningV>) -> bool {
    match w {
        None => r is None,
        Some(w) => r matches Some(x) && warning_out_is(x, w),
    }
}

pub open spec fn trace_out_is(ev: TraceEventOut, i: nat, step: TraceStepV) -> bool {
    match step {
        TraceStepV::Reduced { rule, warning, payment } => match ev {
            TraceEventOut::Reduced { event_id, rule: name, contract_path, warning: w, payment: p, delta } => {
                &&& event_id@ == "trace."@ + nat_decimal(i)
                &&& name@ == trace_rule_text(rule)
                &&& contract_path@.len() == 0
                &&& warning_out_option_is(w, warning)
                &&& payment_option_is(p, payment)
                &&& delta is None
            },
            _ => false,
        },
        TraceStepV::InputApplied { input_index, input, warning } => match ev {
            TraceEventOut::InputApplied { event_id, input_index: n, contract_path, next_contract_path, input: x, warning: w, delta } => {
                &&& event_id@ == "trace."@ + nat_decimal(i)
                &&& n == input_index
                &&& contract_path@.len() == 0
                &&& next_contract_path@.len() == 0
                &&& trace_input_response_is(x, input)
                &&& warning_out_option_is(w, warning)
                &&& delta is None
            },
            _ => false,
        },
    }
}

fn warning_out_option(w: &Option<TransactionWarning>) -> (r: Option<WarningOut>)
    ensures
        warning_out_option_is(r, warning_option_view(*w)),
{
    match w {
        Some(x) => Some(warning_to_output(x)),
        None => None,
    }
}

pub fn trace_to_output(index: usize, event: &TraceStep) -> (r: TraceEventOut)
    ensures
        trace_out_is(r, index as nat, event@),
{
    let event_id = join2("trace.", usize_decimal(index).as_str());
    match event {
        TraceStep::Reduced { rule, warning, payment } => TraceEventOut::Reduced {
            event_id,
            rule: String::from_str(trace_rule_name(rule)),
            contract_path: String::new(),
            warning: warning_out_option(warning),
            payment: match payment {
                Some(p) => Some(payment_to_response(p)),
                None => None,
            },
            delta: None,
        },
        TraceStep::InputApplied { input_index, input, warning } => TraceEventOut::InputApplied {
            event_id,
            input_index: *input_index,
            contract_path: String::new(),
            next_contract_path: String::new(),
            input: trace_input_to_response(input),
            warning: warning_out_option(warning),
            delta: None,
        },
    }
}

/// What `step` reports.
#[derive(Debug, PartialEq, Eq)]
pub struct StepResultOut {
    pub summary: String,
    pub warnings: Vec<WarningOut>,
    pub trace_events: Vec<TraceEventOut>,
    pub context: SimulationContextOut,
}

/// How a step is driven: to a time with no input, or by one input at the
/// state's minimum time (the input already read, or the failure of reading it).
#[derive(Debug, PartialEq, Eq)]
pub enum StepMode {
    Timeout(String),
    Input(Result<SimInput, Failure>),
}

/// The transaction of a step.
pub open spec fn step_tx_spec(mode: StepMode, st: SimStateV) -> Result<SimTransactionV, FailureV> {
    match mode {
        StepMode::Timeout(t) => match bigint_spec(t@, "timeout"@) {
            Err(f) => Err(f),
            Ok(v) => Ok(SimTransactionV { interval_start: v, interval_end: v, inputs: seq![] }),
        },
        StepMode::Input(Err(f)) => Err(f@),
        StepMode::Input(Ok(i)) => Ok(SimTransactionV { interval_start: st.min_time, interval_end: st.min_time, inputs: seq![i@] }),
    }
}

fn step_transaction(mode: StepMode, state: &SimState) -> (r: Result<SimTransaction, Failure>)
    ensures
        match step_tx_spec(mode, state@) {
            Ok(tx) => r matches Ok(t) && t@ == tx,
            Err(f) => r matches Err(x) && x@ == f,
        },
{
    match mode {
        StepMode::Timeout(t) => match parse_bigint(t.as_str(), "timeout") {
            Err(f) => Err(f),
            Ok(v) => {
                let t = SimTransaction { interval_start: v.duplicate(), interval_end: v, inputs: Vec::new() };
                assert(t@.inputs =~= Seq::<crate::sim::SimInputV>::empty());
                Ok(t)
            },
        },
        StepMode::Input(Err(f)) => Err(f),
        StepMode::Input(Ok(input)) => {
            let mut inputs: Vec<SimInput> = Vec::new();
            inputs.push(input);
            let t = SimTransaction { interval_start: state.min_time.duplicate(), interval_end: state.min_time.duplicate(), inputs };
            assert(t@.inputs =~= seq![t.inputs@[0]@]);
            Ok(t)
        },
    }
}

pub open spec fn step_out_is(out: StepResultOut, succ: SimTransactionSuccessV, text: Seq<char>) -> bool {
    &&& out.summary@ == "Simulation step applied"@
    &&& warnings_out_is(out.warnings@, succ.warnings)
    &&& out.trace_events@.len() == succ.trace.len()
    &&& forall|i: int| 0 <= i < succ.trace.len() ==> trace_out_is(#[trigger] out.trace_events@[i], i as nat, succ.trace[i])
    &&& context_out_is(out.context, text, succ.state)
}

/// `step`: the contract, the state, the transaction, then the run; the
/// report carries the contract and state it leaves.
pub open spec fn step_is(r: Result<StepResultOut, Failure>, text: Seq<char>, state: Result<SimState, Failure>, mode: StepMode, trace: bool) -> bool {
    match read_contract_document(text) {
        Err(e) => r matches Err(f) && f@ == parse_failure(e),
        Ok(c) => match state {
            Err(f0) => r matches Err(f) && f@ == f0@,
            Ok(st) => match step_tx_spec(mode, st@) {
                Err(x) => r matches Err(f) && f@ == x,
                Ok(tx) => match simulate_spec(c, st@, tx, trace) {
                    SimTransactionResultV::Error(e) => r matches Err(f) && f@ == sim_failure_of(e),
                    SimTransactionResultV::Success(succ) => match yaml_text(write_contract(succ.contract)) {
                        Err(m) => r matches Err(f) && f@ == serialize_failure(m),
                        Ok(t) => r matches Ok(out) && step_out_is(out, succ, t),
                    },
                },
            },
        },
    }
}

pub fn run_step(contract_yaml: &str, state: Result<SimState, Failure>, mode: StepMode, trace: bool) -> (r: Result<StepResultOut, Failure>)
    ensures
        step_is(r, contract_yaml@, state, mode, trace),
{
    let contract = read_contract(contract_yaml)?;
    let state = state?;
    let transaction = step_transaction(mode, &state)?;
    let success = match simulate_transaction_with_trace(&contract, &state, &transaction, trace) {
        SimTransactionResult::Success(success) => success,
        SimTransactionResult::Error(e) => return Err(sim_failure(&e)),
    };
    let text = contract_text(&success.contract)?;
    let mut events: Vec<TraceEventOut> = Vec::new();
    let mut i: usize = 0;
    while i < success.trace.len()
        invariant
            i <= success.trace@.len(),
            events@.len() == i,
            forall|j: int| 0 <= j < i ==> trace_out_is(#[trigger] events@[j], j as nat, success.trace@[j]@),
        decreases success.trace@.len() - i,
    {
        events.push(trace_to_output(i, &success.trace[i]));
        i = i + 1;
    }
    Ok(StepResultOut {
        summary: String::from_str("Simulation step applied"),
        warnings: warnings_to_output(&success.warnings),
        trace_events: events,
        context: context_out(text, &success.state),
    })
}

/// The contract that `analyze` and `repair` work on: it must parse and be
/// ready to run.
pub open spec fn cli_analysis_contract(text: Seq<char>) -> Result<ContractV, FailureV> {
    match read_contract_document(text) {
        Err(e) => Err(parse_failure(e)),
        Ok(c) => if ready_to_run(c) {
            Ok(c)
        } else {
            Err(
                failure_of(
                    ErrorKind::Validation,
                    "NotReadyToRun"@,
                    "contract must be fully instantiated and type-safe before analysis"@,
                    seq![],
                    ExitCodeNum::ValidationBlocking,
                ),
            )
        },
    }
}

pub fn read_analysis_contract(contract_yaml: &str) -> (r: Result<Contract, Failure>)
    ensures
        match r {
            Ok(c) => cli_analysis_contract(contract_yaml@) == Ok::<ContractV, FailureV>(c@),
            Err(f) => cli_analysis_contract(contract_yaml@) == Err::<ContractV, FailureV>(f@),
        },
{
    let contract = read_contract(contract_yaml)?;
    let validation = type_check(&contract, &TypeCheckContext::default());
    if !validation.ready_to_run {
        return Err(
            fail(
                ErrorKind::Validation,
                "NotReadyToRun",
                String::from_str("contract must be fully instantiated and type-safe before analysis"),
                ExitCodeNum::ValidationBlocking,
            ),
        );
    }
    Ok(contract)
}

pub open spec fn missing_rule_failure() -> FailureV {
    failure_of(
        ErrorKind::Validation,
        "MissingAuthorizationRule"@,
        "authorization_safety requires --action and --allowed-parties"@,
        seq![],
        ExitCodeNum::ValidationBlocking,
    )
}

pub open spec fn invalid_rule_failure(message: Seq<char>) -> FailureV {
    failure_of(ErrorKind::Validation, "InvalidAuthorizationRule"@, message, seq![], ExitCodeNum::ValidationBlocking)
}

/// The failure of an `--allowed-parties` value that is not a JSON list of
/// parties, with the reader's message.
pub fn invalid_authorization_rule(message: String) -> (r: Failure)
    ensures
        r@ == invalid_rule_failure(message@),
{
    fail(ErrorKind::Validation, "InvalidAuthorizationRule", message, ExitCodeNum::ValidationBlocking)
}

/// The rule that `--action`, `--target` and `--allowed-parties` state.
pub open spec fn cli_rule(action: AuthorizationActionRequest, target: Option<String>, parties: Seq<Party>) -> AuthorizationRuleV {
    AuthorizationRuleV {
        action: match action {
            AuthorizationActionRequest::Deposit => AuthorizationAction::Deposit,
            AuthorizationActionRequest::Choice => AuthorizationAction::Choice,
        },
        target: text_option_view(target),
        allowed_parties: parties.map_values(|p: Party| p@),
    }
}

/// The property's name and its analysis. Authorization safety needs an
/// action and allowed parties (`--allowed-parties` already read as a list,
/// or the failure of reading it), and the list must not be empty.
pub open spec fn cli_analysis_run(
    c: ContractV,
    property: AnalyzePropertyRequest,
    action: Option<AuthorizationActionRequest>,
    target: Option<String>,
    parties: Option<Result<Vec<Party>, Failure>>,
    max_nodes: nat,
) -> Result<(Seq<char>, DeadlineStepV), FailureV> {
    match property {
        AnalyzePropertyRequest::DeadlineSafety => Ok(("deadline_safety"@, deadline_analysis(c, max_nodes))),
        AnalyzePropertyRequest::AuthorizationSafety => match action {
            None => Err(missing_rule_failure()),
            Some(a) => match parties {
                None => Err(missing_rule_failure()),
                Some(Err(f)) => Err(f@),
                Some(Ok(ps)) => if ps@.len() == 0 {
                    Err(invalid_rule_failure("authorization_rule.allowed_parties must not be empty"@))
                } else {
                    Ok(
                        (
                            "authorization_safety"@,
                            DeadlineStepV::Done(authorization_analysis(c, max_nodes, cli_rule(a, target, ps@))),
                        ),
                    )
                },
            },
        },
    }
}

pub fn cli_counterexample_analysis(
    contract: &Contract,
    property: AnalyzePropertyRequest,
    action: Option<AuthorizationActionRequest>,
    target: Option<String>,
    allowed_parties: Option<Result<Vec<Party>, Failure>>,
    max_nodes: usize,
) -> (r: Result<(&'static str, DeadlineStep), Failure>)
    ensures
        match r {
            Ok((name, step)) => cli_analysis_run(contract@, property, action, target, allowed_parties, max_nodes as nat)
                == Ok::<(Seq<char>, DeadlineStepV), FailureV>((name@, step@)),
            Err(f) => cli_analysis_run(contract@, property, action, target, allowed_parties, max_nodes as nat) == Err::<
                (Seq<char>, DeadlineStepV),
                FailureV,
            >(f@),
        },
{
    let ghost target_in = target;
    let request = CounterexampleRequest { max_nodes };
    match property {
        AnalyzePropertyRequest::DeadlineSafety => Ok(("deadline_safety", analyze_deadline_safety(contract, &request))),
        AnalyzePropertyRequest::AuthorizationSafety => {
            let action = match action {
                None => {
                    return Err(
                        fail(
                            ErrorKind::Validation,
                            "MissingAuthorizationRule",
                            String::from_str("authorization_safety requires --action and --allowed-parties"),
                            ExitCodeNum::ValidationBlocking,
                        ),
                    );
                },
                Some(a) => a,
            };
            let parties = match allowed_parties {
                None => {
                    return Err(
                        fail(
                            ErrorKind::Validation,
                            "MissingAuthorizationRule",
                            String::from_str("authorization_safety requires --action and --allowed-parties"),
                            ExitCodeNum::ValidationBlocking,
                        ),
                    );
                },
                Some(Err(f)) => {
                    return Err(f);
                },
                Some(Ok(ps)) => ps,
            };
            if parties.len() == 0 {
                return Err(invalid_authorization_rule(String::from_str("authorization_rule.allowed_parties must not be empty")));
            }
            let rule = AuthorizationRuleRequest { action, target, allowed_parties: parties };
            assert(rule_view(rule) == cli_rule(action, target_in, rule.allowed_parties@));
            match run_counterexample_analysis(contract, property, Some(&rule), max_nodes) {
                Ok(found) => Ok(found),
                Err(e) => Err(invalid_authorization_rule(e.message)),
            }
        },
    }
}

/// An analysis as the tool reports it: under the property's name, and for
/// an unsupported contract, with the place and the reason in place of a
/// counterexample.
pub open spec fn cli_report_is(s: AnalyzeCounterexampleSuccessResponse, property: Seq<char>, result: CounterexampleResultV) -> bool {
    match result {
        CounterexampleResultV::PassBounded { checked_nodes } => analysis_success_is(s, property, checked_nodes, None),
        CounterexampleResultV::CounterexampleFound { checked_nodes, counterexample } => analysis_success_is(
            s,
            property,
            checked_nodes,
            Some(counterexample),
        ),
        CounterexampleResultV::Unsupported { checked_nodes, path, reason } => {
            &&& s.property@ == property
            &&& s.status@ == "unsupported"@
            &&& s.checked_nodes == checked_nodes
            &&& s.counterexample matches Some(w)
            &&& w.violating_path@ == path
            &&& w.explanation@ == reason
            &&& w.steps@.len() == 0
            &&& w.auto_repair_patch is None
            &&& w.timeout is None
            &&& w.witness_time is None
            &&& w.offending_party is None
            &&& w.action is None
            &&& w.target is None
        },
    }
}

pub fn analyze_result_to_output(property: &str, result: &CounterexampleResult) -> (r: AnalyzeCounterexampleSuccessResponse)
    ensures
        cli_report_is(r, property@, result@),
{
    match result {
        CounterexampleResult::PassBounded { checked_nodes } => analysis_success_response(property, *checked_nodes, None),
        CounterexampleResult::CounterexampleFound { checked_nodes, counterexample } => analysis_success_response(
            property,
            *checked_nodes,
            Some(counterexample),
        ),
        CounterexampleResult::Unsupported { checked_nodes, path, reason } => {
            proof { reveal_strlit("unsupported"); }
            AnalyzeCounterexampleSuccessResponse {
                property: String::from_str(property),
                status: String::from_str("unsupported"),
                checked_nodes: *checked_nodes,
                counterexample: Some(
                    AnalyzeCounterexampleWitnessResponse {
                        violating_path: path.clone(),
                        explanation: reason.clone(),
                        steps: Vec::new(),
                        auto_repair_patch: None,
                        timeout: None,
                        witness_time: None,
                        offending_party: None,
                        action: None,
                        target: None,
                    },
                ),
            }
        },
    }
}

/// `analyze` ends with its own code when it found a counterexample.
pub open spec fn analyze_exit(result: CounterexampleResultV) -> ExitCodeNum {
    if result is CounterexampleFound {
        ExitCodeNum::CounterexampleFound
    } else {
        ExitCodeNum::Success
    }
}

pub fn analyze_outcome(property: &str, result: &CounterexampleResult) -> (r: (ExitCodeNum, AnalyzeCounterexampleSuccessResponse))
    ensures
        r.0 == analyze_exit(result@),
        cli_report_is(r.1, property@, result@),
{
    let out = analyze_result_to_output(property, result);
    let code = match result {
        CounterexampleResult::CounterexampleFound { .. } => ExitCodeNum::CounterexampleFound,
        _ => ExitCodeNum::Success,
    };
    (code, out)
}

/// What `repair` reports.
#[derive(Debug, PartialEq, Eq)]
pub struct RepairResultOut {
    pub property: String,
    pub repaired: bool,
    pub before: AnalyzeCounterexampleSuccessResponse,
    pub after: Option<AnalyzeCounterexampleSuccessResponse>,
    pub patched_contract_yaml: Option<String>,
}

/// After the first analysis of `repair`: the report as it stands, or the
/// report of that analysis and the patch it proposes.
#[derive(Debug, PartialEq, Eq)]
pub enum CliRepairPlan {
    Unchanged(RepairResultOut),
    Patch(AnalyzeCounterexampleSuccessResponse, AutoRepairPatch),
}

/// A contract that passes needs no repair; a counterexample without a patch
/// and an unsupported contract are failures.
pub open spec fn cli_repair_plan_is(r: Result<CliRepairPlan, Failure>, property: Seq<char>, before: CounterexampleResultV) -> bool {
    match before {
        CounterexampleResultV::PassBounded { .. } => r matches Ok(CliRepairPlan::Unchanged(out)) && out.property@
            == property && !out.repaired && cli_report_is(out.before, property, before) && out.after is None
            && out.patched_contract_yaml is None,
        CounterexampleResultV::CounterexampleFound { counterexample, .. } => match counterexample.auto_repair_patch {
            None => r matches Err(f) && f@ == failure_of(
                ErrorKind::Analysis,
                "NoDeterministicRepair"@,
                "counterexample found but no deterministic safe patch is available"@,
                seq![],
                ExitCodeNum::NoDeterministicRepair,
            ),
            Some(p) => r matches Ok(CliRepairPlan::Patch(s, q)) && q@ == p && cli_report_is(s, property, before),
        },
        CounterexampleResultV::Unsupported { path, reason, .. } => r matches Err(f) && f@ == failure_of(
            ErrorKind::Analysis,
            "UnsupportedContractForProperty"@,
            reason,
            seq![("path"@, path)],
            ExitCodeNum::Internal,
        ),
    }
}

pub fn repair_plan(property: &str, before: &CounterexampleResult) -> (r: Result<CliRepairPlan, Failure>)
    ensures
        cli_repair_plan_is(r, property@, before@),
{
    let report = analyze_result_to_output(property, before);
    match before {
        CounterexampleResult::PassBounded { .. } => Ok(
            CliRepairPlan::Unchanged(
                RepairResultOut {
                    property: String::from_str(property),
                    repaired: false,
                    before: report,
                    after: None,
                    patched_contract_yaml: None,
                },
            ),
        ),
        CounterexampleResult::CounterexampleFound { counterexample, .. } => match &counterexample.auto_repair_patch {
            None => Err(
                fail(
                    ErrorKind::Analysis,
                    "NoDeterministicRepair",
                    String::from_str("counterexample found but no deterministic safe patch is available"),
                    ExitCodeNum::NoDeterministicRepair,
                ),
            ),
            Some(p) => Ok(
                CliRepairPlan::Patch(
                    report,
                    AutoRepairPatch { kind: p.kind, path: p.path.clone(), value: p.value.clone(), rationale: p.rationale.clone() },
                ),
            ),
        },
        CounterexampleResult::Unsupported { path, reason, .. } => Err(
            fail_with_detail(
                ErrorKind::Analysis,
                "UnsupportedContractForProperty",
                reason.clone(),
                "path",
                path.clone(),
                ExitCodeNum::Internal,
            ),
        ),
    }
}

/// Applying the patch, and writing the patched contract.
pub open spec fn cli_patch_is(r: Result<(Contract, String), Failure>, c: ContractV, patch: AutoRepairPatchV, replacement: Result<PartyV, Seq<char>>) -> bool {
    match repaired(c, patch, replacement) {
        Err(e) => r matches Err(f) && f@ == failure_of(ErrorKind::Internal, "PatchApplyError"@, e, seq![], ExitCodeNum::Internal),
        Ok(k) => match yaml_text(write_contract(k)) {
            Err(m) => r matches Err(f) && f@ == serialize_failure(m),
            Ok(text) => r matches Ok((p, t)) && p@ == k && t@ == text,
        },
    }
}

pub fn repair_patch(contract: &Contract, patch: &AutoRepairPatch, replacement: &Result<Party, String>) -> (r: Result<(Contract, String), Failure>)
    ensures
        cli_patch_is(r, contract@, patch@, replacement_view(*replacement)),
{
    let patched = match apply_auto_repair_patch(contract, patch, replacement) {
        Ok(c) => c,
        Err(e) => {
            return Err(fail(ErrorKind::Internal, "PatchApplyError", e, ExitCodeNum::Internal));
        },
    };
    let text = contract_text(&patched)?;
    Ok((patched, text))
}

/// The report of a repair that patched the contract: the analysis before,
/// the analysis of the patched contract, and its text.
pub fn repaired_result(
    property: &str,
    before: AnalyzeCounterexampleSuccessResponse,
    after: &CounterexampleResult,
    patched_contract_yaml: String,
) -> (r: RepairResultOut)
    ensures
        r.property@ == property@,
        r.repaired,
        r.before == before,
        r.after matches Some(a) && cli_report_is(a, property@, after@),
        text_option_view(r.patched_contract_yaml) == Some(patched_contract_yaml@),
{
    RepairResultOut {
        property: String::from_str(property),
        repaired: true,
        before,
        after: Some(analyze_result_to_output(property, after)),
        patched_contract_yaml: Some(patched_contract_yaml),
    }
}

fn copy_target(t: &Option<String>) -> (r: Option<String>)
    ensures
        r == *t,
{
    match t {
        Some(x) => {
            let y = x.clone();
            assert(y == *x) by {
                assert(y@ == x@);
            }
            Some(y)
        },
        None => None,
    }
}

/// `repair` as a whole, from the contract's text. The contract must parse
/// and be ready, and the analysis must start (with `p1` the allowed parties
/// that `parties` gave); then, with `first` the solver's answer: a contract
/// that passes is left as it is, an unsupported one or a counterexample
/// without a patch is a failure; otherwise the patch is applied (with `rep`
/// the party read from the patch where it names one), the patched contract
/// is written and analysed again (with `p2` and the solver's answer
/// `second`), and the report is repaired, with both analyses and the
/// patched text.
pub open spec fn cli_repair_workflow_is<
    A: Fn() -> Option<Result<Vec<Party>, Failure>>,
    S: Fn(&WitnessRequest) -> SolverReply,
    P: Fn(&str) -> Result<Party, String>,
>(
    r: Result<RepairResultOut, Failure>,
    text: Seq<char>,
    property: AnalyzePropertyRequest,
    action: Option<AuthorizationActionRequest>,
    target: Option<String>,
    max_nodes: nat,
    parties: A,
    p1: Option<Result<Vec<Party>, Failure>>,
    p2: Option<Result<Vec<Party>, Failure>>,
    solve: S,
    first: SolverReply,
    second: SolverReply,
    read_party: P,
    rep: Result<Party, String>,
) -> bool {
    match cli_analysis_contract(text) {
        Err(f) => r matches Err(x) && x@ == f,
        Ok(c) => {
            &&& call_ensures(parties, (), p1)
            &&& match cli_analysis_run(c, property, action, target, p1, max_nodes) {
                Err(f) => r matches Err(x) && x@ == f,
                Ok((name, step)) => {
                    let before = step_outcome(step, first);
                    &&& solver_answered(solve, step, first)
                    &&& match before {
                        CounterexampleResultV::CounterexampleFound { counterexample, .. } => match counterexample.auto_repair_patch {
                            Some(patch) => {
                                &&& party_read(read_party, patch.value, rep)
                                &&& match repaired(c, patch, replacement_view(rep)) {
                                    Err(e) => r matches Err(x) && x@ == failure_of(
                                        ErrorKind::Internal,
                                        "PatchApplyError"@,
                                        e,
                                        seq![],
                                        ExitCodeNum::Internal,
                                    ),
                                    Ok(k) => match yaml_text(write_contract(k)) {
                                        Err(m) => r matches Err(x) && x@ == serialize_failure(m),
                                        Ok(patched) => {
                                            &&& call_ensures(parties, (), p2)
                                            &&& match cli_analysis_run(k, property, action, target, p2, max_nodes) {
                                                Err(f) => r matches Err(x) && x@ == f,
                                                Ok((_, step2)) => {
                                                    &&& solver_answered(solve, step2, second)
                                                    &&& r matches Ok(out)
                                                    &&& out.property@ == name
                                                    &&& out.repaired
                                                    &&& cli_report_is(out.before, name, before)
                                                    &&& out.after matches Some(a) && cli_report_is(a, name, step_outcome(step2, second))
                                                    &&& text_option_view(out.patched_contract_yaml) == Some(patched)
                                                },
                                            }
                                        },
                                    },
                                }
                            },
                            None => cli_repair_plan_is(
                                match r {
                                    Ok(out) => Ok(CliRepairPlan::Unchanged(out)),
                                    Err(f) => Err(f),
                                },
                                name,
                                before,
                            ),
                        },
                        _ => cli_repair_plan_is(
                            match r {
                                Ok(out) => Ok(CliRepairPlan::Unchanged(out)),
                                Err(f) => Err(f),
                            },
                            name,
                            before,
                        ),
                    }
                },
            }
        },
    }
}

/// `repair`: the contract read from its text, the analysis, the patch where
/// one is proposed, and the analysis of the patched contract. `parties`
/// reads `--allowed-parties` for each analysis, `solve` answers the solver's
/// queries and `read_party` reads the party that a patch names.
pub fn run_repair_workflow<
    A: Fn() -> Option<Result<Vec<Party>, Failure>>,
    S: Fn(&WitnessRequest) -> SolverReply,
    P: Fn(&str) -> Result<Party, String>,
>(
    contract_yaml: &str,
    property: AnalyzePropertyRequest,
    action: Option<AuthorizationActionRequest>,
    target: &Option<String>,
    max_nodes: usize,
    parties: &A,
    solve: &S,
    read_party: &P,
) -> (r: Result<RepairResultOut, Failure>)
    requires
        parties.requires(()),
        forall|q: &WitnessRequest| #[trigger] solve.requires((q,)),
        forall|v: &str| #[trigger] read_party.requires((v,)),
    ensures
        exists|
            p1: Option<Result<Vec<Party>, Failure>>,
            p2: Option<Result<Vec<Party>, Failure>>,
            first: SolverReply,
            second: SolverReply,
            rep: Result<Party, String>,
        |
            #[trigger] cli_repair_workflow_is(
                r,
                contract_yaml@,
                property,
                action,
                *target,
                max_nodes as nat,
                *parties,
                p1,
                p2,
                *solve,
                first,
                second,
                *read_party,
                rep,
            ),
{
    let ghost any_parties: Option<Result<Vec<Party>, Failure>> = arbitrary();
    let ghost any_reply: SolverReply = arbitrary();
    let ghost any_party: Result<Party, String> = arbitrary();
    let ghost t = *target;
    let ghost m = max_nodes as nat;
    let contract = match read_analysis_contract(contract_yaml) {
        Ok(c) => c,
        Err(f) => {
            let r = Err(f);
            assert(cli_repair_workflow_is(r, contract_yaml@, property, action, t, m, *parties, any_parties, any_parties, *solve, any_reply, any_reply, *read_party, any_party));
            return r;
        },
    };
    let p1 = parties();
    let ghost g1 = p1;
    let (name, step) = match cli_counterexample_analysis(&contract, property, action, copy_target(target), p1, max_nodes) {
        Ok(started) => started,
        Err(f) => {
            let r = Err(f);
            assert(cli_repair_workflow_is(r, contract_yaml@, property, action, t, m, *parties, g1, any_parties, *solve, any_reply, any_reply, *read_party, any_party));
            return r;
        },
    };
    let (before, first) = crate::analysis_service::finish_with(step, solve);
    let (report, patch) = match repair_plan(name, &before) {
        Ok(CliRepairPlan::Unchanged(out)) => {
            let r = Ok(out);
            assert(cli_repair_workflow_is(r, contract_yaml@, property, action, t, m, *parties, g1, any_parties, *solve, first@, any_reply, *read_party, any_party));
            return r;
        },
        Err(f) => {
            let r = Err(f);
            assert(cli_repair_workflow_is(r, contract_yaml@, property, action, t, m, *parties, g1, any_parties, *solve, first@, any_reply, *read_party, any_party));
            return r;
        },
        Ok(CliRepairPlan::Patch(report, patch)) => (report, patch),
    };
    let replacement = read_party(patch.value.as_str());
    let (patched, patched_yaml) = match repair_patch(&contract, &patch, &replacement) {
        Ok(done) => done,
        Err(f) => {
            let r = Err(f);
            assert(cli_repair_workflow_is(r, contract_yaml@, property, action, t, m, *parties, g1, any_parties, *solve, first@, any_reply, *read_party, replacement));
            return r;
        },
    };
    let p2 = parties();
    let ghost g2 = p2;
    let (after, second) = match cli_counterexample_analysis(&patched, property, action, copy_target(target), p2, max_nodes) {
        Ok((_, step2)) => crate::analysis_service::finish_with(step2, solve),
        Err(f) => {
            let r = Err(f);
            assert(cli_repair_workflow_is(r, contract_yaml@, property, action, t, m, *parties, g1, g2, *solve, first@, any_reply, *read_party, replacement));
            return r;
        },
    };
    let r = Ok(repaired_result(name, report, &after, patched_yaml));
    assert(cli_repair_workflow_is(r, contract_yaml@, property, action, t, m, *parties, g1, g2, *solve, first@, second@, *read_party, replacement));
    r
}

/// `analyze` as a whole: the contract read from its text, then the
/// analysis (with `allowed` the allowed parties given, and `reply` the
/// solver's answer where it was asked) and its report and exit code.
pub open spec fn cli_analyze_workflow_is<S: Fn(&WitnessRequest) -> SolverReply>(
    r: Result<(ExitCodeNum, AnalyzeCounterexampleSuccessResponse), Failure>,
    text: Seq<char>,
    property: AnalyzePropertyRequest,
    action: Option<AuthorizationActionRequest>,
    target: Option<String>,
    allowed: Option<Result<Vec<Party>, Failure>>,
    max_nodes: nat,
    solve: S,
    reply: SolverReply,
) -> bool {
    match cli_analysis_contract(text) {
        Err(f) => r matches Err(x) && x@ == f,
        Ok(c) => match cli_analysis_run(c, property, action, target, allowed, max_nodes) {
            Err(f) => r matches Err(x) && x@ == f,
            Ok((name, step)) => {
                let result = step_outcome(step, reply);
                &&& solver_answered(solve, step, reply)
                &&& r matches Ok((code, out))
                &&& code == analyze_exit(result)
                &&& cli_report_is(out, name, result)
            },
        },
    }
}

/// `analyze`, with `solve` answering the solver's query.
pub fn run_analyze_workflow<S: Fn(&WitnessRequest) -> SolverReply>(
    contract_yaml: &str,
    property: AnalyzePropertyRequest,
    action: Option<AuthorizationActionRequest>,
    target: Option<String>,
    allowed_parties: Option<Result<Vec<Party>, Failure>>,
    max_nodes: usize,
    solve: &S,
) -> (r: Result<(ExitCodeNum, AnalyzeCounterexampleSuccessResponse), Failure>)
    requires
        forall|q: &WitnessRequest| #[trigger] solve.requires((q,)),
    ensures
        exists|reply: SolverReply|
            #[trigger] cli_analyze_workflow_is(r, contract_yaml@, property, action, target, allowed_parties, max_nodes as nat, *solve, reply),
{
    let ghost any_reply: SolverReply = arbitrary();
    let ghost t = target;
    let ghost a = allowed_parties;
    let contract = match read_analysis_contract(contract_yaml) {
        Ok(c) => c,
        Err(f) => {
            let r = Err(f);
            assert(cli_analyze_workflow_is(r, contract_yaml@, property, action, t, a, max_nodes as nat, *solve, any_reply));
            return r;
        },
    };
    let (name, step) = match cli_counterexample_analysis(&contract, property, action, target, allowed_parties, max_nodes) {
        Ok(started) => started,
        Err(f) => {
            let r = Err(f);
            assert(cli_analyze_workflow_is(r, contract_yaml@, property, action, t, a, max_nodes as nat, *solve, any_reply));
            return r;
        },
    };
    let (result, reply) = crate::analysis_service::finish_with(step, solve);
    let r = Ok(analyze_outcome(name, &result));
    assert(cli_analyze_workflow_is(r, contract_yaml@, property, action, t, a, max_nodes as nat, *solve, reply@));
    r
}

} // verus!
