//! The analysis endpoints. An analysis may need the solver between its
//! steps, so each endpoint is a few functions: one that reads the request and
//! starts, one that answers from a finished analysis, and for a repair, one
//! that applies the patch.
use crate::analyze::{
    deadline_outcome, finish_deadline_safety, solver_witness, SolverReply, WitnessRequest,
    analyze_authorization_safety, analyze_deadline_safety, apply_auto_repair_patch, authorization_result,
    authorization_scan, deadline_plan, deadline_scan, integer_option_view, party_option_view, patch_option_view,
    replacement_view, repaired, text_option_view, AuthScanV, AuthorizationRule, AuthorizationRuleV, AutoRepairPatch,
    AutoRepairPatchV, Counterexample, CounterexampleRequest, CounterexampleResult, CounterexampleResultV,
    CounterexampleStep, CounterexampleStepV, CounterexampleV, DeadlineStep, DeadlineStepV, ScanV,
};
use crate::api::{
    AnalyzeApplyRepairRequest, AnalyzeCounterexampleRequest, AnalyzePropertyRequest, AuthorizationActionRequest,
    AuthorizationRuleRequest,
};
use crate::ast::{Contract, ContractV, Party, PartyV};
use crate::integer::{int_decimal, nat_decimal, Integer};
use crate::parser::{join2, join3, parse_contract_yaml, read_contract_document};
use crate::serializer::{contract_to_yaml_string, write_contract};
use crate::service::{error_is, error_response, parse_error_message, refused, SimulateErrorResponse};
use crate::sim::ready_to_run;
use crate::text::usize_decimal;
use crate::typecheck::{type_check, TypeCheckContext};
use crate::yaml::yaml_text;
use vstd::prelude::*;

verus! {

#[derive(Debug, PartialEq, Eq)]
pub struct AnalyzeCounterexampleStepResponse {
    pub id: String,
    pub index: usize,
    pub kind: String,
    pub severity: String,
    pub path: String,
    pub actor: Option<Party>,
    pub time: Option<String>,
    pub detail: String,
    pub suggested_fix: String,
}

#[derive(Debug, PartialEq, Eq)]
pub struct AnalyzeAutoRepairPatchResponse {
    pub kind: String,
    pub path: String,
    pub value: String,
    pub rationale: String,
}

#[derive(Debug, PartialEq, Eq)]
pub struct AnalyzeCounterexampleWitnessResponse {
    pub violating_path: String,
    pub explanation: String,
    pub steps: Vec<AnalyzeCounterexampleStepResponse>,
    pub auto_repair_patch: Option<AnalyzeAutoRepairPatchResponse>,
    pub timeout: Option<String>,
    pub witness_time: Option<String>,
    pub offending_party: Option<Party>,
    pub action: Option<String>,
    pub target: Option<String>,
}

#[derive(Debug, PartialEq, Eq)]
pub struct AnalyzeCounterexampleSuccessResponse {
    pub property: String,
    pub status: String,
    pub checked_nodes: usize,
    pub counterexample: Option<AnalyzeCounterexampleWitnessResponse>,
}

#[derive(Debug, PartialEq, Eq)]
pub struct AnalyzeCounterexampleResponse {
    pub result: String,
    pub success: Option<AnalyzeCounterexampleSuccessResponse>,
    pub error: Option<SimulateErrorResponse>,
}

#[derive(Debug, PartialEq, Eq)]
pub struct AnalyzeApplyRepairSuccessResponse {
    pub property: String,
    pub repaired: bool,
    pub before: AnalyzeCounterexampleSuccessResponse,
    pub after: Option<AnalyzeCounterexampleSuccessResponse>,
    pub patched_contract_yaml: Option<String>,
}

#[derive(Debug, PartialEq, Eq)]
pub struct AnalyzeApplyRepairResponse {
    pub result: String,
    pub success: Option<AnalyzeApplyRepairSuccessResponse>,
    pub error: Option<SimulateErrorResponse>,
}

pub open spec fn decimal_option_is(r: Option<String>, i: Option<int>) -> bool {
    match i {
        None => r is None,
        Some(v) => r matches Some(x) && x@ == int_decimal(v),
    }
}

pub open spec fn step_response_is(r: AnalyzeCounterexampleStepResponse, s: CounterexampleStepV) -> bool {
    &&& r.id@ == s.id
    &&& r.index == s.index
    &&& r.kind@ == s.kind
    &&& r.severity@ == s.severity
    &&& r.path@ == s.path
    &&& party_option_view(r.actor) == s.actor
    &&& decimal_option_is(r.time, s.time)
    &&& r.detail@ == s.detail
    &&& r.suggested_fix@ == s.suggested_fix
}

pub open spec fn patch_response_is(r: Option<AnalyzeAutoRepairPatchResponse>, p: Option<AutoRepairPatchV>) -> bool {
    match p {
        None => r is None,
        Some(p) => r matches Some(x) && x.kind@ == p.kind && x.path@ == p.path && x.value@ == p.value && x.rationale@
            == p.rationale,
    }
}

/// A counterexample as the service reports it: integers in decimal.
pub open spec fn witness_is(w: AnalyzeCounterexampleWitnessResponse, c: CounterexampleV) -> bool {
    &&& w.violating_path@ == c.violating_path
    &&& w.explanation@ == c.explanation
    &&& w.steps@.len() == c.steps.len()
    &&& forall|i: int| 0 <= i < c.steps.len() ==> step_response_is(#[trigger] w.steps@[i], c.steps[i])
    &&& patch_response_is(w.auto_repair_patch, c.auto_repair_patch)
    &&& decimal_option_is(w.timeout, c.timeout)
    &&& decimal_option_is(w.witness_time, c.witness_time)
    &&& party_option_view(w.offending_party) == c.offending_party
    &&& text_option_view(w.action) == c.action
    &&& text_option_view(w.target) == c.target
}

fn decimal_option(i: &Option<Integer>) -> (r: Option<String>)
    ensures
        decimal_option_is(r, integer_option_view(*i)),
{
    match i {
        Some(v) => Some(v.to_decimal()),
        None => None,
    }
}

fn step_to_response(step: &CounterexampleStep) -> (r: AnalyzeCounterexampleStepResponse)
    ensures
        step_response_is(r, step@),
{
    AnalyzeCounterexampleStepResponse {
        id: step.id.clone(),
        index: step.index,
        kind: String::from_str(step.kind),
        severity: String::from_str(step.severity),
        path: step.path.clone(),
        actor: match &step.actor {
            Some(p) => Some(p.duplicate()),
            None => None,
        },
        time: decimal_option(&step.time),
        detail: step.detail.clone(),
        suggested_fix: step.suggested_fix.clone(),
    }
}

pub fn counterexample_to_response(counterexample: &Counterexample) -> (r: AnalyzeCounterexampleWitnessResponse)
    ensures
        witness_is(r, counterexample@),
{
    let ghost cv = counterexample@;
    let mut steps: Vec<AnalyzeCounterexampleStepResponse> = Vec::new();
    let mut i: usize = 0;
    while i < counterexample.steps.len()
        invariant
            cv == counterexample@,
            i <= counterexample.steps@.len(),
            steps@.len() == i,
            forall|j: int| 0 <= j < i ==> step_response_is(#[trigger] steps@[j], cv.steps[j]),
        decreases counterexample.steps@.len() - i,
    {
        assert(cv.steps[i as int] == counterexample.steps@[i as int]@);
        steps.push(step_to_response(&counterexample.steps[i]));
        i = i + 1;
    }
    AnalyzeCounterexampleWitnessResponse {
        violating_path: counterexample.violating_path.clone(),
        explanation: counterexample.explanation.clone(),
        steps,
        auto_repair_patch: match &counterexample.auto_repair_patch {
            Some(p) => Some(
                AnalyzeAutoRepairPatchResponse {
                    kind: String::from_str(p.kind),
                    path: p.path.clone(),
                    value: p.value.clone(),
                    rationale: p.rationale.clone(),
                },
            ),
            None => None,
        },
        timeout: decimal_option(&counterexample.timeout),
        witness_time: decimal_option(&counterexample.witness_time),
        offending_party: match &counterexample.offending_party {
            Some(p) => Some(p.duplicate()),
            None => None,
        },
        action: match counterexample.action {
            Some(a) => Some(String::from_str(a)),
            None => None,
        },
        target: counterexample.target.clone(),
    }
}

/// The report of a finished analysis of `property` over `checked` nodes.
pub open spec fn analysis_success_is(s: AnalyzeCounterexampleSuccessResponse, property: Seq<char>, checked: nat, found: Option<CounterexampleV>) -> bool {
    &&& s.property@ == property
    &&& s.checked_nodes == checked
    &&& match found {
        None => s.status@ == "pass_bounded"@ && s.counterexample is None,
        Some(c) => {
            &&& s.status@ == "counterexample_found"@
            &&& s.counterexample matches Some(w)
            &&& witness_is(w, c)
        },
    }
}

pub fn analysis_success_response(property: &str, checked_nodes: usize, counterexample: Option<&Counterexample>) -> (r: AnalyzeCounterexampleSuccessResponse)
    ensures
        analysis_success_is(
            r,
            property@,
            checked_nodes as nat,
            match counterexample {
                None => None,
                Some(c) => Some(c@),
            },
        ),
{
    proof {
        reveal_strlit("pass_bounded");
        reveal_strlit("counterexample_found");
    }
    match counterexample {
        None => AnalyzeCounterexampleSuccessResponse {
            property: String::from_str(property),
            status: String::from_str("pass_bounded"),
            checked_nodes,
            counterexample: None,
        },
        Some(c) => AnalyzeCounterexampleSuccessResponse {
            property: String::from_str(property),
            status: String::from_str("counterexample_found"),
            checked_nodes,
            counterexample: Some(counterexample_to_response(c)),
        },
    }
}

/// Why an analysis request is refused.
#[derive(Debug, PartialEq, Eq)]
pub struct RequestFailure {
    pub code: &'static str,
    pub subcode: &'static str,
    pub message: String,
    pub path: Option<String>,
}

pub struct RequestFailureV {
    pub code: Seq<char>,
    pub subcode: Seq<char>,
    pub message: Seq<char>,
    pub path: Option<Seq<char>>,
}

impl View for RequestFailure {
    type V = RequestFailureV;

    open spec fn view(&self) -> RequestFailureV {
        RequestFailureV { code: self.code@, subcode: self.subcode@, message: self.message@, path: text_option_view(self.path) }
    }
}

pub open spec fn failure(code: Seq<char>, subcode: Seq<char>, message: Seq<char>, path: Option<Seq<char>>) -> RequestFailureV {
    RequestFailureV { code, subcode, message, path }
}

/// The contract an analysis request names, which must parse and be ready
/// to run.
pub open spec fn analysis_contract(text: Seq<char>) -> Result<ContractV, RequestFailureV> {
    match read_contract_document(text) {
        Err(e) => Err(failure("RequestError"@, "ParseError"@, parse_error_message(e), Some(e.path))),
        Ok(c) => if ready_to_run(c) {
            Ok(c)
        } else {
            Err(
                failure(
                    "ValidationError"@,
                    "NotReadyToRun"@,
                    "contract must be fully instantiated and type-safe before analysis"@,
                    Some("$.contract_yaml"@),
                ),
            )
        },
    }
}

pub fn prepare_analysis(contract_yaml: &str) -> (r: Result<Contract, RequestFailure>)
    ensures
        match r {
            Ok(c) => analysis_contract(contract_yaml@) == Ok::<ContractV, RequestFailureV>(c@),
            Err(f) => analysis_contract(contract_yaml@) == Err::<ContractV, RequestFailureV>(f@),
        },
{
    let contract = match parse_contract_yaml(contract_yaml) {
        Ok(contract) => contract,
        Err(err) => {
            let message = join3(err.path.as_str(), ": ", err.message.as_str());
            proof { reveal_strlit("RequestError"); reveal_strlit("ParseError"); }
            return Err(RequestFailure { code: "RequestError", subcode: "ParseError", message, path: Some(err.path) });
        },
    };
    let validation = type_check(&contract, &TypeCheckContext::default());
    if !validation.ready_to_run {
        proof { reveal_strlit("ValidationError"); reveal_strlit("NotReadyToRun"); }
        return Err(
            RequestFailure {
                code: "ValidationError",
                subcode: "NotReadyToRun",
                message: String::from_str("contract must be fully instantiated and type-safe before analysis"),
                path: Some(String::from_str("$.contract_yaml")),
            },
        );
    }
    Ok(contract)
}

pub open spec fn rule_view(r: AuthorizationRuleRequest) -> AuthorizationRuleV {
    AuthorizationRuleV {
        action: match r.action {
            AuthorizationActionRequest::Deposit => crate::analyze::AuthorizationAction::Deposit,
            AuthorizationActionRequest::Choice => crate::analyze::AuthorizationAction::Choice,
        },
        target: text_option_view(r.target),
        allowed_parties: r.allowed_parties@.map_values(|p: Party| p@),
    }
}

/// The deadline analysis of a contract: the scan's plan.
pub open spec fn deadline_analysis(c: ContractV, max_nodes: nat) -> DeadlineStepV {
    deadline_plan(deadline_scan(c, "$"@, max_nodes, ScanV { checked: 0, candidate: None, unsupported: None }))
}

/// The authorization analysis of a contract under a rule.
pub open spec fn authorization_analysis(c: ContractV, max_nodes: nat, rule: AuthorizationRuleV) -> CounterexampleResultV {
    authorization_result(authorization_scan(c, "$"@, max_nodes, rule, AuthScanV { checked: 0, counterexample: None, unsupported: None }))
}

/// The property's name and its analysis; authorization safety needs a rule
/// that allows some party.
pub open spec fn analysis_run(c: ContractV, property: AnalyzePropertyRequest, rule: Option<AuthorizationRuleRequest>, max_nodes: nat) -> Result<(Seq<char>, DeadlineStepV), RequestFailureV> {
    match property {
        AnalyzePropertyRequest::DeadlineSafety => Ok(("deadline_safety"@, deadline_analysis(c, max_nodes))),
        AnalyzePropertyRequest::AuthorizationSafety => match rule {
            None => Err(
                failure(
                    "RequestError"@,
                    "MissingAuthorizationRule"@,
                    "authorization_safety requires an authorization_rule"@,
                    Some("$.authorization_rule"@),
                ),
            ),
            Some(rule) => if rule.allowed_parties@.len() == 0 {
                Err(
                    failure(
                        "RequestError"@,
                        "InvalidAuthorizationRule"@,
                        "authorization_rule.allowed_parties must not be empty"@,
                        Some("$.authorization_rule.allowed_parties"@),
                    ),
                )
            } else {
                Ok(("authorization_safety"@, DeadlineStepV::Done(authorization_analysis(c, max_nodes, rule_view(rule)))))
            },
        },
    }
}

pub fn run_counterexample_analysis(
    contract: &Contract,
    property: AnalyzePropertyRequest,
    authorization_rule: Option<&AuthorizationRuleRequest>,
    max_nodes: usize,
) -> (r: Result<(&'static str, DeadlineStep), RequestFailure>)
    ensures
        match r {
            Ok((name, step)) => analysis_run(
                contract@,
                property,
                match authorization_rule {
                    None => None,
                    Some(x) => Some(*x),
                },
                max_nodes as nat,
            ) == Ok::<(Seq<char>, DeadlineStepV), RequestFailureV>((name@, step@)),
            Err(f) => analysis_run(
                contract@,
                property,
                match authorization_rule {
                    None => None,
                    Some(x) => Some(*x),
                },
                max_nodes as nat,
            ) == Err::<(Seq<char>, DeadlineStepV), RequestFailureV>(f@),
        },
{
    let request = CounterexampleRequest { max_nodes };
    match property {
        AnalyzePropertyRequest::DeadlineSafety => Ok(("deadline_safety", analyze_deadline_safety(contract, &request))),
        AnalyzePropertyRequest::AuthorizationSafety => {
            let rule = match authorization_rule {
                None => {
                    return Err(
                        RequestFailure {
                            code: "RequestError",
                            subcode: "MissingAuthorizationRule",
                            message: String::from_str("authorization_safety requires an authorization_rule"),
                            path: Some(String::from_str("$.authorization_rule")),
                        },
                    );
                },
                Some(rule) => rule,
            };
            if rule.allowed_parties.len() == 0 {
                return Err(
                    RequestFailure {
                        code: "RequestError",
                        subcode: "InvalidAuthorizationRule",
                        message: String::from_str("authorization_rule.allowed_parties must not be empty"),
                        path: Some(String::from_str("$.authorization_rule.allowed_parties")),
                    },
                );
            }
            let mut allowed: Vec<Party> = Vec::new();
            let mut i: usize = 0;
            while i < rule.allowed_parties.len()
                invariant
                    i <= rule.allowed_parties@.len(),
                    allowed@.len() == i,
                    forall|j: int| 0 <= j < i ==> (#[trigger] allowed@[j])@ == rule.allowed_parties@[j]@,
                decreases rule.allowed_parties@.len() - i,
            {
                allowed.push(rule.allowed_parties[i].duplicate());
                i = i + 1;
            }
            let mapped = AuthorizationRule { action: rule.action.action(), target: rule.target.clone(), allowed_parties: allowed };
            assert(mapped@.allowed_parties =~= rule.allowed_parties@.map_values(|p: Party| p@));
            assert(mapped@ == rule_view(*rule));
            let result = analyze_authorization_safety(contract, &request, &mapped);
            Ok(("authorization_safety", DeadlineStep::Done(result)))
        },
    }
}

pub fn analyze_bad_request(code: &str, subcode: &str, message: String, path: Option<String>) -> (r: (u16, AnalyzeCounterexampleResponse))
    ensures
        refused(r.0, r.1.result@, r.1.success, r.1.error, code@, subcode@, message@, text_option_view(path)),
{
    proof { reveal_strlit("error"); }
    (400, AnalyzeCounterexampleResponse {
        result: String::from_str("error"),
        success: None,
        error: Some(error_response(code, subcode, message, path, None)),
    })
}

pub fn analyze_apply_repair_bad_request(code: &str, subcode: &str, message: String, path: Option<String>) -> (r: (u16, AnalyzeApplyRepairResponse))
    ensures
        refused(r.0, r.1.result@, r.1.success, r.1.error, code@, subcode@, message@, text_option_view(path)),
{
    proof { reveal_strlit("error"); }
    (400, AnalyzeApplyRepairResponse {
        result: String::from_str("error"),
        success: None,
        error: Some(error_response(code, subcode, message, path, None)),
    })
}

pub fn analyze_apply_repair_internal_error(message: String) -> (r: (u16, AnalyzeApplyRepairResponse))
    ensures
        crate::service::internal_failure(r.0, r.1.result@, r.1.success, r.1.error, message@),
{
    proof { reveal_strlit("error"); }
    (500, AnalyzeApplyRepairResponse {
        result: String::from_str("error"),
        success: None,
        error: Some(error_response("InternalError", "InternalError", message, None, None)),
    })
}

/// How an analysis that could not be carried out is reported.
pub open spec fn unsupported_message(reason: Seq<char>, checked: nat) -> Seq<char> {
    reason + " (checked_nodes="@ + nat_decimal(checked) + ")"@
}

fn unsupported_text(reason: &String, checked_nodes: usize) -> (r: String)
    ensures
        r@ == unsupported_message(reason@, checked_nodes as nat),
{
    let mut m = join2(reason.as_str(), " (checked_nodes=");
    m.append(usize_decimal(checked_nodes).as_str());
    m.append(")");
    m
}

/// The answer to a finished analysis: a pass or a counterexample is a
/// success (a counterexample reported under its own property's name), an
/// unsupported contract a refusal at the path where the analysis stopped.
pub open spec fn analysis_answer_is(r: (u16, AnalyzeCounterexampleResponse), property: Seq<char>, result: CounterexampleResultV) -> bool {
    match result {
        CounterexampleResultV::PassBounded { checked_nodes } => {
            &&& r.0 == 200
            &&& r.1.result@ == "success"@
            &&& r.1.error is None
            &&& r.1.success matches Some(s) && analysis_success_is(s, property, checked_nodes, None)
        },
        CounterexampleResultV::CounterexampleFound { checked_nodes, counterexample } => {
            &&& r.0 == 200
            &&& r.1.result@ == "success"@
            &&& r.1.error is None
            &&& r.1.success matches Some(s) && analysis_success_is(s, counterexample.property, checked_nodes, Some(counterexample))
        },
        CounterexampleResultV::Unsupported { checked_nodes, path, reason } => refused(
            r.0,
            r.1.result@,
            r.1.success,
            r.1.error,
            "AnalysisError"@,
            "UnsupportedContractForProperty"@,
            unsupported_message(reason, checked_nodes),
            Some(path),
        ),
    }
}

pub fn analysis_response(property: &str, result: &CounterexampleResult) -> (r: (u16, AnalyzeCounterexampleResponse))
    ensures
        analysis_answer_is(r, property@, result@),
{
    proof { reveal_strlit("success"); }
    match result {
        CounterexampleResult::PassBounded { checked_nodes } => (200, AnalyzeCounterexampleResponse {
            result: String::from_str("success"),
            success: Some(analysis_success_response(property, *checked_nodes, None)),
            error: None,
        }),
        CounterexampleResult::CounterexampleFound { checked_nodes, counterexample } => (200, AnalyzeCounterexampleResponse {
            result: String::from_str("success"),
            success: Some(analysis_success_response(counterexample.property, *checked_nodes, Some(counterexample))),
            error: None,
        }),
        CounterexampleResult::Unsupported { checked_nodes, path, reason } => analyze_bad_request(
            "AnalysisError",
            "UnsupportedContractForProperty",
            unsupported_text(reason, *checked_nodes),
            Some(path.clone()),
        ),
    }
}

/// How an analysis request starts: refused, or the property's name and the
/// analysis, which may still need the solver.
pub open spec fn counterexample_start_is(r: Result<(&'static str, DeadlineStep), (u16, AnalyzeCounterexampleResponse)>, request: AnalyzeCounterexampleRequest) -> bool {
    match analysis_contract(request.contract_yaml@) {
        Err(f) => r matches Err(x) && refused(x.0, x.1.result@, x.1.success, x.1.error, f.code, f.subcode, f.message, f.path),
        Ok(c) => match analysis_run(c, request.property, request.authorization_rule, request.max_nodes as nat) {
            Err(f) => r matches Err(x) && refused(x.0, x.1.result@, x.1.success, x.1.error, f.code, f.subcode, f.message, f.path),
            Ok((name, step)) => r matches Ok((n, s)) && n@ == name && s@ == step,
        },
    }
}

pub fn analyze_counterexample_start(request: &AnalyzeCounterexampleRequest) -> (r: Result<(&'static str, DeadlineStep), (u16, AnalyzeCounterexampleResponse)>)
    ensures
        counterexample_start_is(r, *request),
{
    let contract = match prepare_analysis(request.contract_yaml.as_str()) {
        Ok(contract) => contract,
        Err(f) => {
            return Err(analyze_bad_request(f.code, f.subcode, f.message, f.path));
        },
    };
    match run_counterexample_analysis(&contract, request.property, request.authorization_rule.as_ref(), request.max_nodes) {
        Ok(started) => Ok(started),
        Err(f) => Err(analyze_bad_request(f.code, f.subcode, f.message, f.path)),
    }
}

/// How a repair starts: refused, or the contract, the property's name and
/// the analysis before the repair.
pub open spec fn repair_start_is(r: Result<(Contract, &'static str, DeadlineStep), (u16, AnalyzeApplyRepairResponse)>, request: AnalyzeApplyRepairRequest) -> bool {
    match analysis_contract(request.contract_yaml@) {
        Err(f) => r matches Err(x) && refused(x.0, x.1.result@, x.1.success, x.1.error, f.code, f.subcode, f.message, f.path),
        Ok(c) => match analysis_run(c, request.property, request.authorization_rule, request.max_nodes as nat) {
            Err(f) => r matches Err(x) && refused(x.0, x.1.result@, x.1.success, x.1.error, f.code, f.subcode, f.message, f.path),
            Ok((name, step)) => r matches Ok((k, n, s)) && k@ == c && n@ == name && s@ == step,
        },
    }
}

pub fn analyze_apply_repair_start(request: &AnalyzeApplyRepairRequest) -> (r: Result<(Contract, &'static str, DeadlineStep), (u16, AnalyzeApplyRepairResponse)>)
    ensures
        repair_start_is(r, *request),
{
    let contract = match prepare_analysis(request.contract_yaml.as_str()) {
        Ok(contract) => contract,
        Err(f) => {
            return Err(analyze_apply_repair_bad_request(f.code, f.subcode, f.message, f.path));
        },
    };
    match run_counterexample_analysis(&contract, request.property, request.authorization_rule.as_ref(), request.max_nodes) {
        Ok((name, step)) => Ok((contract, name, step)),
        Err(f) => Err(analyze_apply_repair_bad_request(f.code, f.subcode, f.message, f.path)),
    }
}

/// After the first analysis of a repair: either the answer, or the report
/// of that analysis and the patch it proposes.
#[derive(Debug, PartialEq, Eq)]
pub enum RepairPlan {
    Respond(u16, AnalyzeApplyRepairResponse),
    Patch(AnalyzeCounterexampleSuccessResponse, AutoRepairPatch),
}

pub open spec fn unrepaired_is(r: AnalyzeApplyRepairResponse, property: Seq<char>, checked: nat, found: Option<CounterexampleV>, reported_as: Seq<char>) -> bool {
    &&& r.result@ == "success"@
    &&& r.error is None
    &&& r.success matches Some(s) && s.property@ == property && !s.repaired && analysis_success_is(
        s.before,
        reported_as,
        checked,
        found,
    ) && s.after is None && s.patched_contract_yaml is None
}

/// Without a counterexample, or with one that proposes no patch, there is
/// nothing to repair; an unsupported contract is refused.
pub open spec fn repair_plan_is(p: RepairPlan, property: Seq<char>, before: CounterexampleResultV) -> bool {
    match before {
        CounterexampleResultV::PassBounded { checked_nodes } => p matches RepairPlan::Respond(status, r) && status == 200
            && unrepaired_is(r, property, checked_nodes, None, property),
        CounterexampleResultV::CounterexampleFound { checked_nodes, counterexample } => match counterexample.auto_repair_patch {
            None => p matches RepairPlan::Respond(status, r) && status == 200 && unrepaired_is(
                r,
                property,
                checked_nodes,
                Some(counterexample),
                counterexample.property,
            ),
            Some(patch) => p matches RepairPlan::Patch(s, q) && q@ == patch && analysis_success_is(
                s,
                counterexample.property,
                checked_nodes,
                Some(counterexample),
            ),
        },
        CounterexampleResultV::Unsupported { checked_nodes, path, reason } => p matches RepairPlan::Respond(status, r)
            && refused(
            status,
            r.result@,
            r.success,
            r.error,
            "AnalysisError"@,
            "UnsupportedContractForProperty"@,
            unsupported_message(reason, checked_nodes),
            Some(path),
        ),
    }
}

fn copy_patch(p: &AutoRepairPatch) -> (r: AutoRepairPatch)
    ensures
        r@ == p@,
{
    AutoRepairPatch { kind: p.kind, path: p.path.clone(), value: p.value.clone(), rationale: p.rationale.clone() }
}

pub fn apply_repair_plan(property: &str, before: &CounterexampleResult) -> (r: RepairPlan)
    ensures
        repair_plan_is(r, property@, before@),
{
    proof { reveal_strlit("success"); }
    match before {
        CounterexampleResult::PassBounded { checked_nodes } => RepairPlan::Respond(
            200,
            AnalyzeApplyRepairResponse {
                result: String::from_str("success"),
                success: Some(
                    AnalyzeApplyRepairSuccessResponse {
                        property: String::from_str(property),
                        repaired: false,
                        before: analysis_success_response(property, *checked_nodes, None),
                        after: None,
                        patched_contract_yaml: None,
                    },
                ),
                error: None,
            },
        ),
        CounterexampleResult::CounterexampleFound { checked_nodes, counterexample } => {
            let report = analysis_success_response(counterexample.property, *checked_nodes, Some(counterexample));
            match &counterexample.auto_repair_patch {
                Some(patch) => RepairPlan::Patch(report, copy_patch(patch)),
                None => RepairPlan::Respond(
                    200,
                    AnalyzeApplyRepairResponse {
                        result: String::from_str("success"),
                        success: Some(
                            AnalyzeApplyRepairSuccessResponse {
                                property: String::from_str(property),
                                repaired: false,
                                before: report,
                                after: None,
                                patched_contract_yaml: None,
                            },
                        ),
                        error: None,
                    },
                ),
            }
        },
        CounterexampleResult::Unsupported { checked_nodes, path, reason } => {
            let (status, r) = analyze_apply_repair_bad_request(
                "AnalysisError",
                "UnsupportedContractForProperty",
                unsupported_text(reason, *checked_nodes),
                Some(path.clone()),
            );
            RepairPlan::Respond(status, r)
        },
    }
}

/// Applying the patch: refused when it does not apply to exactly one place,
/// an internal error when the patched contract cannot be written; otherwise
/// the patched contract and its text.
pub open spec fn repair_patch_is(r: Result<(Contract, String), (u16, AnalyzeApplyRepairResponse)>, c: ContractV, patch: AutoRepairPatchV, replacement: Result<PartyV, Seq<char>>) -> bool {
    match repaired(c, patch, replacement) {
        Err(e) => r matches Err(x) && refused(
            x.0,
            x.1.result@,
            x.1.success,
            x.1.error,
            "RepairError"@,
            "PatchApplyFailed"@,
            e,
            Some("$.counterexample.auto_repair_patch.path"@),
        ),
        Ok(k) => match yaml_text(write_contract(k)) {
            Err(m) => r matches Err(x) && crate::service::internal_failure(
                x.0,
                x.1.result@,
                x.1.success,
                x.1.error,
                "failed to serialize patched contract: "@ + m,
            ),
            Ok(text) => r matches Ok((p, t)) && p@ == k && t@ == text,
        },
    }
}

pub fn apply_repair_patch(contract: &Contract, patch: &AutoRepairPatch, replacement: &Result<Party, String>) -> (r: Result<(Contract, String), (u16, AnalyzeApplyRepairResponse)>)
    ensures
        repair_patch_is(r, contract@, patch@, replacement_view(*replacement)),
{
    let patched = match apply_auto_repair_patch(contract, patch, replacement) {
        Ok(patched) => patched,
        Err(e) => {
            return Err(
                analyze_apply_repair_bad_request(
                    "RepairError",
                    "PatchApplyFailed",
                    e,
                    Some(String::from_str("$.counterexample.auto_repair_patch.path")),
                ),
            );
        },
    };
    match contract_to_yaml_string(&patched) {
        Ok(text) => Ok((patched, text)),
        Err(err) => Err(analyze_apply_repair_internal_error(join2("failed to serialize patched contract: ", err.as_str()))),
    }
}

/// The answer after the repair: the analysis of the patched contract, with
/// the report before and the patched text; refused when the patched
/// contract cannot be analyzed.
pub open spec fn repair_answer_is(
    r: (u16, AnalyzeApplyRepairResponse),
    property: Seq<char>,
    before: AnalyzeCounterexampleSuccessResponse,
    after: CounterexampleResultV,
    patched: Seq<char>,
) -> bool {
    match after {
        CounterexampleResultV::Unsupported { checked_nodes, path, reason } => refused(
            r.0,
            r.1.result@,
            r.1.success,
            r.1.error,
            "AnalysisError"@,
            "UnsupportedContractForProperty"@,
            unsupported_message(reason, checked_nodes),
            Some(path),
        ),
        _ => {
            &&& r.0 == 200
            &&& r.1.result@ == "success"@
            &&& r.1.error is None
            &&& r.1.success matches Some(s)
            &&& s.property@ == property
            &&& s.repaired
            &&& s.before == before
            &&& text_option_view(s.patched_contract_yaml) == Some(patched)
            &&& s.after matches Some(a)
            &&& match after {
                CounterexampleResultV::PassBounded { checked_nodes } => analysis_success_is(a, property, checked_nodes, None),
                CounterexampleResultV::CounterexampleFound { checked_nodes, counterexample } => analysis_success_is(
                    a,
                    counterexample.property,
                    checked_nodes,
                    Some(counterexample),
                ),
                _ => false,
            }
        },
    }
}

pub fn apply_repair_answer(
    property: &str,
    before: AnalyzeCounterexampleSuccessResponse,
    after: &CounterexampleResult,
    patched_contract_yaml: String,
) -> (r: (u16, AnalyzeApplyRepairResponse))
    ensures
        repair_answer_is(r, property@, before, after@, patched_contract_yaml@),
{
    let after_report = match after {
        CounterexampleResult::PassBounded { checked_nodes } => analysis_success_response(property, *checked_nodes, None),
        CounterexampleResult::CounterexampleFound { checked_nodes, counterexample } => analysis_success_response(
            counterexample.property,
            *checked_nodes,
            Some(counterexample),
        ),
        CounterexampleResult::Unsupported { checked_nodes, path, reason } => {
            return analyze_apply_repair_bad_request(
                "AnalysisError",
                "UnsupportedContractForProperty",
                unsupported_text(reason, *checked_nodes),
                Some(path.clone()),
            );
        },
    };
    proof { reveal_strlit("success"); }
    (200, AnalyzeApplyRepairResponse {
        result: String::from_str("success"),
        success: Some(
            AnalyzeApplyRepairSuccessResponse {
                property: String::from_str(property),
                repaired: true,
                before,
                after: Some(after_report),
                patched_contract_yaml: Some(patched_contract_yaml),
            },
        ),
        error: None,
    })
}

/// The analysis a step comes to, once the solver has given `reply` where
/// it was asked.
pub open spec fn step_outcome(step: DeadlineStepV, reply: SolverReply) -> CounterexampleResultV {
    match step {
        DeadlineStepV::Done(result) => result,
        DeadlineStepV::Solve(w) => deadline_outcome(w, solver_witness(w.minimized, reply)),
    }
}

/// `reply` is an answer that `solve` may give to the step's query, when the
/// step asks one.
pub open spec fn solver_answered<S: Fn(&WitnessRequest) -> SolverReply>(solve: S, step: DeadlineStepV, reply: SolverReply) -> bool {
    match step {
        DeadlineStepV::Done(_) => true,
        DeadlineStepV::Solve(w) => exists|q: &WitnessRequest| q@ == w && call_ensures(solve, (q,), reply),
    }
}

/// `rep` is what `read_party` may give for the text `value`.
pub open spec fn party_read<P: Fn(&str) -> Result<Party, String>>(read_party: P, value: Seq<char>, rep: Result<Party, String>) -> bool {
    exists|v: &str| v@ == value && call_ensures(read_party, (v,), rep)
}

/// The repair endpoint as a whole. The contract must parse and be ready,
/// and the analysis must start; then, with `first` the solver's answer to
/// the first analysis: an unsupported contract is refused; without a
/// counterexample, or with one that proposes no patch, nothing is repaired
/// (`after` and the patched text absent); otherwise the patch is applied,
/// with `rep` the party read from the patch where it names one, the patched
/// contract is written and analysed again (the solver answering `second`),
/// and the answer is repaired, with the first report, the patched text and
/// the second analysis.
pub open spec fn repair_workflow_is<S: Fn(&WitnessRequest) -> SolverReply, P: Fn(&str) -> Result<Party, String>>(
    r: (u16, AnalyzeApplyRepairResponse),
    request: AnalyzeApplyRepairRequest,
    solve: S,
    first: SolverReply,
    second: SolverReply,
    read_party: P,
    rep: Result<Party, String>,
) -> bool {
    match analysis_contract(request.contract_yaml@) {
        Err(f) => refused(r.0, r.1.result@, r.1.success, r.1.error, f.code, f.subcode, f.message, f.path),
        Ok(c) => match analysis_run(c, request.property, request.authorization_rule, request.max_nodes as nat) {
            Err(f) => refused(r.0, r.1.result@, r.1.success, r.1.error, f.code, f.subcode, f.message, f.path),
            Ok((name, step)) => {
                let before = step_outcome(step, first);
                &&& solver_answered(solve, step, first)
                &&& match before {
                    CounterexampleResultV::CounterexampleFound { checked_nodes, counterexample } => match counterexample.auto_repair_patch {
                        None => repair_plan_is(RepairPlan::Respond(r.0, r.1), name, before),
                        Some(patch) => {
                            &&& party_read(read_party, patch.value, rep)
                            &&& match repaired(c, patch, replacement_view(rep)) {
                                Err(e) => refused(
                                    r.0,
                                    r.1.result@,
                                    r.1.success,
                                    r.1.error,
                                    "RepairError"@,
                                    "PatchApplyFailed"@,
                                    e,
                                    Some("$.counterexample.auto_repair_patch.path"@),
                                ),
                                Ok(k) => match yaml_text(write_contract(k)) {
                                    Err(m) => crate::service::internal_failure(
                                        r.0,
                                        r.1.result@,
                                        r.1.success,
                                        r.1.error,
                                        "failed to serialize patched contract: "@ + m,
                                    ),
                                    Ok(text) => match analysis_run(k, request.property, request.authorization_rule, request.max_nodes as nat) {
                                        Err(f) => refused(r.0, r.1.result@, r.1.success, r.1.error, f.code, f.subcode, f.message, f.path),
                                        Ok((_, step2)) => {
                                            &&& solver_answered(solve, step2, second)
                                            &&& exists|report: AnalyzeCounterexampleSuccessResponse|
                                                #[trigger] analysis_success_is(report, counterexample.property, checked_nodes, Some(counterexample))
                                                && repair_answer_is(r, name, report, step_outcome(step2, second), text)
                                        },
                                    },
                                },
                            }
                        },
                    },
                    _ => repair_plan_is(RepairPlan::Respond(r.0, r.1), name, before),
                }
            },
        },
    }
}

pub(crate) fn finish_with<S: Fn(&WitnessRequest) -> SolverReply>(step: DeadlineStep, solve: &S) -> (r: (CounterexampleResult, Ghost<SolverReply>))
    requires
        forall|q: &WitnessRequest| #[trigger] solve.requires((q,)),
    ensures
        r.0@ == step_outcome(step@, r.1@),
        solver_answered(*solve, step@, r.1@),
{
    match step {
        DeadlineStep::Done(result) => (result, Ghost(arbitrary())),
        DeadlineStep::Solve(w) => {
            let reply = solve(&w);
            let result = finish_deadline_safety(&w, &reply);
            (result, Ghost(reply))
        },
    }
}

/// The repair endpoint: the analysis, the patch where one is proposed, and
/// the analysis of the patched contract, with `solve` answering the
/// solver's queries and `read_party` reading the party that a patch names.
pub fn apply_repair_workflow<S: Fn(&WitnessRequest) -> SolverReply, P: Fn(&str) -> Result<Party, String>>(
    request: &AnalyzeApplyRepairRequest,
    solve: &S,
    read_party: &P,
) -> (r: (u16, AnalyzeApplyRepairResponse))
    requires
        forall|q: &WitnessRequest| #[trigger] solve.requires((q,)),
        forall|v: &str| #[trigger] read_party.requires((v,)),
    ensures
        exists|first: SolverReply, second: SolverReply, rep: Result<Party, String>|
            #[trigger] repair_workflow_is(r, *request, *solve, first, second, *read_party, rep),
{
    let ghost any_reply: SolverReply = arbitrary();
    let ghost any_party: Result<Party, String> = arbitrary();
    let (contract, property, step) = match analyze_apply_repair_start(request) {
        Ok(started) => started,
        Err(refusal) => {
            assert(repair_workflow_is(refusal, *request, *solve, any_reply, any_reply, *read_party, any_party));
            return refusal;
        },
    };
    let (before, first) = finish_with(step, solve);
    let (report, patch) = match apply_repair_plan(property, &before) {
        RepairPlan::Respond(code, response) => {
            assert(repair_workflow_is((code, response), *request, *solve, first@, any_reply, *read_party, any_party));
            return (code, response);
        },
        RepairPlan::Patch(report, patch) => (report, patch),
    };
    let replacement = read_party(patch.value.as_str());
    let (patched, patched_yaml) = match apply_repair_patch(&contract, &patch, &replacement) {
        Ok(done) => done,
        Err(refusal) => {
            assert(repair_workflow_is(refusal, *request, *solve, first@, any_reply, *read_party, replacement));
            return refusal;
        },
    };
    let (after, second) = match run_counterexample_analysis(
        &patched,
        request.property,
        request.authorization_rule.as_ref(),
        request.max_nodes,
    ) {
        Ok((_, step2)) => finish_with(step2, solve),
        Err(f) => {
            let refusal = analyze_apply_repair_bad_request(f.code, f.subcode, f.message, f.path);
            assert(repair_workflow_is(refusal, *request, *solve, first@, any_reply, *read_party, replacement));
            return refusal;
        },
    };
    let answer = apply_repair_answer(property, report, &after, patched_yaml);
    assert(repair_workflow_is(answer, *request, *solve, first@, second@, *read_party, replacement));
    answer
}

/// The counterexample endpoint as a whole: the request is refused, or the
/// analysis is answered, with `reply` the solver's answer where it was
/// asked.
pub open spec fn counterexample_workflow_is<S: Fn(&WitnessRequest) -> SolverReply>(
    r: (u16, AnalyzeCounterexampleResponse),
    request: AnalyzeCounterexampleRequest,
    solve: S,
    reply: SolverReply,
) -> bool {
    match analysis_contract(request.contract_yaml@) {
        Err(f) => refused(r.0, r.1.result@, r.1.success, r.1.error, f.code, f.subcode, f.message, f.path),
        Ok(c) => match analysis_run(c, request.property, request.authorization_rule, request.max_nodes as nat) {
            Err(f) => refused(r.0, r.1.result@, r.1.success, r.1.error, f.code, f.subcode, f.message, f.path),
            Ok((name, step)) => solver_answered(solve, step, reply) && analysis_answer_is(r, name, step_outcome(step, reply)),
        },
    }
}

/// The counterexample endpoint, with `solve` answering the solver's query.
pub fn analyze_counterexample_workflow<S: Fn(&WitnessRequest) -> SolverReply>(
    request: &AnalyzeCounterexampleRequest,
    solve: &S,
) -> (r: (u16, AnalyzeCounterexampleResponse))
    requires
        forall|q: &WitnessRequest| #[trigger] solve.requires((q,)),
    ensures
        exists|reply: SolverReply| #[trigger] counterexample_workflow_is(r, *request, *solve, reply),
{
    match analyze_counterexample_start(request) {
        Err(refusal) => {
            let ghost any_reply: SolverReply = arbitrary();
            assert(counterexample_workflow_is(refusal, *request, *solve, any_reply));
            refusal
        },
        Ok((property, step)) => {
            let (result, reply) = finish_with(step, solve);
            let answer = analysis_response(property, &result);
            assert(counterexample_workflow_is(answer, *request, *solve, reply@));
            answer
        },
    }
}

} // verus!
