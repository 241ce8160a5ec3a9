//! What the service answers: a request is read, checked and run, and every
//! outcome, success or refusal, becomes a status code and a response.
use crate::analyze::text_option_view;
use crate::api::{
    big_int_value, context_request_spec, map_state_request, map_tx_request, map_typecheck_context_request,
    state_request_spec, tx_request_spec, ContextMapErrorV, SimulatePreviewRequest, SimulateStepRequest,
    TypecheckExplainRequest,
};
use crate::ast::{dsl_type_name, ContractV, DslType};
use crate::integer::{int_decimal, nat_decimal};
use crate::parser::{parse_contract_yaml, read_contract_document, join2, join3, ParseErrorV};
use crate::responses::{
    payment_response_is, payment_to_response, payments_response_is, payments_to_response, state_response_is,
    state_to_response, trace_input_response_is, trace_input_to_response, trace_rule_name, trace_rule_text,
    warning_response_is, warning_to_response, warnings_response_is, warnings_to_response, PaymentResponse,
    StateResponse, TraceInputResponse, TraceStateDeltaResponse, WarningResponse, PreviewInputResponse,
    preview_inputs_response_is, preview_inputs_to_response,
};
use crate::serializer::{contract_to_yaml_string, write_contract};
use crate::yaml::yaml_text;
use crate::sim::{
    preview_inputs, preview_spec, ready_to_run, simulate_spec, simulate_transaction_with_trace, PreviewResultV,
    SimTransactionResult, SimTransactionResultV, trace_view, warning_option_view, PaymentV, SimError, SimErrorV, SimTransactionSuccess, SimTransactionSuccessV,
    TraceReduceRule, TraceStep, TraceStepV, TransactionWarning, TransactionWarningV,
};
use crate::spans::{
    constructor_span, details_view, diagnostic_span, find_constructor_span, locate_diagnostic_span,
    locate_root_contract_span, root_contract_span, span_option_view, SourceSpan, SpanV,
};
use crate::text::{first_occurrence, index, index_path, contains_text, lowercase, to_lowercase, usize_decimal};
use crate::typecheck::{
    diagnostics_view, empty_context, symbols_view, type_check, type_check_result_is, TypeCheckContext, Diagnostic, DiagnosticV, TypeCheckResult,
    TypeCheckResultV, TypedSymbol, TypedSymbolV,
};
use vstd::prelude::*;

verus! {

/// A diagnostic of a refused request, located in the contract's text where
/// it can be.
#[derive(Debug, PartialEq, Eq)]
pub struct ErrorDiagnosticResponse {
    pub code: String,
    pub subcode: String,
    pub path: String,
    pub message: String,
    pub line: Option<usize>,
    pub column: Option<usize>,
    pub end_line: Option<usize>,
    pub end_column: Option<usize>,
    pub details: Vec<(String, String)>,
}

/// Why a request was refused.
#[derive(Debug, PartialEq, Eq)]
pub struct SimulateErrorResponse {
    pub code: String,
    pub subcode: String,
    pub message: String,
    pub path: Option<String>,
    pub diagnostics: Option<Vec<ErrorDiagnosticResponse>>,
}

pub open spec fn error_is(e: SimulateErrorResponse, code: Seq<char>, subcode: Seq<char>, message: Seq<char>, path: Option<Seq<char>>) -> bool {
    e.code@ == code && e.subcode@ == subcode && e.message@ == message && text_option_view(e.path) == path
}

pub fn error_response(
    code: &str,
    subcode: &str,
    message: String,
    path: Option<String>,
    diagnostics: Option<Vec<ErrorDiagnosticResponse>>,
) -> (r: SimulateErrorResponse)
    ensures
        error_is(r, code@, subcode@, message@, text_option_view(path)),
        r.diagnostics == diagnostics,
{
    SimulateErrorResponse {
        code: String::from_str(code),
        subcode: String::from_str(subcode),
        message,
        path,
        diagnostics,
    }
}

/// A location's four fields, all absent when there is no span.
pub open spec fn location_is(line: Option<usize>, column: Option<usize>, end_line: Option<usize>, end_column: Option<usize>, span: Option<SpanV>) -> bool {
    match span {
        None => line is None && column is None && end_line is None && end_column is None,
        Some(s) => line == Some(s.line as usize) && column == Some(s.column as usize) && end_line == Some(
            s.end_line as usize,
        ) && end_column == Some(s.end_column as usize),
    }
}

fn location_fields(span: Option<SourceSpan>) -> (r: (Option<usize>, Option<usize>, Option<usize>, Option<usize>))
    ensures
        location_is(r.0, r.1, r.2, r.3, span_option_view(span)),
{
    match span {
        Some(s) => (Some(s.line), Some(s.column), Some(s.end_line), Some(s.end_column)),
        None => (None, None, None, None),
    }
}

/// The name and the type of a hole or parameter, as diagnostics detail them.
pub open spec fn symbol_details(s: TypedSymbolV) -> Seq<(Seq<char>, Seq<char>)> {
    seq![("name"@, s.name), ("type"@, dsl_type_name(s.ty))]
}

pub open spec fn hole_message(s: TypedSymbolV) -> Seq<char> {
    "hole '"@ + s.name + "' has inferred type "@ + dsl_type_name(s.ty)
}

pub open spec fn param_message(s: TypedSymbolV) -> Seq<char> {
    "parameter '"@ + s.name + "' has inferred type "@ + dsl_type_name(s.ty) + " and must be instantiated"@
}

/// A validation diagnostic; located in `source` when one is given.
pub open spec fn diagnostic_is(
    d: ErrorDiagnosticResponse,
    subcode: Seq<char>,
    path: Seq<char>,
    message: Seq<char>,
    details: Seq<(Seq<char>, Seq<char>)>,
    source: Option<Seq<char>>,
) -> bool {
    &&& d.code@ == "Validation"@
    &&& d.subcode@ == subcode
    &&& d.path@ == path
    &&& d.message@ == message
    &&& details_view(d.details@) == details
    &&& location_is(
        d.line,
        d.column,
        d.end_line,
        d.end_column,
        match source {
            None => None,
            Some(src) => diagnostic_span(src, path, subcode, details),
        },
    )
}

/// One diagnostic per type error, then per unresolved hole, then per
/// unresolved parameter, in the order the type checker lists them.
pub open spec fn validation_diagnostics_is(d: Seq<ErrorDiagnosticResponse>, tc: TypeCheckResultV, source: Option<Seq<char>>) -> bool {
    let e = tc.errors.len();
    let h = tc.holes.len();
    &&& d.len() == e + h + tc.params.len()
    &&& forall|i: int|
        0 <= i < e ==> diagnostic_is(#[trigger] d[i], "TypeError"@, tc.errors[i].path, tc.errors[i].message, seq![], source)
    &&& forall|i: int|
        0 <= i < h ==> diagnostic_is(
            #[trigger] d[e + i],
            "HoleUnresolved"@,
            tc.holes[i].path,
            hole_message(tc.holes[i]),
            symbol_details(tc.holes[i]),
            source,
        )
    &&& forall|i: int|
        0 <= i < tc.params.len() ==> diagnostic_is(
            #[trigger] d[e + h + i],
            "ParamUnresolved"@,
            tc.params[i].path,
            param_message(tc.params[i]),
            symbol_details(tc.params[i]),
            source,
        )
}

fn symbol_detail_entries(s: &TypedSymbol) -> (r: Vec<(String, String)>)
    ensures
        details_view(r@) == symbol_details(s@),
{
    let mut r: Vec<(String, String)> = Vec::new();
    r.push((String::from_str("name"), s.name.clone()));
    r.push((String::from_str("type"), String::from_str(s.ty.as_str())));
    proof {
        reveal_strlit("name");
        reveal_strlit("type");
    }
    assert(details_view(r@) =~= symbol_details(s@));
    r
}

pub fn hole_message_text(s: &TypedSymbol) -> (r: String)
    ensures
        r@ == hole_message(s@),
{
    let mut m = join3("hole '", s.name.as_str(), "' has inferred type ");
    m.append(s.ty.as_str());
    m
}

pub fn param_message_text(s: &TypedSymbol) -> (r: String)
    ensures
        r@ == param_message(s@),
{
    let mut m = join3("parameter '", s.name.as_str(), "' has inferred type ");
    m.append(s.ty.as_str());
    m.append(" and must be instantiated");
    m
}

/// A validation diagnostic, located in the contract's text when it is given.
pub fn build_preview_diagnostic(
    contract_yaml: Option<&str>,
    subcode: &str,
    path: String,
    message: String,
    details: Vec<(String, String)>,
) -> (r: ErrorDiagnosticResponse)
    ensures
        diagnostic_is(
            r,
            subcode@,
            path@,
            message@,
            details_view(details@),
            match contract_yaml {
                None => None,
                Some(src) => Some(src@),
            },
        ),
{
    let span = match contract_yaml {
        Some(src) => locate_diagnostic_span(src, path.as_str(), subcode, &details),
        None => None,
    };
    let (line, column, end_line, end_column) = location_fields(span);
    ErrorDiagnosticResponse {
        code: String::from_str("Validation"),
        subcode: String::from_str(subcode),
        path,
        message,
        line,
        column,
        end_line,
        end_column,
        details,
    }
}

/// The diagnostics of a contract that is not ready to run.
pub fn validation_diagnostics(validation: &TypeCheckResult, source: Option<&str>) -> (r: Vec<ErrorDiagnosticResponse>)
    ensures
        validation_diagnostics_is(
            r@,
            validation@,
            match source {
                None => None,
                Some(src) => Some(src@),
            },
        ),
{
    let ghost src = match source {
        None => None,
        Some(s) => Some(s@),
    };
    let ghost tc = validation@;
    let mut d: Vec<ErrorDiagnosticResponse> = Vec::new();
    let mut i: usize = 0;
    proof { reveal_strlit("TypeError"); reveal_strlit("HoleUnresolved"); reveal_strlit("ParamUnresolved"); }
    while i < validation.errors.len()
        invariant
            tc == validation@,
            src == (match source {
                None => None,
                Some(s) => Some(s@),
            }),
            i <= tc.errors.len(),
            d@.len() == i,
            forall|j: int|
                0 <= j < i ==> diagnostic_is(#[trigger] d@[j], "TypeError"@, tc.errors[j].path, tc.errors[j].message, seq![], src),
        decreases tc.errors.len() - i,
    {
        let e = &validation.errors[i];
        assert(tc.errors[i as int] == e@);
        let none: Vec<(String, String)> = Vec::new();
        assert(details_view(none@) =~= Seq::<(Seq<char>, Seq<char>)>::empty());
        let dg = build_preview_diagnostic(source, "TypeError", e.path.clone(), e.message.clone(), none);
        d.push(dg);
        i = i + 1;
    }
    let ne = validation.errors.len();
    let mut i: usize = 0;
    while i < validation.holes.len()
        invariant
            tc == validation@,
            src == (match source {
                None => None,
                Some(s) => Some(s@),
            }),
            ne == tc.errors.len(),
            i <= tc.holes.len(),
            d@.len() == ne + i,
            forall|j: int|
                0 <= j < ne ==> diagnostic_is(#[trigger] d@[j], "TypeError"@, tc.errors[j].path, tc.errors[j].message, seq![], src),
            forall|j: int|
                0 <= j < i ==> diagnostic_is(
                    #[trigger] d@[ne + j],
                    "HoleUnresolved"@,
                    tc.holes[j].path,
                    hole_message(tc.holes[j]),
                    symbol_details(tc.holes[j]),
                    src,
                ),
        decreases tc.holes.len() - i,
    {
        let h = &validation.holes[i];
        assert(tc.holes[i as int] == h@);
        let dg = build_preview_diagnostic(source, "HoleUnresolved", h.path.clone(), hole_message_text(h), symbol_detail_entries(h));
        d.push(dg);
        assert(d@[ne + i as int] == dg);
        i = i + 1;
    }
    let nh = validation.holes.len();
    let mut i: usize = 0;
    while i < validation.params.len()
        invariant
            tc == validation@,
            src == (match source {
                None => None,
                Some(s) => Some(s@),
            }),
            ne == tc.errors.len(),
            nh == tc.holes.len(),
            i <= tc.params.len(),
            d@.len() == ne + nh + i,
            forall|j: int|
                0 <= j < ne ==> diagnostic_is(#[trigger] d@[j], "TypeError"@, tc.errors[j].path, tc.errors[j].message, seq![], src),
            forall|j: int|
                0 <= j < nh ==> diagnostic_is(
                    #[trigger] d@[ne + j],
                    "HoleUnresolved"@,
                    tc.holes[j].path,
                    hole_message(tc.holes[j]),
                    symbol_details(tc.holes[j]),
                    src,
                ),
            forall|j: int|
                0 <= j < i ==> diagnostic_is(
                    #[trigger] d@[ne + nh + j],
                    "ParamUnresolved"@,
                    tc.params[j].path,
                    param_message(tc.params[j]),
                    symbol_details(tc.params[j]),
                    src,
                ),
        decreases tc.params.len() - i,
    {
        let p = &validation.params[i];
        assert(tc.params[i as int] == p@);
        let dg = build_preview_diagnostic(source, "ParamUnresolved", p.path.clone(), param_message_text(p), symbol_detail_entries(p));
        d.push(dg);
        assert(d@[ne + nh + i as int] == dg);
        i = i + 1;
    }
    d
}

/// The code of a simulation error.
pub open spec fn sim_error_code_text(e: SimErrorV) -> Seq<char> {
    match e {
        SimErrorV::NotReadyToRun => "NotReadyToRun"@,
        SimErrorV::InvalidInterval { .. } => "InvalidInterval"@,
        SimErrorV::IntervalInPast { .. } => "IntervalInPast"@,
        SimErrorV::AmbiguousTimeInterval => "AmbiguousTimeInterval"@,
        SimErrorV::NoMatchForInput { .. } => "NoMatchForInput"@,
        SimErrorV::UselessTransaction => "UselessTransaction"@,
    }
}

/// What a simulation error says.
pub open spec fn sim_error_message_text(e: SimErrorV) -> Seq<char> {
    match e {
        SimErrorV::NotReadyToRun => "contract must be fully instantiated and type-safe before simulation"@,
        SimErrorV::InvalidInterval { start, end } => "invalid interval: start "@ + int_decimal(start)
            + " is greater than end "@ + int_decimal(end),
        SimErrorV::IntervalInPast { min_time, start, end } => "interval ["@ + int_decimal(start) + ", "@ + int_decimal(
            end,
        ) + "] is before current minimum time "@ + int_decimal(min_time),
        SimErrorV::AmbiguousTimeInterval => "interval straddles timeout boundary and is ambiguous"@,
        SimErrorV::NoMatchForInput { input_index } => "input at index "@ + nat_decimal(input_index)
            + " did not match any contract case"@,
        SimErrorV::UselessTransaction => "transaction made no state or contract changes"@,
    }
}

/// Where in the request a simulation error points.
pub open spec fn sim_error_path_text(e: SimErrorV) -> Seq<char> {
    match e {
        SimErrorV::NotReadyToRun => "$.contract_yaml"@,
        SimErrorV::NoMatchForInput { input_index } => index_path("$.transaction.inputs"@, input_index),
        _ => "$.transaction"@,
    }
}

pub fn sim_error_code(error: &SimError) -> (r: String)
    ensures
        r@ == sim_error_code_text(error@),
{
    String::from_str(
        match error {
            SimError::NotReadyToRun => "NotReadyToRun",
            SimError::InvalidInterval { .. } => "InvalidInterval",
            SimError::IntervalInPast { .. } => "IntervalInPast",
            SimError::AmbiguousTimeInterval => "AmbiguousTimeInterval",
            SimError::NoMatchForInput { .. } => "NoMatchForInput",
            SimError::UselessTransaction => "UselessTransaction",
        },
    )
}

pub fn sim_error_message(error: &SimError) -> (r: String)
    ensures
        r@ == sim_error_message_text(error@),
{
    match error {
        SimError::NotReadyToRun => String::from_str("contract must be fully instantiated and type-safe before simulation"),
        SimError::InvalidInterval { start, end } => {
            let mut m = join2("invalid interval: start ", start.to_decimal().as_str());
            m.append(" is greater than end ");
            m.append(end.to_decimal().as_str());
            m
        },
        SimError::IntervalInPast { min_time, start, end } => {
            let mut m = join3("interval [", start.to_decimal().as_str(), ", ");
            m.append(end.to_decimal().as_str());
            m.append("] is before current minimum time ");
            m.append(min_time.to_decimal().as_str());
            m
        },
        SimError::AmbiguousTimeInterval => String::from_str("interval straddles timeout boundary and is ambiguous"),
        SimError::NoMatchForInput { input_index } => join3(
            "input at index ",
            usize_decimal(*input_index).as_str(),
            " did not match any contract case",
        ),
        SimError::UselessTransaction => String::from_str("transaction made no state or contract changes"),
    }
}

pub fn sim_error_path(error: &SimError) -> (r: Option<String>)
    ensures
        text_option_view(r) == Some(sim_error_path_text(error@)),
{
    match error {
        SimError::NotReadyToRun => Some(String::from_str("$.contract_yaml")),
        SimError::NoMatchForInput { input_index } => Some(index("$.transaction.inputs", *input_index)),
        _ => Some(String::from_str("$.transaction")),
    }
}

/// `text` holds `needle`.
pub open spec fn holds(text: Seq<char>, needle: Seq<char>) -> bool {
    first_occurrence(text, needle) is Some
}

/// The hint for a type error, by what its lowercased message mentions.
pub open spec fn type_error_hint(lowered: Seq<char>) -> Seq<char> {
    if holds(lowered, "undefined let binding"@) {
        "Declare the referenced `Let.name` in scope before `UseValue`, or rename it to an existing binding."@
    } else if holds(lowered, "unknown token"@) {
        "Use a token known to your context, or extend context definitions to include this token."@
    } else if holds(lowered, "unknown account owner"@) {
        "Use an account owner present in context definitions for account operations."@
    } else if holds(lowered, "unknown party"@) {
        "Use a known party role/address from context definitions."@
    } else if holds(lowered, "not declared in contract or context"@) {
        "Add a matching `Choice` action in the contract, or declare the choice in context."@
    } else if holds(lowered, "invalid bound range"@) {
        "Make sure each choice bound has `from <= to` once values are concrete."@
    } else if holds(lowered, "conflicting inferred types"@) {
        "Keep each repeated hole/parameter name consistent with one DSL type across the contract."@
    } else {
        "Adjust the contract expression at this path so it satisfies Marlowe type and scope rules."@
    }
}

/// The hint for a warning, by what its lowercased message mentions.
pub open spec fn warning_hint(lowered: Seq<char>) -> Seq<char> {
    if holds(lowered, "shadows an existing binding"@) {
        "Rename the inner `Let.name` if the shadowing is accidental."@
    } else if holds(lowered, "never used"@) {
        "Remove the unused let binding, or reference it with `UseValue`."@
    } else if holds(lowered, "cannot be statically validated"@) {
        "Use concrete constants in bounds if you want compile-time bound validation."@
    } else {
        "Review this warning and confirm the behavior is intentional."@
    }
}

/// The hint for a type error whose message, lowercased, is `lowered`.
pub fn type_error_hint_for(lowered: &str) -> (r: String)
    ensures
        r@ == type_error_hint(lowered@),
{
    let hint = if contains_text(lowered, "undefined let binding") {
        "Declare the referenced `Let.name` in scope before `UseValue`, or rename it to an existing binding."
    } else if contains_text(lowered, "unknown token") {
        "Use a token known to your context, or extend context definitions to include this token."
    } else if contains_text(lowered, "unknown account owner") {
        "Use an account owner present in context definitions for account operations."
    } else if contains_text(lowered, "unknown party") {
        "Use a known party role/address from context definitions."
    } else if contains_text(lowered, "not declared in contract or context") {
        "Add a matching `Choice` action in the contract, or declare the choice in context."
    } else if contains_text(lowered, "invalid bound range") {
        "Make sure each choice bound has `from <= to` once values are concrete."
    } else if contains_text(lowered, "conflicting inferred types") {
        "Keep each repeated hole/parameter name consistent with one DSL type across the contract."
    } else {
        "Adjust the contract expression at this path so it satisfies Marlowe type and scope rules."
    };
    String::from_str(hint)
}

/// The hint for a warning whose message, lowercased, is `lowered`.
pub fn warning_hint_for(lowered: &str) -> (r: String)
    ensures
        r@ == warning_hint(lowered@),
{
    let hint = if contains_text(lowered, "shadows an existing binding") {
        "Rename the inner `Let.name` if the shadowing is accidental."
    } else if contains_text(lowered, "never used") {
        "Remove the unused let binding, or reference it with `UseValue`."
    } else if contains_text(lowered, "cannot be statically validated") {
        "Use concrete constants in bounds if you want compile-time bound validation."
    } else {
        "Review this warning and confirm the behavior is intentional."
    };
    String::from_str(hint)
}

pub fn hint_for_type_error(error_message: &str) -> (r: String)
    ensures
        r@ == type_error_hint(lowercase(error_message@)),
{
    let lowered = to_lowercase(error_message);
    type_error_hint_for(lowered.as_str())
}

pub fn hint_for_warning(warning_message: &str) -> (r: String)
    ensures
        r@ == warning_hint(lowercase(warning_message@)),
{
    let lowered = to_lowercase(warning_message);
    warning_hint_for(lowered.as_str())
}

/// One item of a type-check explanation.
#[derive(Debug, PartialEq, Eq)]
pub struct TypecheckExplainItemResponse {
    pub code: String,
    pub path: String,
    pub message: String,
    pub hint: String,
    pub details: Vec<(String, String)>,
}

#[derive(Debug, Clone, Copy, PartialEq, Eq)]
pub struct TypecheckExplainSummaryResponse {
    pub blocking_count: usize,
    pub warning_count: usize,
    pub error_count: usize,
    pub hole_count: usize,
    pub param_count: usize,
}

#[derive(Debug, PartialEq, Eq)]
pub struct TypecheckExplainSuccessResponse {
    pub ready_to_run: bool,
    pub summary: TypecheckExplainSummaryResponse,
    pub blocking: Vec<TypecheckExplainItemResponse>,
    pub warnings: Vec<TypecheckExplainItemResponse>,
}

#[derive(Debug, PartialEq, Eq)]
pub struct TypecheckExplainResponse {
    pub result: String,
    pub success: Option<TypecheckExplainSuccessResponse>,
    pub error: Option<SimulateErrorResponse>,
}

pub open spec fn item_is(
    item: TypecheckExplainItemResponse,
    code: Seq<char>,
    path: Seq<char>,
    message: Seq<char>,
    hint: Seq<char>,
    details: Seq<(Seq<char>, Seq<char>)>,
) -> bool {
    item.code@ == code && item.path@ == path && item.message@ == message && item.hint@ == hint && details_view(
        item.details@,
    ) == details
}

pub open spec fn hole_hint(s: TypedSymbolV) -> Seq<char> {
    "Provide a concrete "@ + dsl_type_name(s.ty) + " value for '?"@ + s.name + "' to fully instantiate the contract."@
}

pub open spec fn param_hint(s: TypedSymbolV) -> Seq<char> {
    "Substitute '$"@ + s.name + "' with a concrete "@ + dsl_type_name(s.ty) + " value before simulation."@
}

/// What blocks the contract from running: its type errors, then its
/// unresolved holes, then its unresolved parameters, each with a hint.
pub open spec fn blocking_is(b: Seq<TypecheckExplainItemResponse>, tc: TypeCheckResultV) -> bool {
    let e = tc.errors.len();
    let h = tc.holes.len();
    &&& b.len() == e + h + tc.params.len()
    &&& forall|i: int|
        0 <= i < e ==> item_is(
            #[trigger] b[i],
            "TypeError"@,
            tc.errors[i].path,
            tc.errors[i].message,
            type_error_hint(lowercase(tc.errors[i].message)),
            seq![],
        )
    &&& forall|i: int|
        0 <= i < h ==> item_is(
            #[trigger] b[e + i],
            "HoleUnresolved"@,
            tc.holes[i].path,
            hole_message(tc.holes[i]),
            hole_hint(tc.holes[i]),
            symbol_details(tc.holes[i]),
        )
    &&& forall|i: int|
        0 <= i < tc.params.len() ==> item_is(
            #[trigger] b[e + h + i],
            "ParamUnresolved"@,
            tc.params[i].path,
            param_message(tc.params[i]),
            param_hint(tc.params[i]),
            symbol_details(tc.params[i]),
        )
}

pub open spec fn explained_warnings_is(w: Seq<TypecheckExplainItemResponse>, tc: TypeCheckResultV) -> bool {
    &&& w.len() == tc.warnings.len()
    &&& forall|i: int|
        0 <= i < w.len() ==> item_is(
            #[trigger] w[i],
            "Warning"@,
            tc.warnings[i].path,
            tc.warnings[i].message,
            warning_hint(lowercase(tc.warnings[i].message)),
            seq![],
        )
}

/// The explanation of a type-check result.
pub open spec fn explanation_is(s: TypecheckExplainSuccessResponse, tc: TypeCheckResultV) -> bool {
    &&& s.ready_to_run == tc.ready_to_run
    &&& blocking_is(s.blocking@, tc)
    &&& explained_warnings_is(s.warnings@, tc)
    &&& s.summary.blocking_count == s.blocking@.len()
    &&& s.summary.warning_count == tc.warnings.len()
    &&& s.summary.error_count == tc.errors.len()
    &&& s.summary.hole_count == tc.holes.len()
    &&& s.summary.param_count == tc.params.len()
}

fn explain_item(code: &str, path: &String, message: String, hint: String, details: Vec<(String, String)>) -> (r: TypecheckExplainItemResponse)
    ensures
        item_is(r, code@, path@, message@, hint@, details_view(details@)),
{
    TypecheckExplainItemResponse { code: String::from_str(code), path: path.clone(), message, hint, details }
}

pub fn no_details() -> (r: Vec<(String, String)>)
    ensures
        details_view(r@) == Seq::<(Seq<char>, Seq<char>)>::empty(),
{
    let r: Vec<(String, String)> = Vec::new();
    assert(details_view(r@) =~= Seq::<(Seq<char>, Seq<char>)>::empty());
    r
}

fn hole_hint_text(s: &TypedSymbol) -> (r: String)
    ensures
        r@ == hole_hint(s@),
{
    let mut m = join3("Provide a concrete ", s.ty.as_str(), " value for '?");
    m.append(s.name.as_str());
    m.append("' to fully instantiate the contract.");
    m
}

fn param_hint_text(s: &TypedSymbol) -> (r: String)
    ensures
        r@ == param_hint(s@),
{
    let mut m = join3("Substitute '$", s.name.as_str(), "' with a concrete ");
    m.append(s.ty.as_str());
    m.append(" value before simulation.");
    m
}

pub fn blocking_items(validation: &TypeCheckResult) -> (r: Vec<TypecheckExplainItemResponse>)
    ensures
        blocking_is(r@, validation@),
{
    let ghost tc = validation@;
    let mut b: Vec<TypecheckExplainItemResponse> = Vec::new();
    let mut i: usize = 0;
    while i < validation.errors.len()
        invariant
            tc == validation@,
            i <= tc.errors.len(),
            b@.len() == i,
            forall|j: int|
                0 <= j < i ==> item_is(
                    #[trigger] b@[j],
                    "TypeError"@,
                    tc.errors[j].path,
                    tc.errors[j].message,
                    type_error_hint(lowercase(tc.errors[j].message)),
                    seq![],
                ),
        decreases tc.errors.len() - i,
    {
        let e = &validation.errors[i];
        assert(tc.errors[i as int] == e@);
        b.push(explain_item("TypeError", &e.path, e.message.clone(), hint_for_type_error(e.message.as_str()), no_details()));
        i = i + 1;
    }
    let ne = validation.errors.len();
    let mut i: usize = 0;
    while i < validation.holes.len()
        invariant
            tc == validation@,
            ne == tc.errors.len(),
            i <= tc.holes.len(),
            b@.len() == ne + i,
            forall|j: int|
                0 <= j < ne ==> item_is(
                    #[trigger] b@[j],
                    "TypeError"@,
                    tc.errors[j].path,
                    tc.errors[j].message,
                    type_error_hint(lowercase(tc.errors[j].message)),
                    seq![],
                ),
            forall|j: int|
                0 <= j < i ==> item_is(
                    #[trigger] b@[ne + j],
                    "HoleUnresolved"@,
                    tc.holes[j].path,
                    hole_message(tc.holes[j]),
                    hole_hint(tc.holes[j]),
                    symbol_details(tc.holes[j]),
                ),
        decreases tc.holes.len() - i,
    {
        let h = &validation.holes[i];
        assert(tc.holes[i as int] == h@);
        let item = explain_item("HoleUnresolved", &h.path, hole_message_text(h), hole_hint_text(h), symbol_detail_entries(h));
        b.push(item);
        assert(b@[ne + i as int] == item);
        i = i + 1;
    }
    let nh = validation.holes.len();
    let mut i: usize = 0;
    while i < validation.params.len()
        invariant
            tc == validation@,
            ne == tc.errors.len(),
            nh == tc.holes.len(),
            i <= tc.params.len(),
            b@.len() == ne + nh + i,
            forall|j: int|
                0 <= j < ne ==> item_is(
                    #[trigger] b@[j],
                    "TypeError"@,
                    tc.errors[j].path,
                    tc.errors[j].message,
                    type_error_hint(lowercase(tc.errors[j].message)),
                    seq![],
                ),
            forall|j: int|
                0 <= j < nh ==> item_is(
                    #[trigger] b@[ne + j],
                    "HoleUnresolved"@,
                    tc.holes[j].path,
                    hole_message(tc.holes[j]),
                    hole_hint(tc.holes[j]),
                    symbol_details(tc.holes[j]),
                ),
            forall|j: int|
                0 <= j < i ==> item_is(
                    #[trigger] b@[ne + nh + j],
                    "ParamUnresolved"@,
                    tc.params[j].path,
                    param_message(tc.params[j]),
                    param_hint(tc.params[j]),
                    symbol_details(tc.params[j]),
                ),
        decreases tc.params.len() - i,
    {
        let p = &validation.params[i];
        assert(tc.params[i as int] == p@);
        let item = explain_item("ParamUnresolved", &p.path, param_message_text(p), param_hint_text(p), symbol_detail_entries(p));
        b.push(item);
        assert(b@[ne + nh + i as int] == item);
        i = i + 1;
    }
    b
}

pub fn warning_items(validation: &TypeCheckResult) -> (r: Vec<TypecheckExplainItemResponse>)
    ensures
        explained_warnings_is(r@, validation@),
{
    let ghost tc = validation@;
    let mut w: Vec<TypecheckExplainItemResponse> = Vec::new();
    let mut i: usize = 0;
    while i < validation.warnings.len()
        invariant
            tc == validation@,
            i <= tc.warnings.len(),
            w@.len() == i,
            forall|j: int|
                0 <= j < i ==> item_is(
                    #[trigger] w@[j],
                    "Warning"@,
                    tc.warnings[j].path,
                    tc.warnings[j].message,
                    warning_hint(lowercase(tc.warnings[j].message)),
                    seq![],
                ),
        decreases tc.warnings.len() - i,
    {
        let d = &validation.warnings[i];
        assert(tc.warnings[i as int] == d@);
        w.push(explain_item("Warning", &d.path, d.message.clone(), hint_for_warning(d.message.as_str()), no_details()));
        i = i + 1;
    }
    w
}

/// The explanation of a type-check result: what blocks the contract, what
/// it warns of, and how many of each.
pub fn explain_validation(validation: &TypeCheckResult) -> (r: TypecheckExplainSuccessResponse)
    ensures
        explanation_is(r, validation@),
{
    let blocking = blocking_items(validation);
    let warnings = warning_items(validation);
    TypecheckExplainSuccessResponse {
        ready_to_run: validation.ready_to_run,
        summary: TypecheckExplainSummaryResponse {
            blocking_count: blocking.len(),
            warning_count: validation.warnings.len(),
            error_count: validation.errors.len(),
            hole_count: validation.holes.len(),
            param_count: validation.params.len(),
        },
        blocking,
        warnings,
    }
}

/// A refusal: status 400 and the error.
pub open spec fn refused<S>(status: u16, result: Seq<char>, success: Option<S>, error: Option<SimulateErrorResponse>, code: Seq<char>, subcode: Seq<char>, message: Seq<char>, path: Option<Seq<char>>) -> bool {
    &&& status == 400
    &&& result == "error"@
    &&& success is None
    &&& error matches Some(e) && error_is(e, code, subcode, message, path) && e.diagnostics is None
}

pub fn typecheck_explain_bad_request(code: &str, subcode: &str, message: String, path: Option<String>) -> (r: (u16, TypecheckExplainResponse))
    ensures
        refused(r.0, r.1.result@, r.1.success, r.1.error, code@, subcode@, message@, text_option_view(path)),
{
    proof { reveal_strlit("error"); }
    (400, TypecheckExplainResponse {
        result: String::from_str("error"),
        success: None,
        error: Some(error_response(code, subcode, message, path, None)),
    })
}

/// How a contract's parse error is reported: `path: message`, at its path.
pub open spec fn parse_error_message(e: ParseErrorV) -> Seq<char> {
    e.path + ": "@ + e.message
}

/// The answer to a type-check explanation request: refused when the context
/// names something not concrete or the contract does not parse; otherwise
/// the explanation of the contract's type check against the context.
pub open spec fn typecheck_explain_is(r: (u16, TypecheckExplainResponse), request: TypecheckExplainRequest) -> bool {
    match context_request_spec(request.context) {
        Err(e) => refused(r.0, r.1.result@, r.1.success, r.1.error, "RequestError"@, "ContextError"@, e.message, Some(e.path)),
        Ok(ctx) => match read_contract_document(request.contract_yaml@) {
            Err(e) => refused(
                r.0,
                r.1.result@,
                r.1.success,
                r.1.error,
                "RequestError"@,
                "ParseError"@,
                parse_error_message(e),
                Some(e.path),
            ),
            Ok(c) => {
                &&& r.0 == 200
                &&& r.1.result@ == "success"@
                &&& r.1.error is None
                &&& r.1.success matches Some(s) && exists|tc: TypeCheckResultV| #[trigger] type_check_result_is(tc, ctx, c) && explanation_is(s, tc)
            },
        },
    }
}

pub fn typecheck_explain(request: &TypecheckExplainRequest) -> (r: (u16, TypecheckExplainResponse))
    ensures
        typecheck_explain_is(r, *request),
{
    let context = match map_typecheck_context_request(&request.context) {
        Ok(context) => context,
        Err(err) => {
            return typecheck_explain_bad_request("RequestError", "ContextError", err.message, Some(err.path));
        },
    };
    let contract = match parse_contract_yaml(request.contract_yaml.as_str()) {
        Ok(contract) => contract,
        Err(err) => {
            let message = join3(err.path.as_str(), ": ", err.message.as_str());
            return typecheck_explain_bad_request("RequestError", "ParseError", message, Some(err.path));
        },
    };
    assert(context_request_spec(request.context) == Ok::<crate::typecheck::ContextV, ContextMapErrorV>(context@));
    assert(read_contract_document(request.contract_yaml@) == Ok::<crate::ast::ContractV, ParseErrorV>(contract@));
    let validation = type_check(&contract, &context);
    let explanation = explain_validation(&validation);
    let ghost tc = validation@;
    assert(type_check_result_is(tc, context@, contract@));
    assert(explanation_is(explanation, tc));
    proof { reveal_strlit("success"); }
    let r = (200, TypecheckExplainResponse { result: String::from_str("success"), success: Some(explanation), error: None });
    assert(type_check_result_is(tc, context@, contract@) && explanation_is(r.1.success->0, tc));
    let ghost ctx = context_request_spec(request.context)->Ok_0;
    let ghost c = read_contract_document(request.contract_yaml@)->Ok_0;
    assert(ctx == context@ && c == contract@);
    assert(type_check_result_is(tc, ctx, c));
    assert(exists|t: TypeCheckResultV| #[trigger] type_check_result_is(t, ctx, c) && explanation_is(r.1.success->0, t));
    r
}

/// Where the contract starts in its text.
#[derive(Debug, Clone, Copy, PartialEq, Eq)]
pub struct SourceLocationResponse {
    pub line: usize,
    pub column: usize,
    pub end_line: Option<usize>,
    pub end_column: Option<usize>,
}

/// One step of a transaction, as a trace reports it.
#[derive(Debug, PartialEq, Eq)]
pub enum TraceEventResponse {
    Reduced {
        event_id: String,
        rule: String,
        contract_path: String,
        line: Option<usize>,
        column: Option<usize>,
        end_line: Option<usize>,
        end_column: Option<usize>,
        state_paths: Vec<String>,
        warning: Option<WarningResponse>,
        payment: Option<PaymentResponse>,
        delta: Option<TraceStateDeltaResponse>,
    },
    InputApplied {
        event_id: String,
        input_index: usize,
        contract_path: String,
        line: Option<usize>,
        column: Option<usize>,
        end_line: Option<usize>,
        end_column: Option<usize>,
        state_paths: Vec<String>,
        input: TraceInputResponse,
        warning: Option<WarningResponse>,
        delta: Option<TraceStateDeltaResponse>,
    },
}

/// `trace-` and the step's number, with at least four digits.
pub open spec fn event_id_text(i: nat) -> Seq<char> {
    let d = nat_decimal(i);
    if d.len() < 4 {
        "trace-"@ + Seq::new((4 - d.len()) as nat, |k: int| '0') + d
    } else {
        "trace-"@ + d
    }
}

/// The constructor a reduction rule reduces.
pub open spec fn rule_constructor(rule: TraceReduceRule) -> Seq<char> {
    match rule {
        TraceReduceRule::CloseRefund => "Close"@,
        TraceReduceRule::Pay => "Pay"@,
        TraceReduceRule::IfBranch => "If"@,
        TraceReduceRule::WhenTimeout => "When"@,
        TraceReduceRule::Let => "Let"@,
        TraceReduceRule::Assert => "Assert"@,
    }
}

pub open spec fn warning_option_is(r: Option<WarningResponse>, w: Option<TransactionWarningV>) -> bool {
    match w {
        None => r is None,
        Some(w) => r matches Some(x) && warning_response_is(x, w),
    }
}

pub open spec fn payment_option_is(r: Option<PaymentResponse>, p: Option<PaymentV>) -> bool {
    match p {
        None => r is None,
        Some(p) => r matches Some(x) && payment_response_is(x, p),
    }
}

/// Step `i` of a trace. The simulator does not say where in the contract a
/// step happens, so the path is empty, no state path is listed and no delta
/// is given; a reduction points at the first place its constructor is
/// written.
pub open spec fn trace_event_is(ev: TraceEventResponse, i: nat, step: TraceStepV, source: Seq<char>) -> bool {
    match step {
        TraceStepV::Reduced { rule, warning, payment } => match ev {
            TraceEventResponse::Reduced {
                event_id,
                rule: name,
                contract_path,
                line,
                column,
                end_line,
                end_column,
                state_paths,
                warning: w,
                payment: p,
                delta,
            } => {
                &&& event_id@ == event_id_text(i)
                &&& name@ == trace_rule_text(rule)
                &&& contract_path@ == Seq::<char>::empty()
                &&& location_is(line, column, end_line, end_column, constructor_span(source, Seq::empty(), rule_constructor(rule)))
                &&& state_paths@.len() == 0
                &&& warning_option_is(w, warning)
                &&& payment_option_is(p, payment)
                &&& delta is None
            },
            _ => false,
        },
        TraceStepV::InputApplied { input_index, input, warning } => match ev {
            TraceEventResponse::InputApplied {
                event_id,
                input_index: n,
                contract_path,
                line,
                column,
                end_line,
                end_column,
                state_paths,
                input: x,
                warning: w,
                delta,
            } => {
                &&& event_id@ == event_id_text(i)
                &&& n == input_index
                &&& contract_path@ == Seq::<char>::empty()
                &&& location_is(line, column, end_line, end_column, None)
                &&& state_paths@.len() == 0
                &&& trace_input_response_is(x, input)
                &&& warning_option_is(w, warning)
                &&& delta is None
            },
            _ => false,
        },
    }
}

pub open spec fn trace_events_is(t: Seq<TraceEventResponse>, steps: Seq<TraceStepV>, source: Seq<char>) -> bool {
    &&& t.len() == steps.len()
    &&& forall|i: int| 0 <= i < t.len() ==> trace_event_is(#[trigger] t[i], i as nat, steps[i], source)
}

pub fn event_id(index: usize) -> (r: String)
    ensures
        r@ == event_id_text(index as nat),
{
    let digits = usize_decimal(index);
    let mut r = String::from_str("trace-");
    proof { reveal_strlit("trace-"); reveal_strlit("0"); }
    let n = digits.unicode_len();
    let mut pad: usize = n;
    let ghost zeros: Seq<char> = Seq::empty();
    while pad < 4
        invariant
            n == digits@.len(),
            n <= pad <= 4 || (pad == n && n >= 4),
            r@ == "trace-"@ + Seq::new((pad - n) as nat, |k: int| '0'),
        decreases 4 - pad,
    {
        let ghost before = r@;
        r.append("0");
        proof { reveal_strlit("0"); }
        assert(Seq::new((pad + 1 - n) as nat, |k: int| '0') =~= Seq::new((pad - n) as nat, |k: int| '0').push('0'));
        pad = pad + 1;
        assert(r@ =~= "trace-"@ + Seq::new((pad - n) as nat, |k: int| '0'));
    }
    r.append(digits.as_str());
    if n >= 4 {
        assert(Seq::new(0, |k: int| '0') =~= Seq::<char>::empty());
        assert(r@ =~= "trace-"@ + digits@);
    }
    r
}

fn rule_constructor_name(rule: &TraceReduceRule) -> (r: &'static str)
    ensures
        r@ == rule_constructor(*rule),
        r@.len() <= 16,
{
    proof {
        reveal_strlit("Close");
        reveal_strlit("Pay");
        reveal_strlit("If");
        reveal_strlit("When");
        reveal_strlit("Let");
        reveal_strlit("Assert");
    }
    match rule {
        TraceReduceRule::CloseRefund => "Close",
        TraceReduceRule::Pay => "Pay",
        TraceReduceRule::IfBranch => "If",
        TraceReduceRule::WhenTimeout => "When",
        TraceReduceRule::Let => "Let",
        TraceReduceRule::Assert => "Assert",
    }
}

fn warning_option(w: &Option<TransactionWarning>) -> (r: Option<WarningResponse>)
    ensures
        warning_option_is(r, warning_option_view(*w)),
{
    match w {
        Some(x) => Some(warning_to_response(x)),
        None => None,
    }
}

pub fn trace_step_to_response(index: usize, step: &TraceStep, contract_source: &str) -> (r: TraceEventResponse)
    ensures
        trace_event_is(r, index as nat, step@, contract_source@),
{
    let event_id = event_id(index);
    match step {
        TraceStep::Reduced { rule, warning, payment } => {
            proof { reveal_strlit(""); }
            assert(""@ =~= Seq::<char>::empty());
            let span = find_constructor_span(contract_source, "", rule_constructor_name(rule));
            let (line, column, end_line, end_column) = location_fields(span);
            TraceEventResponse::Reduced {
                event_id,
                rule: String::from_str(trace_rule_name(rule)),
                contract_path: String::new(),
                line,
                column,
                end_line,
                end_column,
                state_paths: Vec::new(),
                warning: warning_option(warning),
                payment: match payment {
                    Some(p) => Some(payment_to_response(p)),
                    None => None,
                },
                delta: None,
            }
        },
        TraceStep::InputApplied { input_index, input, warning } => TraceEventResponse::InputApplied {
            event_id,
            input_index: *input_index,
            contract_path: String::new(),
            line: None,
            column: None,
            end_line: None,
            end_column: None,
            state_paths: Vec::new(),
            input: trace_input_to_response(input),
            warning: warning_option(warning),
            delta: None,
        },
    }
}

pub fn trace_to_response(trace: &Vec<TraceStep>, contract_source: &str) -> (r: Vec<TraceEventResponse>)
    ensures
        trace_events_is(r@, trace_view(trace@), contract_source@),
{
    let mut r: Vec<TraceEventResponse> = Vec::new();
    let mut i: usize = 0;
    while i < trace.len()
        invariant
            i <= trace@.len(),
            r@.len() == i,
            forall|j: int| 0 <= j < i ==> trace_event_is(#[trigger] r@[j], j as nat, trace@[j]@, contract_source@),
        decreases trace@.len() - i,
    {
        r.push(trace_step_to_response(i, &trace[i], contract_source));
        i = i + 1;
    }
    r
}

pub open spec fn initial_position_is(p: Option<SourceLocationResponse>, span: Option<SpanV>) -> bool {
    match span {
        None => p is None,
        Some(s) => p == Some(
            SourceLocationResponse {
                line: s.line as usize,
                column: s.column as usize,
                end_line: Some(s.end_line as usize),
                end_column: Some(s.end_column as usize),
            },
        ),
    }
}

fn initial_position(source: &str) -> (r: Option<SourceLocationResponse>)
    ensures
        initial_position_is(r, root_contract_span(source@)),
{
    match locate_root_contract_span(source) {
        Some(span) => Some(
            SourceLocationResponse {
                line: span.line,
                column: span.column,
                end_line: Some(span.end_line),
                end_column: Some(span.end_column),
            },
        ),
        None => None,
    }
}

/// A successful transaction.
#[derive(Debug, PartialEq, Eq)]
pub struct SimulateSuccessResponse {
    pub warnings: Vec<WarningResponse>,
    pub payments: Vec<PaymentResponse>,
    pub state: StateResponse,
    pub contract_yaml: String,
    pub trace: Option<Vec<TraceEventResponse>>,
    pub initial_position: Option<SourceLocationResponse>,
}

#[derive(Debug, PartialEq, Eq)]
pub struct SimulateStepResponse {
    pub result: String,
    pub success: Option<SimulateSuccessResponse>,
    pub error: Option<SimulateErrorResponse>,
}

/// The report of a successful transaction whose resulting contract is
/// written `text`; with a trace, the steps and where the contract starts.
pub open spec fn step_success_is(s: SimulateSuccessResponse, succ: SimTransactionSuccessV, text: Seq<char>, trace: bool, source: Seq<char>) -> bool {
    &&& warnings_response_is(s.warnings@, succ.warnings)
    &&& payments_response_is(s.payments@, succ.payments)
    &&& state_response_is(s.state, succ.state)
    &&& s.contract_yaml@ == text
    &&& if trace {
        &&& s.trace matches Some(t) && trace_events_is(t@, succ.trace, source)
        &&& initial_position_is(s.initial_position, root_contract_span(source))
    } else {
        s.trace is None && s.initial_position is None
    }
}

fn step_success(success: &SimTransactionSuccess, contract_yaml: String, trace: bool, source: &str) -> (r: SimulateSuccessResponse)
    ensures
        step_success_is(r, success@, contract_yaml@, trace, source@),
{
    let events = if trace {
        Some(trace_to_response(&success.trace, source))
    } else {
        None
    };
    let position = if trace {
        initial_position(source)
    } else {
        None
    };
    SimulateSuccessResponse {
        warnings: warnings_to_response(&success.warnings),
        payments: payments_to_response(&success.payments),
        state: state_to_response(&success.state),
        contract_yaml,
        trace: events,
        initial_position: position,
    }
}

pub fn bad_request(code: &str, subcode: &str, message: String, path: Option<String>, diagnostics: Option<Vec<ErrorDiagnosticResponse>>) -> (r: (u16, SimulateStepResponse))
    ensures
        r.0 == 400,
        r.1.result@ == "error"@,
        r.1.success is None,
        r.1.error matches Some(e) && error_is(e, code@, subcode@, message@, text_option_view(path)) && e.diagnostics == diagnostics,
{
    proof { reveal_strlit("error"); }
    (400, SimulateStepResponse {
        result: String::from_str("error"),
        success: None,
        error: Some(error_response(code, subcode, message, path, diagnostics)),
    })
}

pub fn internal_error(message: String) -> (r: (u16, SimulateStepResponse))
    ensures
        r.0 == 500,
        r.1.result@ == "error"@,
        r.1.success is None,
        r.1.error matches Some(e) && error_is(e, "InternalError"@, "InternalError"@, message@, None) && e.diagnostics is None,
{
    proof { reveal_strlit("error"); }
    (500, SimulateStepResponse {
        result: String::from_str("error"),
        success: None,
        error: Some(error_response("InternalError", "InternalError", message, None, None)),
    })
}

pub open spec fn step_refused(r: (u16, SimulateStepResponse), code: Seq<char>, subcode: Seq<char>, message: Seq<char>, path: Option<Seq<char>>) -> bool {
    refused(r.0, r.1.result@, r.1.success, r.1.error, code, subcode, message, path)
}

pub open spec fn not_ready_message() -> Seq<char> {
    "contract must be fully instantiated and type-safe before simulation"@
}

/// The refusal of a contract that is not ready to run, with one diagnostic
/// per problem the type checker finds (located in `source` when given).
pub open spec fn not_ready_is<S>(status: u16, result: Seq<char>, success: Option<S>, error: Option<SimulateErrorResponse>, c: ContractV, source: Option<Seq<char>>) -> bool {
    &&& status == 400
    &&& result == "error"@
    &&& success is None
    &&& error matches Some(e)
    &&& error_is(e, "NotReadyToRun"@, "NotReadyToRun"@, not_ready_message(), Some("$.contract_yaml"@))
    &&& e.diagnostics matches Some(d)
    &&& exists|tc: TypeCheckResultV| #[trigger] type_check_result_is(tc, empty_context(), c) && validation_diagnostics_is(d@, tc, source)
}

/// A failure to write the resulting contract back to YAML.
pub open spec fn internal_failure<S>(status: u16, result: Seq<char>, success: Option<S>, error: Option<SimulateErrorResponse>, message: Seq<char>) -> bool {
    &&& status == 500
    &&& result == "error"@
    &&& success is None
    &&& error matches Some(e) && error_is(e, "InternalError"@, "InternalError"@, message, None) && e.diagnostics is None
}

/// The answer to a simulation step: the contract must parse and be ready to
/// run, the state and the transaction must hold only integers; then the
/// transaction is run, and its result written back to YAML.
pub open spec fn simulate_step_is(r: (u16, SimulateStepResponse), request: SimulateStepRequest) -> bool {
    let source = request.contract_yaml@;
    match read_contract_document(source) {
        Err(e) => step_refused(r, "RequestError"@, "ParseError"@, parse_error_message(e), Some(e.path)),
        Ok(c) => if !ready_to_run(c) {
            not_ready_is(r.0, r.1.result@, r.1.success, r.1.error, c, None)
        } else {
            match state_request_spec(request.state) {
                Err(m) => step_refused(r, "RequestError"@, "StateError"@, m, Some("$.state"@)),
                Ok(st) => match tx_request_spec(request.transaction) {
                    Err(m) => step_refused(r, "RequestError"@, "TransactionError"@, m, Some("$.transaction"@)),
                    Ok(tx) => match simulate_spec(c, st, tx, request.trace) {
                        SimTransactionResultV::Error(e) => step_refused(
                            r,
                            sim_error_code_text(e),
                            sim_error_code_text(e),
                            sim_error_message_text(e),
                            Some(sim_error_path_text(e)),
                        ),
                        SimTransactionResultV::Success(succ) => match yaml_text(write_contract(succ.contract)) {
                            Err(m) => internal_failure(
                                r.0,
                                r.1.result@,
                                r.1.success,
                                r.1.error,
                                "failed to serialize contract: "@ + m,
                            ),
                            Ok(text) => {
                                &&& r.0 == 200
                                &&& r.1.result@ == "success"@
                                &&& r.1.error is None
                                &&& r.1.success matches Some(s) && step_success_is(s, succ, text, request.trace, source)
                            },
                        },
                    },
                },
            }
        },
    }
}

fn not_ready_error(validation: &TypeCheckResult, source: Option<&str>) -> (r: SimulateErrorResponse)
    ensures
        error_is(r, "NotReadyToRun"@, "NotReadyToRun"@, not_ready_message(), Some("$.contract_yaml"@)),
        r.diagnostics matches Some(d) && validation_diagnostics_is(
            d@,
            validation@,
            match source {
                None => None,
                Some(src) => Some(src@),
            },
        ),
{
    let diagnostics = validation_diagnostics(validation, source);
    error_response(
        "NotReadyToRun",
        "NotReadyToRun",
        String::from_str("contract must be fully instantiated and type-safe before simulation"),
        Some(String::from_str("$.contract_yaml")),
        Some(diagnostics),
    )
}

pub fn simulate_step(request: SimulateStepRequest) -> (r: (u16, SimulateStepResponse))
    ensures
        simulate_step_is(r, request),
{
    let ghost req = request;
    let SimulateStepRequest { contract_yaml, state, transaction, trace } = request;
    let contract = match parse_contract_yaml(contract_yaml.as_str()) {
        Ok(contract) => contract,
        Err(err) => {
            let message = join3(err.path.as_str(), ": ", err.message.as_str());
            return bad_request("RequestError", "ParseError", message, Some(err.path), None);
        },
    };
    let ghost c = read_contract_document(req.contract_yaml@)->Ok_0;
    assert(c == contract@);
    let validation = type_check(&contract, &TypeCheckContext::default());
    if !validation.ready_to_run {
        let error = not_ready_error(&validation, None);
        proof { reveal_strlit("error"); }
        let r = (400, SimulateStepResponse { result: String::from_str("error"), success: None, error: Some(error) });
        assert(type_check_result_is(validation@, empty_context(), c));
        return r;
    }
    let state = match map_state_request(state) {
        Ok(state) => state,
        Err(message) => {
            return bad_request("RequestError", "StateError", message, Some(String::from_str("$.state")), None);
        },
    };
    let transaction = match map_tx_request(transaction) {
        Ok(transaction) => transaction,
        Err(message) => {
            return bad_request("RequestError", "TransactionError", message, Some(String::from_str("$.transaction")), None);
        },
    };
    match simulate_transaction_with_trace(&contract, &state, &transaction, trace) {
        SimTransactionResult::Success(success) => {
            let yaml = match contract_to_yaml_string(&success.contract) {
                Ok(yaml) => yaml,
                Err(err) => {
                    return internal_error(join2("failed to serialize contract: ", err.as_str()));
                },
            };
            let report = step_success(&success, yaml, trace, contract_yaml.as_str());
            proof { reveal_strlit("success"); }
            (200, SimulateStepResponse { result: String::from_str("success"), success: Some(report), error: None })
        },
        SimTransactionResult::Error(err) => {
            let code = sim_error_code(&err);
            bad_request(code.as_str(), code.as_str(), sim_error_message(&err), sim_error_path(&err), None)
        },
    }
}

/// The inputs a contract would accept next, over an interval.
#[derive(Debug, PartialEq, Eq)]
pub struct PreviewSuccessResponse {
    pub state: StateResponse,
    pub contract_yaml: String,
    pub warnings: Vec<WarningResponse>,
    pub inputs: Vec<PreviewInputResponse>,
}

#[derive(Debug, PartialEq, Eq)]
pub struct SimulatePreviewResponse {
    pub result: String,
    pub success: Option<PreviewSuccessResponse>,
    pub error: Option<SimulateErrorResponse>,
}

pub fn preview_bad_request(code: &str, subcode: &str, message: String, path: Option<String>, diagnostics: Option<Vec<ErrorDiagnosticResponse>>) -> (r: (u16, SimulatePreviewResponse))
    ensures
        r.0 == 400,
        r.1.result@ == "error"@,
        r.1.success is None,
        r.1.error matches Some(e) && error_is(e, code@, subcode@, message@, text_option_view(path)) && e.diagnostics == diagnostics,
{
    proof { reveal_strlit("error"); }
    (400, SimulatePreviewResponse {
        result: String::from_str("error"),
        success: None,
        error: Some(error_response(code, subcode, message, path, diagnostics)),
    })
}

pub fn preview_internal_error(message: String) -> (r: (u16, SimulatePreviewResponse))
    ensures
        internal_failure(r.0, r.1.result@, r.1.success, r.1.error, message@),
{
    proof { reveal_strlit("error"); }
    (500, SimulatePreviewResponse {
        result: String::from_str("error"),
        success: None,
        error: Some(error_response("InternalError", "InternalError", message, None, None)),
    })
}

pub open spec fn preview_refused(r: (u16, SimulatePreviewResponse), code: Seq<char>, subcode: Seq<char>, message: Seq<char>, path: Option<Seq<char>>) -> bool {
    refused(r.0, r.1.result@, r.1.success, r.1.error, code, subcode, message, path)
}

pub open spec fn preview_success_is(s: PreviewSuccessResponse, p: PreviewResultV, text: Seq<char>) -> bool {
    &&& state_response_is(s.state, p.state)
    &&& s.contract_yaml@ == text
    &&& s.warnings@.len() == 0
    &&& preview_inputs_response_is(s.inputs@, p.inputs)
}

/// The answer to a preview: as for a step, but the diagnostics of a contract
/// not ready to run are located in its text, and the interval's ends are
/// read after the state.
pub open spec fn simulate_preview_is(r: (u16, SimulatePreviewResponse), request: SimulatePreviewRequest) -> bool {
    let source = request.contract_yaml@;
    match read_contract_document(source) {
        Err(e) => preview_refused(r, "RequestError"@, "ParseError"@, parse_error_message(e), Some(e.path)),
        Ok(c) => if !ready_to_run(c) {
            not_ready_is(r.0, r.1.result@, r.1.success, r.1.error, c, Some(source))
        } else {
            match state_request_spec(request.state) {
                Err(m) => preview_refused(r, "RequestError"@, "StateError"@, m, Some("$.state"@)),
                Ok(st) => match big_int_value(request.interval_start) {
                    Err(m) => preview_refused(r, "RequestError"@, "TransactionError"@, m, Some("$.interval_start"@)),
                    Ok(start) => match big_int_value(request.interval_end) {
                        Err(m) => preview_refused(r, "RequestError"@, "TransactionError"@, m, Some("$.interval_end"@)),
                        Ok(end) => match preview_spec(c, st, start, end) {
                            Err(e) => preview_refused(
                                r,
                                sim_error_code_text(e),
                                sim_error_code_text(e),
                                sim_error_message_text(e),
                                Some(sim_error_path_text(e)),
                            ),
                            Ok(p) => match yaml_text(write_contract(p.contract)) {
                                Err(m) => internal_failure(
                                    r.0,
                                    r.1.result@,
                                    r.1.success,
                                    r.1.error,
                                    "failed to serialize contract: "@ + m,
                                ),
                                Ok(text) => {
                                    &&& r.0 == 200
                                    &&& r.1.result@ == "success"@
                                    &&& r.1.error is None
                                    &&& r.1.success matches Some(s) && preview_success_is(s, p, text)
                                },
                            },
                        },
                    },
                },
            }
        },
    }
}

pub fn simulate_preview(request: SimulatePreviewRequest) -> (r: (u16, SimulatePreviewResponse))
    ensures
        simulate_preview_is(r, request),
{
    let ghost req = request;
    let SimulatePreviewRequest { contract_yaml, state, interval_start, interval_end } = request;
    let contract = match parse_contract_yaml(contract_yaml.as_str()) {
        Ok(contract) => contract,
        Err(err) => {
            let message = join3(err.path.as_str(), ": ", err.message.as_str());
            return preview_bad_request("RequestError", "ParseError", message, Some(err.path), None);
        },
    };
    let ghost c = read_contract_document(req.contract_yaml@)->Ok_0;
    assert(c == contract@);
    let validation = type_check(&contract, &TypeCheckContext::default());
    if !validation.ready_to_run {
        let error = not_ready_error(&validation, Some(contract_yaml.as_str()));
        proof { reveal_strlit("error"); }
        let r = (400, SimulatePreviewResponse { result: String::from_str("error"), success: None, error: Some(error) });
        assert(type_check_result_is(validation@, empty_context(), c));
        return r;
    }
    let state = match map_state_request(state) {
        Ok(state) => state,
        Err(message) => {
            return preview_bad_request("RequestError", "StateError", message, Some(String::from_str("$.state")), None);
        },
    };
    let start = match interval_start.into_bigint() {
        Ok(value) => value,
        Err(message) => {
            return preview_bad_request(
                "RequestError",
                "TransactionError",
                message,
                Some(String::from_str("$.interval_start")),
                None,
            );
        },
    };
    let end = match interval_end.into_bigint() {
        Ok(value) => value,
        Err(message) => {
            return preview_bad_request(
                "RequestError",
                "TransactionError",
                message,
                Some(String::from_str("$.interval_end")),
                None,
            );
        },
    };
    match preview_inputs(&contract, &state, &start, &end) {
        Ok(preview) => {
            let yaml = match contract_to_yaml_string(&preview.contract) {
                Ok(yaml) => yaml,
                Err(err) => {
                    return preview_internal_error(join2("failed to serialize contract: ", err.as_str()));
                },
            };
            let report = PreviewSuccessResponse {
                state: state_to_response(&preview.state),
                contract_yaml: yaml,
                warnings: Vec::new(),
                inputs: preview_inputs_to_response(&preview.inputs),
            };
            proof { reveal_strlit("success"); }
            (200, SimulatePreviewResponse { result: String::from_str("success"), success: Some(report), error: None })
        },
        Err(err) => {
            let code = sim_error_code(&err);
            preview_bad_request(code.as_str(), code.as_str(), sim_error_message(&err), sim_error_path(&err), None)
        },
    }
}

} // verus!
