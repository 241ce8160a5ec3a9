//! The service's responses, and how the simulator's results are written
//! into them: amounts as decimal texts, maps as lists in key order.
use crate::ast::{ChoiceId, ChoiceIdV, Party, PartyV, PayeeTarget, PayeeTargetV, Token, TokenV};
use crate::analyze::text_option_view;
use crate::assoc::ordered_entries;
use crate::integer::{int_decimal, Integer};
use crate::keys::{AccountId, AccountIdV};
use crate::sim::{
    Payment, PaymentV, PreviewInput, PreviewInputV, SimInput, SimInputV, SimState, SimStateV, TraceReduceRule,
    TransactionWarning, TransactionWarningV,
};
use vstd::prelude::*;

verus! {

#[derive(Debug, PartialEq, Eq)]
pub enum WarningResponse {
    NonPositiveDeposit { into: Party, by: Party, token: Token, amount: String },
    NonPositivePay { from: Party, to: PayeeTarget, token: Token, amount: String },
    PartialPay { from: Party, to: PayeeTarget, token: Token, expected: String, paid: String },
    Shadowing { name: String, old: String, new: String },
    AssertionFailed,
}

/// `r` reports warning `w`, its amounts in decimal.
pub open spec fn warning_response_is(r: WarningResponse, w: TransactionWarningV) -> bool {
    match w {
        TransactionWarningV::NonPositiveDeposit { into, by, token, amount } => match r {
            WarningResponse::NonPositiveDeposit { into: a, by: b, token: t, amount: m } => a@ == into && b@ == by
                && t@ == token && m@ == int_decimal(amount),
            _ => false,
        },
        TransactionWarningV::NonPositivePay { from, to, token, amount } => match r {
            WarningResponse::NonPositivePay { from: a, to: b, token: t, amount: m } => a@ == from && b@ == to && t@
                == token && m@ == int_decimal(amount),
            _ => false,
        },
        TransactionWarningV::PartialPay { from, to, token, expected, paid } => match r {
            WarningResponse::PartialPay { from: a, to: b, token: t, expected: e, paid: p } => a@ == from && b@ == to
                && t@ == token && e@ == int_decimal(expected) && p@ == int_decimal(paid),
            _ => false,
        },
        TransactionWarningV::Shadowing { name, old, new } => match r {
            WarningResponse::Shadowing { name: n, old: o, new: m } => n@ == name && o@ == int_decimal(old) && m@
                == int_decimal(new),
            _ => false,
        },
        TransactionWarningV::AssertionFailed => r is AssertionFailed,
    }
}

pub open spec fn warnings_response_is(r: Seq<WarningResponse>, ws: Seq<TransactionWarningV>) -> bool {
    &&& r.len() == ws.len()
    &&& forall|i: int| 0 <= i < r.len() ==> warning_response_is(#[trigger] r[i], ws[i])
}

pub fn warning_to_response(warning: &TransactionWarning) -> (r: WarningResponse)
    ensures
        warning_response_is(r, warning@),
{
    match warning {
        TransactionWarning::NonPositiveDeposit { into, by, token, amount } => WarningResponse::NonPositiveDeposit {
            into: into.duplicate(),
            by: by.duplicate(),
            token: token.duplicate(),
            amount: amount.to_decimal(),
        },
        TransactionWarning::NonPositivePay { from, to, token, amount } => WarningResponse::NonPositivePay {
            from: from.duplicate(),
            to: to.duplicate(),
            token: token.duplicate(),
            amount: amount.to_decimal(),
        },
        TransactionWarning::PartialPay { from, to, token, expected, paid } => WarningResponse::PartialPay {
            from: from.duplicate(),
            to: to.duplicate(),
            token: token.duplicate(),
            expected: expected.to_decimal(),
            paid: paid.to_decimal(),
        },
        TransactionWarning::Shadowing { name, old, new } => WarningResponse::Shadowing {
            name: name.clone(),
            old: old.to_decimal(),
            new: new.to_decimal(),
        },
        TransactionWarning::AssertionFailed => WarningResponse::AssertionFailed,
    }
}

pub fn warnings_to_response(warnings: &Vec<TransactionWarning>) -> (r: Vec<WarningResponse>)
    ensures
        warnings_response_is(r@, warnings@.map_values(|w: TransactionWarning| w@)),
{
    let mut r: Vec<WarningResponse> = Vec::new();
    let mut i: usize = 0;
    while i < warnings.len()
        invariant
            i <= warnings@.len(),
            r@.len() == i,
            forall|j: int| 0 <= j < i ==> warning_response_is(#[trigger] r@[j], warnings@[j]@),
        decreases warnings@.len() - i,
    {
        r.push(warning_to_response(&warnings[i]));
        i = i + 1;
    }
    r
}

#[derive(Debug, PartialEq, Eq)]
pub struct PaymentResponse {
    pub from: Party,
    pub to: PayeeTarget,
    pub token: Token,
    pub amount: String,
}

pub open spec fn payment_response_is(r: PaymentResponse, p: PaymentV) -> bool {
    r.from@ == p.from && r.to@ == p.to && r.token@ == p.token && r.amount@ == int_decimal(p.amount)
}

pub fn payment_to_response(payment: &Payment) -> (r: PaymentResponse)
    ensures
        payment_response_is(r, payment@),
{
    PaymentResponse {
        from: payment.from.duplicate(),
        to: payment.to.duplicate(),
        token: payment.token.duplicate(),
        amount: payment.amount.to_decimal(),
    }
}

pub open spec fn payments_response_is(r: Seq<PaymentResponse>, ps: Seq<PaymentV>) -> bool {
    &&& r.len() == ps.len()
    &&& forall|i: int| 0 <= i < r.len() ==> payment_response_is(#[trigger] r[i], ps[i])
}

pub fn payments_to_response(payments: &Vec<Payment>) -> (r: Vec<PaymentResponse>)
    ensures
        payments_response_is(r@, payments@.map_values(|p: Payment| p@)),
{
    let mut r: Vec<PaymentResponse> = Vec::new();
    let mut i: usize = 0;
    while i < payments.len()
        invariant
            i <= payments@.len(),
            r@.len() == i,
            forall|j: int| 0 <= j < i ==> payment_response_is(#[trigger] r@[j], payments@[j]@),
        decreases payments@.len() - i,
    {
        r.push(payment_to_response(&payments[i]));
        i = i + 1;
    }
    r
}

#[derive(Debug, PartialEq, Eq)]
pub struct AccountBalanceResponse {
    pub owner: Party,
    pub token: Token,
    pub amount: String,
}

#[derive(Debug, PartialEq, Eq)]
pub struct AccountTargetResponse {
    pub owner: Party,
    pub token: Token,
}

#[derive(Debug, PartialEq, Eq)]
pub struct ChoiceValueResponse {
    pub id: ChoiceId,
    pub value: String,
}

#[derive(Debug, PartialEq, Eq)]
pub struct TraceMinTimeDeltaResponse {
    pub before: String,
    pub after: String,
}

/// What one step changed in the state (the simulator does not report it, so
/// the service sends none).
#[derive(Debug, PartialEq, Eq)]
pub struct TraceStateDeltaResponse {
    pub accounts_upserted: Vec<AccountBalanceResponse>,
    pub accounts_removed: Vec<AccountTargetResponse>,
    pub choices_upserted: Vec<ChoiceValueResponse>,
    pub choices_removed: Vec<ChoiceId>,
    pub bound_values_upserted: Vec<(String, String)>,
    pub bound_values_removed: Vec<String>,
    pub min_time: Option<TraceMinTimeDeltaResponse>,
}

/// A state: its maps listed in key order, integers in decimal.
#[derive(Debug, PartialEq, Eq)]
pub struct StateResponse {
    pub min_time: String,
    pub accounts: Vec<AccountBalanceResponse>,
    pub choices: Vec<ChoiceValueResponse>,
    pub bound_values: Vec<(String, String)>,
}

pub open spec fn accounts_response_is(r: Seq<AccountBalanceResponse>, e: Seq<(AccountIdV, int)>) -> bool {
    &&& r.len() == e.len()
    &&& forall|i: int|
        0 <= i < r.len() ==> (#[trigger] r[i]).owner@ == e[i].0.owner && r[i].token@ == e[i].0.token && r[i].amount@
            == int_decimal(e[i].1)
}

pub open spec fn choices_response_is(r: Seq<ChoiceValueResponse>, e: Seq<(ChoiceIdV, int)>) -> bool {
    &&& r.len() == e.len()
    &&& forall|i: int| 0 <= i < r.len() ==> (#[trigger] r[i]).id@ == e[i].0 && r[i].value@ == int_decimal(e[i].1)
}

pub open spec fn bound_values_response_is(r: Seq<(String, String)>, e: Seq<(Seq<char>, int)>) -> bool {
    &&& r.len() == e.len()
    &&& forall|i: int| 0 <= i < r.len() ==> (#[trigger] r[i]).0@ == e[i].0 && r[i].1@ == int_decimal(e[i].1)
}

/// `r` lists state `s`: each map's entries in key order.
pub open spec fn state_response_is(r: StateResponse, s: SimStateV) -> bool {
    &&& r.min_time@ == int_decimal(s.min_time)
    &&& accounts_response_is(r.accounts@, ordered_entries::<AccountId>(s.accounts))
    &&& choices_response_is(r.choices@, ordered_entries::<ChoiceId>(s.choices))
    &&& bound_values_response_is(r.bound_values@, ordered_entries::<String>(s.bound_values))
}

pub fn state_to_response(state: &SimState) -> (r: StateResponse)
    ensures
        state_response_is(r, state@),
{
    let entries = state.accounts.entries();
    let mut accounts: Vec<AccountBalanceResponse> = Vec::new();
    let mut i: usize = 0;
    while i < entries.len()
        invariant
            i <= entries@.len(),
            accounts@.len() == i,
            forall|j: int|
                0 <= j < i ==> (#[trigger] accounts@[j]).owner@ == entries@[j].0@.owner && accounts@[j].token@
                    == entries@[j].0@.token && accounts@[j].amount@ == int_decimal(entries@[j].1@),
        decreases entries@.len() - i,
    {
        let e = &entries[i];
        accounts.push(
            AccountBalanceResponse { owner: e.0.owner.duplicate(), token: e.0.token.duplicate(), amount: e.1.to_decimal() },
        );
        i = i + 1;
    }
    let entries = state.choices.entries();
    let mut choices: Vec<ChoiceValueResponse> = Vec::new();
    let mut i: usize = 0;
    while i < entries.len()
        invariant
            i <= entries@.len(),
            choices@.len() == i,
            forall|j: int|
                0 <= j < i ==> (#[trigger] choices@[j]).id@ == entries@[j].0@ && choices@[j].value@ == int_decimal(
                    entries@[j].1@,
                ),
        decreases entries@.len() - i,
    {
        let e = &entries[i];
        choices.push(ChoiceValueResponse { id: e.0.duplicate(), value: e.1.to_decimal() });
        i = i + 1;
    }
    let entries = state.bound_values.entries();
    let mut bound_values: Vec<(String, String)> = Vec::new();
    let mut i: usize = 0;
    while i < entries.len()
        invariant
            i <= entries@.len(),
            bound_values@.len() == i,
            forall|j: int|
                0 <= j < i ==> (#[trigger] bound_values@[j]).0@ == entries@[j].0@ && bound_values@[j].1@
                    == int_decimal(entries@[j].1@),
        decreases entries@.len() - i,
    {
        let e = &entries[i];
        bound_values.push((e.0.clone(), e.1.to_decimal()));
        i = i + 1;
    }
    StateResponse { min_time: state.min_time.to_decimal(), accounts, choices, bound_values }
}

/// An applied input, as a trace reports it.
#[derive(Debug, PartialEq, Eq)]
pub enum TraceInputResponse {
    Deposit { into: Party, by: Party, token: Token, amount: String },
    Choice { id: ChoiceId, value: String },
    Notify,
}

pub open spec fn trace_input_response_is(r: TraceInputResponse, i: SimInputV) -> bool {
    match i {
        SimInputV::Deposit { into, by, token, amount } => match r {
            TraceInputResponse::Deposit { into: a, by: b, token: t, amount: m } => a@ == into && b@ == by && t@
                == token && m@ == int_decimal(amount),
            _ => false,
        },
        SimInputV::Choice { id, value } => match r {
            TraceInputResponse::Choice { id: d, value: v } => d@ == id && v@ == int_decimal(value),
            _ => false,
        },
        SimInputV::Notify => r is Notify,
    }
}

pub fn trace_input_to_response(input: &SimInput) -> (r: TraceInputResponse)
    ensures
        trace_input_response_is(r, input@),
{
    match input {
        SimInput::Deposit { into, by, token, amount } => TraceInputResponse::Deposit {
            into: into.duplicate(),
            by: by.duplicate(),
            token: token.duplicate(),
            amount: amount.to_decimal(),
        },
        SimInput::Choice { id, value } => TraceInputResponse::Choice { id: id.duplicate(), value: value.to_decimal() },
        SimInput::Notify => TraceInputResponse::Notify,
    }
}

/// The name of a reduction rule.
pub open spec fn trace_rule_text(rule: TraceReduceRule) -> Seq<char> {
    match rule {
        TraceReduceRule::CloseRefund => "CloseRefund"@,
        TraceReduceRule::Pay => "Pay"@,
        TraceReduceRule::IfBranch => "IfBranch"@,
        TraceReduceRule::WhenTimeout => "WhenTimeout"@,
        TraceReduceRule::Let => "Let"@,
        TraceReduceRule::Assert => "Assert"@,
    }
}

pub fn trace_rule_name(rule: &TraceReduceRule) -> (r: &'static str)
    ensures
        r@ == trace_rule_text(*rule),
{
    match rule {
        TraceReduceRule::CloseRefund => "CloseRefund",
        TraceReduceRule::Pay => "Pay",
        TraceReduceRule::IfBranch => "IfBranch",
        TraceReduceRule::WhenTimeout => "WhenTimeout",
        TraceReduceRule::Let => "Let",
        TraceReduceRule::Assert => "Assert",
    }
}

#[derive(Debug, PartialEq, Eq)]
pub struct PreviewBoundResponse {
    pub from: String,
    pub to: String,
}

/// An input the contract would accept next, with the warnings applying it
/// would give.
#[derive(Debug, PartialEq, Eq)]
pub enum PreviewInputResponse {
    Deposit { into: Party, by: Party, token: Token, amount: String, warnings: Vec<WarningResponse> },
    Choice { id: ChoiceId, bounds: Vec<PreviewBoundResponse>, warnings: Vec<WarningResponse> },
    Notify { can_notify: bool, warnings: Vec<WarningResponse> },
}

pub open spec fn bounds_response_is(r: Seq<PreviewBoundResponse>, b: Seq<(int, int)>) -> bool {
    &&& r.len() == b.len()
    &&& forall|i: int| 0 <= i < r.len() ==> (#[trigger] r[i]).from@ == int_decimal(b[i].0) && r[i].to@ == int_decimal(b[i].1)
}

/// A deposit warns exactly when its amount is not positive.
pub open spec fn preview_input_response_is(r: PreviewInputResponse, p: PreviewInputV) -> bool {
    match p {
        PreviewInputV::Deposit { into, by, token, amount } => match r {
            PreviewInputResponse::Deposit { into: a, by: b, token: t, amount: m, warnings: w } => {
                &&& a@ == into && b@ == by && t@ == token && m@ == int_decimal(amount)
                &&& if amount <= 0 {
                    w@.len() == 1 && warning_response_is(
                        w@[0],
                        TransactionWarningV::NonPositiveDeposit { into, by, token, amount },
                    )
                } else {
                    w@.len() == 0
                }
            },
            _ => false,
        },
        PreviewInputV::Choice { id, bounds } => match r {
            PreviewInputResponse::Choice { id: d, bounds: b, warnings: w } => d@ == id && bounds_response_is(b@, bounds)
                && w@.len() == 0,
            _ => false,
        },
        PreviewInputV::Notify { can_notify } => match r {
            PreviewInputResponse::Notify { can_notify: c, warnings: w } => c == can_notify && w@.len() == 0,
            _ => false,
        },
    }
}

pub fn preview_input_to_response(input: &PreviewInput) -> (r: PreviewInputResponse)
    ensures
        preview_input_response_is(r, input@),
{
    match input {
        PreviewInput::Deposit { into, by, token, amount } => {
            let mut warnings: Vec<WarningResponse> = Vec::new();
            if !amount.is_positive() {
                warnings.push(
                    WarningResponse::NonPositiveDeposit {
                        into: into.duplicate(),
                        by: by.duplicate(),
                        token: token.duplicate(),
                        amount: amount.to_decimal(),
                    },
                );
            }
            PreviewInputResponse::Deposit {
                into: into.duplicate(),
                by: by.duplicate(),
                token: token.duplicate(),
                amount: amount.to_decimal(),
                warnings,
            }
        },
        PreviewInput::Choice { id, bounds } => {
            let mut out: Vec<PreviewBoundResponse> = Vec::new();
            let mut i: usize = 0;
            while i < bounds.len()
                invariant
                    i <= bounds@.len(),
                    out@.len() == i,
                    forall|j: int|
                        0 <= j < i ==> (#[trigger] out@[j]).from@ == int_decimal(bounds@[j].0@) && out@[j].to@
                            == int_decimal(bounds@[j].1@),
                decreases bounds@.len() - i,
            {
                out.push(PreviewBoundResponse { from: bounds[i].0.to_decimal(), to: bounds[i].1.to_decimal() });
                i = i + 1;
            }
            PreviewInputResponse::Choice { id: id.duplicate(), bounds: out, warnings: Vec::new() }
        },
        PreviewInput::Notify { can_notify } => PreviewInputResponse::Notify {
            can_notify: *can_notify,
            warnings: Vec::new(),
        },
    }
}

pub open spec fn preview_inputs_response_is(r: Seq<PreviewInputResponse>, ps: Seq<PreviewInputV>) -> bool {
    &&& r.len() == ps.len()
    &&& forall|i: int| 0 <= i < r.len() ==> preview_input_response_is(#[trigger] r[i], ps[i])
}

pub fn preview_inputs_to_response(inputs: &Vec<PreviewInput>) -> (r: Vec<PreviewInputResponse>)
    ensures
        preview_inputs_response_is(r@, inputs@.map_values(|p: PreviewInput| p@)),
{
    let mut r: Vec<PreviewInputResponse> = Vec::new();
    let mut i: usize = 0;
    while i < inputs.len()
        invariant
            i <= inputs@.len(),
            r@.len() == i,
            forall|j: int| 0 <= j < i ==> preview_input_response_is(#[trigger] r@[j], inputs@[j]@),
        decreases inputs@.len() - i,
    {
        r.push(preview_input_to_response(&inputs[i]));
        i = i + 1;
    }
    r
}

} // verus!
