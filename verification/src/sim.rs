//! One transaction of a contract's life: the contract is reduced as far as
//! it goes on its own, each input is applied to the `When` it waits in, and
//! the result is reduced again.
use crate::assoc::{first_positive_key, least_positive_key, OrderedKey, SortedMap};
use crate::ast::{
    bounds_view, cases_view, lemma_cases_view, Action, ActionV, Bound, BoundV, Case, CaseV, ChoiceId, ChoiceIdV, Contract,
    ContractV, NumericValue, Observation, ObservationV, Party, PartyV, PayeeTarget, PayeeTargetV, Timeout, TimeoutV, Token,
    TokenV, ValueV,
};
use crate::keys::{same_choice_id, same_party, same_token};
use crate::integer::{truncated_div, Integer};
use crate::keys::{AccountId, AccountIdV};
use crate::typecheck::{
    check_state_of, concrete_case, concrete_cases, concrete_contract, empty_context, static_constant, static_value, type_check,
    TypeCheckContext,
};
use vstd::prelude::*;

verus! {

/// The state of a running contract: account balances, the choices made,
/// the values bound by `Let`, and the earliest time a transaction may start.
#[derive(Debug, PartialEq, Eq)]
pub struct SimState {
    pub accounts: SortedMap<AccountId>,
    pub choices: SortedMap<ChoiceId>,
    pub bound_values: SortedMap<String>,
    pub min_time: Integer,
}

pub struct SimStateV {
    pub accounts: Map<AccountIdV, int>,
    pub choices: Map<ChoiceIdV, int>,
    pub bound_values: Map<Seq<char>, int>,
    pub min_time: int,
}

impl View for SimState {
    type V = SimStateV;

    open spec fn view(&self) -> SimStateV {
        SimStateV {
            accounts: self.accounts@,
            choices: self.choices@,
            bound_values: self.bound_values@,
            min_time: self.min_time@,
        }
    }
}

pub open spec fn empty_sim_state() -> SimStateV {
    SimStateV {
        accounts: Map::empty(),
        choices: Map::empty(),
        bound_values: Map::empty(),
        min_time: 0,
    }
}

impl Default for SimState {
    fn default() -> (r: Self)
        ensures
            r@ == empty_sim_state(),
    {
        SimState {
            accounts: SortedMap::new(),
            choices: SortedMap::new(),
            bound_values: SortedMap::new(),
            min_time: Integer::zero(),
        }
    }
}

impl SimState {
    pub fn duplicate(&self) -> (r: SimState)
        ensures
            r@ == self@,
    {
        SimState {
            accounts: self.accounts.duplicate(),
            choices: self.choices.duplicate(),
            bound_values: self.bound_values.duplicate(),
            min_time: self.min_time.duplicate(),
        }
    }
}

/// A transaction: a time interval and the inputs it applies, in order.
#[derive(Debug, PartialEq, Eq)]
pub struct SimTransaction {
    pub interval_start: Integer,
    pub interval_end: Integer,
    pub inputs: Vec<SimInput>,
}

#[derive(Debug, PartialEq, Eq)]
pub enum SimInput {
    Deposit { into: Party, by: Party, token: Token, amount: Integer },
    Choice { id: ChoiceId, value: Integer },
    Notify,
}

pub enum SimInputV {
    Deposit { into: PartyV, by: PartyV, token: TokenV, amount: int },
    Choice { id: ChoiceIdV, value: int },
    Notify,
}

impl View for SimInput {
    type V = SimInputV;

    open spec fn view(&self) -> SimInputV {
        match self {
            SimInput::Deposit { into, by, token, amount } => SimInputV::Deposit {
                into: into@,
                by: by@,
                token: token@,
                amount: amount@,
            },
            SimInput::Choice { id, value } => SimInputV::Choice { id: id@, value: value@ },
            SimInput::Notify => SimInputV::Notify,
        }
    }
}

impl SimInput {
    pub fn duplicate(&self) -> (r: SimInput)
        ensures
            r@ == self@,
    {
        match self {
            SimInput::Deposit { into, by, token, amount } => SimInput::Deposit {
                into: into.duplicate(),
                by: by.duplicate(),
                token: token.duplicate(),
                amount: amount.duplicate(),
            },
            SimInput::Choice { id, value } => SimInput::Choice { id: id.duplicate(), value: value.duplicate() },
            SimInput::Notify => SimInput::Notify,
        }
    }
}

pub open spec fn inputs_view(inputs: Seq<SimInput>) -> Seq<SimInputV> {
    inputs.map_values(|i: SimInput| i@)
}

pub struct SimTransactionV {
    pub interval_start: int,
    pub interval_end: int,
    pub inputs: Seq<SimInputV>,
}

impl View for SimTransaction {
    type V = SimTransactionV;

    open spec fn view(&self) -> SimTransactionV {
        SimTransactionV {
            interval_start: self.interval_start@,
            interval_end: self.interval_end@,
            inputs: inputs_view(self.inputs@),
        }
    }
}

/// Money that leaves an account: to a party, or to another account.
#[derive(Debug, PartialEq, Eq)]
pub struct Payment {
    pub from: Party,
    pub to: PayeeTarget,
    pub token: Token,
    pub amount: Integer,
}

pub struct PaymentV {
    pub from: PartyV,
    pub to: PayeeTargetV,
    pub token: TokenV,
    pub amount: int,
}

impl View for Payment {
    type V = PaymentV;

    open spec fn view(&self) -> PaymentV {
        PaymentV { from: self.from@, to: self.to@, token: self.token@, amount: self.amount@ }
    }
}

impl Payment {
    pub fn duplicate(&self) -> (r: Payment)
        ensures
            r@ == self@,
    {
        Payment {
            from: self.from.duplicate(),
            to: self.to.duplicate(),
            token: self.token.duplicate(),
            amount: self.amount.duplicate(),
        }
    }
}

#[derive(Debug, PartialEq, Eq)]
pub enum TransactionWarning {
    NonPositiveDeposit { into: Party, by: Party, token: Token, amount: Integer },
    NonPositivePay { from: Party, to: PayeeTarget, token: Token, amount: Integer },
    PartialPay { from: Party, to: PayeeTarget, token: Token, expected: Integer, paid: Integer },
    Shadowing { name: String, old: Integer, new: Integer },
    AssertionFailed,
}

pub enum TransactionWarningV {
    NonPositiveDeposit { into: PartyV, by: PartyV, token: TokenV, amount: int },
    NonPositivePay { from: PartyV, to: PayeeTargetV, token: TokenV, amount: int },
    PartialPay { from: PartyV, to: PayeeTargetV, token: TokenV, expected: int, paid: int },
    Shadowing { name: Seq<char>, old: int, new: int },
    AssertionFailed,
}

impl View for TransactionWarning {
    type V = TransactionWarningV;

    open spec fn view(&self) -> TransactionWarningV {
        match self {
            TransactionWarning::NonPositiveDeposit { into, by, token, amount } => TransactionWarningV::NonPositiveDeposit {
                into: into@,
                by: by@,
                token: token@,
                amount: amount@,
            },
            TransactionWarning::NonPositivePay { from, to, token, amount } => TransactionWarningV::NonPositivePay {
                from: from@,
                to: to@,
                token: token@,
                amount: amount@,
            },
            TransactionWarning::PartialPay { from, to, token, expected, paid } => TransactionWarningV::PartialPay {
                from: from@,
                to: to@,
                token: token@,
                expected: expected@,
                paid: paid@,
            },
            TransactionWarning::Shadowing { name, old, new } => TransactionWarningV::Shadowing {
                name: name@,
                old: old@,
                new: new@,
            },
            TransactionWarning::AssertionFailed => TransactionWarningV::AssertionFailed,
        }
    }
}

impl TransactionWarning {
    pub fn duplicate(&self) -> (r: TransactionWarning)
        ensures
            r@ == self@,
    {
        match self {
            TransactionWarning::NonPositiveDeposit { into, by, token, amount } => TransactionWarning::NonPositiveDeposit {
                into: into.duplicate(),
                by: by.duplicate(),
                token: token.duplicate(),
                amount: amount.duplicate(),
            },
            TransactionWarning::NonPositivePay { from, to, token, amount } => TransactionWarning::NonPositivePay {
                from: from.duplicate(),
                to: to.duplicate(),
                token: token.duplicate(),
                amount: amount.duplicate(),
            },
            TransactionWarning::PartialPay { from, to, token, expected, paid } => TransactionWarning::PartialPay {
                from: from.duplicate(),
                to: to.duplicate(),
                token: token.duplicate(),
                expected: expected.duplicate(),
                paid: paid.duplicate(),
            },
            TransactionWarning::Shadowing { name, old, new } => TransactionWarning::Shadowing {
                name: name.clone(),
                old: old.duplicate(),
                new: new.duplicate(),
            },
            TransactionWarning::AssertionFailed => TransactionWarning::AssertionFailed,
        }
    }
}

/// The rule by which a contract reduced on its own.
#[derive(Debug, Clone, Copy, PartialEq, Eq, Structural)]
pub enum TraceReduceRule {
    CloseRefund,
    Pay,
    IfBranch,
    WhenTimeout,
    Let,
    Assert,
}

/// One step of a transaction, for a trace.
#[derive(Debug, PartialEq, Eq)]
pub enum TraceStep {
    Reduced { rule: TraceReduceRule, warning: Option<TransactionWarning>, payment: Option<Payment> },
    InputApplied { input_index: usize, input: SimInput, warning: Option<TransactionWarning> },
}

pub enum TraceStepV {
    Reduced { rule: TraceReduceRule, warning: Option<TransactionWarningV>, payment: Option<PaymentV> },
    InputApplied { input_index: nat, input: SimInputV, warning: Option<TransactionWarningV> },
}

pub open spec fn warning_option_view(w: Option<TransactionWarning>) -> Option<TransactionWarningV> {
    match w {
        Some(x) => Some(x@),
        None => None,
    }
}

pub open spec fn payment_option_view(p: Option<Payment>) -> Option<PaymentV> {
    match p {
        Some(x) => Some(x@),
        None => None,
    }
}

impl View for TraceStep {
    type V = TraceStepV;

    open spec fn view(&self) -> TraceStepV {
        match self {
            TraceStep::Reduced { rule, warning, payment } => TraceStepV::Reduced {
                rule: *rule,
                warning: warning_option_view(*warning),
                payment: payment_option_view(*payment),
            },
            TraceStep::InputApplied { input_index, input, warning } => TraceStepV::InputApplied {
                input_index: *input_index as nat,
                input: input@,
                warning: warning_option_view(*warning),
            },
        }
    }
}

#[derive(Debug, PartialEq, Eq)]
pub enum SimError {
    NotReadyToRun,
    InvalidInterval { start: Integer, end: Integer },
    IntervalInPast { min_time: Integer, start: Integer, end: Integer },
    AmbiguousTimeInterval,
    NoMatchForInput { input_index: usize },
    UselessTransaction,
}

pub enum SimErrorV {
    NotReadyToRun,
    InvalidInterval { start: int, end: int },
    IntervalInPast { min_time: int, start: int, end: int },
    AmbiguousTimeInterval,
    NoMatchForInput { input_index: nat },
    UselessTransaction,
}

impl View for SimError {
    type V = SimErrorV;

    open spec fn view(&self) -> SimErrorV {
        match self {
            SimError::NotReadyToRun => SimErrorV::NotReadyToRun,
            SimError::InvalidInterval { start, end } => SimErrorV::InvalidInterval { start: start@, end: end@ },
            SimError::IntervalInPast { min_time, start, end } => SimErrorV::IntervalInPast {
                min_time: min_time@,
                start: start@,
                end: end@,
            },
            SimError::AmbiguousTimeInterval => SimErrorV::AmbiguousTimeInterval,
            SimError::NoMatchForInput { input_index } => SimErrorV::NoMatchForInput { input_index: *input_index as nat },
            SimError::UselessTransaction => SimErrorV::UselessTransaction,
        }
    }
}

/// The time interval a transaction runs in, after clamping.
pub struct EnvV {
    pub start: int,
    pub end: int,
}

/// A value in a map, or zero where the key has none.
pub open spec fn value_or_zero<K>(m: Map<K, int>, k: K) -> int {
    if m.dom().contains(k) {
        m[k]
    } else {
        0
    }
}

pub open spec fn eval_value_spec(st: SimStateV, env: EnvV, v: ValueV) -> int
    decreases v,
{
    match v {
        ValueV::Hole(_) | ValueV::Param(_) => 0,
        ValueV::Constant(c) => c,
        ValueV::Add(a, b) => eval_value_spec(st, env, *a) + eval_value_spec(st, env, *b),
        ValueV::Sub(a, b) => eval_value_spec(st, env, *a) - eval_value_spec(st, env, *b),
        ValueV::Mul(a, b) => eval_value_spec(st, env, *a) * eval_value_spec(st, env, *b),
        ValueV::Div(a, b) => {
            let lhs = eval_value_spec(st, env, *a);
            let rhs = eval_value_spec(st, env, *b);
            if rhs == 0 {
                0
            } else {
                truncated_div(lhs, rhs)
            }
        },
        ValueV::Neg(a) => -eval_value_spec(st, env, *a),
        ValueV::Abs(a) => {
            let x = eval_value_spec(st, env, *a);
            if x < 0 {
                -x
            } else {
                x
            }
        },
        ValueV::ValueFromChoice(id) => value_or_zero(st.choices, id),
        ValueV::UseValue(name) => value_or_zero(st.bound_values, name),
        ValueV::TimeIntervalStart => env.start,
        ValueV::TimeIntervalEnd => env.end,
        ValueV::AvailableMoney { account, token } => value_or_zero(st.accounts, AccountIdV { owner: account, token }),
    }
}

pub open spec fn eval_observation_spec(st: SimStateV, env: EnvV, o: ObservationV) -> bool
    decreases o,
{
    match o {
        ObservationV::Hole(_) => false,
        ObservationV::True => true,
        ObservationV::False => false,
        ObservationV::And(a, b) => eval_observation_spec(st, env, *a) && eval_observation_spec(st, env, *b),
        ObservationV::Or(a, b) => eval_observation_spec(st, env, *a) || eval_observation_spec(st, env, *b),
        ObservationV::Not(a) => !eval_observation_spec(st, env, *a),
        ObservationV::ChoseSomething(id) => st.choices.dom().contains(id),
        ObservationV::ValueGE(a, b) => eval_value_spec(st, env, a) >= eval_value_spec(st, env, b),
        ObservationV::ValueGT(a, b) => eval_value_spec(st, env, a) > eval_value_spec(st, env, b),
        ObservationV::ValueLT(a, b) => eval_value_spec(st, env, a) < eval_value_spec(st, env, b),
        ObservationV::ValueLE(a, b) => eval_value_spec(st, env, a) <= eval_value_spec(st, env, b),
        ObservationV::ValueEQ(a, b) => eval_value_spec(st, env, a) == eval_value_spec(st, env, b),
    }
}

/// A timeout's time; a hole or a parameter counts as zero.
pub open spec fn eval_timeout_spec(t: TimeoutV) -> int {
    match t {
        TimeoutV::PosixTime(v) => v,
        _ => 0,
    }
}

/// Adds a positive amount to an account; other amounts change nothing.
pub open spec fn add_money_spec(m: Map<AccountIdV, int>, owner: PartyV, token: TokenV, amount: int) -> Map<AccountIdV, int> {
    let k = AccountIdV { owner, token };
    if amount <= 0 {
        m
    } else {
        m.insert(k, value_or_zero(m, k) + amount)
    }
}

/// Sets an account's balance; an account left with nothing is closed.
pub open spec fn update_money_spec(m: Map<AccountIdV, int>, k: AccountIdV, balance: int) -> Map<AccountIdV, int> {
    if balance <= 0 {
        m.remove(k)
    } else {
        m.insert(k, balance)
    }
}

/// What a payment does to the accounts on the receiving side.
pub open spec fn give_money_spec(m: Map<AccountIdV, int>, to: PayeeTargetV, token: TokenV, amount: int) -> Map<AccountIdV, int> {
    match to {
        PayeeTargetV::ToAccount(owner) => add_money_spec(m, owner, token, amount),
        _ => m,
    }
}

/// A step of a contract on its own.
pub struct ReducedStepV {
    pub rule: TraceReduceRule,
    pub warning: Option<TransactionWarningV>,
    pub payment: Option<PaymentV>,
    pub state: SimStateV,
    pub contract: ContractV,
}

pub enum ReduceOutcome {
    NotReduced,
    Reduced(ReducedStepV),
    Failed(SimErrorV),
}

/// `Close` pays out the first account, in account order, that holds money.
pub open spec fn refund_spec(st: SimStateV) -> ReduceOutcome {
    match first_positive_key::<AccountId>(st.accounts) {
        None => ReduceOutcome::NotReduced,
        Some(k) => ReduceOutcome::Reduced(
            ReducedStepV {
                rule: TraceReduceRule::CloseRefund,
                warning: None,
                payment: Some(PaymentV { from: k.owner, to: PayeeTargetV::ToParty(k.owner), token: k.token, amount: st.accounts[k] }),
                state: SimStateV { accounts: st.accounts.remove(k), ..st },
                contract: ContractV::Close,
            },
        ),
    }
}

pub open spec fn reduced(
    rule: TraceReduceRule,
    warning: Option<TransactionWarningV>,
    payment: Option<PaymentV>,
    state: SimStateV,
    contract: ContractV,
) -> ReduceOutcome {
    ReduceOutcome::Reduced(ReducedStepV { rule, warning, payment, state, contract })
}

pub open spec fn reduce_step_spec(env: EnvV, st: SimStateV, c: ContractV) -> ReduceOutcome {
    match c {
        ContractV::Hole(_) => ReduceOutcome::NotReduced,
        ContractV::Close => refund_spec(st),
        ContractV::Pay { from, to, token, amount, then } => {
            let due = eval_value_spec(st, env, amount);
            if due <= 0 {
                reduced(
                    TraceReduceRule::Pay,
                    Some(TransactionWarningV::NonPositivePay { from, to, token, amount: due }),
                    None,
                    st,
                    *then,
                )
            } else {
                let k = AccountIdV { owner: from, token };
                let balance = value_or_zero(st.accounts, k);
                let paid = if balance < due { balance } else { due };
                let accounts = give_money_spec(update_money_spec(st.accounts, k, balance - paid), to, token, paid);
                reduced(
                    TraceReduceRule::Pay,
                    if paid < due {
                        Some(TransactionWarningV::PartialPay { from, to, token, expected: due, paid })
                    } else {
                        None
                    },
                    Some(PaymentV { from, to, token, amount: paid }),
                    SimStateV { accounts, ..st },
                    *then,
                )
            }
        },
        ContractV::If { cond, then, else_ } => reduced(
            TraceReduceRule::IfBranch,
            None,
            None,
            st,
            if eval_observation_spec(st, env, cond) { *then } else { *else_ },
        ),
        ContractV::When { timeout, timeout_continuation, .. } => {
            let t = eval_timeout_spec(timeout);
            if env.end < t {
                ReduceOutcome::NotReduced
            } else if t <= env.start {
                reduced(TraceReduceRule::WhenTimeout, None, None, st, *timeout_continuation)
            } else {
                ReduceOutcome::Failed(SimErrorV::AmbiguousTimeInterval)
            }
        },
        ContractV::Let { name, value, then } => {
            let v = eval_value_spec(st, env, value);
            reduced(
                TraceReduceRule::Let,
                if st.bound_values.dom().contains(name) {
                    Some(TransactionWarningV::Shadowing { name, old: st.bound_values[name], new: v })
                } else {
                    None
                },
                None,
                SimStateV { bound_values: st.bound_values.insert(name, v), ..st },
                *then,
            )
        },
        ContractV::Assert { cond, then } => reduced(
            TraceReduceRule::Assert,
            if eval_observation_spec(st, env, cond) { None } else { Some(TransactionWarningV::AssertionFailed) },
            None,
            st,
            *then,
        ),
    }
}

/// A measure that every reduction step other than a refund lowers.
pub open spec fn contract_weight(c: ContractV) -> nat
    decreases c,
{
    match c {
        ContractV::Hole(_) | ContractV::Close => 1,
        ContractV::Pay { then, .. } => 1 + contract_weight(*then),
        ContractV::If { then, else_, .. } => 1 + contract_weight(*then) + contract_weight(*else_),
        ContractV::When { timeout_continuation, .. } => 1 + contract_weight(*timeout_continuation),
        ContractV::Let { then, .. } => 1 + contract_weight(*then),
        ContractV::Assert { then, .. } => 1 + contract_weight(*then),
    }
}

/// A step lowers the contract's weight, or leaves it and closes an account.
pub proof fn lemma_reduce_step_decreases(env: EnvV, st: SimStateV, c: ContractV)
    requires
        st.accounts.dom().finite(),
    ensures
        reduce_step_spec(env, st, c) matches ReduceOutcome::Reduced(step) ==> {
            &&& step.state.accounts.dom().finite()
            &&& (contract_weight(step.contract) < contract_weight(c) || (contract_weight(step.contract)
                == contract_weight(c) && step.state.accounts.dom().len() < st.accounts.dom().len()))
        },
{
    match c {
        ContractV::Close => {
            if let Some(k) = first_positive_key::<AccountId>(st.accounts) {
                assert(least_positive_key::<AccountId>(st.accounts, k));
                assert(st.accounts.dom().contains(k));
            }
        },
        ContractV::Pay { from, to, token, amount, then } => {
            let due = eval_value_spec(st, env, amount);
            let k = AccountIdV { owner: from, token };
            let balance = value_or_zero(st.accounts, k);
            let paid = if balance < due { balance } else { due };
            let m1 = update_money_spec(st.accounts, k, balance - paid);
            assert(m1.dom().finite());
        },
        _ => {},
    }
}

/// What reducing a contract as far as it goes on its own gives: whether it
/// moved, the warnings and payments in order, where it stopped, and, when
/// asked for, the trace of the steps.
pub struct RunV {
    pub reduced: bool,
    pub warnings: Seq<TransactionWarningV>,
    pub payments: Seq<PaymentV>,
    pub state: SimStateV,
    pub contract: ContractV,
    pub trace: Seq<TraceStepV>,
}

pub open spec fn option_seq<A>(o: Option<A>) -> Seq<A> {
    match o {
        Some(x) => seq![x],
        None => Seq::empty(),
    }
}

/// The trace entry of a step, when a trace is asked for.
pub open spec fn step_trace(step: ReducedStepV, with_trace: bool) -> Seq<TraceStepV> {
    if with_trace {
        seq![TraceStepV::Reduced { rule: step.rule, warning: step.warning, payment: step.payment }]
    } else {
        Seq::empty()
    }
}

/// A run that starts with `step` and goes on as `rest`.
pub open spec fn after_step(step: ReducedStepV, with_trace: bool, rest: Result<RunV, SimErrorV>) -> Result<RunV, SimErrorV> {
    match rest {
        Err(e) => Err(e),
        Ok(rest) => Ok(
            RunV {
                reduced: true,
                warnings: option_seq(step.warning) + rest.warnings,
                payments: option_seq(step.payment) + rest.payments,
                state: rest.state,
                contract: rest.contract,
                trace: step_trace(step, with_trace) + rest.trace,
            },
        ),
    }
}

pub open spec fn reduce_until_spec(env: EnvV, st: SimStateV, c: ContractV, with_trace: bool) -> Result<RunV, SimErrorV>
    decreases contract_weight(c), st.accounts.dom().len(),
    when st.accounts.dom().finite()
{
    match reduce_step_spec(env, st, c) {
        ReduceOutcome::NotReduced => Ok(
            RunV { reduced: false, warnings: Seq::empty(), payments: Seq::empty(), state: st, contract: c, trace: Seq::empty() },
        ),
        ReduceOutcome::Failed(e) => Err(e),
        ReduceOutcome::Reduced(step) => {
            proof {
                lemma_reduce_step_decreases(env, st, c);
            }
            after_step(step, with_trace, reduce_until_spec(env, step.state, step.contract, with_trace))
        },
    }
}

/// A run with what came before it put in front.
pub open spec fn prepend_run(
    any: bool,
    warnings: Seq<TransactionWarningV>,
    payments: Seq<PaymentV>,
    trace: Seq<TraceStepV>,
    r: Result<RunV, SimErrorV>,
) -> Result<RunV, SimErrorV> {
    match r {
        Err(e) => Err(e),
        Ok(rest) => Ok(
            RunV {
                reduced: any || rest.reduced,
                warnings: warnings + rest.warnings,
                payments: payments + rest.payments,
                state: rest.state,
                contract: rest.contract,
                trace: trace + rest.trace,
            },
        ),
    }
}

proof fn lemma_prepend_step(
    any: bool,
    warnings: Seq<TransactionWarningV>,
    payments: Seq<PaymentV>,
    trace: Seq<TraceStepV>,
    step: ReducedStepV,
    with_trace: bool,
    rest: Result<RunV, SimErrorV>,
)
    ensures
        prepend_run(any, warnings, payments, trace, after_step(step, with_trace, rest)) == prepend_run(
            true,
            warnings + option_seq(step.warning),
            payments + option_seq(step.payment),
            trace + step_trace(step, with_trace),
            rest,
        ),
{
    if let Ok(r) = rest {
        assert(warnings + (option_seq(step.warning) + r.warnings) =~= warnings + option_seq(step.warning) + r.warnings);
        assert(payments + (option_seq(step.payment) + r.payments) =~= payments + option_seq(step.payment) + r.payments);
        assert(trace + (step_trace(step, with_trace) + r.trace) =~= trace + step_trace(step, with_trace) + r.trace);
    }
}

} // verus!

verus! {

/// The time interval a transaction runs in, after clamping.
struct Environment {
    start: Integer,
    end: Integer,
}

impl View for Environment {
    type V = EnvV;

    closed spec fn view(&self) -> EnvV {
        EnvV { start: self.start@, end: self.end@ }
    }
}

fn value_or_zero_in<K: OrderedKey>(m: &SortedMap<K>, k: &K) -> (r: Integer)
    ensures
        r@ == value_or_zero(m@, k@),
{
    match m.get(k) {
        Some(v) => v.duplicate(),
        None => Integer::zero(),
    }
}

fn account_of(owner: &Party, token: &Token) -> (r: AccountId)
    ensures
        r@ == (AccountIdV { owner: owner@, token: token@ }),
{
    AccountId { owner: owner.duplicate(), token: token.duplicate() }
}

fn eval_value(state: &SimState, env: &Environment, v: &NumericValue) -> (r: Integer)
    ensures
        r@ == eval_value_spec(state@, env@, v@),
    decreases v,
{
    match v {
        NumericValue::Hole(_) | NumericValue::Param(_) => Integer::zero(),
        NumericValue::Constant(c) => c.duplicate(),
        NumericValue::Add(a, b) => eval_value(state, env, a).add(&eval_value(state, env, b)),
        NumericValue::Sub(a, b) => eval_value(state, env, a).sub(&eval_value(state, env, b)),
        NumericValue::Mul(a, b) => eval_value(state, env, a).mul(&eval_value(state, env, b)),
        NumericValue::Div(a, b) => {
            let lhs = eval_value(state, env, a);
            let rhs = eval_value(state, env, b);
            if rhs.equals(&Integer::zero()) {
                Integer::zero()
            } else {
                lhs.div(&rhs)
            }
        },
        NumericValue::Neg(a) => eval_value(state, env, a).neg(),
        NumericValue::Abs(a) => eval_value(state, env, a).abs(),
        NumericValue::ValueFromChoice(id) => value_or_zero_in(&state.choices, id),
        NumericValue::UseValue(name) => value_or_zero_in(&state.bound_values, name),
        NumericValue::TimeIntervalStart => env.start.duplicate(),
        NumericValue::TimeIntervalEnd => env.end.duplicate(),
        NumericValue::AvailableMoney { account, token } => value_or_zero_in(&state.accounts, &account_of(account, token)),
    }
}

fn eval_observation(state: &SimState, env: &Environment, o: &Observation) -> (r: bool)
    ensures
        r == eval_observation_spec(state@, env@, o@),
    decreases o,
{
    match o {
        Observation::Hole(_) => false,
        Observation::True => true,
        Observation::False => false,
        Observation::And(a, b) => eval_observation(state, env, a) && eval_observation(state, env, b),
        Observation::Or(a, b) => eval_observation(state, env, a) || eval_observation(state, env, b),
        Observation::Not(a) => !eval_observation(state, env, a),
        Observation::ChoseSomething(id) => state.choices.contains_key(id),
        Observation::ValueGE(a, b) => eval_value(state, env, b).le(&eval_value(state, env, a)),
        Observation::ValueGT(a, b) => eval_value(state, env, b).lt(&eval_value(state, env, a)),
        Observation::ValueLT(a, b) => eval_value(state, env, a).lt(&eval_value(state, env, b)),
        Observation::ValueLE(a, b) => eval_value(state, env, a).le(&eval_value(state, env, b)),
        Observation::ValueEQ(a, b) => eval_value(state, env, a).equals(&eval_value(state, env, b)),
    }
}

fn eval_timeout(t: &Timeout) -> (r: Integer)
    ensures
        r@ == eval_timeout_spec(t@),
{
    match t {
        Timeout::PosixTime(v) => v.duplicate(),
        _ => Integer::zero(),
    }
}

fn add_money_to_account(accounts: &mut SortedMap<AccountId>, owner: &Party, token: &Token, amount: &Integer)
    ensures
        final(accounts)@ == add_money_spec(old(accounts)@, owner@, token@, amount@),
{
    if !amount.is_positive() {
        return;
    }
    let account = account_of(owner, token);
    let current = value_or_zero_in(accounts, &account);
    accounts.insert(account, current.add(amount));
}

fn update_money_in_account(accounts: &mut SortedMap<AccountId>, account: &AccountId, balance: &Integer)
    ensures
        final(accounts)@ == update_money_spec(old(accounts)@, account@, balance@),
{
    if !balance.is_positive() {
        accounts.remove(account);
    } else {
        accounts.insert(account.copy_key(), balance.duplicate());
    }
}

fn give_money(accounts: &mut SortedMap<AccountId>, from: &Party, to: &PayeeTarget, token: &Token, amount: &Integer) -> (r: Payment)
    ensures
        final(accounts)@ == give_money_spec(old(accounts)@, to@, token@, amount@),
        r@ == (PaymentV { from: from@, to: to@, token: token@, amount: amount@ }),
{
    if let PayeeTarget::ToAccount(owner) = to {
        add_money_to_account(accounts, owner, token, amount);
    }
    Payment { from: from.duplicate(), to: to.duplicate(), token: token.duplicate(), amount: amount.duplicate() }
}

struct ReducedStepData {
    rule: TraceReduceRule,
    warning: Option<TransactionWarning>,
    payment: Option<Payment>,
    state: SimState,
    contract: Contract,
}

enum ReduceStep {
    NotReduced,
    Reduced(ReducedStepData),
}

spec fn step_view(d: ReducedStepData) -> ReducedStepV {
    ReducedStepV {
        rule: d.rule,
        warning: warning_option_view(d.warning),
        payment: payment_option_view(d.payment),
        state: d.state@,
        contract: d.contract@,
    }
}

spec fn step_outcome(r: Result<ReduceStep, SimError>) -> ReduceOutcome {
    match r {
        Ok(ReduceStep::NotReduced) => ReduceOutcome::NotReduced,
        Ok(ReduceStep::Reduced(d)) => ReduceOutcome::Reduced(step_view(d)),
        Err(e) => ReduceOutcome::Failed(e@),
    }
}

fn refund_one(state: &SimState) -> (r: ReduceStep)
    ensures
        step_outcome(Ok(r)) == refund_spec(state@),
{
    match state.accounts.first_positive() {
        None => ReduceStep::NotReduced,
        Some((account, amount)) => {
            let mut new_state = state.duplicate();
            new_state.accounts.remove(&account);
            let payment = Payment {
                from: account.owner.duplicate(),
                to: PayeeTarget::ToParty(account.owner.duplicate()),
                token: account.token.duplicate(),
                amount,
            };
            ReduceStep::Reduced(
                ReducedStepData {
                    rule: TraceReduceRule::CloseRefund,
                    warning: None,
                    payment: Some(payment),
                    state: new_state,
                    contract: Contract::Close,
                },
            )
        },
    }
}

fn reduce_step(env: &Environment, state: &SimState, contract: &Contract) -> (r: Result<ReduceStep, SimError>)
    ensures
        step_outcome(r) == reduce_step_spec(env@, state@, contract@),
{
    match contract {
        Contract::Hole(_) => Ok(ReduceStep::NotReduced),
        Contract::Close => Ok(refund_one(state)),
        Contract::Pay { from, to, token, amount, then } => {
            let due = eval_value(state, env, amount);
            if !due.is_positive() {
                return Ok(
                    ReduceStep::Reduced(
                        ReducedStepData {
                            rule: TraceReduceRule::Pay,
                            warning: Some(
                                TransactionWarning::NonPositivePay {
                                    from: from.duplicate(),
                                    to: to.duplicate(),
                                    token: token.duplicate(),
                                    amount: due,
                                },
                            ),
                            payment: None,
                            state: state.duplicate(),
                            contract: (**then).duplicate(),
                        },
                    ),
                );
            }
            let account = account_of(from, token);
            let balance = value_or_zero_in(&state.accounts, &account);
            let paid = if balance.lt(&due) { balance.duplicate() } else { due.duplicate() };
            let mut new_state = state.duplicate();
            update_money_in_account(&mut new_state.accounts, &account, &balance.sub(&paid));
            let payment = give_money(&mut new_state.accounts, from, to, token, &paid);
            let warning = if paid.lt(&due) {
                Some(
                    TransactionWarning::PartialPay {
                        from: from.duplicate(),
                        to: to.duplicate(),
                        token: token.duplicate(),
                        expected: due,
                        paid: paid.duplicate(),
                    },
                )
            } else {
                None
            };
            Ok(
                ReduceStep::Reduced(
                    ReducedStepData {
                        rule: TraceReduceRule::Pay,
                        warning,
                        payment: Some(payment),
                        state: new_state,
                        contract: (**then).duplicate(),
                    },
                ),
            )
        },
        Contract::If { cond, then, else_ } => {
            let selected = if eval_observation(state, env, cond) { (**then).duplicate() } else { (**else_).duplicate() };
            Ok(
                ReduceStep::Reduced(
                    ReducedStepData {
                        rule: TraceReduceRule::IfBranch,
                        warning: None,
                        payment: None,
                        state: state.duplicate(),
                        contract: selected,
                    },
                ),
            )
        },
        Contract::When { timeout, timeout_continuation, .. } => {
            let t = eval_timeout(timeout);
            if env.end.lt(&t) {
                Ok(ReduceStep::NotReduced)
            } else if t.le(&env.start) {
                Ok(
                    ReduceStep::Reduced(
                        ReducedStepData {
                            rule: TraceReduceRule::WhenTimeout,
                            warning: None,
                            payment: None,
                            state: state.duplicate(),
                            contract: (**timeout_continuation).duplicate(),
                        },
                    ),
                )
            } else {
                Err(SimError::AmbiguousTimeInterval)
            }
        },
        Contract::Let { name, value, then } => {
            let v = eval_value(state, env, value);
            let mut new_state = state.duplicate();
            let previous = new_state.bound_values.insert(name.clone(), v.duplicate());
            let warning = match previous {
                Some(old) => Some(TransactionWarning::Shadowing { name: name.clone(), old, new: v }),
                None => None,
            };
            Ok(
                ReduceStep::Reduced(
                    ReducedStepData {
                        rule: TraceReduceRule::Let,
                        warning,
                        payment: None,
                        state: new_state,
                        contract: (**then).duplicate(),
                    },
                ),
            )
        },
        Contract::Assert { cond, then } => {
            let warning = if eval_observation(state, env, cond) { None } else { Some(TransactionWarning::AssertionFailed) };
            Ok(
                ReduceStep::Reduced(
                    ReducedStepData {
                        rule: TraceReduceRule::Assert,
                        warning,
                        payment: None,
                        state: state.duplicate(),
                        contract: (**then).duplicate(),
                    },
                ),
            )
        },
    }
}

} // verus!

verus! {

pub open spec fn warnings_view(s: Seq<TransactionWarning>) -> Seq<TransactionWarningV> {
    s.map_values(|w: TransactionWarning| w@)
}

pub open spec fn payments_view(s: Seq<Payment>) -> Seq<PaymentV> {
    s.map_values(|p: Payment| p@)
}

pub open spec fn trace_view(s: Seq<TraceStep>) -> Seq<TraceStepV> {
    s.map_values(|t: TraceStep| t@)
}

struct RunData {
    reduced: bool,
    warnings: Vec<TransactionWarning>,
    payments: Vec<Payment>,
    state: SimState,
    contract: Contract,
    trace: Vec<TraceStep>,
}

spec fn run_view(r: RunData) -> RunV {
    RunV {
        reduced: r.reduced,
        warnings: warnings_view(r.warnings@),
        payments: payments_view(r.payments@),
        state: r.state@,
        contract: r.contract@,
        trace: trace_view(r.trace@),
    }
}

spec fn run_result_view(r: Result<RunData, SimError>) -> Result<RunV, SimErrorV> {
    match r {
        Ok(d) => Ok(run_view(d)),
        Err(e) => Err(e@),
    }
}

fn duplicate_warning(w: &Option<TransactionWarning>) -> (r: Option<TransactionWarning>)
    ensures
        warning_option_view(r) == warning_option_view(*w),
{
    match w {
        Some(x) => Some(x.duplicate()),
        None => None,
    }
}

fn duplicate_payment(p: &Option<Payment>) -> (r: Option<Payment>)
    ensures
        payment_option_view(r) == payment_option_view(*p),
{
    match p {
        Some(x) => Some(x.duplicate()),
        None => None,
    }
}

fn push_warning(v: &mut Vec<TransactionWarning>, w: Option<TransactionWarning>)
    ensures
        warnings_view(final(v)@) == warnings_view(old(v)@) + option_seq(warning_option_view(w)),
{
    let ghost before = v@;
    if let Some(x) = w {
        v.push(x);
    }
    assert(warnings_view(v@) =~= warnings_view(before) + option_seq(warning_option_view(w)));
}

fn push_payment(v: &mut Vec<Payment>, p: Option<Payment>)
    ensures
        payments_view(final(v)@) == payments_view(old(v)@) + option_seq(payment_option_view(p)),
{
    let ghost before = v@;
    if let Some(x) = p {
        v.push(x);
    }
    assert(payments_view(v@) =~= payments_view(before) + option_seq(payment_option_view(p)));
}

/// Reduces a contract until it can go no further on its own.
fn reduce_until_quiescent(env: &Environment, state: &SimState, contract: &Contract, with_trace: bool) -> (r: Result<RunData, SimError>)
    ensures
        run_result_view(r) == reduce_until_spec(env@, state@, contract@, with_trace),
{
    let mut st = state.duplicate();
    let mut c = contract.duplicate();
    let mut warnings: Vec<TransactionWarning> = Vec::new();
    let mut payments: Vec<Payment> = Vec::new();
    let mut trace: Vec<TraceStep> = Vec::new();
    let mut any = false;
    proof {
        st.accounts.lemma_finite();
        let target = reduce_until_spec(env@, st@, c@, with_trace);
        assert(warnings_view(warnings@) =~= Seq::empty());
        assert(payments_view(payments@) =~= Seq::empty());
        assert(trace_view(trace@) =~= Seq::empty());
        if let Ok(t) = target {
            assert(Seq::<TransactionWarningV>::empty() + t.warnings =~= t.warnings);
            assert(Seq::<PaymentV>::empty() + t.payments =~= t.payments);
            assert(Seq::<TraceStepV>::empty() + t.trace =~= t.trace);
        }
    }
    loop
        invariant
            st@.accounts.dom().finite(),
            reduce_until_spec(env@, state@, contract@, with_trace) == prepend_run(
                any,
                warnings_view(warnings@),
                payments_view(payments@),
                trace_view(trace@),
                reduce_until_spec(env@, st@, c@, with_trace),
            ),
        decreases contract_weight(c@), st@.accounts.dom().len(),
    {
        let ghost st0 = st@;
        let ghost c0 = c@;
        match reduce_step(env, &st, &c) {
            Err(e) => {
                return Err(e);
            },
            Ok(ReduceStep::NotReduced) => {
                assert(warnings_view(warnings@) + Seq::empty() =~= warnings_view(warnings@));
                assert(payments_view(payments@) + Seq::empty() =~= payments_view(payments@));
                assert(trace_view(trace@) + Seq::empty() =~= trace_view(trace@));
                return Ok(RunData { reduced: any, warnings, payments, state: st, contract: c, trace });
            },
            Ok(ReduceStep::Reduced(d)) => {
                let ghost sv = step_view(d);
                proof {
                    lemma_reduce_step_decreases(env@, st0, c0);
                    lemma_prepend_step(
                        any,
                        warnings_view(warnings@),
                        payments_view(payments@),
                        trace_view(trace@),
                        sv,
                        with_trace,
                        reduce_until_spec(env@, sv.state, sv.contract, with_trace),
                    );
                }
                let ReducedStepData { rule, warning, payment, state: next_state, contract: next_contract } = d;
                if with_trace {
                    let ghost tb = trace@;
                    trace.push(TraceStep::Reduced { rule, warning: duplicate_warning(&warning), payment: duplicate_payment(&payment) });
                    assert(trace_view(trace@) =~= trace_view(tb) + step_trace(sv, with_trace));
                } else {
                    assert(trace_view(trace@) =~= trace_view(trace@) + step_trace(sv, with_trace));
                }
                push_warning(&mut warnings, warning);
                push_payment(&mut payments, payment);
                any = true;
                st = next_state;
                c = next_contract;
            },
        }
    }
}

} // verus!

verus! {

/// Whether a bound with constant ends contains `value`.
pub open spec fn bound_admits(b: BoundV, value: int) -> bool {
    match b {
        BoundV::Bound { from, to } => match (static_value(from), static_value(to)) {
            (Some(lo), Some(hi)) => lo <= value && value <= hi,
            _ => false,
        },
        BoundV::Hole(_) => false,
    }
}

pub open spec fn in_bounds_spec(value: int, bounds: Seq<BoundV>) -> bool {
    exists|i: int| 0 <= i < bounds.len() && #[trigger] bound_admits(bounds[i], value)
}

/// What an input does to the case that accepts it.
pub struct AppliedV {
    pub warning: Option<TransactionWarningV>,
    pub state: SimStateV,
    pub contract: ContractV,
}

#[verifier::opaque]
pub open spec fn apply_case_spec(env: EnvV, st: SimStateV, case: CaseV, input: SimInputV) -> Option<AppliedV> {
    match case {
        CaseV::Hole(_) => None,
        CaseV::Case { action, then } => match (action, input) {
            (
                ActionV::Deposit { into, by, token, amount },
                SimInputV::Deposit { into: input_into, by: input_by, token: input_token, amount: input_amount },
            ) => if into == input_into && by == input_by && token == input_token && eval_value_spec(st, env, amount)
                == input_amount {
                Some(
                    AppliedV {
                        warning: if input_amount <= 0 {
                            Some(TransactionWarningV::NonPositiveDeposit { into, by, token, amount: input_amount })
                        } else {
                            None
                        },
                        state: SimStateV { accounts: add_money_spec(st.accounts, into, token, input_amount), ..st },
                        contract: *then,
                    },
                )
            } else {
                None
            },
            (ActionV::Choice { id, bounds }, SimInputV::Choice { id: input_id, value }) => if id == input_id
                && in_bounds_spec(value, bounds) {
                Some(AppliedV { warning: None, state: SimStateV { choices: st.choices.insert(id, value), ..st }, contract: *then })
            } else {
                None
            },
            (ActionV::Notify { if_ }, SimInputV::Notify) => if eval_observation_spec(st, env, if_) {
                Some(AppliedV { warning: None, state: st, contract: *then })
            } else {
                None
            },
            _ => None,
        },
    }
}

/// The first case from position `i` on that accepts the input.
pub open spec fn apply_cases_spec(env: EnvV, st: SimStateV, cases: Seq<CaseV>, i: nat, input: SimInputV) -> Option<AppliedV>
    decreases cases.len() - i,
{
    if i >= cases.len() {
        None
    } else {
        match apply_case_spec(env, st, cases[i as int], input) {
            Some(a) => Some(a),
            None => apply_cases_spec(env, st, cases, i + 1, input),
        }
    }
}

/// An input applies only to a `When`, through the first case that accepts it.
pub open spec fn apply_input_spec(env: EnvV, st: SimStateV, c: ContractV, input: SimInputV) -> Option<AppliedV> {
    match c {
        ContractV::When { cases, .. } => apply_cases_spec(env, st, cases, 0, input),
        _ => None,
    }
}

fn in_bounds(value: &Integer, bounds: &Vec<Bound>) -> (r: bool)
    ensures
        r == in_bounds_spec(value@, bounds_view(bounds@)),
{
    let ghost bv = bounds_view(bounds@);
    let mut i: usize = 0;
    while i < bounds.len()
        invariant
            bv == bounds_view(bounds@),
            i <= bounds@.len(),
            forall|j: int| 0 <= j < i ==> !#[trigger] bound_admits(bv[j], value@),
        decreases bounds@.len() - i,
    {
        assert(bv[i as int] == bounds@[i as int]@);
        if let Bound::Bound { from, to } = &bounds[i] {
            match (static_constant(from), static_constant(to)) {
                (Some(lo), Some(hi)) => {
                    if lo.le(value) && value.le(hi) {
                        assert(bound_admits(bv[i as int], value@));
                        return true;
                    }
                },
                _ => {},
            }
        }
        i = i + 1;
    }
    false
}

struct AppliedData {
    warning: Option<TransactionWarning>,
    state: SimState,
    contract: Contract,
}

spec fn applied_view(a: Option<AppliedData>) -> Option<AppliedV> {
    match a {
        Some(d) => Some(AppliedV { warning: warning_option_view(d.warning), state: d.state@, contract: d.contract@ }),
        None => None,
    }
}

fn apply_case(env: &Environment, state: &SimState, case: &Case, input: &SimInput) -> (r: Option<AppliedData>)
    ensures
        applied_view(r) == apply_case_spec(env@, state@, case@, input@),
{
    reveal(apply_case_spec);
    match case {
        Case::Hole(_) => None,
        Case::Case { action, then } => match (action, input) {
            (
                Action::Deposit { into, by, token, amount },
                SimInput::Deposit { into: input_into, by: input_by, token: input_token, amount: input_amount },
            ) => {
                let expected = eval_value(state, env, amount);
                if same_party(into, input_into) && same_party(by, input_by) && same_token(token, input_token)
                    && expected.equals(input_amount) {
                    let mut new_state = state.duplicate();
                    add_money_to_account(&mut new_state.accounts, into, token, input_amount);
                    let warning = if !input_amount.is_positive() {
                        Some(
                            TransactionWarning::NonPositiveDeposit {
                                into: into.duplicate(),
                                by: by.duplicate(),
                                token: token.duplicate(),
                                amount: input_amount.duplicate(),
                            },
                        )
                    } else {
                        None
                    };
                    Some(AppliedData { warning, state: new_state, contract: (**then).duplicate() })
                } else {
                    None
                }
            },
            (Action::Choice { id, bounds }, SimInput::Choice { id: input_id, value }) => {
                if same_choice_id(id, input_id) && in_bounds(value, bounds) {
                    let mut new_state = state.duplicate();
                    new_state.choices.insert(id.duplicate(), value.duplicate());
                    Some(AppliedData { warning: None, state: new_state, contract: (**then).duplicate() })
                } else {
                    None
                }
            },
            (Action::Notify { if_ }, SimInput::Notify) => {
                if eval_observation(state, env, if_) {
                    Some(AppliedData { warning: None, state: state.duplicate(), contract: (**then).duplicate() })
                } else {
                    None
                }
            },
            _ => None,
        },
    }
}

fn apply_cases(env: &Environment, state: &SimState, cases: &Vec<Case>, input: &SimInput) -> (r: Option<AppliedData>)
    ensures
        applied_view(r) == apply_cases_spec(env@, state@, cases_view(cases@), 0, input@),
{
    let ghost cv = cases_view(cases@);
    proof { lemma_cases_view(cases@); }
    let mut i: usize = 0;
    while i < cases.len()
        invariant
            cv == cases_view(cases@),
            cv.len() == cases@.len(),
            forall|j: int| 0 <= j < cases@.len() ==> #[trigger] cv[j] == cases@[j]@,
            i <= cases@.len(),
            apply_cases_spec(env@, state@, cv, 0, input@) == apply_cases_spec(env@, state@, cv, i as nat, input@),
        decreases cases@.len() - i,
    {
        let ghost ci = cv[i as int];
        let applied = apply_case(env, state, &cases[i], input);
        proof {
            assert(ci == cases@[i as int]@);
            assert(apply_cases_spec(env@, state@, cv, i as nat, input@) == match apply_case_spec(env@, state@, ci, input@) {
                Some(a) => Some(a),
                None => apply_cases_spec(env@, state@, cv, (i + 1) as nat, input@),
            });
        }
        if applied.is_some() {
            return applied;
        }
        i = i + 1;
    }
    None
}

fn apply_input(env: &Environment, state: &SimState, contract: &Contract, input: &SimInput) -> (r: Option<AppliedData>)
    ensures
        applied_view(r) == apply_input_spec(env@, state@, contract@, input@),
{
    match contract {
        Contract::When { cases, .. } => apply_cases(env, state, cases, input),
        _ => None,
    }
}

/// Reduces, applies input `i`, and goes on with the rest; once the inputs
/// are spent, reduces a last time.
pub open spec fn apply_inputs_from(
    env: EnvV,
    st: SimStateV,
    c: ContractV,
    inputs: Seq<SimInputV>,
    i: nat,
    with_trace: bool,
) -> Result<RunV, SimErrorV>
    decreases inputs.len() - i,
{
    if i >= inputs.len() {
        reduce_until_spec(env, st, c, with_trace)
    } else {
        match reduce_until_spec(env, st, c, with_trace) {
            Err(e) => Err(e),
            Ok(run) => match apply_input_spec(env, run.state, run.contract, inputs[i as int]) {
                None => Err(SimErrorV::NoMatchForInput { input_index: i }),
                Some(a) => prepend_run(
                    true,
                    run.warnings + option_seq(a.warning),
                    run.payments,
                    run.trace + input_trace(i, inputs[i as int], a.warning, with_trace),
                    apply_inputs_from(env, a.state, a.contract, inputs, i + 1, with_trace),
                ),
            },
        }
    }
}

/// The trace entry of an applied input, when a trace is asked for.
pub open spec fn input_trace(i: nat, input: SimInputV, warning: Option<TransactionWarningV>, with_trace: bool) -> Seq<TraceStepV> {
    if with_trace {
        seq![TraceStepV::InputApplied { input_index: i, input, warning }]
    } else {
        Seq::empty()
    }
}

proof fn lemma_prepend_twice(
    any: bool,
    w1: Seq<TransactionWarningV>,
    p1: Seq<PaymentV>,
    t1: Seq<TraceStepV>,
    w2: Seq<TransactionWarningV>,
    p2: Seq<PaymentV>,
    t2: Seq<TraceStepV>,
    rest: Result<RunV, SimErrorV>,
)
    ensures
        prepend_run(any, w1, p1, t1, prepend_run(true, w2, p2, t2, rest)) == prepend_run(true, w1 + w2, p1 + p2, t1 + t2, rest),
{
    if let Ok(r) = rest {
        assert(w1 + (w2 + r.warnings) =~= w1 + w2 + r.warnings);
        assert(p1 + (p2 + r.payments) =~= p1 + p2 + r.payments);
        assert(t1 + (t2 + r.trace) =~= t1 + t2 + r.trace);
    }
}

fn apply_all_inputs(env: &Environment, state: &SimState, contract: &Contract, inputs: &Vec<SimInput>, with_trace: bool) -> (r: Result<RunData, SimError>)
    ensures
        run_result_view(r) == apply_inputs_from(env@, state@, contract@, inputs_view(inputs@), 0, with_trace),
{
    let ghost iv = inputs_view(inputs@);
    let mut st = state.duplicate();
    let mut c = contract.duplicate();
    let mut warnings: Vec<TransactionWarning> = Vec::new();
    let mut payments: Vec<Payment> = Vec::new();
    let mut trace: Vec<TraceStep> = Vec::new();
    let mut any = false;
    proof {
        let target = apply_inputs_from(env@, st@, c@, iv, 0, with_trace);
        assert(warnings_view(warnings@) =~= Seq::empty());
        assert(payments_view(payments@) =~= Seq::empty());
        assert(trace_view(trace@) =~= Seq::empty());
        if let Ok(t) = target {
            assert(Seq::<TransactionWarningV>::empty() + t.warnings =~= t.warnings);
            assert(Seq::<PaymentV>::empty() + t.payments =~= t.payments);
            assert(Seq::<TraceStepV>::empty() + t.trace =~= t.trace);
        }
    }
    let mut i: usize = 0;
    while i < inputs.len()
        invariant
            iv == inputs_view(inputs@),
            i <= inputs@.len(),
            apply_inputs_from(env@, state@, contract@, iv, 0, with_trace) == prepend_run(
                any,
                warnings_view(warnings@),
                payments_view(payments@),
                trace_view(trace@),
                apply_inputs_from(env@, st@, c@, iv, i as nat, with_trace),
            ),
        decreases inputs@.len() - i,
    {
        let run = match reduce_until_quiescent(env, &st, &c, with_trace) {
            Ok(run) => run,
            Err(e) => {
                return Err(e);
            },
        };
        let ghost rv = run_view(run);
        let RunData { reduced: _, warnings: run_warnings, payments: run_payments, state: run_state, contract: run_contract, trace: run_trace } = run;
        let applied = apply_input(env, &run_state, &run_contract, &inputs[i]);
        assert(iv[i as int] == inputs@[i as int]@);
        match applied {
            None => {
                return Err(SimError::NoMatchForInput { input_index: i });
            },
            Some(a) => {
                let ghost av = applied_view(Some(a)).unwrap();
                proof {
                    lemma_prepend_twice(
                        any,
                        warnings_view(warnings@),
                        payments_view(payments@),
                        trace_view(trace@),
                        rv.warnings + option_seq(av.warning),
                        rv.payments,
                        rv.trace + input_trace(i as nat, iv[i as int], av.warning, with_trace),
                        apply_inputs_from(env@, av.state, av.contract, iv, (i + 1) as nat, with_trace),
                    );
                    assert(warnings_view(warnings@) + (rv.warnings + option_seq(av.warning)) =~= warnings_view(warnings@)
                        + rv.warnings + option_seq(av.warning));
                    assert(trace_view(trace@) + (rv.trace + input_trace(i as nat, iv[i as int], av.warning, with_trace))
                        =~= trace_view(trace@) + rv.trace + input_trace(i as nat, iv[i as int], av.warning, with_trace));
                }
                let AppliedData { warning, state: next_state, contract: next_contract } = a;
                let ghost w0 = warnings@;
                let ghost p0 = payments@;
                let ghost t0 = trace@;
                let mut run_warnings = run_warnings;
                let mut run_payments = run_payments;
                let mut run_trace = run_trace;
                warnings.append(&mut run_warnings);
                payments.append(&mut run_payments);
                trace.append(&mut run_trace);
                assert(warnings_view(warnings@) =~= warnings_view(w0) + rv.warnings);
                assert(payments_view(payments@) =~= payments_view(p0) + rv.payments);
                assert(trace_view(trace@) =~= trace_view(t0) + rv.trace);
                let ghost t1 = trace@;
                if with_trace {
                    trace.push(TraceStep::InputApplied { input_index: i, input: inputs[i].duplicate(), warning: duplicate_warning(&warning) });
                    assert(trace_view(trace@) =~= trace_view(t1) + input_trace(i as nat, iv[i as int], av.warning, with_trace));
                } else {
                    assert(trace_view(trace@) =~= trace_view(t1) + input_trace(i as nat, iv[i as int], av.warning, with_trace));
                }
                push_warning(&mut warnings, warning);
                any = true;
                st = next_state;
                c = next_contract;
                i = i + 1;
            },
        }
    }
    match reduce_until_quiescent(env, &st, &c, with_trace) {
        Err(e) => Err(e),
        Ok(run) => {
            let RunData { reduced, warnings: run_warnings, payments: run_payments, state: run_state, contract: run_contract, trace: run_trace } = run;
            let ghost rv = RunV {
                reduced,
                warnings: warnings_view(run_warnings@),
                payments: payments_view(run_payments@),
                state: run_state@,
                contract: run_contract@,
                trace: trace_view(run_trace@),
            };
            let ghost w0 = warnings@;
            let ghost p0 = payments@;
            let ghost t0 = trace@;
            let mut run_warnings = run_warnings;
            let mut run_payments = run_payments;
            let mut run_trace = run_trace;
            warnings.append(&mut run_warnings);
            payments.append(&mut run_payments);
            trace.append(&mut run_trace);
            assert(warnings_view(warnings@) =~= warnings_view(w0) + rv.warnings);
            assert(payments_view(payments@) =~= payments_view(p0) + rv.payments);
            assert(trace_view(trace@) =~= trace_view(t0) + rv.trace);
            Ok(RunData { reduced: any || reduced, warnings, payments, state: run_state, contract: run_contract, trace })
        },
    }
}

} // verus!

verus! {

/// Clamps the interval's start to the state's `min_time`; refuses an
/// interval that ends before it starts or before `min_time`.
pub open spec fn fix_interval_spec(start: int, end: int, st: SimStateV) -> Result<(EnvV, SimStateV), SimErrorV> {
    if start > end {
        Err(SimErrorV::InvalidInterval { start, end })
    } else if end < st.min_time {
        Err(SimErrorV::IntervalInPast { min_time: st.min_time, start, end })
    } else {
        let bounded = if start > st.min_time { start } else { st.min_time };
        Ok((EnvV { start: bounded, end }, SimStateV { min_time: bounded, ..st }))
    }
}

fn fix_interval(start: &Integer, end: &Integer, state: &SimState) -> (r: Result<(Environment, SimState), SimError>)
    ensures
        match r {
            Ok((env, st)) => fix_interval_spec(start@, end@, state@) == Ok::<(EnvV, SimStateV), SimErrorV>((env@, st@)),
            Err(e) => fix_interval_spec(start@, end@, state@) == Err::<(EnvV, SimStateV), SimErrorV>(e@),
        },
{
    if end.lt(start) {
        return Err(SimError::InvalidInterval { start: start.duplicate(), end: end.duplicate() });
    }
    if end.lt(&state.min_time) {
        return Err(
            SimError::IntervalInPast { min_time: state.min_time.duplicate(), start: start.duplicate(), end: end.duplicate() },
        );
    }
    let bounded = if state.min_time.lt(start) { start.duplicate() } else { state.min_time.duplicate() };
    let environment = Environment { start: bounded.duplicate(), end: end.duplicate() };
    let mut new_state = state.duplicate();
    new_state.min_time = bounded;
    Ok((environment, new_state))
}

/// Whether the type checker, with no context, finds nothing wrong and
/// nothing left open.
pub open spec fn ready_to_run(c: ContractV) -> bool {
    let st = check_state_of(empty_context(), c);
    st.errors.len() == 0 && st.holes.len() == 0 && st.params.len() == 0
}

#[derive(Debug, PartialEq, Eq)]
pub struct SimTransactionSuccess {
    pub warnings: Vec<TransactionWarning>,
    pub payments: Vec<Payment>,
    pub state: SimState,
    pub contract: Contract,
    pub trace: Vec<TraceStep>,
}

pub struct SimTransactionSuccessV {
    pub warnings: Seq<TransactionWarningV>,
    pub payments: Seq<PaymentV>,
    pub state: SimStateV,
    pub contract: ContractV,
    pub trace: Seq<TraceStepV>,
}

impl View for SimTransactionSuccess {
    type V = SimTransactionSuccessV;

    open spec fn view(&self) -> SimTransactionSuccessV {
        SimTransactionSuccessV {
            warnings: warnings_view(self.warnings@),
            payments: payments_view(self.payments@),
            state: self.state@,
            contract: self.contract@,
            trace: trace_view(self.trace@),
        }
    }
}

#[derive(Debug, PartialEq, Eq)]
pub enum SimTransactionResult {
    Success(Box<SimTransactionSuccess>),
    Error(SimError),
}

pub enum SimTransactionResultV {
    Success(SimTransactionSuccessV),
    Error(SimErrorV),
}

impl View for SimTransactionResult {
    type V = SimTransactionResultV;

    open spec fn view(&self) -> SimTransactionResultV {
        match self {
            SimTransactionResult::Success(s) => SimTransactionResultV::Success((**s)@),
            SimTransactionResult::Error(e) => SimTransactionResultV::Error(e@),
        }
    }
}

/// One transaction on a contract and a state: refused when the contract is
/// not ready to run or the interval is wrong; otherwise the contract is
/// reduced, the inputs applied in order, and the result reduced again; a
/// transaction that neither applies an input nor reduces anything (nor
/// refunds from a `Close`) is useless.
pub open spec fn simulate_spec(c: ContractV, st: SimStateV, tx: SimTransactionV, with_trace: bool) -> SimTransactionResultV {
    if !ready_to_run(c) {
        SimTransactionResultV::Error(SimErrorV::NotReadyToRun)
    } else {
        match fix_interval_spec(tx.interval_start, tx.interval_end, st) {
            Err(e) => SimTransactionResultV::Error(e),
            Ok((env, fixed)) => match apply_inputs_from(env, fixed, c, tx.inputs, 0, with_trace) {
                Err(e) => SimTransactionResultV::Error(e),
                Ok(run) => if !run.reduced && (!(c is Close) || fixed.accounts.dom().len() == 0) {
                    SimTransactionResultV::Error(SimErrorV::UselessTransaction)
                } else {
                    SimTransactionResultV::Success(
                        SimTransactionSuccessV {
                            warnings: run.warnings,
                            payments: run.payments,
                            state: run.state,
                            contract: run.contract,
                            trace: run.trace,
                        },
                    )
                },
            },
        }
    }
}

/// Runs one transaction, with the trace of its steps when asked for.
pub fn simulate_transaction_with_trace(
    contract: &Contract,
    state: &SimState,
    transaction: &SimTransaction,
    include_trace: bool,
) -> (r: SimTransactionResult)
    ensures
        r@ == simulate_spec(contract@, state@, transaction@, include_trace),
{
    let check = type_check(contract, &TypeCheckContext::default());
    if !check.ready_to_run {
        return SimTransactionResult::Error(SimError::NotReadyToRun);
    }
    let (environment, fixed_state) = match fix_interval(&transaction.interval_start, &transaction.interval_end, state) {
        Ok(result) => result,
        Err(err) => {
            return SimTransactionResult::Error(err);
        },
    };
    let applied = match apply_all_inputs(&environment, &fixed_state, contract, &transaction.inputs, include_trace) {
        Ok(result) => result,
        Err(err) => {
            return SimTransactionResult::Error(err);
        },
    };
    let is_close = match contract {
        Contract::Close => true,
        _ => false,
    };
    if !applied.reduced && (!is_close || fixed_state.accounts.is_empty()) {
        return SimTransactionResult::Error(SimError::UselessTransaction);
    }
    let RunData { reduced: _, warnings, payments, state: end_state, contract: end_contract, trace } = applied;
    SimTransactionResult::Success(
        Box::new(SimTransactionSuccess { warnings, payments, state: end_state, contract: end_contract, trace }),
    )
}

/// Runs one transaction.
pub fn simulate_transaction(contract: &Contract, state: &SimState, transaction: &SimTransaction) -> (r: SimTransactionResult)
    ensures
        r@ == simulate_spec(contract@, state@, transaction@, false),
{
    simulate_transaction_with_trace(contract, state, transaction, false)
}

} // verus!

verus! {

/// An input that the contract, waiting in a `When`, would accept.
#[derive(Debug, PartialEq, Eq)]
pub enum PreviewInput {
    Deposit { into: Party, by: Party, token: Token, amount: Integer },
    Choice { id: ChoiceId, bounds: Vec<(Integer, Integer)> },
    Notify { can_notify: bool },
}

pub enum PreviewInputV {
    Deposit { into: PartyV, by: PartyV, token: TokenV, amount: int },
    Choice { id: ChoiceIdV, bounds: Seq<(int, int)> },
    Notify { can_notify: bool },
}

pub open spec fn ranges_view(s: Seq<(Integer, Integer)>) -> Seq<(int, int)> {
    s.map_values(|r: (Integer, Integer)| (r.0@, r.1@))
}

impl View for PreviewInput {
    type V = PreviewInputV;

    open spec fn view(&self) -> PreviewInputV {
        match self {
            PreviewInput::Deposit { into, by, token, amount } => PreviewInputV::Deposit {
                into: into@,
                by: by@,
                token: token@,
                amount: amount@,
            },
            PreviewInput::Choice { id, bounds } => PreviewInputV::Choice { id: id@, bounds: ranges_view(bounds@) },
            PreviewInput::Notify { can_notify } => PreviewInputV::Notify { can_notify: *can_notify },
        }
    }
}

pub open spec fn preview_inputs_view(s: Seq<PreviewInput>) -> Seq<PreviewInputV> {
    s.map_values(|p: PreviewInput| p@)
}

#[derive(Debug, PartialEq, Eq)]
pub struct PreviewResult {
    pub state: SimState,
    pub contract: Contract,
    pub inputs: Vec<PreviewInput>,
}

pub struct PreviewResultV {
    pub state: SimStateV,
    pub contract: ContractV,
    pub inputs: Seq<PreviewInputV>,
}

impl View for PreviewResult {
    type V = PreviewResultV;

    open spec fn view(&self) -> PreviewResultV {
        PreviewResultV { state: self.state@, contract: self.contract@, inputs: preview_inputs_view(self.inputs@) }
    }
}

/// The ranges of the bounds whose two ends are constants, in order.
pub open spec fn static_bounds(bounds: Seq<BoundV>) -> Seq<(int, int)>
    decreases bounds.len(),
{
    if bounds.len() == 0 {
        Seq::empty()
    } else {
        let rest = static_bounds(bounds.drop_last());
        match bounds.last() {
            BoundV::Bound { from, to } => match (static_value(from), static_value(to)) {
                (Some(lo), Some(hi)) => rest.push((lo, hi)),
                _ => rest,
            },
            BoundV::Hole(_) => rest,
        }
    }
}

pub open spec fn preview_case_spec(case: CaseV, st: SimStateV, env: EnvV) -> Option<PreviewInputV> {
    match case {
        CaseV::Hole(_) => None,
        CaseV::Case { action, .. } => match action {
            ActionV::Deposit { into, by, token, amount } => Some(
                PreviewInputV::Deposit { into, by, token, amount: eval_value_spec(st, env, amount) },
            ),
            ActionV::Choice { id, bounds } => Some(PreviewInputV::Choice { id, bounds: static_bounds(bounds) }),
            ActionV::Notify { if_ } => Some(PreviewInputV::Notify { can_notify: eval_observation_spec(st, env, if_) }),
            ActionV::Hole(_) => None,
        },
    }
}

/// The inputs that the cases would accept, in the order of the cases.
pub open spec fn preview_cases_spec(cases: Seq<CaseV>, st: SimStateV, env: EnvV) -> Seq<PreviewInputV>
    decreases cases.len(),
{
    if cases.len() == 0 {
        Seq::empty()
    } else {
        let rest = preview_cases_spec(cases.drop_last(), st, env);
        match preview_case_spec(cases.last(), st, env) {
            Some(p) => rest.push(p),
            None => rest,
        }
    }
}

/// What a transaction could do next: the contract is reduced as far as it
/// goes over the interval, and the inputs its `When` would accept are listed.
pub open spec fn preview_spec(c: ContractV, st: SimStateV, start: int, end: int) -> Result<PreviewResultV, SimErrorV> {
    if !ready_to_run(c) {
        Err(SimErrorV::NotReadyToRun)
    } else {
        match fix_interval_spec(start, end, st) {
            Err(e) => Err(e),
            Ok((env, fixed)) => match reduce_until_spec(env, fixed, c, false) {
                Err(e) => Err(e),
                Ok(run) => Ok(
                    PreviewResultV {
                        state: run.state,
                        contract: run.contract,
                        inputs: match run.contract {
                            ContractV::When { cases, .. } => preview_cases_spec(cases, run.state, env),
                            _ => Seq::empty(),
                        },
                    },
                ),
            },
        }
    }
}

fn constant_ranges(bounds: &Vec<Bound>) -> (r: Vec<(Integer, Integer)>)
    ensures
        ranges_view(r@) == static_bounds(bounds_view(bounds@)),
{
    let ghost bv = bounds_view(bounds@);
    let mut r: Vec<(Integer, Integer)> = Vec::new();
    let mut i: usize = 0;
    assert(bv.subrange(0, 0) =~= Seq::<BoundV>::empty());
    assert(ranges_view(r@) =~= Seq::empty());
    while i < bounds.len()
        invariant
            bv == bounds_view(bounds@),
            i <= bounds@.len(),
            ranges_view(r@) == static_bounds(bv.subrange(0, i as int)),
        decreases bounds@.len() - i,
    {
        let ghost before = r@;
        assert(bv.subrange(0, i + 1).drop_last() =~= bv.subrange(0, i as int));
        assert(bv.subrange(0, i + 1).last() == bounds@[i as int]@);
        if let Bound::Bound { from, to } = &bounds[i] {
            match (static_constant(from), static_constant(to)) {
                (Some(lo), Some(hi)) => {
                    r.push((lo.duplicate(), hi.duplicate()));
                    assert(ranges_view(r@) =~= ranges_view(before).push((lo@, hi@)));
                },
                _ => {},
            }
        }
        i = i + 1;
    }
    assert(bv.subrange(0, i as int) =~= bv);
    r
}

fn preview_case(case: &Case, state: &SimState, env: &Environment) -> (r: Option<PreviewInput>)
    ensures
        match r {
            Some(p) => preview_case_spec(case@, state@, env@) == Some(p@),
            None => preview_case_spec(case@, state@, env@) is None,
        },
{
    match case {
        Case::Hole(_) => None,
        Case::Case { action, .. } => match action {
            Action::Deposit { into, by, token, amount } => Some(
                PreviewInput::Deposit {
                    into: into.duplicate(),
                    by: by.duplicate(),
                    token: token.duplicate(),
                    amount: eval_value(state, env, amount),
                },
            ),
            Action::Choice { id, bounds } => Some(PreviewInput::Choice { id: id.duplicate(), bounds: constant_ranges(bounds) }),
            Action::Notify { if_ } => Some(PreviewInput::Notify { can_notify: eval_observation(state, env, if_) }),
            Action::Hole(_) => None,
        },
    }
}

fn preview_cases(cases: &Vec<Case>, state: &SimState, env: &Environment) -> (r: Vec<PreviewInput>)
    ensures
        preview_inputs_view(r@) == preview_cases_spec(cases_view(cases@), state@, env@),
{
    let ghost cv = cases_view(cases@);
    proof { lemma_cases_view(cases@); }
    let mut r: Vec<PreviewInput> = Vec::new();
    let mut i: usize = 0;
    assert(cv.subrange(0, 0) =~= Seq::<CaseV>::empty());
    assert(preview_inputs_view(r@) =~= Seq::empty());
    while i < cases.len()
        invariant
            cv == cases_view(cases@),
            cv.len() == cases@.len(),
            forall|j: int| 0 <= j < cases@.len() ==> #[trigger] cv[j] == cases@[j]@,
            i <= cases@.len(),
            preview_inputs_view(r@) == preview_cases_spec(cv.subrange(0, i as int), state@, env@),
        decreases cases@.len() - i,
    {
        let ghost before = r@;
        assert(cv.subrange(0, i + 1).drop_last() =~= cv.subrange(0, i as int));
        assert(cv.subrange(0, i + 1).last() == cv[i as int]);
        assert(cv[i as int] == cases@[i as int]@);
        match preview_case(&cases[i], state, env) {
            Some(p) => {
                let ghost pv = p@;
                r.push(p);
                assert(preview_inputs_view(r@) =~= preview_inputs_view(before).push(pv));
            },
            None => {},
        }
        i = i + 1;
    }
    assert(cv.subrange(0, i as int) =~= cv);
    r
}

/// Lists what a transaction over the interval could do next.
pub fn preview_inputs(contract: &Contract, state: &SimState, interval_start: &Integer, interval_end: &Integer) -> (r: Result<PreviewResult, SimError>)
    ensures
        match r {
            Ok(p) => preview_spec(contract@, state@, interval_start@, interval_end@) == Ok::<PreviewResultV, SimErrorV>(p@),
            Err(e) => preview_spec(contract@, state@, interval_start@, interval_end@) == Err::<PreviewResultV, SimErrorV>(e@),
        },
{
    let check = type_check(contract, &TypeCheckContext::default());
    if !check.ready_to_run {
        return Err(SimError::NotReadyToRun);
    }
    let (environment, fixed_state) = match fix_interval(interval_start, interval_end, state) {
        Ok(result) => result,
        Err(err) => {
            return Err(err);
        },
    };
    let run = match reduce_until_quiescent(&environment, &fixed_state, contract, false) {
        Ok(run) => run,
        Err(err) => {
            return Err(err);
        },
    };
    let RunData { reduced: _, warnings: _, payments: _, state: end_state, contract: end_contract, trace: _ } = run;
    let inputs = match &end_contract {
        Contract::When { cases, .. } => preview_cases(cases, &end_state, &environment),
        _ => {
            let v: Vec<PreviewInput> = Vec::new();
            assert(preview_inputs_view(v@) =~= Seq::empty());
            v
        },
    };
    Ok(PreviewResult { state: end_state, contract: end_contract, inputs })
}

} // verus!

verus! {

/// Every account holds a positive balance.
pub open spec fn balances_positive(m: Map<AccountIdV, int>) -> bool {
    forall|k: AccountIdV| #[trigger] m.dom().contains(k) ==> m[k] > 0
}

/// What every step keeps: the earliest start time, a finite set of accounts,
/// positive balances where they were positive, and every choice made.
pub open spec fn keeps_frame(before: SimStateV, after: SimStateV) -> bool {
    &&& after.min_time == before.min_time
    &&& after.accounts.dom().finite()
    &&& balances_positive(before.accounts) ==> balances_positive(after.accounts)
    &&& forall|k: ChoiceIdV| #[trigger] before.choices.dom().contains(k) ==> after.choices.dom().contains(k)
}

proof fn lemma_add_money_keeps(m: Map<AccountIdV, int>, owner: PartyV, token: TokenV, amount: int)
    requires
        m.dom().finite(),
    ensures
        add_money_spec(m, owner, token, amount).dom().finite(),
        balances_positive(m) ==> balances_positive(add_money_spec(m, owner, token, amount)),
{
}

pub(crate) proof fn lemma_reduce_step_keeps(env: EnvV, st: SimStateV, c: ContractV)
    requires
        st.accounts.dom().finite(),
    ensures
        reduce_step_spec(env, st, c) matches ReduceOutcome::Reduced(step) ==> keeps_frame(st, step.state),
        reduce_step_spec(env, st, c) matches ReduceOutcome::Failed(e) ==> e is AmbiguousTimeInterval,
{
    match c {
        ContractV::Pay { from, to, token, amount, then } => {
            let due = eval_value_spec(st, env, amount);
            let k = AccountIdV { owner: from, token };
            let balance = value_or_zero(st.accounts, k);
            let paid = if balance < due { balance } else { due };
            let m1 = update_money_spec(st.accounts, k, balance - paid);
            assert(m1.dom().finite());
            assert(balances_positive(st.accounts) ==> balances_positive(m1));
            match to {
                PayeeTargetV::ToAccount(owner) => lemma_add_money_keeps(m1, owner, token, paid),
                _ => {},
            }
        },
        _ => {},
    }
}

pub(crate) proof fn lemma_reduce_until_keeps(env: EnvV, st: SimStateV, c: ContractV, with_trace: bool)
    requires
        st.accounts.dom().finite(),
    ensures
        reduce_until_spec(env, st, c, with_trace) matches Ok(run) ==> keeps_frame(st, run.state) && (!with_trace
            ==> run.trace.len() == 0),
        reduce_until_spec(env, st, c, with_trace) matches Err(e) ==> e is AmbiguousTimeInterval,
    decreases contract_weight(c), st.accounts.dom().len(),
{
    lemma_reduce_step_keeps(env, st, c);
    if let ReduceOutcome::Reduced(step) = reduce_step_spec(env, st, c) {
        lemma_reduce_step_decreases(env, st, c);
        lemma_reduce_until_keeps(env, step.state, step.contract, with_trace);
    }
}

pub(crate) proof fn lemma_apply_cases_keeps(env: EnvV, st: SimStateV, cases: Seq<CaseV>, i: nat, input: SimInputV)
    requires
        st.accounts.dom().finite(),
    ensures
        apply_cases_spec(env, st, cases, i, input) matches Some(a) ==> keeps_frame(st, a.state),
    decreases cases.len() - i,
{
    if i < cases.len() {
        reveal(apply_case_spec);
        match cases[i as int] {
            CaseV::Case { action: ActionV::Deposit { into, token, .. }, .. } => {
                if let SimInputV::Deposit { amount, .. } = input {
                    lemma_add_money_keeps(st.accounts, into, token, amount);
                }
            },
            _ => {},
        }
        lemma_apply_cases_keeps(env, st, cases, i + 1, input);
    }
}

proof fn lemma_apply_inputs_keeps(env: EnvV, st: SimStateV, c: ContractV, inputs: Seq<SimInputV>, i: nat, with_trace: bool)
    requires
        st.accounts.dom().finite(),
    ensures
        apply_inputs_from(env, st, c, inputs, i, with_trace) matches Ok(run) ==> keeps_frame(st, run.state) && (
        !with_trace ==> run.trace.len() == 0),
        apply_inputs_from(env, st, c, inputs, i, with_trace) matches Err(e) ==> e is AmbiguousTimeInterval
            || e is NoMatchForInput,
    decreases inputs.len() - i,
{
    lemma_reduce_until_keeps(env, st, c, with_trace);
    if i < inputs.len() {
        if let Ok(run) = reduce_until_spec(env, st, c, with_trace) {
            if let ContractV::When { cases, .. } = run.contract {
                lemma_apply_cases_keeps(env, run.state, cases, 0, inputs[i as int]);
            }
            if let Some(a) = apply_input_spec(env, run.state, run.contract, inputs[i as int]) {
                lemma_apply_inputs_keeps(env, a.state, a.contract, inputs, i + 1, with_trace);
            }
        }
    }
}

proof fn lemma_reduce_until_quiescent(env: EnvV, st: SimStateV, c: ContractV, with_trace: bool)
    requires
        st.accounts.dom().finite(),
    ensures
        reduce_until_spec(env, st, c, with_trace) matches Ok(run) ==> reduce_step_spec(env, run.state, run.contract) is NotReduced,
        reduce_until_spec(env, st, c, with_trace) matches Ok(run) ==> (concrete_contract(c) ==> concrete_contract(run.contract)),
    decreases contract_weight(c), st.accounts.dom().len(),
{
    lemma_reduce_step_keeps(env, st, c);
    if let ReduceOutcome::Reduced(step) = reduce_step_spec(env, st, c) {
        lemma_reduce_step_decreases(env, st, c);
        lemma_reduce_until_quiescent(env, step.state, step.contract, with_trace);
    }
}

proof fn lemma_apply_cases_concrete(env: EnvV, st: SimStateV, cases: Seq<CaseV>, i: nat, input: SimInputV)
    requires
        concrete_cases(cases, i),
    ensures
        apply_cases_spec(env, st, cases, i, input) matches Some(a) ==> concrete_contract(a.contract),
    decreases cases.len() - i,
{
    if i < cases.len() {
        reveal(apply_case_spec);
        assert(concrete_case(cases[i as int]));
        lemma_apply_cases_concrete(env, st, cases, i + 1, input);
    }
}

proof fn lemma_apply_inputs_quiescent(env: EnvV, st: SimStateV, c: ContractV, inputs: Seq<SimInputV>, i: nat, with_trace: bool)
    requires
        st.accounts.dom().finite(),
    ensures
        apply_inputs_from(env, st, c, inputs, i, with_trace) matches Ok(run) ==> reduce_step_spec(env, run.state, run.contract) is NotReduced,
        apply_inputs_from(env, st, c, inputs, i, with_trace) matches Ok(run) ==> (concrete_contract(c) ==> concrete_contract(
            run.contract,
        )),
    decreases inputs.len() - i,
{
    lemma_reduce_until_quiescent(env, st, c, with_trace);
    lemma_reduce_until_keeps(env, st, c, with_trace);
    if i < inputs.len() {
        if let Ok(run) = reduce_until_spec(env, st, c, with_trace) {
            if let ContractV::When { cases, .. } = run.contract {
                lemma_apply_cases_keeps(env, run.state, cases, 0, inputs[i as int]);
                if concrete_contract(c) {
                    lemma_apply_cases_concrete(env, run.state, cases, 0, inputs[i as int]);
                }
            }
            if let Some(a) = apply_input_spec(env, run.state, run.contract, inputs[i as int]) {
                lemma_apply_inputs_quiescent(env, a.state, a.contract, inputs, i + 1, with_trace);
            }
        }
    }
}

/// Two runs that differ at most in their traces.
pub open spec fn same_but_trace(a: Result<RunV, SimErrorV>, b: Result<RunV, SimErrorV>) -> bool {
    match (a, b) {
        (Err(x), Err(y)) => x == y,
        (Ok(x), Ok(y)) => x.reduced == y.reduced && x.warnings == y.warnings && x.payments == y.payments && x.state
            == y.state && x.contract == y.contract,
        _ => false,
    }
}

proof fn lemma_reduce_until_trace(env: EnvV, st: SimStateV, c: ContractV)
    requires
        st.accounts.dom().finite(),
    ensures
        same_but_trace(reduce_until_spec(env, st, c, false), reduce_until_spec(env, st, c, true)),
    decreases contract_weight(c), st.accounts.dom().len(),
{
    lemma_reduce_step_keeps(env, st, c);
    if let ReduceOutcome::Reduced(step) = reduce_step_spec(env, st, c) {
        lemma_reduce_step_decreases(env, st, c);
        lemma_reduce_until_trace(env, step.state, step.contract);
    }
}

proof fn lemma_apply_inputs_trace(env: EnvV, st: SimStateV, c: ContractV, inputs: Seq<SimInputV>, i: nat)
    requires
        st.accounts.dom().finite(),
    ensures
        same_but_trace(apply_inputs_from(env, st, c, inputs, i, false), apply_inputs_from(env, st, c, inputs, i, true)),
    decreases inputs.len() - i,
{
    lemma_reduce_until_trace(env, st, c);
    lemma_reduce_until_keeps(env, st, c, false);
    if i < inputs.len() {
        if let Ok(run) = reduce_until_spec(env, st, c, false) {
            if let ContractV::When { cases, .. } = run.contract {
                lemma_apply_cases_keeps(env, run.state, cases, 0, inputs[i as int]);
            }
            if let Some(a) = apply_input_spec(env, run.state, run.contract, inputs[i as int]) {
                lemma_apply_inputs_trace(env, a.state, a.contract, inputs, i + 1);
            }
        }
    }
}

/// Asking for a trace changes nothing but the trace: a transaction run with
/// and without it fails with the same error, or succeeds with the same
/// warnings, payments, state and contract; without it, the trace is empty.
pub proof fn lemma_trace_changes_only_trace(c: ContractV, st: SimStateV, tx: SimTransactionV)
    requires
        st.accounts.dom().finite(),
    ensures
        match (simulate_spec(c, st, tx, false), simulate_spec(c, st, tx, true)) {
            (SimTransactionResultV::Error(e1), SimTransactionResultV::Error(e2)) => e1 == e2,
            (SimTransactionResultV::Success(a), SimTransactionResultV::Success(b)) => {
                &&& a.warnings == b.warnings
                &&& a.payments == b.payments
                &&& a.state == b.state
                &&& a.contract == b.contract
                &&& a.trace.len() == 0
            },
            _ => false,
        },
{
    if ready_to_run(c) {
        if let Ok((env, fixed)) = fix_interval_spec(tx.interval_start, tx.interval_end, st) {
            lemma_apply_inputs_trace(env, fixed, c, tx.inputs, 0);
            lemma_apply_inputs_keeps(env, fixed, c, tx.inputs, 0, false);
        }
    }
}

/// A transaction is refused as not ready to run exactly when the type
/// checker, with no context, finds errors, holes or parameters.
pub proof fn lemma_not_ready_iff(c: ContractV, st: SimStateV, tx: SimTransactionV, with_trace: bool)
    requires
        st.accounts.dom().finite(),
    ensures
        (simulate_spec(c, st, tx, with_trace) == SimTransactionResultV::Error(SimErrorV::NotReadyToRun)) <==> !ready_to_run(c),
{
    if ready_to_run(c) {
        if let Ok((env, fixed)) = fix_interval_spec(tx.interval_start, tx.interval_end, st) {
            lemma_apply_inputs_keeps(env, fixed, c, tx.inputs, 0, with_trace);
        }
    }
}

/// For a contract that is ready to run: an interval that ends before it
/// starts is invalid, and one that ends before the state's `min_time` is in
/// the past.
pub proof fn lemma_interval_refusals(c: ContractV, st: SimStateV, tx: SimTransactionV, with_trace: bool)
    requires
        ready_to_run(c),
    ensures
        tx.interval_start > tx.interval_end ==> simulate_spec(c, st, tx, with_trace) == SimTransactionResultV::Error(
            SimErrorV::InvalidInterval { start: tx.interval_start, end: tx.interval_end },
        ),
        tx.interval_start <= tx.interval_end && tx.interval_end < st.min_time ==> simulate_spec(c, st, tx, with_trace)
            == SimTransactionResultV::Error(
            SimErrorV::IntervalInPast { min_time: st.min_time, start: tx.interval_start, end: tx.interval_end },
        ),
{
}

/// After a successful transaction, `min_time` is the larger of the interval's
/// start and the old `min_time`; balances that were all positive stay so;
/// every choice made before is still there; the contract is left quiescent:
/// no step of its own applies in the interval, and it is either `Close`,
/// with no account left when all balances were positive, or a `When` whose
/// POSIX timeout lies after the interval's end; and there is no trace unless
/// one was asked for.
pub proof fn lemma_success_state(c: ContractV, st: SimStateV, tx: SimTransactionV, with_trace: bool)
    requires
        st.accounts.dom().finite(),
    ensures
        simulate_spec(c, st, tx, with_trace) matches SimTransactionResultV::Success(s) ==> {
            &&& s.state.min_time == (if tx.interval_start > st.min_time { tx.interval_start } else { st.min_time })
            &&& balances_positive(st.accounts) ==> balances_positive(s.state.accounts)
            &&& forall|k: ChoiceIdV| #[trigger] st.choices.dom().contains(k) ==> s.state.choices.dom().contains(k)
            &&& reduce_step_spec(
                EnvV { start: s.state.min_time, end: tx.interval_end },
                s.state,
                s.contract,
            ) is NotReduced
            &&& s.contract is Close || (s.contract matches ContractV::When { timeout: TimeoutV::PosixTime(t), .. }
                && tx.interval_end < t)
            &&& s.contract is Close && balances_positive(st.accounts) ==> s.state.accounts.dom() == Set::<AccountIdV>::empty()
            &&& !with_trace ==> s.trace.len() == 0
        },
{
    if let Ok((env, fixed)) = fix_interval_spec(tx.interval_start, tx.interval_end, st) {
        lemma_apply_inputs_keeps(env, fixed, c, tx.inputs, 0, with_trace);
        lemma_apply_inputs_quiescent(env, fixed, c, tx.inputs, 0, with_trace);
        if let SimTransactionResultV::Success(s) = simulate_spec(c, st, tx, with_trace) {
            crate::typecheck::lemma_closed_is_concrete(empty_context(), c);
            let m = s.state.accounts;
            if s.contract is Close && balances_positive(st.accounts) && m.dom().len() > 0 {
                let x = m.dom().choose();
                crate::assoc::lemma_positive_has_least::<AccountId>(m, x);
            }
            if s.contract is Close && balances_positive(st.accounts) {
                assert(m.dom() =~= Set::<AccountIdV>::empty());
            }
        }
    }
}

} // verus!
