//! The abstract syntax of Extended Marlowe contracts, with a mathematical
//! view of each type (strings as `Seq<char>`, integers as `int`).
use crate::integer::Integer;
use vstd::prelude::*;

verus! {

/// The DSL type of a typed position, used to infer hole and parameter types.
#[derive(Debug, Clone, Copy, PartialEq, Eq, Hash, Structural)]
pub enum DslType {
    Contract,
    Case,
    Action,
    Value,
    Observation,
    Timeout,
    Party,
    Token,
    ChoiceId,
    Bound,
    Payee,
}

/// The name of a DSL type.
pub open spec fn dsl_type_name(ty: DslType) -> Seq<char> {
    match ty {
        DslType::Contract => "Contract"@,
        DslType::Case => "Case"@,
        DslType::Action => "Action"@,
        DslType::Value => "Value"@,
        DslType::Observation => "Observation"@,
        DslType::Timeout => "Timeout"@,
        DslType::Party => "Party"@,
        DslType::Token => "Token"@,
        DslType::ChoiceId => "ChoiceId"@,
        DslType::Bound => "Bound"@,
        DslType::Payee => "Payee"@,
    }
}

impl DslType {
    pub fn as_str(self) -> (r: &'static str)
        ensures
            r@ == dsl_type_name(self),
    {
        match self {
            DslType::Contract => "Contract",
            DslType::Case => "Case",
            DslType::Action => "Action",
            DslType::Value => "Value",
            DslType::Observation => "Observation",
            DslType::Timeout => "Timeout",
            DslType::Party => "Party",
            DslType::Token => "Token",
            DslType::ChoiceId => "ChoiceId",
            DslType::Bound => "Bound",
            DslType::Payee => "Payee",
        }
    }
}

#[derive(Debug, Clone, PartialEq, Eq, Hash)]
pub enum Party {
    Hole(String),
    Role(String),
    Address(String),
}

pub enum PartyV {
    Hole(Seq<char>),
    Role(Seq<char>),
    Address(Seq<char>),
}

impl View for Party {
    type V = PartyV;

    open spec fn view(&self) -> PartyV {
        match self {
            Party::Hole(n) => PartyV::Hole(n@),
            Party::Role(n) => PartyV::Role(n@),
            Party::Address(n) => PartyV::Address(n@),
        }
    }
}

impl Party {
    pub fn duplicate(&self) -> (r: Party)
        ensures
            r@ == self@,
    {
        match self {
            Party::Hole(n) => Party::Hole(n.clone()),
            Party::Role(n) => Party::Role(n.clone()),
            Party::Address(n) => Party::Address(n.clone()),
        }
    }
}

#[derive(Debug, Clone, PartialEq, Eq, Hash)]
pub enum Token {
    Hole(String),
    Token { currency_symbol: String, token_name: String },
}

pub enum TokenV {
    Hole(Seq<char>),
    Token { currency_symbol: Seq<char>, token_name: Seq<char> },
}

impl View for Token {
    type V = TokenV;

    open spec fn view(&self) -> TokenV {
        match self {
            Token::Hole(n) => TokenV::Hole(n@),
            Token::Token { currency_symbol, token_name } => TokenV::Token {
                currency_symbol: currency_symbol@,
                token_name: token_name@,
            },
        }
    }
}

impl Token {
    pub fn duplicate(&self) -> (r: Token)
        ensures
            r@ == self@,
    {
        match self {
            Token::Hole(n) => Token::Hole(n.clone()),
            Token::Token { currency_symbol, token_name } => Token::Token {
                currency_symbol: currency_symbol.clone(),
                token_name: token_name.clone(),
            },
        }
    }
}

#[derive(Debug, Clone, PartialEq, Eq)]
pub enum ChoiceId {
    Hole(String),
    ChoiceId { name: String, party: Party },
}

pub enum ChoiceIdV {
    Hole(Seq<char>),
    ChoiceId { name: Seq<char>, party: PartyV },
}

impl View for ChoiceId {
    type V = ChoiceIdV;

    open spec fn view(&self) -> ChoiceIdV {
        match self {
            ChoiceId::Hole(n) => ChoiceIdV::Hole(n@),
            ChoiceId::ChoiceId { name, party } => ChoiceIdV::ChoiceId { name: name@, party: party@ },
        }
    }
}

impl ChoiceId {
    pub fn duplicate(&self) -> (r: ChoiceId)
        ensures
            r@ == self@,
    {
        match self {
            ChoiceId::Hole(n) => ChoiceId::Hole(n.clone()),
            ChoiceId::ChoiceId { name, party } => ChoiceId::ChoiceId {
                name: name.clone(),
                party: party.duplicate(),
            },
        }
    }
}

#[derive(Debug, Clone, PartialEq, Eq)]
pub enum PayeeTarget {
    Hole(String),
    ToParty(Party),
    ToAccount(Party),
}

pub enum PayeeTargetV {
    Hole(Seq<char>),
    ToParty(PartyV),
    ToAccount(PartyV),
}

impl View for PayeeTarget {
    type V = PayeeTargetV;

    open spec fn view(&self) -> PayeeTargetV {
        match self {
            PayeeTarget::Hole(n) => PayeeTargetV::Hole(n@),
            PayeeTarget::ToParty(p) => PayeeTargetV::ToParty(p@),
            PayeeTarget::ToAccount(p) => PayeeTargetV::ToAccount(p@),
        }
    }
}

impl PayeeTarget {
    pub fn duplicate(&self) -> (r: PayeeTarget)
        ensures
            r@ == self@,
    {
        match self {
            PayeeTarget::Hole(n) => PayeeTarget::Hole(n.clone()),
            PayeeTarget::ToParty(p) => PayeeTarget::ToParty(p.duplicate()),
            PayeeTarget::ToAccount(p) => PayeeTarget::ToAccount(p.duplicate()),
        }
    }
}

#[derive(Debug, PartialEq, Eq)]
pub enum NumericValue {
    Hole(String),
    Param(String),
    Constant(Integer),
    Add(Box<NumericValue>, Box<NumericValue>),
    Sub(Box<NumericValue>, Box<NumericValue>),
    Mul(Box<NumericValue>, Box<NumericValue>),
    Div(Box<NumericValue>, Box<NumericValue>),
    Neg(Box<NumericValue>),
    Abs(Box<NumericValue>),
    ValueFromChoice(ChoiceId),
    UseValue(String),
    TimeIntervalStart,
    TimeIntervalEnd,
    AvailableMoney { account: Party, token: Token },
}

pub enum ValueV {
    Hole(Seq<char>),
    Param(Seq<char>),
    Constant(int),
    Add(Box<ValueV>, Box<ValueV>),
    Sub(Box<ValueV>, Box<ValueV>),
    Mul(Box<ValueV>, Box<ValueV>),
    Div(Box<ValueV>, Box<ValueV>),
    Neg(Box<ValueV>),
    Abs(Box<ValueV>),
    ValueFromChoice(ChoiceIdV),
    UseValue(Seq<char>),
    TimeIntervalStart,
    TimeIntervalEnd,
    AvailableMoney { account: PartyV, token: TokenV },
}

pub open spec fn value_view(v: NumericValue) -> ValueV
    decreases v,
{
    match v {
        NumericValue::Hole(n) => ValueV::Hole(n@),
        NumericValue::Param(n) => ValueV::Param(n@),
        NumericValue::Constant(c) => ValueV::Constant(c@),
        NumericValue::Add(a, b) => ValueV::Add(Box::new(value_view(*a)), Box::new(value_view(*b))),
        NumericValue::Sub(a, b) => ValueV::Sub(Box::new(value_view(*a)), Box::new(value_view(*b))),
        NumericValue::Mul(a, b) => ValueV::Mul(Box::new(value_view(*a)), Box::new(value_view(*b))),
        NumericValue::Div(a, b) => ValueV::Div(Box::new(value_view(*a)), Box::new(value_view(*b))),
        NumericValue::Neg(a) => ValueV::Neg(Box::new(value_view(*a))),
        NumericValue::Abs(a) => ValueV::Abs(Box::new(value_view(*a))),
        NumericValue::ValueFromChoice(c) => ValueV::ValueFromChoice(c@),
        NumericValue::UseValue(n) => ValueV::UseValue(n@),
        NumericValue::TimeIntervalStart => ValueV::TimeIntervalStart,
        NumericValue::TimeIntervalEnd => ValueV::TimeIntervalEnd,
        NumericValue::AvailableMoney { account, token } => ValueV::AvailableMoney { account: account@, token: token@ },
    }
}

impl View for NumericValue {
    type V = ValueV;

    open spec fn view(&self) -> ValueV {
        value_view(*self)
    }
}

impl NumericValue {
    pub fn duplicate(&self) -> (r: NumericValue)
        ensures
            r@ == self@,
        decreases self,
    {
        match self {
            NumericValue::Hole(n) => NumericValue::Hole(n.clone()),
            NumericValue::Param(n) => NumericValue::Param(n.clone()),
            NumericValue::Constant(c) => NumericValue::Constant(c.duplicate()),
            NumericValue::Add(a, b) => NumericValue::Add(Box::new(a.duplicate()), Box::new(b.duplicate())),
            NumericValue::Sub(a, b) => NumericValue::Sub(Box::new(a.duplicate()), Box::new(b.duplicate())),
            NumericValue::Mul(a, b) => NumericValue::Mul(Box::new(a.duplicate()), Box::new(b.duplicate())),
            NumericValue::Div(a, b) => NumericValue::Div(Box::new(a.duplicate()), Box::new(b.duplicate())),
            NumericValue::Neg(a) => NumericValue::Neg(Box::new(a.duplicate())),
            NumericValue::Abs(a) => NumericValue::Abs(Box::new(a.duplicate())),
            NumericValue::ValueFromChoice(c) => NumericValue::ValueFromChoice(c.duplicate()),
            NumericValue::UseValue(n) => NumericValue::UseValue(n.clone()),
            NumericValue::TimeIntervalStart => NumericValue::TimeIntervalStart,
            NumericValue::TimeIntervalEnd => NumericValue::TimeIntervalEnd,
            NumericValue::AvailableMoney { account, token } => NumericValue::AvailableMoney {
                account: account.duplicate(),
                token: token.duplicate(),
            },
        }
    }
}

#[derive(Debug, PartialEq, Eq)]
pub enum Observation {
    Hole(String),
    True,
    False,
    And(Box<Observation>, Box<Observation>),
    Or(Box<Observation>, Box<Observation>),
    Not(Box<Observation>),
    ChoseSomething(ChoiceId),
    ValueGE(Box<NumericValue>, Box<NumericValue>),
    ValueGT(Box<NumericValue>, Box<NumericValue>),
    ValueLT(Box<NumericValue>, Box<NumericValue>),
    ValueLE(Box<NumericValue>, Box<NumericValue>),
    ValueEQ(Box<NumericValue>, Box<NumericValue>),
}

pub enum ObservationV {
    Hole(Seq<char>),
    True,
    False,
    And(Box<ObservationV>, Box<ObservationV>),
    Or(Box<ObservationV>, Box<ObservationV>),
    Not(Box<ObservationV>),
    ChoseSomething(ChoiceIdV),
    ValueGE(ValueV, ValueV),
    ValueGT(ValueV, ValueV),
    ValueLT(ValueV, ValueV),
    ValueLE(ValueV, ValueV),
    ValueEQ(ValueV, ValueV),
}

pub open spec fn observation_view(o: Observation) -> ObservationV
    decreases o,
{
    match o {
        Observation::Hole(n) => ObservationV::Hole(n@),
        Observation::True => ObservationV::True,
        Observation::False => ObservationV::False,
        Observation::And(a, b) => ObservationV::And(Box::new(observation_view(*a)), Box::new(observation_view(*b))),
        Observation::Or(a, b) => ObservationV::Or(Box::new(observation_view(*a)), Box::new(observation_view(*b))),
        Observation::Not(a) => ObservationV::Not(Box::new(observation_view(*a))),
        Observation::ChoseSomething(c) => ObservationV::ChoseSomething(c@),
        Observation::ValueGE(a, b) => ObservationV::ValueGE(a@, b@),
        Observation::ValueGT(a, b) => ObservationV::ValueGT(a@, b@),
        Observation::ValueLT(a, b) => ObservationV::ValueLT(a@, b@),
        Observation::ValueLE(a, b) => ObservationV::ValueLE(a@, b@),
        Observation::ValueEQ(a, b) => ObservationV::ValueEQ(a@, b@),
    }
}

impl View for Observation {
    type V = ObservationV;

    open spec fn view(&self) -> ObservationV {
        observation_view(*self)
    }
}

impl Observation {
    pub fn duplicate(&self) -> (r: Observation)
        ensures
            r@ == self@,
        decreases self,
    {
        match self {
            Observation::Hole(n) => Observation::Hole(n.clone()),
            Observation::True => Observation::True,
            Observation::False => Observation::False,
            Observation::And(a, b) => Observation::And(Box::new(a.duplicate()), Box::new(b.duplicate())),
            Observation::Or(a, b) => Observation::Or(Box::new(a.duplicate()), Box::new(b.duplicate())),
            Observation::Not(a) => Observation::Not(Box::new(a.duplicate())),
            Observation::ChoseSomething(c) => Observation::ChoseSomething(c.duplicate()),
            Observation::ValueGE(a, b) => Observation::ValueGE(Box::new(a.duplicate()), Box::new(b.duplicate())),
            Observation::ValueGT(a, b) => Observation::ValueGT(Box::new(a.duplicate()), Box::new(b.duplicate())),
            Observation::ValueLT(a, b) => Observation::ValueLT(Box::new(a.duplicate()), Box::new(b.duplicate())),
            Observation::ValueLE(a, b) => Observation::ValueLE(Box::new(a.duplicate()), Box::new(b.duplicate())),
            Observation::ValueEQ(a, b) => Observation::ValueEQ(Box::new(a.duplicate()), Box::new(b.duplicate())),
        }
    }
}

#[derive(Debug, Clone, PartialEq, Eq)]
pub enum Timeout {
    Hole(String),
    Param(String),
    PosixTime(Integer),
}

pub enum TimeoutV {
    Hole(Seq<char>),
    Param(Seq<char>),
    PosixTime(int),
}

impl View for Timeout {
    type V = TimeoutV;

    open spec fn view(&self) -> TimeoutV {
        match self {
            Timeout::Hole(n) => TimeoutV::Hole(n@),
            Timeout::Param(n) => TimeoutV::Param(n@),
            Timeout::PosixTime(t) => TimeoutV::PosixTime(t@),
        }
    }
}

impl Timeout {
    pub fn duplicate(&self) -> (r: Timeout)
        ensures
            r@ == self@,
    {
        match self {
            Timeout::Hole(n) => Timeout::Hole(n.clone()),
            Timeout::Param(n) => Timeout::Param(n.clone()),
            Timeout::PosixTime(t) => Timeout::PosixTime(t.duplicate()),
        }
    }
}

#[derive(Debug, PartialEq, Eq)]
pub enum Bound {
    Hole(String),
    Bound { from: NumericValue, to: NumericValue },
}

pub enum BoundV {
    Hole(Seq<char>),
    Bound { from: ValueV, to: ValueV },
}

impl View for Bound {
    type V = BoundV;

    open spec fn view(&self) -> BoundV {
        match self {
            Bound::Hole(n) => BoundV::Hole(n@),
            Bound::Bound { from, to } => BoundV::Bound { from: from@, to: to@ },
        }
    }
}

impl Bound {
    pub fn duplicate(&self) -> (r: Bound)
        ensures
            r@ == self@,
    {
        match self {
            Bound::Hole(n) => Bound::Hole(n.clone()),
            Bound::Bound { from, to } => Bound::Bound { from: from.duplicate(), to: to.duplicate() },
        }
    }
}

pub open spec fn bounds_view(bounds: Seq<Bound>) -> Seq<BoundV> {
    Seq::new(bounds.len(), |i: int| bounds[i]@)
}

#[derive(Debug, PartialEq, Eq)]
pub enum Action {
    Hole(String),
    Deposit { into: Party, by: Party, token: Token, amount: NumericValue },
    Choice { id: ChoiceId, bounds: Vec<Bound> },
    Notify { if_: Observation },
}

pub enum ActionV {
    Hole(Seq<char>),
    Deposit { into: PartyV, by: PartyV, token: TokenV, amount: ValueV },
    Choice { id: ChoiceIdV, bounds: Seq<BoundV> },
    Notify { if_: ObservationV },
}

impl View for Action {
    type V = ActionV;

    open spec fn view(&self) -> ActionV {
        match self {
            Action::Hole(n) => ActionV::Hole(n@),
            Action::Deposit { into, by, token, amount } => ActionV::Deposit {
                into: into@,
                by: by@,
                token: token@,
                amount: amount@,
            },
            Action::Choice { id, bounds } => ActionV::Choice { id: id@, bounds: bounds_view(bounds@) },
            Action::Notify { if_ } => ActionV::Notify { if_: if_@ },
        }
    }
}

pub fn duplicate_bounds(bounds: &Vec<Bound>) -> (r: Vec<Bound>)
    ensures
        bounds_view(r@) == bounds_view(bounds@),
{
    let mut r: Vec<Bound> = Vec::new();
    let mut i: usize = 0;
    while i < bounds.len()
        invariant
            i <= bounds.len(),
            r@.len() == i,
            forall|j: int| 0 <= j < i ==> #[trigger] r@[j]@ == bounds@[j]@,
        decreases bounds.len() - i,
    {
        r.push(bounds[i].duplicate());
        i = i + 1;
    }
    assert(bounds_view(r@) =~= bounds_view(bounds@));
    r
}

impl Action {
    pub fn duplicate(&self) -> (r: Action)
        ensures
            r@ == self@,
    {
        match self {
            Action::Hole(n) => Action::Hole(n.clone()),
            Action::Deposit { into, by, token, amount } => Action::Deposit {
                into: into.duplicate(),
                by: by.duplicate(),
                token: token.duplicate(),
                amount: amount.duplicate(),
            },
            Action::Choice { id, bounds } => Action::Choice { id: id.duplicate(), bounds: duplicate_bounds(bounds) },
            Action::Notify { if_ } => Action::Notify { if_: if_.duplicate() },
        }
    }
}

#[derive(Debug, PartialEq, Eq)]
pub enum Case {
    Hole(String),
    Case { action: Action, then: Box<Contract> },
}

pub enum CaseV {
    Hole(Seq<char>),
    Case { action: ActionV, then: Box<ContractV> },
}

#[derive(Debug, PartialEq, Eq)]
pub enum Contract {
    Hole(String),
    Close,
    Pay { from: Party, to: PayeeTarget, token: Token, amount: NumericValue, then: Box<Contract> },
    If { cond: Observation, then: Box<Contract>, else_: Box<Contract> },
    When { cases: Vec<Case>, timeout: Timeout, timeout_continuation: Box<Contract> },
    Let { name: String, value: NumericValue, then: Box<Contract> },
    Assert { cond: Observation, then: Box<Contract> },
}

pub enum ContractV {
    Hole(Seq<char>),
    Close,
    Pay { from: PartyV, to: PayeeTargetV, token: TokenV, amount: ValueV, then: Box<ContractV> },
    If { cond: ObservationV, then: Box<ContractV>, else_: Box<ContractV> },
    When { cases: Seq<CaseV>, timeout: TimeoutV, timeout_continuation: Box<ContractV> },
    Let { name: Seq<char>, value: ValueV, then: Box<ContractV> },
    Assert { cond: ObservationV, then: Box<ContractV> },
}

pub open spec fn contract_view(c: Contract) -> ContractV
    decreases c, 0nat,
{
    match c {
        Contract::Hole(n) => ContractV::Hole(n@),
        Contract::Close => ContractV::Close,
        Contract::Pay { from, to, token, amount, then } => ContractV::Pay {
            from: from@,
            to: to@,
            token: token@,
            amount: amount@,
            then: Box::new(contract_view(*then)),
        },
        Contract::If { cond, then, else_ } => ContractV::If {
            cond: cond@,
            then: Box::new(contract_view(*then)),
            else_: Box::new(contract_view(*else_)),
        },
        Contract::When { cases, timeout, timeout_continuation } => ContractV::When {
            cases: cases_view(cases@),
            timeout: timeout@,
            timeout_continuation: Box::new(contract_view(*timeout_continuation)),
        },
        Contract::Let { name, value, then } => ContractV::Let {
            name: name@,
            value: value@,
            then: Box::new(contract_view(*then)),
        },
        Contract::Assert { cond, then } => ContractV::Assert { cond: cond@, then: Box::new(contract_view(*then)) },
    }
}

pub open spec fn case_view(c: Case) -> CaseV
    decreases c, 0nat,
{
    match c {
        Case::Hole(n) => CaseV::Hole(n@),
        Case::Case { action, then } => CaseV::Case { action: action@, then: Box::new(contract_view(*then)) },
    }
}

pub open spec fn cases_view(cases: Seq<Case>) -> Seq<CaseV>
    decreases cases, cases.len(),
{
    if cases.len() == 0 {
        Seq::empty()
    } else {
        seq![case_view(cases[0])] + cases_view(cases.drop_first())
    }
}

impl View for Contract {
    type V = ContractV;

    open spec fn view(&self) -> ContractV {
        contract_view(*self)
    }
}

impl View for Case {
    type V = CaseV;

    open spec fn view(&self) -> CaseV {
        case_view(*self)
    }
}

} // verus!

verus! {

pub proof fn lemma_cases_view(s: Seq<Case>)
    ensures
        cases_view(s).len() == s.len(),
        forall|i: int| 0 <= i < s.len() ==> #[trigger] cases_view(s)[i] == case_view(s[i]),
    decreases s.len(),
{
    if s.len() > 0 {
        lemma_cases_view(s.drop_first());
        assert forall|i: int| 0 <= i < s.len() implies #[trigger] cases_view(s)[i] == case_view(s[i]) by {
            if i > 0 {
                assert(s.drop_first()[i - 1] == s[i]);
            }
        }
    }
}

pub proof fn lemma_cases_view_push(s: Seq<Case>, c: Case)
    ensures
        cases_view(s.push(c)) == cases_view(s).push(case_view(c)),
{
    lemma_cases_view(s);
    lemma_cases_view(s.push(c));
    assert(cases_view(s.push(c)) =~= cases_view(s).push(case_view(c)));
}

} // verus!

verus! {

impl Contract {
    pub fn duplicate(&self) -> (r: Contract)
        ensures
            r@ == self@,
        decreases self, 0nat,
    {
        match self {
            Contract::Hole(n) => Contract::Hole(n.clone()),
            Contract::Close => Contract::Close,
            Contract::Pay { from, to, token, amount, then } => Contract::Pay {
                from: from.duplicate(),
                to: to.duplicate(),
                token: token.duplicate(),
                amount: amount.duplicate(),
                then: Box::new((**then).duplicate()),
            },
            Contract::If { cond, then, else_ } => Contract::If {
                cond: cond.duplicate(),
                then: Box::new((**then).duplicate()),
                else_: Box::new((**else_).duplicate()),
            },
            Contract::When { cases, timeout, timeout_continuation } => Contract::When {
                cases: duplicate_cases(cases),
                timeout: timeout.duplicate(),
                timeout_continuation: Box::new((**timeout_continuation).duplicate()),
            },
            Contract::Let { name, value, then } => Contract::Let {
                name: name.clone(),
                value: value.duplicate(),
                then: Box::new((**then).duplicate()),
            },
            Contract::Assert { cond, then } => Contract::Assert {
                cond: cond.duplicate(),
                then: Box::new((**then).duplicate()),
            },
        }
    }
}

impl Case {
    pub fn duplicate(&self) -> (r: Case)
        ensures
            r@ == self@,
        decreases self, 0nat,
    {
        match self {
            Case::Hole(n) => Case::Hole(n.clone()),
            Case::Case { action, then } => Case::Case { action: action.duplicate(), then: Box::new((**then).duplicate()) },
        }
    }
}

pub fn duplicate_cases(cases: &Vec<Case>) -> (r: Vec<Case>)
    ensures
        cases_view(r@) == cases_view(cases@),
    decreases cases, 1nat,
{
    let mut r: Vec<Case> = Vec::new();
    let mut i: usize = 0;
    proof {
        lemma_cases_view(cases@);
        lemma_cases_view(r@);
    }
    while i < cases.len()
        invariant
            i <= cases@.len(),
            cases_view(r@) == cases_view(cases@).subrange(0, i as int),
            cases_view(cases@).len() == cases@.len(),
            forall|j: int| 0 <= j < cases@.len() ==> #[trigger] cases_view(cases@)[j] == case_view(cases@[j]),
        decreases cases@.len() - i,
    {
        let c = cases[i].duplicate();
        proof { lemma_cases_view_push(r@, c); }
        r.push(c);
        i = i + 1;
        assert(cases_view(r@) =~= cases_view(cases@).subrange(0, i as int));
    }
    assert(cases_view(cases@).subrange(0, i as int) =~= cases_view(cases@));
    r
}

} // verus!
