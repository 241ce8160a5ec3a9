//! Structural and semantic checking of contracts: hole and parameter type
//! inference, `Let` scoping, known definitions and static bound ranges.
use crate::ast::{
    bounds_view, cases_view, lemma_cases_view,
    dsl_type_name, ActionV, BoundV, CaseV, ChoiceIdV, ContractV, DslType, ObservationV, PartyV, PayeeTargetV,
    TimeoutV, TokenV, ValueV,
};
use crate::ast::{Action, Bound, Case, ChoiceId, Contract, NumericValue, Observation, Party, PayeeTarget, Timeout, Token};
use crate::text::{field, field_path, index, index_path, text_less, text_lt, lemma_text_lt_irreflexive, lemma_text_lt_transitive, lemma_text_lt_total};
use vstd::prelude::*;
use vstd::multiset::Multiset;

verus! {

#[derive(Debug, Clone, PartialEq, Eq, Hash)]
pub enum PartyRef {
    Role(String),
    Address(String),
}

pub enum PartyRefV {
    Role(Seq<char>),
    Address(Seq<char>),
}

impl View for PartyRef {
    type V = PartyRefV;

    open spec fn view(&self) -> PartyRefV {
        match self {
            PartyRef::Role(n) => PartyRefV::Role(n@),
            PartyRef::Address(n) => PartyRefV::Address(n@),
        }
    }
}

#[derive(Debug, Clone, PartialEq, Eq, Hash)]
pub struct TokenRef {
    pub currency_symbol: String,
    pub token_name: String,
}

pub struct TokenRefV {
    pub currency_symbol: Seq<char>,
    pub token_name: Seq<char>,
}

impl View for TokenRef {
    type V = TokenRefV;

    open spec fn view(&self) -> TokenRefV {
        TokenRefV { currency_symbol: self.currency_symbol@, token_name: self.token_name@ }
    }
}

#[derive(Debug, Clone, PartialEq, Eq, Hash)]
pub struct ChoiceRef {
    pub name: String,
    pub party: PartyRef,
}

pub struct ChoiceRefV {
    pub name: Seq<char>,
    pub party: PartyRefV,
}

impl View for ChoiceRef {
    type V = ChoiceRefV;

    open spec fn view(&self) -> ChoiceRefV {
        ChoiceRefV { name: self.name@, party: self.party@ }
    }
}

/// The definitions a contract may refer to when `require_known_definitions`
/// is set. Each list is read as a set: order and repetition do not matter.
#[derive(Debug, Clone)]
pub struct TypeCheckContext {
    pub known_accounts: Vec<PartyRef>,
    pub known_parties: Vec<PartyRef>,
    pub known_tokens: Vec<TokenRef>,
    pub known_choices: Vec<ChoiceRef>,
    pub require_known_definitions: bool,
}

pub struct ContextV {
    pub known_accounts: Seq<PartyRefV>,
    pub known_parties: Seq<PartyRefV>,
    pub known_tokens: Seq<TokenRefV>,
    pub known_choices: Seq<ChoiceRefV>,
    pub require_known_definitions: bool,
}

impl View for TypeCheckContext {
    type V = ContextV;

    open spec fn view(&self) -> ContextV {
        ContextV {
            known_accounts: self.known_accounts@.map_values(|p: PartyRef| p@),
            known_parties: self.known_parties@.map_values(|p: PartyRef| p@),
            known_tokens: self.known_tokens@.map_values(|t: TokenRef| t@),
            known_choices: self.known_choices@.map_values(|c: ChoiceRef| c@),
            require_known_definitions: self.require_known_definitions,
        }
    }
}

/// Nothing known, and nothing required to be known.
pub open spec fn empty_context() -> ContextV {
    ContextV {
        known_accounts: Seq::empty(),
        known_parties: Seq::empty(),
        known_tokens: Seq::empty(),
        known_choices: Seq::empty(),
        require_known_definitions: false,
    }
}

impl Default for TypeCheckContext {
    fn default() -> (r: Self)
        ensures
            r@ == empty_context(),
    {
        let r = TypeCheckContext {
            known_accounts: Vec::new(),
            known_parties: Vec::new(),
            known_tokens: Vec::new(),
            known_choices: Vec::new(),
            require_known_definitions: false,
        };
        assert(r@.known_accounts =~= Seq::empty());
        assert(r@.known_parties =~= Seq::empty());
        assert(r@.known_tokens =~= Seq::empty());
        assert(r@.known_choices =~= Seq::empty());
        r
    }
}

#[derive(Debug, Clone, PartialEq, Eq)]
pub struct TypedSymbol {
    pub name: String,
    pub ty: DslType,
    pub path: String,
}

pub struct TypedSymbolV {
    pub name: Seq<char>,
    pub ty: DslType,
    pub path: Seq<char>,
}

impl View for TypedSymbol {
    type V = TypedSymbolV;

    open spec fn view(&self) -> TypedSymbolV {
        TypedSymbolV { name: self.name@, ty: self.ty, path: self.path@ }
    }
}

#[derive(Debug, Clone, PartialEq, Eq)]
pub struct Diagnostic {
    pub path: String,
    pub message: String,
}

pub struct DiagnosticV {
    pub path: Seq<char>,
    pub message: Seq<char>,
}

impl View for Diagnostic {
    type V = DiagnosticV;

    open spec fn view(&self) -> DiagnosticV {
        DiagnosticV { path: self.path@, message: self.message@ }
    }
}

#[derive(Debug, Clone, PartialEq, Eq)]
pub struct TypeCheckResult {
    pub ready_to_run: bool,
    pub holes: Vec<TypedSymbol>,
    pub params: Vec<TypedSymbol>,
    pub errors: Vec<Diagnostic>,
    pub warnings: Vec<Diagnostic>,
}

pub struct TypeCheckResultV {
    pub ready_to_run: bool,
    pub holes: Seq<TypedSymbolV>,
    pub params: Seq<TypedSymbolV>,
    pub errors: Seq<DiagnosticV>,
    pub warnings: Seq<DiagnosticV>,
}

impl View for TypeCheckResult {
    type V = TypeCheckResultV;

    open spec fn view(&self) -> TypeCheckResultV {
        TypeCheckResultV {
            ready_to_run: self.ready_to_run,
            holes: symbols_view(self.holes@),
            params: symbols_view(self.params@),
            errors: diagnostics_view(self.errors@),
            warnings: diagnostics_view(self.warnings@),
        }
    }
}

/// A `Let` binding in scope: where it was bound and whether it was used.
pub struct LetRecordV {
    pub name: Seq<char>,
    pub path: Seq<char>,
    pub used: bool,
}

/// What the checker has found so far, and the `Let` bindings in scope,
/// innermost last.
pub struct CheckState {
    pub holes: Seq<TypedSymbolV>,
    pub params: Seq<TypedSymbolV>,
    pub errors: Seq<DiagnosticV>,
    pub warnings: Seq<DiagnosticV>,
    pub scopes: Seq<LetRecordV>,
}

pub open spec fn add_error(st: CheckState, path: Seq<char>, message: Seq<char>) -> CheckState {
    CheckState { errors: st.errors.push(DiagnosticV { path, message }), ..st }
}

pub open spec fn add_warning(st: CheckState, path: Seq<char>, message: Seq<char>) -> CheckState {
    CheckState { warnings: st.warnings.push(DiagnosticV { path, message }), ..st }
}

/// The position of the first record named `name`, if any.
pub open spec fn symbol_position(symbols: Seq<TypedSymbolV>, name: Seq<char>) -> Option<int>
    decreases symbols.len(),
{
    if symbols.len() == 0 {
        None
    } else if symbols[0].name == name {
        Some(0)
    } else {
        match symbol_position(symbols.drop_first(), name) {
            Some(i) => Some(i + 1),
            None => None,
        }
    }
}

pub proof fn lemma_symbol_position(symbols: Seq<TypedSymbolV>, name: Seq<char>)
    ensures
        symbol_position(symbols, name) matches Some(i) ==> 0 <= i < symbols.len() && symbols[i].name == name
            && forall|j: int| 0 <= j < i ==> symbols[j].name != name,
        symbol_position(symbols, name) is None ==> forall|j: int| 0 <= j < symbols.len() ==> symbols[j].name != name,
    decreases symbols.len(),
{
    if symbols.len() > 0 {
        lemma_symbol_position(symbols.drop_first(), name);
        assert forall|j: int| 0 < j < symbols.len() implies symbols.drop_first()[j - 1] == symbols[j] by {}
    }
}

/// Records the first occurrence of a hole (or parameter) and its type; a later
/// occurrence with another type is an error.
pub open spec fn register_symbol(st: CheckState, is_hole: bool, name: Seq<char>, ty: DslType, path: Seq<char>) -> CheckState {
    let symbols = if is_hole { st.holes } else { st.params };
    match symbol_position(symbols, name) {
        Some(i) => if symbols[i].ty != ty {
            add_error(
                st,
                path,
                (if is_hole { "hole"@ } else { "parameter"@ }) + " '"@ + name + "' has conflicting inferred types: "@
                    + dsl_type_name(symbols[i].ty) + " at "@ + symbols[i].path + " and "@ + dsl_type_name(ty) + " at "@
                    + path,
            )
        } else {
            st
        },
        None => {
            let record = TypedSymbolV { name, ty, path };
            if is_hole {
                CheckState { holes: st.holes.push(record), ..st }
            } else {
                CheckState { params: st.params.push(record), ..st }
            }
        },
    }
}

pub open spec fn register_hole(st: CheckState, name: Seq<char>, ty: DslType, path: Seq<char>) -> CheckState {
    register_symbol(st, true, name, ty, path)
}

pub open spec fn register_param(st: CheckState, name: Seq<char>, ty: DslType, path: Seq<char>) -> CheckState {
    register_symbol(st, false, name, ty, path)
}

/// How a party is used: as an actor (it must be a known party) or as the
/// owner of an account (it must be a known account).
#[derive(Debug, Clone, Copy, PartialEq, Eq, Structural)]
pub enum PartyUsage {
    Actor,
    AccountOwner,
}

pub open spec fn check_party_spec(ctx: ContextV, st: CheckState, party: PartyV, path: Seq<char>, usage: PartyUsage) -> CheckState {
    match party {
        PartyV::Hole(name) => register_hole(st, name, DslType::Party, path),
        PartyV::Role(name) => if ctx.require_known_definitions {
            let r = PartyRefV::Role(name);
            let st1 = if usage == PartyUsage::Actor && !ctx.known_parties.contains(r) {
                add_error(st, path, "unknown party role '"@ + name + "'"@)
            } else {
                st
            };
            if usage == PartyUsage::AccountOwner && !ctx.known_accounts.contains(r) {
                add_error(st1, path, "unknown account owner role '"@ + name + "'"@)
            } else {
                st1
            }
        } else {
            st
        },
        PartyV::Address(name) => if ctx.require_known_definitions {
            let r = PartyRefV::Address(name);
            let st1 = if usage == PartyUsage::Actor && !ctx.known_parties.contains(r) {
                add_error(st, path, "unknown party address '"@ + name + "'"@)
            } else {
                st
            };
            if usage == PartyUsage::AccountOwner && !ctx.known_accounts.contains(r) {
                add_error(st1, path, "unknown account owner address '"@ + name + "'"@)
            } else {
                st1
            }
        } else {
            st
        },
    }
}

pub open spec fn check_token_spec(ctx: ContextV, st: CheckState, token: TokenV, path: Seq<char>) -> CheckState {
    match token {
        TokenV::Hole(name) => register_hole(st, name, DslType::Token, path),
        TokenV::Token { currency_symbol, token_name } => if ctx.require_known_definitions
            && !ctx.known_tokens.contains(TokenRefV { currency_symbol, token_name }) {
            add_error(st, path, "unknown token '"@ + currency_symbol + "."@ + token_name + "'"@)
        } else {
            st
        },
    }
}

pub open spec fn check_payee_spec(ctx: ContextV, st: CheckState, payee: PayeeTargetV, path: Seq<char>) -> CheckState {
    match payee {
        PayeeTargetV::Hole(name) => register_hole(st, name, DslType::Payee, path),
        PayeeTargetV::ToParty(p) => check_party_spec(ctx, st, p, field_path(path, "party"@), PartyUsage::Actor),
        PayeeTargetV::ToAccount(p) => check_party_spec(ctx, st, p, field_path(path, "account"@), PartyUsage::AccountOwner),
    }
}

pub open spec fn check_choice_id_spec(ctx: ContextV, st: CheckState, id: ChoiceIdV, path: Seq<char>) -> CheckState {
    match id {
        ChoiceIdV::Hole(name) => register_hole(st, name, DslType::ChoiceId, path),
        ChoiceIdV::ChoiceId { name, party } => check_party_spec(ctx, st, party, field_path(path, "party"@), PartyUsage::Actor),
    }
}

pub open spec fn party_ref_of(p: PartyV) -> Option<PartyRefV> {
    match p {
        PartyV::Role(n) => Some(PartyRefV::Role(n)),
        PartyV::Address(n) => Some(PartyRefV::Address(n)),
        PartyV::Hole(_) => None,
    }
}

pub open spec fn choice_ref_of(id: ChoiceIdV) -> Option<ChoiceRefV> {
    match id {
        ChoiceIdV::Hole(_) => None,
        ChoiceIdV::ChoiceId { name, party } => match party_ref_of(party) {
            Some(p) => Some(ChoiceRefV { name, party: p }),
            None => None,
        },
    }
}

pub open spec fn check_choice_usage_spec(
    ctx: ContextV,
    declared: Seq<ChoiceRefV>,
    st: CheckState,
    id: ChoiceIdV,
    path: Seq<char>,
) -> CheckState {
    let st1 = check_choice_id_spec(ctx, st, id, path);
    match choice_ref_of(id) {
        Some(r) => if ctx.require_known_definitions && !(declared.contains(r) || ctx.known_choices.contains(r)) {
            add_error(st1, path, "choice '"@ + r.name + "' for party is not declared in contract or context"@)
        } else {
            st1
        },
        None => st1,
    }
}

/// Whether a `Let` named `name` is in scope.
pub open spec fn let_defined(scopes: Seq<LetRecordV>, name: Seq<char>) -> bool {
    exists|i: int| 0 <= i < scopes.len() && scopes[i].name == name
}

/// The innermost binding named `name`, if any.
pub open spec fn innermost_let(scopes: Seq<LetRecordV>, name: Seq<char>) -> Option<int>
    decreases scopes.len(),
{
    if scopes.len() == 0 {
        None
    } else if scopes.last().name == name {
        Some(scopes.len() - 1)
    } else {
        innermost_let(scopes.drop_last(), name)
    }
}

pub open spec fn check_value_spec(ctx: ContextV, declared: Seq<ChoiceRefV>, st: CheckState, v: ValueV, path: Seq<char>) -> CheckState
    decreases v,
{
    match v {
        ValueV::Hole(name) => register_hole(st, name, DslType::Value, path),
        ValueV::Param(name) => register_param(st, name, DslType::Value, path),
        ValueV::Constant(_) | ValueV::TimeIntervalStart | ValueV::TimeIntervalEnd => st,
        ValueV::Add(a, b) | ValueV::Sub(a, b) | ValueV::Mul(a, b) | ValueV::Div(a, b) => {
            let st1 = check_value_spec(ctx, declared, st, *a, index_path(path, 0));
            check_value_spec(ctx, declared, st1, *b, index_path(path, 1))
        },
        ValueV::Neg(a) | ValueV::Abs(a) => check_value_spec(ctx, declared, st, *a, field_path(path, "inner"@)),
        ValueV::ValueFromChoice(c) => check_choice_usage_spec(ctx, declared, st, c, field_path(path, "choice"@)),
        ValueV::UseValue(name) => match innermost_let(st.scopes, name) {
            Some(i) => CheckState { scopes: st.scopes.update(i, LetRecordV { used: true, ..st.scopes[i] }), ..st },
            None => add_error(st, path, "UseValue references undefined let binding '"@ + name + "'"@),
        },
        ValueV::AvailableMoney { account, token } => {
            let st1 = check_party_spec(ctx, st, account, field_path(path, "account"@), PartyUsage::AccountOwner);
            check_token_spec(ctx, st1, token, field_path(path, "token"@))
        },
    }
}

pub open spec fn check_observation_spec(
    ctx: ContextV,
    declared: Seq<ChoiceRefV>,
    st: CheckState,
    o: ObservationV,
    path: Seq<char>,
) -> CheckState
    decreases o,
{
    match o {
        ObservationV::Hole(name) => register_hole(st, name, DslType::Observation, path),
        ObservationV::True | ObservationV::False => st,
        ObservationV::And(a, b) | ObservationV::Or(a, b) => {
            let st1 = check_observation_spec(ctx, declared, st, *a, index_path(path, 0));
            check_observation_spec(ctx, declared, st1, *b, index_path(path, 1))
        },
        ObservationV::Not(a) => check_observation_spec(ctx, declared, st, *a, field_path(path, "inner"@)),
        ObservationV::ChoseSomething(c) => check_choice_usage_spec(ctx, declared, st, c, field_path(path, "choice"@)),
        ObservationV::ValueGE(a, b) | ObservationV::ValueGT(a, b) | ObservationV::ValueLT(a, b)
        | ObservationV::ValueLE(a, b) | ObservationV::ValueEQ(a, b) => {
            let st1 = check_value_spec(ctx, declared, st, a, index_path(path, 0));
            check_value_spec(ctx, declared, st1, b, index_path(path, 1))
        },
    }
}

pub open spec fn check_timeout_spec(st: CheckState, t: TimeoutV, path: Seq<char>) -> CheckState {
    match t {
        TimeoutV::Hole(name) => register_hole(st, name, DslType::Timeout, path),
        TimeoutV::Param(name) => register_param(st, name, DslType::Timeout, path),
        TimeoutV::PosixTime(_) => st,
    }
}

pub open spec fn static_value(v: ValueV) -> Option<int> {
    match v {
        ValueV::Constant(c) => Some(c),
        _ => None,
    }
}

pub open spec fn check_bound_spec(ctx: ContextV, declared: Seq<ChoiceRefV>, st: CheckState, b: BoundV, path: Seq<char>) -> CheckState {
    match b {
        BoundV::Hole(name) => register_hole(st, name, DslType::Bound, path),
        BoundV::Bound { from, to } => {
            let st1 = check_value_spec(ctx, declared, st, from, field_path(path, "from"@));
            let st2 = check_value_spec(ctx, declared, st1, to, field_path(path, "to"@));
            match (static_value(from), static_value(to)) {
                (Some(lo), Some(hi)) => if lo > hi {
                    add_error(st2, path, "invalid bound range: 'from' is greater than 'to'"@)
                } else {
                    st2
                },
                _ => add_warning(st2, path, "bound range cannot be statically validated until values are concrete"@),
            }
        },
    }
}

/// The bounds of a `Choice` from position `i` on, each checked at `path[i]`.
pub open spec fn check_bounds_spec(
    ctx: ContextV,
    declared: Seq<ChoiceRefV>,
    st: CheckState,
    bounds: Seq<BoundV>,
    path: Seq<char>,
    i: nat,
) -> CheckState
    decreases bounds.len() - i,
{
    if i >= bounds.len() {
        st
    } else {
        let st1 = check_bound_spec(ctx, declared, st, bounds[i as int], index_path(path, i));
        check_bounds_spec(ctx, declared, st1, bounds, path, i + 1)
    }
}

pub open spec fn check_action_spec(ctx: ContextV, declared: Seq<ChoiceRefV>, st: CheckState, a: ActionV, path: Seq<char>) -> CheckState {
    match a {
        ActionV::Hole(name) => register_hole(st, name, DslType::Action, path),
        ActionV::Deposit { into, by, token, amount } => {
            let st1 = check_party_spec(ctx, st, into, field_path(path, "into"@), PartyUsage::AccountOwner);
            let st2 = check_party_spec(ctx, st1, by, field_path(path, "by"@), PartyUsage::Actor);
            let st3 = check_token_spec(ctx, st2, token, field_path(path, "token"@));
            check_value_spec(ctx, declared, st3, amount, field_path(path, "amount"@))
        },
        ActionV::Choice { id, bounds } => {
            let st1 = check_choice_id_spec(ctx, st, id, field_path(path, "id"@));
            check_bounds_spec(ctx, declared, st1, bounds, field_path(path, "bounds"@), 0)
        },
        ActionV::Notify { if_ } => check_observation_spec(ctx, declared, st, if_, field_path(path, "if"@)),
    }
}

pub open spec fn check_case_spec(ctx: ContextV, declared: Seq<ChoiceRefV>, st: CheckState, c: CaseV, path: Seq<char>) -> CheckState
    decreases c, 0nat,
{
    match c {
        CaseV::Hole(name) => register_hole(st, name, DslType::Case, path),
        CaseV::Case { action, then } => {
            let st1 = check_action_spec(ctx, declared, st, action, field_path(path, "action"@));
            check_contract_spec(ctx, declared, st1, *then, field_path(path, "then"@))
        },
    }
}

/// The cases of a `When` from position `i` on, each checked at `path[i]`.
pub open spec fn check_cases_spec(
    ctx: ContextV,
    declared: Seq<ChoiceRefV>,
    st: CheckState,
    cases: Seq<CaseV>,
    path: Seq<char>,
    i: nat,
) -> CheckState
    decreases cases, cases.len() - i,
{
    if i >= cases.len() {
        st
    } else {
        let st1 = check_case_spec(ctx, declared, st, cases[i as int], index_path(path, i));
        check_cases_spec(ctx, declared, st1, cases, path, i + 1)
    }
}

pub open spec fn check_contract_spec(ctx: ContextV, declared: Seq<ChoiceRefV>, st: CheckState, c: ContractV, path: Seq<char>) -> CheckState
    decreases c, 0nat,
{
    match c {
        ContractV::Hole(name) => register_hole(st, name, DslType::Contract, path),
        ContractV::Close => st,
        ContractV::Pay { from, to, token, amount, then } => {
            let st1 = check_party_spec(ctx, st, from, field_path(path, "from"@), PartyUsage::AccountOwner);
            let st2 = check_payee_spec(ctx, st1, to, field_path(path, "to"@));
            let st3 = check_token_spec(ctx, st2, token, field_path(path, "token"@));
            let st4 = check_value_spec(ctx, declared, st3, amount, field_path(path, "amount"@));
            check_contract_spec(ctx, declared, st4, *then, field_path(path, "then"@))
        },
        ContractV::If { cond, then, else_ } => {
            let st1 = check_observation_spec(ctx, declared, st, cond, field_path(path, "cond"@));
            let st2 = check_contract_spec(ctx, declared, st1, *then, field_path(path, "then"@));
            check_contract_spec(ctx, declared, st2, *else_, field_path(path, "else"@))
        },
        ContractV::When { cases, timeout, timeout_continuation } => {
            let st1 = check_cases_spec(ctx, declared, st, cases, field_path(path, "cases"@), 0);
            let st2 = check_timeout_spec(st1, timeout, field_path(path, "timeout"@));
            check_contract_spec(ctx, declared, st2, *timeout_continuation, field_path(path, "timeout_continuation"@))
        },
        ContractV::Let { name, value, then } => {
            let st1 = if let_defined(st.scopes, name) {
                add_warning(st, path, "let binding '"@ + name + "' shadows an existing binding"@)
            } else {
                st
            };
            let st2 = check_value_spec(ctx, declared, st1, value, field_path(path, "value"@));
            let st3 = CheckState {
                scopes: st2.scopes.push(LetRecordV { name, path: field_path(path, "name"@), used: false }),
                ..st2
            };
            let st4 = check_contract_spec(ctx, declared, st3, *then, field_path(path, "then"@));
            let frame = st4.scopes.last();
            let st5 = CheckState { scopes: st4.scopes.drop_last(), ..st4 };
            if !frame.used {
                add_warning(st5, frame.path, "let binding '"@ + frame.name + "' is never used"@)
            } else {
                st5
            }
        },
        ContractV::Assert { cond, then } => {
            let st1 = check_observation_spec(ctx, declared, st, cond, field_path(path, "cond"@));
            check_contract_spec(ctx, declared, st1, *then, field_path(path, "then"@))
        },
    }
}

/// The choices that a contract declares through its `Choice` actions, in
/// document order.
pub open spec fn declared_choices(c: ContractV) -> Seq<ChoiceRefV>
    decreases c, 0nat,
{
    match c {
        ContractV::Hole(_) | ContractV::Close => Seq::empty(),
        ContractV::Pay { then, .. } => declared_choices(*then),
        ContractV::If { then, else_, .. } => declared_choices(*then) + declared_choices(*else_),
        ContractV::When { cases, timeout_continuation, .. } => declared_choices_in_cases(cases, 0) + declared_choices(
            *timeout_continuation,
        ),
        ContractV::Let { then, .. } => declared_choices(*then),
        ContractV::Assert { then, .. } => declared_choices(*then),
    }
}

/// The choice that a case declares itself, if its action is a `Choice` on a
/// concrete party.
pub open spec fn declared_choice_of_case(c: CaseV) -> Seq<ChoiceRefV> {
    match c {
        CaseV::Case { action: ActionV::Choice { id, .. }, .. } => match choice_ref_of(id) {
            Some(r) => seq![r],
            None => Seq::empty(),
        },
        _ => Seq::empty(),
    }
}

/// The choices declared by the cases from position `i` on.
pub open spec fn declared_choices_in_cases(cases: Seq<CaseV>, i: nat) -> Seq<ChoiceRefV>
    decreases cases, cases.len() - i,
{
    if i >= cases.len() {
        Seq::empty()
    } else {
        let inner = match cases[i as int] {
            CaseV::Hole(_) => Seq::empty(),
            CaseV::Case { then, .. } => declared_choices(*then),
        };
        declared_choice_of_case(cases[i as int]) + inner + declared_choices_in_cases(cases, i + 1)
    }
}

} // verus!

verus! {

/// Checking only ever adds holes and parameters: `after` records at least
/// as many of each as `before`.
pub open spec fn grows(before: CheckState, after: CheckState) -> bool {
    before.holes.len() <= after.holes.len() && before.params.len() <= after.params.len()
}

pub broadcast proof fn lemma_register_grows(st: CheckState, is_hole: bool, name: Seq<char>, ty: DslType, path: Seq<char>)
    ensures
        grows(st, #[trigger] register_symbol(st, is_hole, name, ty, path)),
        is_hole ==> register_symbol(st, is_hole, name, ty, path).holes.len() > 0,
        !is_hole ==> register_symbol(st, is_hole, name, ty, path).params.len() > 0,
{
    lemma_symbol_position(st.holes, name);
    lemma_symbol_position(st.params, name);
}

/// No two records share a name.
pub open spec fn unique_names(s: Seq<TypedSymbolV>) -> bool {
    forall|i: int, j: int| #![trigger s[i], s[j]] 0 <= i < j < s.len() ==> s[i].name != s[j].name
}

/// Each hole, and each parameter, is recorded once.
pub open spec fn registered_once(st: CheckState) -> bool {
    unique_names(st.holes) && unique_names(st.params)
}

pub broadcast proof fn lemma_register_once(st: CheckState, is_hole: bool, name: Seq<char>, ty: DslType, path: Seq<char>)
    requires
        registered_once(st),
    ensures
        #[trigger] registered_once(register_symbol(st, is_hole, name, ty, path)),
        register_symbol(st, is_hole, name, ty, path).scopes == st.scopes,
{
    lemma_symbol_position(st.holes, name);
    lemma_symbol_position(st.params, name);
    let r = register_symbol(st, is_hole, name, ty, path);
    if is_hole {
        assert forall|i: int, j: int| 0 <= i < j < r.holes.len() implies r.holes[i].name != r.holes[j].name by {
            if j == st.holes.len() && symbol_position(st.holes, name) is None {
                assert(r.holes[i] == st.holes[i]);
            }
        }
    } else {
        assert forall|i: int, j: int| 0 <= i < j < r.params.len() implies r.params[i].name != r.params[j].name by {
            if j == st.params.len() && symbol_position(st.params, name) is None {
                assert(r.params[i] == st.params[i]);
            }
        }
    }
}

proof fn lemma_party_once(ctx: ContextV, st: CheckState, party: PartyV, path: Seq<char>, usage: PartyUsage)
    ensures
        grows(st, check_party_spec(ctx, st, party, path, usage)),
        registered_once(st) ==> registered_once(check_party_spec(ctx, st, party, path, usage)),
        check_party_spec(ctx, st, party, path, usage).scopes == st.scopes,
{
    broadcast use lemma_register_grows;
    broadcast use lemma_register_once;
}

proof fn lemma_token_once(ctx: ContextV, st: CheckState, token: TokenV, path: Seq<char>)
    ensures
        grows(st, check_token_spec(ctx, st, token, path)),
        registered_once(st) ==> registered_once(check_token_spec(ctx, st, token, path)),
        check_token_spec(ctx, st, token, path).scopes == st.scopes,
{
    broadcast use lemma_register_grows;
    broadcast use lemma_register_once;
}

proof fn lemma_payee_once(ctx: ContextV, st: CheckState, payee: PayeeTargetV, path: Seq<char>)
    ensures
        grows(st, check_payee_spec(ctx, st, payee, path)),
        registered_once(st) ==> registered_once(check_payee_spec(ctx, st, payee, path)),
        check_payee_spec(ctx, st, payee, path).scopes == st.scopes,
{
    broadcast use lemma_register_grows;
    broadcast use lemma_register_once;
    match payee {
        PayeeTargetV::ToParty(p) => lemma_party_once(ctx, st, p, field_path(path, "party"@), PartyUsage::Actor),
        PayeeTargetV::ToAccount(p) => lemma_party_once(ctx, st, p, field_path(path, "account"@), PartyUsage::AccountOwner),
        _ => {},
    }
}

proof fn lemma_choice_usage_once(ctx: ContextV, declared: Seq<ChoiceRefV>, st: CheckState, id: ChoiceIdV, path: Seq<char>)
    ensures
        grows(st, check_choice_id_spec(ctx, st, id, path)),
        grows(st, check_choice_usage_spec(ctx, declared, st, id, path)),
        registered_once(st) ==> registered_once(check_choice_id_spec(ctx, st, id, path)),
        check_choice_id_spec(ctx, st, id, path).scopes == st.scopes,
        registered_once(st) ==> registered_once(check_choice_usage_spec(ctx, declared, st, id, path)),
        check_choice_usage_spec(ctx, declared, st, id, path).scopes == st.scopes,
{
    broadcast use lemma_register_grows;
    broadcast use lemma_register_once;
    match id {
        ChoiceIdV::ChoiceId { name, party } => lemma_party_once(ctx, st, party, field_path(path, "party"@), PartyUsage::Actor),
        _ => {},
    }
}

proof fn lemma_timeout_once(st: CheckState, t: TimeoutV, path: Seq<char>)
    ensures
        grows(st, check_timeout_spec(st, t, path)),
        registered_once(st) ==> registered_once(check_timeout_spec(st, t, path)),
        check_timeout_spec(st, t, path).scopes == st.scopes,
{
    broadcast use lemma_register_grows;
    broadcast use lemma_register_once;
}

proof fn lemma_value_scopes(ctx: ContextV, declared: Seq<ChoiceRefV>, st: CheckState, v: ValueV, path: Seq<char>)
    ensures
        grows(st, check_value_spec(ctx, declared, st, v, path)),
        check_value_spec(ctx, declared, st, v, path).scopes.len() == st.scopes.len(),
        registered_once(st) ==> registered_once(check_value_spec(ctx, declared, st, v, path)),
    decreases v,
{
    broadcast use lemma_register_grows;
    broadcast use lemma_register_once;
    match v {
        ValueV::Add(a, b) | ValueV::Sub(a, b) | ValueV::Mul(a, b) | ValueV::Div(a, b) => {
            lemma_value_scopes(ctx, declared, st, *a, index_path(path, 0));
            let st1 = check_value_spec(ctx, declared, st, *a, index_path(path, 0));
            lemma_value_scopes(ctx, declared, st1, *b, index_path(path, 1));
        },
        ValueV::Neg(a) | ValueV::Abs(a) => {
            lemma_value_scopes(ctx, declared, st, *a, field_path(path, "inner"@));
        },
        ValueV::UseValue(name) => {
            if let Some(i) = innermost_let(st.scopes, name) {
                lemma_innermost_let(st.scopes, name);
            }
        },
        ValueV::ValueFromChoice(c) => {
            lemma_choice_usage_once(ctx, declared, st, c, field_path(path, "choice"@));
        },
        ValueV::AvailableMoney { account, token } => {
            lemma_party_once(ctx, st, account, field_path(path, "account"@), PartyUsage::AccountOwner);
            let st1 = check_party_spec(ctx, st, account, field_path(path, "account"@), PartyUsage::AccountOwner);
            lemma_token_once(ctx, st1, token, field_path(path, "token"@));
        },
        _ => {},
    }
}

pub proof fn lemma_innermost_let(scopes: Seq<LetRecordV>, name: Seq<char>)
    ensures
        innermost_let(scopes, name) matches Some(i) ==> 0 <= i < scopes.len() && scopes[i].name == name
            && forall|j: int| i < j < scopes.len() ==> scopes[j].name != name,
        innermost_let(scopes, name) is None ==> !let_defined(scopes, name),
    decreases scopes.len(),
{
    if scopes.len() > 0 {
        lemma_innermost_let(scopes.drop_last(), name);
        assert forall|j: int| 0 <= j < scopes.len() - 1 implies scopes.drop_last()[j] == scopes[j] by {}
        if innermost_let(scopes, name) is None {
            assert forall|j: int| 0 <= j < scopes.len() implies scopes[j].name != name by {
                if j < scopes.len() - 1 {
                    assert(scopes.drop_last()[j] == scopes[j]);
                }
            }
        }
    }
}

proof fn lemma_observation_scopes(ctx: ContextV, declared: Seq<ChoiceRefV>, st: CheckState, o: ObservationV, path: Seq<char>)
    ensures
        grows(st, check_observation_spec(ctx, declared, st, o, path)),
        check_observation_spec(ctx, declared, st, o, path).scopes.len() == st.scopes.len(),
        registered_once(st) ==> registered_once(check_observation_spec(ctx, declared, st, o, path)),
    decreases o,
{
    broadcast use lemma_register_grows;
    broadcast use lemma_register_once;
    match o {
        ObservationV::And(a, b) | ObservationV::Or(a, b) => {
            lemma_observation_scopes(ctx, declared, st, *a, index_path(path, 0));
            let st1 = check_observation_spec(ctx, declared, st, *a, index_path(path, 0));
            lemma_observation_scopes(ctx, declared, st1, *b, index_path(path, 1));
        },
        ObservationV::Not(a) => {
            lemma_observation_scopes(ctx, declared, st, *a, field_path(path, "inner"@));
        },
        ObservationV::ChoseSomething(c) => {
            lemma_choice_usage_once(ctx, declared, st, c, field_path(path, "choice"@));
        },
        ObservationV::ValueGE(a, b) | ObservationV::ValueGT(a, b) | ObservationV::ValueLT(a, b)
        | ObservationV::ValueLE(a, b) | ObservationV::ValueEQ(a, b) => {
            lemma_value_scopes(ctx, declared, st, a, index_path(path, 0));
            let st1 = check_value_spec(ctx, declared, st, a, index_path(path, 0));
            lemma_value_scopes(ctx, declared, st1, b, index_path(path, 1));
        },
        _ => {},
    }
}

proof fn lemma_bounds_scopes(
    ctx: ContextV,
    declared: Seq<ChoiceRefV>,
    st: CheckState,
    bounds: Seq<BoundV>,
    path: Seq<char>,
    i: nat,
)
    ensures
        grows(st, check_bounds_spec(ctx, declared, st, bounds, path, i)),
        check_bounds_spec(ctx, declared, st, bounds, path, i).scopes.len() == st.scopes.len(),
        registered_once(st) ==> registered_once(check_bounds_spec(ctx, declared, st, bounds, path, i)),
    decreases bounds.len() - i,
{
    broadcast use lemma_register_grows;
    broadcast use lemma_register_once;
    if i < bounds.len() {
        let p = index_path(path, i);
        match bounds[i as int] {
            BoundV::Bound { from, to } => {
                lemma_value_scopes(ctx, declared, st, from, field_path(p, "from"@));
                let st1 = check_value_spec(ctx, declared, st, from, field_path(p, "from"@));
                lemma_value_scopes(ctx, declared, st1, to, field_path(p, "to"@));
            },
            _ => {},
        }
        let st1 = check_bound_spec(ctx, declared, st, bounds[i as int], p);
        lemma_bounds_scopes(ctx, declared, st1, bounds, path, i + 1);
    }
}

proof fn lemma_action_scopes(ctx: ContextV, declared: Seq<ChoiceRefV>, st: CheckState, a: ActionV, path: Seq<char>)
    ensures
        grows(st, check_action_spec(ctx, declared, st, a, path)),
        check_action_spec(ctx, declared, st, a, path).scopes.len() == st.scopes.len(),
        registered_once(st) ==> registered_once(check_action_spec(ctx, declared, st, a, path)),
{
    broadcast use lemma_register_grows;
    broadcast use lemma_register_once;
    match a {
        ActionV::Deposit { into, by, token, amount } => {
            lemma_party_once(ctx, st, into, field_path(path, "into"@), PartyUsage::AccountOwner);
            let st1 = check_party_spec(ctx, st, into, field_path(path, "into"@), PartyUsage::AccountOwner);
            lemma_party_once(ctx, st1, by, field_path(path, "by"@), PartyUsage::Actor);
            let st2 = check_party_spec(ctx, st1, by, field_path(path, "by"@), PartyUsage::Actor);
            lemma_token_once(ctx, st2, token, field_path(path, "token"@));
            let st3 = check_token_spec(ctx, st2, token, field_path(path, "token"@));
            lemma_value_scopes(ctx, declared, st3, amount, field_path(path, "amount"@));
        },
        ActionV::Choice { id, bounds } => {
            lemma_choice_usage_once(ctx, declared, st, id, field_path(path, "id"@));
            let st1 = check_choice_id_spec(ctx, st, id, field_path(path, "id"@));
            lemma_bounds_scopes(ctx, declared, st1, bounds, field_path(path, "bounds"@), 0);
        },
        ActionV::Notify { if_ } => {
            lemma_observation_scopes(ctx, declared, st, if_, field_path(path, "if"@));
        },
        _ => {},
    }
}

proof fn lemma_case_scopes(ctx: ContextV, declared: Seq<ChoiceRefV>, st: CheckState, c: CaseV, path: Seq<char>)
    ensures
        grows(st, check_case_spec(ctx, declared, st, c, path)),
        check_case_spec(ctx, declared, st, c, path).scopes.len() == st.scopes.len(),
        registered_once(st) ==> registered_once(check_case_spec(ctx, declared, st, c, path)),
    decreases c, 0nat,
{
    broadcast use lemma_register_grows;
    broadcast use lemma_register_once;
    match c {
        CaseV::Case { action, then } => {
            lemma_action_scopes(ctx, declared, st, action, field_path(path, "action"@));
            let st1 = check_action_spec(ctx, declared, st, action, field_path(path, "action"@));
            lemma_contract_scopes(ctx, declared, st1, *then, field_path(path, "then"@));
        },
        _ => {},
    }
}

proof fn lemma_cases_scopes(
    ctx: ContextV,
    declared: Seq<ChoiceRefV>,
    st: CheckState,
    cases: Seq<CaseV>,
    path: Seq<char>,
    i: nat,
)
    ensures
        grows(st, check_cases_spec(ctx, declared, st, cases, path, i)),
        check_cases_spec(ctx, declared, st, cases, path, i).scopes.len() == st.scopes.len(),
        registered_once(st) ==> registered_once(check_cases_spec(ctx, declared, st, cases, path, i)),
    decreases cases, cases.len() - i,
{
    broadcast use lemma_register_grows;
    broadcast use lemma_register_once;
    if i < cases.len() {
        lemma_case_scopes(ctx, declared, st, cases[i as int], index_path(path, i));
        let st1 = check_case_spec(ctx, declared, st, cases[i as int], index_path(path, i));
        lemma_cases_scopes(ctx, declared, st1, cases, path, i + 1);
    }
}

pub proof fn lemma_contract_scopes(ctx: ContextV, declared: Seq<ChoiceRefV>, st: CheckState, c: ContractV, path: Seq<char>)
    ensures
        grows(st, check_contract_spec(ctx, declared, st, c, path)),
        check_contract_spec(ctx, declared, st, c, path).scopes.len() == st.scopes.len(),
        registered_once(st) ==> registered_once(check_contract_spec(ctx, declared, st, c, path)),
    decreases c, 0nat,
{
    broadcast use lemma_register_grows;
    broadcast use lemma_register_once;
    match c {
        ContractV::Pay { from, to, token, amount, then } => {
            lemma_party_once(ctx, st, from, field_path(path, "from"@), PartyUsage::AccountOwner);
            let st1 = check_party_spec(ctx, st, from, field_path(path, "from"@), PartyUsage::AccountOwner);
            lemma_payee_once(ctx, st1, to, field_path(path, "to"@));
            let st2 = check_payee_spec(ctx, st1, to, field_path(path, "to"@));
            lemma_token_once(ctx, st2, token, field_path(path, "token"@));
            let st3 = check_token_spec(ctx, st2, token, field_path(path, "token"@));
            lemma_value_scopes(ctx, declared, st3, amount, field_path(path, "amount"@));
            let st4 = check_value_spec(ctx, declared, st3, amount, field_path(path, "amount"@));
            lemma_contract_scopes(ctx, declared, st4, *then, field_path(path, "then"@));
        },
        ContractV::If { cond, then, else_ } => {
            lemma_observation_scopes(ctx, declared, st, cond, field_path(path, "cond"@));
            let st1 = check_observation_spec(ctx, declared, st, cond, field_path(path, "cond"@));
            lemma_contract_scopes(ctx, declared, st1, *then, field_path(path, "then"@));
            let st2 = check_contract_spec(ctx, declared, st1, *then, field_path(path, "then"@));
            lemma_contract_scopes(ctx, declared, st2, *else_, field_path(path, "else"@));
        },
        ContractV::When { cases, timeout, timeout_continuation } => {
            lemma_cases_scopes(ctx, declared, st, cases, field_path(path, "cases"@), 0);
            let st1 = check_cases_spec(ctx, declared, st, cases, field_path(path, "cases"@), 0);
            lemma_timeout_once(st1, timeout, field_path(path, "timeout"@));
            let st2 = check_timeout_spec(st1, timeout, field_path(path, "timeout"@));
            lemma_contract_scopes(ctx, declared, st2, *timeout_continuation, field_path(path, "timeout_continuation"@));
        },
        ContractV::Let { name, value, then } => {
            let st1 = if let_defined(st.scopes, name) {
                add_warning(st, path, "let binding '"@ + name + "' shadows an existing binding"@)
            } else {
                st
            };
            lemma_value_scopes(ctx, declared, st1, value, field_path(path, "value"@));
            let st2 = check_value_spec(ctx, declared, st1, value, field_path(path, "value"@));
            let st3 = CheckState {
                scopes: st2.scopes.push(LetRecordV { name, path: field_path(path, "name"@), used: false }),
                ..st2
            };
            lemma_contract_scopes(ctx, declared, st3, *then, field_path(path, "then"@));
        },
        ContractV::Assert { cond, then } => {
            lemma_observation_scopes(ctx, declared, st, cond, field_path(path, "cond"@));
            let st1 = check_observation_spec(ctx, declared, st, cond, field_path(path, "cond"@));
            lemma_contract_scopes(ctx, declared, st1, *then, field_path(path, "then"@));
        },
        _ => {},
    }
}

} // verus!

verus! {

struct LetRecord {
    name: String,
    path: String,
    used: bool,
}

impl View for LetRecord {
    type V = LetRecordV;

    closed spec fn view(&self) -> LetRecordV {
        LetRecordV { name: self.name@, path: self.path@, used: self.used }
    }
}

pub open spec fn symbols_view(s: Seq<TypedSymbol>) -> Seq<TypedSymbolV> {
    s.map_values(|x: TypedSymbol| x@)
}

pub open spec fn diagnostics_view(s: Seq<Diagnostic>) -> Seq<DiagnosticV> {
    s.map_values(|x: Diagnostic| x@)
}

pub open spec fn choice_refs_view(s: Seq<ChoiceRef>) -> Seq<ChoiceRefV> {
    s.map_values(|x: ChoiceRef| x@)
}

struct Checker<'a> {
    context: &'a TypeCheckContext,
    declared: Vec<ChoiceRef>,
    holes: Vec<TypedSymbol>,
    params: Vec<TypedSymbol>,
    errors: Vec<Diagnostic>,
    warnings: Vec<Diagnostic>,
    scopes: Vec<LetRecord>,
}

impl<'a> Checker<'a> {
    spec fn state(&self) -> CheckState {
        CheckState {
            holes: symbols_view(self.holes@),
            params: symbols_view(self.params@),
            errors: diagnostics_view(self.errors@),
            warnings: diagnostics_view(self.warnings@),
            scopes: self.scopes@.map_values(|x: LetRecord| x@),
        }
    }

    spec fn ctx(&self) -> ContextV {
        self.context@
    }

    spec fn declared_view(&self) -> Seq<ChoiceRefV> {
        choice_refs_view(self.declared@)
    }

    spec fn same_env(&self, other: &Checker<'a>) -> bool {
        self.context == other.context && self.declared@ == other.declared@
    }

    fn error(&mut self, path: &str, message: String)
        ensures
            final(self).state() == add_error(old(self).state(), path@, message@),
            final(self).same_env(old(self)),
    {
        let d = Diagnostic { path: String::from_str(path), message };
        let ghost before = self.errors@;
        self.errors.push(d);
        assert(diagnostics_view(self.errors@) =~= diagnostics_view(before).push(d@));
    }

    fn warn(&mut self, path: &str, message: String)
        ensures
            final(self).state() == add_warning(old(self).state(), path@, message@),
            final(self).same_env(old(self)),
    {
        let d = Diagnostic { path: String::from_str(path), message };
        let ghost before = self.warnings@;
        self.warnings.push(d);
        assert(diagnostics_view(self.warnings@) =~= diagnostics_view(before).push(d@));
    }

    fn register_symbol(&mut self, is_hole: bool, name: &str, ty: DslType, path: &str)
        ensures
            final(self).state() == register_symbol(old(self).state(), is_hole, name@, ty, path@),
            final(self).same_env(old(self)),
    {
        let found = if is_hole { find_symbol(&self.holes, name) } else { find_symbol(&self.params, name) };
        match found {
            Some(i) => {
                let (existing_ty, existing_path) = if is_hole {
                    (self.holes[i].ty, self.holes[i].path.clone())
                } else {
                    (self.params[i].ty, self.params[i].path.clone())
                };
                if existing_ty != ty {
                    let mut m = String::from_str(if is_hole { "hole" } else { "parameter" });
                    m.append(" '");
                    m.append(name);
                    m.append("' has conflicting inferred types: ");
                    m.append(existing_ty.as_str());
                    m.append(" at ");
                    m.append(existing_path.as_str());
                    m.append(" and ");
                    m.append(ty.as_str());
                    m.append(" at ");
                    m.append(path);
                    self.error(path, m);
                }
            },
            None => {
                let record = TypedSymbol { name: String::from_str(name), ty, path: String::from_str(path) };
                if is_hole {
                    let ghost before = self.holes@;
                    self.holes.push(record);
                    assert(symbols_view(self.holes@) =~= symbols_view(before).push(record@));
                } else {
                    let ghost before = self.params@;
                    self.params.push(record);
                    assert(symbols_view(self.params@) =~= symbols_view(before).push(record@));
                }
            },
        }
    }
}

/// The position of the first record named `name`.
fn find_symbol(symbols: &Vec<TypedSymbol>, name: &str) -> (r: Option<usize>)
    ensures
        match r {
            Some(i) => symbol_position(symbols_view(symbols@), name@) == Some(i as int) && i < symbols@.len(),
            None => symbol_position(symbols_view(symbols@), name@) is None,
        },
{
    let ghost v = symbols_view(symbols@);
    proof { lemma_symbol_position(v, name@); }
    let mut i: usize = 0;
    while i < symbols.len()
        invariant
            v == symbols_view(symbols@),
            i <= symbols@.len(),
            forall|j: int| 0 <= j < i ==> v[j].name != name@,
        decreases symbols@.len() - i,
    {
        assert(v[i as int] == symbols@[i as int]@);
        if crate::text::same_text(symbols[i].name.as_str(), name) {
            proof { lemma_symbol_position(v, name@); }
            return Some(i);
        }
        i = i + 1;
    }
    proof { lemma_symbol_position(v, name@); }
    None
}

fn same_party_ref(a: &PartyRef, b: &PartyRef) -> (r: bool)
    ensures
        r == (a@ == b@),
{
    match (a, b) {
        (PartyRef::Role(x), PartyRef::Role(y)) => crate::text::same_text(x.as_str(), y.as_str()),
        (PartyRef::Address(x), PartyRef::Address(y)) => crate::text::same_text(x.as_str(), y.as_str()),
        _ => false,
    }
}

fn contains_party_ref(v: &Vec<PartyRef>, x: &PartyRef) -> (r: bool)
    ensures
        r == v@.map_values(|p: PartyRef| p@).contains(x@),
{
    let ghost m = v@.map_values(|p: PartyRef| p@);
    let mut i: usize = 0;
    while i < v.len()
        invariant
            m == v@.map_values(|p: PartyRef| p@),
            i <= v@.len(),
            forall|j: int| 0 <= j < i ==> m[j] != x@,
        decreases v@.len() - i,
    {
        if same_party_ref(&v[i], x) {
            assert(m[i as int] == x@);
            return true;
        }
        i = i + 1;
    }
    false
}

fn contains_token_ref(v: &Vec<TokenRef>, x: &TokenRef) -> (r: bool)
    ensures
        r == v@.map_values(|t: TokenRef| t@).contains(x@),
{
    let ghost m = v@.map_values(|t: TokenRef| t@);
    let mut i: usize = 0;
    while i < v.len()
        invariant
            m == v@.map_values(|t: TokenRef| t@),
            i <= v@.len(),
            forall|j: int| 0 <= j < i ==> m[j] != x@,
        decreases v@.len() - i,
    {
        if crate::text::same_text(v[i].currency_symbol.as_str(), x.currency_symbol.as_str())
            && crate::text::same_text(v[i].token_name.as_str(), x.token_name.as_str()) {
            assert(m[i as int] == x@);
            return true;
        }
        i = i + 1;
    }
    false
}

fn contains_choice_ref(v: &Vec<ChoiceRef>, x: &ChoiceRef) -> (r: bool)
    ensures
        r == v@.map_values(|c: ChoiceRef| c@).contains(x@),
{
    let ghost m = v@.map_values(|c: ChoiceRef| c@);
    let mut i: usize = 0;
    while i < v.len()
        invariant
            m == v@.map_values(|c: ChoiceRef| c@),
            i <= v@.len(),
            forall|j: int| 0 <= j < i ==> m[j] != x@,
        decreases v@.len() - i,
    {
        if crate::text::same_text(v[i].name.as_str(), x.name.as_str()) && same_party_ref(&v[i].party, &x.party) {
            assert(m[i as int] == x@);
            return true;
        }
        i = i + 1;
    }
    false
}

} // verus!

verus! {

fn party_ref(party: &Party) -> (r: Option<PartyRef>)
    ensures
        match r {
            Some(x) => party_ref_of(party@) == Some(x@),
            None => party_ref_of(party@) is None,
        },
{
    match party {
        Party::Role(n) => Some(PartyRef::Role(n.clone())),
        Party::Address(n) => Some(PartyRef::Address(n.clone())),
        Party::Hole(_) => None,
    }
}

fn choice_ref(id: &ChoiceId) -> (r: Option<ChoiceRef>)
    ensures
        match r {
            Some(x) => choice_ref_of(id@) == Some(x@),
            None => choice_ref_of(id@) is None,
        },
{
    match id {
        ChoiceId::Hole(_) => None,
        ChoiceId::ChoiceId { name, party } => match party_ref(party) {
            Some(p) => Some(ChoiceRef { name: name.clone(), party: p }),
            None => None,
        },
    }
}

impl<'a> Checker<'a> {
    fn check_party(&mut self, party: &Party, path: &str, usage: PartyUsage)
        ensures
            final(self).state() == check_party_spec(old(self).ctx(), old(self).state(), party@, path@, usage),
            final(self).same_env(old(self)),
    {
        match party {
            Party::Hole(name) => self.register_symbol(true, name.as_str(), DslType::Party, path),
            Party::Role(name) => {
                if self.context.require_known_definitions {
                    let r = PartyRef::Role(name.clone());
                    if usage == PartyUsage::Actor && !contains_party_ref(&self.context.known_parties, &r) {
                        self.error(path, crate::parser::join3("unknown party role '", name.as_str(), "'"));
                    }
                    if usage == PartyUsage::AccountOwner && !contains_party_ref(&self.context.known_accounts, &r) {
                        self.error(path, crate::parser::join3("unknown account owner role '", name.as_str(), "'"));
                    }
                }
            },
            Party::Address(name) => {
                if self.context.require_known_definitions {
                    let r = PartyRef::Address(name.clone());
                    if usage == PartyUsage::Actor && !contains_party_ref(&self.context.known_parties, &r) {
                        self.error(path, crate::parser::join3("unknown party address '", name.as_str(), "'"));
                    }
                    if usage == PartyUsage::AccountOwner && !contains_party_ref(&self.context.known_accounts, &r) {
                        self.error(path, crate::parser::join3("unknown account owner address '", name.as_str(), "'"));
                    }
                }
            },
        }
    }

    fn check_token(&mut self, token: &Token, path: &str)
        ensures
            final(self).state() == check_token_spec(old(self).ctx(), old(self).state(), token@, path@),
            final(self).same_env(old(self)),
    {
        match token {
            Token::Hole(name) => self.register_symbol(true, name.as_str(), DslType::Token, path),
            Token::Token { currency_symbol, token_name } => {
                if self.context.require_known_definitions {
                    let r = TokenRef { currency_symbol: currency_symbol.clone(), token_name: token_name.clone() };
                    if !contains_token_ref(&self.context.known_tokens, &r) {
                        let mut m = crate::parser::join3("unknown token '", currency_symbol.as_str(), ".");
                        m.append(token_name.as_str());
                        m.append("'");
                        self.error(path, m);
                    }
                }
            },
        }
    }

    fn check_payee(&mut self, payee: &PayeeTarget, path: &str)
        ensures
            final(self).state() == check_payee_spec(old(self).ctx(), old(self).state(), payee@, path@),
            final(self).same_env(old(self)),
    {
        match payee {
            PayeeTarget::Hole(name) => self.register_symbol(true, name.as_str(), DslType::Payee, path),
            PayeeTarget::ToParty(p) => {
                let pp = field(path, "party");
                self.check_party(p, pp.as_str(), PartyUsage::Actor)
            },
            PayeeTarget::ToAccount(p) => {
                let pp = field(path, "account");
                self.check_party(p, pp.as_str(), PartyUsage::AccountOwner)
            },
        }
    }

    fn check_choice_id(&mut self, id: &ChoiceId, path: &str)
        ensures
            final(self).state() == check_choice_id_spec(old(self).ctx(), old(self).state(), id@, path@),
            final(self).same_env(old(self)),
    {
        match id {
            ChoiceId::Hole(name) => self.register_symbol(true, name.as_str(), DslType::ChoiceId, path),
            ChoiceId::ChoiceId { party, .. } => {
                let pp = field(path, "party");
                self.check_party(party, pp.as_str(), PartyUsage::Actor)
            },
        }
    }

    fn check_choice_usage(&mut self, id: &ChoiceId, path: &str)
        ensures
            final(self).state() == check_choice_usage_spec(
                old(self).ctx(),
                old(self).declared_view(),
                old(self).state(),
                id@,
                path@,
            ),
            final(self).same_env(old(self)),
    {
        self.check_choice_id(id, path);
        if let Some(r) = choice_ref(id) {
            let known = contains_choice_ref(&self.declared, &r) || contains_choice_ref(&self.context.known_choices, &r);
            if self.context.require_known_definitions && !known {
                self.error(path, crate::parser::join3("choice '", r.name.as_str(), "' for party is not declared in contract or context"));
            }
        }
    }

    fn is_let_name_defined(&self, name: &str) -> (r: bool)
        ensures
            r == let_defined(self.state().scopes, name@),
    {
        let ghost s = self.state().scopes;
        let mut i: usize = 0;
        while i < self.scopes.len()
            invariant
                s == self.state().scopes,
                s.len() == self.scopes@.len(),
                i <= self.scopes@.len(),
                forall|j: int| 0 <= j < i ==> s[j].name != name@,
            decreases self.scopes@.len() - i,
        {
            assert(s[i as int] == self.scopes@[i as int]@);
            if crate::text::same_text(self.scopes[i].name.as_str(), name) {
                return true;
            }
            i = i + 1;
        }
        false
    }

    /// Marks the innermost binding named `name` as used.
    fn mark_let_used(&mut self, name: &str) -> (r: bool)
        ensures
            r == (innermost_let(old(self).state().scopes, name@) is Some),
            final(self).state() == (match innermost_let(old(self).state().scopes, name@) {
                Some(i) => CheckState {
                    scopes: old(self).state().scopes.update(i, LetRecordV { used: true, ..old(self).state().scopes[i] }),
                    ..old(self).state()
                },
                None => old(self).state(),
            }),
            final(self).same_env(old(self)),
    {
        let ghost s = old(self).state().scopes;
        proof { lemma_innermost_let(s, name@); }
        let mut i: usize = self.scopes.len();
        while i > 0
            invariant
                s == self.state().scopes,
                s == old(self).state().scopes,
                self.same_env(old(self)),
                self.state() == old(self).state(),
                s.len() == self.scopes@.len(),
                i <= self.scopes@.len(),
                forall|j: int| i <= j < s.len() ==> s[j].name != name@,
            decreases i,
        {
            let k = i - 1;
            assert(s[k as int] == self.scopes@[k as int]@);
            if crate::text::same_text(self.scopes[k].name.as_str(), name) {
                proof { lemma_innermost_let_is(s, name@, k as int); }
                let ghost before = self.scopes@;
                self.scopes[k].used = true;
                assert(self.scopes@.map_values(|x: LetRecord| x@) =~= s.update(k as int, LetRecordV { used: true, ..s[k as int] }));
                return true;
            }
            i = k;
        }
        proof { lemma_innermost_let_none(s, name@); }
        false
    }
}

proof fn lemma_innermost_let_is(scopes: Seq<LetRecordV>, name: Seq<char>, k: int)
    requires
        0 <= k < scopes.len(),
        scopes[k].name == name,
        forall|j: int| k < j < scopes.len() ==> scopes[j].name != name,
    ensures
        innermost_let(scopes, name) == Some(k),
    decreases scopes.len(),
{
    if k < scopes.len() - 1 {
        assert(scopes.drop_last()[k] == scopes[k]);
        lemma_innermost_let_is(scopes.drop_last(), name, k);
    }
}

proof fn lemma_innermost_let_none(scopes: Seq<LetRecordV>, name: Seq<char>)
    requires
        forall|j: int| 0 <= j < scopes.len() ==> scopes[j].name != name,
    ensures
        innermost_let(scopes, name) is None,
    decreases scopes.len(),
{
    if scopes.len() > 0 {
        assert forall|j: int| 0 <= j < scopes.len() - 1 implies scopes.drop_last()[j].name != name by {
            assert(scopes.drop_last()[j] == scopes[j]);
        }
        lemma_innermost_let_none(scopes.drop_last(), name);
    }
}

} // verus!

verus! {

pub(crate) fn static_constant(v: &NumericValue) -> (r: Option<&crate::integer::Integer>)
    ensures
        match r {
            Some(c) => static_value(v@) == Some(c@),
            None => static_value(v@) is None,
        },
{
    match v {
        NumericValue::Constant(c) => Some(c),
        _ => None,
    }
}

impl<'a> Checker<'a> {
    fn check_value(&mut self, v: &NumericValue, path: &str)
        ensures
            final(self).state() == check_value_spec(old(self).ctx(), old(self).declared_view(), old(self).state(), v@, path@),
            final(self).same_env(old(self)),
        decreases v,
    {
        match v {
            NumericValue::Hole(name) => self.register_symbol(true, name.as_str(), DslType::Value, path),
            NumericValue::Param(name) => self.register_symbol(false, name.as_str(), DslType::Value, path),
            NumericValue::Constant(_) | NumericValue::TimeIntervalStart | NumericValue::TimeIntervalEnd => {},
            NumericValue::Add(a, b) | NumericValue::Sub(a, b) | NumericValue::Mul(a, b) | NumericValue::Div(a, b) => {
                let p0 = index(path, 0);
                self.check_value(a, p0.as_str());
                let p1 = index(path, 1);
                self.check_value(b, p1.as_str());
            },
            NumericValue::Neg(a) | NumericValue::Abs(a) => {
                let p = field(path, "inner");
                self.check_value(a, p.as_str());
            },
            NumericValue::ValueFromChoice(c) => {
                let p = field(path, "choice");
                self.check_choice_usage(c, p.as_str());
            },
            NumericValue::UseValue(name) => {
                if !self.mark_let_used(name.as_str()) {
                    self.error(path, crate::parser::join3("UseValue references undefined let binding '", name.as_str(), "'"));
                }
            },
            NumericValue::AvailableMoney { account, token } => {
                let p = field(path, "account");
                self.check_party(account, p.as_str(), PartyUsage::AccountOwner);
                let p = field(path, "token");
                self.check_token(token, p.as_str());
            },
        }
    }

    fn check_observation(&mut self, o: &Observation, path: &str)
        ensures
            final(self).state() == check_observation_spec(
                old(self).ctx(),
                old(self).declared_view(),
                old(self).state(),
                o@,
                path@,
            ),
            final(self).same_env(old(self)),
        decreases o,
    {
        match o {
            Observation::Hole(name) => self.register_symbol(true, name.as_str(), DslType::Observation, path),
            Observation::True | Observation::False => {},
            Observation::And(a, b) | Observation::Or(a, b) => {
                let p0 = index(path, 0);
                self.check_observation(a, p0.as_str());
                let p1 = index(path, 1);
                self.check_observation(b, p1.as_str());
            },
            Observation::Not(a) => {
                let p = field(path, "inner");
                self.check_observation(a, p.as_str());
            },
            Observation::ChoseSomething(c) => {
                let p = field(path, "choice");
                self.check_choice_usage(c, p.as_str());
            },
            Observation::ValueGE(a, b) | Observation::ValueGT(a, b) | Observation::ValueLT(a, b)
            | Observation::ValueLE(a, b) | Observation::ValueEQ(a, b) => {
                let p0 = index(path, 0);
                self.check_value(a, p0.as_str());
                let p1 = index(path, 1);
                self.check_value(b, p1.as_str());
            },
        }
    }

    fn check_timeout(&mut self, t: &Timeout, path: &str)
        ensures
            final(self).state() == check_timeout_spec(old(self).state(), t@, path@),
            final(self).same_env(old(self)),
    {
        match t {
            Timeout::Hole(name) => self.register_symbol(true, name.as_str(), DslType::Timeout, path),
            Timeout::Param(name) => self.register_symbol(false, name.as_str(), DslType::Timeout, path),
            Timeout::PosixTime(_) => {},
        }
    }

    fn check_bound(&mut self, b: &Bound, path: &str)
        ensures
            final(self).state() == check_bound_spec(old(self).ctx(), old(self).declared_view(), old(self).state(), b@, path@),
            final(self).same_env(old(self)),
    {
        match b {
            Bound::Hole(name) => self.register_symbol(true, name.as_str(), DslType::Bound, path),
            Bound::Bound { from, to } => {
                let pf = field(path, "from");
                self.check_value(from, pf.as_str());
                let pt = field(path, "to");
                self.check_value(to, pt.as_str());
                match (static_constant(from), static_constant(to)) {
                    (Some(lo), Some(hi)) => {
                        if hi.lt(lo) {
                            self.error(path, String::from_str("invalid bound range: 'from' is greater than 'to'"));
                        }
                    },
                    _ => {
                        self.warn(path, String::from_str("bound range cannot be statically validated until values are concrete"));
                    },
                }
            },
        }
    }

    fn check_bounds(&mut self, bounds: &Vec<Bound>, path: &str)
        ensures
            final(self).state() == check_bounds_spec(
                old(self).ctx(),
                old(self).declared_view(),
                old(self).state(),
                bounds_view(bounds@),
                path@,
                0,
            ),
            final(self).same_env(old(self)),
    {
        let ghost bv = bounds_view(bounds@);
        let mut i: usize = 0;
        while i < bounds.len()
            invariant
                bv == bounds_view(bounds@),
                i <= bounds@.len(),
                self.same_env(old(self)),
                check_bounds_spec(old(self).ctx(), old(self).declared_view(), old(self).state(), bv, path@, 0)
                    == check_bounds_spec(self.ctx(), self.declared_view(), self.state(), bv, path@, i as nat),
            decreases bounds@.len() - i,
        {
            let p = index(path, i);
            self.check_bound(&bounds[i], p.as_str());
            i = i + 1;
        }
    }

    fn check_action(&mut self, a: &Action, path: &str)
        ensures
            final(self).state() == check_action_spec(old(self).ctx(), old(self).declared_view(), old(self).state(), a@, path@),
            final(self).same_env(old(self)),
    {
        match a {
            Action::Hole(name) => self.register_symbol(true, name.as_str(), DslType::Action, path),
            Action::Deposit { into, by, token, amount } => {
                let p = field(path, "into");
                self.check_party(into, p.as_str(), PartyUsage::AccountOwner);
                let p = field(path, "by");
                self.check_party(by, p.as_str(), PartyUsage::Actor);
                let p = field(path, "token");
                self.check_token(token, p.as_str());
                let p = field(path, "amount");
                self.check_value(amount, p.as_str());
            },
            Action::Choice { id, bounds } => {
                let p = field(path, "id");
                self.check_choice_id(id, p.as_str());
                let p = field(path, "bounds");
                self.check_bounds(bounds, p.as_str());
            },
            Action::Notify { if_ } => {
                let p = field(path, "if");
                self.check_observation(if_, p.as_str());
            },
        }
    }
}

} // verus!

verus! {

impl<'a> Checker<'a> {
    fn check_case(&mut self, c: &Case, path: &str)
        ensures
            final(self).state() == check_case_spec(old(self).ctx(), old(self).declared_view(), old(self).state(), c@, path@),
            final(self).same_env(old(self)),
        decreases c, 0nat,
    {
        match c {
            Case::Hole(name) => self.register_symbol(true, name.as_str(), DslType::Case, path),
            Case::Case { action, then } => {
                let p = field(path, "action");
                self.check_action(action, p.as_str());
                let p = field(path, "then");
                self.check_contract(then, p.as_str());
            },
        }
    }

    fn check_cases(&mut self, cases: &Vec<Case>, path: &str)
        ensures
            final(self).state() == check_cases_spec(
                old(self).ctx(),
                old(self).declared_view(),
                old(self).state(),
                cases_view(cases@),
                path@,
                0,
            ),
            final(self).same_env(old(self)),
        decreases cases, 1nat,
    {
        let ghost cv = cases_view(cases@);
        proof { lemma_cases_view(cases@); }
        let mut i: usize = 0;
        while i < cases.len()
            invariant
                cv == cases_view(cases@),
                cv.len() == cases@.len(),
                forall|j: int| 0 <= j < cases@.len() ==> #[trigger] cv[j] == crate::ast::case_view(cases@[j]),
                i <= cases@.len(),
                self.same_env(old(self)),
                check_cases_spec(old(self).ctx(), old(self).declared_view(), old(self).state(), cv, path@, 0)
                    == check_cases_spec(self.ctx(), self.declared_view(), self.state(), cv, path@, i as nat),
            decreases cases@.len() - i,
        {
            let p = index(path, i);
            assert(cv[i as int] == cases@[i as int]@);
            self.check_case(&cases[i], p.as_str());
            i = i + 1;
        }
    }

    fn check_contract(&mut self, c: &Contract, path: &str)
        ensures
            final(self).state() == check_contract_spec(old(self).ctx(), old(self).declared_view(), old(self).state(), c@, path@),
            final(self).same_env(old(self)),
        decreases c, 0nat,
    {
        match c {
            Contract::Hole(name) => self.register_symbol(true, name.as_str(), DslType::Contract, path),
            Contract::Close => {},
            Contract::Pay { from, to, token, amount, then } => {
                let p = field(path, "from");
                self.check_party(from, p.as_str(), PartyUsage::AccountOwner);
                let p = field(path, "to");
                self.check_payee(to, p.as_str());
                let p = field(path, "token");
                self.check_token(token, p.as_str());
                let p = field(path, "amount");
                self.check_value(amount, p.as_str());
                let p = field(path, "then");
                self.check_contract(then, p.as_str());
            },
            Contract::If { cond, then, else_ } => {
                let p = field(path, "cond");
                self.check_observation(cond, p.as_str());
                let p = field(path, "then");
                self.check_contract(then, p.as_str());
                let p = field(path, "else");
                self.check_contract(else_, p.as_str());
            },
            Contract::When { cases, timeout, timeout_continuation } => {
                let p = field(path, "cases");
                self.check_cases(cases, p.as_str());
                let p = field(path, "timeout");
                self.check_timeout(timeout, p.as_str());
                let p = field(path, "timeout_continuation");
                self.check_contract(timeout_continuation, p.as_str());
            },
            Contract::Let { name, value, then } => {
                if self.is_let_name_defined(name.as_str()) {
                    self.warn(path, crate::parser::join3("let binding '", name.as_str(), "' shadows an existing binding"));
                }
                let p = field(path, "value");
                self.check_value(value, p.as_str());
                let ghost s2 = self.state();
                let frame = LetRecord { name: name.clone(), path: field(path, "name"), used: false };
                let ghost fv = frame@;
                self.scopes.push(frame);
                assert(self.state().scopes =~= s2.scopes.push(fv));
                let ghost s3 = self.state();
                let p = field(path, "then");
                self.check_contract(then, p.as_str());
                proof {
                    lemma_contract_scopes(old(self).ctx(), old(self).declared_view(), s3, then@, p@);
                }
                let ghost s4 = self.state();
                let popped = self.scopes.pop();
                match popped {
                    Some(record) => {
                        assert(self.state().scopes =~= s4.scopes.drop_last());
                        if !record.used {
                            self.warn(
                                record.path.as_str(),
                                crate::parser::join3("let binding '", record.name.as_str(), "' is never used"),
                            );
                        }
                    },
                    None => {},
                }
            },
            Contract::Assert { cond, then } => {
                let p = field(path, "cond");
                self.check_observation(cond, p.as_str());
                let p = field(path, "then");
                self.check_contract(then, p.as_str());
            },
        }
    }
}

} // verus!

verus! {

/// Gathers the choices that `c` declares, appending them to `out`.
fn collect_declared_choices(c: &Contract, out: &mut Vec<ChoiceRef>)
    ensures
        choice_refs_view(final(out)@) == choice_refs_view(old(out)@) + declared_choices(c@),
    decreases c, 0nat,
{
    let ghost o = choice_refs_view(out@);
    match c {
        Contract::Hole(_) | Contract::Close => {
            assert(o + declared_choices(c@) =~= o);
        },
        Contract::Pay { then, .. } => collect_declared_choices(then, out),
        Contract::If { then, else_, .. } => {
            collect_declared_choices(then, out);
            collect_declared_choices(else_, out);
            assert(o + declared_choices(then@) + declared_choices(else_@) =~= o + declared_choices(c@));
        },
        Contract::When { cases, timeout_continuation, .. } => {
            collect_declared_choices_in_cases(cases, out);
            collect_declared_choices(timeout_continuation, out);
            assert(o + declared_choices_in_cases(cases_view(cases@), 0) + declared_choices(timeout_continuation@)
                =~= o + declared_choices(c@));
        },
        Contract::Let { then, .. } => collect_declared_choices(then, out),
        Contract::Assert { then, .. } => collect_declared_choices(then, out),
    }
}

fn collect_declared_choices_in_cases(cases: &Vec<Case>, out: &mut Vec<ChoiceRef>)
    ensures
        choice_refs_view(final(out)@) == choice_refs_view(old(out)@) + declared_choices_in_cases(cases_view(cases@), 0),
    decreases cases, 1nat,
{
    let ghost cv = cases_view(cases@);
    let ghost o = choice_refs_view(out@);
    proof { lemma_cases_view(cases@); }
    let mut i: usize = 0;
    while i < cases.len()
        invariant
            cv == cases_view(cases@),
            cv.len() == cases@.len(),
            forall|j: int| 0 <= j < cases@.len() ==> #[trigger] cv[j] == crate::ast::case_view(cases@[j]),
            i <= cases@.len(),
            o + declared_choices_in_cases(cv, 0) == choice_refs_view(out@) + declared_choices_in_cases(cv, i as nat),
        decreases cases@.len() - i,
    {
        let ghost before = choice_refs_view(out@);
        assert(cv[i as int] == cases@[i as int]@);
        match &cases[i] {
            Case::Hole(_) => {
                assert(declared_choice_of_case(cv[i as int]) =~= Seq::<ChoiceRefV>::empty());
            },
            Case::Case { action, then } => {
                let ghost b0 = choice_refs_view(out@);
                match action {
                    Action::Choice { id, .. } => {
                        match choice_ref(id) {
                            Some(r) => {
                                let ghost rv = r@;
                                out.push(r);
                                assert(choice_refs_view(out@) =~= b0.push(rv));
                                assert(declared_choice_of_case(cv[i as int]) =~= seq![rv]);
                            },
                            None => {
                                assert(declared_choice_of_case(cv[i as int]) =~= Seq::<ChoiceRefV>::empty());
                            },
                        }
                    },
                    _ => {
                        assert(declared_choice_of_case(cv[i as int]) =~= Seq::<ChoiceRefV>::empty());
                    },
                }
                assert(choice_refs_view(out@) =~= b0 + declared_choice_of_case(cv[i as int]));
                collect_declared_choices(then, out);
            },
        }
        assert(before + declared_choices_in_cases(cv, i as nat) =~= choice_refs_view(out@) + declared_choices_in_cases(
            cv,
            (i + 1) as nat,
        ));
        i = i + 1;
    }
}

} // verus!

verus! {

/// Ordered by name: no record's name comes before that of a record ahead of it.
pub open spec fn sorted_by_name(s: Seq<TypedSymbolV>) -> bool {
    forall|i: int, j: int| #![trigger s[i], s[j]] 0 <= i < j < s.len() ==> !text_lt(s[j].name, s[i].name)
}

proof fn lemma_insert_sorted(s: Seq<TypedSymbolV>, p: int, x: TypedSymbolV)
    requires
        sorted_by_name(s),
        0 <= p <= s.len(),
        forall|k: int| 0 <= k < p ==> text_lt(#[trigger] s[k].name, x.name),
        p < s.len() ==> !text_lt(s[p].name, x.name),
    ensures
        sorted_by_name(s.insert(p, x)),
{
    let t = s.insert(p, x);
    assert forall|i: int, j: int| 0 <= i < j < t.len() implies !text_lt(#[trigger] t[j].name, #[trigger] t[i].name) by {
        if i < p && j == p {
            assert(t[i] == s[i]);
            if text_lt(x.name, s[i].name) {
                lemma_text_lt_transitive(x.name, s[i].name, x.name);
                lemma_text_lt_irreflexive(x.name);
            }
        } else if i == p && j > p {
            assert(t[j] == s[j - 1]);
            if j - 1 > p && text_lt(s[j - 1].name, x.name) {
                assert(!text_lt(s[j - 1].name, s[p].name));
                lemma_text_lt_total(s[p].name, x.name);
                if text_lt(x.name, s[p].name) {
                    lemma_text_lt_transitive(s[j - 1].name, x.name, s[p].name);
                }
            }
        } else if i < p && j > p {
            assert(t[i] == s[i] && t[j] == s[j - 1]);
        } else if i > p {
            assert(t[i] == s[i - 1] && t[j] == s[j - 1]);
        } else {
            assert(t[i] == s[i] && t[j] == s[j]);
        }
    }
}

/// Sorts records by name (an insertion sort).
fn sort_by_name(v: Vec<TypedSymbol>) -> (r: Vec<TypedSymbol>)
    ensures
        sorted_by_name(symbols_view(r@)),
        symbols_view(r@).to_multiset() == symbols_view(v@).to_multiset(),
{
    broadcast use vstd::seq_lib::group_to_multiset_ensures, vstd::multiset::group_multiset_axioms,
        vstd::multiset::lemma_multiset_empty_len;
    let mut rest = v;
    let mut r: Vec<TypedSymbol> = Vec::new();
    assert(symbols_view(r@) =~= Seq::<TypedSymbolV>::empty());
    assert(symbols_view(r@).to_multiset() =~= Multiset::empty());
    assert(symbols_view(r@).to_multiset().add(symbols_view(rest@).to_multiset()) =~= symbols_view(v@).to_multiset());
    while rest.len() > 0
        invariant
            sorted_by_name(symbols_view(r@)),
            symbols_view(r@).to_multiset().add(symbols_view(rest@).to_multiset()) == symbols_view(v@).to_multiset(),
        decreases rest@.len(),
    {
        let ghost rest0 = rest@;
        let ghost r0 = symbols_view(r@);
        let x = rest.pop().unwrap();
        assert(symbols_view(rest0) =~= symbols_view(rest@).push(x@));
        let mut p: usize = 0;
        while p < r.len() && text_less(r[p].name.as_str(), x.name.as_str())
            invariant
                r0 == symbols_view(r@),
                p <= r@.len(),
                forall|k: int| 0 <= k < p ==> text_lt(#[trigger] r0[k].name, x@.name),
            decreases r@.len() - p,
        {
            assert(r0[p as int] == r@[p as int]@);
            p = p + 1;
        }
        proof {
            if p < r@.len() {
                assert(r0[p as int] == r@[p as int]@);
            }
            lemma_insert_sorted(r0, p as int, x@);
        }
        r.insert(p, x);
        assert(symbols_view(r@) =~= r0.insert(p as int, x@));
        proof {
            vstd::seq_lib::to_multiset_insert(r0, p as int, x@);
            vstd::seq_lib::to_multiset_build(symbols_view(rest@), x@);
        }
        assert(symbols_view(r@).to_multiset().add(symbols_view(rest@).to_multiset()) =~= r0.to_multiset().add(
            symbols_view(rest0).to_multiset(),
        ));
    }
    assert(symbols_view(rest@) =~= Seq::<TypedSymbolV>::empty());
    assert(symbols_view(rest@).to_multiset() =~= Multiset::empty());
    assert(symbols_view(r@).to_multiset() =~= symbols_view(r@).to_multiset().add(symbols_view(rest@).to_multiset()));
    r
}

} // verus!

verus! {

/// Nothing found yet, no binding in scope.
pub open spec fn empty_check_state() -> CheckState {
    CheckState {
        holes: Seq::empty(),
        params: Seq::empty(),
        errors: Seq::empty(),
        warnings: Seq::empty(),
        scopes: Seq::empty(),
    }
}

/// What checking `c` against `ctx` finds, in the order found: the contract is
/// walked from its root `$`, with the choices it declares itself in hand.
pub open spec fn check_state_of(ctx: ContextV, c: ContractV) -> CheckState {
    check_contract_spec(ctx, declared_choices(c), empty_check_state(), c, "$"@)
}

/// The result of checking `c` against `ctx`: the diagnostics in the order
/// found, each hole and parameter once, sorted by name, and readiness when
/// nothing is left open and nothing is wrong.
pub open spec fn type_check_result_is(r: TypeCheckResultV, ctx: ContextV, c: ContractV) -> bool {
    let st = check_state_of(ctx, c);
    &&& r.errors == st.errors
    &&& r.warnings == st.warnings
    &&& sorted_by_name(r.holes)
    &&& r.holes.to_multiset() == st.holes.to_multiset()
    &&& sorted_by_name(r.params)
    &&& r.params.to_multiset() == st.params.to_multiset()
    &&& r.ready_to_run == (st.errors.len() == 0 && st.holes.len() == 0 && st.params.len() == 0)
}

/// Checking records each hole once and each parameter once: no two holes of
/// the result share a name, nor do two parameters.
pub proof fn lemma_type_check_records_once(ctx: ContextV, c: ContractV)
    ensures
        unique_names(check_state_of(ctx, c).holes),
        unique_names(check_state_of(ctx, c).params),
{
    lemma_contract_scopes(ctx, declared_choices(c), empty_check_state(), c, "$"@);
}

/// A parameter used both as a timeout and as a value has conflicting
/// types: checking `When` with no case, the parameter as its timeout, and a
/// `Let` of the parameter as its continuation reports exactly that conflict,
/// where the parameter is met the second time, naming both types and both
/// places. No context changes this.
pub proof fn lemma_param_type_conflict(ctx: ContextV, name: Seq<char>, let_name: Seq<char>)
    ensures
        check_state_of(
            ctx,
            ContractV::When {
                cases: seq![],
                timeout: TimeoutV::Param(name),
                timeout_continuation: Box::new(
                    ContractV::Let { name: let_name, value: ValueV::Param(name), then: Box::new(ContractV::Close) },
                ),
            },
        ).errors == seq![
            DiagnosticV {
                path: field_path(field_path("$"@, "timeout_continuation"@), "value"@),
                message: "parameter '"@ + name + "' has conflicting inferred types: "@ + dsl_type_name(DslType::Timeout)
                    + " at "@ + field_path("$"@, "timeout"@) + " and "@ + dsl_type_name(DslType::Value) + " at "@
                    + field_path(field_path("$"@, "timeout_continuation"@), "value"@),
            },
        ],
{
    let body = ContractV::Let { name: let_name, value: ValueV::Param(name), then: Box::new(ContractV::Close) };
    let c = ContractV::When { cases: seq![], timeout: TimeoutV::Param(name), timeout_continuation: Box::new(body) };
    let st0 = empty_check_state();
    let st1 = check_cases_spec(ctx, declared_choices(c), st0, seq![], field_path("$"@, "cases"@), 0);
    assert(st1 == st0);
    let st2 = register_param(st1, name, DslType::Timeout, field_path("$"@, "timeout"@));
    assert(symbol_position(st1.params, name) is None);
    assert(st2.params == seq![TypedSymbolV { name, ty: DslType::Timeout, path: field_path("$"@, "timeout"@) }]);
    assert(symbol_position(st2.params, name) == Some(0int));
    assert(!let_defined(st2.scopes, let_name));
    let d = declared_choices(c);
    let vp = field_path(field_path("$"@, "timeout_continuation"@), "value"@);
    let st3 = check_value_spec(ctx, d, st2, ValueV::Param(name), vp);
    assert(st3.errors.len() == 1);
    let st4 = CheckState {
        scopes: st3.scopes.push(
            LetRecordV { name: let_name, path: field_path(field_path("$"@, "timeout_continuation"@), "name"@), used: false },
        ),
        ..st3
    };
    let st5 = check_contract_spec(ctx, d, st4, ContractV::Close, field_path(field_path("$"@, "timeout_continuation"@), "then"@));
    assert(st5 == st4);
    let after_let = check_contract_spec(ctx, d, st2, body, field_path("$"@, "timeout_continuation"@));
    assert(after_let.errors == st3.errors);
    assert(check_state_of(ctx, c) == after_let);
    reveal_strlit("parameter");
    reveal_strlit(" '");
    reveal_strlit("parameter '");
    assert("parameter"@ + " '"@ =~= "parameter '"@);
    let tp = field_path("$"@, "timeout"@);
    let message = "parameter '"@ + name + "' has conflicting inferred types: "@ + dsl_type_name(DslType::Timeout) + " at "@
        + tp + " and "@ + dsl_type_name(DslType::Value) + " at "@ + vp;
    assert(("parameter"@ + " '"@) + name + "' has conflicting inferred types: "@ + dsl_type_name(DslType::Timeout) + " at "@
        + tp + " and "@ + dsl_type_name(DslType::Value) + " at "@ + vp =~= message);
    assert(st3.errors =~= seq![DiagnosticV { path: vp, message }]);
}

/// `Let`s binding `names` to 1, outermost first, around `body`.
pub open spec fn nested_lets(names: Seq<Seq<char>>, body: ContractV) -> ContractV
    decreases names.len(),
{
    if names.len() == 0 {
        body
    } else {
        ContractV::Let { name: names[0], value: ValueV::Constant(1), then: Box::new(nested_lets(names.drop_first(), body)) }
    }
}

/// A payment from role `from` to role `to` of the amount bound to `name`,
/// then `Close`.
pub open spec fn pay_bound_amount(from: Seq<char>, to: Seq<char>, token: TokenRefV, name: Seq<char>) -> ContractV {
    ContractV::Pay {
        from: PartyV::Role(from),
        to: PayeeTargetV::ToParty(PartyV::Role(to)),
        token: TokenV::Token { currency_symbol: token.currency_symbol, token_name: token.token_name },
        amount: ValueV::UseValue(name),
        then: Box::new(ContractV::Close),
    }
}

proof fn lemma_nested_lets_no_error(
    ctx: ContextV,
    declared: Seq<ChoiceRefV>,
    st: CheckState,
    names: Seq<Seq<char>>,
    from: Seq<char>,
    to: Seq<char>,
    token: TokenRefV,
    path: Seq<char>,
)
    requires
        names.len() > 0,
        !ctx.require_known_definitions,
    ensures
        check_contract_spec(ctx, declared, st, nested_lets(names, pay_bound_amount(from, to, token, names.last())), path).errors
            == st.errors,
    decreases names.len(),
{
    let body = pay_bound_amount(from, to, token, names.last());
    let inner = nested_lets(names.drop_first(), body);
    let st1 = if let_defined(st.scopes, names[0]) {
        add_warning(st, path, "let binding '"@ + names[0] + "' shadows an existing binding"@)
    } else {
        st
    };
    let st2 = check_value_spec(ctx, declared, st1, ValueV::Constant(1), field_path(path, "value"@));
    let st3 = CheckState {
        scopes: st2.scopes.push(LetRecordV { name: names[0], path: field_path(path, "name"@), used: false }),
        ..st2
    };
    let tp = field_path(path, "then"@);
    let outer = nested_lets(names, body);
    assert(outer == ContractV::Let { name: names[0], value: ValueV::Constant(1), then: Box::new(inner) });
    assert(st3.errors == st.errors);
    let st4 = check_contract_spec(ctx, declared, st3, inner, tp);
    if names.len() == 1 {
        assert(names.drop_first().len() == 0);
        assert(inner == body);
        assert(innermost_let(st3.scopes, names.last()) == Some(st2.scopes.len() as int));
        let sv = check_value_spec(ctx, declared, st3, ValueV::UseValue(names.last()), field_path(tp, "amount"@));
        assert(sv.errors == st3.errors);
        assert(check_contract_spec(ctx, declared, sv, ContractV::Close, field_path(tp, "then"@)) == sv);
        assert(st4.errors == st3.errors);
    } else {
        assert(names.drop_first().last() == names.last());
        lemma_nested_lets_no_error(ctx, declared, st3, names.drop_first(), from, to, token, tp);
        assert(st4.errors == st3.errors);
    }
    assert(check_contract_spec(ctx, declared, st, outer, path).errors == st4.errors);
}

/// A `UseValue` of a name that an enclosing `Let` binds is never reported
/// as undefined: checking `Let`s of any non-empty list of names around a
/// payment of the innermost name, with nothing required to be known, finds
/// no error at all.
pub proof fn lemma_bound_use_value_checks(names: Seq<Seq<char>>, from: Seq<char>, to: Seq<char>, token: TokenRefV)
    requires
        names.len() > 0,
    ensures
        check_state_of(empty_context(), nested_lets(names, pay_bound_amount(from, to, token, names.last()))).errors.len() == 0,
{
    let c = nested_lets(names, pay_bound_amount(from, to, token, names.last()));
    lemma_nested_lets_no_error(empty_context(), declared_choices(c), empty_check_state(), names, from, to, token, "$"@);
}

/// Type-checks a contract against a context.
pub fn type_check(contract: &Contract, context: &TypeCheckContext) -> (r: TypeCheckResult)
    ensures
        type_check_result_is(r@, context@, contract@),
{
    broadcast use vstd::seq_lib::group_to_multiset_ensures;
    let mut declared: Vec<ChoiceRef> = Vec::new();
    assert(choice_refs_view(declared@) =~= Seq::<ChoiceRefV>::empty());
    collect_declared_choices(contract, &mut declared);
    assert(choice_refs_view(declared@) =~= declared_choices(contract@));
    let mut checker = Checker {
        context,
        declared,
        holes: Vec::new(),
        params: Vec::new(),
        errors: Vec::new(),
        warnings: Vec::new(),
        scopes: Vec::new(),
    };
    assert(checker.state().holes =~= Seq::<TypedSymbolV>::empty());
    assert(checker.state().params =~= Seq::<TypedSymbolV>::empty());
    assert(checker.state().errors =~= Seq::<DiagnosticV>::empty());
    assert(checker.state().warnings =~= Seq::<DiagnosticV>::empty());
    assert(checker.state().scopes =~= Seq::<LetRecordV>::empty());
    checker.check_contract(contract, "$");
    let ghost st = checker.state();
    assert(st == check_state_of(context@, contract@));
    let Checker { holes, params, errors, warnings, .. } = checker;
    let hole_count = holes.len();
    let param_count = params.len();
    let holes = sort_by_name(holes);
    let params = sort_by_name(params);
    let ready_to_run = errors.len() == 0 && hole_count == 0 && param_count == 0;
    TypeCheckResult { ready_to_run, holes, params, errors, warnings }
}

/// Widening the context never adds a type error: when the wider context
/// asks for known definitions only where the narrower one does, and knows
/// every account, party, token and choice that the narrower one knows, the
/// errors of checking `c` against it are a subsequence of those against the
/// narrower one, and no kind of error grows in number.
pub proof fn lemma_type_check_context_monotone(
    narrow: ContextV,
    wide: ContextV,
    c: ContractV,
    rn: TypeCheckResultV,
    rw: TypeCheckResultV,
)
    requires
        crate::known::knows_at_least(wide, narrow),
        type_check_result_is(rn, narrow, c),
        type_check_result_is(rw, wide, c),
    ensures
        crate::known::is_subsequence(rw.errors, rn.errors),
        rw.warnings == rn.warnings,
        rw.holes.to_multiset() == rn.holes.to_multiset(),
        rw.params.to_multiset() == rn.params.to_multiset(),
        rn.ready_to_run ==> rw.ready_to_run,
        forall|p: spec_fn(DiagnosticV) -> bool|
            #![trigger crate::known::count_where(rw.errors, p)]
            crate::known::count_where(rw.errors, p) <= crate::known::count_where(rn.errors, p),
{
    crate::known::lemma_wider_context_fewer_errors(narrow, wide, c);
}

/// A contract with nothing left open where the simulator looks: no hole in
/// place of a contract or a case, and every timeout a POSIX time.
pub open spec fn concrete_contract(c: ContractV) -> bool
    decreases c, 0nat,
{
    match c {
        ContractV::Hole(_) => false,
        ContractV::Close => true,
        ContractV::Pay { then, .. } => concrete_contract(*then),
        ContractV::If { then, else_, .. } => concrete_contract(*then) && concrete_contract(*else_),
        ContractV::When { cases, timeout, timeout_continuation } => {
            &&& timeout is PosixTime
            &&& concrete_cases(cases, 0)
            &&& concrete_contract(*timeout_continuation)
        },
        ContractV::Let { then, .. } => concrete_contract(*then),
        ContractV::Assert { then, .. } => concrete_contract(*then),
    }
}

pub open spec fn concrete_case(c: CaseV) -> bool
    decreases c, 0nat,
{
    match c {
        CaseV::Hole(_) => false,
        CaseV::Case { then, .. } => concrete_contract(*then),
    }
}

/// The cases from position `i` on are all concrete.
pub open spec fn concrete_cases(cases: Seq<CaseV>, i: nat) -> bool
    decreases cases, cases.len() - i,
{
    if i >= cases.len() {
        true
    } else {
        concrete_case(cases[i as int]) && concrete_cases(cases, i + 1)
    }
}

/// Something is recorded as open: a hole or a parameter.
pub open spec fn has_open(st: CheckState) -> bool {
    st.holes.len() > 0 || st.params.len() > 0
}

proof fn lemma_case_open(ctx: ContextV, declared: Seq<ChoiceRefV>, st: CheckState, c: CaseV, path: Seq<char>)
    ensures
        !concrete_case(c) ==> has_open(check_case_spec(ctx, declared, st, c, path)),
    decreases c, 0nat,
{
    broadcast use lemma_register_grows;
    if let CaseV::Case { action, then } = c {
        let st1 = check_action_spec(ctx, declared, st, action, field_path(path, "action"@));
        lemma_contract_open(ctx, declared, st1, *then, field_path(path, "then"@));
    }
}

proof fn lemma_cases_open(
    ctx: ContextV,
    declared: Seq<ChoiceRefV>,
    st: CheckState,
    cases: Seq<CaseV>,
    path: Seq<char>,
    i: nat,
)
    ensures
        !concrete_cases(cases, i) ==> has_open(check_cases_spec(ctx, declared, st, cases, path, i)),
    decreases cases, cases.len() - i,
{
    if i < cases.len() {
        lemma_case_open(ctx, declared, st, cases[i as int], index_path(path, i));
        let st1 = check_case_spec(ctx, declared, st, cases[i as int], index_path(path, i));
        lemma_cases_scopes(ctx, declared, st1, cases, path, i + 1);
        lemma_cases_open(ctx, declared, st1, cases, path, i + 1);
    }
}

proof fn lemma_contract_open(ctx: ContextV, declared: Seq<ChoiceRefV>, st: CheckState, c: ContractV, path: Seq<char>)
    ensures
        !concrete_contract(c) ==> has_open(check_contract_spec(ctx, declared, st, c, path)),
    decreases c, 0nat,
{
    broadcast use lemma_register_grows;
    match c {
        ContractV::Pay { from, to, token, amount, then } => {
            let st1 = check_party_spec(ctx, st, from, field_path(path, "from"@), PartyUsage::AccountOwner);
            let st2 = check_payee_spec(ctx, st1, to, field_path(path, "to"@));
            let st3 = check_token_spec(ctx, st2, token, field_path(path, "token"@));
            let st4 = check_value_spec(ctx, declared, st3, amount, field_path(path, "amount"@));
            lemma_contract_open(ctx, declared, st4, *then, field_path(path, "then"@));
        },
        ContractV::If { cond, then, else_ } => {
            let st1 = check_observation_spec(ctx, declared, st, cond, field_path(path, "cond"@));
            lemma_contract_open(ctx, declared, st1, *then, field_path(path, "then"@));
            let st2 = check_contract_spec(ctx, declared, st1, *then, field_path(path, "then"@));
            lemma_contract_scopes(ctx, declared, st2, *else_, field_path(path, "else"@));
            lemma_contract_open(ctx, declared, st2, *else_, field_path(path, "else"@));
        },
        ContractV::When { cases, timeout, timeout_continuation } => {
            lemma_cases_open(ctx, declared, st, cases, field_path(path, "cases"@), 0);
            let st1 = check_cases_spec(ctx, declared, st, cases, field_path(path, "cases"@), 0);
            lemma_timeout_once(st1, timeout, field_path(path, "timeout"@));
            let st2 = check_timeout_spec(st1, timeout, field_path(path, "timeout"@));
            lemma_contract_scopes(ctx, declared, st2, *timeout_continuation, field_path(path, "timeout_continuation"@));
            lemma_contract_open(ctx, declared, st2, *timeout_continuation, field_path(path, "timeout_continuation"@));
        },
        ContractV::Let { name, value, then } => {
            let st1 = if let_defined(st.scopes, name) {
                add_warning(st, path, "let binding '"@ + name + "' shadows an existing binding"@)
            } else {
                st
            };
            let st2 = check_value_spec(ctx, declared, st1, value, field_path(path, "value"@));
            let st3 = CheckState {
                scopes: st2.scopes.push(LetRecordV { name, path: field_path(path, "name"@), used: false }),
                ..st2
            };
            lemma_contract_open(ctx, declared, st3, *then, field_path(path, "then"@));
        },
        ContractV::Assert { cond, then } => {
            let st1 = check_observation_spec(ctx, declared, st, cond, field_path(path, "cond"@));
            lemma_contract_open(ctx, declared, st1, *then, field_path(path, "then"@));
        },
        _ => {},
    }
}

/// A contract in which checking finds no hole and no parameter is concrete:
/// no hole stands for a contract or a case, and every timeout is a POSIX
/// time.
pub proof fn lemma_closed_is_concrete(ctx: ContextV, c: ContractV)
    requires
        check_state_of(ctx, c).holes.len() == 0,
        check_state_of(ctx, c).params.len() == 0,
    ensures
        concrete_contract(c),
{
    lemma_contract_open(ctx, declared_choices(c), empty_check_state(), c, "$"@);
}

} // verus!
