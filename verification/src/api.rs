//! The service's requests, and how a request becomes the library's values:
//! integers from numbers or decimal texts, a simulation state, a
//! transaction, and a type-checking context.
use crate::ast::{ChoiceId, ChoiceIdV, Party, PartyV, Token, TokenV};
use crate::assoc::SortedMap;
use crate::integer::{decimal_integer, Integer};
use crate::keys::{AccountId, AccountIdV};
use crate::parser::join3;
use crate::sim::{SimInput, SimInputV, SimState, SimStateV, SimTransaction, SimTransactionV, inputs_view};
use crate::text::{field, field_path, index, index_path};
use crate::typecheck::{ChoiceRef, ChoiceRefV, ContextV, PartyRef, PartyRefV, TokenRef, TokenRefV, TypeCheckContext};
use crate::analyze::AuthorizationAction;
use vstd::prelude::*;

verus! {

/// The service keeps no state between requests.
#[derive(Debug, Clone, Copy, PartialEq, Eq)]
pub struct AppState;

/// An integer in a request: a JSON number, a decimal text, or absent.
#[derive(Debug, PartialEq, Eq)]
pub enum BigIntValue {
    Integer(i64),
    String(String),
    Missing,
}

/// The integer a request value stands for; an absent value is zero.
pub open spec fn big_int_value(v: BigIntValue) -> Result<int, Seq<char>> {
    match v {
        BigIntValue::Integer(i) => Ok(i as int),
        BigIntValue::String(s) => match decimal_integer(s@) {
            Some(n) => Ok(n),
            None => Err("invalid integer '"@ + s@ + "'"@),
        },
        BigIntValue::Missing => Ok(0),
    }
}

impl BigIntValue {
    /// The integer this value stands for, or why it stands for none.
    pub fn into_bigint(&self) -> (r: Result<Integer, String>)
        ensures
            match r {
                Ok(v) => big_int_value(*self) == Ok::<int, Seq<char>>(v@),
                Err(e) => big_int_value(*self) == Err::<int, Seq<char>>(e@),
            },
    {
        match self {
            BigIntValue::Integer(i) => Ok(Integer::from_i64(*i)),
            BigIntValue::String(s) => match Integer::parse_decimal(s.as_str()) {
                Some(v) => Ok(v),
                None => Err(join3("invalid integer '", s.as_str(), "'")),
            },
            BigIntValue::Missing => Ok(Integer::zero()),
        }
    }
}

/// The default of a request's `min_time`.
pub fn zero() -> (r: BigIntValue)
    ensures
        r == BigIntValue::Integer(0),
{
    BigIntValue::Integer(0)
}

/// The default node budget of an analysis request.
pub fn default_counterexample_bound() -> (r: usize)
    ensures
        r == 512,
{
    512
}

#[derive(Debug, PartialEq, Eq)]
pub struct AccountBalanceRequest {
    pub owner: Party,
    pub token: Token,
    pub amount: BigIntValue,
}

#[derive(Debug, PartialEq, Eq)]
pub struct ChoiceValueRequest {
    pub id: ChoiceId,
    pub value: BigIntValue,
}

/// A state in a request. Bound values are listed in key order.
#[derive(Debug, PartialEq, Eq)]
pub struct SimulateStateRequest {
    pub min_time: BigIntValue,
    pub accounts: Vec<AccountBalanceRequest>,
    pub choices: Vec<ChoiceValueRequest>,
    pub bound_values: Vec<(String, BigIntValue)>,
}

impl Default for SimulateStateRequest {
    fn default() -> (r: Self)
        ensures
            r.min_time == BigIntValue::Integer(0),
            r.accounts@.len() == 0,
            r.choices@.len() == 0,
            r.bound_values@.len() == 0,
    {
        SimulateStateRequest { min_time: zero(), accounts: Vec::new(), choices: Vec::new(), bound_values: Vec::new() }
    }
}

#[derive(Debug, PartialEq, Eq)]
pub enum SimInputRequest {
    Deposit { into: Party, by: Party, token: Token, amount: BigIntValue },
    Choice { id: ChoiceId, value: BigIntValue },
    Notify,
}

#[derive(Debug, PartialEq, Eq)]
pub struct SimulateTxRequest {
    pub interval_start: BigIntValue,
    pub interval_end: BigIntValue,
    pub inputs: Vec<SimInputRequest>,
}

#[derive(Debug, PartialEq, Eq)]
pub struct SimulateStepRequest {
    pub contract_yaml: String,
    pub state: SimulateStateRequest,
    pub transaction: SimulateTxRequest,
    pub trace: bool,
}

#[derive(Debug, PartialEq, Eq)]
pub struct SimulatePreviewRequest {
    pub contract_yaml: String,
    pub state: SimulateStateRequest,
    pub interval_start: BigIntValue,
    pub interval_end: BigIntValue,
}

/// Keyed integers read in order: the first value that stands for no integer
/// refuses the whole, and a later key replaces an earlier equal one.
pub open spec fn insert_all<K>(entries: Seq<(K, BigIntValue)>) -> Result<Map<K, int>, Seq<char>>
    decreases entries.len(),
{
    if entries.len() == 0 {
        Ok(Map::empty())
    } else {
        match insert_all(entries.drop_last()) {
            Err(e) => Err(e),
            Ok(m) => match big_int_value(entries.last().1) {
                Err(e) => Err(e),
                Ok(v) => Ok(m.insert(entries.last().0, v)),
            },
        }
    }
}

proof fn lemma_insert_all_err<K>(s: Seq<(K, BigIntValue)>, k: int, e: Seq<char>)
    requires
        0 <= k <= s.len(),
        insert_all(s.subrange(0, k)) == Err::<Map<K, int>, Seq<char>>(e),
    ensures
        insert_all(s) == Err::<Map<K, int>, Seq<char>>(e),
    decreases s.len() - k,
{
    if k < s.len() {
        assert(s.subrange(0, k + 1).drop_last() =~= s.subrange(0, k));
        lemma_insert_all_err(s, k + 1, e);
    } else {
        assert(s.subrange(0, k) =~= s);
    }
}

pub open spec fn account_entries(accounts: Seq<AccountBalanceRequest>) -> Seq<(AccountIdV, BigIntValue)> {
    accounts.map_values(|a: AccountBalanceRequest| (AccountIdV { owner: a.owner@, token: a.token@ }, a.amount))
}

pub open spec fn choice_entries(choices: Seq<ChoiceValueRequest>) -> Seq<(ChoiceIdV, BigIntValue)> {
    choices.map_values(|c: ChoiceValueRequest| (c.id@, c.value))
}

pub open spec fn bound_entries(values: Seq<(String, BigIntValue)>) -> Seq<(Seq<char>, BigIntValue)> {
    values.map_values(|b: (String, BigIntValue)| (b.0@, b.1))
}

/// The state a request describes: accounts first, then choices, then bound
/// values, then the minimum time; the first bad integer is the error.
pub open spec fn state_request_spec(r: SimulateStateRequest) -> Result<SimStateV, Seq<char>> {
    match insert_all(account_entries(r.accounts@)) {
        Err(e) => Err(e),
        Ok(accounts) => match insert_all(choice_entries(r.choices@)) {
            Err(e) => Err(e),
            Ok(choices) => match insert_all(bound_entries(r.bound_values@)) {
                Err(e) => Err(e),
                Ok(bound_values) => match big_int_value(r.min_time) {
                    Err(e) => Err(e),
                    Ok(min_time) => Ok(SimStateV { accounts, choices, bound_values, min_time }),
                },
            },
        },
    }
}

fn map_accounts(accounts: &Vec<AccountBalanceRequest>) -> (r: Result<SortedMap<AccountId>, String>)
    ensures
        match r {
            Ok(m) => insert_all(account_entries(accounts@)) == Ok::<Map<AccountIdV, int>, Seq<char>>(m@),
            Err(e) => insert_all(account_entries(accounts@)) == Err::<Map<AccountIdV, int>, Seq<char>>(e@),
        },
{
    let ghost s = account_entries(accounts@);
    let mut m: SortedMap<AccountId> = SortedMap::new();
    let mut i: usize = 0;
    assert(s.subrange(0, 0) =~= Seq::<(AccountIdV, BigIntValue)>::empty());
    while i < accounts.len()
        invariant
            s == account_entries(accounts@),
            i <= accounts@.len(),
            insert_all(s.subrange(0, i as int)) == Ok::<Map<AccountIdV, int>, Seq<char>>(m@),
        decreases accounts@.len() - i,
    {
        let a = &accounts[i];
        assert(s.subrange(0, i + 1).drop_last() =~= s.subrange(0, i as int));
        assert(s.subrange(0, i + 1).last() == s[i as int]);
        match a.amount.into_bigint() {
            Ok(v) => {
                m.insert(AccountId { owner: a.owner.duplicate(), token: a.token.duplicate() }, v);
            },
            Err(e) => {
                proof { lemma_insert_all_err(s, i + 1, e@); }
                return Err(e);
            },
        }
        i = i + 1;
    }
    assert(s.subrange(0, i as int) =~= s);
    Ok(m)
}

fn map_choices(choices: &Vec<ChoiceValueRequest>) -> (r: Result<SortedMap<ChoiceId>, String>)
    ensures
        match r {
            Ok(m) => insert_all(choice_entries(choices@)) == Ok::<Map<ChoiceIdV, int>, Seq<char>>(m@),
            Err(e) => insert_all(choice_entries(choices@)) == Err::<Map<ChoiceIdV, int>, Seq<char>>(e@),
        },
{
    let ghost s = choice_entries(choices@);
    let mut m: SortedMap<ChoiceId> = SortedMap::new();
    let mut i: usize = 0;
    assert(s.subrange(0, 0) =~= Seq::<(ChoiceIdV, BigIntValue)>::empty());
    while i < choices.len()
        invariant
            s == choice_entries(choices@),
            i <= choices@.len(),
            insert_all(s.subrange(0, i as int)) == Ok::<Map<ChoiceIdV, int>, Seq<char>>(m@),
        decreases choices@.len() - i,
    {
        let c = &choices[i];
        assert(s.subrange(0, i + 1).drop_last() =~= s.subrange(0, i as int));
        assert(s.subrange(0, i + 1).last() == s[i as int]);
        match c.value.into_bigint() {
            Ok(v) => {
                m.insert(c.id.duplicate(), v);
            },
            Err(e) => {
                proof { lemma_insert_all_err(s, i + 1, e@); }
                return Err(e);
            },
        }
        i = i + 1;
    }
    assert(s.subrange(0, i as int) =~= s);
    Ok(m)
}

fn map_bound_values(values: &Vec<(String, BigIntValue)>) -> (r: Result<SortedMap<String>, String>)
    ensures
        match r {
            Ok(m) => insert_all(bound_entries(values@)) == Ok::<Map<Seq<char>, int>, Seq<char>>(m@),
            Err(e) => insert_all(bound_entries(values@)) == Err::<Map<Seq<char>, int>, Seq<char>>(e@),
        },
{
    let ghost s = bound_entries(values@);
    let mut m: SortedMap<String> = SortedMap::new();
    let mut i: usize = 0;
    assert(s.subrange(0, 0) =~= Seq::<(Seq<char>, BigIntValue)>::empty());
    while i < values.len()
        invariant
            s == bound_entries(values@),
            i <= values@.len(),
            insert_all(s.subrange(0, i as int)) == Ok::<Map<Seq<char>, int>, Seq<char>>(m@),
        decreases values@.len() - i,
    {
        let b = &values[i];
        assert(s.subrange(0, i + 1).drop_last() =~= s.subrange(0, i as int));
        assert(s.subrange(0, i + 1).last() == s[i as int]);
        match b.1.into_bigint() {
            Ok(v) => {
                m.insert(b.0.clone(), v);
            },
            Err(e) => {
                proof { lemma_insert_all_err(s, i + 1, e@); }
                return Err(e);
            },
        }
        i = i + 1;
    }
    assert(s.subrange(0, i as int) =~= s);
    Ok(m)
}

/// The simulation state that a request describes.
pub fn map_state_request(request: SimulateStateRequest) -> (r: Result<SimState, String>)
    ensures
        match r {
            Ok(s) => state_request_spec(request) == Ok::<SimStateV, Seq<char>>(s@),
            Err(e) => state_request_spec(request) == Err::<SimStateV, Seq<char>>(e@),
        },
{
    let accounts = map_accounts(&request.accounts)?;
    let choices = map_choices(&request.choices)?;
    let bound_values = map_bound_values(&request.bound_values)?;
    let min_time = request.min_time.into_bigint()?;
    Ok(SimState { accounts, choices, bound_values, min_time })
}

/// The inputs a request lists, in order; the first bad integer is the error.
pub open spec fn inputs_request_spec(inputs: Seq<SimInputRequest>) -> Result<Seq<SimInputV>, Seq<char>>
    decreases inputs.len(),
{
    if inputs.len() == 0 {
        Ok(Seq::empty())
    } else {
        match inputs_request_spec(inputs.drop_last()) {
            Err(e) => Err(e),
            Ok(done) => match input_request_spec(inputs.last()) {
                Err(e) => Err(e),
                Ok(i) => Ok(done.push(i)),
            },
        }
    }
}

pub open spec fn input_request_spec(input: SimInputRequest) -> Result<SimInputV, Seq<char>> {
    match input {
        SimInputRequest::Deposit { into, by, token, amount } => match big_int_value(amount) {
            Err(e) => Err(e),
            Ok(a) => Ok(SimInputV::Deposit { into: into@, by: by@, token: token@, amount: a }),
        },
        SimInputRequest::Choice { id, value } => match big_int_value(value) {
            Err(e) => Err(e),
            Ok(v) => Ok(SimInputV::Choice { id: id@, value: v }),
        },
        SimInputRequest::Notify => Ok(SimInputV::Notify),
    }
}

/// The transaction a request describes: its inputs first, then the start
/// and the end of its interval.
pub open spec fn tx_request_spec(r: SimulateTxRequest) -> Result<SimTransactionV, Seq<char>> {
    match inputs_request_spec(r.inputs@) {
        Err(e) => Err(e),
        Ok(inputs) => match big_int_value(r.interval_start) {
            Err(e) => Err(e),
            Ok(interval_start) => match big_int_value(r.interval_end) {
                Err(e) => Err(e),
                Ok(interval_end) => Ok(SimTransactionV { interval_start, interval_end, inputs }),
            },
        },
    }
}

proof fn lemma_inputs_err(s: Seq<SimInputRequest>, k: int, e: Seq<char>)
    requires
        0 <= k <= s.len(),
        inputs_request_spec(s.subrange(0, k)) == Err::<Seq<SimInputV>, Seq<char>>(e),
    ensures
        inputs_request_spec(s) == Err::<Seq<SimInputV>, Seq<char>>(e),
    decreases s.len() - k,
{
    if k < s.len() {
        assert(s.subrange(0, k + 1).drop_last() =~= s.subrange(0, k));
        lemma_inputs_err(s, k + 1, e);
    } else {
        assert(s.subrange(0, k) =~= s);
    }
}

fn map_input_request(input: &SimInputRequest) -> (r: Result<SimInput, String>)
    ensures
        match r {
            Ok(i) => input_request_spec(*input) == Ok::<SimInputV, Seq<char>>(i@),
            Err(e) => input_request_spec(*input) == Err::<SimInputV, Seq<char>>(e@),
        },
{
    match input {
        SimInputRequest::Deposit { into, by, token, amount } => {
            let amount = amount.into_bigint()?;
            Ok(SimInput::Deposit { into: into.duplicate(), by: by.duplicate(), token: token.duplicate(), amount })
        },
        SimInputRequest::Choice { id, value } => {
            let value = value.into_bigint()?;
            Ok(SimInput::Choice { id: id.duplicate(), value })
        },
        SimInputRequest::Notify => Ok(SimInput::Notify),
    }
}

/// The transaction that a request describes.
pub fn map_tx_request(request: SimulateTxRequest) -> (r: Result<SimTransaction, String>)
    ensures
        match r {
            Ok(t) => tx_request_spec(request) == Ok::<SimTransactionV, Seq<char>>(t@),
            Err(e) => tx_request_spec(request) == Err::<SimTransactionV, Seq<char>>(e@),
        },
{
    let ghost s = request.inputs@;
    let mut inputs: Vec<SimInput> = Vec::new();
    let mut i: usize = 0;
    assert(s.subrange(0, 0) =~= Seq::<SimInputRequest>::empty());
    assert(inputs_view(inputs@) =~= Seq::<SimInputV>::empty());
    while i < request.inputs.len()
        invariant
            s == request.inputs@,
            i <= s.len(),
            inputs_request_spec(s.subrange(0, i as int)) == Ok::<Seq<SimInputV>, Seq<char>>(inputs_view(inputs@)),
        decreases s.len() - i,
    {
        assert(s.subrange(0, i + 1).drop_last() =~= s.subrange(0, i as int));
        assert(s.subrange(0, i + 1).last() == s[i as int]);
        match map_input_request(&request.inputs[i]) {
            Ok(mapped) => {
                let ghost before = inputs@;
                inputs.push(mapped);
                assert(inputs@.drop_last() =~= before);
                assert(inputs_view(inputs@) =~= inputs_view(before).push(inputs@.last()@));
            },
            Err(e) => {
                proof { lemma_inputs_err(s, i + 1, e@); }
                return Err(e);
            },
        }
        i = i + 1;
    }
    assert(s.subrange(0, i as int) =~= s);
    let interval_start = request.interval_start.into_bigint()?;
    let interval_end = request.interval_end.into_bigint()?;
    Ok(SimTransaction { interval_start, interval_end, inputs })
}

/// What a type-check explanation may assume to be known.
#[derive(Debug, PartialEq, Eq)]
pub struct TypecheckExplainContextRequest {
    pub require_known_definitions: bool,
    pub known_accounts: Vec<Party>,
    pub known_parties: Vec<Party>,
    pub known_tokens: Vec<Token>,
    pub known_choices: Vec<ChoiceId>,
}

impl Default for TypecheckExplainContextRequest {
    fn default() -> (r: Self)
        ensures
            !r.require_known_definitions,
            r.known_accounts@.len() == 0,
            r.known_parties@.len() == 0,
            r.known_tokens@.len() == 0,
            r.known_choices@.len() == 0,
    {
        TypecheckExplainContextRequest {
            require_known_definitions: false,
            known_accounts: Vec::new(),
            known_parties: Vec::new(),
            known_tokens: Vec::new(),
            known_choices: Vec::new(),
        }
    }
}

#[derive(Debug, PartialEq, Eq)]
pub struct TypecheckExplainRequest {
    pub contract_yaml: String,
    pub context: TypecheckExplainContextRequest,
}

/// Where a context definition is not concrete, and what was found there.
#[derive(Debug, PartialEq, Eq)]
pub struct ContextMapError {
    pub path: String,
    pub message: String,
}

pub struct ContextMapErrorV {
    pub path: Seq<char>,
    pub message: Seq<char>,
}

impl View for ContextMapError {
    type V = ContextMapErrorV;

    open spec fn view(&self) -> ContextMapErrorV {
        ContextMapErrorV { path: self.path@, message: self.message@ }
    }
}

pub open spec fn not_concrete<R>(path: Seq<char>, what: Seq<char>, name: Seq<char>) -> Result<R, ContextMapErrorV> {
    Err(ContextMapErrorV { path, message: "context definitions must be concrete; found "@ + what + "'?"@ + name + "'"@ })
}

pub open spec fn party_ref_spec(p: PartyV, path: Seq<char>) -> Result<PartyRefV, ContextMapErrorV> {
    match p {
        PartyV::Role(n) => Ok(PartyRefV::Role(n)),
        PartyV::Address(n) => Ok(PartyRefV::Address(n)),
        PartyV::Hole(n) => not_concrete(path, "hole "@, n),
    }
}

pub open spec fn token_ref_spec(t: TokenV, path: Seq<char>) -> Result<TokenRefV, ContextMapErrorV> {
    match t {
        TokenV::Token { currency_symbol, token_name } => Ok(TokenRefV { currency_symbol, token_name }),
        TokenV::Hole(n) => not_concrete(path, "token hole "@, n),
    }
}

pub open spec fn choice_ref_spec(c: ChoiceIdV, path: Seq<char>) -> Result<ChoiceRefV, ContextMapErrorV> {
    match c {
        ChoiceIdV::ChoiceId { name, party } => match party_ref_spec(party, field_path(path, "party"@)) {
            Ok(p) => Ok(ChoiceRefV { name, party: p }),
            Err(e) => Err(e),
        },
        ChoiceIdV::Hole(n) => not_concrete(path, "choice hole "@, n),
    }
}

/// The definitions of a list, each read at `base[i]`; the first that is not
/// concrete is the error.
pub open spec fn refs_from<A, R>(items: Seq<A>, base: Seq<char>, f: spec_fn(A, Seq<char>) -> Result<R, ContextMapErrorV>) -> Result<Seq<R>, ContextMapErrorV>
    decreases items.len(),
{
    if items.len() == 0 {
        Ok(Seq::empty())
    } else {
        match refs_from(items.drop_last(), base, f) {
            Err(e) => Err(e),
            Ok(done) => match f(items.last(), index_path(base, (items.len() - 1) as nat)) {
                Err(e) => Err(e),
                Ok(r) => Ok(done.push(r)),
            },
        }
    }
}

proof fn lemma_refs_err<A, R>(s: Seq<A>, base: Seq<char>, f: spec_fn(A, Seq<char>) -> Result<R, ContextMapErrorV>, k: int, e: ContextMapErrorV)
    requires
        0 <= k <= s.len(),
        refs_from(s.subrange(0, k), base, f) == Err::<Seq<R>, ContextMapErrorV>(e),
    ensures
        refs_from(s, base, f) == Err::<Seq<R>, ContextMapErrorV>(e),
    decreases s.len() - k,
{
    if k < s.len() {
        assert(s.subrange(0, k + 1).drop_last() =~= s.subrange(0, k));
        lemma_refs_err(s, base, f, k + 1, e);
    } else {
        assert(s.subrange(0, k) =~= s);
    }
}

pub open spec fn party_refs_of(ps: Seq<Party>, base: Seq<char>) -> Result<Seq<PartyRefV>, ContextMapErrorV> {
    refs_from(ps, base, |p: Party, path: Seq<char>| party_ref_spec(p@, path))
}

pub open spec fn token_refs_of(ts: Seq<Token>, base: Seq<char>) -> Result<Seq<TokenRefV>, ContextMapErrorV> {
    refs_from(ts, base, |t: Token, path: Seq<char>| token_ref_spec(t@, path))
}

pub open spec fn choice_refs_of(cs: Seq<ChoiceId>, base: Seq<char>) -> Result<Seq<ChoiceRefV>, ContextMapErrorV> {
    refs_from(cs, base, |c: ChoiceId, path: Seq<char>| choice_ref_spec(c@, path))
}

/// The context a request describes: accounts, parties, tokens, choices, in
/// that order; the first definition that is not concrete is the error.
pub open spec fn context_request_spec(r: TypecheckExplainContextRequest) -> Result<ContextV, ContextMapErrorV> {
    match party_refs_of(r.known_accounts@, "$.context.known_accounts"@) {
        Err(e) => Err(e),
        Ok(known_accounts) => match party_refs_of(r.known_parties@, "$.context.known_parties"@) {
            Err(e) => Err(e),
            Ok(known_parties) => match token_refs_of(r.known_tokens@, "$.context.known_tokens"@) {
                Err(e) => Err(e),
                Ok(known_tokens) => match choice_refs_of(r.known_choices@, "$.context.known_choices"@) {
                    Err(e) => Err(e),
                    Ok(known_choices) => Ok(ContextV {
                        known_accounts,
                        known_parties,
                        known_tokens,
                        known_choices,
                        require_known_definitions: r.require_known_definitions,
                    }),
                },
            },
        },
    }
}

fn context_error(path: String, what: &str, name: &str) -> (r: ContextMapError)
    ensures
        r@.path == path@,
        r@.message == "context definitions must be concrete; found "@ + what@ + "'?"@ + name@ + "'"@,
{
    let mut message = String::from_str("context definitions must be concrete; found ");
    message.append(what);
    message.append("'?");
    message.append(name);
    message.append("'");
    proof { reveal_strlit("context definitions must be concrete; found "); reveal_strlit("'?"); reveal_strlit("'"); }
    ContextMapError { path, message }
}

pub fn party_ref_from_request(party: &Party, path: &str) -> (r: Result<PartyRef, ContextMapError>)
    ensures
        match r {
            Ok(p) => party_ref_spec(party@, path@) == Ok::<PartyRefV, ContextMapErrorV>(p@),
            Err(e) => party_ref_spec(party@, path@) == Err::<PartyRefV, ContextMapErrorV>(e@),
        },
{
    match party {
        Party::Role(name) => Ok(PartyRef::Role(name.clone())),
        Party::Address(name) => Ok(PartyRef::Address(name.clone())),
        Party::Hole(name) => {
            let e = context_error(String::from_str(path), "hole ", name.as_str());
            proof { reveal_strlit("hole "); }
            Err(e)
        },
    }
}

pub fn token_ref_from_request(token: &Token, path: &str) -> (r: Result<TokenRef, ContextMapError>)
    ensures
        match r {
            Ok(t) => token_ref_spec(token@, path@) == Ok::<TokenRefV, ContextMapErrorV>(t@),
            Err(e) => token_ref_spec(token@, path@) == Err::<TokenRefV, ContextMapErrorV>(e@),
        },
{
    match token {
        Token::Token { currency_symbol, token_name } => Ok(
            TokenRef { currency_symbol: currency_symbol.clone(), token_name: token_name.clone() },
        ),
        Token::Hole(name) => {
            let e = context_error(String::from_str(path), "token hole ", name.as_str());
            proof { reveal_strlit("token hole "); }
            Err(e)
        },
    }
}

pub fn choice_ref_from_request(choice: &ChoiceId, path: &str) -> (r: Result<ChoiceRef, ContextMapError>)
    ensures
        match r {
            Ok(c) => choice_ref_spec(choice@, path@) == Ok::<ChoiceRefV, ContextMapErrorV>(c@),
            Err(e) => choice_ref_spec(choice@, path@) == Err::<ChoiceRefV, ContextMapErrorV>(e@),
        },
{
    match choice {
        ChoiceId::ChoiceId { name, party } => {
            let party_path = field(path, "party");
            proof { reveal_strlit("party"); }
            let party = party_ref_from_request(party, party_path.as_str())?;
            Ok(ChoiceRef { name: name.clone(), party })
        },
        ChoiceId::Hole(name) => {
            let e = context_error(String::from_str(path), "choice hole ", name.as_str());
            proof { reveal_strlit("choice hole "); }
            Err(e)
        },
    }
}

pub(crate) fn party_refs_from_request(parties: &Vec<Party>, base: &str) -> (r: Result<Vec<PartyRef>, ContextMapError>)
    ensures
        match r {
            Ok(v) => party_refs_of(parties@, base@) == Ok::<Seq<PartyRefV>, ContextMapErrorV>(v@.map_values(|p: PartyRef| p@)),
            Err(e) => party_refs_of(parties@, base@) == Err::<Seq<PartyRefV>, ContextMapErrorV>(e@),
        },
{
    let ghost f = |p: Party, path: Seq<char>| party_ref_spec(p@, path);
    let ghost s = parties@;
    let mut out: Vec<PartyRef> = Vec::new();
    let mut i: usize = 0;
    assert(s.subrange(0, 0) =~= Seq::<Party>::empty());
    assert(out@.map_values(|p: PartyRef| p@) =~= Seq::<PartyRefV>::empty());
    while i < parties.len()
        invariant
            s == parties@,
            f == (|p: Party, path: Seq<char>| party_ref_spec(p@, path)),
            i <= s.len(),
            refs_from(s.subrange(0, i as int), base@, f) == Ok::<Seq<PartyRefV>, ContextMapErrorV>(out@.map_values(|p: PartyRef| p@)),
        decreases s.len() - i,
    {
        assert(s.subrange(0, i + 1).drop_last() =~= s.subrange(0, i as int));
        assert(s.subrange(0, i + 1).last() == s[i as int]);
        let path = index(base, i);
        match party_ref_from_request(&parties[i], path.as_str()) {
            Ok(p) => {
                let ghost before = out@;
                out.push(p);
                assert(out@.map_values(|p: PartyRef| p@) =~= before.map_values(|p: PartyRef| p@).push(out@.last()@));
            },
            Err(e) => {
                proof { lemma_refs_err(s, base@, f, i + 1, e@); }
                return Err(e);
            },
        }
        i = i + 1;
    }
    assert(s.subrange(0, i as int) =~= s);
    Ok(out)
}

pub(crate) fn token_refs_from_request(tokens: &Vec<Token>, base: &str) -> (r: Result<Vec<TokenRef>, ContextMapError>)
    ensures
        match r {
            Ok(v) => token_refs_of(tokens@, base@) == Ok::<Seq<TokenRefV>, ContextMapErrorV>(v@.map_values(|t: TokenRef| t@)),
            Err(e) => token_refs_of(tokens@, base@) == Err::<Seq<TokenRefV>, ContextMapErrorV>(e@),
        },
{
    let ghost f = |t: Token, path: Seq<char>| token_ref_spec(t@, path);
    let ghost s = tokens@;
    let mut out: Vec<TokenRef> = Vec::new();
    let mut i: usize = 0;
    assert(s.subrange(0, 0) =~= Seq::<Token>::empty());
    assert(out@.map_values(|t: TokenRef| t@) =~= Seq::<TokenRefV>::empty());
    while i < tokens.len()
        invariant
            s == tokens@,
            f == (|t: Token, path: Seq<char>| token_ref_spec(t@, path)),
            i <= s.len(),
            refs_from(s.subrange(0, i as int), base@, f) == Ok::<Seq<TokenRefV>, ContextMapErrorV>(out@.map_values(|t: TokenRef| t@)),
        decreases s.len() - i,
    {
        assert(s.subrange(0, i + 1).drop_last() =~= s.subrange(0, i as int));
        assert(s.subrange(0, i + 1).last() == s[i as int]);
        let path = index(base, i);
        match token_ref_from_request(&tokens[i], path.as_str()) {
            Ok(t) => {
                let ghost before = out@;
                out.push(t);
                assert(out@.map_values(|t: TokenRef| t@) =~= before.map_values(|t: TokenRef| t@).push(out@.last()@));
            },
            Err(e) => {
                proof { lemma_refs_err(s, base@, f, i + 1, e@); }
                return Err(e);
            },
        }
        i = i + 1;
    }
    assert(s.subrange(0, i as int) =~= s);
    Ok(out)
}

pub(crate) fn choice_refs_from_request(choices: &Vec<ChoiceId>, base: &str) -> (r: Result<Vec<ChoiceRef>, ContextMapError>)
    ensures
        match r {
            Ok(v) => choice_refs_of(choices@, base@) == Ok::<Seq<ChoiceRefV>, ContextMapErrorV>(v@.map_values(|c: ChoiceRef| c@)),
            Err(e) => choice_refs_of(choices@, base@) == Err::<Seq<ChoiceRefV>, ContextMapErrorV>(e@),
        },
{
    let ghost f = |c: ChoiceId, path: Seq<char>| choice_ref_spec(c@, path);
    let ghost s = choices@;
    let mut out: Vec<ChoiceRef> = Vec::new();
    let mut i: usize = 0;
    assert(s.subrange(0, 0) =~= Seq::<ChoiceId>::empty());
    assert(out@.map_values(|c: ChoiceRef| c@) =~= Seq::<ChoiceRefV>::empty());
    while i < choices.len()
        invariant
            s == choices@,
            f == (|c: ChoiceId, path: Seq<char>| choice_ref_spec(c@, path)),
            i <= s.len(),
            refs_from(s.subrange(0, i as int), base@, f) == Ok::<Seq<ChoiceRefV>, ContextMapErrorV>(out@.map_values(|c: ChoiceRef| c@)),
        decreases s.len() - i,
    {
        assert(s.subrange(0, i + 1).drop_last() =~= s.subrange(0, i as int));
        assert(s.subrange(0, i + 1).last() == s[i as int]);
        let path = index(base, i);
        match choice_ref_from_request(&choices[i], path.as_str()) {
            Ok(c) => {
                let ghost before = out@;
                out.push(c);
                assert(out@.map_values(|c: ChoiceRef| c@) =~= before.map_values(|c: ChoiceRef| c@).push(out@.last()@));
            },
            Err(e) => {
                proof { lemma_refs_err(s, base@, f, i + 1, e@); }
                return Err(e);
            },
        }
        i = i + 1;
    }
    assert(s.subrange(0, i as int) =~= s);
    Ok(out)
}

/// The type-checking context that a request describes.
pub fn map_typecheck_context_request(request: &TypecheckExplainContextRequest) -> (r: Result<TypeCheckContext, ContextMapError>)
    ensures
        match r {
            Ok(c) => context_request_spec(*request) == Ok::<ContextV, ContextMapErrorV>(c@),
            Err(e) => context_request_spec(*request) == Err::<ContextV, ContextMapErrorV>(e@),
        },
{
    proof {
        reveal_strlit("$.context.known_accounts");
        reveal_strlit("$.context.known_parties");
        reveal_strlit("$.context.known_tokens");
        reveal_strlit("$.context.known_choices");
    }
    let known_accounts = party_refs_from_request(&request.known_accounts, "$.context.known_accounts")?;
    let known_parties = party_refs_from_request(&request.known_parties, "$.context.known_parties")?;
    let known_tokens = token_refs_from_request(&request.known_tokens, "$.context.known_tokens")?;
    let known_choices = choice_refs_from_request(&request.known_choices, "$.context.known_choices")?;
    Ok(TypeCheckContext {
        known_accounts,
        known_parties,
        known_tokens,
        known_choices,
        require_known_definitions: request.require_known_definitions,
    })
}

/// The property an analysis checks.
#[derive(Debug, Clone, Copy, PartialEq, Eq, Structural)]
pub enum AnalyzePropertyRequest {
    DeadlineSafety,
    AuthorizationSafety,
}

impl Default for AnalyzePropertyRequest {
    fn default() -> (r: Self)
        ensures
            r == AnalyzePropertyRequest::DeadlineSafety,
    {
        AnalyzePropertyRequest::DeadlineSafety
    }
}

#[derive(Debug, Clone, Copy, PartialEq, Eq, Structural)]
pub enum AuthorizationActionRequest {
    Deposit,
    Choice,
}

impl AuthorizationActionRequest {
    pub fn action(self) -> (r: AuthorizationAction)
        ensures
            r == (match self {
                AuthorizationActionRequest::Deposit => AuthorizationAction::Deposit,
                AuthorizationActionRequest::Choice => AuthorizationAction::Choice,
            }),
    {
        match self {
            AuthorizationActionRequest::Deposit => AuthorizationAction::Deposit,
            AuthorizationActionRequest::Choice => AuthorizationAction::Choice,
        }
    }
}

#[derive(Debug, PartialEq, Eq)]
pub struct AuthorizationRuleRequest {
    pub action: AuthorizationActionRequest,
    pub target: Option<String>,
    pub allowed_parties: Vec<Party>,
}

#[derive(Debug, PartialEq, Eq)]
pub struct AnalyzeCounterexampleRequest {
    pub contract_yaml: String,
    pub property: AnalyzePropertyRequest,
    pub authorization_rule: Option<AuthorizationRuleRequest>,
    pub max_nodes: usize,
}

#[derive(Debug, PartialEq, Eq)]
pub struct AnalyzeApplyRepairRequest {
    pub contract_yaml: String,
    pub property: AnalyzePropertyRequest,
    pub authorization_rule: Option<AuthorizationRuleRequest>,
    pub max_nodes: usize,
}

} // verus!
