//! Writing contracts back as YAML nodes and text.
use crate::ast::{
    bounds_view, cases_view, lemma_cases_view, Action, ActionV, Bound, BoundV, Case, CaseV, ChoiceId, ChoiceIdV,
    Contract, ContractV, NumericValue, Observation, ObservationV, Party, PartyV, PayeeTarget, PayeeTargetV, Timeout,
    TimeoutV, Token, TokenV, ValueV,
};
use crate::integer::int_decimal;
use crate::yaml::{
    lemma_entries_view, lemma_seq_view, write_yaml, writable, yaml_entries_view, yaml_seq_view, yaml_text, yaml_view,
    YamlNode, YamlValue,
};
use vstd::prelude::*;

verus! {

pub open spec fn text_node(s: Seq<char>) -> YamlValue {
    YamlValue::String(s)
}

/// A single-key constructor mapping.
pub open spec fn variant_node(tag: Seq<char>, body: YamlValue) -> YamlValue {
    YamlValue::Mapping(Seq::empty().push((YamlValue::String(tag), body)))
}

pub open spec fn hole_node(name: Seq<char>) -> YamlValue {
    YamlValue::String("?"@ + name)
}

pub open spec fn empty_node() -> YamlValue {
    YamlValue::Mapping(Seq::empty())
}

pub open spec fn pair_node(a: YamlValue, b: YamlValue) -> YamlValue {
    YamlValue::Sequence(seq![a, b])
}

/// Integers are written as decimal strings, so that any size survives.
pub open spec fn integer_node(v: int) -> YamlValue {
    YamlValue::String(int_decimal(v))
}

pub open spec fn entry(key: Seq<char>, value: YamlValue) -> (YamlValue, YamlValue) {
    (YamlValue::String(key), value)
}

pub open spec fn write_party(p: PartyV) -> YamlValue {
    match p {
        PartyV::Hole(n) => hole_node(n),
        PartyV::Role(n) => variant_node("Role"@, text_node(n)),
        PartyV::Address(n) => variant_node("Address"@, text_node(n)),
    }
}

pub open spec fn write_token(t: TokenV) -> YamlValue {
    match t {
        TokenV::Hole(n) => hole_node(n),
        TokenV::Token { currency_symbol, token_name } => variant_node(
            "Token"@,
            YamlValue::Mapping(Seq::empty().push(entry("currency_symbol"@, text_node(currency_symbol))).push(entry("token_name"@, text_node(token_name)))),
        ),
    }
}

pub open spec fn write_choice_id(c: ChoiceIdV) -> YamlValue {
    match c {
        ChoiceIdV::Hole(n) => hole_node(n),
        ChoiceIdV::ChoiceId { name, party } => variant_node(
            "ChoiceId"@,
            YamlValue::Mapping(Seq::empty().push(entry("name"@, text_node(name))).push(entry("party"@, write_party(party)))),
        ),
    }
}

pub open spec fn write_value(v: ValueV) -> YamlValue
    decreases v,
{
    match v {
        ValueV::Hole(n) => hole_node(n),
        ValueV::Param(n) => variant_node("ConstantParam"@, text_node(n)),
        ValueV::Constant(c) => variant_node("Constant"@, integer_node(c)),
        ValueV::Add(a, b) => variant_node("Add"@, pair_node(write_value(*a), write_value(*b))),
        ValueV::Sub(a, b) => variant_node("Sub"@, pair_node(write_value(*a), write_value(*b))),
        ValueV::Mul(a, b) => variant_node("Mul"@, pair_node(write_value(*a), write_value(*b))),
        ValueV::Div(a, b) => variant_node("Div"@, pair_node(write_value(*a), write_value(*b))),
        ValueV::Neg(a) => variant_node("Neg"@, write_value(*a)),
        ValueV::Abs(a) => variant_node("Abs"@, write_value(*a)),
        ValueV::ValueFromChoice(c) => variant_node("ValueFromChoice"@, write_choice_id(c)),
        ValueV::UseValue(n) => variant_node("UseValue"@, text_node(n)),
        ValueV::TimeIntervalStart => variant_node("TimeIntervalStart"@, empty_node()),
        ValueV::TimeIntervalEnd => variant_node("TimeIntervalEnd"@, empty_node()),
        ValueV::AvailableMoney { account, token } => variant_node(
            "AvailableMoney"@,
            YamlValue::Mapping(Seq::empty().push(entry("account"@, write_party(account))).push(entry("token"@, write_token(token)))),
        ),
    }
}

pub open spec fn write_observation(o: ObservationV) -> YamlValue
    decreases o,
{
    match o {
        ObservationV::Hole(n) => hole_node(n),
        ObservationV::True => variant_node("True"@, empty_node()),
        ObservationV::False => variant_node("False"@, empty_node()),
        ObservationV::And(a, b) => variant_node("And"@, pair_node(write_observation(*a), write_observation(*b))),
        ObservationV::Or(a, b) => variant_node("Or"@, pair_node(write_observation(*a), write_observation(*b))),
        ObservationV::Not(a) => variant_node("Not"@, write_observation(*a)),
        ObservationV::ChoseSomething(c) => variant_node("ChoseSomething"@, write_choice_id(c)),
        ObservationV::ValueGE(a, b) => variant_node("ValueGE"@, pair_node(write_value(a), write_value(b))),
        ObservationV::ValueGT(a, b) => variant_node("ValueGT"@, pair_node(write_value(a), write_value(b))),
        ObservationV::ValueLT(a, b) => variant_node("ValueLT"@, pair_node(write_value(a), write_value(b))),
        ObservationV::ValueLE(a, b) => variant_node("ValueLE"@, pair_node(write_value(a), write_value(b))),
        ObservationV::ValueEQ(a, b) => variant_node("ValueEQ"@, pair_node(write_value(a), write_value(b))),
    }
}

pub open spec fn write_timeout(t: TimeoutV) -> YamlValue {
    match t {
        TimeoutV::Hole(n) => hole_node(n),
        TimeoutV::Param(n) => variant_node("SlotParam"@, text_node(n)),
        TimeoutV::PosixTime(v) => variant_node("Timeout"@, integer_node(v)),
    }
}

pub open spec fn write_bound(b: BoundV) -> YamlValue {
    match b {
        BoundV::Hole(n) => hole_node(n),
        BoundV::Bound { from, to } => variant_node(
            "Bound"@,
            YamlValue::Mapping(Seq::empty().push(entry("from"@, write_value(from))).push(entry("to"@, write_value(to)))),
        ),
    }
}

pub open spec fn write_action(a: ActionV) -> YamlValue {
    match a {
        ActionV::Hole(n) => hole_node(n),
        ActionV::Deposit { into, by, token, amount } => variant_node(
            "Deposit"@,
            YamlValue::Mapping(Seq::empty().push(entry("into"@, write_party(into))).push(entry("by"@, write_party(by))).push(entry("token"@, write_token(token))).push(entry("amount"@, write_value(amount)))),
        ),
        ActionV::Choice { id, bounds } => variant_node(
            "Choice"@,
            YamlValue::Mapping(Seq::empty().push(entry("id"@, write_choice_id(id))).push(entry("bounds"@, YamlValue::Sequence(bounds.map_values(|b: BoundV| write_bound(b)))))),
        ),
        ActionV::Notify { if_ } => variant_node("Notify"@, YamlValue::Mapping(Seq::empty().push(entry("if"@, write_observation(if_))))),
    }
}

pub open spec fn write_case(c: CaseV) -> YamlValue
    decreases c, 0nat,
{
    match c {
        CaseV::Hole(n) => hole_node(n),
        CaseV::Case { action, then } => variant_node(
            "Case"@,
            YamlValue::Mapping(Seq::empty().push(entry("action"@, write_action(action))).push(entry("then"@, write_contract(*then)))),
        ),
    }
}

pub open spec fn write_cases(cases: Seq<CaseV>) -> Seq<YamlValue>
    decreases cases, cases.len(),
{
    if cases.len() == 0 {
        Seq::empty()
    } else {
        seq![write_case(cases[0])] + write_cases(cases.drop_first())
    }
}

pub open spec fn write_payee(to: PayeeTargetV) -> (YamlValue, YamlValue) {
    match to {
        PayeeTargetV::Hole(n) => entry("to_party"@, hole_node(n)),
        PayeeTargetV::ToParty(p) => entry("to_party"@, write_party(p)),
        PayeeTargetV::ToAccount(p) => entry("to_account"@, write_party(p)),
    }
}

pub open spec fn write_contract(c: ContractV) -> YamlValue
    decreases c, 0nat,
{
    match c {
        ContractV::Hole(n) => hole_node(n),
        ContractV::Close => variant_node("Close"@, empty_node()),
        ContractV::Pay { from, to, token, amount, then } => variant_node(
            "Pay"@,
            YamlValue::Mapping(Seq::empty().push(entry("from"@, write_party(from))).push(entry("token"@, write_token(token))).push(entry("amount"@, write_value(amount))).push(entry("then"@, write_contract(*then))).push(write_payee(to))),
        ),
        ContractV::If { cond, then, else_ } => variant_node(
            "If"@,
            YamlValue::Mapping(Seq::empty().push(entry("cond"@, write_observation(cond))).push(entry("then"@, write_contract(*then))).push(entry("else"@, write_contract(*else_)))),
        ),
        ContractV::When { cases, timeout, timeout_continuation } => variant_node(
            "When"@,
            YamlValue::Mapping(Seq::empty().push(entry("cases"@, YamlValue::Sequence(write_cases(cases)))).push(entry("timeout"@, write_timeout(timeout))).push(entry("timeout_continuation"@, write_contract(*timeout_continuation)))),
        ),
        ContractV::Let { name, value, then } => variant_node(
            "Let"@,
            YamlValue::Mapping(Seq::empty().push(entry("name"@, text_node(name))).push(entry("value"@, write_value(value))).push(entry("then"@, write_contract(*then)))),
        ),
        ContractV::Assert { cond, then } => variant_node(
            "Assert"@,
            YamlValue::Mapping(Seq::empty().push(entry("cond"@, write_observation(cond))).push(entry("then"@, write_contract(*then)))),
        ),
    }
}

} // verus!

verus! {

fn text(s: &str) -> (r: YamlNode)
    ensures
        r@ == text_node(s@),
{
    YamlNode::String(String::from_str(s))
}

fn push_entry(entries: &mut Vec<(YamlNode, YamlNode)>, key: &str, value: YamlNode)
    ensures
        yaml_entries_view(final(entries)@) == yaml_entries_view(old(entries)@).push(entry(key@, value@)),
{
    let ghost before = entries@;
    entries.push((text(key), value));
    proof {
        lemma_entries_view(before);
        lemma_entries_view(entries@);
        assert(yaml_entries_view(entries@) =~= yaml_entries_view(before).push(entry(key@, yaml_view(entries@.last().1))));
    }
}

fn no_entries() -> (r: Vec<(YamlNode, YamlNode)>)
    ensures
        yaml_entries_view(r@) == Seq::<(YamlValue, YamlValue)>::empty(),
{
    let r: Vec<(YamlNode, YamlNode)> = Vec::new();
    proof {
        lemma_entries_view(r@);
        assert(yaml_entries_view(r@) =~= Seq::<(YamlValue, YamlValue)>::empty());
    }
    r
}

fn empty() -> (r: YamlNode)
    ensures
        r@ == empty_node(),
{
    let entries: Vec<(YamlNode, YamlNode)> = Vec::new();
    proof { lemma_entries_view(entries@); }
    YamlNode::Mapping(entries)
}

fn variant(tag: &str, body: YamlNode) -> (r: YamlNode)
    ensures
        r@ == variant_node(tag@, body@),
{
    let mut entries: Vec<(YamlNode, YamlNode)> = Vec::new();
    proof { lemma_entries_view(entries@); }
    push_entry(&mut entries, tag, body);
    assert(yaml_entries_view(entries@) =~= seq![(YamlValue::String(tag@), body@)]);
    YamlNode::Mapping(entries)
}

fn pair(a: YamlNode, b: YamlNode) -> (r: YamlNode)
    ensures
        r@ == pair_node(a@, b@),
{
    let ghost (av, bv) = (a@, b@);
    let mut items: Vec<YamlNode> = Vec::new();
    items.push(a);
    items.push(b);
    proof {
        lemma_seq_view(items@);
        assert(yaml_seq_view(items@) =~= seq![av, bv]);
    }
    YamlNode::Sequence(items)
}

fn hole(name: &String) -> (r: YamlNode)
    ensures
        r@ == hole_node(name@),
{
    let mut s = String::from_str("?");
    s.append(name.as_str());
    YamlNode::String(s)
}

fn integer(v: &crate::integer::Integer) -> (r: YamlNode)
    ensures
        r@ == integer_node(v@),
{
    YamlNode::String(v.to_decimal())
}

fn yaml_party(p: &Party) -> (r: YamlNode)
    ensures
        r@ == write_party(p@),
{
    match p {
        Party::Hole(n) => hole(n),
        Party::Role(n) => variant("Role", YamlNode::String(n.clone())),
        Party::Address(n) => variant("Address", YamlNode::String(n.clone())),
    }
}

fn yaml_token(t: &Token) -> (r: YamlNode)
    ensures
        r@ == write_token(t@),
{
    match t {
        Token::Hole(n) => hole(n),
        Token::Token { currency_symbol, token_name } => {
            let mut body = no_entries();
            push_entry(&mut body, "currency_symbol", YamlNode::String(currency_symbol.clone()));
            push_entry(&mut body, "token_name", YamlNode::String(token_name.clone()));
            let r = variant("Token", YamlNode::Mapping(body));
            r
        },
    }
}

fn yaml_choice_id(c: &ChoiceId) -> (r: YamlNode)
    ensures
        r@ == write_choice_id(c@),
{
    match c {
        ChoiceId::Hole(n) => hole(n),
        ChoiceId::ChoiceId { name, party } => {
            let mut body = no_entries();
            push_entry(&mut body, "name", YamlNode::String(name.clone()));
            push_entry(&mut body, "party", yaml_party(party));
            let r = variant("ChoiceId", YamlNode::Mapping(body));
            r
        },
    }
}

fn yaml_value(v: &NumericValue) -> (r: YamlNode)
    ensures
        r@ == write_value(v@),
    decreases v,
{
    match v {
        NumericValue::Hole(n) => hole(n),
        NumericValue::Param(n) => variant("ConstantParam", YamlNode::String(n.clone())),
        NumericValue::Constant(c) => variant("Constant", integer(c)),
        NumericValue::Add(a, b) => variant("Add", pair(yaml_value(a), yaml_value(b))),
        NumericValue::Sub(a, b) => variant("Sub", pair(yaml_value(a), yaml_value(b))),
        NumericValue::Mul(a, b) => variant("Mul", pair(yaml_value(a), yaml_value(b))),
        NumericValue::Div(a, b) => variant("Div", pair(yaml_value(a), yaml_value(b))),
        NumericValue::Neg(a) => variant("Neg", yaml_value(a)),
        NumericValue::Abs(a) => variant("Abs", yaml_value(a)),
        NumericValue::ValueFromChoice(c) => variant("ValueFromChoice", yaml_choice_id(c)),
        NumericValue::UseValue(n) => variant("UseValue", YamlNode::String(n.clone())),
        NumericValue::TimeIntervalStart => variant("TimeIntervalStart", empty()),
        NumericValue::TimeIntervalEnd => variant("TimeIntervalEnd", empty()),
        NumericValue::AvailableMoney { account, token } => {
            let mut body = no_entries();
            push_entry(&mut body, "account", yaml_party(account));
            push_entry(&mut body, "token", yaml_token(token));
            let r = variant("AvailableMoney", YamlNode::Mapping(body));
            r
        },
    }
}

fn yaml_observation(o: &Observation) -> (r: YamlNode)
    ensures
        r@ == write_observation(o@),
    decreases o,
{
    match o {
        Observation::Hole(n) => hole(n),
        Observation::True => variant("True", empty()),
        Observation::False => variant("False", empty()),
        Observation::And(a, b) => variant("And", pair(yaml_observation(a), yaml_observation(b))),
        Observation::Or(a, b) => variant("Or", pair(yaml_observation(a), yaml_observation(b))),
        Observation::Not(a) => variant("Not", yaml_observation(a)),
        Observation::ChoseSomething(c) => variant("ChoseSomething", yaml_choice_id(c)),
        Observation::ValueGE(a, b) => variant("ValueGE", pair(yaml_value(a), yaml_value(b))),
        Observation::ValueGT(a, b) => variant("ValueGT", pair(yaml_value(a), yaml_value(b))),
        Observation::ValueLT(a, b) => variant("ValueLT", pair(yaml_value(a), yaml_value(b))),
        Observation::ValueLE(a, b) => variant("ValueLE", pair(yaml_value(a), yaml_value(b))),
        Observation::ValueEQ(a, b) => variant("ValueEQ", pair(yaml_value(a), yaml_value(b))),
    }
}

fn yaml_timeout(t: &Timeout) -> (r: YamlNode)
    ensures
        r@ == write_timeout(t@),
{
    match t {
        Timeout::Hole(n) => hole(n),
        Timeout::Param(n) => variant("SlotParam", YamlNode::String(n.clone())),
        Timeout::PosixTime(v) => variant("Timeout", integer(v)),
    }
}

fn yaml_bound(b: &Bound) -> (r: YamlNode)
    ensures
        r@ == write_bound(b@),
{
    match b {
        Bound::Hole(n) => hole(n),
        Bound::Bound { from, to } => {
            let mut body = no_entries();
            push_entry(&mut body, "from", yaml_value(from));
            push_entry(&mut body, "to", yaml_value(to));
            let r = variant("Bound", YamlNode::Mapping(body));
            r
        },
    }
}

fn yaml_action(a: &Action) -> (r: YamlNode)
    ensures
        r@ == write_action(a@),
{
    match a {
        Action::Hole(n) => hole(n),
        Action::Deposit { into, by, token, amount } => {
            let mut body = no_entries();
            push_entry(&mut body, "into", yaml_party(into));
            push_entry(&mut body, "by", yaml_party(by));
            push_entry(&mut body, "token", yaml_token(token));
            push_entry(&mut body, "amount", yaml_value(amount));
            let r = variant("Deposit", YamlNode::Mapping(body));
            r
        },
        Action::Choice { id, bounds } => {
            let mut items: Vec<YamlNode> = Vec::new();
            let mut i: usize = 0;
            while i < bounds.len()
                invariant
                    i <= bounds@.len(),
                    items@.len() == i,
                    forall|j: int| 0 <= j < i ==> #[trigger] yaml_view(items@[j]) == write_bound(bounds@[j]@),
                decreases bounds@.len() - i,
            {
                items.push(yaml_bound(&bounds[i]));
                i = i + 1;
            }
            proof {
                lemma_seq_view(items@);
                assert(yaml_seq_view(items@) =~= bounds_view(bounds@).map_values(|b: BoundV| write_bound(b)));
            }
            let mut body = no_entries();
            push_entry(&mut body, "id", yaml_choice_id(id));
            push_entry(&mut body, "bounds", YamlNode::Sequence(items));
            let r = variant("Choice", YamlNode::Mapping(body));
            r
        },
        Action::Notify { if_ } => {
            let mut body = no_entries();
            push_entry(&mut body, "if", yaml_observation(if_));
            let r = variant("Notify", YamlNode::Mapping(body));
            r
        },
    }
}

pub proof fn lemma_write_cases(cases: Seq<CaseV>)
    ensures
        write_cases(cases).len() == cases.len(),
        forall|i: int| 0 <= i < cases.len() ==> #[trigger] write_cases(cases)[i] == write_case(cases[i]),
    decreases cases.len(),
{
    if cases.len() > 0 {
        lemma_write_cases(cases.drop_first());
        assert forall|i: int| 0 <= i < cases.len() implies #[trigger] write_cases(cases)[i] == write_case(cases[i]) by {
            if i > 0 {
                assert(cases.drop_first()[i - 1] == cases[i]);
            }
        }
    }
}

fn yaml_case(c: &Case) -> (r: YamlNode)
    ensures
        r@ == write_case(c@),
    decreases c, 0nat,
{
    match c {
        Case::Hole(n) => hole(n),
        Case::Case { action, then } => {
            let mut body = no_entries();
            push_entry(&mut body, "action", yaml_action(action));
            push_entry(&mut body, "then", yaml_contract(then));
            let r = variant("Case", YamlNode::Mapping(body));
            r
        },
    }
}

fn yaml_cases(cases: &Vec<Case>) -> (r: YamlNode)
    ensures
        r@ == YamlValue::Sequence(write_cases(cases_view(cases@))),
    decreases cases, 1nat,
{
    let mut items: Vec<YamlNode> = Vec::new();
    let mut i: usize = 0;
    while i < cases.len()
        invariant
            i <= cases@.len(),
            items@.len() == i,
            forall|j: int| 0 <= j < i ==> #[trigger] yaml_view(items@[j]) == write_case(case_view_of(cases@[j])),
        decreases cases@.len() - i,
    {
        items.push(yaml_case(&cases[i]));
        i = i + 1;
    }
    proof {
        lemma_seq_view(items@);
        lemma_cases_view(cases@);
        lemma_write_cases(cases_view(cases@));
        assert(yaml_seq_view(items@) =~= write_cases(cases_view(cases@)));
    }
    YamlNode::Sequence(items)
}

pub open spec fn case_view_of(c: Case) -> CaseV {
    c@
}

fn yaml_contract(c: &Contract) -> (r: YamlNode)
    ensures
        r@ == write_contract(c@),
    decreases c, 0nat,
{
    match c {
        Contract::Hole(n) => hole(n),
        Contract::Close => variant("Close", empty()),
        Contract::Pay { from, to, token, amount, then } => {
            let mut body = no_entries();
            push_entry(&mut body, "from", yaml_party(from));
            push_entry(&mut body, "token", yaml_token(token));
            push_entry(&mut body, "amount", yaml_value(amount));
            push_entry(&mut body, "then", yaml_contract(then));
            match to {
                PayeeTarget::Hole(n) => push_entry(&mut body, "to_party", hole(n)),
                PayeeTarget::ToParty(p) => push_entry(&mut body, "to_party", yaml_party(p)),
                PayeeTarget::ToAccount(p) => push_entry(&mut body, "to_account", yaml_party(p)),
            }
            let r = variant("Pay", YamlNode::Mapping(body));
            r
        },
        Contract::If { cond, then, else_ } => {
            let mut body = no_entries();
            push_entry(&mut body, "cond", yaml_observation(cond));
            push_entry(&mut body, "then", yaml_contract(then));
            push_entry(&mut body, "else", yaml_contract(else_));
            let r = variant("If", YamlNode::Mapping(body));
            r
        },
        Contract::When { cases, timeout, timeout_continuation } => {
            let mut body = no_entries();
            push_entry(&mut body, "cases", yaml_cases(cases));
            push_entry(&mut body, "timeout", yaml_timeout(timeout));
            push_entry(&mut body, "timeout_continuation", yaml_contract(timeout_continuation));
            let r = variant("When", YamlNode::Mapping(body));
            r
        },
        Contract::Let { name, value, then } => {
            let mut body = no_entries();
            push_entry(&mut body, "name", YamlNode::String(name.clone()));
            push_entry(&mut body, "value", yaml_value(value));
            push_entry(&mut body, "then", yaml_contract(then));
            let r = variant("Let", YamlNode::Mapping(body));
            r
        },
        Contract::Assert { cond, then } => {
            let mut body = no_entries();
            push_entry(&mut body, "cond", yaml_observation(cond));
            push_entry(&mut body, "then", yaml_contract(then));
            let r = variant("Assert", YamlNode::Mapping(body));
            r
        },
    }
}

/// The YAML node of a contract.
pub fn contract_to_yaml(contract: &Contract) -> (r: YamlNode)
    ensures
        r@ == write_contract(contract@),
{
    yaml_contract(contract)
}

} // verus!

verus! {

proof fn lemma_writable_party(p: PartyV)
    ensures
        writable(write_party(p)),
{
    reveal_with_fuel(writable, 3);
    let w = write_party(p);
    if let YamlValue::Mapping(m) = w {
        assert(forall|i: int| 0 <= i < m.len() ==> writable(#[trigger] m[i].0) && writable(m[i].1));
    }
}

proof fn lemma_writable_token(t: TokenV)
    ensures
        writable(write_token(t)),
{
    reveal_with_fuel(writable, 3);
    if let TokenV::Token { currency_symbol, token_name } = t {
        let body = write_token(t)->Mapping_0[0].1;
        assert(writable(body));
    }
}

proof fn lemma_writable_choice_id(c: ChoiceIdV)
    ensures
        writable(write_choice_id(c)),
{
    reveal_with_fuel(writable, 3);
    if let ChoiceIdV::ChoiceId { name, party } = c {
        lemma_writable_party(party);
        let body = write_choice_id(c)->Mapping_0[0].1;
        assert(writable(body));
    }
}

proof fn lemma_writable_value(v: ValueV)
    ensures
        writable(write_value(v)),
    decreases v,
{
    reveal_with_fuel(writable, 3);
    match v {
        ValueV::Add(a, b) | ValueV::Sub(a, b) | ValueV::Mul(a, b) | ValueV::Div(a, b) => {
            lemma_writable_value(*a);
            lemma_writable_value(*b);
            let body = write_value(v)->Mapping_0[0].1;
            assert(writable(body));
        },
        ValueV::Neg(a) | ValueV::Abs(a) => {
            lemma_writable_value(*a);
        },
        ValueV::ValueFromChoice(c) => {
            lemma_writable_choice_id(c);
        },
        ValueV::AvailableMoney { account, token } => {
            lemma_writable_party(account);
            lemma_writable_token(token);
            let body = write_value(v)->Mapping_0[0].1;
            assert(writable(body));
        },
        ValueV::TimeIntervalStart | ValueV::TimeIntervalEnd => {
            let body = write_value(v)->Mapping_0[0].1;
            assert(writable(body));
        },
        _ => {},
    }
}

proof fn lemma_writable_observation(o: ObservationV)
    ensures
        writable(write_observation(o)),
    decreases o,
{
    reveal_with_fuel(writable, 3);
    match o {
        ObservationV::And(a, b) | ObservationV::Or(a, b) => {
            lemma_writable_observation(*a);
            lemma_writable_observation(*b);
            let body = write_observation(o)->Mapping_0[0].1;
            assert(writable(body));
        },
        ObservationV::Not(a) => {
            lemma_writable_observation(*a);
        },
        ObservationV::ChoseSomething(c) => {
            lemma_writable_choice_id(c);
        },
        ObservationV::ValueGE(a, b) | ObservationV::ValueGT(a, b) | ObservationV::ValueLT(a, b)
        | ObservationV::ValueLE(a, b) | ObservationV::ValueEQ(a, b) => {
            lemma_writable_value(a);
            lemma_writable_value(b);
            let body = write_observation(o)->Mapping_0[0].1;
            assert(writable(body));
        },
        ObservationV::True | ObservationV::False => {
            let body = write_observation(o)->Mapping_0[0].1;
            assert(writable(body));
        },
        _ => {},
    }
}

proof fn lemma_writable_action(a: ActionV)
    ensures
        writable(write_action(a)),
{
    reveal_with_fuel(writable, 3);
    match a {
        ActionV::Deposit { into, by, token, amount } => {
            lemma_writable_party(into);
            lemma_writable_party(by);
            lemma_writable_token(token);
            lemma_writable_value(amount);
            let body = write_action(a)->Mapping_0[0].1;
            assert(writable(body));
        },
        ActionV::Choice { id, bounds } => {
            lemma_writable_choice_id(id);
            let items = bounds.map_values(|b: BoundV| write_bound(b));
            assert forall|i: int| 0 <= i < items.len() implies writable(#[trigger] items[i]) by {
                match bounds[i] {
                    BoundV::Bound { from, to } => {
                        lemma_writable_value(from);
                        lemma_writable_value(to);
                        let body = items[i]->Mapping_0[0].1;
                        assert(writable(body));
                    },
                    _ => {},
                }
            }
            let body = write_action(a)->Mapping_0[0].1;
            assert(writable(body));
        },
        ActionV::Notify { if_ } => {
            lemma_writable_observation(if_);
            let body = write_action(a)->Mapping_0[0].1;
            assert(writable(body));
        },
        _ => {},
    }
}

#[verifier::spinoff_prover]
#[verifier::rlimit(60)]
proof fn lemma_writable_contract(c: ContractV)
    ensures
        writable(write_contract(c)),
    decreases c, 0nat,
{
    reveal_with_fuel(writable, 3);
    match c {
        ContractV::Close => {
            let body = write_contract(c)->Mapping_0[0].1;
            assert(writable(body));
        },
        ContractV::Pay { from, to, token, amount, then } => {
            lemma_writable_party(from);
            lemma_writable_token(token);
            lemma_writable_value(amount);
            lemma_writable_contract(*then);
            match to {
                PayeeTargetV::ToParty(p) => lemma_writable_party(p),
                PayeeTargetV::ToAccount(p) => lemma_writable_party(p),
                _ => {},
            }
            let body = write_contract(c)->Mapping_0[0].1;
            assert(writable(body));
        },
        ContractV::If { cond, then, else_ } => {
            lemma_writable_observation(cond);
            lemma_writable_contract(*then);
            lemma_writable_contract(*else_);
            let body = write_contract(c)->Mapping_0[0].1;
            assert(writable(body));
        },
        ContractV::When { cases, timeout, timeout_continuation } => {
            lemma_writable_cases(cases);
            lemma_writable_contract(*timeout_continuation);
            assert(writable(write_timeout(timeout)));
            assert(writable(YamlValue::Sequence(write_cases(cases))));
            let body = write_contract(c)->Mapping_0[0].1;
            assert(writable(body));
        },
        ContractV::Let { name, value, then } => {
            lemma_writable_value(value);
            lemma_writable_contract(*then);
            let body = write_contract(c)->Mapping_0[0].1;
            assert(writable(body));
        },
        ContractV::Assert { cond, then } => {
            lemma_writable_observation(cond);
            lemma_writable_contract(*then);
            let body = write_contract(c)->Mapping_0[0].1;
            assert(writable(body));
        },
        _ => {},
    }
}

proof fn lemma_writable_cases(cases: Seq<CaseV>)
    ensures
        forall|i: int| 0 <= i < write_cases(cases).len() ==> writable(#[trigger] write_cases(cases)[i]),
    decreases cases, 1nat,
{
    reveal_with_fuel(writable, 3);
    lemma_write_cases(cases);
    assert forall|i: int| 0 <= i < write_cases(cases).len() implies writable(#[trigger] write_cases(cases)[i]) by {
        match cases[i] {
            CaseV::Case { action, then } => {
                lemma_writable_action(action);
                lemma_writable_contract(*then);
                let body = write_cases(cases)[i]->Mapping_0[0].1;
                assert(writable(body));
            },
            _ => {},
        }
    }
}

/// The YAML text of a contract; on failure, the text of the writer's error.
pub fn contract_to_yaml_string(contract: &Contract) -> (r: Result<String, String>)
    ensures
        match r {
            Ok(text) => yaml_text(write_contract(contract@)) == Ok::<Seq<char>, Seq<char>>(text@),
            Err(e) => yaml_text(write_contract(contract@)) == Err::<Seq<char>, Seq<char>>(e@),
        },
{
    let node = contract_to_yaml(contract);
    proof { lemma_writable_contract(contract@); }
    write_yaml(&node)
}

} // verus!
