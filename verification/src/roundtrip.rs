//! Reading back what the writer wrote gives the same contract.
//!
//! This holds of every contract whose texts survive the writer's encoding:
//! hole names are not empty, hold no space and do not start with `?`;
//! other texts do not start with `??` or `$$` (which the reader unescapes);
//! and a payee is not a hole (the writer puts a payee hole under
//! `to_party`, where it reads back as a party hole).
use crate::ast::{ActionV, BoundV, CaseV, ChoiceIdV, ContractV, ObservationV, PartyV, PayeeTargetV, TimeoutV, TokenV, ValueV};
use crate::integer::{
    decimal_integer, digit_char, int_decimal, is_digit, nat_decimal, plus_decimal, separated_digits_value, unsigned_decimal,
};
use crate::parser::{
    is_prefixed_symbol, key_position, lemma_key_position, read_action, read_bound, read_bounds, read_case, read_cases,
    read_choice_id, read_contract, read_empty, read_hole, read_integer, read_param, read_party, read_raw_string,
    read_required, read_timeout, read_token, read_value, read_observation, unescape, read_contract_body, read_payee,
    read_optional, ParseErrorV,
};
use crate::serializer::{
    entry, hole_node, integer_node, text_node, variant_node, write_action, write_bound, write_case, write_cases,
    write_choice_id, write_contract, write_observation, write_party, write_timeout, write_token, write_value,
};
use crate::text::has_prefix;
use crate::yaml::YamlValue;
use vstd::prelude::*;

verus! {

/// A text that the reader takes as it stands.
pub open spec fn plain_text(s: Seq<char>) -> bool {
    !has_prefix(s, "??"@) && !has_prefix(s, "$$"@)
}

/// A hole name that reads back from `?name`.
pub open spec fn hole_name(n: Seq<char>) -> bool {
    n.len() > 0 && n[0] != '?' && !n.contains(' ')
}

proof fn lemma_plain_unescape(s: Seq<char>)
    requires
        plain_text(s),
    ensures
        unescape(s) == s,
{
}

proof fn lemma_hole_text(n: Seq<char>)
    requires
        hole_name(n),
    ensures
        read_hole(hole_node(n)) == Some(n),
        read_param(hole_node(n)) is None,
{
    reveal_strlit("??");
    reveal_strlit("$$");
    reveal_strlit("?");
    let v = "?"@ + n;
    assert(v[0] == '?');
    assert(v[1] == n[0]);
    assert(!has_prefix(v, "??"@)) by {
        if has_prefix(v, "??"@) {
            assert(v.subrange(0, 2)[1] == '?');
        }
    }
    assert(!has_prefix(v, "$$"@)) by {
        if has_prefix(v, "$$"@) {
            assert(v.subrange(0, 2)[0] == '$');
        }
    }
    assert(v.skip(1) =~= n);
}

proof fn lemma_digit_char(d: nat)
    requires
        d < 10,
    ensures
        is_digit(digit_char(d)),
        digit_char(d) != '_',
        (digit_char(d) as nat) - ('0' as nat) == d,
{
}

pub(crate) proof fn lemma_nat_decimal(n: nat)
    ensures
        nat_decimal(n).len() > 0,
        is_digit(nat_decimal(n)[0]),
        forall|i: int| 0 <= i < nat_decimal(n).len() ==> is_digit(#[trigger] nat_decimal(n)[i]),
        separated_digits_value(nat_decimal(n)) == n,
    decreases n,
{
    if n < 10 {
        lemma_digit_char(n);
        assert(nat_decimal(n).drop_last() =~= Seq::<char>::empty());
        assert(nat_decimal(n).last() == digit_char(n));
        assert(separated_digits_value(nat_decimal(n)) == separated_digits_value(Seq::<char>::empty()) * 10 + ((digit_char(n) as nat) - ('0' as nat)) as nat);
    } else {
        lemma_nat_decimal(n / 10);
        lemma_digit_char(n % 10);
        let s = nat_decimal(n / 10);
        let d = digit_char(n % 10);
        assert(nat_decimal(n) == s.push(d));
        assert(s.push(d).drop_last() =~= s);
        assert(separated_digits_value(s.push(d)) == separated_digits_value(s) * 10 + ((d as nat) - ('0' as nat)) as nat);
        assert(n == (n / 10) * 10 + n % 10);
        assert forall|i: int| 0 <= i < s.push(d).len() implies is_digit(#[trigger] s.push(d)[i]) by {
            if i < s.len() {
                assert(s.push(d)[i] == s[i]);
            }
        }
    }
}

/// Decimal text reads back as the integer it was written from.
pub proof fn lemma_decimal_round_trip(v: int)
    ensures
        decimal_integer(int_decimal(v)) == Some(v),
        plain_text(int_decimal(v)),
{
    reveal_strlit("??");
    reveal_strlit("$$");
    let m: nat = if v < 0 { (-v) as nat } else { v as nat };
    lemma_nat_decimal(m);
    let digits = nat_decimal(m);
    assert(unsigned_decimal(digits) == Some(m));
    let s = int_decimal(v);
    if v < 0 {
        assert(s == seq!['-'] + digits);
        assert(s.drop_first() =~= digits);
        assert(s[0] == '-');
    } else {
        assert(s == digits);
        assert(plus_decimal(s) == Some(m));
    }
    assert(!has_prefix(s, "??"@)) by {
        if has_prefix(s, "??"@) {
            assert(s.subrange(0, 2)[0] == s[0]);
        }
    }
    assert(!has_prefix(s, "$$"@)) by {
        if has_prefix(s, "$$"@) {
            assert(s.subrange(0, 2)[0] == s[0]);
        }
    }
}

proof fn lemma_integer_node(v: int)
    ensures
        forall|path: Seq<char>| read_integer(#[trigger] integer_node(v), path) == Ok::<int, crate::parser::ParseErrorV>(v),
{
    lemma_decimal_round_trip(v);
}

/// The entry at `i` is the first with key `key`.
proof fn lemma_key_at(map: Seq<(YamlValue, YamlValue)>, key: Seq<char>, i: int)
    requires
        0 <= i < map.len(),
        map[i].0 == YamlValue::String(key),
        forall|j: int| 0 <= j < i ==> map[j].0 != YamlValue::String(key),
    ensures
        key_position(map, key) == Some(i),
{
    lemma_key_position(map, key);
    if let Some(k) = key_position(map, key) {
        if k < i {
        } else if k > i {
        }
    }
}

} // verus!

verus! {

pub open spec fn party_plain(p: PartyV) -> bool {
    match p {
        PartyV::Hole(n) => hole_name(n),
        PartyV::Role(n) => plain_text(n),
        PartyV::Address(n) => plain_text(n),
    }
}

pub open spec fn token_plain(t: TokenV) -> bool {
    match t {
        TokenV::Hole(n) => hole_name(n),
        TokenV::Token { currency_symbol, token_name } => plain_text(currency_symbol) && plain_text(token_name),
    }
}

pub open spec fn choice_id_plain(c: ChoiceIdV) -> bool {
    match c {
        ChoiceIdV::Hole(n) => hole_name(n),
        ChoiceIdV::ChoiceId { name, party } => plain_text(name) && party_plain(party),
    }
}

pub open spec fn timeout_plain(t: TimeoutV) -> bool {
    match t {
        TimeoutV::Hole(n) => hole_name(n),
        TimeoutV::Param(n) => plain_text(n),
        TimeoutV::PosixTime(_) => true,
    }
}

pub proof fn lemma_party_round_trip(p: PartyV, path: Seq<char>)
    requires
        party_plain(p),
    ensures
        read_party(write_party(p), path) == Ok::<PartyV, crate::parser::ParseErrorV>(p),
{
    reveal_strlit("Role");
    reveal_strlit("Address");
    match p {
        PartyV::Hole(n) => lemma_hole_text(n),
        PartyV::Role(n) => lemma_plain_unescape(n),
        PartyV::Address(n) => lemma_plain_unescape(n),
    }
}

pub proof fn lemma_token_round_trip(t: TokenV, path: Seq<char>)
    requires
        token_plain(t),
    ensures
        read_token(write_token(t), path) == Ok::<TokenV, crate::parser::ParseErrorV>(t),
{
    reveal_strlit("Token");
    reveal_strlit("currency_symbol");
    reveal_strlit("token_name");
    match t {
        TokenV::Hole(n) => lemma_hole_text(n),
        TokenV::Token { currency_symbol, token_name } => {
            lemma_plain_unescape(currency_symbol);
            lemma_plain_unescape(token_name);
            let map = Seq::empty().push(entry("currency_symbol"@, text_node(currency_symbol))).push(
                entry("token_name"@, text_node(token_name)),
            );
            lemma_key_at(map, "currency_symbol"@, 0);
            lemma_key_at(map, "token_name"@, 1);
        },
    }
}

pub proof fn lemma_choice_id_round_trip(c: ChoiceIdV, path: Seq<char>)
    requires
        choice_id_plain(c),
    ensures
        read_choice_id(write_choice_id(c), path) == Ok::<ChoiceIdV, crate::parser::ParseErrorV>(c),
{
    reveal_strlit("ChoiceId");
    reveal_strlit("name");
    reveal_strlit("party");
    match c {
        ChoiceIdV::Hole(n) => lemma_hole_text(n),
        ChoiceIdV::ChoiceId { name, party } => {
            lemma_plain_unescape(name);
            let map = Seq::empty().push(entry("name"@, text_node(name))).push(entry("party"@, write_party(party)));
            lemma_key_at(map, "name"@, 0);
            lemma_key_at(map, "party"@, 1);
            lemma_party_round_trip(party, crate::text::field_path(crate::text::field_path(path, "ChoiceId"@), "party"@));
        },
    }
}

pub proof fn lemma_timeout_round_trip(t: TimeoutV, path: Seq<char>)
    requires
        timeout_plain(t),
    ensures
        read_timeout(write_timeout(t), path) == Ok::<TimeoutV, crate::parser::ParseErrorV>(t),
{
    reveal_strlit("Timeout");
    reveal_strlit("SlotParam");
    match t {
        TimeoutV::Hole(n) => lemma_hole_text(n),
        TimeoutV::Param(n) => lemma_plain_unescape(n),
        TimeoutV::PosixTime(v) => lemma_integer_node(v),
    }
}

} // verus!

verus! {

pub open spec fn value_plain(v: ValueV) -> bool
    decreases v,
{
    match v {
        ValueV::Hole(n) => hole_name(n),
        ValueV::Param(n) => plain_text(n),
        ValueV::Constant(_) => true,
        ValueV::Add(a, b) | ValueV::Sub(a, b) | ValueV::Mul(a, b) | ValueV::Div(a, b) => value_plain(*a) && value_plain(*b),
        ValueV::Neg(a) | ValueV::Abs(a) => value_plain(*a),
        ValueV::ValueFromChoice(c) => choice_id_plain(c),
        ValueV::UseValue(n) => plain_text(n),
        ValueV::TimeIntervalStart | ValueV::TimeIntervalEnd => true,
        ValueV::AvailableMoney { account, token } => party_plain(account) && token_plain(token),
    }
}

pub open spec fn observation_plain(o: ObservationV) -> bool
    decreases o,
{
    match o {
        ObservationV::Hole(n) => hole_name(n),
        ObservationV::True | ObservationV::False => true,
        ObservationV::And(a, b) | ObservationV::Or(a, b) => observation_plain(*a) && observation_plain(*b),
        ObservationV::Not(a) => observation_plain(*a),
        ObservationV::ChoseSomething(c) => choice_id_plain(c),
        ObservationV::ValueGE(a, b) | ObservationV::ValueGT(a, b) | ObservationV::ValueLT(a, b) | ObservationV::ValueLE(a, b)
        | ObservationV::ValueEQ(a, b) => value_plain(a) && value_plain(b),
    }
}

proof fn reveal_value_tags()
    ensures
        "Constant"@ == seq!['C', 'o', 'n', 's', 't', 'a', 'n', 't'],
        "ConstantParam"@ == seq!['C', 'o', 'n', 's', 't', 'a', 'n', 't', 'P', 'a', 'r', 'a', 'm'],
        "Add"@ == seq!['A', 'd', 'd'],
        "Sub"@ == seq!['S', 'u', 'b'],
        "Mul"@ == seq!['M', 'u', 'l'],
        "Div"@ == seq!['D', 'i', 'v'],
        "Neg"@ == seq!['N', 'e', 'g'],
        "Abs"@ == seq!['A', 'b', 's'],
        "ValueFromChoice"@ == seq!['V', 'a', 'l', 'u', 'e', 'F', 'r', 'o', 'm', 'C', 'h', 'o', 'i', 'c', 'e'],
        "UseValue"@ == seq!['U', 's', 'e', 'V', 'a', 'l', 'u', 'e'],
        "TimeIntervalStart"@ == seq!['T', 'i', 'm', 'e', 'I', 'n', 't', 'e', 'r', 'v', 'a', 'l', 'S', 't', 'a', 'r', 't'],
        "TimeIntervalEnd"@ == seq!['T', 'i', 'm', 'e', 'I', 'n', 't', 'e', 'r', 'v', 'a', 'l', 'E', 'n', 'd'],
        "AvailableMoney"@ == seq!['A', 'v', 'a', 'i', 'l', 'a', 'b', 'l', 'e', 'M', 'o', 'n', 'e', 'y'],
{
    reveal_strlit("Constant");
    reveal_strlit("ConstantParam");
    reveal_strlit("Add");
    reveal_strlit("Sub");
    reveal_strlit("Mul");
    reveal_strlit("Div");
    reveal_strlit("Neg");
    reveal_strlit("Abs");
    reveal_strlit("ValueFromChoice");
    reveal_strlit("UseValue");
    reveal_strlit("TimeIntervalStart");
    reveal_strlit("TimeIntervalEnd");
    reveal_strlit("AvailableMoney");
}

proof fn lemma_value_leaf(v: ValueV, path: Seq<char>)
    requires
        value_plain(v),
        v is Hole || v is Param || v is Constant || v is UseValue || v is TimeIntervalStart || v is TimeIntervalEnd,
    ensures
        read_value(write_value(v), path) == Ok::<ValueV, crate::parser::ParseErrorV>(v),
{
    reveal_value_tags();
    match v {
        ValueV::Hole(n) => lemma_hole_text(n),
        ValueV::Param(n) => lemma_plain_unescape(n),
        ValueV::Constant(c) => lemma_integer_node(c),
        ValueV::UseValue(n) => lemma_plain_unescape(n),
        _ => {},
    }
}

proof fn lemma_value_binary(v: ValueV, path: Seq<char>, tag: Seq<char>, a: ValueV, b: ValueV)
    requires
        (v == ValueV::Add(Box::new(a), Box::new(b)) && tag == "Add"@) || (v == ValueV::Sub(Box::new(a), Box::new(b)) && tag
            == "Sub"@) || (v == ValueV::Mul(Box::new(a), Box::new(b)) && tag == "Mul"@) || (v == ValueV::Div(
            Box::new(a),
            Box::new(b),
        ) && tag == "Div"@),
        read_value(write_value(a), crate::text::index_path(crate::text::field_path(path, tag), 0)) == Ok::<
            ValueV,
            crate::parser::ParseErrorV,
        >(a),
        read_value(write_value(b), crate::text::index_path(crate::text::field_path(path, tag), 1)) == Ok::<
            ValueV,
            crate::parser::ParseErrorV,
        >(b),
    ensures
        read_value(write_value(v), path) == Ok::<ValueV, crate::parser::ParseErrorV>(v),
{
    reveal_value_tags();
}

proof fn lemma_value_unary(v: ValueV, path: Seq<char>, tag: Seq<char>, a: ValueV)
    requires
        (v == ValueV::Neg(Box::new(a)) && tag == "Neg"@) || (v == ValueV::Abs(Box::new(a)) && tag == "Abs"@),
        read_value(write_value(a), crate::text::field_path(path, tag)) == Ok::<ValueV, crate::parser::ParseErrorV>(a),
    ensures
        read_value(write_value(v), path) == Ok::<ValueV, crate::parser::ParseErrorV>(v),
{
    reveal_value_tags();
}

proof fn lemma_value_choice(v: ValueV, path: Seq<char>)
    requires
        value_plain(v),
        v is ValueFromChoice,
    ensures
        read_value(write_value(v), path) == Ok::<ValueV, crate::parser::ParseErrorV>(v),
{
    reveal_value_tags();
    if let ValueV::ValueFromChoice(c) = v {
        lemma_choice_id_round_trip(c, crate::text::field_path(path, "ValueFromChoice"@));
    }
}

proof fn lemma_value_money(v: ValueV, path: Seq<char>)
    requires
        value_plain(v),
        v is AvailableMoney,
    ensures
        read_value(write_value(v), path) == Ok::<ValueV, crate::parser::ParseErrorV>(v),
{
    reveal_value_tags();
    if let ValueV::AvailableMoney { account, token } = v {
        reveal_strlit("account");
        reveal_strlit("token");
        let p = crate::text::field_path(path, "AvailableMoney"@);
        let map = Seq::empty().push(entry("account"@, write_party(account))).push(entry("token"@, write_token(token)));
        lemma_key_at(map, "account"@, 0);
        lemma_key_at(map, "token"@, 1);
        lemma_party_round_trip(account, crate::text::field_path(p, "account"@));
        lemma_token_round_trip(token, crate::text::field_path(p, "token"@));
    }
}

/// A value reads back as written.
pub proof fn lemma_value_round_trip(v: ValueV, path: Seq<char>)
    requires
        value_plain(v),
    ensures
        read_value(write_value(v), path) == Ok::<ValueV, crate::parser::ParseErrorV>(v),
    decreases v,
{
    match v {
        ValueV::Add(a, b) => {
            let p = crate::text::field_path(path, "Add"@);
            lemma_value_round_trip(*a, crate::text::index_path(p, 0));
            lemma_value_round_trip(*b, crate::text::index_path(p, 1));
            lemma_value_binary(v, path, "Add"@, *a, *b);
        },
        ValueV::Sub(a, b) => {
            let p = crate::text::field_path(path, "Sub"@);
            lemma_value_round_trip(*a, crate::text::index_path(p, 0));
            lemma_value_round_trip(*b, crate::text::index_path(p, 1));
            lemma_value_binary(v, path, "Sub"@, *a, *b);
        },
        ValueV::Mul(a, b) => {
            let p = crate::text::field_path(path, "Mul"@);
            lemma_value_round_trip(*a, crate::text::index_path(p, 0));
            lemma_value_round_trip(*b, crate::text::index_path(p, 1));
            lemma_value_binary(v, path, "Mul"@, *a, *b);
        },
        ValueV::Div(a, b) => {
            let p = crate::text::field_path(path, "Div"@);
            lemma_value_round_trip(*a, crate::text::index_path(p, 0));
            lemma_value_round_trip(*b, crate::text::index_path(p, 1));
            lemma_value_binary(v, path, "Div"@, *a, *b);
        },
        ValueV::Neg(a) => {
            lemma_value_round_trip(*a, crate::text::field_path(path, "Neg"@));
            lemma_value_unary(v, path, "Neg"@, *a);
        },
        ValueV::Abs(a) => {
            lemma_value_round_trip(*a, crate::text::field_path(path, "Abs"@));
            lemma_value_unary(v, path, "Abs"@, *a);
        },
        ValueV::ValueFromChoice(_) => lemma_value_choice(v, path),
        ValueV::AvailableMoney { .. } => lemma_value_money(v, path),
        _ => lemma_value_leaf(v, path),
    }
}

} // verus!

verus! {

proof fn reveal_observation_tags()
    ensures
        "True"@ == seq!['T', 'r', 'u', 'e'],
        "False"@ == seq!['F', 'a', 'l', 's', 'e'],
        "And"@ == seq!['A', 'n', 'd'],
        "Or"@ == seq!['O', 'r'],
        "Not"@ == seq!['N', 'o', 't'],
        "ChoseSomething"@ == seq!['C', 'h', 'o', 's', 'e', 'S', 'o', 'm', 'e', 't', 'h', 'i', 'n', 'g'],
        "ValueGE"@ == seq!['V', 'a', 'l', 'u', 'e', 'G', 'E'],
        "ValueGT"@ == seq!['V', 'a', 'l', 'u', 'e', 'G', 'T'],
        "ValueLT"@ == seq!['V', 'a', 'l', 'u', 'e', 'L', 'T'],
        "ValueLE"@ == seq!['V', 'a', 'l', 'u', 'e', 'L', 'E'],
        "ValueEQ"@ == seq!['V', 'a', 'l', 'u', 'e', 'E', 'Q'],
{
    reveal_strlit("True");
    reveal_strlit("False");
    reveal_strlit("And");
    reveal_strlit("Or");
    reveal_strlit("Not");
    reveal_strlit("ChoseSomething");
    reveal_strlit("ValueGE");
    reveal_strlit("ValueGT");
    reveal_strlit("ValueLT");
    reveal_strlit("ValueLE");
    reveal_strlit("ValueEQ");
}

proof fn lemma_observation_leaf(o: ObservationV, path: Seq<char>)
    requires
        observation_plain(o),
        o is Hole || o is True || o is False || o is ChoseSomething,
    ensures
        read_observation(write_observation(o), path) == Ok::<ObservationV, crate::parser::ParseErrorV>(o),
{
    reveal_observation_tags();
    match o {
        ObservationV::Hole(n) => lemma_hole_text(n),
        ObservationV::ChoseSomething(c) => lemma_choice_id_round_trip(c, crate::text::field_path(path, "ChoseSomething"@)),
        _ => {},
    }
}

proof fn lemma_observation_logic(o: ObservationV, path: Seq<char>, tag: Seq<char>, a: ObservationV, b: ObservationV)
    requires
        (o == ObservationV::And(Box::new(a), Box::new(b)) && tag == "And"@) || (o == ObservationV::Or(Box::new(a), Box::new(b))
            && tag == "Or"@),
        read_observation(write_observation(a), crate::text::index_path(crate::text::field_path(path, tag), 0)) == Ok::<
            ObservationV,
            crate::parser::ParseErrorV,
        >(a),
        read_observation(write_observation(b), crate::text::index_path(crate::text::field_path(path, tag), 1)) == Ok::<
            ObservationV,
            crate::parser::ParseErrorV,
        >(b),
    ensures
        read_observation(write_observation(o), path) == Ok::<ObservationV, crate::parser::ParseErrorV>(o),
{
    reveal_observation_tags();
}

proof fn lemma_observation_not(o: ObservationV, path: Seq<char>, a: ObservationV)
    requires
        o == ObservationV::Not(Box::new(a)),
        read_observation(write_observation(a), crate::text::field_path(path, "Not"@)) == Ok::<
            ObservationV,
            crate::parser::ParseErrorV,
        >(a),
    ensures
        read_observation(write_observation(o), path) == Ok::<ObservationV, crate::parser::ParseErrorV>(o),
{
    reveal_observation_tags();
}

proof fn lemma_observation_compare(o: ObservationV, path: Seq<char>)
    requires
        observation_plain(o),
        o is ValueGE || o is ValueGT || o is ValueLT || o is ValueLE || o is ValueEQ,
    ensures
        read_observation(write_observation(o), path) == Ok::<ObservationV, crate::parser::ParseErrorV>(o),
{
    reveal_observation_tags();
    let tag = match o {
        ObservationV::ValueGE(..) => "ValueGE"@,
        ObservationV::ValueGT(..) => "ValueGT"@,
        ObservationV::ValueLT(..) => "ValueLT"@,
        ObservationV::ValueLE(..) => "ValueLE"@,
        _ => "ValueEQ"@,
    };
    let p = crate::text::field_path(path, tag);
    match o {
        ObservationV::ValueGE(a, b) | ObservationV::ValueGT(a, b) | ObservationV::ValueLT(a, b) | ObservationV::ValueLE(a, b)
        | ObservationV::ValueEQ(a, b) => {
            lemma_value_round_trip(a, crate::text::index_path(p, 0));
            lemma_value_round_trip(b, crate::text::index_path(p, 1));
        },
        _ => {},
    }
}

/// An observation reads back as written.
pub proof fn lemma_observation_round_trip(o: ObservationV, path: Seq<char>)
    requires
        observation_plain(o),
    ensures
        read_observation(write_observation(o), path) == Ok::<ObservationV, crate::parser::ParseErrorV>(o),
    decreases o,
{
    match o {
        ObservationV::And(a, b) => {
            let p = crate::text::field_path(path, "And"@);
            lemma_observation_round_trip(*a, crate::text::index_path(p, 0));
            lemma_observation_round_trip(*b, crate::text::index_path(p, 1));
            lemma_observation_logic(o, path, "And"@, *a, *b);
        },
        ObservationV::Or(a, b) => {
            let p = crate::text::field_path(path, "Or"@);
            lemma_observation_round_trip(*a, crate::text::index_path(p, 0));
            lemma_observation_round_trip(*b, crate::text::index_path(p, 1));
            lemma_observation_logic(o, path, "Or"@, *a, *b);
        },
        ObservationV::Not(a) => {
            lemma_observation_round_trip(*a, crate::text::field_path(path, "Not"@));
            lemma_observation_not(o, path, *a);
        },
        ObservationV::Hole(_) | ObservationV::True | ObservationV::False | ObservationV::ChoseSomething(_) => {
            lemma_observation_leaf(o, path);
        },
        _ => lemma_observation_compare(o, path),
    }
}

} // verus!

verus! {

proof fn lemma_key_absent(map: Seq<(YamlValue, YamlValue)>, key: Seq<char>)
    requires
        forall|j: int| 0 <= j < map.len() ==> map[j].0 != YamlValue::String(key),
    ensures
        key_position(map, key) is None,
{
    lemma_key_position(map, key);
}

pub open spec fn bound_plain(b: BoundV) -> bool {
    match b {
        BoundV::Hole(n) => hole_name(n),
        BoundV::Bound { from, to } => value_plain(from) && value_plain(to),
    }
}

pub open spec fn action_plain(a: ActionV) -> bool {
    match a {
        ActionV::Hole(n) => hole_name(n),
        ActionV::Deposit { into, by, token, amount } => party_plain(into) && party_plain(by) && token_plain(token)
            && value_plain(amount),
        ActionV::Choice { id, bounds } => choice_id_plain(id) && forall|i: int| 0 <= i < bounds.len() ==> #[trigger] bound_plain(bounds[i]),
        ActionV::Notify { if_ } => observation_plain(if_),
    }
}

pub proof fn lemma_bound_round_trip(b: BoundV, path: Seq<char>)
    requires
        bound_plain(b),
    ensures
        read_bound(write_bound(b), path) == Ok::<BoundV, ParseErrorV>(b),
{
    reveal_strlit("Bound");
    reveal_strlit("from");
    reveal_strlit("to");
    match b {
        BoundV::Hole(n) => lemma_hole_text(n),
        BoundV::Bound { from, to } => {
            let p = crate::text::field_path(path, "Bound"@);
            let map = Seq::empty().push(entry("from"@, write_value(from))).push(entry("to"@, write_value(to)));
            lemma_key_at(map, "from"@, 0);
            lemma_key_at(map, "to"@, 1);
            lemma_value_round_trip(from, crate::text::field_path(p, "from"@));
            lemma_value_round_trip(to, crate::text::field_path(p, "to"@));
        },
    }
}

proof fn lemma_bounds_round_trip(bounds: Seq<BoundV>, path: Seq<char>, i: nat)
    requires
        i <= bounds.len(),
        forall|j: int| 0 <= j < bounds.len() ==> #[trigger] bound_plain(bounds[j]),
    ensures
        read_bounds(bounds.map_values(|b: BoundV| write_bound(b)), path, i) == Ok::<Seq<BoundV>, ParseErrorV>(
            bounds.subrange(i as int, bounds.len() as int),
        ),
    decreases bounds.len() - i,
{
    let items = bounds.map_values(|b: BoundV| write_bound(b));
    if i < bounds.len() {
        assert(items[i as int] == write_bound(bounds[i as int]));
        lemma_bound_round_trip(bounds[i as int], crate::text::index_path(path, i));
        lemma_bounds_round_trip(bounds, path, i + 1);
        assert(seq![bounds[i as int]] + bounds.subrange((i + 1) as int, bounds.len() as int) =~= bounds.subrange(
            i as int,
            bounds.len() as int,
        ));
    } else {
        assert(bounds.subrange(i as int, bounds.len() as int) =~= Seq::<BoundV>::empty());
    }
}

proof fn reveal_action_tags()
    ensures
        "Deposit"@ == seq!['D', 'e', 'p', 'o', 's', 'i', 't'],
        "Choice"@ == seq!['C', 'h', 'o', 'i', 'c', 'e'],
        "Notify"@ == seq!['N', 'o', 't', 'i', 'f', 'y'],
        "into"@ == seq!['i', 'n', 't', 'o'],
        "by"@ == seq!['b', 'y'],
        "token"@ == seq!['t', 'o', 'k', 'e', 'n'],
        "amount"@ == seq!['a', 'm', 'o', 'u', 'n', 't'],
        "id"@ == seq!['i', 'd'],
        "bounds"@ == seq!['b', 'o', 'u', 'n', 'd', 's'],
        "if"@ == seq!['i', 'f'],
{
    reveal_strlit("Deposit");
    reveal_strlit("Choice");
    reveal_strlit("Notify");
    reveal_strlit("into");
    reveal_strlit("by");
    reveal_strlit("token");
    reveal_strlit("amount");
    reveal_strlit("id");
    reveal_strlit("bounds");
    reveal_strlit("if");
}

pub proof fn lemma_action_round_trip(a: ActionV, path: Seq<char>)
    requires
        action_plain(a),
    ensures
        read_action(write_action(a), path) == Ok::<ActionV, ParseErrorV>(a),
{
    reveal_action_tags();
    match a {
        ActionV::Hole(n) => lemma_hole_text(n),
        ActionV::Deposit { into, by, token, amount } => {
            let p = crate::text::field_path(path, "Deposit"@);
            let map = Seq::empty().push(entry("into"@, write_party(into))).push(entry("by"@, write_party(by))).push(
                entry("token"@, write_token(token)),
            ).push(entry("amount"@, write_value(amount)));
            lemma_key_at(map, "into"@, 0);
            lemma_key_at(map, "by"@, 1);
            lemma_key_at(map, "token"@, 2);
            lemma_key_at(map, "amount"@, 3);
            lemma_party_round_trip(into, crate::text::field_path(p, "into"@));
            lemma_party_round_trip(by, crate::text::field_path(p, "by"@));
            lemma_token_round_trip(token, crate::text::field_path(p, "token"@));
            lemma_value_round_trip(amount, crate::text::field_path(p, "amount"@));
        },
        ActionV::Choice { id, bounds } => {
            let p = crate::text::field_path(path, "Choice"@);
            let items = bounds.map_values(|b: BoundV| write_bound(b));
            let map = Seq::empty().push(entry("id"@, write_choice_id(id))).push(entry("bounds"@, YamlValue::Sequence(items)));
            lemma_key_at(map, "id"@, 0);
            lemma_key_at(map, "bounds"@, 1);
            lemma_choice_id_round_trip(id, crate::text::field_path(p, "id"@));
            lemma_bounds_round_trip(bounds, crate::text::field_path(p, "bounds"@), 0);
            assert(bounds.subrange(0, bounds.len() as int) =~= bounds);
        },
        ActionV::Notify { if_ } => {
            let p = crate::text::field_path(path, "Notify"@);
            let map = Seq::empty().push(entry("if"@, write_observation(if_)));
            lemma_key_at(map, "if"@, 0);
            lemma_observation_round_trip(if_, crate::text::field_path(p, "if"@));
        },
    }
}

} // verus!

verus! {

pub open spec fn payee_plain(to: PayeeTargetV) -> bool {
    match to {
        PayeeTargetV::ToParty(p) => party_plain(p),
        PayeeTargetV::ToAccount(p) => party_plain(p),
        PayeeTargetV::Hole(_) => false,
    }
}

/// A contract whose texts all survive writing and reading.
pub open spec fn contract_plain(c: ContractV) -> bool
    decreases c, 0nat,
{
    match c {
        ContractV::Hole(n) => hole_name(n),
        ContractV::Close => true,
        ContractV::Pay { from, to, token, amount, then } => party_plain(from) && payee_plain(to) && token_plain(token)
            && value_plain(amount) && contract_plain(*then),
        ContractV::If { cond, then, else_ } => observation_plain(cond) && contract_plain(*then) && contract_plain(*else_),
        ContractV::When { cases, timeout, timeout_continuation } => cases_plain(cases, 0) && timeout_plain(timeout)
            && contract_plain(*timeout_continuation),
        ContractV::Let { name, value, then } => plain_text(name) && value_plain(value) && contract_plain(*then),
        ContractV::Assert { cond, then } => observation_plain(cond) && contract_plain(*then),
    }
}

pub open spec fn case_plain(c: CaseV) -> bool
    decreases c, 0nat,
{
    match c {
        CaseV::Hole(n) => hole_name(n),
        CaseV::Case { action, then } => action_plain(action) && contract_plain(*then),
    }
}

pub open spec fn cases_plain(cases: Seq<CaseV>, i: nat) -> bool
    decreases cases, cases.len() - i,
{
    if i >= cases.len() {
        true
    } else {
        case_plain(cases[i as int]) && cases_plain(cases, i + 1)
    }
}

proof fn lemma_write_cases(cases: Seq<CaseV>)
    ensures
        write_cases(cases).len() == cases.len(),
        forall|i: int| 0 <= i < cases.len() ==> #[trigger] write_cases(cases)[i] == write_case(cases[i]),
    decreases cases.len(),
{
    if cases.len() > 0 {
        lemma_write_cases(cases.drop_first());
        assert forall|i: int| 0 <= i < cases.len() implies #[trigger] write_cases(cases)[i] == write_case(cases[i]) by {
            if i > 0 {
                assert(cases.drop_first()[i - 1] == cases[i]);
            }
        }
    }
}

proof fn reveal_contract_tags()
    ensures
        "Close"@ == seq!['C', 'l', 'o', 's', 'e'],
        "Pay"@ == seq!['P', 'a', 'y'],
        "If"@ == seq!['I', 'f'],
        "When"@ == seq!['W', 'h', 'e', 'n'],
        "Let"@ == seq!['L', 'e', 't'],
        "Assert"@ == seq!['A', 's', 's', 'e', 'r', 't'],
        "Case"@ == seq!['C', 'a', 's', 'e'],
        "from"@ == seq!['f', 'r', 'o', 'm'],
        "token"@ == seq!['t', 'o', 'k', 'e', 'n'],
        "amount"@ == seq!['a', 'm', 'o', 'u', 'n', 't'],
        "then"@ == seq!['t', 'h', 'e', 'n'],
        "to_party"@ == seq!['t', 'o', '_', 'p', 'a', 'r', 't', 'y'],
        "to_account"@ == seq!['t', 'o', '_', 'a', 'c', 'c', 'o', 'u', 'n', 't'],
        "cond"@ == seq!['c', 'o', 'n', 'd'],
        "else"@ == seq!['e', 'l', 's', 'e'],
        "cases"@ == seq!['c', 'a', 's', 'e', 's'],
        "timeout"@ == seq!['t', 'i', 'm', 'e', 'o', 'u', 't'],
        "timeout_continuation"@ == seq![
            't', 'i', 'm', 'e', 'o', 'u', 't', '_', 'c', 'o', 'n', 't', 'i', 'n', 'u', 'a', 't', 'i', 'o', 'n'
        ],
        "name"@ == seq!['n', 'a', 'm', 'e'],
        "value"@ == seq!['v', 'a', 'l', 'u', 'e'],
        "action"@ == seq!['a', 'c', 't', 'i', 'o', 'n'],
{
    reveal_strlit("Close");
    reveal_strlit("Pay");
    reveal_strlit("If");
    reveal_strlit("When");
    reveal_strlit("Let");
    reveal_strlit("Assert");
    reveal_strlit("Case");
    reveal_strlit("from");
    reveal_strlit("token");
    reveal_strlit("amount");
    reveal_strlit("then");
    reveal_strlit("to_party");
    reveal_strlit("to_account");
    reveal_strlit("cond");
    reveal_strlit("else");
    reveal_strlit("cases");
    reveal_strlit("timeout");
    reveal_strlit("timeout_continuation");
    reveal_strlit("name");
    reveal_strlit("value");
    reveal_strlit("action");
}

proof fn lemma_contract_pay(c: ContractV, path: Seq<char>)
    requires
        contract_plain(c),
        c is Pay,
        c matches ContractV::Pay { then, .. } && read_contract(
            write_contract(*then),
            crate::text::field_path(crate::text::field_path(path, "Pay"@), "then"@),
        ) == Ok::<ContractV, ParseErrorV>(*then),
    ensures
        read_contract(write_contract(c), path) == Ok::<ContractV, ParseErrorV>(c),
{
    reveal_contract_tags();
    if let ContractV::Pay { from, to, token, amount, then } = c {
        let p = crate::text::field_path(path, "Pay"@);
        let map = Seq::empty().push(entry("from"@, write_party(from))).push(entry("token"@, write_token(token))).push(
            entry("amount"@, write_value(amount)),
        ).push(entry("then"@, write_contract(*then))).push(crate::serializer::write_payee(to));
        lemma_key_at(map, "from"@, 0);
        lemma_key_at(map, "token"@, 1);
        lemma_key_at(map, "amount"@, 2);
        lemma_key_at(map, "then"@, 3);
        lemma_party_round_trip(from, crate::text::field_path(p, "from"@));
        lemma_token_round_trip(token, crate::text::field_path(p, "token"@));
        lemma_value_round_trip(amount, crate::text::field_path(p, "amount"@));
        match to {
            PayeeTargetV::ToParty(q) => {
                lemma_key_at(map, "to_party"@, 4);
                lemma_key_absent(map, "to_account"@);
                lemma_party_round_trip(q, crate::text::field_path(p, "to_party"@));
            },
            PayeeTargetV::ToAccount(q) => {
                lemma_key_at(map, "to_account"@, 4);
                lemma_key_absent(map, "to_party"@);
                lemma_party_round_trip(q, crate::text::field_path(p, "to_account"@));
            },
            _ => {},
        }
        assert(read_contract_body("Pay"@, map, p) == Ok::<ContractV, ParseErrorV>(c));
    }
}

#[verifier::spinoff_prover]
#[verifier::rlimit(100)]
proof fn lemma_contract_if(c: ContractV, path: Seq<char>)
    requires
        contract_plain(c),
        c matches ContractV::If { then, else_, .. } && read_contract(
            write_contract(*then),
            crate::text::field_path(crate::text::field_path(path, "If"@), "then"@),
        ) == Ok::<ContractV, ParseErrorV>(*then) && read_contract(
            write_contract(*else_),
            crate::text::field_path(crate::text::field_path(path, "If"@), "else"@),
        ) == Ok::<ContractV, ParseErrorV>(*else_),
    ensures
        read_contract(write_contract(c), path) == Ok::<ContractV, ParseErrorV>(c),
{
    reveal_contract_tags();
    if let ContractV::If { cond, then, else_ } = c {
        let p = crate::text::field_path(path, "If"@);
        let map = Seq::empty().push(entry("cond"@, write_observation(cond))).push(entry("then"@, write_contract(*then))).push(
            entry("else"@, write_contract(*else_)),
        );
        lemma_key_at(map, "cond"@, 0);
        lemma_key_at(map, "then"@, 1);
        lemma_key_at(map, "else"@, 2);
        lemma_observation_round_trip(cond, crate::text::field_path(p, "cond"@));
        assert(read_contract_body("If"@, map, p) == Ok::<ContractV, ParseErrorV>(c));
    }
}

proof fn lemma_contract_when(c: ContractV, path: Seq<char>)
    requires
        contract_plain(c),
        c matches ContractV::When { cases, timeout_continuation, .. } && read_cases(
            write_cases(cases),
            crate::text::field_path(crate::text::field_path(path, "When"@), "cases"@),
            0,
        ) == Ok::<Seq<CaseV>, ParseErrorV>(cases) && read_contract(
            write_contract(*timeout_continuation),
            crate::text::field_path(crate::text::field_path(path, "When"@), "timeout_continuation"@),
        ) == Ok::<ContractV, ParseErrorV>(*timeout_continuation),
    ensures
        read_contract(write_contract(c), path) == Ok::<ContractV, ParseErrorV>(c),
{
    reveal_contract_tags();
    if let ContractV::When { cases, timeout, timeout_continuation } = c {
        let p = crate::text::field_path(path, "When"@);
        let map = Seq::empty().push(entry("cases"@, YamlValue::Sequence(write_cases(cases)))).push(
            entry("timeout"@, write_timeout(timeout)),
        ).push(entry("timeout_continuation"@, write_contract(*timeout_continuation)));
        lemma_key_at(map, "cases"@, 0);
        lemma_key_at(map, "timeout"@, 1);
        lemma_key_at(map, "timeout_continuation"@, 2);
        lemma_timeout_round_trip(timeout, crate::text::field_path(p, "timeout"@));
        assert(read_contract_body("When"@, map, p) == Ok::<ContractV, ParseErrorV>(c));
    }
}

#[verifier::spinoff_prover]
#[verifier::rlimit(100)]
proof fn lemma_contract_let(c: ContractV, path: Seq<char>)
    requires
        contract_plain(c),
        c matches ContractV::Let { then, .. } && read_contract(
            write_contract(*then),
            crate::text::field_path(crate::text::field_path(path, "Let"@), "then"@),
        ) == Ok::<ContractV, ParseErrorV>(*then),
    ensures
        read_contract(write_contract(c), path) == Ok::<ContractV, ParseErrorV>(c),
{
    reveal_contract_tags();
    if let ContractV::Let { name, value, then } = c {
        let p = crate::text::field_path(path, "Let"@);
        let map = Seq::empty().push(entry("name"@, text_node(name))).push(entry("value"@, write_value(value))).push(
            entry("then"@, write_contract(*then)),
        );
        lemma_key_at(map, "name"@, 0);
        lemma_key_at(map, "value"@, 1);
        lemma_key_at(map, "then"@, 2);
        lemma_plain_unescape(name);
        lemma_value_round_trip(value, crate::text::field_path(p, "value"@));
        assert(read_contract_body("Let"@, map, p) == Ok::<ContractV, ParseErrorV>(c));
    }
}

#[verifier::rlimit(60)]
proof fn lemma_contract_assert(c: ContractV, path: Seq<char>)
    requires
        contract_plain(c),
        c matches ContractV::Assert { then, .. } && read_contract(
            write_contract(*then),
            crate::text::field_path(crate::text::field_path(path, "Assert"@), "then"@),
        ) == Ok::<ContractV, ParseErrorV>(*then),
    ensures
        read_contract(write_contract(c), path) == Ok::<ContractV, ParseErrorV>(c),
{
    reveal_contract_tags();
    if let ContractV::Assert { cond, then } = c {
        let p = crate::text::field_path(path, "Assert"@);
        let map = Seq::empty().push(entry("cond"@, write_observation(cond))).push(entry("then"@, write_contract(*then)));
        lemma_key_at(map, "cond"@, 0);
        lemma_key_at(map, "then"@, 1);
        lemma_observation_round_trip(cond, crate::text::field_path(p, "cond"@));
        assert(read_contract_body("Assert"@, map, p) == Ok::<ContractV, ParseErrorV>(c));
    }
}

proof fn lemma_contract_leaf(c: ContractV, path: Seq<char>)
    requires
        contract_plain(c),
        c is Hole || c is Close,
    ensures
        read_contract(write_contract(c), path) == Ok::<ContractV, ParseErrorV>(c),
{
    reveal_contract_tags();
    if let ContractV::Hole(n) = c {
        lemma_hole_text(n);
    }
}

proof fn lemma_case_step(c: CaseV, path: Seq<char>)
    requires
        case_plain(c),
        c matches CaseV::Case { then, .. } ==> read_contract(
            write_contract(*then),
            crate::text::field_path(crate::text::field_path(path, "Case"@), "then"@),
        ) == Ok::<ContractV, ParseErrorV>(*then),
    ensures
        read_case(write_case(c), path) == Ok::<CaseV, ParseErrorV>(c),
{
    reveal_contract_tags();
    match c {
        CaseV::Hole(n) => lemma_hole_text(n),
        CaseV::Case { action, then } => {
            let p = crate::text::field_path(path, "Case"@);
            let map = Seq::empty().push(entry("action"@, write_action(action))).push(entry("then"@, write_contract(*then)));
            lemma_key_at(map, "action"@, 0);
            lemma_key_at(map, "then"@, 1);
            lemma_action_round_trip(action, crate::text::field_path(p, "action"@));
        },
    }
}

/// A contract reads back as written: reading the writer's node for a
/// contract whose texts survive the encoding gives the same contract.
pub proof fn lemma_contract_round_trip(c: ContractV, path: Seq<char>)
    requires
        contract_plain(c),
    ensures
        read_contract(write_contract(c), path) == Ok::<ContractV, ParseErrorV>(c),
    decreases c, 0nat,
{
    match c {
        ContractV::Pay { then, .. } => {
            lemma_contract_round_trip(*then, crate::text::field_path(crate::text::field_path(path, "Pay"@), "then"@));
            lemma_contract_pay(c, path);
        },
        ContractV::If { then, else_, .. } => {
            let p = crate::text::field_path(path, "If"@);
            lemma_contract_round_trip(*then, crate::text::field_path(p, "then"@));
            lemma_contract_round_trip(*else_, crate::text::field_path(p, "else"@));
            lemma_contract_if(c, path);
        },
        ContractV::When { cases, timeout_continuation, .. } => {
            let p = crate::text::field_path(path, "When"@);
            lemma_cases_round_trip(cases, crate::text::field_path(p, "cases"@), 0);
            assert(cases.subrange(0, cases.len() as int) =~= cases);
            lemma_contract_round_trip(*timeout_continuation, crate::text::field_path(p, "timeout_continuation"@));
            lemma_contract_when(c, path);
        },
        ContractV::Let { then, .. } => {
            lemma_contract_round_trip(*then, crate::text::field_path(crate::text::field_path(path, "Let"@), "then"@));
            lemma_contract_let(c, path);
        },
        ContractV::Assert { then, .. } => {
            lemma_contract_round_trip(*then, crate::text::field_path(crate::text::field_path(path, "Assert"@), "then"@));
            lemma_contract_assert(c, path);
        },
        _ => lemma_contract_leaf(c, path),
    }
}

proof fn lemma_case_round_trip(c: CaseV, path: Seq<char>)
    requires
        case_plain(c),
    ensures
        read_case(write_case(c), path) == Ok::<CaseV, ParseErrorV>(c),
    decreases c, 0nat,
{
    if let CaseV::Case { then, .. } = c {
        lemma_contract_round_trip(*then, crate::text::field_path(crate::text::field_path(path, "Case"@), "then"@));
    }
    lemma_case_step(c, path);
}

#[verifier::spinoff_prover]
#[verifier::rlimit(100)]
proof fn lemma_cases_round_trip(cases: Seq<CaseV>, path: Seq<char>, i: nat)
    requires
        i <= cases.len(),
        cases_plain(cases, i),
    ensures
        read_cases(write_cases(cases), path, i) == Ok::<Seq<CaseV>, ParseErrorV>(cases.subrange(i as int, cases.len() as int)),
    decreases cases, cases.len() - i,
{
    lemma_write_cases(cases);
    if i < cases.len() {
        assert(write_cases(cases)[i as int] == write_case(cases[i as int]));
        lemma_case_round_trip(cases[i as int], crate::text::index_path(path, i));
        lemma_cases_round_trip(cases, path, i + 1);
        assert(seq![cases[i as int]] + cases.subrange((i + 1) as int, cases.len() as int) =~= cases.subrange(
            i as int,
            cases.len() as int,
        ));
    } else {
        assert(cases.subrange(i as int, cases.len() as int) =~= Seq::<CaseV>::empty());
    }
}

} // verus!
