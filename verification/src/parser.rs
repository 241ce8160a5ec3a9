//! The Extended Marlowe grammar over YAML nodes.
//!
//! Constructors are single-key mappings; `?name` is a hole in any typed
//! position, `$name` a parameter in `Value` and `Timeout` positions, and a
//! doubled prefix (`??x`, `$$x`) escapes a literal.
use crate::ast::{
    bounds_view, case_view, cases_view, lemma_cases_view, lemma_cases_view_push,
    Action, Bound, Case, ChoiceId, Contract, NumericValue, Observation, Party, PayeeTarget, Timeout, Token,
    ActionV, BoundV, CaseV, ChoiceIdV, ContractV, ObservationV, PartyV, PayeeTargetV, TimeoutV, TokenV,
    ValueV,
};
use crate::integer::{decimal_integer, Integer};
use crate::text::{field, field_path, has_prefix, index, index_path, same_text, starts_with};
use crate::yaml::{
    read_yaml, yaml_document,    lemma_entries_view, lemma_seq_view, yaml_entries_view, yaml_seq_view, yaml_view, YamlNode, YamlNumber, YamlValue,
};
use vstd::prelude::*;

verus! {

/// Where and why a contract could not be read.
#[derive(Debug, Clone, PartialEq, Eq)]
pub struct ParseError {
    pub path: String,
    pub message: String,
}

pub struct ParseErrorV {
    pub path: Seq<char>,
    pub message: Seq<char>,
}

impl View for ParseError {
    type V = ParseErrorV;

    open spec fn view(&self) -> ParseErrorV {
        ParseErrorV { path: self.path@, message: self.message@ }
    }
}

pub open spec fn viewed<T: View>(r: Result<T, ParseError>) -> Result<T::V, ParseErrorV> {
    match r {
        Ok(t) => Ok(t@),
        Err(e) => Err(e@),
    }
}

pub open spec fn fail<T>(path: Seq<char>, message: Seq<char>) -> Result<T, ParseErrorV> {
    Err(ParseErrorV { path, message })
}

/// `??x` stands for the literal `?x` and `$$x` for `$x`.
pub open spec fn unescape(raw: Seq<char>) -> Seq<char> {
    if has_prefix(raw, "??"@) {
        "?"@ + raw.skip(2)
    } else if has_prefix(raw, "$$"@) {
        "$"@ + raw.skip(2)
    } else {
        raw
    }
}

/// The prefix followed by a non-empty name without spaces.
pub open spec fn is_prefixed_symbol(v: Seq<char>, prefix: char) -> bool {
    v.len() > 1 && v[0] == prefix && !v.skip(1).contains(' ')
}

/// A hole `?name` or a parameter `$name`, told from the text as written: a
/// doubled prefix (`??x`, `$$x`) escapes a literal text, and is no symbol.
pub open spec fn read_prefixed(node: YamlValue, prefix: char) -> Option<Seq<char>> {
    match node {
        YamlValue::String(raw) => if is_prefixed_symbol(raw, prefix) && raw[1] != prefix {
            Some(raw.skip(1))
        } else {
            None
        },
        _ => None,
    }
}

pub open spec fn read_hole(node: YamlValue) -> Option<Seq<char>> {
    read_prefixed(node, '?')
}

pub open spec fn read_param(node: YamlValue) -> Option<Seq<char>> {
    read_prefixed(node, '$')
}

pub open spec fn refuse_param(node: YamlValue, path: Seq<char>, expected: Seq<char>) -> Result<(), ParseErrorV> {
    match read_param(node) {
        Some(name) => fail(path, "parameter '$"@ + name + "' is not valid in "@ + expected + " position"@),
        None => Ok(()),
    }
}

pub open spec fn read_mapping(node: YamlValue, path: Seq<char>, expected: Seq<char>) -> Result<Seq<(YamlValue, YamlValue)>, ParseErrorV> {
    match node {
        YamlValue::Mapping(m) => Ok(m),
        _ => fail(path, "expected "@ + expected + " mapping"@),
    }
}

pub open spec fn read_variant(node: YamlValue, path: Seq<char>, expected: Seq<char>) -> Result<(Seq<char>, YamlValue), ParseErrorV> {
    match read_mapping(node, path, expected) {
        Err(e) => Err(e),
        Ok(m) => if m.len() != 1 {
            fail(path, expected + " must be a single-key constructor mapping"@)
        } else {
            match m[0].0 {
                YamlValue::String(k) => Ok((k, m[0].1)),
                _ => fail(path, expected + " constructor key must be a string"@),
            }
        },
    }
}

pub open spec fn read_sequence(node: YamlValue, path: Seq<char>, expected: Seq<char>) -> Result<Seq<YamlValue>, ParseErrorV> {
    match node {
        YamlValue::Sequence(s) => Ok(s),
        _ => fail(path, "expected "@ + expected + " sequence"@),
    }
}

pub open spec fn read_pair(node: YamlValue, path: Seq<char>, expected: Seq<char>) -> Result<Seq<YamlValue>, ParseErrorV> {
    match read_sequence(node, path, expected) {
        Err(e) => Err(e),
        Ok(s) => if s.len() != 2 {
            fail(path, expected + " requires exactly 2 elements"@)
        } else {
            Ok(s)
        },
    }
}

pub open spec fn read_empty(node: YamlValue, path: Seq<char>) -> Result<(), ParseErrorV> {
    match node {
        YamlValue::Mapping(m) => if m.len() == 0 { Ok(()) } else { fail(path, "expected empty mapping {}"@) },
        _ => fail(path, "expected empty mapping {}"@),
    }
}

/// The position of the first entry whose key is the string `key`.
pub open spec fn key_position(map: Seq<(YamlValue, YamlValue)>, key: Seq<char>) -> Option<int>
    decreases map.len(),
{
    if map.len() == 0 {
        None
    } else if map[0].0 == YamlValue::String(key) {
        Some(0)
    } else {
        match key_position(map.drop_first(), key) {
            Some(i) => Some(i + 1),
            None => None,
        }
    }
}

pub proof fn lemma_key_position(map: Seq<(YamlValue, YamlValue)>, key: Seq<char>)
    ensures
        key_position(map, key) matches Some(i) ==> 0 <= i < map.len() && map[i].0 == YamlValue::String(key)
            && forall|j: int| 0 <= j < i ==> map[j].0 != YamlValue::String(key),
        key_position(map, key) is None ==> forall|j: int| 0 <= j < map.len() ==> map[j].0 != YamlValue::String(key),
    decreases map.len(),
{
    if map.len() > 0 {
        lemma_key_position(map.drop_first(), key);
        if key_position(map, key) is None {
            assert forall|j: int| 0 <= j < map.len() implies map[j].0 != YamlValue::String(key) by {
                if j > 0 {
                    assert(map.drop_first()[j - 1] == map[j]);
                }
            }
        }
        if let Some(i) = key_position(map, key) {
            if i > 0 {
                assert forall|j: int| 0 <= j < i implies map[j].0 != YamlValue::String(key) by {
                    if j > 0 {
                        assert(map.drop_first()[j - 1] == map[j]);
                    }
                }
            }
        }
    }
}

pub open spec fn read_required(map: Seq<(YamlValue, YamlValue)>, path: Seq<char>, key: Seq<char>) -> Result<YamlValue, ParseErrorV> {
    match key_position(map, key) {
        Some(i) => Ok(map[i].1),
        None => fail(path, "missing required key '"@ + key + "'"@),
    }
}

pub open spec fn read_optional(map: Seq<(YamlValue, YamlValue)>, key: Seq<char>) -> Option<YamlValue> {
    match key_position(map, key) {
        Some(i) => Some(map[i].1),
        None => None,
    }
}

pub open spec fn read_raw_string(node: YamlValue, path: Seq<char>) -> Result<Seq<char>, ParseErrorV> {
    match node {
        YamlValue::String(raw) => Ok(unescape(raw)),
        _ => fail(path, "expected string"@),
    }
}

pub open spec fn read_integer(node: YamlValue, path: Seq<char>) -> Result<int, ParseErrorV> {
    match node {
        YamlValue::Number(YamlNumber::Signed(i)) => Ok(i as int),
        YamlValue::Number(YamlNumber::Unsigned(u)) => Ok(u as int),
        YamlValue::Number(YamlNumber::Fractional) => fail(path, "integer out of supported yaml numeric range; pass as string"@),
        YamlValue::String(raw) => match decimal_integer(unescape(raw)) {
            Some(v) => Ok(v),
            None => fail(path, "invalid integer '"@ + unescape(raw) + "'"@),
        },
        _ => fail(path, "expected integer"@),
    }
}

pub open spec fn read_party(node: YamlValue, path: Seq<char>) -> Result<PartyV, ParseErrorV> {
    match read_hole(node) {
        Some(name) => Ok(PartyV::Hole(name)),
        None => match refuse_param(node, path, "Party"@) {
            Err(e) => Err(e),
            Ok(_) => match read_variant(node, path, "Party"@) {
                Err(e) => Err(e),
                Ok((tag, body)) => if tag == "Role"@ {
                    match read_raw_string(body, field_path(path, "Role"@)) {
                        Ok(s) => Ok(PartyV::Role(s)),
                        Err(e) => Err(e),
                    }
                } else if tag == "Address"@ {
                    match read_raw_string(body, field_path(path, "Address"@)) {
                        Ok(s) => Ok(PartyV::Address(s)),
                        Err(e) => Err(e),
                    }
                } else {
                    fail(path, "unknown Party constructor '"@ + tag + "'"@)
                },
            },
        },
    }
}

pub open spec fn read_token(node: YamlValue, path: Seq<char>) -> Result<TokenV, ParseErrorV> {
    match read_hole(node) {
        Some(name) => Ok(TokenV::Hole(name)),
        None => match refuse_param(node, path, "Token"@) {
            Err(e) => Err(e),
            Ok(_) => match read_variant(node, path, "Token"@) {
                Err(e) => Err(e),
                Ok((tag, body)) => if tag != "Token"@ {
                    fail(path, "unknown Token constructor '"@ + tag + "'"@)
                } else {
                    let p = field_path(path, "Token"@);
                    match read_mapping(body, p, "Token"@) {
                        Err(e) => Err(e),
                        Ok(map) => match read_required(map, p, "currency_symbol"@) {
                            Err(e) => Err(e),
                            Ok(cs) => match read_raw_string(cs, field_path(p, "currency_symbol"@)) {
                                Err(e) => Err(e),
                                Ok(currency_symbol) => match read_required(map, p, "token_name"@) {
                                    Err(e) => Err(e),
                                    Ok(tn) => match read_raw_string(tn, field_path(p, "token_name"@)) {
                                        Err(e) => Err(e),
                                        Ok(token_name) => Ok(TokenV::Token { currency_symbol, token_name }),
                                    },
                                },
                            },
                        },
                    }
                },
            },
        },
    }
}

pub open spec fn read_choice_id(node: YamlValue, path: Seq<char>) -> Result<ChoiceIdV, ParseErrorV> {
    match read_hole(node) {
        Some(name) => Ok(ChoiceIdV::Hole(name)),
        None => match refuse_param(node, path, "ChoiceId"@) {
            Err(e) => Err(e),
            Ok(_) => match read_variant(node, path, "ChoiceId"@) {
                Err(e) => Err(e),
                Ok((tag, body)) => if tag != "ChoiceId"@ {
                    fail(path, "unknown ChoiceId constructor '"@ + tag + "'"@)
                } else {
                    let p = field_path(path, "ChoiceId"@);
                    match read_mapping(body, p, "ChoiceId"@) {
                        Err(e) => Err(e),
                        Ok(map) => match read_required(map, p, "name"@) {
                            Err(e) => Err(e),
                            Ok(n) => match read_raw_string(n, field_path(p, "name"@)) {
                                Err(e) => Err(e),
                                Ok(name) => match read_required(map, p, "party"@) {
                                    Err(e) => Err(e),
                                    Ok(pn) => match read_party(pn, field_path(p, "party"@)) {
                                        Err(e) => Err(e),
                                        Ok(party) => Ok(ChoiceIdV::ChoiceId { name, party }),
                                    },
                                },
                            },
                        },
                    }
                },
            },
        },
    }
}


pub open spec fn read_value(node: YamlValue, path: Seq<char>) -> Result<ValueV, ParseErrorV>
    decreases node,
{
    match read_hole(node) {
        Some(name) => Ok(ValueV::Hole(name)),
        None => match read_param(node) {
            Some(name) => Ok(ValueV::Param(name)),
            None => match node {
                YamlValue::Mapping(m) => if m.len() != 1 {
                    fail(path, "Value must be a single-key constructor mapping"@)
                } else {
                    match m[0].0 {
                        YamlValue::String(tag) => {
                            let body = m[0].1;
                            if tag == "Constant"@ {
                                match read_integer(body, field_path(path, "Constant"@)) {
                                    Ok(v) => Ok(ValueV::Constant(v)),
                                    Err(e) => Err(e),
                                }
                            } else if tag == "ConstantParam"@ {
                                match read_raw_string(body, field_path(path, "ConstantParam"@)) {
                                    Ok(v) => Ok(ValueV::Param(v)),
                                    Err(e) => Err(e),
                                }
                            } else if tag == "Add"@ || tag == "Sub"@ || tag == "Mul"@ || tag == "Div"@ {
                                let p = field_path(path, tag);
                                match body {
                                    YamlValue::Sequence(s) => if s.len() != 2 {
                                        fail(p, tag + " requires exactly 2 elements"@)
                                    } else {
                                        match read_value(s[0], index_path(p, 0)) {
                                            Err(e) => Err(e),
                                            Ok(a) => match read_value(s[1], index_path(p, 1)) {
                                                Err(e) => Err(e),
                                                Ok(b) => Ok(
                                                    if tag == "Add"@ {
                                                        ValueV::Add(Box::new(a), Box::new(b))
                                                    } else if tag == "Sub"@ {
                                                        ValueV::Sub(Box::new(a), Box::new(b))
                                                    } else if tag == "Mul"@ {
                                                        ValueV::Mul(Box::new(a), Box::new(b))
                                                    } else {
                                                        ValueV::Div(Box::new(a), Box::new(b))
                                                    },
                                                ),
                                            },
                                        }
                                    },
                                    _ => fail(p, "expected "@ + tag + " sequence"@),
                                }
                            } else if tag == "Neg"@ {
                                match read_value(body, field_path(path, "Neg"@)) {
                                    Ok(v) => Ok(ValueV::Neg(Box::new(v))),
                                    Err(e) => Err(e),
                                }
                            } else if tag == "Abs"@ {
                                match read_value(body, field_path(path, "Abs"@)) {
                                    Ok(v) => Ok(ValueV::Abs(Box::new(v))),
                                    Err(e) => Err(e),
                                }
                            } else if tag == "ValueFromChoice"@ {
                                match read_choice_id(body, field_path(path, "ValueFromChoice"@)) {
                                    Ok(c) => Ok(ValueV::ValueFromChoice(c)),
                                    Err(e) => Err(e),
                                }
                            } else if tag == "UseValue"@ {
                                match read_raw_string(body, field_path(path, "UseValue"@)) {
                                    Ok(v) => Ok(ValueV::UseValue(v)),
                                    Err(e) => Err(e),
                                }
                            } else if tag == "TimeIntervalStart"@ {
                                match read_empty(body, field_path(path, "TimeIntervalStart"@)) {
                                    Ok(_) => Ok(ValueV::TimeIntervalStart),
                                    Err(e) => Err(e),
                                }
                            } else if tag == "TimeIntervalEnd"@ {
                                match read_empty(body, field_path(path, "TimeIntervalEnd"@)) {
                                    Ok(_) => Ok(ValueV::TimeIntervalEnd),
                                    Err(e) => Err(e),
                                }
                            } else if tag == "AvailableMoney"@ {
                                let p = field_path(path, "AvailableMoney"@);
                                match read_mapping(body, p, "AvailableMoney"@) {
                                    Err(e) => Err(e),
                                    Ok(map) => match read_required(map, p, "account"@) {
                                        Err(e) => Err(e),
                                        Ok(an) => match read_party(an, field_path(p, "account"@)) {
                                            Err(e) => Err(e),
                                            Ok(account) => match read_required(map, p, "token"@) {
                                                Err(e) => Err(e),
                                                Ok(tn) => match read_token(tn, field_path(p, "token"@)) {
                                                    Err(e) => Err(e),
                                                    Ok(token) => Ok(ValueV::AvailableMoney { account, token }),
                                                },
                                            },
                                        },
                                    },
                                }
                            } else {
                                fail(path, "unknown Value constructor '"@ + tag + "'"@)
                            }
                        },
                        _ => fail(path, "Value constructor key must be a string"@),
                    }
                },
                _ => fail(path, "expected Value mapping"@),
            },
        },
    }
}


pub open spec fn read_observation(node: YamlValue, path: Seq<char>) -> Result<ObservationV, ParseErrorV>
    decreases node,
{
    match read_hole(node) {
        Some(name) => Ok(ObservationV::Hole(name)),
        None => match refuse_param(node, path, "Observation"@) {
            Err(e) => Err(e),
            Ok(_) => match node {
                YamlValue::Mapping(m) => if m.len() != 1 {
                    fail(path, "Observation must be a single-key constructor mapping"@)
                } else {
                    match m[0].0 {
                        YamlValue::String(tag) => {
                            let body = m[0].1;
                            if tag == "True"@ {
                                match read_empty(body, field_path(path, "True"@)) {
                                    Ok(_) => Ok(ObservationV::True),
                                    Err(e) => Err(e),
                                }
                            } else if tag == "False"@ {
                                match read_empty(body, field_path(path, "False"@)) {
                                    Ok(_) => Ok(ObservationV::False),
                                    Err(e) => Err(e),
                                }
                            } else if tag == "And"@ || tag == "Or"@ {
                                let p = field_path(path, tag);
                                match body {
                                    YamlValue::Sequence(s) => if s.len() != 2 {
                                        fail(p, tag + " requires exactly 2 elements"@)
                                    } else {
                                        match read_observation(s[0], index_path(p, 0)) {
                                            Err(e) => Err(e),
                                            Ok(a) => match read_observation(s[1], index_path(p, 1)) {
                                                Err(e) => Err(e),
                                                Ok(b) => Ok(
                                                    if tag == "And"@ {
                                                        ObservationV::And(Box::new(a), Box::new(b))
                                                    } else {
                                                        ObservationV::Or(Box::new(a), Box::new(b))
                                                    },
                                                ),
                                            },
                                        }
                                    },
                                    _ => fail(p, "expected "@ + tag + " sequence"@),
                                }
                            } else if tag == "Not"@ {
                                match read_observation(body, field_path(path, "Not"@)) {
                                    Ok(o) => Ok(ObservationV::Not(Box::new(o))),
                                    Err(e) => Err(e),
                                }
                            } else if tag == "ChoseSomething"@ {
                                match read_choice_id(body, field_path(path, "ChoseSomething"@)) {
                                    Ok(c) => Ok(ObservationV::ChoseSomething(c)),
                                    Err(e) => Err(e),
                                }
                            } else if tag == "ValueGE"@ || tag == "ValueGT"@ || tag == "ValueLT"@ || tag == "ValueLE"@
                                || tag == "ValueEQ"@ {
                                let p = field_path(path, tag);
                                match read_pair(body, p, tag) {
                                    Err(e) => Err(e),
                                    Ok(s) => match read_value(s[0], index_path(p, 0)) {
                                        Err(e) => Err(e),
                                        Ok(a) => match read_value(s[1], index_path(p, 1)) {
                                            Err(e) => Err(e),
                                            Ok(b) => Ok(
                                                if tag == "ValueGE"@ {
                                                    ObservationV::ValueGE(a, b)
                                                } else if tag == "ValueGT"@ {
                                                    ObservationV::ValueGT(a, b)
                                                } else if tag == "ValueLT"@ {
                                                    ObservationV::ValueLT(a, b)
                                                } else if tag == "ValueLE"@ {
                                                    ObservationV::ValueLE(a, b)
                                                } else {
                                                    ObservationV::ValueEQ(a, b)
                                                },
                                            ),
                                        },
                                    },
                                }
                            } else {
                                fail(path, "unknown Observation constructor '"@ + tag + "'"@)
                            }
                        },
                        _ => fail(path, "Observation constructor key must be a string"@),
                    }
                },
                _ => fail(path, "expected Observation mapping"@),
            },
        },
    }
}

pub open spec fn read_timeout(node: YamlValue, path: Seq<char>) -> Result<TimeoutV, ParseErrorV> {
    match read_hole(node) {
        Some(name) => Ok(TimeoutV::Hole(name)),
        None => match read_param(node) {
            Some(name) => Ok(TimeoutV::Param(name)),
            None => match read_variant(node, path, "Timeout"@) {
                Err(e) => Err(e),
                Ok((tag, body)) => if tag == "Timeout"@ {
                    match read_integer(body, field_path(path, "Timeout"@)) {
                        Ok(t) => Ok(TimeoutV::PosixTime(t)),
                        Err(e) => Err(e),
                    }
                } else if tag == "SlotParam"@ {
                    match read_raw_string(body, field_path(path, "SlotParam"@)) {
                        Ok(n) => Ok(TimeoutV::Param(n)),
                        Err(e) => Err(e),
                    }
                } else {
                    fail(path, "unknown Timeout constructor '"@ + tag + "'"@)
                },
            },
        },
    }
}

pub open spec fn read_bound(node: YamlValue, path: Seq<char>) -> Result<BoundV, ParseErrorV> {
    match read_hole(node) {
        Some(name) => Ok(BoundV::Hole(name)),
        None => match refuse_param(node, path, "Bound"@) {
            Err(e) => Err(e),
            Ok(_) => match read_variant(node, path, "Bound"@) {
                Err(e) => Err(e),
                Ok((tag, body)) => if tag != "Bound"@ {
                    fail(path, "unknown Bound constructor '"@ + tag + "'"@)
                } else {
                    let p = field_path(path, "Bound"@);
                    match read_mapping(body, p, "Bound"@) {
                        Err(e) => Err(e),
                        Ok(map) =>
                        match read_required(map, p, "from"@) {
                            Err(e) => Err(e),
                            Ok(fnode) =>
                            match read_value(fnode, field_path(p, "from"@)) {
                                Err(e) => Err(e),
                                Ok(from) =>
                                match read_required(map, p, "to"@) {
                                    Err(e) => Err(e),
                                    Ok(tnode) =>
                                    match read_value(tnode, field_path(p, "to"@)) {
                                        Err(e) => Err(e),
                                        Ok(to) =>
                                        Ok(BoundV::Bound { from, to }),
                                    },
                                },
                            },
                        },
                    }
                },
            },
        },
    }
}

/// The bounds of a `Choice`, each read at `path[i]`, from position `i` on.
pub open spec fn read_bounds(items: Seq<YamlValue>, path: Seq<char>, i: nat) -> Result<Seq<BoundV>, ParseErrorV>
    decreases items.len() - i,
{
    if i >= items.len() {
        Ok(Seq::empty())
    } else {
        match read_bound(items[i as int], index_path(path, i)) {
            Err(e) => Err(e),
            Ok(b) => match read_bounds(items, path, i + 1) {
                Err(e) => Err(e),
                Ok(rest) => Ok(seq![b] + rest),
            },
        }
    }
}

pub open spec fn read_action(node: YamlValue, path: Seq<char>) -> Result<ActionV, ParseErrorV> {
    match read_hole(node) {
        Some(name) => Ok(ActionV::Hole(name)),
        None => match refuse_param(node, path, "Action"@) {
            Err(e) => Err(e),
            Ok(_) => match read_variant(node, path, "Action"@) {
                Err(e) => Err(e),
                Ok((tag, body)) => if tag == "Deposit"@ {
                    let p = field_path(path, "Deposit"@);
                    match read_mapping(body, p, "Deposit"@) {
                        Err(e) => Err(e),
                        Ok(map) =>
                        match read_required(map, p, "into"@) {
                            Err(e) => Err(e),
                            Ok(n1) =>
                            match read_party(n1, field_path(p, "into"@)) {
                                Err(e) => Err(e),
                                Ok(into) =>
                                match read_required(map, p, "by"@) {
                                    Err(e) => Err(e),
                                    Ok(n2) =>
                                    match read_party(n2, field_path(p, "by"@)) {
                                        Err(e) => Err(e),
                                        Ok(by) =>
                                        match read_required(map, p, "token"@) {
                                            Err(e) => Err(e),
                                            Ok(n3) =>
                                            match read_token(n3, field_path(p, "token"@)) {
                                                Err(e) => Err(e),
                                                Ok(token) =>
                                                match read_required(map, p, "amount"@) {
                                                    Err(e) => Err(e),
                                                    Ok(n4) =>
                                                    match read_value(n4, field_path(p, "amount"@)) {
                                                        Err(e) => Err(e),
                                                        Ok(amount) =>
                                                        Ok(ActionV::Deposit { into, by, token, amount }),
                                                    },
                                                },
                                            },
                                        },
                                    },
                                },
                            },
                        },
                    }
                } else if tag == "Choice"@ {
                    let p = field_path(path, "Choice"@);
                    match read_mapping(body, p, "Choice"@) {
                        Err(e) => Err(e),
                        Ok(map) =>
                        match read_required(map, p, "bounds"@) {
                            Err(e) => Err(e),
                            Ok(bn) =>
                            match read_sequence(bn, field_path(p, "bounds"@), "bounds"@) {
                                Err(e) => Err(e),
                                Ok(items) =>
                                match read_bounds(items, field_path(p, "bounds"@), 0) {
                                    Err(e) => Err(e),
                                    Ok(bounds) =>
                                    match read_required(map, p, "id"@) {
                                        Err(e) => Err(e),
                                        Ok(idn) =>
                                        match read_choice_id(idn, field_path(p, "id"@)) {
                                            Err(e) => Err(e),
                                            Ok(id) =>
                                            Ok(ActionV::Choice { id, bounds }),
                                        },
                                    },
                                },
                            },
                        },
                    }
                } else if tag == "Notify"@ {
                    let p = field_path(path, "Notify"@);
                    match read_mapping(body, p, "Notify"@) {
                        Err(e) => Err(e),
                        Ok(map) =>
                        match read_required(map, p, "if"@) {
                            Err(e) => Err(e),
                            Ok(n) =>
                            match read_observation(n, field_path(p, "if"@)) {
                                Err(e) => Err(e),
                                Ok(if_) =>
                                Ok(ActionV::Notify { if_ }),
                            },
                        },
                    }
                } else {
                    fail(path, "unknown Action constructor '"@ + tag + "'"@)
                },
            },
        },
    }
}


pub open spec fn read_case(node: YamlValue, path: Seq<char>) -> Result<CaseV, ParseErrorV>
    decreases node, 0nat,
{
    match read_hole(node) {
        Some(name) => Ok(CaseV::Hole(name)),
        None => match refuse_param(node, path, "Case"@) {
            Err(e) => Err(e),
            Ok(_) => match node {
                YamlValue::Mapping(m) => if m.len() != 1 {
                    fail(path, "Case must be a single-key constructor mapping"@)
                } else {
                    match m[0].0 {
                        YamlValue::String(tag) => if tag != "Case"@ {
                            fail(path, "unknown Case constructor '"@ + tag + "'"@)
                        } else {
                            let p = field_path(path, "Case"@);
                            match m[0].1 {
                                YamlValue::Mapping(map) => match read_required(map, p, "action"@) {
                                    Err(e) => Err(e),
                                    Ok(an) => match read_action(an, field_path(p, "action"@)) {
                                        Err(e) => Err(e),
                                        Ok(action) => match read_required(map, p, "then"@) {
                                            Err(e) => Err(e),
                                            Ok(tn) => {
                                                proof {
                                                    lemma_key_position(map, "then"@);
                                                }
                                                match read_contract(tn, field_path(p, "then"@)) {
                                                    Err(e) => Err(e),
                                                    Ok(then) => Ok(CaseV::Case { action, then: Box::new(then) }),
                                                }
                                            },
                                        },
                                    },
                                },
                                _ => fail(p, "expected Case mapping"@),
                            }
                        },
                        _ => fail(path, "Case constructor key must be a string"@),
                    }
                },
                _ => fail(path, "expected Case mapping"@),
            },
        },
    }
}


/// The cases of a `When`, each read at `path[i]`, from position `i` on.
pub open spec fn read_cases(items: Seq<YamlValue>, path: Seq<char>, i: nat) -> Result<Seq<CaseV>, ParseErrorV>
    decreases items, items.len() - i,
{
    if i >= items.len() {
        Ok(Seq::empty())
    } else {
        match read_case(items[i as int], index_path(path, i)) {
            Err(e) => Err(e),
            Ok(c) => match read_cases(items, path, i + 1) {
                Err(e) => Err(e),
                Ok(rest) => Ok(seq![c] + rest),
            },
        }
    }
}

pub open spec fn read_contract(node: YamlValue, path: Seq<char>) -> Result<ContractV, ParseErrorV>
    decreases node, 0nat,
{
    match read_hole(node) {
        Some(name) => Ok(ContractV::Hole(name)),
        None => match refuse_param(node, path, "Contract"@) {
            Err(e) => Err(e),
            Ok(_) => match node {
                YamlValue::Mapping(m) => if m.len() != 1 {
                    fail(path, "Contract must be a single-key constructor mapping"@)
                } else {
                    match m[0].0 {
                        YamlValue::String(tag) => if tag == "Close"@ {
                            match read_empty(m[0].1, field_path(path, "Close"@)) {
                                Ok(_) => Ok(ContractV::Close),
                                Err(e) => Err(e),
                            }
                        } else if tag == "Pay"@ || tag == "If"@ || tag == "When"@ || tag == "Let"@ || tag == "Assert"@ {
                            let p = field_path(path, tag);
                            match m[0].1 {
                                YamlValue::Mapping(map) => {
                                    proof {
                                        lemma_key_position(map, "then"@);
                                        lemma_key_position(map, "else"@);
                                        lemma_key_position(map, "cases"@);
                                        lemma_key_position(map, "timeout_continuation"@);
                                    }
                                    read_contract_body(tag, map, p)
                                },
                                _ => fail(p, "expected "@ + tag + " mapping"@),
                            }
                        } else {
                            fail(path, "unknown Contract constructor '"@ + tag + "'"@)
                        },
                        _ => fail(path, "Contract constructor key must be a string"@),
                    }
                },
                _ => fail(path, "expected Contract mapping"@),
            },
        },
    }
}


/// The body of a `Pay`, `If`, `When`, `Let` or `Assert` constructor, read at `p`.
pub open spec fn read_contract_body(tag: Seq<char>, map: Seq<(YamlValue, YamlValue)>, p: Seq<char>) -> Result<ContractV, ParseErrorV>
    decreases map, 0nat,
{
    if tag == "Pay"@ {
        match read_required(map, p, "from"@) {
            Err(e) => Err(e),
            Ok(n1) =>
            match read_party(n1, field_path(p, "from"@)) {
                Err(e) => Err(e),
                Ok(from) =>
                match read_required(map, p, "token"@) {
                    Err(e) => Err(e),
                    Ok(n2) =>
                    match read_token(n2, field_path(p, "token"@)) {
                        Err(e) => Err(e),
                        Ok(token) =>
                        match read_required(map, p, "amount"@) {
                            Err(e) => Err(e),
                            Ok(n3) =>
                            match read_value(n3, field_path(p, "amount"@)) {
                                Err(e) => Err(e),
                                Ok(amount) =>
                                match read_required(map, p, "then"@) {
                                    Err(e) => Err(e),
                                    Ok(n4) =>
                                    {
                                proof {
                                    lemma_key_position(map, "then"@);
                                }
                                match read_contract(n4, field_path(p, "then"@)) {
                                    Err(e) => Err(e),
                                    Ok(then) => read_payee(map, p, from, token, amount, then),
                                }
                            },
                                },
                            },
                        },
                    },
                },
            },
        }
    } else if tag == "If"@ {
        match read_required(map, p, "cond"@) {
            Err(e) => Err(e),
            Ok(n1) =>
            match read_observation(n1, field_path(p, "cond"@)) {
                Err(e) => Err(e),
                Ok(cond) =>
                match read_required(map, p, "then"@) {
                    Err(e) => Err(e),
                    Ok(n2) =>
                    {
                    proof {
                        lemma_key_position(map, "then"@);
                        lemma_key_position(map, "else"@);
                    }
                    match read_contract(n2, field_path(p, "then"@)) {
                        Err(e) => Err(e),
                        Ok(then) => match read_required(map, p, "else"@) {
                            Err(e) => Err(e),
                            Ok(n3) => match read_contract(n3, field_path(p, "else"@)) {
                                Err(e) => Err(e),
                                Ok(else_) => Ok(ContractV::If { cond, then: Box::new(then), else_: Box::new(else_) }),
                            },
                        },
                    }
                },
                },
            },
        }
    } else if tag == "When"@ {
        match read_required(map, p, "cases"@) {
            Err(e) => Err(e),
            Ok(cn) => {
                proof {
                    lemma_key_position(map, "cases"@);
                    lemma_key_position(map, "timeout_continuation"@);
                }
                match cn {
                    YamlValue::Sequence(items) => match read_cases(items, field_path(p, "cases"@), 0) {
                        Err(e) => Err(e),
                        Ok(cases) => match read_required(map, p, "timeout"@) {
                            Err(e) => Err(e),
                            Ok(tn) => match read_timeout(tn, field_path(p, "timeout"@)) {
                                Err(e) => Err(e),
                                Ok(timeout) => match read_required(map, p, "timeout_continuation"@) {
                                    Err(e) => Err(e),
                                    Ok(kn) => match read_contract(kn, field_path(p, "timeout_continuation"@)) {
                                        Err(e) => Err(e),
                                        Ok(k) => Ok(ContractV::When { cases, timeout, timeout_continuation: Box::new(k) }),
                                    },
                                },
                            },
                        },
                    },
                    _ => fail(field_path(p, "cases"@), "expected cases sequence"@),
                }
            },
        }
    } else if tag == "Let"@ {
        match read_required(map, p, "name"@) {
            Err(e) => Err(e),
            Ok(n1) =>
            match read_raw_string(n1, field_path(p, "name"@)) {
                Err(e) => Err(e),
                Ok(name) =>
                match read_required(map, p, "value"@) {
                    Err(e) => Err(e),
                    Ok(n2) =>
                    match read_value(n2, field_path(p, "value"@)) {
                        Err(e) => Err(e),
                        Ok(value) =>
                        match read_required(map, p, "then"@) {
                            Err(e) => Err(e),
                            Ok(n3) =>
                            {
                            proof {
                                lemma_key_position(map, "then"@);
                            }
                            match read_contract(n3, field_path(p, "then"@)) {
                                Err(e) => Err(e),
                                Ok(then) => Ok(ContractV::Let { name, value, then: Box::new(then) }),
                            }
                        },
                        },
                    },
                },
            },
        }
    } else {
        match read_required(map, p, "cond"@) {
            Err(e) => Err(e),
            Ok(n1) =>
            match read_observation(n1, field_path(p, "cond"@)) {
                Err(e) => Err(e),
                Ok(cond) =>
                match read_required(map, p, "then"@) {
                    Err(e) => Err(e),
                    Ok(n2) =>
                    {
                    proof {
                        lemma_key_position(map, "then"@);
                    }
                    match read_contract(n2, field_path(p, "then"@)) {
                        Err(e) => Err(e),
                        Ok(then) => Ok(ContractV::Assert { cond, then: Box::new(then) }),
                    }
                },
                },
            },
        }
    }
}

/// The payee of a `Pay`: exactly one of `to_party` and `to_account`.
pub open spec fn read_payee(
    map: Seq<(YamlValue, YamlValue)>,
    p: Seq<char>,
    from: PartyV,
    token: TokenV,
    amount: ValueV,
    then: ContractV,
) -> Result<ContractV, ParseErrorV> {
    let to_party = match read_optional(map, "to_party"@) {
        Some(n) => match read_party(n, field_path(p, "to_party"@)) {
            Ok(party) => Ok(Some(party)),
            Err(e) => Err(e),
        },
        None => Ok(None),
    };
    match to_party {
        Err(e) => Err(e),
        Ok(to_party) => {
            let to_account = match read_optional(map, "to_account"@) {
                Some(n) => match read_party(n, field_path(p, "to_account"@)) {
                    Ok(party) => Ok(Some(party)),
                    Err(e) => Err(e),
                },
                None => Ok(None),
            };
            match to_account {
                Err(e) => Err(e),
                Ok(to_account) => match (to_party, to_account) {
                    (Some(party), None) => Ok(ContractV::Pay { from, to: PayeeTargetV::ToParty(party), token, amount, then: Box::new(then) }),
                    (None, Some(account)) => Ok(ContractV::Pay { from, to: PayeeTargetV::ToAccount(account), token, amount, then: Box::new(then) }),
                    (Some(_), Some(_)) => fail(p, "Pay must include exactly one of 'to_party' or 'to_account'"@),
                    (None, None) => fail(p, "Pay is missing one of 'to_party' or 'to_account'"@),
                },
            }
        },
    }
}

} // verus!

verus! {

fn error(path: &str, message: String) -> (r: ParseError)
    ensures
        r@ == (ParseErrorV { path: path@, message: message@ }),
{
    ParseError { path: String::from_str(path), message }
}

/// Joins two texts.
pub fn join2(a: &str, b: &str) -> (r: String)
    ensures
        r@ == a@ + b@,
{
    let mut r = String::from_str(a);
    r.append(b);
    r
}

/// Joins three texts.
pub fn join3(a: &str, b: &str, c: &str) -> (r: String)
    ensures
        r@ == a@ + b@ + c@,
{
    let mut r = String::from_str(a);
    r.append(b);
    r.append(c);
    r
}

pub fn join5(a: &str, b: &str, c: &str, d: &str, e: &str) -> (r: String)
    ensures
        r@ == a@ + b@ + c@ + d@ + e@,
{
    let mut r = join3(a, b, c);
    r.append(d);
    r.append(e);
    r
}

pub fn unescape_text(raw: &str) -> (r: String)
    ensures
        r@ == unescape(raw@),
{
    proof {
        reveal_strlit("??");
        reveal_strlit("$$");
    }
    if starts_with(raw, "??") {
        let mut r = String::from_str("?");
        r.append(raw.substring_char(2, raw.unicode_len()));
        r
    } else if starts_with(raw, "$$") {
        let mut r = String::from_str("$");
        r.append(raw.substring_char(2, raw.unicode_len()));
        r
    } else {
        String::from_str(raw)
    }
}

pub fn prefixed_symbol(v: &str, prefix: char) -> (r: bool)
    ensures
        r == is_prefixed_symbol(v@, prefix),
{
    let n = v.unicode_len();
    if n <= 1 || v.get_char(0) != prefix {
        return false;
    }
    let mut i: usize = 1;
    while i < n
        invariant
            n == v@.len(),
            1 <= i <= n,
            forall|j: int| 1 <= j < i ==> v@[j] != ' ',
        decreases n - i,
    {
        if v.get_char(i) == ' ' {
            assert(v@.skip(1)[i - 1] == ' ');
            return false;
        }
        i = i + 1;
    }
    assert(!v@.skip(1).contains(' ')) by {
        if v@.skip(1).contains(' ') {
            let k = choose|k: int| 0 <= k < v@.skip(1).len() && v@.skip(1)[k] == ' ';
            assert(v@[k + 1] == ' ');
        }
    }
    true
}

fn read_prefixed_exec(node: &YamlNode, prefix: char) -> (r: Option<String>)
    ensures
        match r {
            Some(s) => read_prefixed(node@, prefix) == Some(s@),
            None => read_prefixed(node@, prefix) is None,
        },
{
    match node {
        YamlNode::String(raw) => {
            if prefixed_symbol(raw.as_str(), prefix) && raw.as_str().get_char(1) != prefix {
                let n = raw.as_str().unicode_len();
                Some(String::from_str(raw.as_str().substring_char(1, n)))
            } else {
                None
            }
        },
        _ => None,
    }
}

fn parse_hole(node: &YamlNode) -> (r: Option<String>)
    ensures
        match r {
            Some(s) => read_hole(node@) == Some(s@),
            None => read_hole(node@) is None,
        },
{
    read_prefixed_exec(node, '?')
}

fn parse_param(node: &YamlNode) -> (r: Option<String>)
    ensures
        match r {
            Some(s) => read_param(node@) == Some(s@),
            None => read_param(node@) is None,
        },
{
    read_prefixed_exec(node, '$')
}

fn reject_param(node: &YamlNode, path: &str, expected: &str) -> (r: Result<(), ParseError>)
    ensures
        match r {
            Ok(_) => refuse_param(node@, path@, expected@) is Ok,
            Err(e) => refuse_param(node@, path@, expected@) == Err::<(), ParseErrorV>(e@),
        },
{
    match parse_param(node) {
        Some(name) => {
            let mut m = join3("parameter '$", name.as_str(), "' is not valid in ");
            m.append(expected);
            m.append(" position");
            Err(error(path, m))
        },
        None => Ok(()),
    }
}

fn expect_mapping<'a>(node: &'a YamlNode, path: &str, expected: &str) -> (r: Result<&'a Vec<(YamlNode, YamlNode)>, ParseError>)
    ensures
        match r {
            Ok(m) => node@ == YamlValue::Mapping(yaml_entries_view(m@)) && *node == YamlNode::Mapping(*m),
            Err(e) => read_mapping(node@, path@, expected@) == Err::<Seq<(YamlValue, YamlValue)>, ParseErrorV>(e@)
                && !(node@ is Mapping),
        },
{
    match node {
        YamlNode::Mapping(m) => Ok(m),
        _ => Err(error(path, join3("expected ", expected, " mapping"))),
    }
}

fn expect_sequence<'a>(node: &'a YamlNode, path: &str, expected: &str) -> (r: Result<&'a Vec<YamlNode>, ParseError>)
    ensures
        match r {
            Ok(s) => node@ == YamlValue::Sequence(yaml_seq_view(s@)) && *node == YamlNode::Sequence(*s),
            Err(e) => read_sequence(node@, path@, expected@) == Err::<Seq<YamlValue>, ParseErrorV>(e@)
                && !(node@ is Sequence),
        },
{
    match node {
        YamlNode::Sequence(s) => Ok(s),
        _ => Err(error(path, join3("expected ", expected, " sequence"))),
    }
}

fn expect_empty(node: &YamlNode, path: &str) -> (r: Result<(), ParseError>)
    ensures
        match r {
            Ok(_) => read_empty(node@, path@) is Ok,
            Err(e) => read_empty(node@, path@) == Err::<(), ParseErrorV>(e@),
        },
{
    match node {
        YamlNode::Mapping(m) => {
            proof { lemma_entries_view(m@); }
            if m.len() == 0 {
                Ok(())
            } else {
                Err(error(path, String::from_str("expected empty mapping {}")))
            }
        },
        _ => Err(error(path, String::from_str("expected empty mapping {}"))),
    }
}

/// The constructor tag and body of a single-key mapping.
fn expect_variant<'a>(node: &'a YamlNode, path: &str, expected: &str) -> (r: Result<(&'a String, &'a YamlNode), ParseError>)
    ensures
        match r {
            Ok((tag, body)) => read_variant(node@, path@, expected@) == Ok::<(Seq<char>, YamlValue), ParseErrorV>((tag@, body@)),
            Err(e) => read_variant(node@, path@, expected@) == Err::<(Seq<char>, YamlValue), ParseErrorV>(e@),
        },
{
    let m = expect_mapping(node, path, expected)?;
    proof { lemma_entries_view(m@); }
    if m.len() != 1 {
        return Err(error(path, join2(expected, " must be a single-key constructor mapping")));
    }
    assert(yaml_entries_view(m@)[0] == (yaml_view(m@[0].0), yaml_view(m@[0].1)));
    match &m[0].0 {
        YamlNode::String(k) => Ok((k, &m[0].1)),
        _ => Err(error(path, join2(expected, " constructor key must be a string"))),
    }
}

/// The position of the first entry whose key is the string `key`.
fn find_key(map: &Vec<(YamlNode, YamlNode)>, key: &str) -> (r: Option<usize>)
    ensures
        match r {
            Some(i) => key_position(yaml_entries_view(map@), key@) == Some(i as int) && i < map@.len(),
            None => key_position(yaml_entries_view(map@), key@) is None,
        },
{
    let ghost v = yaml_entries_view(map@);
    proof {
        lemma_entries_view(map@);
        lemma_key_position(v, key@);
    }
    let mut i: usize = 0;
    while i < map.len()
        invariant
            v == yaml_entries_view(map@),
            v.len() == map@.len(),
            forall|j: int| 0 <= j < map@.len() ==> #[trigger] v[j] == (yaml_view(map@[j].0), yaml_view(map@[j].1)),
            i <= map@.len(),
            forall|j: int| 0 <= j < i ==> v[j].0 != YamlValue::String(key@),
        decreases map@.len() - i,
    {
        let hit = match &map[i].0 {
            YamlNode::String(k) => same_text(k.as_str(), key),
            _ => false,
        };
        assert(v[i as int].0 == yaml_view(map@[i as int].0));
        if hit {
            assert(v[i as int].0 == YamlValue::String(key@));
            proof { lemma_key_position(v, key@); }
            return Some(i);
        }
        i = i + 1;
    }
    proof { lemma_key_position(v, key@); }
    None
}

fn required<'a>(map: &'a Vec<(YamlNode, YamlNode)>, path: &str, key: &str) -> (r: Result<&'a YamlNode, ParseError>)
    ensures
        match r {
            Ok(v) => read_required(yaml_entries_view(map@), path@, key@) == Ok::<YamlValue, ParseErrorV>(v@),
            Err(e) => read_required(yaml_entries_view(map@), path@, key@) == Err::<YamlValue, ParseErrorV>(e@),
        },
{
    proof { lemma_entries_view(map@); }
    match find_key(map, key) {
        Some(i) => Ok(&map[i].1),
        None => Err(error(path, join3("missing required key '", key, "'"))),
    }
}

fn optional<'a>(map: &'a Vec<(YamlNode, YamlNode)>, key: &str) -> (r: Option<&'a YamlNode>)
    ensures
        match r {
            Some(v) => read_optional(yaml_entries_view(map@), key@) == Some(v@),
            None => read_optional(yaml_entries_view(map@), key@) is None,
        },
{
    proof { lemma_entries_view(map@); }
    match find_key(map, key) {
        Some(i) => Some(&map[i].1),
        None => None,
    }
}

fn parse_raw_string(node: &YamlNode, path: &str) -> (r: Result<String, ParseError>)
    ensures
        match r {
            Ok(s) => read_raw_string(node@, path@) == Ok::<Seq<char>, ParseErrorV>(s@),
            Err(e) => read_raw_string(node@, path@) == Err::<Seq<char>, ParseErrorV>(e@),
        },
{
    match node {
        YamlNode::String(raw) => Ok(unescape_text(raw.as_str())),
        _ => Err(error(path, String::from_str("expected string"))),
    }
}

fn parse_integer(node: &YamlNode, path: &str) -> (r: Result<Integer, ParseError>)
    ensures
        match r {
            Ok(v) => read_integer(node@, path@) == Ok::<int, ParseErrorV>(v@),
            Err(e) => read_integer(node@, path@) == Err::<int, ParseErrorV>(e@),
        },
{
    match node {
        YamlNode::Number(YamlNumber::Signed(i)) => Ok(Integer::from_i64(*i)),
        YamlNode::Number(YamlNumber::Unsigned(u)) => Ok(Integer::from_u64(*u)),
        YamlNode::Number(YamlNumber::Fractional) => Err(
            error(path, String::from_str("integer out of supported yaml numeric range; pass as string")),
        ),
        YamlNode::String(raw) => {
            let value = unescape_text(raw.as_str());
            match Integer::parse_decimal(value.as_str()) {
                Some(v) => Ok(v),
                None => Err(error(path, join3("invalid integer '", value.as_str(), "'"))),
            }
        },
        _ => Err(error(path, String::from_str("expected integer"))),
    }
}


/// The position of the entry under `key`, or the missing-key error.
fn required_index(map: &Vec<(YamlNode, YamlNode)>, path: &str, key: &str) -> (r: Result<usize, ParseError>)
    ensures
        match r {
            Ok(i) => i < map@.len() && read_required(yaml_entries_view(map@), path@, key@)
                == Ok::<YamlValue, ParseErrorV>(map@[i as int].1@),
            Err(e) => read_required(yaml_entries_view(map@), path@, key@) == Err::<YamlValue, ParseErrorV>(e@),
        },
{
    proof { lemma_entries_view(map@); }
    match find_key(map, key) {
        Some(i) => Ok(i),
        None => Err(error(path, join3("missing required key '", key, "'"))),
    }
}

fn parse_party(node: &YamlNode, path: &str) -> (r: Result<Party, ParseError>)
    ensures
        viewed(r) == read_party(node@, path@),
{
    if let Some(name) = parse_hole(node) {
        return Ok(Party::Hole(name));
    }
    reject_param(node, path, "Party")?;
    let (tag, body) = expect_variant(node, path, "Party")?;
    if same_text(tag.as_str(), "Role") {
        let p = field(path, "Role");
        Ok(Party::Role(parse_raw_string(body, p.as_str())?))
    } else if same_text(tag.as_str(), "Address") {
        let p = field(path, "Address");
        Ok(Party::Address(parse_raw_string(body, p.as_str())?))
    } else {
        Err(error(path, join3("unknown Party constructor '", tag.as_str(), "'")))
    }
}

fn parse_token(node: &YamlNode, path: &str) -> (r: Result<Token, ParseError>)
    ensures
        viewed(r) == read_token(node@, path@),
{
    if let Some(name) = parse_hole(node) {
        return Ok(Token::Hole(name));
    }
    reject_param(node, path, "Token")?;
    let (tag, body) = expect_variant(node, path, "Token")?;
    if !same_text(tag.as_str(), "Token") {
        return Err(error(path, join3("unknown Token constructor '", tag.as_str(), "'")));
    }
    let p = field(path, "Token");
    let map = expect_mapping(body, p.as_str(), "Token")?;
    let cs = required(map, p.as_str(), "currency_symbol")?;
    let cs_path = field(p.as_str(), "currency_symbol");
    let currency_symbol = parse_raw_string(cs, cs_path.as_str())?;
    let tn = required(map, p.as_str(), "token_name")?;
    let tn_path = field(p.as_str(), "token_name");
    let token_name = parse_raw_string(tn, tn_path.as_str())?;
    Ok(Token::Token { currency_symbol, token_name })
}

fn parse_choice_id(node: &YamlNode, path: &str) -> (r: Result<ChoiceId, ParseError>)
    ensures
        viewed(r) == read_choice_id(node@, path@),
{
    if let Some(name) = parse_hole(node) {
        return Ok(ChoiceId::Hole(name));
    }
    reject_param(node, path, "ChoiceId")?;
    let (tag, body) = expect_variant(node, path, "ChoiceId")?;
    if !same_text(tag.as_str(), "ChoiceId") {
        return Err(error(path, join3("unknown ChoiceId constructor '", tag.as_str(), "'")));
    }
    let p = field(path, "ChoiceId");
    let map = expect_mapping(body, p.as_str(), "ChoiceId")?;
    let n = required(map, p.as_str(), "name")?;
    let n_path = field(p.as_str(), "name");
    let name = parse_raw_string(n, n_path.as_str())?;
    let pn = required(map, p.as_str(), "party")?;
    let pn_path = field(p.as_str(), "party");
    let party = parse_party(pn, pn_path.as_str())?;
    Ok(ChoiceId::ChoiceId { name, party })
}


fn parse_value(node: &YamlNode, path: &str) -> (r: Result<NumericValue, ParseError>)
    ensures
        viewed(r) == read_value(node@, path@),
    decreases node,
{
    if let Some(name) = parse_hole(node) {
        return Ok(NumericValue::Hole(name));
    }
    if let Some(name) = parse_param(node) {
        return Ok(NumericValue::Param(name));
    }
    let m = match node {
        YamlNode::Mapping(m) => m,
        _ => {
            return Err(error(path, String::from_str("expected Value mapping")));
        },
    };
    proof { lemma_entries_view(m@); }
    if m.len() != 1 {
        return Err(error(path, String::from_str("Value must be a single-key constructor mapping")));
    }
    assert(yaml_entries_view(m@)[0] == (yaml_view(m@[0].0), yaml_view(m@[0].1)));
    let tag = match &m[0].0 {
        YamlNode::String(k) => k.as_str(),
        _ => {
            return Err(error(path, String::from_str("Value constructor key must be a string")));
        },
    };
    let body = &m[0].1;
    if same_text(tag, "Constant") {
        let p = field(path, "Constant");
        Ok(NumericValue::Constant(parse_integer(body, p.as_str())?))
    } else if same_text(tag, "ConstantParam") {
        let p = field(path, "ConstantParam");
        Ok(NumericValue::Param(parse_raw_string(body, p.as_str())?))
    } else if same_text(tag, "Add") || same_text(tag, "Sub") || same_text(tag, "Mul") || same_text(tag, "Div") {
        let p = field(path, tag);
        let s = match body {
            YamlNode::Sequence(s) => s,
            _ => {
                return Err(error(p.as_str(), join3("expected ", tag, " sequence")));
            },
        };
        proof { lemma_seq_view(s@); }
        if s.len() != 2 {
            return Err(error(p.as_str(), join2(tag, " requires exactly 2 elements")));
        }
        let p0 = index(p.as_str(), 0);
        let a = parse_value(&s[0], p0.as_str())?;
        let p1 = index(p.as_str(), 1);
        let b = parse_value(&s[1], p1.as_str())?;
        if same_text(tag, "Add") {
            Ok(NumericValue::Add(Box::new(a), Box::new(b)))
        } else if same_text(tag, "Sub") {
            Ok(NumericValue::Sub(Box::new(a), Box::new(b)))
        } else if same_text(tag, "Mul") {
            Ok(NumericValue::Mul(Box::new(a), Box::new(b)))
        } else {
            Ok(NumericValue::Div(Box::new(a), Box::new(b)))
        }
    } else if same_text(tag, "Neg") {
        let p = field(path, "Neg");
        Ok(NumericValue::Neg(Box::new(parse_value(body, p.as_str())?)))
    } else if same_text(tag, "Abs") {
        let p = field(path, "Abs");
        Ok(NumericValue::Abs(Box::new(parse_value(body, p.as_str())?)))
    } else if same_text(tag, "ValueFromChoice") {
        let p = field(path, "ValueFromChoice");
        Ok(NumericValue::ValueFromChoice(parse_choice_id(body, p.as_str())?))
    } else if same_text(tag, "UseValue") {
        let p = field(path, "UseValue");
        Ok(NumericValue::UseValue(parse_raw_string(body, p.as_str())?))
    } else if same_text(tag, "TimeIntervalStart") {
        let p = field(path, "TimeIntervalStart");
        expect_empty(body, p.as_str())?;
        Ok(NumericValue::TimeIntervalStart)
    } else if same_text(tag, "TimeIntervalEnd") {
        let p = field(path, "TimeIntervalEnd");
        expect_empty(body, p.as_str())?;
        Ok(NumericValue::TimeIntervalEnd)
    } else if same_text(tag, "AvailableMoney") {
        let p = field(path, "AvailableMoney");
        let map = expect_mapping(body, p.as_str(), "AvailableMoney")?;
        let an = required(map, p.as_str(), "account")?;
        let an_path = field(p.as_str(), "account");
        let account = parse_party(an, an_path.as_str())?;
        let tn = required(map, p.as_str(), "token")?;
        let tn_path = field(p.as_str(), "token");
        let token = parse_token(tn, tn_path.as_str())?;
        Ok(NumericValue::AvailableMoney { account, token })
    } else {
        Err(error(path, join3("unknown Value constructor '", tag, "'")))
    }
}


fn parse_observation(node: &YamlNode, path: &str) -> (r: Result<Observation, ParseError>)
    ensures
        viewed(r) == read_observation(node@, path@),
    decreases node,
{
    if let Some(name) = parse_hole(node) {
        return Ok(Observation::Hole(name));
    }
    reject_param(node, path, "Observation")?;
    let m = match node {
        YamlNode::Mapping(m) => m,
        _ => {
            return Err(error(path, String::from_str("expected Observation mapping")));
        },
    };
    proof { lemma_entries_view(m@); }
    if m.len() != 1 {
        return Err(error(path, String::from_str("Observation must be a single-key constructor mapping")));
    }
    assert(yaml_entries_view(m@)[0] == (yaml_view(m@[0].0), yaml_view(m@[0].1)));
    let tag = match &m[0].0 {
        YamlNode::String(k) => k.as_str(),
        _ => {
            return Err(error(path, String::from_str("Observation constructor key must be a string")));
        },
    };
    let body = &m[0].1;
    if same_text(tag, "True") {
        let p = field(path, "True");
        expect_empty(body, p.as_str())?;
        Ok(Observation::True)
    } else if same_text(tag, "False") {
        let p = field(path, "False");
        expect_empty(body, p.as_str())?;
        Ok(Observation::False)
    } else if same_text(tag, "And") || same_text(tag, "Or") {
        let p = field(path, tag);
        let s = match body {
            YamlNode::Sequence(s) => s,
            _ => {
                return Err(error(p.as_str(), join3("expected ", tag, " sequence")));
            },
        };
        proof { lemma_seq_view(s@); }
        if s.len() != 2 {
            return Err(error(p.as_str(), join2(tag, " requires exactly 2 elements")));
        }
        let p0 = index(p.as_str(), 0);
        let a = parse_observation(&s[0], p0.as_str())?;
        let p1 = index(p.as_str(), 1);
        let b = parse_observation(&s[1], p1.as_str())?;
        if same_text(tag, "And") {
            Ok(Observation::And(Box::new(a), Box::new(b)))
        } else {
            Ok(Observation::Or(Box::new(a), Box::new(b)))
        }
    } else if same_text(tag, "Not") {
        let p = field(path, "Not");
        Ok(Observation::Not(Box::new(parse_observation(body, p.as_str())?)))
    } else if same_text(tag, "ChoseSomething") {
        let p = field(path, "ChoseSomething");
        Ok(Observation::ChoseSomething(parse_choice_id(body, p.as_str())?))
    } else if same_text(tag, "ValueGE") || same_text(tag, "ValueGT") || same_text(tag, "ValueLT") || same_text(tag, "ValueLE")
        || same_text(tag, "ValueEQ") {
        let p = field(path, tag);
        let s = expect_sequence(body, p.as_str(), tag)?;
        proof { lemma_seq_view(s@); }
        if s.len() != 2 {
            return Err(error(p.as_str(), join2(tag, " requires exactly 2 elements")));
        }
        let p0 = index(p.as_str(), 0);
        let a = Box::new(parse_value(&s[0], p0.as_str())?);
        let p1 = index(p.as_str(), 1);
        let b = Box::new(parse_value(&s[1], p1.as_str())?);
        if same_text(tag, "ValueGE") {
            Ok(Observation::ValueGE(a, b))
        } else if same_text(tag, "ValueGT") {
            Ok(Observation::ValueGT(a, b))
        } else if same_text(tag, "ValueLT") {
            Ok(Observation::ValueLT(a, b))
        } else if same_text(tag, "ValueLE") {
            Ok(Observation::ValueLE(a, b))
        } else {
            Ok(Observation::ValueEQ(a, b))
        }
    } else {
        Err(error(path, join3("unknown Observation constructor '", tag, "'")))
    }
}

fn parse_timeout(node: &YamlNode, path: &str) -> (r: Result<Timeout, ParseError>)
    ensures
        viewed(r) == read_timeout(node@, path@),
{
    if let Some(name) = parse_hole(node) {
        return Ok(Timeout::Hole(name));
    }
    if let Some(name) = parse_param(node) {
        return Ok(Timeout::Param(name));
    }
    let (tag, body) = expect_variant(node, path, "Timeout")?;
    if same_text(tag.as_str(), "Timeout") {
        let p = field(path, "Timeout");
        Ok(Timeout::PosixTime(parse_integer(body, p.as_str())?))
    } else if same_text(tag.as_str(), "SlotParam") {
        let p = field(path, "SlotParam");
        Ok(Timeout::Param(parse_raw_string(body, p.as_str())?))
    } else {
        Err(error(path, join3("unknown Timeout constructor '", tag.as_str(), "'")))
    }
}

fn parse_bound(node: &YamlNode, path: &str) -> (r: Result<Bound, ParseError>)
    ensures
        viewed(r) == read_bound(node@, path@),
{
    if let Some(name) = parse_hole(node) {
        return Ok(Bound::Hole(name));
    }
    reject_param(node, path, "Bound")?;
    let (tag, body) = expect_variant(node, path, "Bound")?;
    if !same_text(tag.as_str(), "Bound") {
        return Err(error(path, join3("unknown Bound constructor '", tag.as_str(), "'")));
    }
    let p = field(path, "Bound");
    let map = expect_mapping(body, p.as_str(), "Bound")?;
    let fnode = required(map, p.as_str(), "from")?;
    let f_path = field(p.as_str(), "from");
    let from = parse_value(fnode, f_path.as_str())?;
    let tnode = required(map, p.as_str(), "to")?;
    let t_path = field(p.as_str(), "to");
    let to = parse_value(tnode, t_path.as_str())?;
    Ok(Bound::Bound { from, to })
}

fn parse_bounds(items: &Vec<YamlNode>, path: &str) -> (r: Result<Vec<Bound>, ParseError>)
    ensures
        match r {
            Ok(v) => read_bounds(yaml_seq_view(items@), path@, 0) == Ok::<Seq<BoundV>, ParseErrorV>(bounds_view(v@)),
            Err(e) => read_bounds(yaml_seq_view(items@), path@, 0) == Err::<Seq<BoundV>, ParseErrorV>(e@),
        },
{
    let ghost s = yaml_seq_view(items@);
    proof { lemma_seq_view(items@); }
    let mut out: Vec<Bound> = Vec::new();
    let mut i: usize = 0;
    while i < items.len()
        invariant
            s == yaml_seq_view(items@),
            s.len() == items@.len(),
            forall|j: int| 0 <= j < items@.len() ==> #[trigger] s[j] == yaml_view(items@[j]),
            i <= items@.len(),
            out@.len() == i,
            read_bounds(s, path@, 0) == match read_bounds(s, path@, i as nat) {
                Ok(rest) => Ok(bounds_view(out@) + rest),
                Err(e) => Err(e),
            },
        decreases items@.len() - i,
    {
        let p = index(path, i);
        match parse_bound(&items[i], p.as_str()) {
            Ok(b) => {
                let ghost before = bounds_view(out@);
                out.push(b);
                assert(bounds_view(out@) =~= before + seq![b@]);
                proof {
                    match read_bounds(s, path@, (i + 1) as nat) {
                        Ok(rest) => {
                            assert(before + (seq![b@] + rest) =~= bounds_view(out@) + rest);
                        },
                        Err(_) => {},
                    }
                }
            },
            Err(e) => {
                return Err(e);
            },
        }
        i = i + 1;
    }
    assert(bounds_view(out@) + Seq::empty() =~= bounds_view(out@));
    Ok(out)
}

fn parse_action(node: &YamlNode, path: &str) -> (r: Result<Action, ParseError>)
    ensures
        viewed(r) == read_action(node@, path@),
{
    if let Some(name) = parse_hole(node) {
        return Ok(Action::Hole(name));
    }
    reject_param(node, path, "Action")?;
    let (tag, body) = expect_variant(node, path, "Action")?;
    if same_text(tag.as_str(), "Deposit") {
        let p = field(path, "Deposit");
        let map = expect_mapping(body, p.as_str(), "Deposit")?;
        let n1 = required(map, p.as_str(), "into")?;
        let p1 = field(p.as_str(), "into");
        let into = parse_party(n1, p1.as_str())?;
        let n2 = required(map, p.as_str(), "by")?;
        let p2 = field(p.as_str(), "by");
        let by = parse_party(n2, p2.as_str())?;
        let n3 = required(map, p.as_str(), "token")?;
        let p3 = field(p.as_str(), "token");
        let token = parse_token(n3, p3.as_str())?;
        let n4 = required(map, p.as_str(), "amount")?;
        let p4 = field(p.as_str(), "amount");
        let amount = parse_value(n4, p4.as_str())?;
        Ok(Action::Deposit { into, by, token, amount })
    } else if same_text(tag.as_str(), "Choice") {
        let p = field(path, "Choice");
        let map = expect_mapping(body, p.as_str(), "Choice")?;
        let bn = required(map, p.as_str(), "bounds")?;
        let bp = field(p.as_str(), "bounds");
        let items = expect_sequence(bn, bp.as_str(), "bounds")?;
        let bounds = parse_bounds(items, bp.as_str())?;
        let idn = required(map, p.as_str(), "id")?;
        let ip = field(p.as_str(), "id");
        let id = parse_choice_id(idn, ip.as_str())?;
        Ok(Action::Choice { id, bounds })
    } else if same_text(tag.as_str(), "Notify") {
        let p = field(path, "Notify");
        let map = expect_mapping(body, p.as_str(), "Notify")?;
        let n = required(map, p.as_str(), "if")?;
        let np = field(p.as_str(), "if");
        let if_ = parse_observation(n, np.as_str())?;
        Ok(Action::Notify { if_ })
    } else {
        Err(error(path, join3("unknown Action constructor '", tag.as_str(), "'")))
    }
}


fn parse_case(node: &YamlNode, path: &str) -> (r: Result<Case, ParseError>)
    ensures
        viewed(r) == read_case(node@, path@),
    decreases node, 0nat,
{
    if let Some(name) = parse_hole(node) {
        return Ok(Case::Hole(name));
    }
    reject_param(node, path, "Case")?;
    let m = match node {
        YamlNode::Mapping(m) => m,
        _ => {
            return Err(error(path, String::from_str("expected Case mapping")));
        },
    };
    proof { lemma_entries_view(m@); }
    if m.len() != 1 {
        return Err(error(path, String::from_str("Case must be a single-key constructor mapping")));
    }
    assert(yaml_entries_view(m@)[0] == (yaml_view(m@[0].0), yaml_view(m@[0].1)));
    let tag = match &m[0].0 {
        YamlNode::String(k) => k.as_str(),
        _ => {
            return Err(error(path, String::from_str("Case constructor key must be a string")));
        },
    };
    if !same_text(tag, "Case") {
        return Err(error(path, join3("unknown Case constructor '", tag, "'")));
    }
    let p = field(path, "Case");
    let map = match &m[0].1 {
        YamlNode::Mapping(map) => map,
        _ => {
            return Err(error(p.as_str(), String::from_str("expected Case mapping")));
        },
    };
    proof { lemma_entries_view(map@); }
    let an = required(map, p.as_str(), "action")?;
    let ap = field(p.as_str(), "action");
    let action = parse_action(an, ap.as_str())?;
    let ti = required_index(map, p.as_str(), "then")?;
    let tp = field(p.as_str(), "then");
    let then = parse_contract(&map[ti].1, tp.as_str())?;
    Ok(Case::Case { action, then: Box::new(then) })
}

fn parse_cases(items: &Vec<YamlNode>, path: &str) -> (r: Result<Vec<Case>, ParseError>)
    ensures
        match r {
            Ok(v) => read_cases(yaml_seq_view(items@), path@, 0) == Ok::<Seq<CaseV>, ParseErrorV>(cases_view(v@)),
            Err(e) => read_cases(yaml_seq_view(items@), path@, 0) == Err::<Seq<CaseV>, ParseErrorV>(e@),
        },
    decreases items, 1nat,
{
    let ghost s = yaml_seq_view(items@);
    proof { lemma_seq_view(items@); }
    let mut out: Vec<Case> = Vec::new();
    let mut i: usize = 0;
    while i < items.len()
        invariant
            s == yaml_seq_view(items@),
            s.len() == items@.len(),
            forall|j: int| 0 <= j < items@.len() ==> #[trigger] s[j] == yaml_view(items@[j]),
            i <= items@.len(),
            out@.len() == i,
            read_cases(s, path@, 0) == match read_cases(s, path@, i as nat) {
                Ok(rest) => Ok(cases_view(out@) + rest),
                Err(e) => Err(e),
            },
        decreases items@.len() - i,
    {
        let p = index(path, i);
        match parse_case(&items[i], p.as_str()) {
            Ok(c) => {
                let ghost before = out@;
                out.push(c);
                proof {
                    lemma_cases_view_push(before, c);
                    assert(out@ == before.push(c));
                    match read_cases(s, path@, (i + 1) as nat) {
                        Ok(rest) => {
                            assert(cases_view(before) + (seq![case_view(c)] + rest) =~= cases_view(out@) + rest);
                        },
                        Err(_) => {},
                    }
                }
            },
            Err(e) => {
                return Err(e);
            },
        }
        i = i + 1;
    }
    assert(cases_view(out@) + Seq::empty() =~= cases_view(out@));
    Ok(out)
}

fn parse_contract(node: &YamlNode, path: &str) -> (r: Result<Contract, ParseError>)
    ensures
        viewed(r) == read_contract(node@, path@),
    decreases node, 0nat,
{
    if let Some(name) = parse_hole(node) {
        return Ok(Contract::Hole(name));
    }
    reject_param(node, path, "Contract")?;
    let m = match node {
        YamlNode::Mapping(m) => m,
        _ => {
            return Err(error(path, String::from_str("expected Contract mapping")));
        },
    };
    proof { lemma_entries_view(m@); }
    if m.len() != 1 {
        return Err(error(path, String::from_str("Contract must be a single-key constructor mapping")));
    }
    assert(yaml_entries_view(m@)[0] == (yaml_view(m@[0].0), yaml_view(m@[0].1)));
    let tag = match &m[0].0 {
        YamlNode::String(k) => k.as_str(),
        _ => {
            return Err(error(path, String::from_str("Contract constructor key must be a string")));
        },
    };
    if same_text(tag, "Close") {
        let p = field(path, "Close");
        expect_empty(&m[0].1, p.as_str())?;
        Ok(Contract::Close)
    } else if same_text(tag, "Pay") || same_text(tag, "If") || same_text(tag, "When") || same_text(tag, "Let")
        || same_text(tag, "Assert") {
        let p = field(path, tag);
        match &m[0].1 {
            YamlNode::Mapping(map) => parse_contract_body(tag, map, p.as_str()),
            _ => Err(error(p.as_str(), join3("expected ", tag, " mapping"))),
        }
    } else {
        Err(error(path, join3("unknown Contract constructor '", tag, "'")))
    }
}

fn parse_contract_body(tag: &str, map: &Vec<(YamlNode, YamlNode)>, p: &str) -> (r: Result<Contract, ParseError>)
    requires
        tag@ == "Pay"@ || tag@ == "If"@ || tag@ == "When"@ || tag@ == "Let"@ || tag@ == "Assert"@,
    ensures
        viewed(r) == read_contract_body(tag@, yaml_entries_view(map@), p@),
    decreases map, 0nat,
{
    proof { lemma_entries_view(map@); }
    if same_text(tag, "Pay") {
        let n1 = required(map, p, "from")?;
        let p1 = field(p, "from");
        let from = parse_party(n1, p1.as_str())?;
        let n2 = required(map, p, "token")?;
        let p2 = field(p, "token");
        let token = parse_token(n2, p2.as_str())?;
        let n3 = required(map, p, "amount")?;
        let p3 = field(p, "amount");
        let amount = parse_value(n3, p3.as_str())?;
        let ti = required_index(map, p, "then")?;
        let tp = field(p, "then");
        let then = parse_contract(&map[ti].1, tp.as_str())?;
        parse_payee(map, p, from, token, amount, then)
    } else if same_text(tag, "If") {
        let n1 = required(map, p, "cond")?;
        let p1 = field(p, "cond");
        let cond = parse_observation(n1, p1.as_str())?;
        let ti = required_index(map, p, "then")?;
        let tp = field(p, "then");
        let then = parse_contract(&map[ti].1, tp.as_str())?;
        let ei = required_index(map, p, "else")?;
        let ep = field(p, "else");
        let else_ = parse_contract(&map[ei].1, ep.as_str())?;
        Ok(Contract::If { cond, then: Box::new(then), else_: Box::new(else_) })
    } else if same_text(tag, "When") {
        let ci = required_index(map, p, "cases")?;
        let cp = field(p, "cases");
        let items = match &map[ci].1 {
            YamlNode::Sequence(items) => items,
            _ => {
                return Err(error(cp.as_str(), String::from_str("expected cases sequence")));
            },
        };
        let cases = parse_cases(items, cp.as_str())?;
        let tn = required(map, p, "timeout")?;
        let tp = field(p, "timeout");
        let timeout = parse_timeout(tn, tp.as_str())?;
        let ki = required_index(map, p, "timeout_continuation")?;
        let kp = field(p, "timeout_continuation");
        let k = parse_contract(&map[ki].1, kp.as_str())?;
        Ok(Contract::When { cases, timeout, timeout_continuation: Box::new(k) })
    } else if same_text(tag, "Let") {
        let n1 = required(map, p, "name")?;
        let p1 = field(p, "name");
        let name = parse_raw_string(n1, p1.as_str())?;
        let n2 = required(map, p, "value")?;
        let p2 = field(p, "value");
        let value = parse_value(n2, p2.as_str())?;
        let ti = required_index(map, p, "then")?;
        let tp = field(p, "then");
        let then = parse_contract(&map[ti].1, tp.as_str())?;
        Ok(Contract::Let { name, value, then: Box::new(then) })
    } else {
        let n1 = required(map, p, "cond")?;
        let p1 = field(p, "cond");
        let cond = parse_observation(n1, p1.as_str())?;
        let ti = required_index(map, p, "then")?;
        let tp = field(p, "then");
        let then = parse_contract(&map[ti].1, tp.as_str())?;
        Ok(Contract::Assert { cond, then: Box::new(then) })
    }
}

fn parse_payee(
    map: &Vec<(YamlNode, YamlNode)>,
    p: &str,
    from: Party,
    token: Token,
    amount: NumericValue,
    then: Contract,
) -> (r: Result<Contract, ParseError>)
    ensures
        viewed(r) == read_payee(yaml_entries_view(map@), p@, from@, token@, amount@, then@),
{
    let to_party = match optional(map, "to_party") {
        Some(n) => {
            let pp = field(p, "to_party");
            Some(parse_party(n, pp.as_str())?)
        },
        None => None,
    };
    let to_account = match optional(map, "to_account") {
        Some(n) => {
            let pp = field(p, "to_account");
            Some(parse_party(n, pp.as_str())?)
        },
        None => None,
    };
    match (to_party, to_account) {
        (Some(party), None) => Ok(Contract::Pay { from, to: PayeeTarget::ToParty(party), token, amount, then: Box::new(then) }),
        (None, Some(account)) => Ok(Contract::Pay { from, to: PayeeTarget::ToAccount(account), token, amount, then: Box::new(then) }),
        (Some(_), Some(_)) => Err(error(p, String::from_str("Pay must include exactly one of 'to_party' or 'to_account'"))),
        (None, None) => Err(error(p, String::from_str("Pay is missing one of 'to_party' or 'to_account'"))),
    }
}

/// The contract that a YAML document describes.
#[verifier::opaque]
pub open spec fn read_contract_document(text: Seq<char>) -> Result<ContractV, ParseErrorV> {
    match yaml_document(text) {
        Err(e) => fail("$"@, "invalid yaml: "@ + e),
        Ok(root) => read_contract(root, "$"@),
    }
}

/// Reads a contract from a YAML document already read from text.
pub fn parse_contract_node(root: &YamlNode) -> (r: Result<Contract, ParseError>)
    ensures
        viewed(r) == read_contract(root@, "$"@),
{
    parse_contract(root, "$")
}

/// Reads a contract from YAML text.
pub fn parse_contract_yaml(input: &str) -> (r: Result<Contract, ParseError>)
    ensures
        viewed(r) == read_contract_document(input@),
{
    reveal(read_contract_document);
    match read_yaml(input) {
        Err(e) => Err(error("$", join2("invalid yaml: ", e.as_str()))),
        Ok(root) => parse_contract(&root, "$"),
    }
}

/// A parameter is refused where a party is expected: the text `$name`, for
/// a non-empty name without spaces that does not itself start with `$`, read
/// as a party is an error at that place naming the parameter and the Party
/// position.
pub proof fn lemma_party_refuses_param(name: Seq<char>, path: Seq<char>)
    requires
        name.len() > 0,
        !name.contains(' '),
        name[0] != '$',
    ensures
        read_party(YamlValue::String("$"@ + name), path) == Err::<PartyV, ParseErrorV>(
            ParseErrorV { path, message: "parameter '$"@ + name + "' is not valid in Party position"@ },
        ),
{
    reveal_strlit("$");
    reveal_strlit("??");
    reveal_strlit("$$");
    let raw = "$"@ + name;
    assert(raw[0] == '$');
    assert(!has_prefix(raw, "??"@)) by {
        if has_prefix(raw, "??"@) {
            assert(raw.subrange(0, 2)[0] == '?');
        }
    }
    assert(!has_prefix(raw, "$$"@)) by {
        if has_prefix(raw, "$$"@) {
            assert(raw.subrange(0, 2)[1] == raw[1]);
            assert(raw[1] == name[0]);
        }
    }
    assert(unescape(raw) == raw);
    assert(raw.skip(1) =~= name);
    assert(read_hole(YamlValue::String(raw)) is None);
    assert(read_param(YamlValue::String(raw)) == Some(name));
    reveal_strlit("parameter '$");
    reveal_strlit("' is not valid in ");
    reveal_strlit("Party");
    reveal_strlit(" position");
    reveal_strlit("' is not valid in Party position");
    assert("parameter '$"@ + name + "' is not valid in "@ + "Party"@ + " position"@ =~= "parameter '$"@ + name
        + "' is not valid in Party position"@);
}

/// A `Pay` whose `from` is a parameter is refused at `$.Pay.from`, whatever
/// its other entries: the payer is read first, and a parameter is not a
/// party.
pub proof fn lemma_pay_refuses_param_payer(map: Seq<(YamlValue, YamlValue)>, name: Seq<char>)
    requires
        name.len() > 0,
        !name.contains(' '),
        name[0] != '$',
        read_optional(map, "from"@) == Some(YamlValue::String("$"@ + name)),
    ensures
        read_contract(YamlValue::Mapping(seq![(YamlValue::String("Pay"@), YamlValue::Mapping(map))]), "$"@) == Err::<
            ContractV,
            ParseErrorV,
        >(
            ParseErrorV {
                path: field_path(field_path("$"@, "Pay"@), "from"@),
                message: "parameter '$"@ + name + "' is not valid in Party position"@,
            },
        ),
{
    reveal_strlit("Pay");
    reveal_strlit("Close");
    lemma_party_refuses_param(name, field_path(field_path("$"@, "Pay"@), "from"@));
    assert("Pay"@ != "Close"@) by {
        assert("Pay"@.len() != "Close"@.len());
    }
}

} // verus!
