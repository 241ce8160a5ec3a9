//! Knowing more definitions can only take errors away: how the check of a
//! contract against one context relates to its check against a context that
//! knows more.
use crate::ast::{ActionV, BoundV, CaseV, ChoiceIdV, ContractV, ObservationV, PartyV, PayeeTargetV, TimeoutV, TokenV, ValueV};
use crate::text::{field_path, index_path};
use crate::typecheck::{
    add_error, add_warning, check_action_spec, check_bound_spec, check_bounds_spec, check_case_spec, check_cases_spec,
    check_choice_id_spec, check_choice_usage_spec, check_contract_spec, check_observation_spec, check_party_spec,
    check_payee_spec, check_state_of, check_timeout_spec, check_token_spec, check_value_spec, choice_ref_of,
    declared_choices, let_defined, register_symbol, static_value, CheckState, ChoiceRefV, ContextV, DiagnosticV,
    LetRecordV, PartyRefV, PartyUsage, TokenRefV,
};
use crate::ast::DslType;
use vstd::prelude::*;

verus! {

/// `a` is `b` with some entries left out, the others in the same order.
pub open spec fn is_subsequence<T>(a: Seq<T>, b: Seq<T>) -> bool
    decreases b.len(),
{
    if a.len() == 0 {
        true
    } else if b.len() == 0 {
        false
    } else if a.last() == b.last() {
        is_subsequence(a.drop_last(), b.drop_last())
    } else {
        is_subsequence(a, b.drop_last())
    }
}

/// How many entries of `s` satisfy `p`.
pub open spec fn count_where<T>(s: Seq<T>, p: spec_fn(T) -> bool) -> nat
    decreases s.len(),
{
    if s.len() == 0 {
        0
    } else {
        count_where(s.drop_last(), p) + if p(s.last()) {
            1nat
        } else {
            0nat
        }
    }
}

proof fn lemma_subsequence_push_right<T>(a: Seq<T>, b: Seq<T>, x: T)
    requires
        is_subsequence(a, b),
    ensures
        is_subsequence(a, b.push(x)),
    decreases b.len(), 1nat,
{
    assert(b.push(x).drop_last() =~= b);
    if a.len() > 0 && a.last() == x {
        lemma_subsequence_drop_last(a, b);
    }
}

proof fn lemma_subsequence_drop_last<T>(a: Seq<T>, b: Seq<T>)
    requires
        is_subsequence(a, b),
        a.len() > 0,
    ensures
        is_subsequence(a.drop_last(), b),
    decreases b.len(), 0nat,
{
    assert(b.drop_last().push(b.last()) =~= b);
    if a.last() == b.last() {
        lemma_subsequence_push_right(a.drop_last(), b.drop_last(), b.last());
    } else {
        lemma_subsequence_drop_last(a, b.drop_last());
        lemma_subsequence_push_right(a.drop_last(), b.drop_last(), b.last());
    }
}

proof fn lemma_subsequence_push_both<T>(a: Seq<T>, b: Seq<T>, x: T)
    requires
        is_subsequence(a, b),
    ensures
        is_subsequence(a.push(x), b.push(x)),
{
    assert(a.push(x).drop_last() =~= a);
    assert(b.push(x).drop_last() =~= b);
}

proof fn lemma_subsequence_count<T>(a: Seq<T>, b: Seq<T>, p: spec_fn(T) -> bool)
    requires
        is_subsequence(a, b),
    ensures
        count_where(a, p) <= count_where(b, p),
    decreases b.len(),
{
    if a.len() > 0 {
        if a.last() == b.last() {
            lemma_subsequence_count(a.drop_last(), b.drop_last(), p);
        } else {
            lemma_subsequence_count(a, b.drop_last(), p);
        }
    }
}

/// `wide` knows every definition that `narrow` knows, and requires known
/// definitions only where `narrow` does.
pub open spec fn knows_at_least(wide: ContextV, narrow: ContextV) -> bool {
    &&& wide.require_known_definitions ==> narrow.require_known_definitions
    &&& forall|r: PartyRefV| narrow.known_accounts.contains(r) ==> wide.known_accounts.contains(r)
    &&& forall|r: PartyRefV| narrow.known_parties.contains(r) ==> wide.known_parties.contains(r)
    &&& forall|r: TokenRefV| narrow.known_tokens.contains(r) ==> wide.known_tokens.contains(r)
    &&& forall|r: ChoiceRefV| narrow.known_choices.contains(r) ==> wide.known_choices.contains(r)
}

/// `w` is `n` with some errors left out: the same holes, parameters,
/// warnings and scopes.
pub open spec fn fewer_errors(w: CheckState, n: CheckState) -> bool {
    &&& w.holes == n.holes
    &&& w.params == n.params
    &&& w.warnings == n.warnings
    &&& w.scopes == n.scopes
    &&& is_subsequence(w.errors, n.errors)
}

proof fn lemma_maybe_error(w: CheckState, n: CheckState, path: Seq<char>, message: Seq<char>, on_w: bool, on_n: bool)
    requires
        fewer_errors(w, n),
        on_w ==> on_n,
    ensures
        fewer_errors(
            if on_w {
                add_error(w, path, message)
            } else {
                w
            },
            if on_n {
                add_error(n, path, message)
            } else {
                n
            },
        ),
{
    let d = DiagnosticV { path, message };
    if on_w {
        lemma_subsequence_push_both(w.errors, n.errors, d);
    } else if on_n {
        lemma_subsequence_push_right(w.errors, n.errors, d);
    }
}

proof fn lemma_register_fewer(w: CheckState, n: CheckState, is_hole: bool, name: Seq<char>, ty: DslType, path: Seq<char>)
    requires
        fewer_errors(w, n),
    ensures
        fewer_errors(register_symbol(w, is_hole, name, ty, path), register_symbol(n, is_hole, name, ty, path)),
{
    let symbols = if is_hole {
        n.holes
    } else {
        n.params
    };
    match crate::typecheck::symbol_position(symbols, name) {
        Some(i) => if symbols[i].ty != ty {
            let message = (if is_hole {
                "hole"@
            } else {
                "parameter"@
            }) + " '"@ + name + "' has conflicting inferred types: "@ + crate::ast::dsl_type_name(symbols[i].ty)
                + " at "@ + symbols[i].path + " and "@ + crate::ast::dsl_type_name(ty) + " at "@ + path;
            lemma_maybe_error(w, n, path, message, true, true);
        },
        None => {},
    }
}

proof fn lemma_party_fewer(
    wide: ContextV,
    narrow: ContextV,
    w: CheckState,
    n: CheckState,
    party: PartyV,
    path: Seq<char>,
    usage: PartyUsage,
)
    requires
        knows_at_least(wide, narrow),
        fewer_errors(w, n),
    ensures
        fewer_errors(check_party_spec(wide, w, party, path, usage), check_party_spec(narrow, n, party, path, usage)),
{
    match party {
        PartyV::Hole(name) => lemma_register_fewer(w, n, true, name, DslType::Party, path),
        PartyV::Role(name) => if narrow.require_known_definitions {
            let r = PartyRefV::Role(name);
            let m1 = "unknown party role '"@ + name + "'"@;
            let a_w = wide.require_known_definitions && usage == PartyUsage::Actor && !wide.known_parties.contains(r);
            let a_n = usage == PartyUsage::Actor && !narrow.known_parties.contains(r);
            lemma_maybe_error(w, n, path, m1, a_w, a_n);
            let w1 = if a_w {
                add_error(w, path, m1)
            } else {
                w
            };
            let n1 = if a_n {
                add_error(n, path, m1)
            } else {
                n
            };
            let m2 = "unknown account owner role '"@ + name + "'"@;
            let o_w = wide.require_known_definitions && usage == PartyUsage::AccountOwner && !wide.known_accounts.contains(r);
            let o_n = usage == PartyUsage::AccountOwner && !narrow.known_accounts.contains(r);
            lemma_maybe_error(w1, n1, path, m2, o_w, o_n);
        },
        PartyV::Address(name) => if narrow.require_known_definitions {
            let r = PartyRefV::Address(name);
            let m1 = "unknown party address '"@ + name + "'"@;
            let a_w = wide.require_known_definitions && usage == PartyUsage::Actor && !wide.known_parties.contains(r);
            let a_n = usage == PartyUsage::Actor && !narrow.known_parties.contains(r);
            lemma_maybe_error(w, n, path, m1, a_w, a_n);
            let w1 = if a_w {
                add_error(w, path, m1)
            } else {
                w
            };
            let n1 = if a_n {
                add_error(n, path, m1)
            } else {
                n
            };
            let m2 = "unknown account owner address '"@ + name + "'"@;
            let o_w = wide.require_known_definitions && usage == PartyUsage::AccountOwner && !wide.known_accounts.contains(r);
            let o_n = usage == PartyUsage::AccountOwner && !narrow.known_accounts.contains(r);
            lemma_maybe_error(w1, n1, path, m2, o_w, o_n);
        },
    }
}

proof fn lemma_token_fewer(wide: ContextV, narrow: ContextV, w: CheckState, n: CheckState, token: TokenV, path: Seq<char>)
    requires
        knows_at_least(wide, narrow),
        fewer_errors(w, n),
    ensures
        fewer_errors(check_token_spec(wide, w, token, path), check_token_spec(narrow, n, token, path)),
{
    match token {
        TokenV::Hole(name) => lemma_register_fewer(w, n, true, name, DslType::Token, path),
        TokenV::Token { currency_symbol, token_name } => {
            let r = TokenRefV { currency_symbol, token_name };
            lemma_maybe_error(
                w,
                n,
                path,
                "unknown token '"@ + currency_symbol + "."@ + token_name + "'"@,
                wide.require_known_definitions && !wide.known_tokens.contains(r),
                narrow.require_known_definitions && !narrow.known_tokens.contains(r),
            );
        },
    }
}

proof fn lemma_payee_fewer(wide: ContextV, narrow: ContextV, w: CheckState, n: CheckState, payee: PayeeTargetV, path: Seq<char>)
    requires
        knows_at_least(wide, narrow),
        fewer_errors(w, n),
    ensures
        fewer_errors(check_payee_spec(wide, w, payee, path), check_payee_spec(narrow, n, payee, path)),
{
    match payee {
        PayeeTargetV::Hole(name) => lemma_register_fewer(w, n, true, name, DslType::Payee, path),
        PayeeTargetV::ToParty(p) => lemma_party_fewer(wide, narrow, w, n, p, field_path(path, "party"@), PartyUsage::Actor),
        PayeeTargetV::ToAccount(p) => lemma_party_fewer(
            wide,
            narrow,
            w,
            n,
            p,
            field_path(path, "account"@),
            PartyUsage::AccountOwner,
        ),
    }
}

proof fn lemma_choice_id_fewer(wide: ContextV, narrow: ContextV, w: CheckState, n: CheckState, id: ChoiceIdV, path: Seq<char>)
    requires
        knows_at_least(wide, narrow),
        fewer_errors(w, n),
    ensures
        fewer_errors(check_choice_id_spec(wide, w, id, path), check_choice_id_spec(narrow, n, id, path)),
{
    match id {
        ChoiceIdV::Hole(name) => lemma_register_fewer(w, n, true, name, DslType::ChoiceId, path),
        ChoiceIdV::ChoiceId { name, party } => lemma_party_fewer(
            wide,
            narrow,
            w,
            n,
            party,
            field_path(path, "party"@),
            PartyUsage::Actor,
        ),
    }
}

proof fn lemma_choice_usage_fewer(
    wide: ContextV,
    narrow: ContextV,
    declared: Seq<ChoiceRefV>,
    w: CheckState,
    n: CheckState,
    id: ChoiceIdV,
    path: Seq<char>,
)
    requires
        knows_at_least(wide, narrow),
        fewer_errors(w, n),
    ensures
        fewer_errors(
            check_choice_usage_spec(wide, declared, w, id, path),
            check_choice_usage_spec(narrow, declared, n, id, path),
        ),
{
    lemma_choice_id_fewer(wide, narrow, w, n, id, path);
    let w1 = check_choice_id_spec(wide, w, id, path);
    let n1 = check_choice_id_spec(narrow, n, id, path);
    match choice_ref_of(id) {
        Some(r) => {
            lemma_maybe_error(
                w1,
                n1,
                path,
                "choice '"@ + r.name + "' for party is not declared in contract or context"@,
                wide.require_known_definitions && !(declared.contains(r) || wide.known_choices.contains(r)),
                narrow.require_known_definitions && !(declared.contains(r) || narrow.known_choices.contains(r)),
            );
        },
        None => {},
    }
}

proof fn lemma_value_fewer(
    wide: ContextV,
    narrow: ContextV,
    declared: Seq<ChoiceRefV>,
    w: CheckState,
    n: CheckState,
    v: ValueV,
    path: Seq<char>,
)
    requires
        knows_at_least(wide, narrow),
        fewer_errors(w, n),
    ensures
        fewer_errors(check_value_spec(wide, declared, w, v, path), check_value_spec(narrow, declared, n, v, path)),
    decreases v,
{
    match v {
        ValueV::Hole(name) => lemma_register_fewer(w, n, true, name, DslType::Value, path),
        ValueV::Param(name) => lemma_register_fewer(w, n, false, name, DslType::Value, path),
        ValueV::Add(a, b) | ValueV::Sub(a, b) | ValueV::Mul(a, b) | ValueV::Div(a, b) => {
            lemma_value_fewer(wide, narrow, declared, w, n, *a, index_path(path, 0));
            let w1 = check_value_spec(wide, declared, w, *a, index_path(path, 0));
            let n1 = check_value_spec(narrow, declared, n, *a, index_path(path, 0));
            lemma_value_fewer(wide, narrow, declared, w1, n1, *b, index_path(path, 1));
        },
        ValueV::Neg(a) | ValueV::Abs(a) => lemma_value_fewer(wide, narrow, declared, w, n, *a, field_path(path, "inner"@)),
        ValueV::ValueFromChoice(c) => lemma_choice_usage_fewer(wide, narrow, declared, w, n, c, field_path(path, "choice"@)),
        ValueV::UseValue(name) => match crate::typecheck::innermost_let(n.scopes, name) {
            Some(i) => {},
            None => lemma_maybe_error(
                w,
                n,
                path,
                "UseValue references undefined let binding '"@ + name + "'"@,
                true,
                true,
            ),
        },
        ValueV::AvailableMoney { account, token } => {
            lemma_party_fewer(wide, narrow, w, n, account, field_path(path, "account"@), PartyUsage::AccountOwner);
            let w1 = check_party_spec(wide, w, account, field_path(path, "account"@), PartyUsage::AccountOwner);
            let n1 = check_party_spec(narrow, n, account, field_path(path, "account"@), PartyUsage::AccountOwner);
            lemma_token_fewer(wide, narrow, w1, n1, token, field_path(path, "token"@));
        },
        _ => {},
    }
}

proof fn lemma_observation_fewer(
    wide: ContextV,
    narrow: ContextV,
    declared: Seq<ChoiceRefV>,
    w: CheckState,
    n: CheckState,
    o: ObservationV,
    path: Seq<char>,
)
    requires
        knows_at_least(wide, narrow),
        fewer_errors(w, n),
    ensures
        fewer_errors(check_observation_spec(wide, declared, w, o, path), check_observation_spec(narrow, declared, n, o, path)),
    decreases o,
{
    match o {
        ObservationV::Hole(name) => lemma_register_fewer(w, n, true, name, DslType::Observation, path),
        ObservationV::And(a, b) | ObservationV::Or(a, b) => {
            lemma_observation_fewer(wide, narrow, declared, w, n, *a, index_path(path, 0));
            let w1 = check_observation_spec(wide, declared, w, *a, index_path(path, 0));
            let n1 = check_observation_spec(narrow, declared, n, *a, index_path(path, 0));
            lemma_observation_fewer(wide, narrow, declared, w1, n1, *b, index_path(path, 1));
        },
        ObservationV::Not(a) => lemma_observation_fewer(wide, narrow, declared, w, n, *a, field_path(path, "inner"@)),
        ObservationV::ChoseSomething(c) => lemma_choice_usage_fewer(
            wide,
            narrow,
            declared,
            w,
            n,
            c,
            field_path(path, "choice"@),
        ),
        ObservationV::ValueGE(a, b) | ObservationV::ValueGT(a, b) | ObservationV::ValueLT(a, b)
        | ObservationV::ValueLE(a, b) | ObservationV::ValueEQ(a, b) => {
            lemma_value_fewer(wide, narrow, declared, w, n, a, index_path(path, 0));
            let w1 = check_value_spec(wide, declared, w, a, index_path(path, 0));
            let n1 = check_value_spec(narrow, declared, n, a, index_path(path, 0));
            lemma_value_fewer(wide, narrow, declared, w1, n1, b, index_path(path, 1));
        },
        _ => {},
    }
}

proof fn lemma_timeout_fewer(w: CheckState, n: CheckState, t: TimeoutV, path: Seq<char>)
    requires
        fewer_errors(w, n),
    ensures
        fewer_errors(check_timeout_spec(w, t, path), check_timeout_spec(n, t, path)),
{
    match t {
        TimeoutV::Hole(name) => lemma_register_fewer(w, n, true, name, DslType::Timeout, path),
        TimeoutV::Param(name) => lemma_register_fewer(w, n, false, name, DslType::Timeout, path),
        TimeoutV::PosixTime(_) => {},
    }
}

proof fn lemma_bound_fewer(
    wide: ContextV,
    narrow: ContextV,
    declared: Seq<ChoiceRefV>,
    w: CheckState,
    n: CheckState,
    b: BoundV,
    path: Seq<char>,
)
    requires
        knows_at_least(wide, narrow),
        fewer_errors(w, n),
    ensures
        fewer_errors(check_bound_spec(wide, declared, w, b, path), check_bound_spec(narrow, declared, n, b, path)),
{
    match b {
        BoundV::Hole(name) => lemma_register_fewer(w, n, true, name, DslType::Bound, path),
        BoundV::Bound { from, to } => {
            lemma_value_fewer(wide, narrow, declared, w, n, from, field_path(path, "from"@));
            let w1 = check_value_spec(wide, declared, w, from, field_path(path, "from"@));
            let n1 = check_value_spec(narrow, declared, n, from, field_path(path, "from"@));
            lemma_value_fewer(wide, narrow, declared, w1, n1, to, field_path(path, "to"@));
            let w2 = check_value_spec(wide, declared, w1, to, field_path(path, "to"@));
            let n2 = check_value_spec(narrow, declared, n1, to, field_path(path, "to"@));
            match (static_value(from), static_value(to)) {
                (Some(lo), Some(hi)) => lemma_maybe_error(
                    w2,
                    n2,
                    path,
                    "invalid bound range: 'from' is greater than 'to'"@,
                    lo > hi,
                    lo > hi,
                ),
                _ => {
                    let m = "bound range cannot be statically validated until values are concrete"@;
                    assert(add_warning(w2, path, m).warnings == add_warning(n2, path, m).warnings);
                },
            }
        },
    }
}

proof fn lemma_bounds_fewer(
    wide: ContextV,
    narrow: ContextV,
    declared: Seq<ChoiceRefV>,
    w: CheckState,
    n: CheckState,
    bounds: Seq<BoundV>,
    path: Seq<char>,
    i: nat,
)
    requires
        knows_at_least(wide, narrow),
        fewer_errors(w, n),
    ensures
        fewer_errors(
            check_bounds_spec(wide, declared, w, bounds, path, i),
            check_bounds_spec(narrow, declared, n, bounds, path, i),
        ),
    decreases bounds.len() - i,
{
    if i < bounds.len() {
        lemma_bound_fewer(wide, narrow, declared, w, n, bounds[i as int], index_path(path, i));
        let w1 = check_bound_spec(wide, declared, w, bounds[i as int], index_path(path, i));
        let n1 = check_bound_spec(narrow, declared, n, bounds[i as int], index_path(path, i));
        lemma_bounds_fewer(wide, narrow, declared, w1, n1, bounds, path, i + 1);
    }
}

proof fn lemma_action_fewer(
    wide: ContextV,
    narrow: ContextV,
    declared: Seq<ChoiceRefV>,
    w: CheckState,
    n: CheckState,
    a: ActionV,
    path: Seq<char>,
)
    requires
        knows_at_least(wide, narrow),
        fewer_errors(w, n),
    ensures
        fewer_errors(check_action_spec(wide, declared, w, a, path), check_action_spec(narrow, declared, n, a, path)),
{
    match a {
        ActionV::Hole(name) => lemma_register_fewer(w, n, true, name, DslType::Action, path),
        ActionV::Deposit { into, by, token, amount } => {
            lemma_party_fewer(wide, narrow, w, n, into, field_path(path, "into"@), PartyUsage::AccountOwner);
            let w1 = check_party_spec(wide, w, into, field_path(path, "into"@), PartyUsage::AccountOwner);
            let n1 = check_party_spec(narrow, n, into, field_path(path, "into"@), PartyUsage::AccountOwner);
            lemma_party_fewer(wide, narrow, w1, n1, by, field_path(path, "by"@), PartyUsage::Actor);
            let w2 = check_party_spec(wide, w1, by, field_path(path, "by"@), PartyUsage::Actor);
            let n2 = check_party_spec(narrow, n1, by, field_path(path, "by"@), PartyUsage::Actor);
            lemma_token_fewer(wide, narrow, w2, n2, token, field_path(path, "token"@));
            let w3 = check_token_spec(wide, w2, token, field_path(path, "token"@));
            let n3 = check_token_spec(narrow, n2, token, field_path(path, "token"@));
            lemma_value_fewer(wide, narrow, declared, w3, n3, amount, field_path(path, "amount"@));
        },
        ActionV::Choice { id, bounds } => {
            lemma_choice_id_fewer(wide, narrow, w, n, id, field_path(path, "id"@));
            let w1 = check_choice_id_spec(wide, w, id, field_path(path, "id"@));
            let n1 = check_choice_id_spec(narrow, n, id, field_path(path, "id"@));
            lemma_bounds_fewer(wide, narrow, declared, w1, n1, bounds, field_path(path, "bounds"@), 0);
        },
        ActionV::Notify { if_ } => lemma_observation_fewer(wide, narrow, declared, w, n, if_, field_path(path, "if"@)),
    }
}

proof fn lemma_case_fewer(
    wide: ContextV,
    narrow: ContextV,
    declared: Seq<ChoiceRefV>,
    w: CheckState,
    n: CheckState,
    c: CaseV,
    path: Seq<char>,
)
    requires
        knows_at_least(wide, narrow),
        fewer_errors(w, n),
    ensures
        fewer_errors(check_case_spec(wide, declared, w, c, path), check_case_spec(narrow, declared, n, c, path)),
    decreases c, 0nat,
{
    match c {
        CaseV::Hole(name) => lemma_register_fewer(w, n, true, name, DslType::Case, path),
        CaseV::Case { action, then } => {
            lemma_action_fewer(wide, narrow, declared, w, n, action, field_path(path, "action"@));
            let w1 = check_action_spec(wide, declared, w, action, field_path(path, "action"@));
            let n1 = check_action_spec(narrow, declared, n, action, field_path(path, "action"@));
            lemma_contract_fewer(wide, narrow, declared, w1, n1, *then, field_path(path, "then"@));
        },
    }
}

proof fn lemma_cases_fewer(
    wide: ContextV,
    narrow: ContextV,
    declared: Seq<ChoiceRefV>,
    w: CheckState,
    n: CheckState,
    cases: Seq<CaseV>,
    path: Seq<char>,
    i: nat,
)
    requires
        knows_at_least(wide, narrow),
        fewer_errors(w, n),
    ensures
        fewer_errors(
            check_cases_spec(wide, declared, w, cases, path, i),
            check_cases_spec(narrow, declared, n, cases, path, i),
        ),
    decreases cases, cases.len() - i,
{
    if i < cases.len() {
        lemma_case_fewer(wide, narrow, declared, w, n, cases[i as int], index_path(path, i));
        let w1 = check_case_spec(wide, declared, w, cases[i as int], index_path(path, i));
        let n1 = check_case_spec(narrow, declared, n, cases[i as int], index_path(path, i));
        lemma_cases_fewer(wide, narrow, declared, w1, n1, cases, path, i + 1);
    }
}

proof fn lemma_contract_fewer(
    wide: ContextV,
    narrow: ContextV,
    declared: Seq<ChoiceRefV>,
    w: CheckState,
    n: CheckState,
    c: ContractV,
    path: Seq<char>,
)
    requires
        knows_at_least(wide, narrow),
        fewer_errors(w, n),
    ensures
        fewer_errors(check_contract_spec(wide, declared, w, c, path), check_contract_spec(narrow, declared, n, c, path)),
    decreases c, 0nat,
{
    match c {
        ContractV::Hole(name) => lemma_register_fewer(w, n, true, name, DslType::Contract, path),
        ContractV::Close => {},
        ContractV::Pay { from, to, token, amount, then } => {
            lemma_party_fewer(wide, narrow, w, n, from, field_path(path, "from"@), PartyUsage::AccountOwner);
            let w1 = check_party_spec(wide, w, from, field_path(path, "from"@), PartyUsage::AccountOwner);
            let n1 = check_party_spec(narrow, n, from, field_path(path, "from"@), PartyUsage::AccountOwner);
            lemma_payee_fewer(wide, narrow, w1, n1, to, field_path(path, "to"@));
            let w2 = check_payee_spec(wide, w1, to, field_path(path, "to"@));
            let n2 = check_payee_spec(narrow, n1, to, field_path(path, "to"@));
            lemma_token_fewer(wide, narrow, w2, n2, token, field_path(path, "token"@));
            let w3 = check_token_spec(wide, w2, token, field_path(path, "token"@));
            let n3 = check_token_spec(narrow, n2, token, field_path(path, "token"@));
            lemma_value_fewer(wide, narrow, declared, w3, n3, amount, field_path(path, "amount"@));
            let w4 = check_value_spec(wide, declared, w3, amount, field_path(path, "amount"@));
            let n4 = check_value_spec(narrow, declared, n3, amount, field_path(path, "amount"@));
            lemma_contract_fewer(wide, narrow, declared, w4, n4, *then, field_path(path, "then"@));
        },
        ContractV::If { cond, then, else_ } => {
            lemma_observation_fewer(wide, narrow, declared, w, n, cond, field_path(path, "cond"@));
            let w1 = check_observation_spec(wide, declared, w, cond, field_path(path, "cond"@));
            let n1 = check_observation_spec(narrow, declared, n, cond, field_path(path, "cond"@));
            lemma_contract_fewer(wide, narrow, declared, w1, n1, *then, field_path(path, "then"@));
            let w2 = check_contract_spec(wide, declared, w1, *then, field_path(path, "then"@));
            let n2 = check_contract_spec(narrow, declared, n1, *then, field_path(path, "then"@));
            lemma_contract_fewer(wide, narrow, declared, w2, n2, *else_, field_path(path, "else"@));
        },
        ContractV::When { cases, timeout, timeout_continuation } => {
            lemma_cases_fewer(wide, narrow, declared, w, n, cases, field_path(path, "cases"@), 0);
            let w1 = check_cases_spec(wide, declared, w, cases, field_path(path, "cases"@), 0);
            let n1 = check_cases_spec(narrow, declared, n, cases, field_path(path, "cases"@), 0);
            lemma_timeout_fewer(w1, n1, timeout, field_path(path, "timeout"@));
            let w2 = check_timeout_spec(w1, timeout, field_path(path, "timeout"@));
            let n2 = check_timeout_spec(n1, timeout, field_path(path, "timeout"@));
            lemma_contract_fewer(
                wide,
                narrow,
                declared,
                w2,
                n2,
                *timeout_continuation,
                field_path(path, "timeout_continuation"@),
            );
        },
        ContractV::Let { name, value, then } => {
            let shadow = "let binding '"@ + name + "' shadows an existing binding"@;
            let w1 = if let_defined(w.scopes, name) {
                add_warning(w, path, shadow)
            } else {
                w
            };
            let n1 = if let_defined(n.scopes, name) {
                add_warning(n, path, shadow)
            } else {
                n
            };
            assert(fewer_errors(w1, n1));
            lemma_value_fewer(wide, narrow, declared, w1, n1, value, field_path(path, "value"@));
            let w2 = check_value_spec(wide, declared, w1, value, field_path(path, "value"@));
            let n2 = check_value_spec(narrow, declared, n1, value, field_path(path, "value"@));
            let record = LetRecordV { name, path: field_path(path, "name"@), used: false };
            let w3 = CheckState { scopes: w2.scopes.push(record), ..w2 };
            let n3 = CheckState { scopes: n2.scopes.push(record), ..n2 };
            lemma_contract_fewer(wide, narrow, declared, w3, n3, *then, field_path(path, "then"@));
        },
        ContractV::Assert { cond, then } => {
            lemma_observation_fewer(wide, narrow, declared, w, n, cond, field_path(path, "cond"@));
            let w1 = check_observation_spec(wide, declared, w, cond, field_path(path, "cond"@));
            let n1 = check_observation_spec(narrow, declared, n, cond, field_path(path, "cond"@));
            lemma_contract_fewer(wide, narrow, declared, w1, n1, *then, field_path(path, "then"@));
        },
    }
}

/// Knowing more, or requiring less, can only take errors away. Checked
/// against a context that knows every definition another context knows, and
/// requires known definitions only where the other does, a
/// contract has the same holes, parameters and warnings, and its errors are
/// those of the other check with some left out, in the same order; so no
/// kind of error is found more often.
pub proof fn lemma_wider_context_fewer_errors(narrow: ContextV, wide: ContextV, c: ContractV)
    requires
        knows_at_least(wide, narrow),
    ensures
        fewer_errors(check_state_of(wide, c), check_state_of(narrow, c)),
        forall|p: spec_fn(DiagnosticV) -> bool|
            #![trigger count_where(check_state_of(wide, c).errors, p)]
            count_where(check_state_of(wide, c).errors, p) <= count_where(check_state_of(narrow, c).errors, p),
{
    let st0 = crate::typecheck::empty_check_state();
    lemma_contract_fewer(wide, narrow, declared_choices(c), st0, st0, c, "$"@);
    assert forall|p: spec_fn(DiagnosticV) -> bool|
        #![trigger count_where(check_state_of(wide, c).errors, p)]
        count_where(check_state_of(wide, c).errors, p) <= count_where(check_state_of(narrow, c).errors, p) by {
        lemma_subsequence_count(check_state_of(wide, c).errors, check_state_of(narrow, c).errors, p);
    }
}

} // verus!
