//! What the bounded analyses promise over all contracts: the deadline scan
//! misses no `When` that can time out into something other than `Close`
//! once its budget covers the contract, and an authorization rule for a
//! named choice reports only that choice.
use crate::analyze::{
    auth_stopped, authorization_result, authorization_scan, authorization_scan_cases, case_path, cases_close_on_timeout,
    closes_on_timeout, deadline_plan, deadline_scan, deadline_scan_cases, scan_stopped, when_timeout_check,
    AuthScanV, AuthorizationAction, AuthorizationRuleV, CounterexampleResultV, DeadlineStepV, ScanV,
};
use crate::ast::{ActionV, CaseV, ChoiceIdV, ContractV, TimeoutV};
use crate::analyze::authorization_violation;
use vstd::prelude::*;

verus! {

/// How many contract nodes the scans visit in `c`: every contract, the
/// continuations of the cases and of the timeouts included.
pub open spec fn node_count(c: ContractV) -> nat
    decreases c, 0nat,
{
    match c {
        ContractV::Close | ContractV::Hole(_) => 1,
        ContractV::Pay { then, .. } => 1 + node_count(*then),
        ContractV::If { then, else_, .. } => 1 + node_count(*then) + node_count(*else_),
        ContractV::When { cases, timeout_continuation, .. } => 1 + case_node_count(cases, 0) + node_count(
            *timeout_continuation,
        ),
        ContractV::Let { then, .. } => 1 + node_count(*then),
        ContractV::Assert { then, .. } => 1 + node_count(*then),
    }
}

pub open spec fn case_node_count(cases: Seq<CaseV>, i: nat) -> nat
    decreases cases, cases.len() - i,
{
    if i >= cases.len() {
        0
    } else {
        (match cases[i as int] {
            CaseV::Case { then, .. } => node_count(*then),
            CaseV::Hole(_) => 0,
        }) + case_node_count(cases, i + 1)
    }
}

proof fn lemma_scan_complete(c: ContractV, path: Seq<char>, max: nat, s: ScanV)
    requires
        s.checked + node_count(c) <= max,
        !scan_stopped(s),
    ensures
        !scan_stopped(deadline_scan(c, path, max, s)) ==> deadline_scan(c, path, max, s).checked == s.checked + node_count(c),
        !closes_on_timeout(c) ==> scan_stopped(deadline_scan(c, path, max, s)),
    decreases c, 0nat,
{
    let s0 = ScanV { checked: s.checked + 1, ..s };
    match c {
        ContractV::Pay { then, .. } => lemma_scan_complete(*then, path + ".Pay.then"@, max, s0),
        ContractV::If { then, else_, .. } => {
            lemma_scan_complete(*then, path + ".If.then"@, max, s0);
            let r1 = deadline_scan(*then, path + ".If.then"@, max, s0);
            if !scan_stopped(r1) {
                lemma_scan_complete(*else_, path + ".If.else"@, max, r1);
            }
        },
        ContractV::When { cases, timeout, timeout_continuation } => {
            let wp = path + ".When"@;
            let s1 = when_timeout_check(s0, wp, timeout, *timeout_continuation is Close);
            if *timeout_continuation is Close {
                lemma_scan_cases_complete(cases, wp, 0, max, s1);
                let s2 = deadline_scan_cases(cases, wp, 0, max, s1);
                if !scan_stopped(s2) {
                    lemma_scan_complete(*timeout_continuation, wp + ".timeout_continuation"@, max, s2);
                }
            } else {
                assert(scan_stopped(s1));
                assert(deadline_scan_cases(cases, wp, 0, max, s1) == s1);
            }
        },
        ContractV::Let { then, .. } => lemma_scan_complete(*then, path + ".Let.then"@, max, s0),
        ContractV::Assert { then, .. } => lemma_scan_complete(*then, path + ".Assert.then"@, max, s0),
        _ => {},
    }
}

proof fn lemma_scan_cases_complete(cases: Seq<CaseV>, wp: Seq<char>, i: nat, max: nat, s: ScanV)
    requires
        s.checked + case_node_count(cases, i) <= max,
        !scan_stopped(s),
    ensures
        !scan_stopped(deadline_scan_cases(cases, wp, i, max, s)) ==> deadline_scan_cases(cases, wp, i, max, s).checked
            == s.checked + case_node_count(cases, i),
        !cases_close_on_timeout(cases, i) ==> scan_stopped(deadline_scan_cases(cases, wp, i, max, s)),
    decreases cases, cases.len() - i,
{
    if i < cases.len() {
        match cases[i as int] {
            CaseV::Case { then, .. } => {
                let p = case_path(wp, i) + ".Case.then"@;
                lemma_scan_complete(*then, p, max, s);
                let r1 = deadline_scan(*then, p, max, s);
                if scan_stopped(r1) {
                    assert(deadline_scan_cases(cases, wp, i + 1, max, r1) == r1);
                } else {
                    lemma_scan_cases_complete(cases, wp, i + 1, max, r1);
                }
            },
            CaseV::Hole(_) => lemma_scan_cases_complete(cases, wp, i + 1, max, s),
        }
    }
}

/// Within a budget that covers the contract, the deadline scan misses
/// nothing: when some `When` reachable through any branch, continuation or
/// case can time out into something other than `Close` (or a hole stands in
/// the way), the scan reports a candidate or an unsupported node and the
/// contract does not pass; otherwise it passes. With the converse of
/// `lemma_deadline_safe_passes`, passing is exactly closing on every timeout.
pub proof fn lemma_deadline_scan_complete(c: ContractV, max: nat)
    requires
        node_count(c) <= max,
    ensures
        !closes_on_timeout(c) ==> ({
            let sc = deadline_scan(c, "$"@, max, ScanV { checked: 0, candidate: None, unsupported: None });
            &&& sc.candidate is Some || sc.unsupported is Some
            &&& !(deadline_plan(sc) matches DeadlineStepV::Done(CounterexampleResultV::PassBounded { .. }))
        }),
{
    lemma_scan_complete(c, "$"@, max, ScanV { checked: 0, candidate: None, unsupported: None });
}

/// Every `Choice` action in `c` names a concrete choice other than `t`.
pub open spec fn choices_avoid(c: ContractV, t: Seq<char>) -> bool
    decreases c, 0nat,
{
    match c {
        ContractV::Close | ContractV::Hole(_) => true,
        ContractV::Pay { then, .. } => choices_avoid(*then, t),
        ContractV::If { then, else_, .. } => choices_avoid(*then, t) && choices_avoid(*else_, t),
        ContractV::When { cases, timeout_continuation, .. } => cases_avoid(cases, 0, t) && choices_avoid(
            *timeout_continuation,
            t,
        ),
        ContractV::Let { then, .. } => choices_avoid(*then, t),
        ContractV::Assert { then, .. } => choices_avoid(*then, t),
    }
}

pub open spec fn cases_avoid(cases: Seq<CaseV>, i: nat, t: Seq<char>) -> bool
    decreases cases, cases.len() - i,
{
    if i >= cases.len() {
        true
    } else {
        (match cases[i as int] {
            CaseV::Case { action, then } => (match action {
                ActionV::Choice { id, .. } => id matches ChoiceIdV::ChoiceId { name, .. } && name != t,
                _ => true,
            }) && choices_avoid(*then, t),
            CaseV::Hole(_) => true,
        }) && cases_avoid(cases, i + 1, t)
    }
}

/// The counterexample found so far, if any, reports the rule's target.
pub open spec fn reports_target(rule: AuthorizationRuleV, s: AuthScanV) -> bool {
    s.counterexample matches Some(cx) ==> cx.target == rule.target
}

proof fn lemma_auth_target(c: ContractV, path: Seq<char>, max: nat, rule: AuthorizationRuleV, s: AuthScanV)
    requires
        rule.action == AuthorizationAction::Choice,
        rule.target is Some,
        reports_target(rule, s),
    ensures
        reports_target(rule, authorization_scan(c, path, max, rule, s)),
        s.counterexample is None && choices_avoid(c, rule.target->0) ==> authorization_scan(c, path, max, rule, s).counterexample is None,
    decreases c, 0nat,
{
    if !auth_stopped(s) && s.checked < max {
        let s1 = AuthScanV { checked: s.checked + 1, ..s };
        match c {
            ContractV::Pay { then, .. } => lemma_auth_target(*then, path + ".Pay.then"@, max, rule, s1),
            ContractV::If { then, else_, .. } => {
                lemma_auth_target(*then, path + ".If.then"@, max, rule, s1);
                lemma_auth_target(*else_, path + ".If.else"@, max, rule, authorization_scan(*then, path + ".If.then"@, max, rule, s1));
            },
            ContractV::When { cases, timeout_continuation, .. } => {
                lemma_auth_cases_target(cases, path + ".When"@, 0, max, rule, s1);
                lemma_auth_target(
                    *timeout_continuation,
                    path + ".When"@ + ".timeout_continuation"@,
                    max,
                    rule,
                    authorization_scan_cases(cases, path + ".When"@, 0, max, rule, s1),
                );
            },
            ContractV::Let { then, .. } => lemma_auth_target(*then, path + ".Let.then"@, max, rule, s1),
            ContractV::Assert { then, .. } => lemma_auth_target(*then, path + ".Assert.then"@, max, rule, s1),
            _ => {},
        }
    }
}

proof fn lemma_auth_cases_target(
    cases: Seq<CaseV>,
    wp: Seq<char>,
    i: nat,
    max: nat,
    rule: AuthorizationRuleV,
    s: AuthScanV,
)
    requires
        rule.action == AuthorizationAction::Choice,
        rule.target is Some,
        reports_target(rule, s),
    ensures
        reports_target(rule, authorization_scan_cases(cases, wp, i, max, rule, s)),
        s.counterexample is None && cases_avoid(cases, i, rule.target->0) ==> authorization_scan_cases(
            cases,
            wp,
            i,
            max,
            rule,
            s,
        ).counterexample is None,
    decreases cases, cases.len() - i,
{
    if i < cases.len() && !auth_stopped(s) {
        match cases[i as int] {
            CaseV::Case { action, then } => {
                let p = case_path(wp, i) + ".Case.then"@;
                lemma_auth_target(*then, p, max, rule, s);
                lemma_auth_cases_target(cases, wp, i + 1, max, rule, authorization_scan(*then, p, max, rule, s));
            },
            CaseV::Hole(_) => lemma_auth_cases_target(cases, wp, i + 1, max, rule, s),
        }
    }
}

/// A rule for a named choice reports only that choice: any counterexample
/// it finds carries the rule's target, and a contract whose choices are all
/// concrete and all named otherwise passes (or is unsupported), whatever the
/// budget and the allowed parties.
pub proof fn lemma_authorization_target_only(c: ContractV, max: nat, rule: AuthorizationRuleV)
    requires
        rule.action == AuthorizationAction::Choice,
        rule.target is Some,
    ensures
        authorization_result(authorization_scan(c, "$"@, max, rule, AuthScanV { checked: 0, counterexample: None, unsupported: None }))
            matches CounterexampleResultV::CounterexampleFound { counterexample, .. } ==> counterexample.target == rule.target,
        choices_avoid(c, rule.target->0) ==> !(authorization_result(
            authorization_scan(c, "$"@, max, rule, AuthScanV { checked: 0, counterexample: None, unsupported: None }),
        ) is CounterexampleFound),
{
    lemma_auth_target(c, "$"@, max, rule, AuthScanV { checked: 0, counterexample: None, unsupported: None });
}

/// An action that the rule forbids: a deposit by a party outside the
/// allowed set, or (for a choice rule) a choice whose id is a hole, or whose
/// name is the target (any name when there is none) and whose party is
/// outside the allowed set.
pub open spec fn forbidden_action(a: ActionV, rule: AuthorizationRuleV) -> bool {
    match (rule.action, a) {
        (AuthorizationAction::Deposit, ActionV::Deposit { by, .. }) => !rule.allowed_parties.contains(by),
        (AuthorizationAction::Choice, ActionV::Choice { id: ChoiceIdV::Hole(_), .. }) => true,
        (AuthorizationAction::Choice, ActionV::Choice { id: ChoiceIdV::ChoiceId { name, party }, .. }) => (rule.target is None
            || rule.target == Some(name)) && !rule.allowed_parties.contains(party),
        _ => false,
    }
}

/// Some action reachable in `c`, through any branch, continuation or case,
/// is forbidden by the rule.
pub open spec fn forbidden_somewhere(c: ContractV, rule: AuthorizationRuleV) -> bool
    decreases c, 0nat,
{
    match c {
        ContractV::Close | ContractV::Hole(_) => false,
        ContractV::Pay { then, .. } => forbidden_somewhere(*then, rule),
        ContractV::If { then, else_, .. } => forbidden_somewhere(*then, rule) || forbidden_somewhere(*else_, rule),
        ContractV::When { cases, timeout_continuation, .. } => forbidden_in_cases(cases, 0, rule) || forbidden_somewhere(
            *timeout_continuation,
            rule,
        ),
        ContractV::Let { then, .. } => forbidden_somewhere(*then, rule),
        ContractV::Assert { then, .. } => forbidden_somewhere(*then, rule),
    }
}

pub open spec fn forbidden_in_cases(cases: Seq<CaseV>, i: nat, rule: AuthorizationRuleV) -> bool
    decreases cases, cases.len() - i,
{
    if i >= cases.len() {
        false
    } else {
        (match cases[i as int] {
            CaseV::Case { action, then } => forbidden_action(action, rule) || forbidden_somewhere(*then, rule),
            CaseV::Hole(_) => false,
        }) || forbidden_in_cases(cases, i + 1, rule)
    }
}

proof fn lemma_auth_complete(c: ContractV, path: Seq<char>, max: nat, rule: AuthorizationRuleV, s: AuthScanV)
    requires
        s.checked + node_count(c) <= max,
        !auth_stopped(s),
    ensures
        !auth_stopped(authorization_scan(c, path, max, rule, s)) ==> authorization_scan(c, path, max, rule, s).checked
            == s.checked + node_count(c),
        forbidden_somewhere(c, rule) ==> auth_stopped(authorization_scan(c, path, max, rule, s)),
    decreases c, 0nat,
{
    let s0 = AuthScanV { checked: s.checked + 1, ..s };
    match c {
        ContractV::Pay { then, .. } => lemma_auth_complete(*then, path + ".Pay.then"@, max, rule, s0),
        ContractV::If { then, else_, .. } => {
            lemma_auth_complete(*then, path + ".If.then"@, max, rule, s0);
            let r1 = authorization_scan(*then, path + ".If.then"@, max, rule, s0);
            if !auth_stopped(r1) {
                lemma_auth_complete(*else_, path + ".If.else"@, max, rule, r1);
            }
        },
        ContractV::When { cases, timeout_continuation, .. } => {
            let wp = path + ".When"@;
            lemma_auth_cases_complete(cases, wp, 0, max, rule, s0);
            let s1 = authorization_scan_cases(cases, wp, 0, max, rule, s0);
            if !auth_stopped(s1) {
                lemma_auth_complete(*timeout_continuation, wp + ".timeout_continuation"@, max, rule, s1);
            }
        },
        ContractV::Let { then, .. } => lemma_auth_complete(*then, path + ".Let.then"@, max, rule, s0),
        ContractV::Assert { then, .. } => lemma_auth_complete(*then, path + ".Assert.then"@, max, rule, s0),
        _ => {},
    }
}

proof fn lemma_auth_cases_complete(
    cases: Seq<CaseV>,
    wp: Seq<char>,
    i: nat,
    max: nat,
    rule: AuthorizationRuleV,
    s: AuthScanV,
)
    requires
        s.checked + case_node_count(cases, i) <= max,
        !auth_stopped(s),
    ensures
        !auth_stopped(authorization_scan_cases(cases, wp, i, max, rule, s)) ==> authorization_scan_cases(
            cases,
            wp,
            i,
            max,
            rule,
            s,
        ).checked == s.checked + case_node_count(cases, i),
        forbidden_in_cases(cases, i, rule) ==> auth_stopped(authorization_scan_cases(cases, wp, i, max, rule, s)),
    decreases cases, cases.len() - i,
{
    if i < cases.len() {
        match cases[i as int] {
            CaseV::Case { action, then } => {
                let ap = case_path(wp, i) + ".Case.action"@;
                let p = case_path(wp, i) + ".Case.then"@;
                if forbidden_action(action, rule) {
                    assert(authorization_violation(action, ap, rule) is Some);
                }
                if authorization_violation(action, ap, rule) is None {
                    lemma_auth_complete(*then, p, max, rule, s);
                    let r1 = authorization_scan(*then, p, max, rule, s);
                    if auth_stopped(r1) {
                        assert(authorization_scan_cases(cases, wp, i + 1, max, rule, r1) == r1);
                    } else {
                        lemma_auth_cases_complete(cases, wp, i + 1, max, rule, r1);
                    }
                }
            },
            CaseV::Hole(_) => lemma_auth_cases_complete(cases, wp, i + 1, max, rule, s),
        }
    }
}

/// Within a budget that covers the contract, the authorization scan misses
/// nothing: when an action that the rule forbids is reachable through any
/// branch, continuation or case, the scan reports a counterexample or an
/// unsupported node, so the contract does not pass.
pub proof fn lemma_authorization_scan_complete(c: ContractV, max: nat, rule: AuthorizationRuleV)
    requires
        node_count(c) <= max,
    ensures
        forbidden_somewhere(c, rule) ==> !(authorization_result(
            authorization_scan(c, "$"@, max, rule, AuthScanV { checked: 0, counterexample: None, unsupported: None }),
        ) is PassBounded),
{
    lemma_auth_complete(c, "$"@, max, rule, AuthScanV { checked: 0, counterexample: None, unsupported: None });
}

proof fn lemma_auth_sound(c: ContractV, path: Seq<char>, max: nat, rule: AuthorizationRuleV, s: AuthScanV)
    requires
        s.counterexample is None,
        !forbidden_somewhere(c, rule),
    ensures
        authorization_scan(c, path, max, rule, s).counterexample is None,
    decreases c, 0nat,
{
    if !auth_stopped(s) && s.checked < max {
        let s1 = AuthScanV { checked: s.checked + 1, ..s };
        match c {
            ContractV::Pay { then, .. } => lemma_auth_sound(*then, path + ".Pay.then"@, max, rule, s1),
            ContractV::If { then, else_, .. } => {
                lemma_auth_sound(*then, path + ".If.then"@, max, rule, s1);
                lemma_auth_sound(*else_, path + ".If.else"@, max, rule, authorization_scan(*then, path + ".If.then"@, max, rule, s1));
            },
            ContractV::When { cases, timeout_continuation, .. } => {
                lemma_auth_cases_sound(cases, path + ".When"@, 0, max, rule, s1);
                lemma_auth_sound(
                    *timeout_continuation,
                    path + ".When"@ + ".timeout_continuation"@,
                    max,
                    rule,
                    authorization_scan_cases(cases, path + ".When"@, 0, max, rule, s1),
                );
            },
            ContractV::Let { then, .. } => lemma_auth_sound(*then, path + ".Let.then"@, max, rule, s1),
            ContractV::Assert { then, .. } => lemma_auth_sound(*then, path + ".Assert.then"@, max, rule, s1),
            _ => {},
        }
    }
}

proof fn lemma_auth_cases_sound(cases: Seq<CaseV>, wp: Seq<char>, i: nat, max: nat, rule: AuthorizationRuleV, s: AuthScanV)
    requires
        s.counterexample is None,
        !forbidden_in_cases(cases, i, rule),
    ensures
        authorization_scan_cases(cases, wp, i, max, rule, s).counterexample is None,
    decreases cases, cases.len() - i,
{
    if i < cases.len() && !auth_stopped(s) {
        match cases[i as int] {
            CaseV::Case { action, then } => {
                let p = case_path(wp, i) + ".Case.then"@;
                assert(authorization_violation(action, case_path(wp, i) + ".Case.action"@, rule) is None);
                lemma_auth_sound(*then, p, max, rule, s);
                lemma_auth_cases_sound(cases, wp, i + 1, max, rule, authorization_scan(*then, p, max, rule, s));
            },
            CaseV::Hole(_) => lemma_auth_cases_sound(cases, wp, i + 1, max, rule, s),
        }
    }
}

/// The authorization scan reports a counterexample only when the rule
/// forbids some reachable action: a contract in which every deposit (for a
/// deposit rule) or every choice of the target (for a choice rule) belongs
/// to an allowed party is never reported, whatever the budget.
pub proof fn lemma_authorization_scan_sound(c: ContractV, max: nat, rule: AuthorizationRuleV)
    ensures
        !forbidden_somewhere(c, rule) ==> !(authorization_result(
            authorization_scan(c, "$"@, max, rule, AuthScanV { checked: 0, counterexample: None, unsupported: None }),
        ) is CounterexampleFound),
{
    if !forbidden_somewhere(c, rule) {
        lemma_auth_sound(c, "$"@, max, rule, AuthScanV { checked: 0, counterexample: None, unsupported: None });
    }
}

/// Somewhere in `c` (which sits at `path`) the `When` at `wp` has the POSIX
/// timeout `v` and a timeout continuation other than `Close`.
pub open spec fn open_when_at(c: ContractV, path: Seq<char>, wp: Seq<char>, v: int) -> bool
    decreases c, 0nat,
{
    match c {
        ContractV::Close | ContractV::Hole(_) => false,
        ContractV::Pay { then, .. } => open_when_at(*then, path + ".Pay.then"@, wp, v),
        ContractV::If { then, else_, .. } => open_when_at(*then, path + ".If.then"@, wp, v) || open_when_at(
            *else_,
            path + ".If.else"@,
            wp,
            v,
        ),
        ContractV::When { cases, timeout, timeout_continuation } => {
            ||| (path + ".When"@ == wp && timeout == TimeoutV::PosixTime(v) && !(*timeout_continuation is Close))
            ||| open_when_in_cases(cases, path + ".When"@, 0, wp, v)
            ||| open_when_at(*timeout_continuation, path + ".When"@ + ".timeout_continuation"@, wp, v)
        },
        ContractV::Let { then, .. } => open_when_at(*then, path + ".Let.then"@, wp, v),
        ContractV::Assert { then, .. } => open_when_at(*then, path + ".Assert.then"@, wp, v),
    }
}

pub open spec fn open_when_in_cases(cases: Seq<CaseV>, when_path: Seq<char>, i: nat, wp: Seq<char>, v: int) -> bool
    decreases cases, cases.len() - i,
{
    if i >= cases.len() {
        false
    } else {
        (match cases[i as int] {
            CaseV::Case { then, .. } => open_when_at(*then, case_path(when_path, i) + ".Case.then"@, wp, v),
            CaseV::Hole(_) => false,
        }) || open_when_in_cases(cases, when_path, i + 1, wp, v)
    }
}

proof fn lemma_candidate_real(c: ContractV, path: Seq<char>, max: nat, s: ScanV)
    requires
        s.candidate is None,
    ensures
        deadline_scan(c, path, max, s).candidate matches Some((wp, v)) ==> open_when_at(c, path, wp, v),
    decreases c, 0nat,
{
    if !(scan_stopped(s) || s.checked >= max) {
        let s0 = ScanV { checked: s.checked + 1, ..s };
        match c {
            ContractV::Pay { then, .. } => lemma_candidate_real(*then, path + ".Pay.then"@, max, s0),
            ContractV::If { then, else_, .. } => {
                lemma_candidate_real(*then, path + ".If.then"@, max, s0);
                let s1 = deadline_scan(*then, path + ".If.then"@, max, s0);
                if s1.candidate is None {
                    lemma_candidate_real(*else_, path + ".If.else"@, max, s1);
                }
            },
            ContractV::When { cases, timeout, timeout_continuation } => {
                let wp = path + ".When"@;
                let s1 = when_timeout_check(s0, wp, timeout, *timeout_continuation is Close);
                if s1.candidate is None {
                    lemma_candidate_real_cases(cases, wp, 0, max, s1);
                    let s2 = deadline_scan_cases(cases, wp, 0, max, s1);
                    if s2.candidate is None && !scan_stopped(s2) {
                        lemma_candidate_real(*timeout_continuation, wp + ".timeout_continuation"@, max, s2);
                    }
                } else {
                    assert(deadline_scan_cases(cases, wp, 0, max, s1) == s1);
                }
            },
            ContractV::Let { then, .. } => lemma_candidate_real(*then, path + ".Let.then"@, max, s0),
            ContractV::Assert { then, .. } => lemma_candidate_real(*then, path + ".Assert.then"@, max, s0),
            _ => {},
        }
    }
}

proof fn lemma_candidate_real_cases(cases: Seq<CaseV>, when_path: Seq<char>, i: nat, max: nat, s: ScanV)
    requires
        s.candidate is None,
    ensures
        deadline_scan_cases(cases, when_path, i, max, s).candidate matches Some((wp, v)) ==> open_when_in_cases(
            cases,
            when_path,
            i,
            wp,
            v,
        ),
    decreases cases, cases.len() - i,
{
    if i < cases.len() && !scan_stopped(s) {
        let s1 = match cases[i as int] {
            CaseV::Case { then, .. } => deadline_scan(*then, case_path(when_path, i) + ".Case.then"@, max, s),
            CaseV::Hole(_) => s,
        };
        if let CaseV::Case { then, .. } = cases[i as int] {
            lemma_candidate_real(*then, case_path(when_path, i) + ".Case.then"@, max, s);
        }
        if s1.candidate is None {
            lemma_candidate_real_cases(cases, when_path, i + 1, max, s1);
        } else {
            assert(deadline_scan_cases(cases, when_path, i + 1, max, s1) == s1);
        }
    }
}

/// A deadline candidate is real: the `When` it names has the POSIX timeout
/// it reports and a timeout continuation other than `Close`; the question
/// put to the solver is about that `When` and that timeout.
pub proof fn lemma_deadline_candidate_real(c: ContractV, max: nat)
    ensures
        deadline_scan(c, "$"@, max, ScanV { checked: 0, candidate: None, unsupported: None }).candidate matches Some((wp, v))
            ==> open_when_at(c, "$"@, wp, v),
        deadline_plan(deadline_scan(c, "$"@, max, ScanV { checked: 0, candidate: None, unsupported: None }))
            matches DeadlineStepV::Solve(w) ==> open_when_at(c, "$"@, w.path, w.timeout),
{
    lemma_candidate_real(c, "$"@, max, ScanV { checked: 0, candidate: None, unsupported: None });
}

} // verus!
