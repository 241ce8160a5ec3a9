//! What the repair that a counterexample proposes does to the contract: it
//! applies, and it changes the one place that the counterexample names,
//! leaving the rest as it was. A deadline repair sets that `When`'s timeout
//! continuation to `Close`; an authorization repair replaces that action's
//! authorizing party.
use crate::analyze::{
    case_path, deadline_counterexample, deadline_outcome, deadline_plan, deadline_scan, deadline_scan_cases, patch_action,
    patch_cases, patch_contract, patch_continuation, repaired, scan_stopped, trim_end, trim_start, when_timeout_check,
    authorization_result, authorization_scan, authorization_scan_cases, authorization_violation, auth_stopped, AuthScanV,
    AuthorizationRuleV, AutoRepairPatchV, CounterexampleResultV, DeadlineStepV, ScanV,
};
use crate::ast::{ActionV, CaseV, ChoiceIdV, ContractV, PartyV};
use crate::integer::nat_decimal;
use vstd::prelude::*;

verus! {

/// `c` with the timeout continuation of the `When` whose continuation sits
/// at `target` set to `Close`; `path` is where `c` sits.
pub open spec fn close_at(c: ContractV, path: Seq<char>, target: Seq<char>) -> ContractV
    decreases c, 0nat,
{
    match c {
        ContractV::Close | ContractV::Hole(_) => c,
        ContractV::Pay { from, to, token, amount, then } => ContractV::Pay {
            from,
            to,
            token,
            amount,
            then: Box::new(close_at(*then, path + ".Pay.then"@, target)),
        },
        ContractV::If { cond, then, else_ } => ContractV::If {
            cond,
            then: Box::new(close_at(*then, path + ".If.then"@, target)),
            else_: Box::new(close_at(*else_, path + ".If.else"@, target)),
        },
        ContractV::When { cases, timeout, timeout_continuation } => {
            let wp = path + ".When"@;
            let tcp = wp + ".timeout_continuation"@;
            ContractV::When {
                cases: close_at_cases(cases, wp, 0, target),
                timeout,
                timeout_continuation: Box::new(
                    if tcp == target {
                        ContractV::Close
                    } else {
                        close_at(*timeout_continuation, tcp, target)
                    },
                ),
            }
        },
        ContractV::Let { name, value, then } => ContractV::Let {
            name,
            value,
            then: Box::new(close_at(*then, path + ".Let.then"@, target)),
        },
        ContractV::Assert { cond, then } => ContractV::Assert {
            cond,
            then: Box::new(close_at(*then, path + ".Assert.then"@, target)),
        },
    }
}

/// The cases from position `i` on, each continuation with `close_at`.
pub open spec fn close_at_cases(cases: Seq<CaseV>, wp: Seq<char>, i: nat, target: Seq<char>) -> Seq<CaseV>
    decreases cases, cases.len() - i,
{
    if i >= cases.len() {
        Seq::empty()
    } else {
        seq![
            match cases[i as int] {
                CaseV::Hole(_) => cases[i as int],
                CaseV::Case { action, then } => CaseV::Case {
                    action,
                    then: Box::new(close_at(*then, case_path(wp, i) + ".Case.then"@, target)),
                },
            },
        ] + close_at_cases(cases, wp, i + 1, target)
    }
}

/// How many `When`s in `c` have their timeout continuation at `target`.
pub open spec fn sites(c: ContractV, path: Seq<char>, target: Seq<char>) -> nat
    decreases c, 0nat,
{
    match c {
        ContractV::Close | ContractV::Hole(_) => 0,
        ContractV::Pay { then, .. } => sites(*then, path + ".Pay.then"@, target),
        ContractV::If { then, else_, .. } => sites(*then, path + ".If.then"@, target) + sites(
            *else_,
            path + ".If.else"@,
            target,
        ),
        ContractV::When { cases, timeout_continuation, .. } => {
            let wp = path + ".When"@;
            let tcp = wp + ".timeout_continuation"@;
            (if tcp == target {
                1nat
            } else {
                sites(*timeout_continuation, tcp, target)
            }) + sites_cases(cases, wp, 0, target)
        },
        ContractV::Let { then, .. } => sites(*then, path + ".Let.then"@, target),
        ContractV::Assert { then, .. } => sites(*then, path + ".Assert.then"@, target),
    }
}

pub open spec fn sites_cases(cases: Seq<CaseV>, wp: Seq<char>, i: nat, target: Seq<char>) -> nat
    decreases cases, cases.len() - i,
{
    if i >= cases.len() {
        0
    } else {
        (match cases[i as int] {
            CaseV::Hole(_) => 0nat,
            CaseV::Case { then, .. } => sites(*then, case_path(wp, i) + ".Case.then"@, target),
        }) + sites_cases(cases, wp, i + 1, target)
    }
}

/// A patch that sets a timeout continuation to `Close`.
pub open spec fn closing_patch(p: AutoRepairPatchV) -> bool {
    p.kind == "set_contract"@ && trim_end(trim_start(p.value)) == "{ Close: {} }"@
}

proof fn lemma_patch_exact(c: ContractV, path: Seq<char>, p: AutoRepairPatchV, r: Result<PartyV, Seq<char>>)
    requires
        closing_patch(p),
    ensures
        patch_contract(c, path, p, r) == Ok::<(ContractV, nat), Seq<char>>((close_at(c, path, p.path), sites(c, path, p.path))),
    decreases c, 0nat,
{
    match c {
        ContractV::Pay { then, .. } => lemma_patch_exact(*then, path + ".Pay.then"@, p, r),
        ContractV::If { then, else_, .. } => {
            lemma_patch_exact(*then, path + ".If.then"@, p, r);
            lemma_patch_exact(*else_, path + ".If.else"@, p, r);
        },
        ContractV::When { cases, timeout_continuation, .. } => {
            let wp = path + ".When"@;
            let tcp = wp + ".timeout_continuation"@;
            if tcp != p.path {
                lemma_patch_exact(*timeout_continuation, tcp, p, r);
            }
            assert(patch_continuation(*timeout_continuation, tcp, p, r) == Ok::<(ContractV, nat), Seq<char>>(
                (
                    if tcp == p.path {
                        ContractV::Close
                    } else {
                        close_at(*timeout_continuation, tcp, p.path)
                    },
                    if tcp == p.path {
                        1nat
                    } else {
                        sites(*timeout_continuation, tcp, p.path)
                    },
                ),
            ));
            lemma_patch_cases_exact(cases, wp, 0, p, r);
        },
        ContractV::Let { then, .. } => lemma_patch_exact(*then, path + ".Let.then"@, p, r),
        ContractV::Assert { then, .. } => lemma_patch_exact(*then, path + ".Assert.then"@, p, r),
        _ => {},
    }
}

proof fn lemma_patch_cases_exact(
    cases: Seq<CaseV>,
    wp: Seq<char>,
    i: nat,
    p: AutoRepairPatchV,
    r: Result<PartyV, Seq<char>>,
)
    requires
        closing_patch(p),
    ensures
        patch_cases(cases, wp, i, p, r) == Ok::<(Seq<CaseV>, nat), Seq<char>>(
            (close_at_cases(cases, wp, i, p.path), sites_cases(cases, wp, i, p.path)),
        ),
    decreases cases, cases.len() - i,
{
    reveal_strlit("set_contract");
    reveal_strlit("replace_party");
    if i < cases.len() {
        if let CaseV::Case { action, then } = cases[i as int] {
            lemma_patch_exact(*then, case_path(wp, i) + ".Case.then"@, p, r);
            assert(p.kind != "replace_party"@) by {
                assert(p.kind.len() != "replace_party"@.len());
            }
            assert(patch_action(action, case_path(wp, i) + ".Case.action"@, p, r) == Ok::<(crate::ast::ActionV, nat), Seq<char>>((action, 0nat)));
        }
        lemma_patch_cases_exact(cases, wp, i + 1, p, r);
    }
}

/// `t` begins with `a`.
pub open spec fn begins(t: Seq<char>, a: Seq<char>) -> bool {
    a.len() <= t.len() && t.subrange(0, a.len() as int) == a
}

proof fn lemma_char_at(t: Seq<char>, a: Seq<char>, k: int)
    requires
        begins(t, a),
        0 <= k < a.len(),
    ensures
        t[k] == a[k],
{
    assert(t.subrange(0, a.len() as int)[k] == t[k]);
}

proof fn lemma_begins_shorter(t: Seq<char>, a: Seq<char>, b: Seq<char>)
    requires
        begins(t, a + b),
    ensures
        begins(t, a),
{
    assert forall|k: int| 0 <= k < a.len() implies t.subrange(0, a.len() as int)[k] == a[k] by {
        lemma_char_at(t, a + b, k);
    }
    assert(t.subrange(0, a.len() as int) =~= a);
}

/// Two paths that both begin `t` agree where both are defined.
proof fn lemma_part(t: Seq<char>, a: Seq<char>, b: Seq<char>, k: int)
    requires
        begins(t, a),
        begins(t, b),
        0 <= k < a.len(),
        k < b.len(),
    ensures
        a[k] == b[k],
{
    lemma_char_at(t, a, k);
    lemma_char_at(t, b, k);
}

proof fn lemma_decimal_injective(i: nat, j: nat)
    requires
        nat_decimal(i) == nat_decimal(j),
    ensures
        i == j,
{
    crate::roundtrip::lemma_nat_decimal(i);
    crate::roundtrip::lemma_nat_decimal(j);
}

/// Paths within two cases of one `When` that both begin `t` are within the
/// same case.
proof fn lemma_cases_part(t: Seq<char>, wp: Seq<char>, i: nat, j: nat, x: Seq<char>, y: Seq<char>)
    requires
        begins(t, case_path(wp, i) + x),
        begins(t, case_path(wp, j) + y),
    ensures
        i == j,
{
    reveal_strlit(".cases[");
    reveal_strlit("]");
    let q = wp + ".cases["@;
    let di = nat_decimal(i);
    let dj = nat_decimal(j);
    crate::roundtrip::lemma_nat_decimal(i);
    crate::roundtrip::lemma_nat_decimal(j);
    let a = case_path(wp, i) + x;
    let b = case_path(wp, j) + y;
    assert(a =~= q + di + "]"@ + x);
    assert(b =~= q + dj + "]"@ + y);
    let l = q.len() as int;
    if di.len() < dj.len() {
        assert(a[l + di.len()] == ']');
        assert(b[l + di.len()] == dj[di.len() as int]);
        lemma_part(t, a, b, l + di.len());
    } else if dj.len() < di.len() {
        assert(b[l + dj.len()] == ']');
        assert(a[l + dj.len()] == di[dj.len() as int]);
        lemma_part(t, a, b, l + dj.len());
    } else {
        assert forall|k: int| 0 <= k < di.len() implies di[k] == dj[k] by {
            assert(a[l + k] == di[k]);
            assert(b[l + k] == dj[k]);
            lemma_part(t, a, b, l + k);
        }
        assert(di =~= dj);
        lemma_decimal_injective(i, j);
    }
}

proof fn lemma_sites_once(c: ContractV, path: Seq<char>, target: Seq<char>)
    ensures
        sites(c, path, target) <= 1,
        sites(c, path, target) > 0 ==> begins(target, path),
    decreases c, 0nat,
{
    reveal_strlit(".If.then");
    reveal_strlit(".If.else");
    reveal_strlit(".When");
    reveal_strlit(".timeout_continuation");
    reveal_strlit(".cases[");
    match c {
        ContractV::Pay { then, .. } => {
            lemma_sites_once(*then, path + ".Pay.then"@, target);
            if sites(c, path, target) > 0 {
                lemma_begins_shorter(target, path, ".Pay.then"@);
            }
        },
        ContractV::If { then, else_, .. } => {
            let a = path + ".If.then"@;
            let b = path + ".If.else"@;
            lemma_sites_once(*then, a, target);
            lemma_sites_once(*else_, b, target);
            if sites(*then, a, target) > 0 {
                lemma_begins_shorter(target, path, ".If.then"@);
                if sites(*else_, b, target) > 0 {
                    let k: int = path.len() as int + 4;
                    assert(a[k] != b[k]);
                    lemma_part(target, a, b, k);
                }
            } else if sites(*else_, b, target) > 0 {
                lemma_begins_shorter(target, path, ".If.else"@);
            }
        },
        ContractV::When { cases, timeout_continuation, .. } => {
            let wp = path + ".When"@;
            let tcp = wp + ".timeout_continuation"@;
            lemma_sites_cases_once(cases, wp, 0, target);
            if tcp != target {
                lemma_sites_once(*timeout_continuation, tcp, target);
            }
            let n1 = if tcp == target {
                1nat
            } else {
                sites(*timeout_continuation, tcp, target)
            };
            let n2 = sites_cases(cases, wp, 0, target);
            if n1 > 0 {
                assert(target.subrange(0, target.len() as int) =~= target);
                assert(begins(target, tcp));
                lemma_begins_shorter(target, wp, ".timeout_continuation"@);
                lemma_begins_shorter(target, path, ".When"@);
                if n2 > 0 {
                    let cw = wp + ".cases["@;
                    let k: int = wp.len() as int + 1;
                    assert(tcp[k] != cw[k]);
                    lemma_part(target, tcp, cw, k);
                }
            } else if n2 > 0 {
                lemma_begins_shorter(target, wp, ".cases["@);
                lemma_begins_shorter(target, path, ".When"@);
            }
        },
        ContractV::Let { then, .. } => {
            lemma_sites_once(*then, path + ".Let.then"@, target);
            if sites(c, path, target) > 0 {
                lemma_begins_shorter(target, path, ".Let.then"@);
            }
        },
        ContractV::Assert { then, .. } => {
            lemma_sites_once(*then, path + ".Assert.then"@, target);
            if sites(c, path, target) > 0 {
                lemma_begins_shorter(target, path, ".Assert.then"@);
            }
        },
        _ => {},
    }
}

proof fn lemma_sites_cases_once(cases: Seq<CaseV>, wp: Seq<char>, i: nat, target: Seq<char>)
    ensures
        sites_cases(cases, wp, i, target) <= 1,
        sites_cases(cases, wp, i, target) > 0 ==> begins(target, wp + ".cases["@),
        sites_cases(cases, wp, i, target) > 0 ==> exists|j: nat|
            i <= j < cases.len() && #[trigger] begins(target, case_path(wp, j) + ".Case.then"@),
    decreases cases, cases.len() - i,
{
    if i < cases.len() {
        lemma_sites_cases_once(cases, wp, i + 1, target);
        let n1 = match cases[i as int] {
            CaseV::Hole(_) => 0nat,
            CaseV::Case { then, .. } => sites(*then, case_path(wp, i) + ".Case.then"@, target),
        };
        if let CaseV::Case { then, .. } = cases[i as int] {
            lemma_sites_once(*then, case_path(wp, i) + ".Case.then"@, target);
        }
        let n2 = sites_cases(cases, wp, i + 1, target);
        if n1 > 0 {
            let a = case_path(wp, i) + ".Case.then"@;
            assert(a =~= (wp + ".cases["@) + (nat_decimal(i) + "]"@ + ".Case.then"@));
            lemma_begins_shorter(target, wp + ".cases["@, nat_decimal(i) + "]"@ + ".Case.then"@);
            if n2 > 0 {
                let j = choose|j: nat| i + 1 <= j < cases.len() && #[trigger] begins(target, case_path(wp, j) + ".Case.then"@);
                lemma_cases_part(target, wp, i, j, ".Case.then"@, ".Case.then"@);
            }
        }
    }
}

proof fn lemma_scan_site(c: ContractV, path: Seq<char>, max: nat, s: ScanV)
    requires
        s.candidate is None,
    ensures
        deadline_scan(c, path, max, s).candidate matches Some((wp, v)) ==> sites(c, path, wp + ".timeout_continuation"@) >= 1,
    decreases c, 0nat,
{
    if !(scan_stopped(s) || s.checked >= max) {
        let s0 = ScanV { checked: s.checked + 1, ..s };
        match c {
            ContractV::Pay { then, .. } => lemma_scan_site(*then, path + ".Pay.then"@, max, s0),
            ContractV::If { then, else_, .. } => {
                lemma_scan_site(*then, path + ".If.then"@, max, s0);
                let s1 = deadline_scan(*then, path + ".If.then"@, max, s0);
                if s1.candidate is None {
                    lemma_scan_site(*else_, path + ".If.else"@, max, s1);
                }
            },
            ContractV::When { cases, timeout, timeout_continuation } => {
                let wp = path + ".When"@;
                let tcp = wp + ".timeout_continuation"@;
                let s1 = when_timeout_check(s0, wp, timeout, *timeout_continuation is Close);
                if s1.candidate is None {
                    lemma_scan_cases_site(cases, wp, 0, max, s1);
                    let s2 = deadline_scan_cases(cases, wp, 0, max, s1);
                    if s2.candidate is None && !scan_stopped(s2) {
                        lemma_scan_site(*timeout_continuation, tcp, max, s2);
                    }
                }
            },
            ContractV::Let { then, .. } => lemma_scan_site(*then, path + ".Let.then"@, max, s0),
            ContractV::Assert { then, .. } => lemma_scan_site(*then, path + ".Assert.then"@, max, s0),
            _ => {},
        }
    }
}

proof fn lemma_scan_cases_site(cases: Seq<CaseV>, wp: Seq<char>, i: nat, max: nat, s: ScanV)
    requires
        s.candidate is None,
    ensures
        deadline_scan_cases(cases, wp, i, max, s).candidate matches Some((w, v)) ==> sites_cases(
            cases,
            wp,
            i,
            w + ".timeout_continuation"@,
        ) >= 1,
    decreases cases, cases.len() - i,
{
    if i < cases.len() && !scan_stopped(s) {
        let s1 = match cases[i as int] {
            CaseV::Case { then, .. } => deadline_scan(*then, case_path(wp, i) + ".Case.then"@, max, s),
            CaseV::Hole(_) => s,
        };
        if let CaseV::Case { then, .. } = cases[i as int] {
            lemma_scan_site(*then, case_path(wp, i) + ".Case.then"@, max, s);
        }
        if s1.candidate is None {
            lemma_scan_cases_site(cases, wp, i + 1, max, s1);
        } else {
            assert(scan_stopped(s1));
            assert(deadline_scan_cases(cases, wp, i + 1, max, s1) == s1);
        }
    }
}

/// The repair that a deadline counterexample proposes always applies: when
/// the scan of `c` from the root finds a `When` to solve for, the
/// counterexample built from any witness carries a patch, and applying it
/// (whatever replacement party is at hand) gives `c` with exactly that
/// `When`'s timeout continuation set to `Close`, everything else as it was.
pub proof fn lemma_deadline_repair_applies(c: ContractV, max: nat, witness: int, replacement: Result<PartyV, Seq<char>>)
    ensures
        deadline_plan(deadline_scan(c, "$"@, max, ScanV { checked: 0, candidate: None, unsupported: None }))
            matches DeadlineStepV::Solve(w) ==> {
            &&& deadline_outcome(w, Ok(witness)) == CounterexampleResultV::CounterexampleFound {
                checked_nodes: w.checked_nodes,
                counterexample: deadline_counterexample(w.path, w.timeout, witness),
            }
            &&& deadline_counterexample(w.path, w.timeout, witness).violating_path == w.path
            &&& deadline_counterexample(w.path, w.timeout, witness).auto_repair_patch matches Some(p) && repaired(
                c,
                p,
                replacement,
            ) == Ok::<ContractV, Seq<char>>(close_at(c, "$"@, w.path + ".timeout_continuation"@))
        },
{
    let s0 = ScanV { checked: 0, candidate: None, unsupported: None };
    let sc = deadline_scan(c, "$"@, max, s0);
    if let DeadlineStepV::Solve(w) = deadline_plan(sc) {
        lemma_scan_site(c, "$"@, max, s0);
        let target = w.path + ".timeout_continuation"@;
        let p = deadline_counterexample(w.path, w.timeout, witness).auto_repair_patch.unwrap();
        reveal_strlit("{ Close: {} }");
        assert(trim_start(p.value) == p.value);
        assert(trim_end(p.value) == p.value);
        lemma_patch_exact(c, "$"@, p, replacement);
        lemma_sites_once(c, "$"@, target);
    }
}

/// `a`, sitting at `ap`, with its authorizing party put in `party` when
/// that party sits at `target`.
pub open spec fn replace_in_action(a: ActionV, ap: Seq<char>, target: Seq<char>, party: PartyV) -> ActionV {
    match a {
        ActionV::Deposit { into, by, token, amount } => if ap + ".Deposit.by"@ == target {
            ActionV::Deposit { into, by: party, token, amount }
        } else {
            a
        },
        ActionV::Choice { id: ChoiceIdV::ChoiceId { name, party: q }, bounds } => if ap + ".Choice.id.party"@ == target {
            ActionV::Choice { id: ChoiceIdV::ChoiceId { name, party }, bounds }
        } else {
            a
        },
        _ => a,
    }
}

/// Whether the authorizing party of `a`, sitting at `ap`, sits at `target`.
pub open spec fn action_sites(a: ActionV, ap: Seq<char>, target: Seq<char>) -> nat {
    match a {
        ActionV::Deposit { .. } => if ap + ".Deposit.by"@ == target {
            1
        } else {
            0
        },
        ActionV::Choice { id: ChoiceIdV::ChoiceId { .. }, .. } => if ap + ".Choice.id.party"@ == target {
            1
        } else {
            0
        },
        _ => 0,
    }
}

/// `c` with the authorizing party at `target` put in `party`; `path` is
/// where `c` sits.
pub open spec fn replace_at(c: ContractV, path: Seq<char>, target: Seq<char>, party: PartyV) -> ContractV
    decreases c, 0nat,
{
    match c {
        ContractV::Close | ContractV::Hole(_) => c,
        ContractV::Pay { from, to, token, amount, then } => ContractV::Pay {
            from,
            to,
            token,
            amount,
            then: Box::new(replace_at(*then, path + ".Pay.then"@, target, party)),
        },
        ContractV::If { cond, then, else_ } => ContractV::If {
            cond,
            then: Box::new(replace_at(*then, path + ".If.then"@, target, party)),
            else_: Box::new(replace_at(*else_, path + ".If.else"@, target, party)),
        },
        ContractV::When { cases, timeout, timeout_continuation } => {
            let wp = path + ".When"@;
            ContractV::When {
                cases: replace_at_cases(cases, wp, 0, target, party),
                timeout,
                timeout_continuation: Box::new(
                    replace_at(*timeout_continuation, wp + ".timeout_continuation"@, target, party),
                ),
            }
        },
        ContractV::Let { name, value, then } => ContractV::Let {
            name,
            value,
            then: Box::new(replace_at(*then, path + ".Let.then"@, target, party)),
        },
        ContractV::Assert { cond, then } => ContractV::Assert {
            cond,
            then: Box::new(replace_at(*then, path + ".Assert.then"@, target, party)),
        },
    }
}

pub open spec fn replace_at_cases(cases: Seq<CaseV>, wp: Seq<char>, i: nat, target: Seq<char>, party: PartyV) -> Seq<CaseV>
    decreases cases, cases.len() - i,
{
    if i >= cases.len() {
        Seq::empty()
    } else {
        seq![
            match cases[i as int] {
                CaseV::Hole(_) => cases[i as int],
                CaseV::Case { action, then } => CaseV::Case {
                    action: replace_in_action(action, case_path(wp, i) + ".Case.action"@, target, party),
                    then: Box::new(replace_at(*then, case_path(wp, i) + ".Case.then"@, target, party)),
                },
            },
        ] + replace_at_cases(cases, wp, i + 1, target, party)
    }
}

/// How many authorizing parties in `c` sit at `target`.
pub open spec fn party_sites(c: ContractV, path: Seq<char>, target: Seq<char>) -> nat
    decreases c, 0nat,
{
    match c {
        ContractV::Close | ContractV::Hole(_) => 0,
        ContractV::Pay { then, .. } => party_sites(*then, path + ".Pay.then"@, target),
        ContractV::If { then, else_, .. } => party_sites(*then, path + ".If.then"@, target) + party_sites(
            *else_,
            path + ".If.else"@,
            target,
        ),
        ContractV::When { cases, timeout_continuation, .. } => {
            let wp = path + ".When"@;
            party_sites(*timeout_continuation, wp + ".timeout_continuation"@, target) + party_sites_cases(cases, wp, 0, target)
        },
        ContractV::Let { then, .. } => party_sites(*then, path + ".Let.then"@, target),
        ContractV::Assert { then, .. } => party_sites(*then, path + ".Assert.then"@, target),
    }
}

pub open spec fn party_sites_cases(cases: Seq<CaseV>, wp: Seq<char>, i: nat, target: Seq<char>) -> nat
    decreases cases, cases.len() - i,
{
    if i >= cases.len() {
        0
    } else {
        (match cases[i as int] {
            CaseV::Hole(_) => 0nat,
            CaseV::Case { action, then } => action_sites(action, case_path(wp, i) + ".Case.action"@, target) + party_sites(
                *then,
                case_path(wp, i) + ".Case.then"@,
                target,
            ),
        }) + party_sites_cases(cases, wp, i + 1, target)
    }
}

proof fn lemma_replace_exact(c: ContractV, path: Seq<char>, p: AutoRepairPatchV, party: PartyV)
    requires
        p.kind == "replace_party"@,
    ensures
        patch_contract(c, path, p, Ok(party)) == Ok::<(ContractV, nat), Seq<char>>(
            (replace_at(c, path, p.path, party), party_sites(c, path, p.path)),
        ),
    decreases c, 0nat,
{
    reveal_strlit("set_contract");
    reveal_strlit("replace_party");
    assert(p.kind != "set_contract"@) by {
        assert(p.kind.len() != "set_contract"@.len());
    }
    match c {
        ContractV::Pay { then, .. } => lemma_replace_exact(*then, path + ".Pay.then"@, p, party),
        ContractV::If { then, else_, .. } => {
            lemma_replace_exact(*then, path + ".If.then"@, p, party);
            lemma_replace_exact(*else_, path + ".If.else"@, p, party);
        },
        ContractV::When { cases, timeout_continuation, .. } => {
            let wp = path + ".When"@;
            let tcp = wp + ".timeout_continuation"@;
            lemma_replace_exact(*timeout_continuation, tcp, p, party);
            assert(patch_continuation(*timeout_continuation, tcp, p, Ok(party)) == patch_contract(
                *timeout_continuation,
                tcp,
                p,
                Ok(party),
            ));
            lemma_replace_cases_exact(cases, wp, 0, p, party);
        },
        ContractV::Let { then, .. } => lemma_replace_exact(*then, path + ".Let.then"@, p, party),
        ContractV::Assert { then, .. } => lemma_replace_exact(*then, path + ".Assert.then"@, p, party),
        _ => {},
    }
}

proof fn lemma_replace_cases_exact(cases: Seq<CaseV>, wp: Seq<char>, i: nat, p: AutoRepairPatchV, party: PartyV)
    requires
        p.kind == "replace_party"@,
    ensures
        patch_cases(cases, wp, i, p, Ok(party)) == Ok::<(Seq<CaseV>, nat), Seq<char>>(
            (replace_at_cases(cases, wp, i, p.path, party), party_sites_cases(cases, wp, i, p.path)),
        ),
    decreases cases, cases.len() - i,
{
    if i < cases.len() {
        if let CaseV::Case { action, then } = cases[i as int] {
            lemma_replace_exact(*then, case_path(wp, i) + ".Case.then"@, p, party);
            let ap = case_path(wp, i) + ".Case.action"@;
            assert(patch_action(action, ap, p, Ok(party)) == Ok::<(ActionV, nat), Seq<char>>(
                (replace_in_action(action, ap, p.path, party), action_sites(action, ap, p.path)),
            ));
        }
        lemma_replace_cases_exact(cases, wp, i + 1, p, party);
    }
}

proof fn lemma_party_sites_once(c: ContractV, path: Seq<char>, target: Seq<char>)
    ensures
        party_sites(c, path, target) <= 1,
        party_sites(c, path, target) > 0 ==> begins(target, path),
    decreases c, 0nat,
{
    reveal_strlit(".If.then");
    reveal_strlit(".If.else");
    reveal_strlit(".When");
    reveal_strlit(".timeout_continuation");
    reveal_strlit(".cases[");
    match c {
        ContractV::Pay { then, .. } => {
            lemma_party_sites_once(*then, path + ".Pay.then"@, target);
            if party_sites(c, path, target) > 0 {
                lemma_begins_shorter(target, path, ".Pay.then"@);
            }
        },
        ContractV::If { then, else_, .. } => {
            let a = path + ".If.then"@;
            let b = path + ".If.else"@;
            lemma_party_sites_once(*then, a, target);
            lemma_party_sites_once(*else_, b, target);
            if party_sites(*then, a, target) > 0 {
                lemma_begins_shorter(target, path, ".If.then"@);
                if party_sites(*else_, b, target) > 0 {
                    let k: int = path.len() as int + 4;
                    assert(a[k] != b[k]);
                    lemma_part(target, a, b, k);
                }
            } else if party_sites(*else_, b, target) > 0 {
                lemma_begins_shorter(target, path, ".If.else"@);
            }
        },
        ContractV::When { cases, timeout_continuation, .. } => {
            let wp = path + ".When"@;
            let tcp = wp + ".timeout_continuation"@;
            lemma_party_sites_cases_once(cases, wp, 0, target);
            lemma_party_sites_once(*timeout_continuation, tcp, target);
            let n1 = party_sites(*timeout_continuation, tcp, target);
            let n2 = party_sites_cases(cases, wp, 0, target);
            if n1 > 0 {
                lemma_begins_shorter(target, wp, ".timeout_continuation"@);
                lemma_begins_shorter(target, path, ".When"@);
                if n2 > 0 {
                    let cw = wp + ".cases["@;
                    let k: int = wp.len() as int + 1;
                    assert(tcp[k] != cw[k]);
                    lemma_part(target, tcp, cw, k);
                }
            } else if n2 > 0 {
                lemma_begins_shorter(target, wp, ".cases["@);
                lemma_begins_shorter(target, path, ".When"@);
            }
        },
        ContractV::Let { then, .. } => {
            lemma_party_sites_once(*then, path + ".Let.then"@, target);
            if party_sites(c, path, target) > 0 {
                lemma_begins_shorter(target, path, ".Let.then"@);
            }
        },
        ContractV::Assert { then, .. } => {
            lemma_party_sites_once(*then, path + ".Assert.then"@, target);
            if party_sites(c, path, target) > 0 {
                lemma_begins_shorter(target, path, ".Assert.then"@);
            }
        },
        _ => {},
    }
}

/// Within case `i`, a site begins with the case's own path.
proof fn lemma_case_site_begins(action: ActionV, then: ContractV, wp: Seq<char>, i: nat, target: Seq<char>)
    ensures
        action_sites(action, case_path(wp, i) + ".Case.action"@, target) + party_sites(
            then,
            case_path(wp, i) + ".Case.then"@,
            target,
        ) <= 1,
        action_sites(action, case_path(wp, i) + ".Case.action"@, target) + party_sites(
            then,
            case_path(wp, i) + ".Case.then"@,
            target,
        ) > 0 ==> begins(target, case_path(wp, i) + ".Case."@),
    decreases then, 1nat,
{
    reveal_strlit(".Case.");
    reveal_strlit(".Case.action");
    reveal_strlit(".Case.then");
    reveal_strlit("action");
    reveal_strlit("then");
    let cp = case_path(wp, i);
    let ap = cp + ".Case.action"@;
    let tp = cp + ".Case.then"@;
    lemma_party_sites_once(then, tp, target);
    let na = action_sites(action, ap, target);
    let nt = party_sites(then, tp, target);
    assert(ap =~= (cp + ".Case."@) + "action"@);
    assert(tp =~= (cp + ".Case."@) + "then"@);
    if na > 0 {
        let tail = if action is Deposit {
            ".Deposit.by"@
        } else {
            ".Choice.id.party"@
        };
        assert(target == ap + tail);
        assert(target.subrange(0, ap.len() as int) =~= ap);
        lemma_begins_shorter(target, cp + ".Case."@, "action"@);
        if nt > 0 {
            let k: int = cp.len() as int + 6;
            assert(ap[k] != tp[k]);
            lemma_part(target, ap, tp, k);
        }
    } else if nt > 0 {
        lemma_begins_shorter(target, cp + ".Case."@, "then"@);
    }
}

proof fn lemma_party_sites_cases_once(cases: Seq<CaseV>, wp: Seq<char>, i: nat, target: Seq<char>)
    ensures
        party_sites_cases(cases, wp, i, target) <= 1,
        party_sites_cases(cases, wp, i, target) > 0 ==> begins(target, wp + ".cases["@),
        party_sites_cases(cases, wp, i, target) > 0 ==> exists|j: nat|
            i <= j < cases.len() && #[trigger] begins(target, case_path(wp, j) + ".Case."@),
    decreases cases, cases.len() - i,
{
    if i < cases.len() {
        lemma_party_sites_cases_once(cases, wp, i + 1, target);
        let n1 = match cases[i as int] {
            CaseV::Hole(_) => 0nat,
            CaseV::Case { action, then } => action_sites(action, case_path(wp, i) + ".Case.action"@, target) + party_sites(
                *then,
                case_path(wp, i) + ".Case.then"@,
                target,
            ),
        };
        if let CaseV::Case { action, then } = cases[i as int] {
            lemma_case_site_begins(action, *then, wp, i, target);
        }
        let n2 = party_sites_cases(cases, wp, i + 1, target);
        if n1 > 0 {
            let a = case_path(wp, i) + ".Case."@;
            assert(a =~= (wp + ".cases["@) + (nat_decimal(i) + "]"@ + ".Case."@));
            lemma_begins_shorter(target, wp + ".cases["@, nat_decimal(i) + "]"@ + ".Case."@);
            if n2 > 0 {
                let j = choose|j: nat| i + 1 <= j < cases.len() && #[trigger] begins(target, case_path(wp, j) + ".Case."@);
                lemma_cases_part(target, wp, i, j, ".Case."@, ".Case."@);
            }
        }
    }
}

proof fn lemma_auth_scan_site(c: ContractV, path: Seq<char>, max: nat, rule: AuthorizationRuleV, s: AuthScanV)
    requires
        s.counterexample is None,
    ensures
        authorization_scan(c, path, max, rule, s).counterexample matches Some(v) ==> (v.auto_repair_patch matches Some(p)
            ==> p.kind == "replace_party"@ && party_sites(c, path, p.path) >= 1),
    decreases c, 0nat,
{
    if !(auth_stopped(s) || s.checked >= max) {
        let s0 = AuthScanV { checked: s.checked + 1, ..s };
        match c {
            ContractV::Pay { then, .. } => lemma_auth_scan_site(*then, path + ".Pay.then"@, max, rule, s0),
            ContractV::If { then, else_, .. } => {
                lemma_auth_scan_site(*then, path + ".If.then"@, max, rule, s0);
                let s1 = authorization_scan(*then, path + ".If.then"@, max, rule, s0);
                if s1.counterexample is None {
                    lemma_auth_scan_site(*else_, path + ".If.else"@, max, rule, s1);
                }
            },
            ContractV::When { cases, timeout_continuation, .. } => {
                let wp = path + ".When"@;
                lemma_auth_scan_cases_site(cases, wp, 0, max, rule, s0);
                let s1 = authorization_scan_cases(cases, wp, 0, max, rule, s0);
                if !auth_stopped(s1) {
                    lemma_auth_scan_site(*timeout_continuation, wp + ".timeout_continuation"@, max, rule, s1);
                }
            },
            ContractV::Let { then, .. } => lemma_auth_scan_site(*then, path + ".Let.then"@, max, rule, s0),
            ContractV::Assert { then, .. } => lemma_auth_scan_site(*then, path + ".Assert.then"@, max, rule, s0),
            _ => {},
        }
    }
}

proof fn lemma_auth_scan_cases_site(
    cases: Seq<CaseV>,
    wp: Seq<char>,
    i: nat,
    max: nat,
    rule: AuthorizationRuleV,
    s: AuthScanV,
)
    requires
        s.counterexample is None,
    ensures
        authorization_scan_cases(cases, wp, i, max, rule, s).counterexample matches Some(v) ==> (v.auto_repair_patch
            matches Some(p) ==> p.kind == "replace_party"@ && party_sites_cases(cases, wp, i, p.path) >= 1),
    decreases cases, cases.len() - i,
{
    if i < cases.len() && !auth_stopped(s) {
        match cases[i as int] {
            CaseV::Case { action, then } => {
                let ap = case_path(wp, i) + ".Case.action"@;
                let tp = case_path(wp, i) + ".Case.then"@;
                if authorization_violation(action, ap, rule) is None {
                    lemma_auth_scan_site(*then, tp, max, rule, s);
                    let s1 = authorization_scan(*then, tp, max, rule, s);
                    if s1.counterexample is None {
                        lemma_auth_scan_cases_site(cases, wp, i + 1, max, rule, s1);
                    } else {
                        assert(auth_stopped(s1));
                        assert(authorization_scan_cases(cases, wp, i + 1, max, rule, s1) == s1);
                    }
                }
            },
            CaseV::Hole(_) => lemma_auth_scan_cases_site(cases, wp, i + 1, max, rule, s),
        }
    }
}

/// The repair that an authorization counterexample proposes always applies:
/// when the scan of `c` from the root finds an action triggered by a party
/// outside the allowed set, and the counterexample carries a patch, applying
/// it with a party read from its value gives `c` with exactly that action's
/// authorizing party replaced, everything else as it was.
pub proof fn lemma_authorization_repair_applies(c: ContractV, max: nat, rule: AuthorizationRuleV, party: PartyV)
    ensures
        authorization_result(
            authorization_scan(c, "$"@, max, rule, AuthScanV { checked: 0, counterexample: None, unsupported: None }),
        ) matches CounterexampleResultV::CounterexampleFound { counterexample: ce, .. } ==> (ce.auto_repair_patch matches Some(
            p,
        ) ==> repaired(c, p, Ok(party)) == Ok::<ContractV, Seq<char>>(replace_at(c, "$"@, p.path, party))),
{
    let s0 = AuthScanV { checked: 0, counterexample: None, unsupported: None };
    let sc = authorization_scan(c, "$"@, max, rule, s0);
    lemma_auth_scan_site(c, "$"@, max, rule, s0);
    if let CounterexampleResultV::CounterexampleFound { counterexample: ce, .. } = authorization_result(sc) {
        if let Some(p) = ce.auto_repair_patch {
            assert(sc.counterexample == Some(ce));
            lemma_replace_exact(c, "$"@, p, party);
            lemma_party_sites_once(c, "$"@, p.path);
        }
    }
}

} // verus!
