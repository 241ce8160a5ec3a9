//! Bounded safety analysis of contracts: deadline safety (every reachable
//! timeout leads to `Close`) and authorization safety (only allowed parties
//! trigger deposits or choices), with counterexamples and repair patches.
use crate::ast::{Action, ActionV, Case, CaseV, ChoiceId, ChoiceIdV, Contract, ContractV, Party, PartyV, Timeout, TimeoutV};
use crate::integer::{nat_decimal, Integer};
use vstd::prelude::*;

verus! {

/// How many contract nodes an analysis may visit.
#[derive(Debug, Clone, PartialEq, Eq)]
pub struct CounterexampleRequest {
    pub max_nodes: usize,
}

impl Default for CounterexampleRequest {
    fn default() -> (r: Self)
        ensures
            r.max_nodes == 512,
    {
        CounterexampleRequest { max_nodes: 512 }
    }
}

/// A change that repairs the contract at `path`.
#[derive(Debug, PartialEq, Eq)]
pub struct AutoRepairPatch {
    pub kind: &'static str,
    pub path: String,
    pub value: String,
    pub rationale: String,
}

pub struct AutoRepairPatchV {
    pub kind: Seq<char>,
    pub path: Seq<char>,
    pub value: Seq<char>,
    pub rationale: Seq<char>,
}

impl View for AutoRepairPatch {
    type V = AutoRepairPatchV;

    open spec fn view(&self) -> AutoRepairPatchV {
        AutoRepairPatchV { kind: self.kind@, path: self.path@, value: self.value@, rationale: self.rationale@ }
    }
}

/// One step of a counterexample.
#[derive(Debug, PartialEq, Eq)]
pub struct CounterexampleStep {
    pub id: String,
    pub index: usize,
    pub kind: &'static str,
    pub severity: &'static str,
    pub path: String,
    pub actor: Option<Party>,
    pub time: Option<Integer>,
    pub detail: String,
    pub suggested_fix: String,
}

pub struct CounterexampleStepV {
    pub id: Seq<char>,
    pub index: nat,
    pub kind: Seq<char>,
    pub severity: Seq<char>,
    pub path: Seq<char>,
    pub actor: Option<PartyV>,
    pub time: Option<int>,
    pub detail: Seq<char>,
    pub suggested_fix: Seq<char>,
}

pub open spec fn party_option_view(p: Option<Party>) -> Option<PartyV> {
    match p {
        Some(x) => Some(x@),
        None => None,
    }
}

pub open spec fn integer_option_view(i: Option<Integer>) -> Option<int> {
    match i {
        Some(x) => Some(x@),
        None => None,
    }
}

pub open spec fn text_option_view(s: Option<String>) -> Option<Seq<char>> {
    match s {
        Some(x) => Some(x@),
        None => None,
    }
}

pub open spec fn static_option_view(s: Option<&'static str>) -> Option<Seq<char>> {
    match s {
        Some(x) => Some(x@),
        None => None,
    }
}

pub open spec fn patch_option_view(p: Option<AutoRepairPatch>) -> Option<AutoRepairPatchV> {
    match p {
        Some(x) => Some(x@),
        None => None,
    }
}

impl View for CounterexampleStep {
    type V = CounterexampleStepV;

    open spec fn view(&self) -> CounterexampleStepV {
        CounterexampleStepV {
            id: self.id@,
            index: self.index as nat,
            kind: self.kind@,
            severity: self.severity@,
            path: self.path@,
            actor: party_option_view(self.actor),
            time: integer_option_view(self.time),
            detail: self.detail@,
            suggested_fix: self.suggested_fix@,
        }
    }
}

/// A way the property fails, with the steps that lead there.
#[derive(Debug, PartialEq, Eq)]
pub struct Counterexample {
    pub property: &'static str,
    pub violating_path: String,
    pub explanation: String,
    pub steps: Vec<CounterexampleStep>,
    pub auto_repair_patch: Option<AutoRepairPatch>,
    pub timeout: Option<Integer>,
    pub witness_time: Option<Integer>,
    pub offending_party: Option<Party>,
    pub action: Option<&'static str>,
    pub target: Option<String>,
}

pub struct CounterexampleV {
    pub property: Seq<char>,
    pub violating_path: Seq<char>,
    pub explanation: Seq<char>,
    pub steps: Seq<CounterexampleStepV>,
    pub auto_repair_patch: Option<AutoRepairPatchV>,
    pub timeout: Option<int>,
    pub witness_time: Option<int>,
    pub offending_party: Option<PartyV>,
    pub action: Option<Seq<char>>,
    pub target: Option<Seq<char>>,
}

impl View for Counterexample {
    type V = CounterexampleV;

    open spec fn view(&self) -> CounterexampleV {
        CounterexampleV {
            property: self.property@,
            violating_path: self.violating_path@,
            explanation: self.explanation@,
            steps: self.steps@.map_values(|s: CounterexampleStep| s@),
            auto_repair_patch: patch_option_view(self.auto_repair_patch),
            timeout: integer_option_view(self.timeout),
            witness_time: integer_option_view(self.witness_time),
            offending_party: party_option_view(self.offending_party),
            action: static_option_view(self.action),
            target: text_option_view(self.target),
        }
    }
}

/// The outcome of a bounded analysis.
#[derive(Debug, PartialEq, Eq)]
pub enum CounterexampleResult {
    PassBounded { checked_nodes: usize },
    CounterexampleFound { checked_nodes: usize, counterexample: Counterexample },
    Unsupported { checked_nodes: usize, path: String, reason: String },
}

pub enum CounterexampleResultV {
    PassBounded { checked_nodes: nat },
    CounterexampleFound { checked_nodes: nat, counterexample: CounterexampleV },
    Unsupported { checked_nodes: nat, path: Seq<char>, reason: Seq<char> },
}

impl View for CounterexampleResult {
    type V = CounterexampleResultV;

    open spec fn view(&self) -> CounterexampleResultV {
        match self {
            CounterexampleResult::PassBounded { checked_nodes } => CounterexampleResultV::PassBounded {
                checked_nodes: *checked_nodes as nat,
            },
            CounterexampleResult::CounterexampleFound { checked_nodes, counterexample } => CounterexampleResultV::CounterexampleFound {
                checked_nodes: *checked_nodes as nat,
                counterexample: counterexample@,
            },
            CounterexampleResult::Unsupported { checked_nodes, path, reason } => CounterexampleResultV::Unsupported {
                checked_nodes: *checked_nodes as nat,
                path: path@,
                reason: reason@,
            },
        }
    }
}

/// Which actions an authorization rule governs.
#[derive(Debug, Clone, Copy, PartialEq, Eq, Structural)]
pub enum AuthorizationAction {
    Deposit,
    Choice,
}

/// The parties allowed to trigger an action (for choices, optionally only
/// the choices of one name).
#[derive(Debug, PartialEq, Eq)]
pub struct AuthorizationRule {
    pub action: AuthorizationAction,
    pub target: Option<String>,
    pub allowed_parties: Vec<Party>,
}

pub struct AuthorizationRuleV {
    pub action: AuthorizationAction,
    pub target: Option<Seq<char>>,
    pub allowed_parties: Seq<PartyV>,
}

impl View for AuthorizationRule {
    type V = AuthorizationRuleV;

    open spec fn view(&self) -> AuthorizationRuleV {
        AuthorizationRuleV {
            action: self.action,
            target: text_option_view(self.target),
            allowed_parties: self.allowed_parties@.map_values(|p: Party| p@),
        }
    }
}

} // verus!

verus! {

/// How far a scan has got: the nodes visited, and what it found.
pub struct ScanV {
    pub checked: nat,
    pub candidate: Option<(Seq<char>, int)>,
    pub unsupported: Option<(Seq<char>, Seq<char>)>,
}

pub open spec fn scan_stopped(s: ScanV) -> bool {
    s.candidate is Some || s.unsupported is Some
}

/// The location of case `i` of the `When` at `when_path`.
pub open spec fn case_path(when_path: Seq<char>, i: nat) -> Seq<char> {
    when_path + ".cases["@ + nat_decimal(i) + "]"@
}

/// Looks, in document order and within the node budget, for a `When` whose
/// timeout continuation is not `Close`; a hole, or a non-`Close` timeout
/// continuation after a timeout that is not a constant, cannot be analyzed.
pub open spec fn deadline_scan(c: ContractV, path: Seq<char>, max: nat, s: ScanV) -> ScanV
    decreases c, 0nat,
{
    if scan_stopped(s) || s.checked >= max {
        s
    } else {
        let s = ScanV { checked: s.checked + 1, ..s };
        match c {
            ContractV::Close => s,
            ContractV::Pay { then, .. } => deadline_scan(*then, path + ".Pay.then"@, max, s),
            ContractV::If { then, else_, .. } => deadline_scan(
                *else_,
                path + ".If.else"@,
                max,
                deadline_scan(*then, path + ".If.then"@, max, s),
            ),
            ContractV::When { cases, timeout, timeout_continuation } => {
                let wp = path + ".When"@;
                let s1 = when_timeout_check(s, wp, timeout, *timeout_continuation is Close);
                let s2 = deadline_scan_cases(cases, wp, 0, max, s1);
                if scan_stopped(s2) {
                    s2
                } else {
                    deadline_scan(*timeout_continuation, wp + ".timeout_continuation"@, max, s2)
                }
            },
            ContractV::Let { then, .. } => deadline_scan(*then, path + ".Let.then"@, max, s),
            ContractV::Assert { then, .. } => deadline_scan(*then, path + ".Assert.then"@, max, s),
            ContractV::Hole(n) => ScanV {
                unsupported: Some((path, "deadline_safety cannot analyze unresolved hole '?"@ + n + "'"@)),
                ..s
            },
        }
    }
}

/// A `When` whose timeout continuation is not `Close` is a candidate when
/// its timeout is a constant, and cannot be analyzed otherwise.
pub open spec fn when_timeout_check(s: ScanV, wp: Seq<char>, timeout: TimeoutV, continuation_closes: bool) -> ScanV {
    if continuation_closes {
        s
    } else {
        match timeout {
            TimeoutV::PosixTime(v) => ScanV { candidate: Some((wp, v)), ..s },
            TimeoutV::Param(n) => ScanV {
                unsupported: Some((wp + ".timeout"@, "deadline_safety requires concrete timeout; found parameter '$"@ + n + "'"@)),
                ..s
            },
            TimeoutV::Hole(n) => ScanV {
                unsupported: Some((wp + ".timeout"@, "deadline_safety requires concrete timeout; found hole '?"@ + n + "'"@)),
                ..s
            },
        }
    }
}

/// The continuations of the cases from position `i` on, scanned in order.
pub open spec fn deadline_scan_cases(cases: Seq<CaseV>, wp: Seq<char>, i: nat, max: nat, s: ScanV) -> ScanV
    decreases cases, cases.len() - i,
{
    if i >= cases.len() || scan_stopped(s) {
        s
    } else {
        let s1 = match cases[i as int] {
            CaseV::Case { then, .. } => deadline_scan(*then, case_path(wp, i) + ".Case.then"@, max, s),
            CaseV::Hole(_) => s,
        };
        deadline_scan_cases(cases, wp, i + 1, max, s1)
    }
}

/// A `When` whose timeout continuation is not `Close`, and its timeout.
#[derive(Debug, PartialEq, Eq)]
pub struct ViolationCandidate {
    pub path: String,
    pub timeout: Integer,
}

/// What a scan found.
#[derive(Debug, PartialEq, Eq)]
pub struct DeadlineScan {
    pub checked_nodes: usize,
    pub candidate: Option<ViolationCandidate>,
    pub unsupported: Option<(String, String)>,
}

impl View for DeadlineScan {
    type V = ScanV;

    open spec fn view(&self) -> ScanV {
        ScanV {
            checked: self.checked_nodes as nat,
            candidate: match self.candidate {
                Some(c) => Some((c.path@, c.timeout@)),
                None => None,
            },
            unsupported: match self.unsupported {
                Some(u) => Some((u.0@, u.1@)),
                None => None,
            },
        }
    }
}

fn join(a: &str, b: &str) -> (r: String)
    ensures
        r@ == a@ + b@,
{
    let mut r = String::from_str(a);
    r.append(b);
    r
}

fn case_path_text(when_path: &str, i: usize) -> (r: String)
    ensures
        r@ == case_path(when_path@, i as nat),
{
    let mut r = String::from_str(when_path);
    r.append(".cases[");
    let n = crate::text::usize_decimal(i);
    r.append(n.as_str());
    r.append("]");
    r
}

fn scan_deadline(c: &Contract, path: &str, max: usize, s: &mut DeadlineScan)
    requires
        old(s).checked_nodes <= max,
    ensures
        final(s)@ == deadline_scan(c@, path@, max as nat, old(s)@),
        final(s).checked_nodes <= max,
    decreases c, 0nat,
{
    if s.candidate.is_some() || s.unsupported.is_some() || s.checked_nodes >= max {
        return;
    }
    s.checked_nodes = s.checked_nodes + 1;
    match c {
        Contract::Close => {},
        Contract::Pay { then, .. } => scan_deadline(then, join(path, ".Pay.then").as_str(), max, s),
        Contract::If { then, else_, .. } => {
            scan_deadline(then, join(path, ".If.then").as_str(), max, s);
            scan_deadline(else_, join(path, ".If.else").as_str(), max, s);
        },
        Contract::When { cases, timeout, timeout_continuation } => {
            let wp = join(path, ".When");
            let is_close = match &**timeout_continuation {
                Contract::Close => true,
                _ => false,
            };
            if !is_close {
                match timeout {
                    Timeout::PosixTime(v) => {
                        s.candidate = Some(ViolationCandidate { path: wp.clone(), timeout: v.duplicate() });
                    },
                    Timeout::Param(n) => {
                        let reason = crate::parser::join3(
                            "deadline_safety requires concrete timeout; found parameter '$",
                            n.as_str(),
                            "'",
                        );
                        s.unsupported = Some((join(wp.as_str(), ".timeout"), reason));
                    },
                    Timeout::Hole(n) => {
                        let reason = crate::parser::join3(
                            "deadline_safety requires concrete timeout; found hole '?",
                            n.as_str(),
                            "'",
                        );
                        s.unsupported = Some((join(wp.as_str(), ".timeout"), reason));
                    },
                }
            }
            assert(is_close == (timeout_continuation@ is Close));
            assert(s@ == when_timeout_check(ScanV { checked: old(s)@.checked + 1, ..old(s)@ }, wp@, timeout@, is_close));
            scan_deadline_cases(cases, wp.as_str(), max, s);
            if s.candidate.is_none() && s.unsupported.is_none() {
                scan_deadline(timeout_continuation, join(wp.as_str(), ".timeout_continuation").as_str(), max, s);
            }
        },
        Contract::Let { then, .. } => scan_deadline(then, join(path, ".Let.then").as_str(), max, s),
        Contract::Assert { then, .. } => scan_deadline(then, join(path, ".Assert.then").as_str(), max, s),
        Contract::Hole(n) => {
            let reason = crate::parser::join3("deadline_safety cannot analyze unresolved hole '?", n.as_str(), "'");
            s.unsupported = Some((String::from_str(path), reason));
        },
    }
}

fn scan_deadline_cases(cases: &Vec<Case>, wp: &str, max: usize, s: &mut DeadlineScan)
    requires
        old(s).checked_nodes <= max,
    ensures
        final(s)@ == deadline_scan_cases(crate::ast::cases_view(cases@), wp@, 0, max as nat, old(s)@),
        final(s).checked_nodes <= max,
    decreases cases, 1nat,
{
    let ghost cv = crate::ast::cases_view(cases@);
    proof { crate::ast::lemma_cases_view(cases@); }
    let mut i: usize = 0;
    while i < cases.len()
        invariant
            cv == crate::ast::cases_view(cases@),
            cv.len() == cases@.len(),
            forall|j: int| 0 <= j < cases@.len() ==> #[trigger] cv[j] == cases@[j]@,
            i <= cases@.len(),
            s.checked_nodes <= max,
            deadline_scan_cases(cv, wp@, 0, max as nat, old(s)@) == deadline_scan_cases(cv, wp@, i as nat, max as nat, s@),
        decreases cases@.len() - i,
    {
        if s.candidate.is_some() || s.unsupported.is_some() {
            return;
        }
        assert(cv[i as int] == cases@[i as int]@);
        if let Case::Case { then, .. } = &cases[i] {
            let p = join(case_path_text(wp, i).as_str(), ".Case.then");
            scan_deadline(then, p.as_str(), max, s);
        }
        i = i + 1;
    }
}

/// Scans a contract for a `When` whose timeout leads somewhere other than `Close`.
pub fn scan_deadline_safety(contract: &Contract, request: &CounterexampleRequest) -> (r: DeadlineScan)
    ensures
        r@ == deadline_scan(contract@, "$"@, request.max_nodes as nat, ScanV { checked: 0, candidate: None, unsupported: None }),
{
    let mut s = DeadlineScan { checked_nodes: 0, candidate: None, unsupported: None };
    scan_deadline(contract, "$", request.max_nodes, &mut s);
    s
}

} // verus!

verus! {

/// Rust's `char::is_whitespace`: the Unicode `White_Space` property.
pub open spec fn is_white_space(c: char) -> bool {
    ||| c == ' '
    ||| ('\t' <= c && c <= '\r')
    ||| c == '\u{85}'
    ||| c == '\u{a0}'
    ||| c == '\u{1680}'
    ||| ('\u{2000}' <= c && c <= '\u{200a}')
    ||| c == '\u{2028}'
    ||| c == '\u{2029}'
    ||| c == '\u{202f}'
    ||| c == '\u{205f}'
    ||| c == '\u{3000}'
}

/// The text without its leading white space.
pub open spec fn trim_start(s: Seq<char>) -> Seq<char>
    decreases s.len(),
{
    if s.len() > 0 && is_white_space(s[0]) {
        trim_start(s.drop_first())
    } else {
        s
    }
}

/// The text without its trailing white space.
pub open spec fn trim_end(s: Seq<char>) -> Seq<char>
    decreases s.len(),
{
    if s.len() > 0 && is_white_space(s.last()) {
        trim_end(s.drop_last())
    } else {
        s
    }
}

/// The text before the first line feed.
pub open spec fn first_line(s: Seq<char>) -> Seq<char>
    decreases s.len(),
{
    if s.len() == 0 || s[0] == '\n' {
        Seq::empty()
    } else {
        seq![s[0]] + first_line(s.drop_first())
    }
}

fn trimmed_first_line(s: &str) -> (r: Vec<char>)
    ensures
        r@ == trim_end(trim_start(first_line(s@))),
{
    let chars = crate::text::text_chars(s);
    let ghost all = chars@;
    let mut end: usize = 0;
    assert(all.subrange(0, 0) + first_line(all.skip(0)) =~= first_line(all)) by {
        assert(all.skip(0) =~= all);
        assert(all.subrange(0, 0) =~= Seq::<char>::empty());
    }
    while end < chars.len() && chars[end] != '\n'
        invariant
            all == chars@,
            end <= all.len(),
            first_line(all) == all.subrange(0, end as int) + first_line(all.skip(end as int)),
            forall|j: int| 0 <= j < end ==> all[j] != '\n',
        decreases all.len() - end,
    {
        assert(all.skip(end as int).drop_first() =~= all.skip(end + 1));
        assert(all.subrange(0, end + 1) =~= all.subrange(0, end as int) + seq![all[end as int]]);
        end = end + 1;
    }
    assert(first_line(all.skip(end as int)) =~= Seq::<char>::empty());
    let ghost line = all.subrange(0, end as int);
    assert(first_line(all) =~= line);
    let mut start: usize = 0;
    while start < end && is_white_space_char(chars[start])
        invariant
            all == chars@,
            end <= all.len(),
            start <= end,
            trim_start(line) == trim_start(all.subrange(start as int, end as int)),
        decreases end - start,
    {
        assert(all.subrange(start as int, end as int).drop_first() =~= all.subrange(start + 1, end as int));
        start = start + 1;
    }
    let ghost mid = all.subrange(start as int, end as int);
    assert(trim_start(mid) == mid);
    let mut stop: usize = end;
    while stop > start && is_white_space_char(chars[stop - 1])
        invariant
            all == chars@,
            end <= all.len(),
            start <= stop <= end,
            trim_end(mid) == trim_end(all.subrange(start as int, stop as int)),
        decreases stop - start,
    {
        assert(all.subrange(start as int, stop as int).drop_last() =~= all.subrange(start as int, stop - 1));
        stop = stop - 1;
    }
    let mut r: Vec<char> = Vec::new();
    let mut k: usize = start;
    while k < stop
        invariant
            all == chars@,
            start <= k <= stop <= all.len(),
            r@ == all.subrange(start as int, k as int),
        decreases stop - k,
    {
        r.push(chars[k]);
        k = k + 1;
        assert(r@ =~= all.subrange(start as int, k as int));
    }
    r
}

pub(crate) fn is_white_space_char(c: char) -> (r: bool)
    ensures
        r == is_white_space(c),
{
    c == ' ' || ('\t' <= c && c <= '\r') || c == '\u{85}' || c == '\u{a0}' || c == '\u{1680}' || ('\u{2000}' <= c && c
        <= '\u{200a}') || c == '\u{2028}' || c == '\u{2029}' || c == '\u{202f}' || c == '\u{205f}' || c == '\u{3000}'
}

} // verus!

verus! {

/// The SMT query that asks the solver for a time at or after the timeout.
pub open spec fn witness_query_text(timeout: int, minimized: int) -> Seq<char> {
    "(set-logic QF_LIA)\n(declare-const t Int)\n(assert (>= t "@ + crate::integer::int_decimal(timeout)
        + "))\n(assert (>= t 0))\n(assert (= t "@ + crate::integer::int_decimal(minimized) + "))\n(check-sat)\n"@
}

/// The timeout of a candidate, as the solver is asked about it.
#[derive(Debug, PartialEq, Eq)]
pub struct WitnessRequest {
    pub checked_nodes: usize,
    pub path: String,
    pub timeout: Integer,
    pub minimized: Integer,
    pub query: String,
}

pub struct WitnessRequestV {
    pub checked_nodes: nat,
    pub path: Seq<char>,
    pub timeout: int,
    pub minimized: int,
    pub query: Seq<char>,
}

impl View for WitnessRequest {
    type V = WitnessRequestV;

    open spec fn view(&self) -> WitnessRequestV {
        WitnessRequestV {
            checked_nodes: self.checked_nodes as nat,
            path: self.path@,
            timeout: self.timeout@,
            minimized: self.minimized@,
            query: self.query@,
        }
    }
}

/// Either the analysis is done, or it needs the solver to answer a query.
#[derive(Debug, PartialEq, Eq)]
pub enum DeadlineStep {
    Done(CounterexampleResult),
    Solve(WitnessRequest),
}

pub enum DeadlineStepV {
    Done(CounterexampleResultV),
    Solve(WitnessRequestV),
}

impl View for DeadlineStep {
    type V = DeadlineStepV;

    open spec fn view(&self) -> DeadlineStepV {
        match self {
            DeadlineStep::Done(r) => DeadlineStepV::Done(r@),
            DeadlineStep::Solve(w) => DeadlineStepV::Solve(w@),
        }
    }
}

/// What the scan decides: refuse what cannot be analyzed, pass when no
/// candidate was found, and otherwise ask the solver for a witness time
/// (the timeout, or zero when it is negative), where the timeout fits in `i64`.
pub open spec fn deadline_plan(s: ScanV) -> DeadlineStepV {
    match s.unsupported {
        Some((p, reason)) => DeadlineStepV::Done(CounterexampleResultV::Unsupported { checked_nodes: s.checked, path: p, reason }),
        None => match s.candidate {
            None => DeadlineStepV::Done(CounterexampleResultV::PassBounded { checked_nodes: s.checked }),
            Some((p, t)) => if i64::MIN <= t && t <= i64::MAX {
                let m = if t > 0 { t } else { 0 };
                DeadlineStepV::Solve(
                    WitnessRequestV { checked_nodes: s.checked, path: p, timeout: t, minimized: m, query: witness_query_text(t, m) },
                )
            } else {
                DeadlineStepV::Done(
                    CounterexampleResultV::Unsupported {
                        checked_nodes: s.checked,
                        path: p,
                        reason: "timeout exceeds supported i64 range in analyzer MVP"@,
                    },
                )
            },
        },
    }
}

/// What running the solver gave: it could not be run, or it exited.
#[derive(Debug, PartialEq, Eq)]
pub enum SolverReply {
    Unavailable(String),
    Exited { success: bool, stdout: String, stderr: String },
}

/// The witness time that the solver's reply gives, or why there is none.
pub open spec fn solver_witness(minimized: int, reply: SolverReply) -> Result<int, Seq<char>> {
    match reply {
        SolverReply::Unavailable(m) => Err(m@),
        SolverReply::Exited { success, stdout, stderr } => if !success {
            Err("z3 execution failed: "@ + stderr@)
        } else {
            let line = trim_end(trim_start(first_line(stdout@)));
            if line == "sat"@ {
                Ok(minimized)
            } else if line == "unsat"@ {
                Err("internal analyzer error: expected witness is UNSAT"@)
            } else {
                Err("solver returned unknown for deadline_safety witness"@)
            }
        },
    }
}

/// The counterexample of a `When` at `path` whose timeout continuation is
/// not `Close`, reached at `witness`.
pub open spec fn deadline_counterexample(path: Seq<char>, timeout: int, witness: int) -> CounterexampleV {
    CounterexampleV {
        property: "deadline_safety"@,
        violating_path: path,
        explanation: "A timeout can be reached where continuation is not Close."@,
        steps: seq![
            CounterexampleStepV {
                id: "deadline_safety.step.0"@,
                index: 0,
                kind: "timeout_reached"@,
                severity: "info"@,
                path: "$.transaction.interval_end"@,
                actor: None,
                time: Some(witness),
                detail: "Interval end reaches the timeout and activates timeout continuation."@,
                suggested_fix: "No change needed for this step; review the timeout continuation branch."@,
            },
            CounterexampleStepV {
                id: "deadline_safety.step.1"@,
                index: 1,
                kind: "non_close_timeout_continuation"@,
                severity: "high"@,
                path,
                actor: None,
                time: Some(witness),
                detail: "Timeout continuation is not Close."@,
                suggested_fix: "Set this When.timeout_continuation to Close, or add an explicit guard proving safe post-timeout behavior."@,
            },
        ],
        auto_repair_patch: Some(
            AutoRepairPatchV {
                kind: "set_contract"@,
                path: path + ".timeout_continuation"@,
                value: "{ Close: {} }"@,
                rationale: "Setting timeout continuation to Close enforces deadline safety for this branch."@,
            },
        ),
        timeout: Some(timeout),
        witness_time: Some(witness),
        offending_party: None,
        action: None,
        target: None,
    }
}

/// The result once the solver has answered.
pub open spec fn deadline_outcome(w: WitnessRequestV, witness: Result<int, Seq<char>>) -> CounterexampleResultV {
    match witness {
        Ok(t) => CounterexampleResultV::CounterexampleFound {
            checked_nodes: w.checked_nodes,
            counterexample: deadline_counterexample(w.path, w.timeout, t),
        },
        Err(reason) => CounterexampleResultV::Unsupported { checked_nodes: w.checked_nodes, path: w.path, reason },
    }
}

/// Scans a contract for deadline safety: the result, or the query whose
/// answer decides it (see `finish_deadline_safety`).
pub fn analyze_deadline_safety(contract: &Contract, request: &CounterexampleRequest) -> (r: DeadlineStep)
    ensures
        r@ == deadline_plan(
            deadline_scan(contract@, "$"@, request.max_nodes as nat, ScanV { checked: 0, candidate: None, unsupported: None }),
        ),
{
    let scan = scan_deadline_safety(contract, request);
    let DeadlineScan { checked_nodes, candidate, unsupported } = scan;
    if let Some((path, reason)) = unsupported {
        return DeadlineStep::Done(CounterexampleResult::Unsupported { checked_nodes, path, reason });
    }
    match candidate {
        None => DeadlineStep::Done(CounterexampleResult::PassBounded { checked_nodes }),
        Some(ViolationCandidate { path, timeout }) => match timeout.to_i64() {
            None => DeadlineStep::Done(
                CounterexampleResult::Unsupported {
                    checked_nodes,
                    path,
                    reason: String::from_str("timeout exceeds supported i64 range in analyzer MVP"),
                },
            ),
            Some(t) => {
                let m: i64 = if t > 0 { t } else { 0 };
                let minimized = Integer::from_i64(m);
                let mut query = String::from_str("(set-logic QF_LIA)\n(declare-const t Int)\n(assert (>= t ");
                query.append(Integer::from_i64(t).to_decimal().as_str());
                query.append("))\n(assert (>= t 0))\n(assert (= t ");
                query.append(minimized.to_decimal().as_str());
                query.append("))\n(check-sat)\n");
                DeadlineStep::Solve(WitnessRequest { checked_nodes, path, timeout, minimized, query })
            },
        },
    }
}

fn same_chars(a: &Vec<char>, b: &Vec<char>) -> (r: bool)
    ensures
        r == (a@ == b@),
{
    if a.len() != b.len() {
        return false;
    }
    let mut i: usize = 0;
    while i < a.len()
        invariant
            a@.len() == b@.len(),
            i <= a@.len(),
            forall|j: int| 0 <= j < i ==> a@[j] == b@[j],
        decreases a@.len() - i,
    {
        if a[i] != b[i] {
            return false;
        }
        i = i + 1;
    }
    assert(a@ =~= b@);
    true
}

fn solver_witness_of(minimized: &Integer, reply: &SolverReply) -> (r: Result<Integer, String>)
    ensures
        match r {
            Ok(t) => solver_witness(minimized@, *reply) == Ok::<int, Seq<char>>(t@),
            Err(e) => solver_witness(minimized@, *reply) == Err::<int, Seq<char>>(e@),
        },
{
    match reply {
        SolverReply::Unavailable(m) => Err(m.clone()),
        SolverReply::Exited { success, stdout, stderr } => {
            if !*success {
                return Err(join("z3 execution failed: ", stderr.as_str()));
            }
            let line = trimmed_first_line(stdout.as_str());
            let sat = crate::text::text_chars("sat");
            let unsat = crate::text::text_chars("unsat");
            if same_chars(&line, &sat) {
                Ok(minimized.duplicate())
            } else if same_chars(&line, &unsat) {
                Err(String::from_str("internal analyzer error: expected witness is UNSAT"))
            } else {
                Err(String::from_str("solver returned unknown for deadline_safety witness"))
            }
        },
    }
}

/// The result of a deadline analysis once the solver has answered its query.
pub fn finish_deadline_safety(request: &WitnessRequest, reply: &SolverReply) -> (r: CounterexampleResult)
    ensures
        r@ == deadline_outcome(request@, solver_witness(request.minimized@, *reply)),
{
    match solver_witness_of(&request.minimized, reply) {
        Err(reason) => CounterexampleResult::Unsupported { checked_nodes: request.checked_nodes, path: request.path.clone(), reason },
        Ok(witness) => {
            let path = request.path.clone();
            let steps = vec![
                CounterexampleStep {
                    id: String::from_str("deadline_safety.step.0"),
                    index: 0,
                    kind: "timeout_reached",
                    severity: "info",
                    path: String::from_str("$.transaction.interval_end"),
                    actor: None,
                    time: Some(witness.duplicate()),
                    detail: String::from_str("Interval end reaches the timeout and activates timeout continuation."),
                    suggested_fix: String::from_str("No change needed for this step; review the timeout continuation branch."),
                },
                CounterexampleStep {
                    id: String::from_str("deadline_safety.step.1"),
                    index: 1,
                    kind: "non_close_timeout_continuation",
                    severity: "high",
                    path: path.clone(),
                    actor: None,
                    time: Some(witness.duplicate()),
                    detail: String::from_str("Timeout continuation is not Close."),
                    suggested_fix: String::from_str(
                        "Set this When.timeout_continuation to Close, or add an explicit guard proving safe post-timeout behavior.",
                    ),
                },
            ];
            let patch = AutoRepairPatch {
                kind: "set_contract",
                path: join(path.as_str(), ".timeout_continuation"),
                value: String::from_str("{ Close: {} }"),
                rationale: String::from_str("Setting timeout continuation to Close enforces deadline safety for this branch."),
            };
            let counterexample = Counterexample {
                property: "deadline_safety",
                violating_path: path,
                explanation: String::from_str("A timeout can be reached where continuation is not Close."),
                steps,
                auto_repair_patch: Some(patch),
                timeout: Some(request.timeout.duplicate()),
                witness_time: Some(witness),
                offending_party: None,
                action: None,
                target: None,
            };
            assert(counterexample@.steps =~= deadline_counterexample(request.path@, request.timeout@, counterexample@.witness_time->0).steps);
            CounterexampleResult::CounterexampleFound { checked_nodes: request.checked_nodes, counterexample }
        },
    }
}

} // verus!

verus! {

/// A lowercase hexadecimal digit.
pub open spec fn hex_digit(d: int) -> char
    recommends
        0 <= d < 16,
{
    if d < 10 {
        ((d + ('0' as int)) as char)
    } else {
        ((d - 10 + ('a' as int)) as char)
    }
}

/// One character inside a JSON string: `"` and `\` after a backslash;
/// backspace, tab, line feed, form feed and carriage return as `\b`, `\t`,
/// `\n`, `\f`, `\r`; any other character below U+0020 as `\u00` and two
/// lowercase hexadecimal digits; any other character as itself.
pub open spec fn json_char(c: char) -> Seq<char> {
    if c == '"' {
        seq!['\\', '"']
    } else if c == '\\' {
        seq!['\\', '\\']
    } else if c == '\u{8}' {
        seq!['\\', 'b']
    } else if c == '\t' {
        seq!['\\', 't']
    } else if c == '\n' {
        seq!['\\', 'n']
    } else if c == '\u{c}' {
        seq!['\\', 'f']
    } else if c == '\r' {
        seq!['\\', 'r']
    } else if (c as int) < 32 {
        seq!['\\', 'u', '0', '0', hex_digit((c as int) / 16), hex_digit((c as int) % 16)]
    } else {
        seq![c]
    }
}

/// The characters of a text as a JSON string holds them.
pub open spec fn json_escaped(s: Seq<char>) -> Seq<char>
    decreases s.len(),
{
    if s.len() == 0 {
        Seq::empty()
    } else {
        json_escaped(s.drop_last()) + json_char(s.last())
    }
}

/// A text as a JSON string: its escaped characters between double quotes.
/// Writing a text as JSON does not fail.
pub open spec fn json_string(s: Seq<char>) -> Option<Seq<char>> {
    Some(seq!['"'] + json_escaped(s) + seq!['"'])
}

/// `serde_json::to_string` on a `&str`: the text between double quotes,
/// escaped as `json_char` says. Writing into its in-memory buffer cannot
/// fail, so the result is always there.
#[verifier::external_body]
pub(crate) fn json_string_text(s: &str) -> (r: Option<String>)
    ensures
        match r {
            Some(t) => json_string(s@) == Some(t@),
            None => json_string(s@) is None,
        },
{
    serde_json::to_string(s).ok()
}

/// A party as JSON, its variant as the key of a one-entry object (the
/// form in which the repair endpoints read it back).
pub open spec fn party_json(p: PartyV) -> Seq<char> {
    let (tag, name) = match p {
        PartyV::Hole(n) => ("Hole"@, n),
        PartyV::Role(n) => ("Role"@, n),
        PartyV::Address(n) => ("Address"@, n),
    };
    match json_string(name) {
        Some(t) => "{\""@ + tag + "\":"@ + t + "}"@,
        None => "\"<serialization_error>\""@,
    }
}

fn party_json_text(p: &Party) -> (r: String)
    ensures
        r@ == party_json(p@),
{
    let (tag, name) = match p {
        Party::Hole(n) => ("Hole", n),
        Party::Role(n) => ("Role", n),
        Party::Address(n) => ("Address", n),
    };
    proof {
        reveal_strlit("Hole");
        reveal_strlit("Role");
        reveal_strlit("Address");
    }
    match json_string_text(name.as_str()) {
        Some(t) => {
            let mut r = String::from_str("{\"");
            r.append(tag);
            r.append("\":");
            r.append(t.as_str());
            r.append("}");
            r
        },
        None => String::from_str("\"<serialization_error>\""),
    }
}

/// The repair that puts the first allowed party at `path`, if there is one.
pub open spec fn replace_party_patch(allowed: Seq<PartyV>, path: Seq<char>, rationale: Seq<char>) -> Option<AutoRepairPatchV> {
    if allowed.len() > 0 {
        Some(AutoRepairPatchV { kind: "replace_party"@, path, value: party_json(allowed[0]), rationale })
    } else {
        None
    }
}

/// The counterexample of an action at `action_path` that a party outside
/// the allowed set can trigger, if there is one.
pub open spec fn authorization_violation(action: ActionV, action_path: Seq<char>, rule: AuthorizationRuleV) -> Option<CounterexampleV> {
    match (rule.action, action) {
        (AuthorizationAction::Deposit, ActionV::Deposit { by, .. }) => if !rule.allowed_parties.contains(by) {
            Some(
                CounterexampleV {
                    property: "authorization_safety"@,
                    violating_path: action_path,
                    explanation: "A deposit action can be triggered by a party outside the allowed set."@,
                    steps: seq![
                        CounterexampleStepV {
                            id: "authorization_safety.step.0"@,
                            index: 0,
                            kind: "unauthorized_action"@,
                            severity: "high"@,
                            path: action_path,
                            actor: Some(by),
                            time: None,
                            detail: "Deposit action authorizing party is outside allowed_parties."@,
                            suggested_fix: "Restrict the Deposit.by party to one of authorization_rule.allowed_parties."@,
                        },
                    ],
                    auto_repair_patch: replace_party_patch(
                        rule.allowed_parties,
                        action_path + ".Deposit.by"@,
                        "Restricting Deposit.by to an allowed party resolves this authorization violation."@,
                    ),
                    timeout: None,
                    witness_time: None,
                    offending_party: Some(by),
                    action: Some("deposit"@),
                    target: None,
                },
            )
        } else {
            None
        },
        (AuthorizationAction::Choice, ActionV::Choice { id: ChoiceIdV::ChoiceId { name, party }, .. }) => if rule.target
            matches Some(t) && t != name {
            None
        } else if !rule.allowed_parties.contains(party) {
            Some(
                CounterexampleV {
                    property: "authorization_safety"@,
                    violating_path: action_path,
                    explanation: "A choice action can be triggered by a party outside the allowed set."@,
                    steps: seq![
                        CounterexampleStepV {
                            id: "authorization_safety.step.0"@,
                            index: 0,
                            kind: "unauthorized_action"@,
                            severity: "high"@,
                            path: action_path,
                            actor: Some(party),
                            time: None,
                            detail: "Choice action authorizing party is outside allowed_parties."@,
                            suggested_fix: "Change Choice.id.party to an allowed party, or expand authorization_rule.allowed_parties if intentional."@,
                        },
                    ],
                    auto_repair_patch: replace_party_patch(
                        rule.allowed_parties,
                        action_path + ".Choice.id.party"@,
                        "Restricting Choice.id.party to an allowed party resolves this authorization violation."@,
                    ),
                    timeout: None,
                    witness_time: None,
                    offending_party: Some(party),
                    action: Some("choice"@),
                    target: Some(name),
                },
            )
        } else {
            None
        },
        (AuthorizationAction::Choice, ActionV::Choice { id: ChoiceIdV::Hole(name), .. }) => Some(
            CounterexampleV {
                property: "authorization_safety"@,
                violating_path: action_path,
                explanation: "Choice action has unresolved choice hole '?"@ + name
                    + "', so authorization cannot be guaranteed."@,
                steps: seq![
                    CounterexampleStepV {
                        id: "authorization_safety.step.0"@,
                        index: 0,
                        kind: "unknown_authorizer"@,
                        severity: "medium"@,
                        path: action_path,
                        actor: None,
                        time: None,
                        detail: "Choice id is unresolved; cannot establish authorized party."@,
                        suggested_fix: "Replace unresolved ChoiceId hole with a concrete party and re-run authorization analysis."@,
                    },
                ],
                auto_repair_patch: None,
                timeout: None,
                witness_time: None,
                offending_party: None,
                action: Some("choice"@),
                target: rule.target,
            },
        ),
        _ => None,
    }
}

} // verus!

verus! {

fn contains_party(parties: &Vec<Party>, p: &Party) -> (r: bool)
    ensures
        r == parties@.map_values(|q: Party| q@).contains(p@),
{
    let ghost pv = parties@.map_values(|q: Party| q@);
    let mut i: usize = 0;
    while i < parties.len()
        invariant
            pv == parties@.map_values(|q: Party| q@),
            i <= parties@.len(),
            forall|j: int| 0 <= j < i ==> pv[j] != p@,
        decreases parties@.len() - i,
    {
        if crate::keys::same_party(&parties[i], p) {
            assert(pv[i as int] == p@);
            return true;
        }
        i = i + 1;
    }
    false
}

fn replace_party_patch_of(allowed: &Vec<Party>, path: String, rationale: &str) -> (r: Option<AutoRepairPatch>)
    ensures
        patch_option_view(r) == replace_party_patch(allowed@.map_values(|q: Party| q@), path@, rationale@),
{
    if allowed.len() > 0 {
        let value = party_json_text(&allowed[0]);
        Some(AutoRepairPatch { kind: "replace_party", path, value, rationale: String::from_str(rationale) })
    } else {
        None
    }
}

fn duplicate_text(s: &Option<String>) -> (r: Option<String>)
    ensures
        text_option_view(r) == text_option_view(*s),
{
    match s {
        Some(t) => Some(t.clone()),
        None => None,
    }
}

fn authorization_violation_for_action(action: &Action, action_path: &str, rule: &AuthorizationRule) -> (r: Option<Counterexample>)
    ensures
        match r {
            Some(c) => authorization_violation(action@, action_path@, rule@) == Some(c@),
            None => authorization_violation(action@, action_path@, rule@) is None,
        },
{
    match (&rule.action, action) {
        (AuthorizationAction::Deposit, Action::Deposit { by, .. }) => {
            if !contains_party(&rule.allowed_parties, by) {
                let steps = vec![
                    CounterexampleStep {
                        id: String::from_str("authorization_safety.step.0"),
                        index: 0,
                        kind: "unauthorized_action",
                        severity: "high",
                        path: String::from_str(action_path),
                        actor: Some(by.duplicate()),
                        time: None,
                        detail: String::from_str("Deposit action authorizing party is outside allowed_parties."),
                        suggested_fix: String::from_str("Restrict the Deposit.by party to one of authorization_rule.allowed_parties."),
                    },
                ];
                let c = Counterexample {
                    property: "authorization_safety",
                    violating_path: String::from_str(action_path),
                    explanation: String::from_str("A deposit action can be triggered by a party outside the allowed set."),
                    steps,
                    auto_repair_patch: replace_party_patch_of(
                        &rule.allowed_parties,
                        join(action_path, ".Deposit.by"),
                        "Restricting Deposit.by to an allowed party resolves this authorization violation.",
                    ),
                    timeout: None,
                    witness_time: None,
                    offending_party: Some(by.duplicate()),
                    action: Some("deposit"),
                    target: None,
                };
                assert(c@.steps =~= authorization_violation(action@, action_path@, rule@)->0.steps);
                Some(c)
            } else {
                None
            }
        },
        (AuthorizationAction::Choice, Action::Choice { id: ChoiceId::ChoiceId { name, party }, .. }) => {
            if let Some(target) = &rule.target {
                if !crate::text::same_text(target.as_str(), name.as_str()) {
                    return None;
                }
            }
            if !contains_party(&rule.allowed_parties, party) {
                let steps = vec![
                    CounterexampleStep {
                        id: String::from_str("authorization_safety.step.0"),
                        index: 0,
                        kind: "unauthorized_action",
                        severity: "high",
                        path: String::from_str(action_path),
                        actor: Some(party.duplicate()),
                        time: None,
                        detail: String::from_str("Choice action authorizing party is outside allowed_parties."),
                        suggested_fix: String::from_str(
                            "Change Choice.id.party to an allowed party, or expand authorization_rule.allowed_parties if intentional.",
                        ),
                    },
                ];
                let c = Counterexample {
                    property: "authorization_safety",
                    violating_path: String::from_str(action_path),
                    explanation: String::from_str("A choice action can be triggered by a party outside the allowed set."),
                    steps,
                    auto_repair_patch: replace_party_patch_of(
                        &rule.allowed_parties,
                        join(action_path, ".Choice.id.party"),
                        "Restricting Choice.id.party to an allowed party resolves this authorization violation.",
                    ),
                    timeout: None,
                    witness_time: None,
                    offending_party: Some(party.duplicate()),
                    action: Some("choice"),
                    target: Some(name.clone()),
                };
                assert(c@.steps =~= authorization_violation(action@, action_path@, rule@)->0.steps);
                Some(c)
            } else {
                None
            }
        },
        (AuthorizationAction::Choice, Action::Choice { id: ChoiceId::Hole(name), .. }) => {
            let steps = vec![
                CounterexampleStep {
                    id: String::from_str("authorization_safety.step.0"),
                    index: 0,
                    kind: "unknown_authorizer",
                    severity: "medium",
                    path: String::from_str(action_path),
                    actor: None,
                    time: None,
                    detail: String::from_str("Choice id is unresolved; cannot establish authorized party."),
                    suggested_fix: String::from_str(
                        "Replace unresolved ChoiceId hole with a concrete party and re-run authorization analysis.",
                    ),
                },
            ];
            let c = Counterexample {
                property: "authorization_safety",
                violating_path: String::from_str(action_path),
                explanation: crate::parser::join3(
                    "Choice action has unresolved choice hole '?",
                    name.as_str(),
                    "', so authorization cannot be guaranteed.",
                ),
                steps,
                auto_repair_patch: None,
                timeout: None,
                witness_time: None,
                offending_party: None,
                action: Some("choice"),
                target: duplicate_text(&rule.target),
            };
            assert(c@.steps =~= authorization_violation(action@, action_path@, rule@)->0.steps);
            Some(c)
        },
        _ => None,
    }
}

} // verus!

verus! {

/// How far an authorization scan has got.
pub struct AuthScanV {
    pub checked: nat,
    pub counterexample: Option<CounterexampleV>,
    pub unsupported: Option<(Seq<char>, Seq<char>)>,
}

pub open spec fn auth_stopped(s: AuthScanV) -> bool {
    s.counterexample is Some || s.unsupported is Some
}

/// Looks, in document order and within the node budget, for an action that
/// a party outside the rule's allowed set can trigger; a hole cannot be
/// analyzed.
pub open spec fn authorization_scan(c: ContractV, path: Seq<char>, max: nat, rule: AuthorizationRuleV, s: AuthScanV) -> AuthScanV
    decreases c, 0nat,
{
    if auth_stopped(s) || s.checked >= max {
        s
    } else {
        let s = AuthScanV { checked: s.checked + 1, ..s };
        match c {
            ContractV::Close => s,
            ContractV::Pay { then, .. } => authorization_scan(*then, path + ".Pay.then"@, max, rule, s),
            ContractV::If { then, else_, .. } => authorization_scan(
                *else_,
                path + ".If.else"@,
                max,
                rule,
                authorization_scan(*then, path + ".If.then"@, max, rule, s),
            ),
            ContractV::When { cases, timeout_continuation, .. } => {
                let wp = path + ".When"@;
                let s1 = authorization_scan_cases(cases, wp, 0, max, rule, s);
                if auth_stopped(s1) {
                    s1
                } else {
                    authorization_scan(*timeout_continuation, wp + ".timeout_continuation"@, max, rule, s1)
                }
            },
            ContractV::Let { then, .. } => authorization_scan(*then, path + ".Let.then"@, max, rule, s),
            ContractV::Assert { then, .. } => authorization_scan(*then, path + ".Assert.then"@, max, rule, s),
            ContractV::Hole(n) => AuthScanV {
                unsupported: Some((path, "authorization_safety cannot analyze unresolved hole '?"@ + n + "'"@)),
                ..s
            },
        }
    }
}

/// The cases from position `i` on: each action is checked, then its continuation scanned.
pub open spec fn authorization_scan_cases(
    cases: Seq<CaseV>,
    wp: Seq<char>,
    i: nat,
    max: nat,
    rule: AuthorizationRuleV,
    s: AuthScanV,
) -> AuthScanV
    decreases cases, cases.len() - i,
{
    if i >= cases.len() || auth_stopped(s) {
        s
    } else {
        match cases[i as int] {
            CaseV::Case { action, then } => match authorization_violation(action, case_path(wp, i) + ".Case.action"@, rule) {
                Some(v) => AuthScanV { counterexample: Some(v), ..s },
                None => authorization_scan_cases(
                    cases,
                    wp,
                    i + 1,
                    max,
                    rule,
                    authorization_scan(*then, case_path(wp, i) + ".Case.then"@, max, rule, s),
                ),
            },
            CaseV::Hole(_) => authorization_scan_cases(cases, wp, i + 1, max, rule, s),
        }
    }
}

struct AuthScan {
    checked_nodes: usize,
    counterexample: Option<Counterexample>,
    unsupported: Option<(String, String)>,
}

impl View for AuthScan {
    type V = AuthScanV;

    closed spec fn view(&self) -> AuthScanV {
        AuthScanV {
            checked: self.checked_nodes as nat,
            counterexample: match self.counterexample {
                Some(c) => Some(c@),
                None => None,
            },
            unsupported: match self.unsupported {
                Some(u) => Some((u.0@, u.1@)),
                None => None,
            },
        }
    }
}

fn scan_authorization(c: &Contract, path: &str, max: usize, rule: &AuthorizationRule, s: &mut AuthScan)
    requires
        old(s).checked_nodes <= max,
    ensures
        final(s)@ == authorization_scan(c@, path@, max as nat, rule@, old(s)@),
        final(s).checked_nodes <= max,
    decreases c, 0nat,
{
    if s.counterexample.is_some() || s.unsupported.is_some() || s.checked_nodes >= max {
        return;
    }
    s.checked_nodes = s.checked_nodes + 1;
    match c {
        Contract::Close => {},
        Contract::Pay { then, .. } => scan_authorization(then, join(path, ".Pay.then").as_str(), max, rule, s),
        Contract::If { then, else_, .. } => {
            scan_authorization(then, join(path, ".If.then").as_str(), max, rule, s);
            scan_authorization(else_, join(path, ".If.else").as_str(), max, rule, s);
        },
        Contract::When { cases, timeout_continuation, .. } => {
            let wp = join(path, ".When");
            scan_authorization_cases(cases, wp.as_str(), max, rule, s);
            if s.counterexample.is_none() && s.unsupported.is_none() {
                scan_authorization(timeout_continuation, join(wp.as_str(), ".timeout_continuation").as_str(), max, rule, s);
            }
        },
        Contract::Let { then, .. } => scan_authorization(then, join(path, ".Let.then").as_str(), max, rule, s),
        Contract::Assert { then, .. } => scan_authorization(then, join(path, ".Assert.then").as_str(), max, rule, s),
        Contract::Hole(n) => {
            let reason = crate::parser::join3("authorization_safety cannot analyze unresolved hole '?", n.as_str(), "'");
            s.unsupported = Some((String::from_str(path), reason));
        },
    }
}

fn scan_authorization_cases(cases: &Vec<Case>, wp: &str, max: usize, rule: &AuthorizationRule, s: &mut AuthScan)
    requires
        old(s).checked_nodes <= max,
    ensures
        final(s)@ == authorization_scan_cases(crate::ast::cases_view(cases@), wp@, 0, max as nat, rule@, old(s)@),
        final(s).checked_nodes <= max,
    decreases cases, 1nat,
{
    let ghost cv = crate::ast::cases_view(cases@);
    proof { crate::ast::lemma_cases_view(cases@); }
    let mut i: usize = 0;
    while i < cases.len()
        invariant
            cv == crate::ast::cases_view(cases@),
            cv.len() == cases@.len(),
            forall|j: int| 0 <= j < cases@.len() ==> #[trigger] cv[j] == cases@[j]@,
            i <= cases@.len(),
            s.checked_nodes <= max,
            authorization_scan_cases(cv, wp@, 0, max as nat, rule@, old(s)@) == authorization_scan_cases(
                cv,
                wp@,
                i as nat,
                max as nat,
                rule@,
                s@,
            ),
        decreases cases@.len() - i,
    {
        if s.counterexample.is_some() || s.unsupported.is_some() {
            return;
        }
        assert(cv[i as int] == cases@[i as int]@);
        if let Case::Case { action, then } = &cases[i] {
            let base = case_path_text(wp, i);
            let action_path = join(base.as_str(), ".Case.action");
            match authorization_violation_for_action(action, action_path.as_str(), rule) {
                Some(v) => {
                    s.counterexample = Some(v);
                    return;
                },
                None => {
                    scan_authorization(then, join(base.as_str(), ".Case.then").as_str(), max, rule, s);
                },
            }
        }
        i = i + 1;
    }
}

/// What the authorization analysis concludes from its scan.
pub open spec fn authorization_result(s: AuthScanV) -> CounterexampleResultV {
    match s.unsupported {
        Some((p, reason)) => CounterexampleResultV::Unsupported { checked_nodes: s.checked, path: p, reason },
        None => match s.counterexample {
            Some(c) => CounterexampleResultV::CounterexampleFound { checked_nodes: s.checked, counterexample: c },
            None => CounterexampleResultV::PassBounded { checked_nodes: s.checked },
        },
    }
}

/// Checks, within the node budget, that only the rule's allowed parties
/// trigger the actions it governs.
pub fn analyze_authorization_safety(contract: &Contract, request: &CounterexampleRequest, rule: &AuthorizationRule) -> (r: CounterexampleResult)
    ensures
        r@ == authorization_result(
            authorization_scan(
                contract@,
                "$"@,
                request.max_nodes as nat,
                rule@,
                AuthScanV { checked: 0, counterexample: None, unsupported: None },
            ),
        ),
{
    let mut s = AuthScan { checked_nodes: 0, counterexample: None, unsupported: None };
    scan_authorization(contract, "$", request.max_nodes, rule, &mut s);
    let AuthScan { checked_nodes, counterexample, unsupported } = s;
    if let Some((path, reason)) = unsupported {
        return CounterexampleResult::Unsupported { checked_nodes, path, reason };
    }
    match counterexample {
        Some(c) => CounterexampleResult::CounterexampleFound { checked_nodes, counterexample: c },
        None => CounterexampleResult::PassBounded { checked_nodes },
    }
}

} // verus!

verus! {

/// A `replace_party` patch on an action: the party at `by` (of a deposit)
/// or at `id.party` (of a concrete choice) is replaced when its location is
/// the patch's path; the count says how many places changed.
pub open spec fn patch_action(
    a: ActionV,
    action_path: Seq<char>,
    patch: AutoRepairPatchV,
    replacement: Result<PartyV, Seq<char>>,
) -> Result<(ActionV, nat), Seq<char>> {
    if patch.kind != "replace_party"@ {
        Ok((a, 0))
    } else {
        match replacement {
            Err(e) => Err("invalid replacement party JSON: "@ + e),
            Ok(r) => match a {
                ActionV::Deposit { into, by, token, amount } => if action_path + ".Deposit.by"@ == patch.path {
                    Ok((ActionV::Deposit { into, by: r, token, amount }, 1))
                } else {
                    Ok((a, 0))
                },
                ActionV::Choice { id: ChoiceIdV::ChoiceId { name, party }, bounds } => if action_path + ".Choice.id.party"@
                    == patch.path {
                    Ok((ActionV::Choice { id: ChoiceIdV::ChoiceId { name, party: r }, bounds }, 1))
                } else {
                    Ok((a, 0))
                },
                _ => Ok((a, 0)),
            },
        }
    }
}

/// Applies a patch throughout a contract: a `set_contract` patch sets the
/// timeout continuation at its path to `Close` (the only value it takes),
/// a `replace_party` patch replaces parties in actions; the count says how
/// many places changed.
pub open spec fn patch_contract(
    c: ContractV,
    path: Seq<char>,
    patch: AutoRepairPatchV,
    replacement: Result<PartyV, Seq<char>>,
) -> Result<(ContractV, nat), Seq<char>>
    decreases c, 0nat,
{
    match c {
        ContractV::Close | ContractV::Hole(_) => Ok((c, 0)),
        ContractV::Pay { from, to, token, amount, then } => match patch_contract(*then, path + ".Pay.then"@, patch, replacement) {
            Err(e) => Err(e),
            Ok((t, n)) => Ok((ContractV::Pay { from, to, token, amount, then: Box::new(t) }, n)),
        },
        ContractV::If { cond, then, else_ } => match patch_contract(*then, path + ".If.then"@, patch, replacement) {
            Err(e) => Err(e),
            Ok((t, n1)) => match patch_contract(*else_, path + ".If.else"@, patch, replacement) {
                Err(e) => Err(e),
                Ok((f, n2)) => Ok((ContractV::If { cond, then: Box::new(t), else_: Box::new(f) }, n1 + n2)),
            },
        },
        ContractV::When { cases, timeout, timeout_continuation } => {
            let wp = path + ".When"@;
            let tcp = wp + ".timeout_continuation"@;
            let k = patch_continuation(*timeout_continuation, tcp, patch, replacement);
            match k {
                Err(e) => Err(e),
                Ok((k, n1)) => match patch_cases(cases, wp, 0, patch, replacement) {
                    Err(e) => Err(e),
                    Ok((cs, n2)) => Ok((ContractV::When { cases: cs, timeout, timeout_continuation: Box::new(k) }, n1 + n2)),
                },
            }
        },
        ContractV::Let { name, value, then } => match patch_contract(*then, path + ".Let.then"@, patch, replacement) {
            Err(e) => Err(e),
            Ok((t, n)) => Ok((ContractV::Let { name, value, then: Box::new(t) }, n)),
        },
        ContractV::Assert { cond, then } => match patch_contract(*then, path + ".Assert.then"@, patch, replacement) {
            Err(e) => Err(e),
            Ok((t, n)) => Ok((ContractV::Assert { cond, then: Box::new(t) }, n)),
        },
    }
}

/// The timeout continuation at `tcp`: set to `Close` by a `set_contract`
/// patch at that path, otherwise patched throughout.
pub open spec fn patch_continuation(
    k: ContractV,
    tcp: Seq<char>,
    patch: AutoRepairPatchV,
    replacement: Result<PartyV, Seq<char>>,
) -> Result<(ContractV, nat), Seq<char>>
    decreases k, 1nat,
{
    if patch.kind == "set_contract"@ && tcp == patch.path {
        if trim_end(trim_start(patch.value)) != "{ Close: {} }"@ {
            Err("unsupported set_contract value for timeout continuation: "@ + patch.value)
        } else {
            Ok((ContractV::Close, 1nat))
        }
    } else {
        patch_contract(k, tcp, patch, replacement)
    }
}

/// The cases from position `i` on, each action patched, then its continuation.
pub open spec fn patch_cases(
    cases: Seq<CaseV>,
    wp: Seq<char>,
    i: nat,
    patch: AutoRepairPatchV,
    replacement: Result<PartyV, Seq<char>>,
) -> Result<(Seq<CaseV>, nat), Seq<char>>
    decreases cases, cases.len() - i,
{
    if i >= cases.len() {
        Ok((Seq::empty(), 0))
    } else {
        match cases[i as int] {
            CaseV::Hole(_) => match patch_cases(cases, wp, i + 1, patch, replacement) {
                Err(e) => Err(e),
                Ok((rest, n)) => Ok((seq![cases[i as int]] + rest, n)),
            },
            CaseV::Case { action, then } => match patch_action(action, case_path(wp, i) + ".Case.action"@, patch, replacement) {
                Err(e) => Err(e),
                Ok((a, n1)) => match patch_contract(*then, case_path(wp, i) + ".Case.then"@, patch, replacement) {
                    Err(e) => Err(e),
                    Ok((t, n2)) => match patch_cases(cases, wp, i + 1, patch, replacement) {
                        Err(e) => Err(e),
                        Ok((rest, n3)) => Ok((seq![CaseV::Case { action: a, then: Box::new(t) }] + rest, n1 + n2 + n3)),
                    },
                },
            },
        }
    }
}

/// A patch applies when it changes exactly one place.
pub open spec fn repaired(c: ContractV, patch: AutoRepairPatchV, replacement: Result<PartyV, Seq<char>>) -> Result<ContractV, Seq<char>> {
    match patch_contract(c, "$"@, patch, replacement) {
        Err(e) => Err(e),
        Ok((k, n)) => if n == 0 {
            Err("patch path was not found: "@ + patch.path)
        } else if n > 1 {
            Err("patch path matched multiple locations ("@ + nat_decimal(n) + "): "@ + patch.path)
        } else {
            Ok(k)
        },
    }
}

} // verus!

verus! {

fn trimmed_text(s: &str) -> (r: Vec<char>)
    ensures
        r@ == trim_end(trim_start(s@)),
{
    let chars = crate::text::text_chars(s);
    let ghost all = chars@;
    let end = chars.len();
    let mut start: usize = 0;
    assert(all.subrange(0, end as int) =~= all);
    while start < end && is_white_space_char(chars[start])
        invariant
            all == chars@,
            end == all.len(),
            start <= end,
            trim_start(all) == trim_start(all.subrange(start as int, end as int)),
        decreases end - start,
    {
        assert(all.subrange(start as int, end as int).drop_first() =~= all.subrange(start + 1, end as int));
        start = start + 1;
    }
    let ghost mid = all.subrange(start as int, end as int);
    assert(trim_start(mid) == mid);
    let mut stop: usize = end;
    while stop > start && is_white_space_char(chars[stop - 1])
        invariant
            all == chars@,
            end == all.len(),
            start <= stop <= end,
            trim_end(mid) == trim_end(all.subrange(start as int, stop as int)),
        decreases stop - start,
    {
        assert(all.subrange(start as int, stop as int).drop_last() =~= all.subrange(start as int, stop - 1));
        stop = stop - 1;
    }
    let mut r: Vec<char> = Vec::new();
    let mut k: usize = start;
    while k < stop
        invariant
            all == chars@,
            start <= k <= stop <= all.len(),
            r@ == all.subrange(start as int, k as int),
        decreases stop - k,
    {
        r.push(chars[k]);
        k = k + 1;
        assert(r@ =~= all.subrange(start as int, k as int));
    }
    r
}

/// A patch outcome with its count of changed places.
pub open spec fn counted<T: View>(r: Result<(T, Integer), String>) -> Result<(T::V, nat), Seq<char>> {
    match r {
        Ok((x, n)) => Ok((x@, n@ as nat)),
        Err(e) => Err(e@),
    }
}

pub open spec fn count_ok<T>(r: Result<(T, Integer), String>) -> bool {
    r matches Ok((_, n)) ==> n@ >= 0
}

fn patch_action_of(a: &Action, action_path: &str, patch: &AutoRepairPatch, replacement: &Result<Party, String>) -> (r: Result<(Action, Integer), String>)
    ensures
        count_ok(r),
        counted(r) == patch_action(a@, action_path@, patch@, match replacement {
            Ok(p) => Ok(p@),
            Err(e) => Err(e@),
        }),
{
    if !crate::text::same_text(patch.kind, "replace_party") {
        return Ok((a.duplicate(), Integer::zero()));
    }
    let party = match replacement {
        Err(e) => {
            return Err(join("invalid replacement party JSON: ", e.as_str()));
        },
        Ok(p) => p,
    };
    match a {
        Action::Deposit { into, by, token, amount } => {
            let by_path = join(action_path, ".Deposit.by");
            if crate::text::same_text(by_path.as_str(), patch.path.as_str()) {
                Ok((
                    Action::Deposit { into: into.duplicate(), by: party.duplicate(), token: token.duplicate(), amount: amount.duplicate() },
                    Integer::from_u64(1),
                ))
            } else {
                Ok((a.duplicate(), Integer::zero()))
            }
        },
        Action::Choice { id: ChoiceId::ChoiceId { name, .. }, bounds } => {
            let party_path = join(action_path, ".Choice.id.party");
            if crate::text::same_text(party_path.as_str(), patch.path.as_str()) {
                Ok((
                    Action::Choice {
                        id: ChoiceId::ChoiceId { name: name.clone(), party: party.duplicate() },
                        bounds: crate::ast::duplicate_bounds(bounds),
                    },
                    Integer::from_u64(1),
                ))
            } else {
                Ok((a.duplicate(), Integer::zero()))
            }
        },
        _ => Ok((a.duplicate(), Integer::zero())),
    }
}

pub open spec fn replacement_view(r: Result<Party, String>) -> Result<PartyV, Seq<char>> {
    match r {
        Ok(p) => Ok(p@),
        Err(e) => Err(e@),
    }
}

fn patch_continuation_of(
    k: &Contract,
    tcp: &str,
    patch: &AutoRepairPatch,
    replacement: &Result<Party, String>,
) -> (r: Result<(Contract, Integer), String>)
    ensures
        count_ok(r),
        counted(r) == patch_continuation(k@, tcp@, patch@, replacement_view(*replacement)),
    decreases k, 3nat,
{
    if crate::text::same_text(patch.kind, "set_contract") && crate::text::same_text(tcp, patch.path.as_str()) {
        let v = trimmed_text(patch.value.as_str());
        let close = crate::text::text_chars("{ Close: {} }");
        if !same_chars(&v, &close) {
            return Err(join("unsupported set_contract value for timeout continuation: ", patch.value.as_str()));
        }
        Ok((Contract::Close, Integer::from_u64(1)))
    } else {
        patch_contract_of(k, tcp, patch, replacement)
    }
}

fn patch_when_of(
    c: &Contract,
    path: &str,
    patch: &AutoRepairPatch,
    replacement: &Result<Party, String>,
) -> (r: Result<(Contract, Integer), String>)
    requires
        c is When,
    ensures
        count_ok(r),
        counted(r) == patch_contract(c@, path@, patch@, replacement_view(*replacement)),
    decreases c, 1nat,
{
    match c {
        Contract::When { cases, timeout, timeout_continuation } => {
            let wp = join(path, ".When");
            let tcp = join(wp.as_str(), ".timeout_continuation");
            let k = match patch_continuation_of(timeout_continuation, tcp.as_str(), patch, replacement) {
                Ok(k) => k,
                Err(e) => {
                    return Err(e);
                },
            };
            let (k, n1) = k;
            match patch_cases_of(cases, wp.as_str(), patch, replacement) {
                Err(e) => Err(e),
                Ok((cs, n2)) => Ok(
                    (Contract::When { cases: cs, timeout: timeout.duplicate(), timeout_continuation: Box::new(k) }, n1.add(&n2)),
                ),
            }
        },
        _ => Err(String::new()),
    }
}

fn patch_contract_of(c: &Contract, path: &str, patch: &AutoRepairPatch, replacement: &Result<Party, String>) -> (r: Result<(Contract, Integer), String>)
    ensures
        count_ok(r),
        counted(r) == patch_contract(c@, path@, patch@, replacement_view(*replacement)),
    decreases c, 2nat,
{
    match c {
        Contract::Close => Ok((Contract::Close, Integer::zero())),
        Contract::Hole(n) => Ok((Contract::Hole(n.clone()), Integer::zero())),
        Contract::Pay { from, to, token, amount, then } => match patch_contract_of(then, join(path, ".Pay.then").as_str(), patch, replacement) {
            Err(e) => Err(e),
            Ok((t, n)) => Ok(
                (
                    Contract::Pay {
                        from: from.duplicate(),
                        to: to.duplicate(),
                        token: token.duplicate(),
                        amount: amount.duplicate(),
                        then: Box::new(t),
                    },
                    n,
                ),
            ),
        },
        Contract::If { cond, then, else_ } => match patch_contract_of(then, join(path, ".If.then").as_str(), patch, replacement) {
            Err(e) => Err(e),
            Ok((t, n1)) => match patch_contract_of(else_, join(path, ".If.else").as_str(), patch, replacement) {
                Err(e) => Err(e),
                Ok((f, n2)) => Ok((Contract::If { cond: cond.duplicate(), then: Box::new(t), else_: Box::new(f) }, n1.add(&n2))),
            },
        },
        Contract::When { .. } => patch_when_of(c, path, patch, replacement),
        Contract::Let { name, value, then } => match patch_contract_of(then, join(path, ".Let.then").as_str(), patch, replacement) {
            Err(e) => Err(e),
            Ok((t, n)) => Ok((Contract::Let { name: name.clone(), value: value.duplicate(), then: Box::new(t) }, n)),
        },
        Contract::Assert { cond, then } => match patch_contract_of(then, join(path, ".Assert.then").as_str(), patch, replacement) {
            Err(e) => Err(e),
            Ok((t, n)) => Ok((Contract::Assert { cond: cond.duplicate(), then: Box::new(t) }, n)),
        },
    }
}

pub open spec fn after_prefix(prefix: Seq<CaseV>, n: nat, r: Result<(Seq<CaseV>, nat), Seq<char>>) -> Result<(Seq<CaseV>, nat), Seq<char>> {
    match r {
        Err(e) => Err(e),
        Ok((rest, m)) => Ok((prefix + rest, n + m)),
    }
}

fn patch_cases_of(cases: &Vec<Case>, wp: &str, patch: &AutoRepairPatch, replacement: &Result<Party, String>) -> (r: Result<(Vec<Case>, Integer), String>)
    ensures
        match r {
            Ok((cs, n)) => n@ >= 0 && patch_cases(crate::ast::cases_view(cases@), wp@, 0, patch@, replacement_view(*replacement))
                == Ok::<(Seq<CaseV>, nat), Seq<char>>((crate::ast::cases_view(cs@), n@ as nat)),
            Err(e) => patch_cases(crate::ast::cases_view(cases@), wp@, 0, patch@, replacement_view(*replacement)) == Err::<
                (Seq<CaseV>, nat),
                Seq<char>,
            >(e@),
        },
    decreases cases, 1nat,
{
    let ghost cv = crate::ast::cases_view(cases@);
    let ghost rv = replacement_view(*replacement);
    proof { crate::ast::lemma_cases_view(cases@); }
    let mut out: Vec<Case> = Vec::new();
    let mut count = Integer::zero();
    proof {
        crate::ast::lemma_cases_view(out@);
        if let Ok((rest, m)) = patch_cases(cv, wp@, 0, patch@, rv) {
            assert(Seq::<CaseV>::empty() + rest =~= rest);
        }
    }
    let mut i: usize = 0;
    while i < cases.len()
        invariant
            cv == crate::ast::cases_view(cases@),
            rv == replacement_view(*replacement),
            cv.len() == cases@.len(),
            forall|j: int| 0 <= j < cases@.len() ==> #[trigger] cv[j] == cases@[j]@,
            i <= cases@.len(),
            count@ >= 0,
            patch_cases(cv, wp@, 0, patch@, rv) == after_prefix(
                crate::ast::cases_view(out@),
                count@ as nat,
                patch_cases(cv, wp@, i as nat, patch@, rv),
            ),
        decreases cases@.len() - i,
    {
        assert(cv[i as int] == cases@[i as int]@);
        let ghost prefix = crate::ast::cases_view(out@);
        match &cases[i] {
            Case::Hole(_) => {
                let c = cases[i].duplicate();
                proof { crate::ast::lemma_cases_view_push(out@, c); }
                out.push(c);
                proof {
                    if let Ok((rest, m)) = patch_cases(cv, wp@, (i + 1) as nat, patch@, rv) {
                        assert(prefix + (seq![cv[i as int]] + rest) =~= prefix.push(cv[i as int]) + rest);
                    }
                }
            },
            Case::Case { action, then } => {
                let base = case_path_text(wp, i);
                let (a, n1) = patch_action_of(action, join(base.as_str(), ".Case.action").as_str(), patch, replacement)?;
                let (t, n2) = patch_contract_of(then, join(base.as_str(), ".Case.then").as_str(), patch, replacement)?;
                let c = Case::Case { action: a, then: Box::new(t) };
                let ghost cw = c@;
                proof { crate::ast::lemma_cases_view_push(out@, c); }
                out.push(c);
                let ghost before = count@;
                count = count.add(&n1.add(&n2));
                proof {
                    if let Ok((rest, m)) = patch_cases(cv, wp@, (i + 1) as nat, patch@, rv) {
                        assert(prefix + (seq![cw] + rest) =~= prefix.push(cw) + rest);
                    }
                }
            },
        }
        i = i + 1;
    }
    proof {
        assert(patch_cases(cv, wp@, i as nat, patch@, rv) == Ok::<(Seq<CaseV>, nat), Seq<char>>((Seq::<CaseV>::empty(), 0nat)));
        assert(crate::ast::cases_view(out@) + Seq::<CaseV>::empty() =~= crate::ast::cases_view(out@));
    }
    Ok((out, count))
}

/// Applies a repair patch; the outcome of reading a `replace_party` patch's
/// party from its JSON value is given by the caller.
pub fn apply_auto_repair_patch(contract: &Contract, patch: &AutoRepairPatch, replacement: &Result<Party, String>) -> (r: Result<Contract, String>)
    ensures
        match r {
            Ok(c) => repaired(contract@, patch@, replacement_view(*replacement)) == Ok::<ContractV, Seq<char>>(c@),
            Err(e) => repaired(contract@, patch@, replacement_view(*replacement)) == Err::<ContractV, Seq<char>>(e@),
        },
{
    let (updated, changed) = patch_contract_of(contract, "$", patch, replacement)?;
    let one = Integer::from_u64(1);
    if changed.equals(&Integer::zero()) {
        return Err(join("patch path was not found: ", patch.path.as_str()));
    }
    if one.lt(&changed) {
        let mut m = String::from_str("patch path matched multiple locations (");
        m.append(changed.to_decimal().as_str());
        m.append("): ");
        m.append(patch.path.as_str());
        return Err(m);
    }
    Ok(updated)
}

} // verus!

verus! {

/// Every timeout continuation on the way is `Close`, and there is no hole
/// where the scan goes.
pub open spec fn closes_on_timeout(c: ContractV) -> bool
    decreases c, 0nat,
{
    match c {
        ContractV::Hole(_) => false,
        ContractV::Close => true,
        ContractV::Pay { then, .. } => closes_on_timeout(*then),
        ContractV::If { then, else_, .. } => closes_on_timeout(*then) && closes_on_timeout(*else_),
        ContractV::When { cases, timeout_continuation, .. } => *timeout_continuation is Close && cases_close_on_timeout(cases, 0),
        ContractV::Let { then, .. } => closes_on_timeout(*then),
        ContractV::Assert { then, .. } => closes_on_timeout(*then),
    }
}

pub open spec fn cases_close_on_timeout(cases: Seq<CaseV>, i: nat) -> bool
    decreases cases, cases.len() - i,
{
    if i >= cases.len() {
        true
    } else {
        (match cases[i as int] {
            CaseV::Case { then, .. } => closes_on_timeout(*then),
            CaseV::Hole(_) => true,
        }) && cases_close_on_timeout(cases, i + 1)
    }
}

proof fn lemma_scan_stays_clear(c: ContractV, path: Seq<char>, max: nat, s: ScanV)
    requires
        closes_on_timeout(c),
        !scan_stopped(s),
    ensures
        !scan_stopped(deadline_scan(c, path, max, s)),
    decreases c, 0nat,
{
    if s.checked < max {
        let s1 = ScanV { checked: s.checked + 1, ..s };
        match c {
            ContractV::Pay { then, .. } => lemma_scan_stays_clear(*then, path + ".Pay.then"@, max, s1),
            ContractV::If { then, else_, .. } => {
                lemma_scan_stays_clear(*then, path + ".If.then"@, max, s1);
                lemma_scan_stays_clear(*else_, path + ".If.else"@, max, deadline_scan(*then, path + ".If.then"@, max, s1));
            },
            ContractV::When { cases, timeout_continuation, .. } => {
                lemma_scan_cases_stay_clear(cases, path + ".When"@, 0, max, s1);
                lemma_scan_stays_clear(
                    *timeout_continuation,
                    path + ".When"@ + ".timeout_continuation"@,
                    max,
                    deadline_scan_cases(cases, path + ".When"@, 0, max, s1),
                );
            },
            ContractV::Let { then, .. } => lemma_scan_stays_clear(*then, path + ".Let.then"@, max, s1),
            ContractV::Assert { then, .. } => lemma_scan_stays_clear(*then, path + ".Assert.then"@, max, s1),
            _ => {},
        }
    }
}

proof fn lemma_scan_cases_stay_clear(cases: Seq<CaseV>, wp: Seq<char>, i: nat, max: nat, s: ScanV)
    requires
        cases_close_on_timeout(cases, i),
        !scan_stopped(s),
    ensures
        !scan_stopped(deadline_scan_cases(cases, wp, i, max, s)),
    decreases cases, cases.len() - i,
{
    if i < cases.len() {
        match cases[i as int] {
            CaseV::Case { then, .. } => {
                lemma_scan_stays_clear(*then, case_path(wp, i) + ".Case.then"@, max, s);
                lemma_scan_cases_stay_clear(
                    cases,
                    wp,
                    i + 1,
                    max,
                    deadline_scan(*then, case_path(wp, i) + ".Case.then"@, max, s),
                );
            },
            CaseV::Hole(_) => lemma_scan_cases_stay_clear(cases, wp, i + 1, max, s),
        }
    }
}

/// A contract whose every timeout leads to `Close` (and that has no hole
/// where the analysis goes) passes deadline safety, whatever the budget.
pub proof fn lemma_deadline_safe_passes(c: ContractV, max: nat)
    requires
        closes_on_timeout(c),
    ensures
        deadline_plan(deadline_scan(c, "$"@, max, ScanV { checked: 0, candidate: None, unsupported: None })) is Done,
        deadline_plan(deadline_scan(c, "$"@, max, ScanV { checked: 0, candidate: None, unsupported: None }))->Done_0 is PassBounded,
{
    lemma_scan_stays_clear(c, "$"@, max, ScanV { checked: 0, candidate: None, unsupported: None });
}

/// An authorization counterexample's offending party is never one of the
/// rule's allowed parties.
pub open spec fn offender_outside(rule: AuthorizationRuleV, s: AuthScanV) -> bool {
    s.counterexample matches Some(cx) ==> (cx.offending_party matches Some(p) ==> !rule.allowed_parties.contains(p))
}

proof fn lemma_authorization_offender(c: ContractV, path: Seq<char>, max: nat, rule: AuthorizationRuleV, s: AuthScanV)
    requires
        offender_outside(rule, s),
    ensures
        offender_outside(rule, authorization_scan(c, path, max, rule, s)),
    decreases c, 0nat,
{
    if !auth_stopped(s) && s.checked < max {
        let s1 = AuthScanV { checked: s.checked + 1, ..s };
        match c {
            ContractV::Pay { then, .. } => lemma_authorization_offender(*then, path + ".Pay.then"@, max, rule, s1),
            ContractV::If { then, else_, .. } => {
                lemma_authorization_offender(*then, path + ".If.then"@, max, rule, s1);
                lemma_authorization_offender(
                    *else_,
                    path + ".If.else"@,
                    max,
                    rule,
                    authorization_scan(*then, path + ".If.then"@, max, rule, s1),
                );
            },
            ContractV::When { cases, timeout_continuation, .. } => {
                lemma_authorization_cases_offender(cases, path + ".When"@, 0, max, rule, s1);
                lemma_authorization_offender(
                    *timeout_continuation,
                    path + ".When"@ + ".timeout_continuation"@,
                    max,
                    rule,
                    authorization_scan_cases(cases, path + ".When"@, 0, max, rule, s1),
                );
            },
            ContractV::Let { then, .. } => lemma_authorization_offender(*then, path + ".Let.then"@, max, rule, s1),
            ContractV::Assert { then, .. } => lemma_authorization_offender(*then, path + ".Assert.then"@, max, rule, s1),
            _ => {},
        }
    }
}

proof fn lemma_authorization_cases_offender(
    cases: Seq<CaseV>,
    wp: Seq<char>,
    i: nat,
    max: nat,
    rule: AuthorizationRuleV,
    s: AuthScanV,
)
    requires
        offender_outside(rule, s),
    ensures
        offender_outside(rule, authorization_scan_cases(cases, wp, i, max, rule, s)),
    decreases cases, cases.len() - i,
{
    if i < cases.len() && !auth_stopped(s) {
        match cases[i as int] {
            CaseV::Case { action, then } => {
                let p = case_path(wp, i) + ".Case.then"@;
                lemma_authorization_offender(*then, p, max, rule, s);
                lemma_authorization_cases_offender(cases, wp, i + 1, max, rule, authorization_scan(*then, p, max, rule, s));
            },
            CaseV::Hole(_) => lemma_authorization_cases_offender(cases, wp, i + 1, max, rule, s),
        }
    }
}

/// When authorization analysis finds a counterexample with an offending
/// party, that party is not among the rule's allowed parties.
pub proof fn lemma_offender_not_allowed(c: ContractV, max: nat, rule: AuthorizationRuleV)
    ensures
        authorization_result(authorization_scan(c, "$"@, max, rule, AuthScanV { checked: 0, counterexample: None, unsupported: None }))
            matches CounterexampleResultV::CounterexampleFound { counterexample, .. } ==> (counterexample.offending_party matches Some(
            p,
        ) ==> !rule.allowed_parties.contains(p)),
{
    lemma_authorization_offender(c, "$"@, max, rule, AuthScanV { checked: 0, counterexample: None, unsupported: None });
}

} // verus!
