//! What the simulator's building blocks mean, stated over all inputs: the
//! arithmetic of values, which choice values a case accepts, and that what a
//! preview offers is what applying the input does.
use crate::ast::{ActionV, BoundV, CaseV, ChoiceIdV, ContractV, ObservationV, PartyV, TokenV, ValueV};
use crate::keys::AccountIdV;
use crate::sim::{apply_case_spec, eval_observation_spec, eval_value_spec, preview_case_spec, EnvV, PreviewInputV, SimInputV, SimStateV};
use vstd::prelude::*;

verus! {

/// Values are integer arithmetic: a constant is itself; `Add`, `Sub`, `Mul`
/// and `Neg` are the sum, the first operand minus the second, the product
/// and the negation; `Abs` is the absolute value; subtracting is adding the
/// negation, and subtracting zero changes nothing.
pub proof fn lemma_value_arithmetic(st: SimStateV, env: EnvV, a: ValueV, b: ValueV, x: int)
    ensures
        eval_value_spec(st, env, ValueV::Constant(x)) == x,
        eval_value_spec(st, env, ValueV::Add(Box::new(a), Box::new(b))) == eval_value_spec(st, env, a) + eval_value_spec(st, env, b),
        eval_value_spec(st, env, ValueV::Sub(Box::new(a), Box::new(b))) == eval_value_spec(st, env, a) - eval_value_spec(st, env, b),
        eval_value_spec(st, env, ValueV::Mul(Box::new(a), Box::new(b))) == eval_value_spec(st, env, a) * eval_value_spec(st, env, b),
        eval_value_spec(st, env, ValueV::Neg(Box::new(a))) == -eval_value_spec(st, env, a),
        eval_value_spec(st, env, ValueV::Abs(Box::new(a))) >= 0,
        eval_value_spec(st, env, ValueV::Abs(Box::new(a))) == eval_value_spec(st, env, a)
            || eval_value_spec(st, env, ValueV::Abs(Box::new(a))) == -eval_value_spec(st, env, a),
        eval_value_spec(st, env, ValueV::Sub(Box::new(a), Box::new(b))) == eval_value_spec(
            st,
            env,
            ValueV::Add(Box::new(a), Box::new(ValueV::Neg(Box::new(b)))),
        ),
        eval_value_spec(st, env, ValueV::Sub(Box::new(a), Box::new(ValueV::Constant(0)))) == eval_value_spec(st, env, a),
{
    assert(eval_value_spec(st, env, ValueV::Constant(0)) == 0);
    assert(eval_value_spec(st, env, ValueV::Neg(Box::new(b))) == -eval_value_spec(st, env, b));
    let v = eval_value_spec(st, env, a);
    assert(eval_value_spec(st, env, ValueV::Abs(Box::new(a))) == if v < 0 { -v } else { v });
}

/// Division truncates toward zero, and dividing by zero gives zero: the
/// quotient's magnitude is the number of whole divisors in the dividend's
/// magnitude, and it is negative only when the signs differ.
pub proof fn lemma_value_division(st: SimStateV, env: EnvV, a: ValueV, b: ValueV)
    ensures
        ({
            let x = eval_value_spec(st, env, a);
            let y = eval_value_spec(st, env, b);
            let q = eval_value_spec(st, env, ValueV::Div(Box::new(a), Box::new(b)));
            let ax = if x < 0 { -x } else { x };
            let ay = if y < 0 { -y } else { y };
            let aq = if q < 0 { -q } else { q };
            &&& y == 0 ==> q == 0
            &&& y != 0 ==> aq * ay <= ax && ax < (aq + 1) * ay
            &&& y != 0 && ((x < 0) == (y < 0)) ==> q >= 0
            &&& y != 0 && ((x < 0) != (y < 0)) ==> q <= 0
        }),
{
    let x = eval_value_spec(st, env, a);
    let y = eval_value_spec(st, env, b);
    if y != 0 {
        let ax: int = if x < 0 { -x } else { x };
        let ay: int = if y < 0 { -y } else { y };
        vstd::arithmetic::div_mod::lemma_fundamental_div_mod(ax, ay);
        vstd::arithmetic::div_mod::lemma_mod_bound(ax, ay);
        vstd::arithmetic::div_mod::lemma_div_pos_is_pos(ax, ay);
        let d = ax / ay;
        assert(d * ay <= ax && ax < (d + 1) * ay) by (nonlinear_arith)
            requires
                ax == ay * d + ax % ay,
                0 <= ax % ay < ay,
        ;
    }
}

/// A choice is accepted by a `Choice` case with the same id exactly when
/// its value lies within one of the case's bounds whose ends are constants,
/// ends included; the choice is then recorded and the case's continuation
/// follows.
pub proof fn lemma_choice_accepted_within_bounds(
    env: EnvV,
    st: SimStateV,
    id: ChoiceIdV,
    bounds: Seq<BoundV>,
    then: ContractV,
    value: int,
)
    ensures
        ({
            let r = apply_case_spec(
                env,
                st,
                CaseV::Case { action: ActionV::Choice { id, bounds }, then: Box::new(then) },
                SimInputV::Choice { id, value },
            );
            &&& r is Some <==> exists|i: int|
                0 <= i < bounds.len() && (#[trigger] bounds[i] matches BoundV::Bound {
                    from: ValueV::Constant(lo),
                    to: ValueV::Constant(hi),
                } && lo <= value && value <= hi)
            &&& r matches Some(a) ==> a.state.choices == st.choices.insert(id, value) && a.contract == then
                && a.state.accounts == st.accounts
        }),
{
    reveal(apply_case_spec);
    let r = apply_case_spec(
        env,
        st,
        CaseV::Case { action: ActionV::Choice { id, bounds }, then: Box::new(then) },
        SimInputV::Choice { id, value },
    );
    if r is Some {
        let i = choose|i: int| 0 <= i < bounds.len() && #[trigger] crate::sim::bound_admits(bounds[i], value);
        assert(0 <= i < bounds.len() && (bounds[i] matches BoundV::Bound {
            from: ValueV::Constant(lo),
            to: ValueV::Constant(hi),
        } && lo <= value && value <= hi));
    }
    if exists|i: int|
        0 <= i < bounds.len() && (#[trigger] bounds[i] matches BoundV::Bound {
            from: ValueV::Constant(lo),
            to: ValueV::Constant(hi),
        } && lo <= value && value <= hi) {
        let i = choose|i: int|
            0 <= i < bounds.len() && (#[trigger] bounds[i] matches BoundV::Bound {
                from: ValueV::Constant(lo),
                to: ValueV::Constant(hi),
            } && lo <= value && value <= hi);
        assert(crate::sim::bound_admits(bounds[i], value));
    }
}

/// What a preview offers for a case is what applying the input does: a
/// `Notify` case is previewed as able to notify exactly when a `Notify`
/// input is accepted by it, a deposit case offers the amount that a deposit
/// must carry to be accepted, and a choice case offers its constant ranges.
pub proof fn lemma_preview_agrees_with_application(env: EnvV, st: SimStateV, case: CaseV)
    ensures
        preview_case_spec(case, st, env) matches Some(PreviewInputV::Notify { can_notify }) ==> (can_notify <==> apply_case_spec(
            env,
            st,
            case,
            SimInputV::Notify,
        ) is Some),
        preview_case_spec(case, st, env) matches Some(PreviewInputV::Deposit { into, by, token, amount })
            ==> apply_case_spec(env, st, case, SimInputV::Deposit { into, by, token, amount }) is Some,
        case matches CaseV::Case { action: ActionV::Notify { if_ }, .. } ==> preview_case_spec(case, st, env) == Some(
            PreviewInputV::Notify { can_notify: eval_observation_spec(st, env, if_) },
        ),
        case matches CaseV::Case { action: ActionV::Notify { if_: ObservationV::False }, .. } ==> preview_case_spec(
            case,
            st,
            env,
        ) == Some(PreviewInputV::Notify { can_notify: false }),
        case matches CaseV::Case { action: ActionV::Notify { if_: ObservationV::True }, .. } ==> preview_case_spec(
            case,
            st,
            env,
        ) == Some(PreviewInputV::Notify { can_notify: true }),
{
    reveal(apply_case_spec);
}

/// What values read from the state and the interval: the interval's ends,
/// an account's balance, a choice made, a bound name's value, each zero when
/// absent.
pub proof fn lemma_value_reads(st: SimStateV, env: EnvV, owner: PartyV, token: TokenV, id: ChoiceIdV, name: Seq<char>)
    ensures
        eval_value_spec(st, env, ValueV::TimeIntervalStart) == env.start,
        eval_value_spec(st, env, ValueV::TimeIntervalEnd) == env.end,
        eval_value_spec(st, env, ValueV::AvailableMoney { account: owner, token }) == if st.accounts.dom().contains(
            AccountIdV { owner, token },
        ) {
            st.accounts[AccountIdV { owner, token }]
        } else {
            0
        },
        eval_value_spec(st, env, ValueV::ValueFromChoice(id)) == if st.choices.dom().contains(id) {
            st.choices[id]
        } else {
            0
        },
        eval_value_spec(st, env, ValueV::UseValue(name)) == if st.bound_values.dom().contains(name) {
            st.bound_values[name]
        } else {
            0
        },
{
}

/// Observations are boolean logic over values and choices: `True` and
/// `False` are constants, `And`, `Or` and `Not` are conjunction,
/// disjunction and negation, the comparisons compare the two values in the
/// order written, and `ChoseSomething` holds when the choice was made.
pub proof fn lemma_observation_logic(st: SimStateV, env: EnvV, o: ObservationV, p: ObservationV, a: ValueV, b: ValueV, id: ChoiceIdV)
    ensures
        eval_observation_spec(st, env, ObservationV::True),
        !eval_observation_spec(st, env, ObservationV::False),
        eval_observation_spec(st, env, ObservationV::And(Box::new(o), Box::new(p))) == (eval_observation_spec(st, env, o)
            && eval_observation_spec(st, env, p)),
        eval_observation_spec(st, env, ObservationV::Or(Box::new(o), Box::new(p))) == (eval_observation_spec(st, env, o)
            || eval_observation_spec(st, env, p)),
        eval_observation_spec(st, env, ObservationV::Not(Box::new(o))) == !eval_observation_spec(st, env, o),
        eval_observation_spec(st, env, ObservationV::ValueGE(a, b)) == (eval_value_spec(st, env, a) >= eval_value_spec(st, env, b)),
        eval_observation_spec(st, env, ObservationV::ValueGT(a, b)) == (eval_value_spec(st, env, a) > eval_value_spec(st, env, b)),
        eval_observation_spec(st, env, ObservationV::ValueLT(a, b)) == (eval_value_spec(st, env, a) < eval_value_spec(st, env, b)),
        eval_observation_spec(st, env, ObservationV::ValueLE(a, b)) == (eval_value_spec(st, env, a) <= eval_value_spec(st, env, b)),
        eval_observation_spec(st, env, ObservationV::ValueEQ(a, b)) == (eval_value_spec(st, env, a) == eval_value_spec(st, env, b)),
        eval_observation_spec(st, env, ObservationV::ChoseSomething(id)) == st.choices.dom().contains(id),
{
}

/// A deposit is accepted by a `Deposit` case exactly when it names the same
/// account, depositor and token and carries the amount the case asks for;
/// the amount, when positive, is then added to that account (which is
/// opened if need be), nothing else changes, and the case's continuation
/// follows.
pub proof fn lemma_deposit_accepted(
    env: EnvV,
    st: SimStateV,
    into: PartyV,
    by: PartyV,
    token: TokenV,
    amount: ValueV,
    then: ContractV,
    input_into: PartyV,
    input_by: PartyV,
    input_token: TokenV,
    n: int,
)
    ensures
        ({
            let k = AccountIdV { owner: into, token };
            let r = apply_case_spec(
                env,
                st,
                CaseV::Case { action: ActionV::Deposit { into, by, token, amount }, then: Box::new(then) },
                SimInputV::Deposit { into: input_into, by: input_by, token: input_token, amount: n },
            );
            &&& r is Some <==> (input_into == into && input_by == by && input_token == token && n == eval_value_spec(
                st,
                env,
                amount,
            ))
            &&& r matches Some(a) ==> a.contract == then && a.state.choices == st.choices && a.state.min_time == st.min_time
                && a.state.bound_values == st.bound_values
            &&& r matches Some(a) ==> (n > 0 ==> a.state.accounts == st.accounts.insert(
                k,
                (if st.accounts.dom().contains(k) {
                    st.accounts[k]
                } else {
                    0
                }) + n,
            ))
            &&& r matches Some(a) ==> (n <= 0 ==> a.state.accounts == st.accounts)
        }),
{
    reveal(apply_case_spec);
}

/// An input of another kind than the case's action is never accepted.
pub proof fn lemma_input_kind_must_match(env: EnvV, st: SimStateV, action: ActionV, then: ContractV, input: SimInputV)
    ensures
        !(action is Deposit && input is Deposit) && !(action is Choice && input is Choice) && !(action is Notify
            && input is Notify) ==> apply_case_spec(env, st, CaseV::Case { action, then: Box::new(then) }, input) is None,
{
    reveal(apply_case_spec);
}

proof fn lemma_static_bounds_from(bounds: Seq<BoundV>, k: int)
    requires
        0 <= k < crate::sim::static_bounds(bounds).len(),
    ensures
        exists|i: int|
            0 <= i < bounds.len() && (#[trigger] bounds[i] matches BoundV::Bound {
                from: ValueV::Constant(lo),
                to: ValueV::Constant(hi),
            } && lo == crate::sim::static_bounds(bounds)[k].0 && hi == crate::sim::static_bounds(bounds)[k].1),
    decreases bounds.len(),
{
    let rest = crate::sim::static_bounds(bounds.drop_last());
    if k < rest.len() {
        lemma_static_bounds_from(bounds.drop_last(), k);
        let i = choose|i: int|
            0 <= i < bounds.drop_last().len() && (#[trigger] bounds.drop_last()[i] matches BoundV::Bound {
                from: ValueV::Constant(lo),
                to: ValueV::Constant(hi),
            } && lo == rest[k].0 && hi == rest[k].1);
        assert(bounds[i] == bounds.drop_last()[i]);
    } else {
        let i = bounds.len() - 1;
        assert(bounds[i] == bounds.last());
    }
}

/// What a preview offers for a choice case is what the case accepts: every
/// value within one of the ranges it lists is accepted as that choice.
pub proof fn lemma_preview_choice_ranges_accepted(
    env: EnvV,
    st: SimStateV,
    id: ChoiceIdV,
    bounds: Seq<BoundV>,
    then: ContractV,
    k: int,
    value: int,
)
    ensures
        ({
            let case = CaseV::Case { action: ActionV::Choice { id, bounds }, then: Box::new(then) };
            preview_case_spec(case, st, env) matches Some(PreviewInputV::Choice { id: pid, bounds: ranges }) ==> (pid == id
                && (0 <= k < ranges.len() && ranges[k].0 <= value && value <= ranges[k].1 ==> apply_case_spec(
                env,
                st,
                case,
                SimInputV::Choice { id, value },
            ) is Some))
        }),
{
    let ranges = crate::sim::static_bounds(bounds);
    if 0 <= k < ranges.len() && ranges[k].0 <= value && value <= ranges[k].1 {
        lemma_static_bounds_from(bounds, k);
        lemma_choice_accepted_within_bounds(env, st, id, bounds, then, value);
    }
}

} // verus!
