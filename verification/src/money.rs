//! Money is neither made nor lost by a transaction: in each token, what the
//! accounts hold after it, and what was paid out of them to parties, is what
//! they held before and what was deposited.
use crate::ast::{ContractV, PayeeTargetV, TokenV};
use crate::keys::AccountIdV;
use crate::sim::{
    add_money_spec, apply_case_spec, apply_cases_spec, apply_input_spec, apply_inputs_from, balances_positive, option_seq,
    reduce_step_spec, reduce_until_spec, update_money_spec, value_or_zero, EnvV, PaymentV, ReduceOutcome, SimInputV,
    SimStateV,
};
use vstd::prelude::*;

verus! {

/// What account `k` holds of token `t`: its balance if it is an account of
/// that token, else nothing.
pub open spec fn in_token(m: Map<AccountIdV, int>, k: AccountIdV, t: TokenV) -> int {
    if k.token == t {
        m[k]
    } else {
        0
    }
}

/// What a finite set of accounts holds of token `t`, in all.
pub open spec fn map_total(m: Map<AccountIdV, int>, t: TokenV) -> int
    decreases m.dom().len(),
    when m.dom().finite()
{
    if m.dom().len() == 0 {
        0
    } else {
        let k = m.dom().choose();
        in_token(m, k, t) + map_total(m.remove(k), t)
    }
}

/// What a payment takes out of the accounts in token `t`: all of it when it
/// is paid in `t` to a party; nothing when it goes to an account, which only
/// moves money between accounts.
pub open spec fn outflow(p: PaymentV, t: TokenV) -> int {
    match p.to {
        PayeeTargetV::ToAccount(_) => 0,
        _ => if p.token == t {
            p.amount
        } else {
            0
        },
    }
}

/// What payments take out of the accounts in token `t`, in all.
pub open spec fn outflow_total(ps: Seq<PaymentV>, t: TokenV) -> int
    decreases ps.len(),
{
    if ps.len() == 0 {
        0
    } else {
        outflow_total(ps.drop_last(), t) + outflow(ps.last(), t)
    }
}

/// What an input puts into the accounts in token `t`: a deposit's amount,
/// when it is positive and in `t`.
pub open spec fn inflow(input: SimInputV, t: TokenV) -> int {
    match input {
        SimInputV::Deposit { token, amount, .. } => if amount > 0 && token == t {
            amount
        } else {
            0
        },
        _ => 0,
    }
}

/// What the inputs from position `i` on put into the accounts in token `t`,
/// in all.
pub open spec fn inflow_from(inputs: Seq<SimInputV>, i: nat, t: TokenV) -> int
    decreases inputs.len() - i,
{
    if i >= inputs.len() {
        0
    } else {
        inflow(inputs[i as int], t) + inflow_from(inputs, i + 1, t)
    }
}

proof fn lemma_total_remove(m: Map<AccountIdV, int>, k: AccountIdV, t: TokenV)
    requires
        m.dom().finite(),
        m.dom().contains(k),
    ensures
        map_total(m, t) == in_token(m, k, t) + map_total(m.remove(k), t),
    decreases m.dom().len(),
{
    let c = m.dom().choose();
    assert(m.dom().contains(c));
    if c != k {
        let mc = m.remove(c);
        let mk = m.remove(k);
        assert(mc.dom().contains(k));
        assert(mk.dom().contains(c));
        lemma_total_remove(mc, k, t);
        lemma_total_remove(mk, c, t);
        assert(mc.remove(k) =~= mk.remove(c));
    }
}

proof fn lemma_total_update(m: Map<AccountIdV, int>, k: AccountIdV, v: int, t: TokenV)
    requires
        m.dom().finite(),
    ensures
        map_total(m.insert(k, v), t) == map_total(m, t) - (if k.token == t {
            value_or_zero(m, k)
        } else {
            0
        }) + (if k.token == t {
            v
        } else {
            0
        }),
        map_total(m.remove(k), t) == map_total(m, t) - (if k.token == t {
            value_or_zero(m, k)
        } else {
            0
        }),
{
    let m2 = m.insert(k, v);
    lemma_total_remove(m2, k, t);
    assert(m2.remove(k) =~= m.remove(k));
    if m.dom().contains(k) {
        lemma_total_remove(m, k, t);
    } else {
        assert(m.remove(k) =~= m);
    }
}

proof fn lemma_total_add_money(
    m: Map<AccountIdV, int>,
    owner: crate::ast::PartyV,
    token: TokenV,
    amount: int,
    t: TokenV,
)
    requires
        m.dom().finite(),
    ensures
        map_total(add_money_spec(m, owner, token, amount), t) == map_total(m, t) + if amount > 0 && token == t {
            amount
        } else {
            0
        },
{
    lemma_total_update(m, AccountIdV { owner, token }, value_or_zero(m, AccountIdV { owner, token }) + amount, t);
}

proof fn lemma_refund_conserves(st: SimStateV, t: TokenV)
    requires
        st.accounts.dom().finite(),
    ensures
        crate::sim::refund_spec(st) matches ReduceOutcome::Reduced(step) ==> map_total(step.state.accounts, t)
            + outflow_total(option_seq(step.payment), t) == map_total(st.accounts, t),
{
    if let Some(k) = crate::assoc::first_positive_key::<crate::keys::AccountId>(st.accounts) {
        assert(crate::assoc::least_positive_key::<crate::keys::AccountId>(st.accounts, k));
        lemma_total_remove(st.accounts, k, t);
        let p = PaymentV { from: k.owner, to: PayeeTargetV::ToParty(k.owner), token: k.token, amount: st.accounts[k] };
        assert(seq![p].drop_last() =~= Seq::<PaymentV>::empty());
        assert(outflow_total(Seq::<PaymentV>::empty(), t) == 0);
        assert(outflow_total(seq![p], t) == in_token(st.accounts, k, t));
    }
}

/// A step of a contract on its own, from accounts that all hold money,
/// keeps, in each token, what they hold plus what it pays out to parties.
pub proof fn lemma_step_conserves(env: EnvV, st: SimStateV, c: ContractV, t: TokenV)
    requires
        st.accounts.dom().finite(),
        balances_positive(st.accounts),
    ensures
        reduce_step_spec(env, st, c) matches ReduceOutcome::Reduced(step) ==> map_total(step.state.accounts, t)
            + outflow_total(option_seq(step.payment), t) == map_total(st.accounts, t),
{
    assert(outflow_total(Seq::<PaymentV>::empty(), t) == 0);
    assert(option_seq::<PaymentV>(None) =~= Seq::<PaymentV>::empty());
    match c {
        ContractV::Close => lemma_refund_conserves(st, t),
        ContractV::Pay { from, to, token, amount, then } => {
            let due = crate::sim::eval_value_spec(st, env, amount);
            if due > 0 {
                let k = AccountIdV { owner: from, token };
                let balance = value_or_zero(st.accounts, k);
                let paid = if balance < due {
                    balance
                } else {
                    due
                };
                assert(balance >= 0);
                let m1 = update_money_spec(st.accounts, k, balance - paid);
                lemma_total_update(st.accounts, k, balance - paid, t);
                assert(map_total(m1, t) == map_total(st.accounts, t) - (if token == t {
                    paid
                } else {
                    0
                }));
                if let PayeeTargetV::ToAccount(owner) = to {
                    lemma_total_add_money(m1, owner, token, paid, t);
                }
                if let ReduceOutcome::Reduced(step) = reduce_step_spec(env, st, c) {
                    assert(option_seq(step.payment).drop_last() =~= Seq::<PaymentV>::empty());
                }
            }
        },
        _ => {},
    }
}

proof fn lemma_cases_conserve(
    env: EnvV,
    st: SimStateV,
    cases: Seq<crate::ast::CaseV>,
    i: nat,
    input: SimInputV,
    t: TokenV,
)
    requires
        st.accounts.dom().finite(),
    ensures
        apply_cases_spec(env, st, cases, i, input) matches Some(a) ==> map_total(a.state.accounts, t) == map_total(
            st.accounts,
            t,
        ) + inflow(input, t),
    decreases cases.len() - i,
{
    if i < cases.len() {
        reveal(apply_case_spec);
        if let SimInputV::Deposit { into, token, amount, .. } = input {
            lemma_total_add_money(st.accounts, into, token, amount, t);
        }
        lemma_cases_conserve(env, st, cases, i + 1, input, t);
    }
}

/// An input adds to what the accounts hold in each token exactly what it
/// deposits in that token.
pub proof fn lemma_input_conserves(env: EnvV, st: SimStateV, c: ContractV, input: SimInputV, t: TokenV)
    requires
        st.accounts.dom().finite(),
    ensures
        apply_input_spec(env, st, c, input) matches Some(a) ==> map_total(a.state.accounts, t) == map_total(st.accounts, t)
            + inflow(input, t),
{
    if let ContractV::When { cases, .. } = c {
        lemma_cases_conserve(env, st, cases, 0, input, t);
    }
}

proof fn lemma_outflow_concat(a: Seq<PaymentV>, b: Seq<PaymentV>, t: TokenV)
    ensures
        outflow_total(a + b, t) == outflow_total(a, t) + outflow_total(b, t),
    decreases b.len(),
{
    if b.len() == 0 {
        assert(a + b =~= a);
    } else {
        lemma_outflow_concat(a, b.drop_last(), t);
        assert((a + b).drop_last() =~= a + b.drop_last());
        assert((a + b).last() == b.last());
    }
}

proof fn lemma_run_conserves(env: EnvV, st: SimStateV, c: ContractV, with_trace: bool, t: TokenV)
    requires
        st.accounts.dom().finite(),
        balances_positive(st.accounts),
    ensures
        reduce_until_spec(env, st, c, with_trace) matches Ok(run) ==> map_total(run.state.accounts, t) + outflow_total(
            run.payments,
            t,
        ) == map_total(st.accounts, t),
    decreases crate::sim::contract_weight(c), st.accounts.dom().len(),
{
    crate::sim::lemma_reduce_step_keeps(env, st, c);
    if let ReduceOutcome::Reduced(step) = reduce_step_spec(env, st, c) {
        crate::sim::lemma_reduce_step_decreases(env, st, c);
        lemma_step_conserves(env, st, c, t);
        lemma_run_conserves(env, step.state, step.contract, with_trace, t);
        if let Ok(rest) = reduce_until_spec(env, step.state, step.contract, with_trace) {
            lemma_outflow_concat(option_seq(step.payment), rest.payments, t);
        }
    } else {
        if reduce_until_spec(env, st, c, with_trace) is Ok {
            assert(outflow_total(Seq::<PaymentV>::empty(), t) == 0);
        }
    }
}

proof fn lemma_inputs_conserve(
    env: EnvV,
    st: SimStateV,
    c: ContractV,
    inputs: Seq<SimInputV>,
    i: nat,
    with_trace: bool,
    t: TokenV,
)
    requires
        st.accounts.dom().finite(),
        balances_positive(st.accounts),
    ensures
        apply_inputs_from(env, st, c, inputs, i, with_trace) matches Ok(run) ==> map_total(run.state.accounts, t)
            + outflow_total(run.payments, t) == map_total(st.accounts, t) + inflow_from(inputs, i, t),
    decreases inputs.len() - i,
{
    lemma_run_conserves(env, st, c, with_trace, t);
    crate::sim::lemma_reduce_until_keeps(env, st, c, with_trace);
    if i < inputs.len() {
        if let Ok(run) = reduce_until_spec(env, st, c, with_trace) {
            if let ContractV::When { cases, .. } = run.contract {
                crate::sim::lemma_apply_cases_keeps(env, run.state, cases, 0, inputs[i as int]);
            }
            lemma_input_conserves(env, run.state, run.contract, inputs[i as int], t);
            if let Some(a) = apply_input_spec(env, run.state, run.contract, inputs[i as int]) {
                lemma_inputs_conserve(env, a.state, a.contract, inputs, i + 1, with_trace, t);
                if let Ok(rest) = apply_inputs_from(env, a.state, a.contract, inputs, i + 1, with_trace) {
                    lemma_outflow_concat(run.payments, rest.payments, t);
                }
            }
        }
    }
}

/// A successful transaction from accounts that all hold money neither makes
/// nor loses any, token by token: for every token, what the accounts hold of
/// it after the transaction, plus what its payments to parties took out in
/// it, is what they held of it before plus what its inputs deposited in it.
/// A payment to an account only moves money between accounts.
pub proof fn lemma_transaction_conserves(c: ContractV, st: SimStateV, tx: crate::sim::SimTransactionV, with_trace: bool)
    requires
        st.accounts.dom().finite(),
        balances_positive(st.accounts),
    ensures
        forall|t: TokenV|
            #![trigger map_total(st.accounts, t)]
            crate::sim::simulate_spec(c, st, tx, with_trace) matches crate::sim::SimTransactionResultV::Success(s)
                ==> map_total(s.state.accounts, t) + outflow_total(s.payments, t) == map_total(st.accounts, t)
                + inflow_from(tx.inputs, 0, t),
{
    assert forall|t: TokenV|
        #![trigger map_total(st.accounts, t)]
        crate::sim::simulate_spec(c, st, tx, with_trace) matches crate::sim::SimTransactionResultV::Success(s)
            ==> map_total(s.state.accounts, t) + outflow_total(s.payments, t) == map_total(st.accounts, t) + inflow_from(
            tx.inputs,
            0,
            t,
        ) by {
        if let Ok((env, fixed)) = crate::sim::fix_interval_spec(tx.interval_start, tx.interval_end, st) {
            assert(fixed.accounts == st.accounts);
            lemma_inputs_conserve(env, fixed, c, tx.inputs, 0, with_trace, t);
        }
    }
}

} // verus!
