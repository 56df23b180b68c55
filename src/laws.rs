use vstd::prelude::*;

use crate::action::{apply_model, Action};
use crate::model::{
    buy_model, credit, empty_ledger, ledger_wf, sell_model, InvestmentModel, Ledger,
};

verus! {

/// The sum of the values of a finite map.
pub open spec fn sum_values<K>(m: Map<K, int>) -> int
    decreases m.dom().len(),
    via sum_values_decreases::<K>
{
    if m.dom().finite() && m.dom().len() > 0 {
        let k = choose|k: K| m.contains_key(k);
        m[k] + sum_values(m.remove(k))
    } else {
        0
    }
}

#[via_fn]
proof fn sum_values_decreases<K>(m: Map<K, int>) {
    if m.dom().finite() && m.dom().len() > 0 {
        if !exists|k: K| m.contains_key(k) {
            assert(m.dom() =~= Set::empty());
        }
        let k = choose|k: K| m.contains_key(k);
        assert(m.remove(k).dom() =~= m.dom().remove(k));
    }
}

/// The amounts of the live investments, by id.
pub open spec fn invested(s: Ledger) -> Map<int, int> {
    s.investments.map_values(|i: InvestmentModel| i.amount)
}

/// Everything the ledger holds: all balances and all live investments.
pub open spec fn holdings(s: Ledger) -> int {
    sum_values(s.balances) + sum_values(invested(s))
}

/// The money an action brings into the ledger (negative when it leaves).
pub open spec fn inflow(a: Action) -> int {
    match a {
        Action::Deposit { amount, .. } => amount@,
        Action::Withdraw { amount, .. } => -amount@,
        _ => 0,
    }
}

pub open spec fn total_inflow(acts: Seq<Action>) -> int
    decreases acts.len(),
{
    if acts.len() == 0 {
        0
    } else {
        total_inflow(acts.drop_last()) + inflow(acts.last())
    }
}

/// The ledger after applying `acts` in order, or `None` if one fails.
pub open spec fn run_model(s: Ledger, acts: Seq<Action>) -> Option<Ledger>
    decreases acts.len(),
{
    if acts.len() == 0 {
        Some(s)
    } else {
        match run_model(s, acts.drop_last()) {
            Some(t) => match apply_model(t, acts.last()) {
                Ok(u) => Some(u),
                Err(_) => None,
            },
            None => None,
        }
    }
}

proof fn lemma_sum_remove<K>(m: Map<K, int>, k: K)
    requires
        m.dom().finite(),
        m.contains_key(k),
    ensures
        sum_values(m) == m[k] + sum_values(m.remove(k)),
    decreases m.dom().len(),
{
    let j = choose|j: K| m.contains_key(j);
    if j != k {
        lemma_sum_remove(m.remove(j), k);
        lemma_sum_remove(m.remove(k), j);
        assert(m.remove(j).remove(k) =~= m.remove(k).remove(j));
    }
}

proof fn lemma_sum_insert<K>(m: Map<K, int>, k: K, v: int)
    requires
        m.dom().finite(),
    ensures
        sum_values(m.insert(k, v)) == sum_values(m) + v - (if m.contains_key(k) {
            m[k]
        } else {
            0
        }),
{
    let n = m.insert(k, v);
    lemma_sum_remove(n, k);
    if m.contains_key(k) {
        lemma_sum_remove(m, k);
        assert(n.remove(k) =~= m.remove(k));
    } else {
        assert(n.remove(k) =~= m);
    }
}

proof fn lemma_sum_credit(b: Map<Seq<char>, int>, a: Seq<char>, amount: int)
    requires
        b.dom().finite(),
    ensures
        sum_values(credit(b, a, amount)) == sum_values(b) + amount,
        credit(b, a, amount).dom().finite(),
{
    lemma_sum_insert(b, a, if b.contains_key(a) { b[a] + amount } else { amount });
}

proof fn lemma_invested_finite(s: Ledger)
    requires
        s.investments.dom().finite(),
    ensures
        invested(s).dom().finite(),
{
    assert(invested(s).dom() =~= s.investments.dom());
}

/// One successful action keeps the invariant and changes the holdings by
/// exactly its inflow.
pub proof fn lemma_step_conserves(s: Ledger, a: Action)
    requires
        ledger_wf(s),
        apply_model(s, a) is Ok,
    ensures
        ledger_wf(apply_model(s, a)->Ok_0),
        holdings(apply_model(s, a)->Ok_0) == holdings(s) + inflow(a),
{
    let t = apply_model(s, a)->Ok_0;
    lemma_invested_finite(s);
    match a {
        Action::Deposit { depositor, amount } => {
            lemma_sum_credit(s.balances, depositor@, amount@);
        },
        Action::Withdraw { withdrawer, amount } => {
            lemma_sum_insert(s.balances, withdrawer@, s.balances[withdrawer@] - amount@);
        },
        Action::Transfer { sender, receiver, amount } => {
            let b1 = s.balances.insert(sender@, s.balances[sender@] - amount@);
            lemma_sum_insert(s.balances, sender@, s.balances[sender@] - amount@);
            lemma_sum_credit(b1, receiver@, amount@);
        },
        Action::BuyInvestment { buyer, amount } => {
            lemma_sum_insert(s.balances, buyer@, s.balances[buyer@] - amount@);
            assert(invested(t) =~= invested(s).insert(s.next_id, amount@));
            lemma_sum_insert(invested(s), s.next_id, amount@);
        },
        Action::SellInvestment { seller, investment_id } => {
            let id = investment_id@;
            lemma_sum_credit(s.balances, seller@, s.investments[id].amount);
            assert(invested(t) =~= invested(s).remove(id));
            lemma_sum_remove(invested(s), id);
        },
    }
    lemma_invested_finite(t);
}

/// Conservation: after any sequence of successful actions from the empty
/// ledger, the balances plus the live investments sum to what was deposited
/// minus what was withdrawn.
pub proof fn conservation(acts: Seq<Action>)
    requires
        run_model(empty_ledger(), acts) is Some,
    ensures
        holdings(run_model(empty_ledger(), acts)->Some_0) == total_inflow(acts),
        ledger_wf(run_model(empty_ledger(), acts)->Some_0),
    decreases acts.len(),
{
    if acts.len() == 0 {
        let e = empty_ledger();
        assert(sum_values(e.balances) == 0);
        assert(invested(e).dom() =~= Set::empty());
        assert(sum_values(invested(e)) == 0);
    } else {
        conservation(acts.drop_last());
        lemma_step_conserves(run_model(empty_ledger(), acts.drop_last())->Some_0, acts.last());
    }
}

/// Monotonic ids: a successful purchase takes `next_id`, which no live
/// investment held, and moves it up by exactly one; every other successful
/// action leaves it as it was.
pub proof fn next_id_advances(s: Ledger, a: Action)
    requires
        ledger_wf(s),
        apply_model(s, a) is Ok,
    ensures
        ledger_wf(apply_model(s, a)->Ok_0),
        a is BuyInvestment ==> apply_model(s, a)->Ok_0.next_id == s.next_id + 1
            && !s.investments.contains_key(s.next_id)
            && apply_model(s, a)->Ok_0.investments.contains_key(s.next_id),
        !(a is BuyInvestment) ==> apply_model(s, a)->Ok_0.next_id == s.next_id,
{
    lemma_step_conserves(s, a);
}

/// Round trip: selling an investment right after buying it gives the buyer
/// back the balance it had, and leaves the same live investments.
pub proof fn buy_then_sell(s: Ledger, buyer: Seq<char>, amount: int)
    requires
        ledger_wf(s),
        buy_model(s, buyer, amount) is Ok,
    ensures
        sell_model(buy_model(s, buyer, amount)->Ok_0, buyer, s.next_id) is Ok,
        sell_model(buy_model(s, buyer, amount)->Ok_0, buyer, s.next_id)->Ok_0.balances
            == s.balances,
        sell_model(buy_model(s, buyer, amount)->Ok_0, buyer, s.next_id)->Ok_0.investments
            == s.investments,
{
    let t = buy_model(s, buyer, amount)->Ok_0;
    let u = sell_model(t, buyer, s.next_id)->Ok_0;
    assert(u.balances =~= s.balances);
    assert(u.investments =~= s.investments);
}

} // verus!
