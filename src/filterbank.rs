use vstd::prelude::*;

verus! {

/// Sub-filter `p` of a bank of `n` built from `taps`: its `i`-th tap is the
/// prototype's tap `p + i * n`, and it holds every such tap there is.
pub open spec fn is_phase_filter<T>(sub: Seq<T>, taps: Seq<T>, n: nat, p: nat) -> bool {
    &&& forall|i: int| 0 <= i < sub.len() ==> #[trigger] sub[i] == taps[p + i * n]
    &&& sub.len() > 0 ==> p + (sub.len() - 1) * n < taps.len()
    &&& p + sub.len() * n >= taps.len()
}

/// Splits the prototype filter `taps` into `n` polyphase sub-filters:
/// sub-filter `p` takes the taps whose index is `p` modulo `n`, in order.
pub fn distribute_phases<T: Copy>(taps: &Vec<T>, n: usize) -> (r: Vec<Vec<T>>)
    requires
        n > 0,
        taps@.len() + n <= usize::MAX,
    ensures
        r@.len() == n,
        forall|p: int| 0 <= p < n ==> is_phase_filter(#[trigger] r@[p]@, taps@, n as nat, p as nat),
{
    let mut bank: Vec<Vec<T>> = Vec::new();
    let mut p: usize = 0;
    while p < n
        invariant
            p <= n,
            n > 0,
            taps@.len() + n <= usize::MAX,
            bank@.len() == p,
            forall|q: int| 0 <= q < p ==> is_phase_filter(#[trigger] bank@[q]@, taps@, n as nat, q as nat),
        decreases n - p,
    {
        let mut sub: Vec<T> = Vec::new();
        let mut k: usize = p;
        assert(k == p + sub@.len() * n) by (nonlinear_arith)
            requires
                k == p,
                sub@.len() == 0,
        ;
        while k < taps.len()
            invariant
                p < n,
                taps@.len() + n <= usize::MAX,
                p <= k,
                k == p + sub@.len() * n,
                k < taps@.len() + n,
                forall|i: int| 0 <= i < sub@.len() ==> #[trigger] sub@[i] == taps@[p + i * n],
                sub@.len() > 0 ==> p + (sub@.len() - 1) * n < taps@.len(),
            decreases taps@.len() + n - k,
        {
            let ghost before = sub@;
            sub.push(taps[k]);
            proof {
                assert(p + sub@.len() * n == k + n) by (nonlinear_arith)
                    requires
                        k == p + before.len() * n,
                        sub@.len() == before.len() + 1,
                ;
                assert(p + (sub@.len() - 1) * n == k) by (nonlinear_arith)
                    requires
                        k == p + before.len() * n,
                        sub@.len() == before.len() + 1,
                ;
                assert forall|i: int| 0 <= i < sub@.len() implies #[trigger] sub@[i] == taps@[p + i * n] by {
                    if i < before.len() {
                        assert(sub@[i] == before[i]);
                    }
                }
            }
            k = k + n;
        }
        let ghost prev = bank@;
        bank.push(sub);
        assert forall|q: int| 0 <= q < p + 1 implies is_phase_filter(#[trigger] bank@[q]@, taps@, n as nat, q as nat) by {
            if q < p {
                assert(bank@[q] == prev[q]);
            }
        }
        p = p + 1;
    }
    bank
}

/// The sub-filters that `distribute_phases` builds from a prototype of
/// `order * n` taps all have exactly `order` taps, so each one lines up with
/// a delay line of `order` samples.
pub proof fn lemma_phase_filter_len<T>(sub: Seq<T>, taps: Seq<T>, n: nat, p: nat, order: nat)
    requires
        p < n,
        taps.len() == order * n,
        is_phase_filter(sub, taps, n, p),
    ensures
        sub.len() == order,
{
    if sub.len() > order {
        assert(p + (sub.len() - 1) * n >= order * n) by (nonlinear_arith)
            requires
                sub.len() > order,
        ;
    }
    if sub.len() < order {
        assert(p + sub.len() * n < order * n) by (nonlinear_arith)
            requires
                p < n,
                sub.len() < order,
        ;
    }
}

/// The number of taps in all the sub-filters of `bank` together.
pub open spec fn total_taps<T>(bank: Seq<Seq<T>>) -> nat
    decreases bank.len(),
{
    if bank.len() == 0 {
        0
    } else {
        total_taps(bank.drop_last()) + bank.last().len()
    }
}

proof fn lemma_total_of_equal<T>(bank: Seq<Seq<T>>, order: nat)
    requires
        forall|p: int| 0 <= p < bank.len() ==> #[trigger] bank[p].len() == order,
    ensures
        total_taps(bank) == bank.len() * order,
    decreases bank.len(),
{
    if bank.len() > 0 {
        let prev = bank.drop_last();
        assert forall|p: int| 0 <= p < prev.len() implies #[trigger] prev[p].len() == order by {
            assert(prev[p] == bank[p]);
        }
        lemma_total_of_equal(prev, order);
        assert(bank.len() * order == prev.len() * order + order) by (nonlinear_arith)
            requires
                bank.len() == prev.len() + 1,
        ;
    }
}

/// A bank built from a prototype of `order * n` taps holds exactly the
/// prototype's taps: `order` in each of its `n` sub-filters, as many in all
/// as the prototype has.
pub proof fn lemma_bank_holds_prototype<T>(bank: Seq<Seq<T>>, taps: Seq<T>, n: nat, order: nat)
    requires
        n > 0,
        bank.len() == n,
        taps.len() == order * n,
        forall|p: int| 0 <= p < n ==> is_phase_filter(#[trigger] bank[p], taps, n, p as nat),
    ensures
        forall|p: int| 0 <= p < n ==> #[trigger] bank[p].len() == order,
        total_taps(bank) == taps.len(),
{
    assert forall|p: int| 0 <= p < n implies #[trigger] bank[p].len() == order by {
        assert(is_phase_filter(bank[p], taps, n, p as nat));
        lemma_phase_filter_len(bank[p], taps, n, p as nat, order);
    }
    lemma_total_of_equal(bank, order);
    assert(n * order == order * n) by (nonlinear_arith);
}

} // verus!
