use vstd::prelude::*;
use crate::types::Tx;

verus! {

broadcast use vstd::seq_lib::group_to_multiset_ensures;

/// `t` is for the same wallet pair as `tx` and pays a strictly lower fee.
pub open spec fn outbid_by(t: Tx, tx: Tx) -> bool {
    t.from == tx.from && t.to == tx.to && t.fee < tx.fee
}

/// `i` is the first position of `s` whose entry `tx` outbids.
pub open spec fn is_first_outbid(s: Seq<Tx>, tx: Tx, i: int) -> bool {
    &&& 0 <= i < s.len()
    &&& outbid_by(s[i], tx)
    &&& forall|j: int| 0 <= j < i ==> !outbid_by(#[trigger] s[j], tx)
}

/// `i` is the first position of `s` that holds `tx`.
pub open spec fn is_first_match(s: Seq<Tx>, tx: Tx, i: int) -> bool {
    &&& 0 <= i < s.len()
    &&& s[i] == tx
    &&& forall|j: int| 0 <= j < i ==> #[trigger] s[j] != tx
}

/// Fees never increase along `s`.
pub open spec fn fee_sorted(s: Seq<Tx>) -> bool {
    forall|i: int, j: int| 0 <= i < j < s.len() ==> #[trigger] s[i].fee >= #[trigger] s[j].fee
}

/// `s` after `tx` takes the place of its first entry that `tx` outbids, or,
/// where there is none, with `tx` appended.
pub open spec fn replace_or_push(s: Seq<Tx>, tx: Tx) -> Seq<Tx>
    decreases s.len(),
{
    if s.len() == 0 {
        seq![tx]
    } else if outbid_by(s[0], tx) {
        s.update(0, tx)
    } else {
        seq![s[0]] + replace_or_push(s.drop_first(), tx)
    }
}

/// The pool `s` after `tx` is offered to it.
pub open spec fn pool_add(s: Seq<Tx>, tx: Tx) -> Seq<Tx> {
    if s.contains(tx) {
        s
    } else {
        replace_or_push(s, tx)
    }
}

/// The pool `s` after each of `txs` is offered to it in turn.
pub open spec fn pool_add_all(s: Seq<Tx>, txs: Seq<Tx>) -> Seq<Tx>
    decreases txs.len(),
{
    if txs.len() == 0 {
        s
    } else {
        pool_add(pool_add_all(s, txs.drop_last()), txs.last())
    }
}

/// `s` without its first entry equal to `tx`.
pub open spec fn pool_remove(s: Seq<Tx>, tx: Tx) -> Seq<Tx>
    decreases s.len(),
{
    if s.len() == 0 {
        s
    } else if s[0] == tx {
        s.drop_first()
    } else {
        seq![s[0]] + pool_remove(s.drop_first(), tx)
    }
}

/// The pool `s` after each of `txs` is removed from it in turn.
pub open spec fn pool_remove_all(s: Seq<Tx>, txs: Seq<Tx>) -> Seq<Tx>
    decreases txs.len(),
{
    if txs.len() == 0 {
        s
    } else {
        pool_remove(pool_remove_all(s, txs.drop_last()), txs.last())
    }
}

/// Where `tx` outbids an entry at `i` and none before it, offering `tx`
/// replaces that entry: the pool keeps its length.
pub proof fn lemma_replace_at(s: Seq<Tx>, tx: Tx, i: int)
    requires
        is_first_outbid(s, tx, i),
    ensures
        replace_or_push(s, tx) == s.update(i, tx),
    decreases s.len(),
{
    if i > 0 {
        assert(!outbid_by(s[0], tx));
        let t = s.drop_first();
        assert forall|j: int| 0 <= j < i - 1 implies !outbid_by(#[trigger] t[j], tx) by {
            assert(t[j] == s[j + 1]);
        }
        lemma_replace_at(t, tx, i - 1);
        assert(seq![s[0]] + t.update(i - 1, tx) =~= s.update(i, tx));
    }
}

/// Where `tx` outbids no entry, offering it appends it.
pub proof fn lemma_push_when_unmatched(s: Seq<Tx>, tx: Tx)
    requires
        forall|i: int| 0 <= i < s.len() ==> !outbid_by(#[trigger] s[i], tx),
    ensures
        replace_or_push(s, tx) == s.push(tx),
    decreases s.len(),
{
    if s.len() > 0 {
        let t = s.drop_first();
        assert(!outbid_by(s[0], tx));
        assert forall|j: int| 0 <= j < t.len() implies !outbid_by(#[trigger] t[j], tx) by {
            assert(t[j] == s[j + 1]);
        }
        lemma_push_when_unmatched(t, tx);
        assert(seq![s[0]] + t.push(tx) =~= s.push(tx));
    }
}

/// A transaction that is not yet pending and outbids an entry of its wallet
/// pair takes the place of the first such entry: the pool keeps its length.
pub proof fn lemma_outbid_replaces(s: Seq<Tx>, tx: Tx, i: int)
    requires
        !s.contains(tx),
        is_first_outbid(s, tx, i),
    ensures
        pool_add(s, tx) == s.update(i, tx),
        pool_add(s, tx).len() == s.len(),
        pool_add(s, tx)[i] == tx,
{
    lemma_replace_at(s, tx, i);
}

proof fn lemma_replace_or_push_contains(s: Seq<Tx>, tx: Tx)
    ensures
        replace_or_push(s, tx).contains(tx),
    decreases s.len(),
{
    if s.len() == 0 {
        assert(seq![tx][0] == tx);
    } else if outbid_by(s[0], tx) {
        assert(s.update(0, tx)[0] == tx);
    } else {
        let t = s.drop_first();
        lemma_replace_or_push_contains(t, tx);
        let k = choose|k: int| 0 <= k < replace_or_push(t, tx).len() && replace_or_push(t, tx)[k] == tx;
        assert(replace_or_push(s, tx)[k + 1] == tx);
    }
}

/// Offering the same transaction twice leaves the pool as offering it once.
pub proof fn lemma_add_twice(s: Seq<Tx>, tx: Tx)
    ensures
        pool_add(pool_add(s, tx), tx) == pool_add(s, tx),
        pool_add(s, tx).contains(tx),
{
    if !s.contains(tx) {
        lemma_replace_or_push_contains(s, tx);
    }
}

proof fn lemma_remove_at(s: Seq<Tx>, tx: Tx, i: int)
    requires
        is_first_match(s, tx, i),
    ensures
        pool_remove(s, tx) == s.remove(i),
    decreases s.len(),
{
    if i > 0 {
        let t = s.drop_first();
        assert(s[0] != tx);
        assert forall|j: int| 0 <= j < i - 1 implies #[trigger] t[j] != tx by {
            assert(t[j] == s[j + 1]);
        }
        lemma_remove_at(t, tx, i - 1);
        assert(seq![s[0]] + t.remove(i - 1) =~= s.remove(i));
    } else {
        assert(s.drop_first() =~= s.remove(0));
    }
}

proof fn lemma_remove_absent(s: Seq<Tx>, tx: Tx)
    requires
        !s.contains(tx),
    ensures
        pool_remove(s, tx) == s,
    decreases s.len(),
{
    if s.len() > 0 {
        let t = s.drop_first();
        assert(s[0] != tx);
        assert forall|j: int| 0 <= j < t.len() implies #[trigger] t[j] != tx by {
            assert(t[j] == s[j + 1]);
        }
        lemma_remove_absent(t, tx);
        assert(seq![s[0]] + t =~= s);
    }
}

/// The pool of pending transactions.
pub struct Mempool {
    txs: Vec<Tx>,
}

impl View for Mempool {
    type V = Seq<Tx>;

    closed spec fn view(&self) -> Seq<Tx> {
        self.txs@
    }
}

impl Mempool {
    pub fn new() -> (r: Self)
        ensures
            r@ == Seq::<Tx>::empty(),
    {
        Mempool { txs: Vec::new() }
    }

    /// Offers `tx` to the pool.
    ///
    /// An exact duplicate is refused. Otherwise `tx` takes the place of the
    /// first entry of its wallet pair that pays a lower fee, or, where there is
    /// none, is appended.
    pub fn add(&mut self, tx: Tx) -> (r: bool)
        ensures
            r == !old(self)@.contains(tx),
            final(self)@ == pool_add(old(self)@, tx),
    {
        if self.contains(&tx) {
            return false;
        }
        let n = self.txs.len();
        let mut i: usize = 0;
        while i < n
            invariant
                n == self.txs@.len(),
                self.txs@ == old(self)@,
                !old(self)@.contains(tx),
                i <= n,
                forall|j: int| 0 <= j < i ==> !outbid_by(#[trigger] self.txs@[j], tx),
            decreases n - i,
        {
            let t = self.txs[i];
            if t.from == tx.from && t.to == tx.to && t.fee < tx.fee {
                self.txs.set(i, tx);
                proof {
                    lemma_replace_at(old(self)@, tx, i as int);
                }
                return true;
            }
            i = i + 1;
        }
        self.txs.push(tx);
        proof {
            lemma_push_when_unmatched(old(self)@, tx);
        }
        true
    }

    /// Removes the first entry equal to `tx`; says whether there was one.
    pub fn remove(&mut self, tx: &Tx) -> (r: bool)
        ensures
            r == old(self)@.contains(*tx),
            final(self)@ == pool_remove(old(self)@, *tx),
            !r ==> final(self)@ == old(self)@,
            r ==> final(self)@.len() == old(self)@.len() - 1,
    {
        let n = self.txs.len();
        let mut i: usize = 0;
        while i < n
            invariant
                n == self.txs@.len(),
                self.txs@ == old(self)@,
                i <= n,
                forall|j: int| 0 <= j < i ==> #[trigger] self.txs@[j] != *tx,
            decreases n - i,
        {
            if self.txs[i] == *tx {
                proof {
                    lemma_remove_at(old(self)@, *tx, i as int);
                }
                self.txs.remove(i);
                return true;
            }
            i = i + 1;
        }
        proof {
            if old(self)@.contains(*tx) {
                let k = choose|k: int| 0 <= k < old(self)@.len() && old(self)@[k] == *tx;
                assert(self.txs@[k] != *tx);
            }
            lemma_remove_absent(old(self)@, *tx);
        }
        false
    }

    /// Offers each of `txs` to the pool, in order.
    pub fn add_all(&mut self, txs: &Vec<Tx>)
        ensures
            final(self)@ == pool_add_all(old(self)@, txs@),
    {
        let n = txs.len();
        let mut i: usize = 0;
        while i < n
            invariant
                n == txs@.len(),
                i <= n,
                self@ == pool_add_all(old(self)@, txs@.subrange(0, i as int)),
            decreases n - i,
        {
            self.add(txs[i]);
            proof {
                assert(txs@.subrange(0, i as int + 1).drop_last() =~= txs@.subrange(0, i as int));
            }
            i = i + 1;
        }
        proof {
            assert(txs@.subrange(0, n as int) =~= txs@);
        }
    }

    /// Removes each of `txs` from the pool, in order.
    pub fn remove_all(&mut self, txs: &Vec<Tx>)
        ensures
            final(self)@ == pool_remove_all(old(self)@, txs@),
    {
        let n = txs.len();
        let mut i: usize = 0;
        while i < n
            invariant
                n == txs@.len(),
                i <= n,
                self@ == pool_remove_all(old(self)@, txs@.subrange(0, i as int)),
            decreases n - i,
        {
            self.remove(&txs[i]);
            proof {
                assert(txs@.subrange(0, i as int + 1).drop_last() =~= txs@.subrange(0, i as int));
            }
            i = i + 1;
        }
        proof {
            assert(txs@.subrange(0, n as int) =~= txs@);
        }
    }

    /// Sorts the pool by fee, highest first, and returns its entries.
    ///
    /// Entries of equal fee keep their relative order.
    pub fn get_all(&mut self) -> (r: &Vec<Tx>)
        ensures
            final(self)@.to_multiset() == old(self)@.to_multiset(),
            final(self)@.len() == old(self)@.len(),
            fee_sorted(final(self)@),
            r@ == final(self)@,
    {
        let n = self.txs.len();
        let mut sorted: Vec<Tx> = Vec::new();
        let mut k: usize = 0;
        while k < n
            invariant
                n == self.txs@.len(),
                self.txs@ == old(self)@,
                k <= n,
                sorted@.len() == k,
                sorted@.to_multiset() == old(self)@.subrange(0, k as int).to_multiset(),
                fee_sorted(sorted@),
            decreases n - k,
        {
            let x = self.txs[k];
            let m = sorted.len();
            let mut j: usize = 0;
            while j < m && sorted[j].fee >= x.fee
                invariant
                    m == sorted@.len(),
                    j <= m,
                    forall|l: int| 0 <= l < j ==> #[trigger] sorted@[l].fee >= x.fee,
                decreases m - j,
            {
                j = j + 1;
            }
            let ghost before = sorted@;
            sorted.insert(j, x);
            proof {
                assert(old(self)@.subrange(0, k as int + 1) =~= old(self)@.subrange(0, k as int).push(x));
                vstd::seq_lib::to_multiset_insert(before, j as int, x);
                assert forall|a: int, b: int| 0 <= a < b < sorted@.len() implies
                    #[trigger] sorted@[a].fee >= #[trigger] sorted@[b].fee by {
                    if j < m {
                        assert(before[j as int].fee < x.fee);
                    }
                    if b < j {
                    } else if b == j {
                    } else if a < j {
                        assert(before[a].fee >= before[b - 1].fee || a == b - 1);
                    } else if a == j {
                        assert(before[j as int].fee >= before[b - 1].fee || j == b - 1);
                    } else {
                        assert(before[a - 1].fee >= before[b - 1].fee);
                    }
                }
            }
            k = k + 1;
        }
        proof {
            assert(old(self)@.subrange(0, n as int) =~= old(self)@);
        }
        self.txs = sorted;
        &self.txs
    }

    pub fn len(&self) -> (r: usize)
        ensures
            r == self@.len(),
    {
        self.txs.len()
    }

    /// Whether an entry equal to `tx` is pending.
    pub fn contains(&self, tx: &Tx) -> (r: bool)
        ensures
            r == self@.contains(*tx),
    {
        let n = self.txs.len();
        let mut i: usize = 0;
        while i < n
            invariant
                n == self.txs@.len(),
                i <= n,
                forall|j: int| 0 <= j < i ==> #[trigger] self.txs@[j] != *tx,
            decreases n - i,
        {
            if self.txs[i] == *tx {
                return true;
            }
            i = i + 1;
        }
        proof {
            if self@.contains(*tx) {
                let k = choose|k: int| 0 <= k < self@.len() && self@[k] == *tx;
                assert(self.txs@[k] != *tx);
            }
        }
        false
    }
}

} // verus!
