//! The chain of blocks and the proof-of-work search.
use vstd::prelude::*;
use rayon::iter::IntoParallelRefIterator;
use rayon::iter::ParallelIterator;
use crate::codec::block_json;
use crate::codec::encode_block;
use crate::digest::has_leading_zeros;
use crate::digest::hex_text;
use crate::digest::is_lower_hex;
use crate::digest::meets_difficulty;
use crate::digest::render_hex;
use crate::digest::sha256;
use crate::digest::sha256_of;
use crate::types::Tx;
use std::time::SystemTime;

verus! {

/// std's `SystemTime`, the start of a mining search, carried through opaque.
#[verifier::external_type_specification]
#[verifier::external_body]
pub struct ExSystemTime(std::time::SystemTime);

/// Relies on `SystemTime::elapsed`: the milliseconds that have passed since
/// `time`, or 0 where the clock has gone back. Nothing is promised of the value.
#[verifier::external_body]
fn elapsed_ms(time: &SystemTime) -> u128 {
    match time.elapsed() {
        Ok(d) => d.as_millis(),
        Err(_) => 0,
    }
}

/// A block of transactions.
#[derive(Clone, Debug)]
pub struct Block {
    /// The node that mined it.
    pub id: u16,
    pub nonce: u64,
    /// The hex digest of the block's content; empty until mined.
    pub hash: String,
    /// The hash of the chain's last block when this one was mined; empty for the first.
    pub prev: String,
    pub txs: Vec<Tx>,
    /// Milliseconds the search had run when this block was tried.
    pub ms: u128,
}

/// What a block holds, as mathematical values.
pub struct BlockView {
    pub id: u16,
    pub nonce: u64,
    pub hash: Seq<char>,
    pub prev: Seq<char>,
    pub txs: Seq<Tx>,
    pub ms: u128,
}

impl View for Block {
    type V = BlockView;

    open spec fn view(&self) -> BlockView {
        BlockView {
            id: self.id,
            nonce: self.nonce,
            hash: self.hash@,
            prev: self.prev@,
            txs: self.txs@,
            ms: self.ms,
        }
    }
}

/// The hash of a block's content: its hash field plays no part.
pub open spec fn block_hash(b: BlockView) -> Seq<char> {
    hex_text(sha256_of(block_json(b.id, b.nonce, b.prev, b.txs, b.ms)))
}

/// The hash of the last block of `chain`, or empty for an empty chain.
pub open spec fn tail_hash(chain: Seq<BlockView>) -> Seq<char> {
    if chain.len() == 0 {
        Seq::empty()
    } else {
        chain.last().hash
    }
}

/// `b` is a block mined by `id` with nonce `nonce` over `txs` after `prev`,
/// carrying its own hash, which has `d` leading zeros.
pub open spec fn mined_with(b: BlockView, id: u16, prev: Seq<char>, txs: Seq<Tx>, nonce: u64, d: nat) -> bool {
    &&& b.id == id
    &&& b.nonce == nonce
    &&& b.prev == prev
    &&& b.txs == txs
    &&& b.hash == block_hash(b)
    &&& meets_difficulty(b.hash, d)
}

/// The block that mining tries for one nonce, before its hash is filled in.
pub open spec fn candidate(id: u16, prev: Seq<char>, txs: Seq<Tx>, nonce: u64, ms: u128) -> BlockView {
    BlockView { id, nonce, hash: Seq::empty(), prev, txs, ms }
}

/// Some clock reading makes the candidate for `nonce` miss difficulty `d`:
/// the only way a tried nonce can give no block.
pub open spec fn can_miss(id: u16, prev: Seq<char>, txs: Seq<Tx>, nonce: u64, d: nat) -> bool {
    exists|ms: u128| !meets_difficulty(block_hash(candidate(id, prev, txs, nonce, ms)), d)
}

/// The views of a list of blocks.
pub open spec fn views(bs: Seq<Block>) -> Seq<BlockView> {
    bs.map_values(|b: Block| b@)
}

/// Two blocks with the same content have the same hash, whatever their hash
/// fields hold: hashing depends on the content alone.
pub proof fn lemma_hash_deterministic(a: BlockView, b: BlockView)
    requires
        a.id == b.id,
        a.nonce == b.nonce,
        a.prev == b.prev,
        a.txs == b.txs,
        a.ms == b.ms,
    ensures
        block_hash(a) == block_hash(b),
{
}

impl Block {
    pub fn new(id: u16, prev: String, txs: Vec<Tx>, nonce: u64, ms: u128) -> (r: Self)
        ensures
            r.id == id,
            r.nonce == nonce,
            r.hash@ == Seq::<char>::empty(),
            r.prev == prev,
            r.txs == txs,
            r.ms == ms,
    {
        Block { id, nonce, hash: String::new(), prev, txs, ms }
    }

    /// A copy of the block.
    pub fn copied(&self) -> (r: Block)
        ensures
            r@ == self@,
    {
        Block {
            id: self.id,
            nonce: self.nonce,
            hash: self.hash.clone(),
            prev: self.prev.clone(),
            txs: self.txs.clone(),
            ms: self.ms,
        }
    }

    fn hash_text(&self) -> (r: (String, Vec<char>))
        ensures
            r.0@ == block_hash(self@),
            r.1@ == block_hash(self@),
            32 <= r.0@.len() <= 64,
            forall|i: int| 0 <= i < r.0@.len() ==> is_lower_hex(#[trigger] r.0@[i]),
    {
        let content = encode_block(self.id, self.nonce, &self.prev, &self.txs, self.ms);
        let digest = sha256(content.as_slice());
        render_hex(&digest)
    }

    /// The hash of the block's content, with its own hash field left out.
    pub fn generate_hash(&self) -> (r: String)
        ensures
            r@ == block_hash(self@),
            32 <= r@.len() <= 64,
            forall|i: int| 0 <= i < r@.len() ==> is_lower_hex(#[trigger] r@[i]),
    {
        let (s, _) = self.hash_text();
        s
    }

    pub fn get_all(&self) -> (r: &Vec<Tx>)
        ensures
            r@ == self.txs@,
    {
        &self.txs
    }

    pub fn len(&self) -> (r: usize)
        ensures
            r == self.txs@.len(),
    {
        self.txs.len()
    }
}

/// The chain of accepted blocks, with the mining settings.
pub struct Blockchain {
    chain: Vec<Block>,
    min_tx_per_block: usize,
    difficulty: usize,
    concurrent_hashes: u64,
}

impl View for Blockchain {
    type V = Seq<BlockView>;

    closed spec fn view(&self) -> Seq<BlockView> {
        views(self.chain@)
    }
}

/// Relies on rayon's `find_map_any`: it returns one of the non-`None` results
/// of the closure over the items, and `None` only where every call of the
/// closure gave `None`. The closure is `try_nonce`.
#[verifier::external_body]
fn search_nonces(
    bc: &Blockchain,
    id: u16,
    nonces: &Vec<u64>,
    prev: &String,
    txs: &Vec<Tx>,
    time: &SystemTime,
) -> (r: Option<Block>)
    ensures
        r matches Some(b) ==> exists|i: int|
            0 <= i < nonces@.len() && mined_with(b@, id, prev@, txs@, #[trigger] nonces@[i], bc.difficulty() as nat),
        r is None ==> forall|i: int|
            0 <= i < nonces@.len() ==> can_miss(id, prev@, txs@, #[trigger] nonces@[i], bc.difficulty() as nat),
{
    nonces.par_iter().find_map_any(|n| bc.try_nonce(id, prev, txs, *n, time))
}

impl Blockchain {
    pub closed spec fn min_tx_per_block(&self) -> usize {
        self.min_tx_per_block
    }

    pub closed spec fn difficulty(&self) -> usize {
        self.difficulty
    }

    pub closed spec fn concurrent_hashes(&self) -> u64 {
        self.concurrent_hashes
    }

    pub fn new(min_tx_per_block: usize, difficulty: usize, concurrent_hashes: u64) -> (r: Self)
        ensures
            r@ == Seq::<BlockView>::empty(),
            r.min_tx_per_block() == min_tx_per_block,
            r.difficulty() == difficulty,
            r.concurrent_hashes() == concurrent_hashes,
    {
        Blockchain { chain: Vec::new(), min_tx_per_block, difficulty, concurrent_hashes }
    }

    pub fn get_all(&self) -> (r: &Vec<Block>)
        ensures
            views(r@) == self@,
    {
        &self.chain
    }

    /// Copies of all the blocks, in order.
    pub fn blocks(&self) -> (r: Vec<Block>)
        ensures
            views(r@) == self@,
    {
        let n = self.chain.len();
        let mut out: Vec<Block> = Vec::new();
        let mut i: usize = 0;
        while i < n
            invariant
                n == self.chain@.len(),
                i <= n,
                views(out@) == views(self.chain@.subrange(0, i as int)),
            decreases n - i,
        {
            let ghost before = out@;
            out.push(self.chain[i].copied());
            assert(views(out@) =~= views(before).push(self.chain@[i as int]@));
            assert(views(self.chain@.subrange(0, i as int + 1)) =~= views(self.chain@.subrange(0, i as int)).push(self.chain@[i as int]@));
            i = i + 1;
        }
        assert(self.chain@.subrange(0, n as int) =~= self.chain@);
        out
    }

    pub fn get_concurrent_hashes(&self) -> (r: u64)
        ensures
            r == self.concurrent_hashes(),
    {
        self.concurrent_hashes
    }

    /// Whether `txs` holds enough transactions for a block.
    pub fn ok_to_mine(&self, txs: &[Tx]) -> (r: bool)
        ensures
            r == (txs@.len() >= self.min_tx_per_block()),
    {
        txs.len() >= self.min_tx_per_block
    }

    /// The block mined by `id` with `nonce` over `txs` after `prev` at `ms`
    /// milliseconds, where its hash meets the difficulty.
    pub fn try_candidate(&self, id: u16, prev: &String, txs: &Vec<Tx>, nonce: u64, ms: u128) -> (r: Option<Block>)
        ensures
            r is Some <==> meets_difficulty(block_hash(candidate(id, prev@, txs@, nonce, ms)), self.difficulty() as nat),
            r matches Some(b) ==> b@ == (BlockView {
                hash: block_hash(candidate(id, prev@, txs@, nonce, ms)),
                ..candidate(id, prev@, txs@, nonce, ms)
            }),
    {
        let mut block = Block::new(id, prev.clone(), txs.clone(), nonce, ms);
        let (hash, digits) = block.hash_text();
        if has_leading_zeros(&digits, self.difficulty) {
            block.hash = hash;
            Some(block)
        } else {
            None
        }
    }

    /// Tries one nonce, with the time read from the clock.
    fn try_nonce(&self, id: u16, prev: &String, txs: &Vec<Tx>, nonce: u64, time: &SystemTime) -> (r: Option<Block>)
        ensures
            r matches Some(b) ==> mined_with(b@, id, prev@, txs@, nonce, self.difficulty() as nat),
            r is None ==> can_miss(id, prev@, txs@, nonce, self.difficulty() as nat),
    {
        let ms = elapsed_ms(time);
        self.try_candidate(id, prev, txs, nonce, ms)
    }

    /// Searches the nonces `nonce .. nonce + concurrent_hashes` in parallel for
    /// a block over `txs` that extends the chain and meets the difficulty.
    ///
    /// Which of several qualifying nonces is returned is not fixed. `None`
    /// comes only where no nonce of the batch qualified at the time it was
    /// tried. Nonces past `u64::MAX` are not tried.
    pub fn mine(&self, id: u16, nonce: u64, time: SystemTime, txs: Vec<Tx>) -> (r: Option<Block>)
        ensures
            r matches Some(b) ==> {
                &&& nonce <= b.nonce < nonce + self.concurrent_hashes()
                &&& mined_with(b@, id, tail_hash(self@), txs@, b.nonce, self.difficulty() as nat)
            },
            r is None ==> forall|n: u64|
                nonce <= n < nonce + self.concurrent_hashes() ==> #[trigger] can_miss(
                    id,
                    tail_hash(self@),
                    txs@,
                    n,
                    self.difficulty() as nat,
                ),
            self.concurrent_hashes() == 0 ==> r is None,
            self.difficulty() == 0 && self.concurrent_hashes() > 0 ==> r is Some,
    {
        let mut nonces: Vec<u64> = Vec::new();
        let mut i: u64 = 0;
        while i < self.concurrent_hashes && i <= u64::MAX - nonce
            invariant
                i <= self.concurrent_hashes,
                nonces@.len() == i,
                forall|j: int| 0 <= j < i ==> #[trigger] nonces@[j] == nonce + j,
            decreases self.concurrent_hashes - i,
        {
            nonces.push(nonce + i);
            i = i + 1;
        }
        let prev = if self.chain.len() == 0 {
            String::new()
        } else {
            self.chain[self.chain.len() - 1].hash.clone()
        };
        let r = search_nonces(self, id, &nonces, &prev, &txs, &time);
        proof {
            let d = self.difficulty() as nat;
            if r is None {
                assert forall|n: u64| nonce <= n < nonce + self.concurrent_hashes() implies #[trigger] can_miss(
                    id,
                    tail_hash(self@),
                    txs@,
                    n,
                    d,
                ) by {
                    let j = n - nonce;
                    assert(nonces@[j] == n);
                }
                if d == 0 && self.concurrent_hashes() > 0 {
                    assert(can_miss(id, prev@, txs@, nonces@[0], d));
                    let ms = choose|ms: u128| !meets_difficulty(block_hash(candidate(id, prev@, txs@, nonces@[0], ms)), d);
                    assert(meets_difficulty(block_hash(candidate(id, prev@, txs@, nonces@[0], ms)), d));
                }
            }
        }
        r
    }

    /// Appends `block`, whatever its hash and link hold.
    pub fn add(&mut self, block: Block)
        ensures
            final(self)@ == old(self)@.push(block@),
            final(self).min_tx_per_block() == old(self).min_tx_per_block(),
            final(self).difficulty() == old(self).difficulty(),
            final(self).concurrent_hashes() == old(self).concurrent_hashes(),
    {
        self.chain.push(block);
        assert(views(self.chain@) =~= views(old(self).chain@).push(block@));
    }

    /// Appends a copy of each of `blocks`, in order.
    pub fn add_all(&mut self, blocks: &Vec<Block>)
        ensures
            final(self)@ == old(self)@ + views(blocks@),
            final(self).min_tx_per_block() == old(self).min_tx_per_block(),
            final(self).difficulty() == old(self).difficulty(),
            final(self).concurrent_hashes() == old(self).concurrent_hashes(),
    {
        let n = blocks.len();
        let mut i: usize = 0;
        while i < n
            invariant
                n == blocks@.len(),
                i <= n,
                self@ == old(self)@ + views(blocks@.subrange(0, i as int)),
                self.min_tx_per_block() == old(self).min_tx_per_block(),
                self.difficulty() == old(self).difficulty(),
                self.concurrent_hashes() == old(self).concurrent_hashes(),
            decreases n - i,
        {
            self.add(blocks[i].copied());
            assert(views(blocks@.subrange(0, i as int + 1)) =~= views(blocks@.subrange(0, i as int)).push(blocks@[i as int]@));
            assert(self@ =~= old(self)@ + views(blocks@.subrange(0, i as int + 1)));
            i = i + 1;
        }
        assert(blocks@.subrange(0, n as int) =~= blocks@);
    }
}

} // verus!
