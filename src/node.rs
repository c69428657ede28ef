//! The decisions of a running node: what to do with a message from a peer,
//! and how the miner moves through the nonces.
use vstd::prelude::*;
use crate::blockchain::views;
use crate::blockchain::Block;
use crate::blockchain::Blockchain;
use crate::mempool::fee_sorted;
use crate::mempool::pool_add;
use crate::mempool::pool_add_all;
use crate::mempool::pool_remove_all;
use crate::mempool::Mempool;
use crate::peers::sync_target_list;
use crate::peers::sync_targets;
use crate::types::ActionType;
use crate::types::Command;
use crate::types::ObjectType;
use crate::types::PeerAddr;
use crate::types::SyncRequest;
use crate::types::SyncResponse;
use crate::types::Tx;

verus! {

/// A message from a peer, after it has been decoded. The variants are tried
/// in this order when a line is decoded: the first that fits is taken.
pub enum Message {
    SyncRequest(Command<SyncRequest>),
    SyncBlocks(Command<SyncResponse<Block>>),
    SyncTxs(Command<SyncResponse<Tx>>),
    NewBlock(Command<Block>),
    NewTx(Command<Tx>),
}

/// What a node sends in answer to a message.
pub enum Outgoing {
    Nothing,
    /// The chain's blocks, as `SyncResponse(Block)`, to each of `to`.
    Blocks { to: Vec<PeerAddr>, blocks: SyncResponse<Block> },
    /// The pool's transactions, as `SyncResponse(Tx)`, to each of `to`.
    Txs { to: Vec<PeerAddr>, txs: SyncResponse<Tx> },
    /// A newly admitted transaction, as `Broadcast(Tx)`, to every peer but `except`.
    Relay { tx: Tx, except: PeerAddr },
}

/// The part of a message's handling that falls to the chain.
pub enum ChainWork {
    /// Answer a sync request with the chain's blocks, sent to each of `to`.
    SendBlocks { to: Vec<PeerAddr> },
    /// Append the blocks of a sync response.
    Append { blocks: Vec<Block> },
    /// Append a block that a peer mined.
    AppendMined { block: Block },
}

/// The outcome of a message's handling on the pool: done, or work left for
/// the chain.
pub enum PoolStep {
    Done(Outgoing),
    Chain(ChainWork),
}

/// The chain's settings are the same in `a` and `b`.
pub open spec fn same_settings(a: Blockchain, b: Blockchain) -> bool {
    &&& a.min_tx_per_block() == b.min_tx_per_block()
    &&& a.difficulty() == b.difficulty()
    &&& a.concurrent_hashes() == b.concurrent_hashes()
}

/// Handles the pool's part of a message from a peer. What is left for the
/// chain comes back as `PoolStep::Chain`, for `on_chain`; the pool's part of
/// a block comes first, so its transactions leave the pool before it joins
/// the chain.
pub fn on_pool(msg: Message, pool: &mut Mempool, whoami: PeerAddr, peers: &Vec<PeerAddr>) -> (r: PoolStep)
    ensures
        match msg {
            Message::SyncRequest(c) => match c.action {
                ActionType::SyncRequest(ObjectType::Block) => {
                    &&& final(pool)@ == old(pool)@
                    &&& r matches PoolStep::Chain(ChainWork::SendBlocks { to })
                    &&& to@ == sync_target_list(peers@, c.payload.peer)
                },
                ActionType::SyncRequest(ObjectType::Tx) => {
                    &&& final(pool)@.to_multiset() == old(pool)@.to_multiset()
                    &&& fee_sorted(final(pool)@)
                    &&& r matches PoolStep::Done(Outgoing::Txs { to, txs })
                    &&& to@ == sync_target_list(peers@, c.payload.peer)
                    &&& txs.data@ == final(pool)@
                },
                _ => {
                    &&& final(pool)@ == old(pool)@
                    &&& r matches PoolStep::Done(Outgoing::Nothing)
                },
            },
            Message::SyncBlocks(c) => {
                &&& final(pool)@ == old(pool)@
                &&& r matches PoolStep::Chain(ChainWork::Append { blocks })
                &&& blocks == c.payload.data
            },
            Message::SyncTxs(c) => {
                &&& final(pool)@ == pool_add_all(old(pool)@, c.payload.data@)
                &&& r matches PoolStep::Done(Outgoing::Nothing)
            },
            Message::NewBlock(c) => {
                &&& final(pool)@ == pool_remove_all(old(pool)@, c.payload.txs@)
                &&& r matches PoolStep::Chain(ChainWork::AppendMined { block })
                &&& block == c.payload
            },
            Message::NewTx(c) => {
                &&& final(pool)@ == pool_add(old(pool)@, c.payload)
                &&& old(pool)@.contains(c.payload) ==> (r matches PoolStep::Done(Outgoing::Nothing))
                &&& !old(pool)@.contains(c.payload) ==> (r matches PoolStep::Done(
                    Outgoing::Relay { tx, except },
                ) && tx == c.payload && except == whoami)
            },
        },
{
    match msg {
        Message::SyncRequest(c) => match c.action {
            ActionType::SyncRequest(ObjectType::Block) => {
                PoolStep::Chain(ChainWork::SendBlocks { to: sync_targets(peers, c.payload.peer) })
            },
            ActionType::SyncRequest(ObjectType::Tx) => {
                let to = sync_targets(peers, c.payload.peer);
                let data = pool.get_all().clone();
                PoolStep::Done(Outgoing::Txs { to, txs: SyncResponse { data } })
            },
            _ => PoolStep::Done(Outgoing::Nothing),
        },
        Message::SyncBlocks(c) => PoolStep::Chain(ChainWork::Append { blocks: c.payload.data }),
        Message::SyncTxs(c) => {
            pool.add_all(&c.payload.data);
            PoolStep::Done(Outgoing::Nothing)
        },
        Message::NewBlock(c) => {
            pool.remove_all(&c.payload.txs);
            PoolStep::Chain(ChainWork::AppendMined { block: c.payload })
        },
        Message::NewTx(c) => {
            if pool.add(c.payload) {
                PoolStep::Done(Outgoing::Relay { tx: c.payload, except: whoami })
            } else {
                PoolStep::Done(Outgoing::Nothing)
            }
        },
    }
}

/// Does the chain's part of a message from a peer. Blocks are appended as
/// they come: neither their hash nor their link to the chain is checked.
pub fn on_chain(work: ChainWork, chain: &mut Blockchain) -> (r: Outgoing)
    ensures
        same_settings(*final(chain), *old(chain)),
        match work {
            ChainWork::SendBlocks { to } => {
                &&& final(chain)@ == old(chain)@
                &&& r matches Outgoing::Blocks { to: dest, blocks }
                &&& dest == to
                &&& views(blocks.data@) == old(chain)@
            },
            ChainWork::Append { blocks } => {
                &&& final(chain)@ == old(chain)@ + views(blocks@)
                &&& r matches Outgoing::Nothing
            },
            ChainWork::AppendMined { block } => {
                &&& final(chain)@ == old(chain)@.push(block@)
                &&& r matches Outgoing::Nothing
            },
        },
{
    match work {
        ChainWork::SendBlocks { to } => Outgoing::Blocks { to, blocks: SyncResponse { data: chain.blocks() } },
        ChainWork::Append { blocks } => {
            chain.add_all(&blocks);
            Outgoing::Nothing
        },
        ChainWork::AppendMined { block } => {
            chain.add(block);
            Outgoing::Nothing
        },
    }
}

/// Applies a message from a peer to the pool and then the chain, and says
/// what to send in return.
pub fn handle_message(
    msg: Message,
    chain: &mut Blockchain,
    pool: &mut Mempool,
    whoami: PeerAddr,
    peers: &Vec<PeerAddr>,
) -> (r: Outgoing)
    ensures
        same_settings(*final(chain), *old(chain)),
        match msg {
            Message::SyncRequest(c) => match c.action {
                ActionType::SyncRequest(ObjectType::Block) => {
                    &&& final(chain)@ == old(chain)@
                    &&& final(pool)@ == old(pool)@
                    &&& r matches Outgoing::Blocks { to, blocks }
                    &&& to@ == sync_target_list(peers@, c.payload.peer)
                    &&& views(blocks.data@) == old(chain)@
                },
                ActionType::SyncRequest(ObjectType::Tx) => {
                    &&& final(chain)@ == old(chain)@
                    &&& final(pool)@.to_multiset() == old(pool)@.to_multiset()
                    &&& fee_sorted(final(pool)@)
                    &&& r matches Outgoing::Txs { to, txs }
                    &&& to@ == sync_target_list(peers@, c.payload.peer)
                    &&& txs.data@ == final(pool)@
                },
                _ => {
                    &&& final(chain)@ == old(chain)@
                    &&& final(pool)@ == old(pool)@
                    &&& r matches Outgoing::Nothing
                },
            },
            Message::SyncBlocks(c) => {
                &&& final(chain)@ == old(chain)@ + views(c.payload.data@)
                &&& final(pool)@ == old(pool)@
                &&& r matches Outgoing::Nothing
            },
            Message::SyncTxs(c) => {
                &&& final(chain)@ == old(chain)@
                &&& final(pool)@ == pool_add_all(old(pool)@, c.payload.data@)
                &&& r matches Outgoing::Nothing
            },
            Message::NewBlock(c) => {
                &&& final(chain)@ == old(chain)@.push(c.payload@)
                &&& final(pool)@ == pool_remove_all(old(pool)@, c.payload.txs@)
                &&& r matches Outgoing::Nothing
            },
            Message::NewTx(c) => {
                &&& final(chain)@ == old(chain)@
                &&& final(pool)@ == pool_add(old(pool)@, c.payload)
                &&& old(pool)@.contains(c.payload) ==> (r matches Outgoing::Nothing)
                &&& !old(pool)@.contains(c.payload) ==> (r matches Outgoing::Relay { tx, except }
                    && tx == c.payload && except == whoami)
            },
        },
{
    match on_pool(msg, pool, whoami, peers) {
        PoolStep::Done(out) => out,
        PoolStep::Chain(work) => on_chain(work, chain),
    }
}

/// The nonce counter after an attempt over `step` nonces from `nonce`: it
/// moves on by `step`, and goes back to 1 (not 0, which restarts the clock)
/// where that would run past `u64::MAX`.
pub open spec fn advanced(nonce: u64, step: u64) -> u64 {
    if nonce >= u64::MAX - step {
        1
    } else {
        (nonce + step) as u64
    }
}

/// What the miner does in one round.
#[derive(Clone, Copy, Debug, PartialEq, Eq, Structural)]
pub struct MinerStep {
    /// Whether to try to mine a block from the current nonce.
    pub attempt: bool,
    /// Whether to start the search clock afresh before the attempt.
    pub restart_clock: bool,
    /// The nonce counter for the next round, where no block was found.
    pub next_nonce: u64,
}

impl MinerStep {
    /// The nonce counter for the next round, once the round's attempt is
    /// over: back to 0 where it found a block, else `next_nonce`.
    pub fn next_after(&self, found: bool) -> (r: u64)
        ensures
            found ==> r == 0,
            !found ==> r == self.next_nonce,
    {
        if found {
            0
        } else {
            self.next_nonce
        }
    }
}

/// Decides one round of the miner from its nonce counter and whether the pool
/// holds enough transactions. Without enough, the counter goes back to 0; a
/// round that starts at 0 restarts the clock. Where the attempt finds a
/// block, `MinerStep::next_after` sends the counter back to 0 as well.
pub fn miner_step(nonce: u64, ready: bool, concurrent_hashes: u64) -> (r: MinerStep)
    ensures
        r.attempt == ready,
        r.restart_clock == (ready && nonce == 0),
        r.next_nonce == if ready {
            advanced(nonce, concurrent_hashes)
        } else {
            0
        },
{
    if ready {
        let next = if nonce >= u64::MAX - concurrent_hashes {
            1
        } else {
            nonce + concurrent_hashes
        };
        MinerStep { attempt: true, restart_clock: nonce == 0, next_nonce: next }
    } else {
        MinerStep { attempt: false, restart_clock: false, next_nonce: 0 }
    }
}

} // verus!
