use ledger_node::blockchain::{Block, Blockchain};
use ledger_node::mempool::Mempool;
use ledger_node::node::{handle_message, miner_step, on_chain, on_pool, ChainWork, Message, MinerStep, Outgoing, PoolStep};
use ledger_node::types::{ActionType, Command, ObjectType, PeerAddr, SyncRequest, SyncResponse, Tx};

fn me() -> PeerAddr {
    PeerAddr::new(127, 0, 0, 1, 4000)
}

fn tx(from: char, to: char, fee: u64) -> Tx {
    Tx { from, to, amount: 1, fee }
}

#[test]
fn command_new_keeps_fields() {
    let c = Command::new(ActionType::Broadcast(ObjectType::Tx), 5u8);
    assert_eq!(c.action, ActionType::Broadcast(ObjectType::Tx));
    assert_eq!(c.payload, 5);
}

#[test]
fn sync_request_for_blocks_replies_to_requester() {
    let mut bc = Blockchain::new(1, 1, 1);
    bc.add(Block::new(9, String::new(), vec![], 0, 0));
    let mut mp = Mempool::new();
    let asker = PeerAddr::new(127, 0, 0, 1, 4003);
    let msg = Message::SyncRequest(Command::new(
        ActionType::SyncRequest(ObjectType::Block),
        SyncRequest { peer: asker },
    ));
    match handle_message(msg, &mut bc, &mut mp, me(), &vec![]) {
        Outgoing::Blocks { to, blocks } => {
            assert_eq!(to, vec![asker]);
            assert_eq!(blocks.data.len(), 1);
            assert_eq!(blocks.data[0].id, 9);
        }
        _ => panic!("expected blocks"),
    }
    assert_eq!(bc.get_all().len(), 1);
}

#[test]
fn sync_request_for_txs_goes_to_configured_peers_sorted() {
    let mut bc = Blockchain::new(1, 1, 1);
    let mut mp = Mempool::new();
    mp.add(tx('A', 'B', 100));
    mp.add(tx('C', 'D', 300));
    let peers = vec![PeerAddr::new(10, 0, 0, 2, 4001), PeerAddr::new(10, 0, 0, 3, 4002)];
    let msg = Message::SyncRequest(Command::new(
        ActionType::SyncRequest(ObjectType::Tx),
        SyncRequest { peer: PeerAddr::new(127, 0, 0, 1, 4003) },
    ));
    match handle_message(msg, &mut bc, &mut mp, me(), &peers) {
        Outgoing::Txs { to, txs } => {
            assert_eq!(to, peers);
            assert_eq!(txs.data, vec![tx('C', 'D', 300), tx('A', 'B', 100)]);
        }
        _ => panic!("expected txs"),
    }
}

#[test]
fn sync_request_with_other_action_does_nothing() {
    let mut bc = Blockchain::new(1, 1, 1);
    let mut mp = Mempool::new();
    let msg = Message::SyncRequest(Command::new(
        ActionType::Broadcast(ObjectType::Tx),
        SyncRequest { peer: me() },
    ));
    assert!(matches!(handle_message(msg, &mut bc, &mut mp, me(), &vec![]), Outgoing::Nothing));
}

#[test]
fn sync_responses_append_blocks_and_offer_txs() {
    let mut bc = Blockchain::new(1, 1, 1);
    let mut mp = Mempool::new();
    let blocks = vec![Block::new(1, String::new(), vec![], 0, 0), Block::new(2, "x".to_string(), vec![], 0, 0)];
    let msg = Message::SyncBlocks(Command::new(
        ActionType::SyncResponse(ObjectType::Block),
        SyncResponse { data: blocks },
    ));
    assert!(matches!(handle_message(msg, &mut bc, &mut mp, me(), &vec![]), Outgoing::Nothing));
    assert_eq!(bc.get_all().len(), 2);
    let msg = Message::SyncTxs(Command::new(
        ActionType::SyncResponse(ObjectType::Tx),
        SyncResponse { data: vec![tx('A', 'B', 1), tx('A', 'B', 1), tx('B', 'C', 2)] },
    ));
    assert!(matches!(handle_message(msg, &mut bc, &mut mp, me(), &vec![]), Outgoing::Nothing));
    assert_eq!(mp.len(), 2);
}

#[test]
fn new_block_prunes_pool_and_is_appended() {
    let mut bc = Blockchain::new(1, 1, 1);
    let mut mp = Mempool::new();
    mp.add(tx('A', 'B', 1));
    mp.add(tx('C', 'D', 2));
    let block = Block::new(5, "whatever".to_string(), vec![tx('A', 'B', 1)], 3, 0);
    let msg = Message::NewBlock(Command::new(ActionType::Broadcast(ObjectType::Block), block));
    assert!(matches!(handle_message(msg, &mut bc, &mut mp, me(), &vec![]), Outgoing::Nothing));
    assert_eq!(bc.get_all().len(), 1);
    assert_eq!(mp.len(), 1);
    assert!(mp.contains(&tx('C', 'D', 2)));
}

#[test]
fn new_tx_is_relayed_once() {
    let mut bc = Blockchain::new(1, 1, 1);
    let mut mp = Mempool::new();
    let t = tx('A', 'B', 7);
    let msg = Message::NewTx(Command::new(ActionType::Broadcast(ObjectType::Tx), t));
    match handle_message(msg, &mut bc, &mut mp, me(), &vec![]) {
        Outgoing::Relay { tx, except } => {
            assert_eq!(tx, t);
            assert_eq!(except, me());
        }
        _ => panic!("expected relay"),
    }
    let msg = Message::NewTx(Command::new(ActionType::Broadcast(ObjectType::Tx), t));
    assert!(matches!(handle_message(msg, &mut bc, &mut mp, me(), &vec![]), Outgoing::Nothing));
    assert_eq!(mp.len(), 1);
}

#[test]
fn miner_waits_without_enough_transactions() {
    assert_eq!(miner_step(500, false, 100), MinerStep { attempt: false, restart_clock: false, next_nonce: 0 });
}

#[test]
fn miner_restarts_clock_at_zero_and_advances() {
    assert_eq!(miner_step(0, true, 100), MinerStep { attempt: true, restart_clock: true, next_nonce: 100 });
    assert_eq!(miner_step(100, true, 100), MinerStep { attempt: true, restart_clock: false, next_nonce: 200 });
}

#[test]
fn miner_nonce_wraps_to_one() {
    assert_eq!(miner_step(u64::MAX - 100, true, 100).next_nonce, 1);
    assert_eq!(miner_step(u64::MAX - 101, true, 100).next_nonce, u64::MAX - 1);
}

#[test]
fn end_to_end_mining_from_pool() {
    let mut bc = Blockchain::new(3, 2, 100);
    let mut mp = Mempool::new();
    mp.add(tx('A', 'B', 100));
    mp.add(tx('B', 'C', 200));
    let mut nonce: u64 = 0;
    let mut time = std::time::SystemTime::now();
    let txs = mp.get_all().clone();
    let step = miner_step(nonce, bc.ok_to_mine(&txs), bc.get_concurrent_hashes());
    assert!(!step.attempt);
    mp.add(tx('C', 'D', 300));
    let block = loop {
        let txs = mp.get_all().clone();
        let step = miner_step(nonce, bc.ok_to_mine(&txs), bc.get_concurrent_hashes());
        assert!(step.attempt);
        if step.restart_clock {
            time = std::time::SystemTime::now();
        }
        let found = bc.mine(4000, nonce, time, txs);
        nonce = step.next_after(found.is_some());
        if let Some(b) = found {
            assert_eq!(nonce, 0);
            break b;
        }
    };
    assert!(block.hash.starts_with("00"));
    assert_eq!(block.len(), 3);
    mp.remove_all(&block.txs);
    bc.add(block);
    assert_eq!(mp.len(), 0);
    assert_eq!(bc.get_all().len(), 1);
}

#[test]
fn block_handling_splits_into_pool_then_chain() {
    let mut bc = Blockchain::new(1, 1, 1);
    let mut mp = Mempool::new();
    mp.add(tx('A', 'B', 1));
    let block = Block::new(5, String::new(), vec![tx('A', 'B', 1)], 3, 0);
    let msg = Message::NewBlock(Command::new(ActionType::Broadcast(ObjectType::Block), block));
    let step = on_pool(msg, &mut mp, me(), &vec![]);
    assert_eq!(mp.len(), 0);
    assert_eq!(bc.get_all().len(), 0);
    match step {
        PoolStep::Chain(work) => {
            assert!(matches!(work, ChainWork::AppendMined { .. }));
            assert!(matches!(on_chain(work, &mut bc), Outgoing::Nothing));
        }
        PoolStep::Done(_) => panic!("expected chain work"),
    }
    assert_eq!(bc.get_all().len(), 1);
    assert_eq!(bc.get_all()[0].id, 5);
}

#[test]
fn miner_counter_resets_after_a_found_block() {
    let step = miner_step(300, true, 100);
    assert_eq!(step.next_after(false), 400);
    assert_eq!(step.next_after(true), 0);
    let idle = miner_step(300, false, 100);
    assert_eq!(idle.next_after(false), 0);
}
