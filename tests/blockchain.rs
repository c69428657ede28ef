use ledger_node::blockchain::{Block, Blockchain};
use ledger_node::mempool::Mempool;
use ledger_node::types::Tx;
use std::time::SystemTime;

#[test]
fn test_blockchain_mine() {
    let mut mp = Mempool::new();

    let min_tx_per_block: usize = 3;
    let difficulty: usize = 2;
    let concurrent_hashes: u64 = 100;

    for i in 0..min_tx_per_block {
        mp.add(Tx {
            from: 'A',
            to: std::char::from_digit(i as u32, 10).unwrap(),
            amount: 1,
            fee: i as u64 * 100,
        });
    }

    let bc = Blockchain::new(min_tx_per_block, difficulty, concurrent_hashes);
    let mut nonce: u64 = 0;

    loop {
        if let Some(block) = bc.mine(1111, nonce, SystemTime::now(), mp.get_all().to_vec()) {
            assert_eq!(block.hash[..difficulty], "0".repeat(difficulty));
            assert_eq!(block.len(), min_tx_per_block);

            break;
        }
        nonce += concurrent_hashes;
    }
}

#[test]
fn test_block_generate_hash() {
    let block = Block::new(1, "".to_string(), vec![], 0, 0);
    assert_eq!(block.generate_hash()[..6], "b9e0e5".to_string());
}

#[test]
fn mined_block_carries_its_own_hash_and_links_to_tail() {
    let txs = vec![
        Tx { from: 'A', to: 'B', amount: 1, fee: 100 },
        Tx { from: 'C', to: 'D', amount: 2, fee: 200 },
    ];
    let mut bc = Blockchain::new(1, 1, 64);
    let mut nonce: u64 = 0;
    let first = loop {
        if let Some(b) = bc.mine(7, nonce, SystemTime::now(), txs.clone()) {
            break b;
        }
        nonce += 64;
    };
    assert!(first.hash.starts_with('0'));
    assert_eq!(first.prev, "");
    assert_eq!(first.id, 7);
    assert!(first.nonce >= nonce && first.nonce < nonce + 64);
    assert_eq!(first.generate_hash(), first.hash);
    let tail = first.hash.clone();
    bc.add(first);
    let mut nonce: u64 = 0;
    let second = loop {
        if let Some(b) = bc.mine(7, nonce, SystemTime::now(), txs.clone()) {
            break b;
        }
        nonce += 64;
    };
    assert_eq!(second.prev, tail);
    assert_eq!(second.txs, txs);
}

#[test]
fn hash_ignores_stored_hash_and_is_stable() {
    let a = Block::new(3, "abc".to_string(), vec![Tx { from: 'X', to: 'Y', amount: -4, fee: 10 }], 9, 12);
    let mut b = a.clone();
    b.hash = "ffff".to_string();
    assert_eq!(a.generate_hash(), b.generate_hash());
    assert_eq!(a.generate_hash(), a.generate_hash());
    let mut c = a.clone();
    c.nonce = 10;
    assert_ne!(a.generate_hash(), c.generate_hash());
}

#[test]
fn zero_batch_finds_nothing() {
    let bc = Blockchain::new(0, 0, 0);
    assert!(bc.mine(1, 0, SystemTime::now(), vec![]).is_none());
}

#[test]
fn difficulty_zero_accepts_first_try() {
    let bc = Blockchain::new(0, 0, 1);
    let b = bc.mine(1, 5, SystemTime::now(), vec![]).unwrap();
    assert_eq!(b.nonce, 5);
    assert_eq!(b.generate_hash(), b.hash);
}

#[test]
fn mining_near_the_top_of_the_nonce_range() {
    let bc = Blockchain::new(0, 0, 10);
    let b = bc.mine(1, u64::MAX, SystemTime::now(), vec![]).unwrap();
    assert_eq!(b.nonce, u64::MAX);
}

#[test]
fn ok_to_mine_threshold() {
    let bc = Blockchain::new(3, 2, 100);
    let tx = Tx { from: 'A', to: 'B', amount: 1, fee: 1 };
    assert!(!bc.ok_to_mine(&[tx, tx]));
    assert!(bc.ok_to_mine(&[tx, tx, tx]));
    assert!(bc.ok_to_mine(&[tx, tx, tx, tx]));
    assert_eq!(bc.get_concurrent_hashes(), 100);
}

#[test]
fn add_is_unconditional() {
    let mut bc = Blockchain::new(3, 2, 100);
    let mut a = Block::new(1, "not-a-hash".to_string(), vec![], 0, 0);
    a.hash = "garbage".to_string();
    let b = Block::new(2, "also-wrong".to_string(), vec![], 0, 0);
    bc.add(a);
    bc.add(b);
    assert_eq!(bc.get_all().len(), 2);
    assert_eq!(bc.get_all()[0].hash, "garbage");
    assert_eq!(bc.get_all()[1].id, 2);
}

#[test]
fn block_accessors() {
    let txs = vec![Tx { from: 'A', to: 'B', amount: 1, fee: 1 }];
    let b = Block::new(1, "p".to_string(), txs.clone(), 4, 8);
    assert_eq!(b.len(), 1);
    assert_eq!(b.get_all(), &txs);
    assert_eq!(b.hash, "");
    let c = b.copied();
    assert_eq!(c.prev, "p");
    assert_eq!(c.txs, txs);
}

#[test]
fn candidate_at_difficulty_zero_is_always_taken() {
    let bc = Blockchain::new(0, 0, 1);
    let txs = vec![Tx { from: 'A', to: 'B', amount: 1, fee: 5 }];
    let b = bc.try_candidate(2, &"pp".to_string(), &txs, 11, 99).unwrap();
    assert_eq!((b.id, b.nonce, b.ms), (2, 11, 99));
    assert_eq!(b.prev, "pp");
    assert_eq!(b.hash, Block::new(2, "pp".to_string(), txs.clone(), 11, 99).generate_hash());
}

#[test]
fn candidate_below_difficulty_is_refused() {
    let bc = Blockchain::new(0, 2, 1);
    let txs: Vec<Tx> = vec![];
    let mut found = 0;
    for nonce in 0..200u64 {
        let h = Block::new(1, String::new(), txs.clone(), nonce, 0).generate_hash();
        let r = bc.try_candidate(1, &String::new(), &txs, nonce, 0);
        assert_eq!(r.is_some(), h.starts_with("00"));
        if r.is_some() {
            found += 1;
        }
    }
    assert!(found < 200);
}

#[test]
fn generated_hash_is_lowercase_hex_of_a_digest() {
    for nonce in 0..50u64 {
        let h = Block::new(1, String::new(), vec![], nonce, 0).generate_hash();
        assert!(h.len() >= 32 && h.len() <= 64);
        assert!(h.chars().all(|c| ('0'..='9').contains(&c) || ('a'..='f').contains(&c)));
    }
}

#[test]
fn difficulty_zero_always_mines_a_block() {
    let bc = Blockchain::new(0, 0, 3);
    for nonce in [0u64, 17, u64::MAX - 1] {
        assert!(bc.mine(9, nonce, SystemTime::now(), vec![]).is_some());
    }
}
