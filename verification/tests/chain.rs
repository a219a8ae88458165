use copt_ledger::blockchain::{frame_block, write_transaction, Block, Blockchain, PaymentTx};

const GENESIS_HASH: &str = "98d5015e891c4ca88579e515ef98bd6daeb588d77618f8a7ed1a0cee800bb017";

const PAYMENT_SIGNATURE: &str =
    "/MKnwvQ4z1EzRgCmU/eiNbuJjrA09S+tAJncJRgH0dgKIiMnYm1rw7QddngJ/ka+euKQVnTgH6u1aGHnulEZBw==";

fn tx(resident_id: u32, amount: u64, timestamp: u64, signature: &str) -> PaymentTx {
    PaymentTx { resident_id, amount, timestamp, hash_firma: signature.to_string() }
}

fn chain_of_three() -> Blockchain {
    let mut ledger = Blockchain::genesis_at(1700000000);
    ledger.append_at(vec![tx(1, 500, 1700000000, PAYMENT_SIGNATURE)], 1700000000);
    ledger.append_at(vec![tx(1, 300, 1700000050, "c2ln"), tx(2, 10, 1700000051, "")], 1700000060);
    ledger
}

#[test]
fn transaction_text_is_a_compact_object() {
    let mut out = String::from("<");
    write_transaction(&mut out, 1, 500, 1700000000, "\"c2ln\"");
    assert_eq!(
        out,
        "<{\"resident_id\":1,\"amount\":500,\"timestamp\":1700000000,\"hash_firma\":\"c2ln\"}"
    );
}

#[test]
fn block_text_is_a_compact_array() {
    assert_eq!(frame_block(0, 1700000000, "", "\"0\""), "[0,1700000000,[],\"0\"]");
    assert_eq!(frame_block(3, 4, "{},{}", "\"ab\""), "[3,4,[{},{}],\"ab\"]");
}

#[test]
fn genesis_hash_is_the_digest_of_its_text() {
    let ledger = Blockchain::genesis_at(1700000000);
    assert_eq!(ledger.chain.len(), 1);
    let genesis = &ledger.chain[0];
    assert_eq!(genesis.index, 0);
    assert_eq!(genesis.timestamp, 1700000000);
    assert!(genesis.transactions.is_empty());
    assert_eq!(genesis.previous_hash, "0");
    assert_eq!(genesis.hash, GENESIS_HASH);
}

#[test]
fn fresh_chain_holds_only_a_genesis_block() {
    let ledger = Blockchain::new();
    assert_eq!(ledger.chain.len(), 1);
    let genesis = &ledger.chain[0];
    assert_eq!(genesis.index, 0);
    assert!(genesis.transactions.is_empty());
    assert_eq!(genesis.previous_hash, "0");
    assert_eq!(genesis.hash, genesis.calculate_hash());
    assert!(genesis.timestamp > 1_577_836_800);
    assert_eq!(ledger.verify_chain(), None);
    assert!(ledger.is_growable());
}

#[test]
fn appended_block_names_the_tail() {
    let mut ledger = Blockchain::genesis_at(1700000000);
    ledger.append_at(vec![tx(1, 500, 1700000000, PAYMENT_SIGNATURE)], 1700000000);
    assert_eq!(ledger.chain.len(), 2);
    let block = &ledger.chain[1];
    assert_eq!(block.index, 1);
    assert_eq!(block.timestamp, 1700000000);
    assert_eq!(block.previous_hash, GENESIS_HASH);
    assert_eq!(block.transactions.len(), 1);
    assert_eq!(block.transactions[0].resident_id, 1);
    assert_eq!(block.transactions[0].amount, 500);
    assert_eq!(block.hash, "7df0270f32211b4b54b362423a9c9cfb1c29f860ea8853dfabb6e1f2b22721b7");
    assert_eq!(ledger.chain[0].hash, GENESIS_HASH);
}

#[test]
fn block_hash_covers_every_transaction_and_escapes_text() {
    let block =
        Block::at(2, 5, vec![tx(1, 2, 3, "x"), tx(4, 5, 6, "y\"z")], "ab".to_string());
    assert_eq!(block.hash, "060d21daca407bb68ace32e80833e59435b70e1c639145ad2056518c86ec7db1");
    assert_eq!(block.index, 2);
    assert_eq!(block.timestamp, 5);
    assert_eq!(block.previous_hash, "ab");
    assert_eq!(block.transactions.len(), 2);
    assert_eq!(block.transactions[1].hash_firma, "y\"z");
}

#[test]
fn block_hash_depends_on_each_part() {
    let base = Block::at(1, 10, vec![tx(1, 2, 3, "s")], "p".to_string()).hash;
    assert_ne!(Block::at(2, 10, vec![tx(1, 2, 3, "s")], "p".to_string()).hash, base);
    assert_ne!(Block::at(1, 11, vec![tx(1, 2, 3, "s")], "p".to_string()).hash, base);
    assert_ne!(Block::at(1, 10, vec![tx(1, 2, 4, "s")], "p".to_string()).hash, base);
    assert_ne!(Block::at(1, 10, vec![tx(1, 2, 3, "t")], "p".to_string()).hash, base);
    assert_ne!(Block::at(1, 10, vec![], "p".to_string()).hash, base);
    assert_ne!(Block::at(1, 10, vec![tx(1, 2, 3, "s")], "q".to_string()).hash, base);
    assert_eq!(Block::at(1, 10, vec![tx(1, 2, 3, "s")], "p".to_string()).hash, base);
}

#[test]
fn calculate_hash_ignores_the_stored_hash() {
    let mut block = Block::at(0, 1700000000, vec![], "0".to_string());
    block.hash = "anything".to_string();
    assert_eq!(block.calculate_hash(), GENESIS_HASH);
}

#[test]
fn new_block_is_sealed_and_stamped() {
    let block = Block::new(4, vec![tx(9, 8, 7, "sig")], "prev".to_string());
    assert_eq!(block.index, 4);
    assert_eq!(block.previous_hash, "prev");
    assert_eq!(block.transactions.len(), 1);
    assert_eq!(block.hash, block.calculate_hash());
    assert!(block.timestamp > 1_577_836_800);
}

#[test]
fn add_block_links_every_block_to_the_one_before() {
    let mut ledger = Blockchain::new();
    ledger.add_block(vec![tx(1, 500, 1, "a")]);
    ledger.add_block(vec![]);
    ledger.add_block(vec![tx(1, 300, 2, "b"), tx(2, 5, 3, "c")]);
    assert_eq!(ledger.chain.len(), 4);
    for i in 1..ledger.chain.len() {
        assert_eq!(ledger.chain[i].index, i as u64);
        assert_eq!(ledger.chain[i].previous_hash, ledger.chain[i - 1].hash);
        assert_eq!(ledger.chain[i].hash, ledger.chain[i].calculate_hash());
    }
    assert_eq!(ledger.chain[3].transactions.len(), 2);
    assert_eq!(ledger.verify_chain(), None);
}

#[test]
fn intact_chain_passes_the_walk() {
    assert_eq!(chain_of_three().verify_chain(), None);
    assert_eq!(Blockchain { chain: vec![] }.verify_chain(), None);
}

#[test]
fn walk_reports_a_changed_amount() {
    let mut ledger = chain_of_three();
    ledger.chain[1].transactions[0].amount = 5;
    assert_eq!(ledger.verify_chain(), Some(1));
}

#[test]
fn walk_reports_a_changed_hash() {
    let mut ledger = chain_of_three();
    ledger.chain[0].hash = GENESIS_HASH.replace('9', "8");
    assert_eq!(ledger.verify_chain(), Some(0));
}

#[test]
fn walk_reports_a_resealed_block_by_its_successor() {
    let mut ledger = chain_of_three();
    ledger.chain[1].transactions[0].amount = 5;
    ledger.chain[1].hash = ledger.chain[1].calculate_hash();
    assert_eq!(ledger.verify_chain(), Some(2));
}

#[test]
fn walk_reports_the_first_of_several_faults() {
    let mut ledger = chain_of_three();
    ledger.chain[2].timestamp += 1;
    ledger.chain[1].timestamp += 1;
    assert_eq!(ledger.verify_chain(), Some(1));
}

#[test]
fn walk_reports_a_broken_link() {
    let mut ledger = chain_of_three();
    ledger.chain[2].previous_hash = GENESIS_HASH.to_string();
    ledger.chain[2].hash = ledger.chain[2].calculate_hash();
    assert_eq!(ledger.verify_chain(), Some(2));
}

#[test]
fn chain_grows_only_from_a_tail_with_a_successor() {
    assert!(chain_of_three().is_growable());
    assert!(!Blockchain { chain: vec![] }.is_growable());
    let last = Block::at(u64::MAX, 1, vec![], "0".to_string());
    assert!(!Blockchain { chain: vec![last] }.is_growable());
    let almost = Block::at(u64::MAX - 1, 1, vec![], "0".to_string());
    let mut ledger = Blockchain { chain: vec![almost] };
    assert!(ledger.is_growable());
    ledger.append_at(vec![], 2);
    assert_eq!(ledger.chain[1].index, u64::MAX);
}

#[test]
fn stored_chain_is_kept_and_a_missing_one_replaced() {
    let kept = Blockchain::load_or_initialize(Some(chain_of_three()));
    assert_eq!(kept.chain.len(), 3);
    assert_eq!(kept.chain[0].hash, GENESIS_HASH);
    assert_eq!(kept.chain[2].index, 2);
    let fresh = Blockchain::load_or_initialize(None);
    assert_eq!(fresh.chain.len(), 1);
    assert_eq!(fresh.chain[0].index, 0);
    assert_eq!(fresh.chain[0].previous_hash, "0");
}

#[test]
fn stored_chain_without_blocks_is_replaced_by_a_fresh_one() {
    let mut ledger = Blockchain::load_or_initialize(Some(Blockchain { chain: vec![] }));
    assert_eq!(ledger.chain.len(), 1);
    let genesis = &ledger.chain[0];
    assert_eq!(genesis.index, 0);
    assert!(genesis.transactions.is_empty());
    assert_eq!(genesis.previous_hash, "0");
    assert_eq!(genesis.hash, genesis.calculate_hash());
    assert!(ledger.is_growable());
    ledger.add_block(vec![]);
    assert_eq!(ledger.chain.len(), 2);
    assert_eq!(ledger.verify_chain(), None);
}

#[test]
fn stored_chain_is_kept_even_where_it_is_broken() {
    let mut stored = chain_of_three();
    stored.chain[1].timestamp += 1;
    let kept = Blockchain::load_or_initialize(Some(stored));
    assert_eq!(kept.chain.len(), 3);
    assert_eq!(kept.verify_chain(), Some(1));
}
