use copt_ledger::auth::AuthenticatedUser;
use copt_ledger::blockchain::{Blockchain, PaymentTx};
use copt_ledger::clock::Timestamp;
use copt_ledger::error::LedgerError;
use copt_ledger::model::{Payment, Resident};
use copt_ledger::signature::decode_signing_key;
use copt_ledger::storage::{Report, Storage};
use std::collections::HashMap;

const KEY_TEXT: &str = "AAECAwQFBgcICQoLDA0ODxAREhMUFRYXGBkaGxwdHh8=";

fn admin() -> AuthenticatedUser {
    AuthenticatedUser { id: 999, name: "admin".to_string(), role: "admin".to_string() }
}

fn user(id: u32, name: &str) -> AuthenticatedUser {
    AuthenticatedUser { id, name: name.to_string(), role: "user".to_string() }
}

fn resident(id: u32, name: &str, key_text: &str) -> Resident {
    Resident {
        id,
        name: name.to_string(),
        wallet: format!("w{}", id),
        private_key: key_text.to_string(),
    }
}

fn at(seconds: i64) -> Timestamp {
    Timestamp { seconds, nanos: 0 }
}

fn payment(resident_id: u32, amount: u64, seconds: i64) -> Payment {
    Payment { resident_id, amount_copt: amount, timestamp: at(seconds) }
}

fn ledger_with_ana() -> Storage {
    let mut storage =
        Storage::load_from_files(None, None, Some(Blockchain::genesis_at(1700000000)));
    storage.add_resident(resident(1, "Ana", KEY_TEXT)).unwrap();
    storage
}

#[test]
fn new_ledger_is_empty_with_a_genesis_block() {
    let storage = Storage::new();
    assert!(storage.residents.is_empty());
    assert!(storage.payments.is_empty());
    assert_eq!(storage.blockchain.chain.len(), 1);
    assert_eq!(storage.blockchain.chain[0].index, 0);
    assert!(storage.blockchain.chain[0].transactions.is_empty());
    assert_eq!(storage.blockchain.chain[0].previous_hash, "0");
    assert_eq!(storage.get_resident_balance(1), 0);
}

#[test]
fn register_then_charge_gives_balance_and_block() {
    let mut storage = Storage::new();
    assert_eq!(storage.register(&admin(), 1, "Ana".to_string(), "w1".to_string()), Ok(()));
    assert_eq!(storage.charge(&user(1, "Ana"), 1, 500), Ok(()));
    assert_eq!(storage.get_resident_balance(1), 500);
    assert_eq!(storage.blockchain.chain.len(), 2);
    let block = &storage.blockchain.chain[1];
    assert_eq!(block.index, 1);
    assert_eq!(block.transactions.len(), 1);
    assert_eq!(block.transactions[0].resident_id, 1);
    assert_eq!(block.transactions[0].amount, 500);
    assert_eq!(block.previous_hash, storage.blockchain.chain[0].hash);
    assert_eq!(storage.blockchain.verify_chain(), None);
    assert!(storage.verify_transaction(&block.transactions[0]));
}

#[test]
fn two_charges_make_two_blocks() {
    let mut storage = Storage::new();
    storage.register(&admin(), 1, "Ana".to_string(), "w1".to_string()).unwrap();
    assert_eq!(storage.charge(&user(1, "Ana"), 1, 500), Ok(()));
    assert_eq!(storage.charge(&user(1, "Ana"), 1, 300), Ok(()));
    assert_eq!(storage.payments.len(), 2);
    assert_eq!(storage.payments[0].amount_copt, 500);
    assert_eq!(storage.payments[1].amount_copt, 300);
    assert_eq!(storage.blockchain.chain.len(), 3);
    assert_eq!(storage.blockchain.chain[1].transactions.len(), 1);
    assert_eq!(storage.blockchain.chain[1].transactions[0].amount, 500);
    assert_eq!(storage.blockchain.chain[2].transactions.len(), 1);
    assert_eq!(storage.blockchain.chain[2].transactions[0].amount, 300);
    assert_eq!(storage.blockchain.chain[2].index, 2);
    assert_eq!(storage.get_resident_balance(1), 800);
    assert_eq!(storage.blockchain.verify_chain(), None);
}

#[test]
fn charge_at_a_known_instant_gives_a_known_block() {
    let mut storage = ledger_with_ana();
    let now = Timestamp { seconds: 1700000000, nanos: 123 };
    assert_eq!(storage.charge_at(&user(1, "Ana"), 1, 500, now), Ok(()));
    assert_eq!(storage.payments, vec![Payment { resident_id: 1, amount_copt: 500, timestamp: now }]);
    let block = &storage.blockchain.chain[1];
    assert_eq!(block.timestamp, 1700000000);
    assert_eq!(block.transactions[0].timestamp, 1700000000);
    assert_eq!(
        block.transactions[0].hash_firma,
        "/MKnwvQ4z1EzRgCmU/eiNbuJjrA09S+tAJncJRgH0dgKIiMnYm1rw7QddngJ/ka+euKQVnTgH6u1aGHnulEZBw=="
    );
    assert_eq!(block.hash, "7df0270f32211b4b54b362423a9c9cfb1c29f860ea8853dfabb6e1f2b22721b7");
}

#[test]
fn charge_for_someone_else_is_forbidden() {
    let mut storage = ledger_with_ana();
    assert_eq!(storage.charge_at(&user(2, "Luz"), 1, 500, at(5)), Err(LedgerError::Forbidden));
    assert_eq!(storage.charge_at(&admin(), 1, 500, at(5)), Err(LedgerError::Forbidden));
    assert!(storage.payments.is_empty());
    assert_eq!(storage.blockchain.chain.len(), 1);
}

#[test]
fn charge_of_an_unknown_resident_is_rejected() {
    let mut storage = ledger_with_ana();
    assert_eq!(
        storage.charge_at(&user(2, "Luz"), 2, 500, at(5)),
        Err(LedgerError::ResidentNotFound)
    );
    assert!(storage.payments.is_empty());
    assert_eq!(storage.blockchain.chain.len(), 1);
}

#[test]
fn charge_with_a_bad_key_is_rejected() {
    let mut storage = ledger_with_ana();
    storage.add_resident(resident(2, "Luz", "no key")).unwrap();
    storage.add_resident(resident(3, "Eva", "AAECAw==")).unwrap();
    assert_eq!(storage.charge_at(&user(2, "Luz"), 2, 500, at(5)), Err(LedgerError::InvalidKey));
    assert_eq!(storage.charge_at(&user(3, "Eva"), 3, 500, at(5)), Err(LedgerError::InvalidKey));
    assert!(storage.payments.is_empty());
    assert_eq!(storage.blockchain.chain.len(), 1);
}

#[test]
fn charge_needs_a_chain_that_can_grow() {
    let mut storage = ledger_with_ana();
    storage.blockchain = Blockchain { chain: vec![] };
    assert_eq!(
        storage.charge_at(&user(1, "Ana"), 1, 500, at(5)),
        Err(LedgerError::ChainExhausted)
    );
    assert!(storage.payments.is_empty());
    assert!(storage.blockchain.chain.is_empty());
}

#[test]
fn charge_of_zero_is_recorded() {
    let mut storage = ledger_with_ana();
    assert_eq!(storage.charge_at(&user(1, "Ana"), 1, 0, at(5)), Ok(()));
    assert_eq!(storage.payments.len(), 1);
    assert_eq!(storage.get_resident_balance(1), 0);
    assert_eq!(storage.blockchain.chain.len(), 2);
}

#[test]
fn charged_transaction_is_authentic_and_a_changed_one_is_not() {
    let mut storage = ledger_with_ana();
    storage.charge_at(&user(1, "Ana"), 1, 500, at(1700000000)).unwrap();
    let tx = storage.blockchain.chain[1].transactions[0].clone();
    assert!(storage.verify_transaction(&tx));
    let changed = PaymentTx { amount: 501, ..tx.clone() };
    assert!(!storage.verify_transaction(&changed));
    let moved = PaymentTx { resident_id: 7, ..tx.clone() };
    assert!(!storage.verify_transaction(&moved));
    let unsigned = PaymentTx { hash_firma: String::new(), ..tx };
    assert!(!storage.verify_transaction(&unsigned));
}

#[test]
fn transaction_of_a_resident_with_a_bad_key_is_not_authentic() {
    let mut storage = ledger_with_ana();
    storage.charge_at(&user(1, "Ana"), 1, 500, at(1700000000)).unwrap();
    let tx = storage.blockchain.chain[1].transactions[0].clone();
    storage.residents.get_mut(&1).unwrap().private_key = "AAECAw==".to_string();
    assert!(!storage.verify_transaction(&tx));
}

#[test]
fn duplicate_resident_is_rejected() {
    let mut storage = ledger_with_ana();
    assert_eq!(
        storage.add_resident(resident(1, "Other", KEY_TEXT)),
        Err(LedgerError::DuplicateResident)
    );
    assert_eq!(storage.residents.len(), 1);
    assert_eq!(storage.residents[&1].name, "Ana");
    assert_eq!(storage.add_resident(resident(2, "Luz", KEY_TEXT)), Ok(()));
    assert_eq!(storage.residents.len(), 2);
    assert_eq!(storage.residents[&2].wallet, "w2");
}

#[test]
fn balance_is_the_sum_of_the_residents_payments() {
    let mut storage = Storage::new();
    assert_eq!(storage.get_resident_balance(1), 0);
    storage.add_payment(payment(1, 500, 1));
    storage.add_payment(payment(2, 70, 2));
    storage.add_payment(payment(1, 300, 3));
    storage.add_payment(payment(1, 0, 4));
    assert_eq!(storage.get_resident_balance(1), 800);
    assert_eq!(storage.get_resident_balance(2), 70);
    assert_eq!(storage.get_resident_balance(3), 0);
    assert_eq!(storage.checked_balance(1), Some(800));
    assert_eq!(storage.checked_balance(3), Some(0));
}

#[test]
fn payments_are_recorded_for_unknown_residents_too() {
    let mut storage = Storage::new();
    storage.add_payment(payment(42, 9, 1));
    assert_eq!(storage.payments, vec![payment(42, 9, 1)]);
    assert_eq!(storage.get_resident_balance(42), 9);
    assert_eq!(storage.blockchain.chain.len(), 1);
}

#[test]
fn balance_that_does_not_fit_is_reported() {
    let mut storage = Storage::new();
    storage.add_payment(payment(1, u64::MAX, 1));
    assert_eq!(storage.checked_balance(1), Some(u64::MAX));
    assert_eq!(storage.get_resident_balance(1), u64::MAX);
    storage.add_payment(payment(2, 5, 2));
    storage.add_payment(payment(1, 1, 3));
    assert_eq!(storage.checked_balance(1), None);
    assert_eq!(storage.checked_balance(2), Some(5));
}

#[test]
fn payments_are_listed_in_order_of_acceptance() {
    let mut storage = Storage::new();
    storage.add_payment(payment(1, 500, 1));
    storage.add_payment(payment(2, 70, 2));
    storage.add_payment(payment(1, 300, 3));
    let all: Vec<Payment> = storage.list_payments(None).into_iter().copied().collect();
    assert_eq!(all, vec![payment(1, 500, 1), payment(2, 70, 2), payment(1, 300, 3)]);
    let own: Vec<Payment> = storage.list_payments(Some(1)).into_iter().copied().collect();
    assert_eq!(own, vec![payment(1, 500, 1), payment(1, 300, 3)]);
    assert!(storage.list_payments(Some(9)).is_empty());
}

#[test]
fn residents_are_listed_once_each() {
    let mut storage = Storage::new();
    assert!(storage.list_residents().is_empty());
    for id in [5u32, 1, 9] {
        storage.add_resident(resident(id, "N", KEY_TEXT)).unwrap();
    }
    let mut ids: Vec<u32> = storage.list_residents().iter().map(|r| r.id).collect();
    ids.sort();
    assert_eq!(ids, vec![1, 5, 9]);
}

#[test]
fn only_an_admin_registers() {
    let mut storage = Storage::new();
    assert_eq!(
        storage.register(&user(1, "Ana"), 1, "Ana".to_string(), "w1".to_string()),
        Err(LedgerError::Forbidden)
    );
    assert!(storage.residents.is_empty());
    assert_eq!(
        storage.register_with_key(
            &user(1, "Ana"),
            1,
            "Ana".to_string(),
            "w1".to_string(),
            KEY_TEXT.to_string()
        ),
        Err(LedgerError::Forbidden)
    );
    assert!(storage.residents.is_empty());
}

#[test]
fn registration_gives_each_resident_a_key_of_their_own() {
    let mut storage = Storage::new();
    storage.register(&admin(), 1, "Ana".to_string(), "w1".to_string()).unwrap();
    storage.register(&admin(), 2, "Luz".to_string(), "w2".to_string()).unwrap();
    let ana = &storage.residents[&1];
    assert_eq!(ana.id, 1);
    assert_eq!(ana.name, "Ana");
    assert_eq!(ana.wallet, "w1");
    assert_eq!(decode_signing_key(&ana.private_key).unwrap().len(), 32);
    assert_ne!(ana.private_key, storage.residents[&2].private_key);
    assert_eq!(storage.blockchain.chain.len(), 1);
    assert!(storage.payments.is_empty());
}

#[test]
fn registration_of_a_taken_identifier_is_rejected() {
    let mut storage = ledger_with_ana();
    assert_eq!(
        storage.register(&admin(), 1, "Other".to_string(), "w9".to_string()),
        Err(LedgerError::DuplicateResident)
    );
    assert_eq!(
        storage.register_with_key(
            &admin(),
            1,
            "Other".to_string(),
            "w9".to_string(),
            "k".to_string()
        ),
        Err(LedgerError::DuplicateResident)
    );
    assert_eq!(storage.residents[&1].name, "Ana");
    assert_eq!(storage.residents[&1].private_key, KEY_TEXT);
}

#[test]
fn registration_with_a_given_key_keeps_the_key() {
    let mut storage = Storage::new();
    assert_eq!(
        storage.register_with_key(
            &admin(),
            4,
            "Eva".to_string(),
            "w4".to_string(),
            KEY_TEXT.to_string()
        ),
        Ok(())
    );
    let eva = &storage.residents[&4];
    assert_eq!((eva.id, eva.name.as_str(), eva.wallet.as_str()), (4, "Eva", "w4"));
    assert_eq!(eva.private_key, KEY_TEXT);
}

#[test]
fn login_needs_the_registered_name() {
    let storage = ledger_with_ana();
    let claims = storage.login(1, "Ana", at(1700000000)).unwrap();
    assert_eq!(claims.sub, 1);
    assert_eq!(claims.name, "Ana");
    assert_eq!(claims.role, "user");
    assert_eq!(claims.exp, 1700086400);
    assert!(storage.login(1, "ana", at(1700000000)).is_none());
    assert!(storage.login(1, "", at(1700000000)).is_none());
    assert!(storage.login(2, "Ana", at(1700000000)).is_none());
}

#[test]
fn report_shows_a_resident_their_own_account() {
    let mut storage = ledger_with_ana();
    storage.add_resident(resident(2, "Luz", KEY_TEXT)).unwrap();
    storage.add_payment(payment(1, 500, 1));
    storage.add_payment(payment(2, 70, 2));
    storage.add_payment(payment(1, 300, 3));
    match storage.report(&user(1, "Ana"), Some(1)) {
        Ok(Report::Resident { id, saldo, pagos }) => {
            assert_eq!(id, 1);
            assert_eq!(saldo, 800);
            assert_eq!(pagos, vec![payment(1, 500, 1), payment(1, 300, 3)]);
        },
        other => panic!("unexpected report: {:?}", other),
    }
}

#[test]
fn report_of_another_or_unknown_account_is_rejected() {
    let mut storage = ledger_with_ana();
    storage.add_resident(resident(2, "Luz", KEY_TEXT)).unwrap();
    assert!(matches!(
        storage.report(&user(1, "Ana"), Some(2)),
        Err(LedgerError::ResidentNotFound)
    ));
    assert!(matches!(storage.report(&admin(), Some(1)), Err(LedgerError::ResidentNotFound)));
    assert!(matches!(
        storage.report(&user(3, "Eva"), Some(3)),
        Err(LedgerError::ResidentNotFound)
    ));
}

#[test]
fn report_without_identifier_sums_up_every_resident() {
    let mut storage = ledger_with_ana();
    storage.add_resident(resident(2, "Luz", KEY_TEXT)).unwrap();
    storage.add_resident(resident(3, "Eva", KEY_TEXT)).unwrap();
    storage.add_payment(payment(1, 500, 1));
    storage.add_payment(payment(2, 70, 2));
    storage.add_payment(payment(1, 300, 3));
    storage.add_payment(payment(8, 1, 4));
    match storage.report(&user(2, "Luz"), None) {
        Ok(Report::Summary { mut resumen }) => {
            resumen.sort();
            assert_eq!(
                resumen,
                vec![("Ana".to_string(), 800), ("Eva".to_string(), 0), ("Luz".to_string(), 70)]
            );
        },
        other => panic!("unexpected report: {:?}", other),
    }
}

#[test]
fn report_of_an_empty_registry_is_empty() {
    let storage = Storage::new();
    match storage.report(&admin(), None) {
        Ok(Report::Summary { resumen }) => assert!(resumen.is_empty()),
        other => panic!("unexpected report: {:?}", other),
    }
}

#[test]
fn report_says_when_a_balance_does_not_fit() {
    let mut storage = ledger_with_ana();
    storage.add_payment(payment(1, u64::MAX, 1));
    storage.add_payment(payment(1, 1, 2));
    assert!(matches!(
        storage.report(&user(1, "Ana"), Some(1)),
        Err(LedgerError::BalanceOverflow)
    ));
    assert!(matches!(storage.report(&user(1, "Ana"), None), Err(LedgerError::BalanceOverflow)));
}

#[test]
fn missing_payments_do_not_lose_residents_or_chain() {
    let mut residents = HashMap::new();
    residents.insert(1, resident(1, "Ana", KEY_TEXT));
    let mut chain = Blockchain::genesis_at(1700000000);
    chain.append_at(vec![], 1700000001);
    let tail = chain.chain[1].hash.clone();
    let storage = Storage::load_from_files(Some(residents), None, Some(chain));
    assert_eq!(storage.residents.len(), 1);
    assert_eq!(storage.residents[&1].name, "Ana");
    assert_eq!(storage.residents[&1].private_key, KEY_TEXT);
    assert!(storage.payments.is_empty());
    assert_eq!(storage.blockchain.chain.len(), 2);
    assert_eq!(storage.blockchain.chain[1].hash, tail);
}

#[test]
fn every_missing_part_is_replaced_by_its_empty_state() {
    let storage = Storage::load_from_files(None, None, None);
    assert!(storage.residents.is_empty());
    assert!(storage.payments.is_empty());
    assert_eq!(storage.blockchain.chain.len(), 1);
    assert_eq!(storage.blockchain.chain[0].index, 0);
    let storage = Storage::load_from_files(None, Some(vec![payment(1, 2, 3)]), None);
    assert!(storage.residents.is_empty());
    assert_eq!(storage.payments, vec![payment(1, 2, 3)]);
    assert_eq!(storage.blockchain.verify_chain(), None);
}

#[test]
fn payment_made_now_is_stamped_by_the_clock() {
    let made = Payment::new(3, 40);
    assert_eq!(made.resident_id, 3);
    assert_eq!(made.amount_copt, 40);
    assert!(made.timestamp.seconds > 1_577_836_800);
    assert_eq!(Payment::at(3, 40, at(9)), payment(3, 40, 9));
}

#[test]
fn ledger_loaded_from_a_chain_without_blocks_takes_charges() {
    let mut residents = HashMap::new();
    residents.insert(1, resident(1, "Ana", KEY_TEXT));
    let mut storage = Storage::load_from_files(
        Some(residents),
        Some(vec![payment(1, 5, 1)]),
        Some(Blockchain { chain: vec![] }),
    );
    assert_eq!(storage.blockchain.chain.len(), 1);
    assert_eq!(storage.blockchain.chain[0].index, 0);
    assert_eq!(storage.blockchain.chain[0].previous_hash, "0");
    assert_eq!(storage.residents.len(), 1);
    assert_eq!(storage.payments, vec![payment(1, 5, 1)]);
    assert_eq!(storage.charge(&user(1, "Ana"), 1, 500), Ok(()));
    assert_eq!(storage.blockchain.chain.len(), 2);
    assert_eq!(storage.get_resident_balance(1), 505);
    assert_eq!(storage.blockchain.verify_chain(), None);
}

#[test]
fn charge_stamps_payment_and_block_with_the_same_second() {
    let mut storage = ledger_with_ana();
    assert_eq!(storage.charge(&user(1, "Ana"), 1, 500), Ok(()));
    let block = &storage.blockchain.chain[1];
    let paid = storage.payments[0];
    assert_eq!(paid.timestamp.block_seconds(), block.timestamp);
    assert_eq!(block.transactions[0].timestamp, block.timestamp);
    assert!(storage.verify_transaction(&block.transactions[0]));
}
