use my_rust_blockchain::transactions::Ledger;
use my_rust_blockchain::transactions::Rejection;
use my_rust_blockchain::transactions::Transaction;
use sha2::Digest;
use sha2::Sha256;

fn sha_hex(parts: &[&str]) -> String {
    let mut hasher = Sha256::new();
    for p in parts {
        hasher.update(p.as_bytes());
    }
    format!("{:x}", hasher.finalize())
}

fn ledger_ab() -> Ledger {
    let mut l = Ledger::new();
    assert!(l.add_wallet(String::from("alice"), 100, String::from("pk-a")));
    assert!(l.add_wallet(String::from("bob"), 50, String::from("pk-b")));
    l
}

fn balance(l: &Ledger, addr: &str) -> i64 {
    l.get_wallet(addr).expect("wallet must exist").balance
}

#[test]
fn add_wallet_rejects_duplicates_and_negative_balances() {
    let mut l = Ledger::new();
    assert!(l.add_wallet(String::from("alice"), 100, String::from("pk")));
    assert!(!l.add_wallet(String::from("alice"), 10, String::from("pk2")));
    assert!(!l.add_wallet(String::from("carol"), -1, String::from("pk3")));
    assert_eq!(l.wallets.len(), 1);
}

#[test]
fn get_wallet_unknown_address_is_none() {
    let l = ledger_ab();
    assert!(l.get_wallet("carol").is_none());
    assert_eq!(balance(&l, "alice"), 100);
}

#[test]
fn accepted_transfer_moves_amount_and_conserves_total() {
    let mut l = ledger_ab();
    let tx = l
        .create_transaction("alice", "bob", 30, 1700000000)
        .expect("valid transfer must be admitted");
    assert_eq!(balance(&l, "alice"), 70);
    assert_eq!(balance(&l, "bob"), 80);
    assert_eq!(balance(&l, "alice") + balance(&l, "bob"), 150);
    assert_eq!(tx.from_address, "alice");
    assert_eq!(tx.to_address, "bob");
    assert_eq!(tx.amount, 30);
    assert_eq!(tx.sig, Some(sha_hex(&["alice", "bob", "30"])));
    assert_eq!(tx.added_to_block, Some(false));
    assert_eq!(tx.created_at, Some(1700000000));
    assert_eq!(tx.block_id, None);
    assert_eq!(l.transactions.len(), 1);
}

#[test]
fn negative_amount_is_rejected() {
    let mut l = ledger_ab();
    let r = l.create_transaction("alice", "bob", -5, 0);
    assert_eq!(r.unwrap_err(), Rejection::NegativeAmount);
    assert_eq!(balance(&l, "alice"), 100);
    assert_eq!(balance(&l, "bob"), 50);
    assert_eq!(l.transactions.len(), 0);
}

#[test]
fn insufficient_funds_is_rejected() {
    let mut l = ledger_ab();
    let r = l.create_transaction("alice", "bob", 150, 0);
    assert_eq!(r.unwrap_err(), Rejection::InsufficientFunds);
    assert_eq!(balance(&l, "alice"), 100);
}

#[test]
fn unknown_recipient_is_rejected_without_partial_debit() {
    let mut l = ledger_ab();
    let r = l.create_transaction("alice", "nobody", 10, 0);
    assert_eq!(r.unwrap_err(), Rejection::UnknownRecipient);
    assert_eq!(balance(&l, "alice"), 100);
    assert_eq!(l.transactions.len(), 0);
}

#[test]
fn unknown_sender_is_rejected() {
    let mut l = ledger_ab();
    let r = l.create_transaction("nobody", "bob", 10, 0);
    assert_eq!(r.unwrap_err(), Rejection::UnknownSender);
    assert_eq!(balance(&l, "bob"), 50);
}

#[test]
fn racing_transfers_cannot_both_succeed() {
    let mut l = ledger_ab();
    let first = l.create_transaction("alice", "bob", 60, 0);
    assert!(first.is_ok());
    let second = l.create_transaction("alice", "bob", 60, 0);
    assert_eq!(second.unwrap_err(), Rejection::InsufficientFunds);
    assert_eq!(balance(&l, "alice"), 40);
    assert_eq!(balance(&l, "bob"), 110);
}

#[test]
fn is_valid_mirrors_admission() {
    let l = ledger_ab();
    let good = Transaction {
        from_address: String::from("alice"),
        to_address: String::from("bob"),
        amount: 100,
        sig: None,
        added_to_block: None,
        created_at: None,
        block_id: None,
    };
    assert!(good.is_valid(&l));
    let broke = Transaction { amount: 101, ..good };
    assert!(!broke.is_valid(&l));
    let negative = Transaction { amount: -1, ..broke };
    assert!(!negative.is_valid(&l));
    let stranger = Transaction {
        from_address: String::from("carol"),
        amount: 1,
        ..negative
    };
    assert!(!stranger.is_valid(&l));
    let nowhere = Transaction {
        from_address: String::from("alice"),
        to_address: String::from("carol"),
        ..stranger
    };
    assert!(!nowhere.is_valid(&l));
}

#[test]
fn pending_and_assignment_follow_block_inclusion() {
    let mut l = ledger_ab();
    l.create_transaction("alice", "bob", 1, 0).unwrap();
    l.create_transaction("bob", "alice", 2, 1).unwrap();
    let pending = l.pending_transactions();
    assert_eq!(pending.len(), 2);
    l.assign_pending(7);
    assert!(l.pending_transactions().is_empty());
    assert_eq!(l.transactions[0].block_id, Some(7));
    assert_eq!(l.transactions[1].block_id, Some(7));
    // a later assignment touches only newly pending transactions
    l.create_transaction("alice", "bob", 3, 2).unwrap();
    l.assign_pending(8);
    assert_eq!(l.transactions[0].block_id, Some(7));
    assert_eq!(l.transactions[1].block_id, Some(7));
    assert_eq!(l.transactions[2].block_id, Some(8));
}

#[test]
fn self_transfer_within_balance_is_admitted_unchanged() {
    let mut l = ledger_ab();
    let r = l.create_transaction("alice", "alice", 40, 0);
    assert!(r.is_ok());
    assert_eq!(balance(&l, "alice"), 100);
}
