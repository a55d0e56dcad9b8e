use journal::address::entry_address;
use journal::instructions::{create_entry, delete_journal_entry, update_journal_entry};
use journal::journal::{CreateEntry, DeleteEntry, JournalError, Ledger, UpdateEntry};
use journal::key::Key;
use journal::space::{rent_for, required_space, text_len};

const FUNDS: u64 = 1_000_000_000;

fn program() -> Key {
    Key::new([7u8; 32])
}

fn alice() -> Key {
    Key::new([1u8; 32])
}

fn bob() -> Key {
    Key::new([2u8; 32])
}

fn funded_ledger() -> Ledger {
    let mut ledger = Ledger::new(program());
    assert!(ledger.fund(&alice(), FUNDS));
    assert!(ledger.fund(&bob(), FUNDS));
    ledger
}

fn address(owner: &Key, title: &str) -> Key {
    entry_address(&program(), owner, &title.to_string()).expect("address")
}

fn create(ledger: &mut Ledger, owner: Key, title: &str, message: &str) -> Result<(), JournalError> {
    create_entry(ledger, &CreateEntry { owner }, title.to_string(), message.to_string())
}

fn update(ledger: &mut Ledger, signer: Key, at: Key, title: &str, message: &str) -> Result<(), JournalError> {
    let ctx = UpdateEntry { journal_entry: at, owner: signer };
    update_journal_entry(ledger, &ctx, title.to_string(), message.to_string())
}

fn delete(ledger: &mut Ledger, signer: Key, at: Key, title: &str) -> Result<(), JournalError> {
    let ctx = DeleteEntry { journal_entry: at, owner: signer };
    delete_journal_entry(ledger, &ctx, title.to_string())
}

fn snapshot(ledger: &Ledger, at: &Key) -> Option<([u8; 32], String, String, u64, usize, u64)> {
    ledger.account(at).map(|a| {
        (a.state.owner.bytes, a.state.title.clone(), a.state.message.clone(), a.state.entry_id, a.space, a.lamports)
    })
}

#[test]
fn day_one_scenario() {
    let mut ledger = funded_ledger();
    let at = address(&alice(), "Day1");
    assert_eq!(create(&mut ledger, alice(), "Day1", "Woke up"), Ok(()));
    let before = ledger.account(&at).unwrap().space;
    assert_eq!(update(&mut ledger, alice(), at, "Day1", "Woke up late"), Ok(()));
    let after = ledger.account(&at).unwrap().space;
    assert_eq!(after - before, "Woke up late".len() - "Woke up".len());
    assert_eq!(after - before, 5);
    assert_eq!(delete(&mut ledger, alice(), at, "Day1"), Ok(()));
    assert_eq!(update(&mut ledger, alice(), at, "Day1", "x"), Err(JournalError::NotFound));
}

#[test]
fn create_then_read_returns_fields() {
    let mut ledger = funded_ledger();
    assert_eq!(create(&mut ledger, alice(), "Trip", "Went to the sea"), Ok(()));
    let e = ledger.entry(&address(&alice(), "Trip")).expect("entry");
    assert_eq!(e.owner.bytes, [1u8; 32]);
    assert_eq!(e.title, "Trip");
    assert_eq!(e.message, "Went to the sea");
    assert_eq!(e.entry_id, 0);
}

#[test]
fn create_sizes_and_funds_account() {
    let mut ledger = funded_ledger();
    assert_eq!(create(&mut ledger, alice(), "Day1", "Woke up"), Ok(()));
    let a = ledger.account(&address(&alice(), "Day1")).unwrap();
    assert_eq!(a.space, 67);
    assert_eq!(a.lamports, 1_357_200);
    assert_eq!(ledger.balance(&alice()), FUNDS - 1_357_200);
    assert_eq!(ledger.balance(&bob()), FUNDS);
}

#[test]
fn create_twice_already_exists() {
    let mut ledger = funded_ledger();
    let at = address(&alice(), "Day1");
    assert_eq!(create(&mut ledger, alice(), "Day1", "first"), Ok(()));
    let before = snapshot(&ledger, &at);
    let balance = ledger.balance(&alice());
    assert_eq!(create(&mut ledger, alice(), "Day1", "second"), Err(JournalError::AlreadyExists));
    assert_eq!(snapshot(&ledger, &at), before);
    assert_eq!(ledger.balance(&alice()), balance);
}

#[test]
fn same_title_other_owner_is_separate() {
    let mut ledger = funded_ledger();
    assert_eq!(create(&mut ledger, alice(), "Day1", "alice"), Ok(()));
    assert_eq!(create(&mut ledger, bob(), "Day1", "bob"), Ok(()));
    assert_eq!(ledger.entry(&address(&alice(), "Day1")).unwrap().message, "alice");
    assert_eq!(ledger.entry(&address(&bob(), "Day1")).unwrap().message, "bob");
}

#[test]
fn two_updates_keep_last_message() {
    let mut ledger = funded_ledger();
    let at = address(&alice(), "Notes");
    assert_eq!(create(&mut ledger, alice(), "Notes", "a"), Ok(()));
    assert_eq!(update(&mut ledger, alice(), at, "Notes", "first message"), Ok(()));
    assert_eq!(ledger.account(&at).unwrap().space, 56 + 5 + 13);
    assert_eq!(update(&mut ledger, alice(), at, "Notes", "second"), Ok(()));
    let a = ledger.account(&at).unwrap();
    assert_eq!(a.state.message, "second");
    assert_eq!(a.state.title, "Notes");
    assert_eq!(a.state.owner.bytes, [1u8; 32]);
    assert_eq!(a.space, 56 + 5 + 6);
    assert_eq!(a.lamports, rent_for(56 + 5 + 6));
}

#[test]
fn shrinking_update_refunds_owner() {
    let mut ledger = funded_ledger();
    let at = address(&alice(), "Day1");
    assert_eq!(create(&mut ledger, alice(), "Day1", "a long first message"), Ok(()));
    let balance = ledger.balance(&alice());
    assert_eq!(update(&mut ledger, alice(), at, "Day1", "short"), Ok(()));
    assert_eq!(ledger.balance(&alice()), balance + 15 * 6960);
}

#[test]
fn update_by_other_signer_not_owner() {
    let mut ledger = funded_ledger();
    let at = address(&alice(), "Day1");
    assert_eq!(create(&mut ledger, alice(), "Day1", "mine"), Ok(()));
    let before = snapshot(&ledger, &at);
    assert_eq!(update(&mut ledger, bob(), at, "Day1", "theirs"), Err(JournalError::NotOwner));
    assert_eq!(delete(&mut ledger, bob(), at, "Day1"), Err(JournalError::NotOwner));
    assert_eq!(snapshot(&ledger, &at), before);
    assert_eq!(ledger.balance(&bob()), FUNDS);
}

#[test]
fn delete_then_delete_not_found() {
    let mut ledger = funded_ledger();
    let at = address(&alice(), "Day1");
    assert_eq!(create(&mut ledger, alice(), "Day1", "Woke up"), Ok(()));
    assert_eq!(delete(&mut ledger, alice(), at, "Day1"), Ok(()));
    assert!(ledger.entry(&at).is_none());
    assert_eq!(ledger.balance(&alice()), FUNDS);
    assert_eq!(delete(&mut ledger, alice(), at, "Day1"), Err(JournalError::NotFound));
    assert_eq!(update(&mut ledger, alice(), at, "Day1", "again"), Err(JournalError::NotFound));
}

#[test]
fn recreate_after_delete() {
    let mut ledger = funded_ledger();
    let at = address(&alice(), "Day1");
    assert_eq!(create(&mut ledger, alice(), "Day1", "one"), Ok(()));
    assert_eq!(delete(&mut ledger, alice(), at, "Day1"), Ok(()));
    assert_eq!(create(&mut ledger, alice(), "Day1", "two"), Ok(()));
    assert_eq!(ledger.entry(&at).unwrap().message, "two");
}

#[test]
fn wrong_title_not_found() {
    let mut ledger = funded_ledger();
    let at = address(&alice(), "Day1");
    assert_eq!(create(&mut ledger, alice(), "Day1", "x"), Ok(()));
    assert_eq!(update(&mut ledger, alice(), at, "Day2", "y"), Err(JournalError::NotFound));
    assert_eq!(delete(&mut ledger, alice(), at, "Day2"), Err(JournalError::NotFound));
}

#[test]
fn title_too_long() {
    let mut ledger = funded_ledger();
    let title = "t".repeat(21);
    assert_eq!(create(&mut ledger, alice(), &title, "m"), Err(JournalError::FieldTooLong));
    let title = "t".repeat(20);
    assert_eq!(create(&mut ledger, alice(), &title, "m"), Ok(()));
}

#[test]
fn multibyte_title_counts_bytes() {
    let mut ledger = funded_ledger();
    let title = "\u{e9}".repeat(11);
    assert_eq!(title.len(), 22);
    assert_eq!(create(&mut ledger, alice(), &title, "m"), Err(JournalError::FieldTooLong));
    let title = "\u{e9}".repeat(10);
    assert_eq!(create(&mut ledger, alice(), &title, "m"), Ok(()));
}

#[test]
fn message_too_long() {
    let mut ledger = funded_ledger();
    let long = "m".repeat(201);
    assert_eq!(create(&mut ledger, alice(), "Day1", &long), Err(JournalError::FieldTooLong));
    let max = "m".repeat(200);
    assert_eq!(create(&mut ledger, alice(), "Day1", &max), Ok(()));
    let at = address(&alice(), "Day1");
    assert_eq!(update(&mut ledger, alice(), at, "Day1", &long), Err(JournalError::FieldTooLong));
    assert_eq!(ledger.entry(&at).unwrap().message, max);
}

#[test]
fn unfunded_owner_allocation_failed() {
    let mut ledger = Ledger::new(program());
    assert_eq!(create(&mut ledger, alice(), "Day1", "x"), Err(JournalError::AllocationFailed));
    assert!(ledger.entry(&address(&alice(), "Day1")).is_none());
}

#[test]
fn growing_update_beyond_funds_fails() {
    let mut ledger = Ledger::new(program());
    let rent = rent_for(56 + 4 + 1);
    assert!(ledger.fund(&alice(), rent));
    let at = address(&alice(), "Day1");
    assert_eq!(create(&mut ledger, alice(), "Day1", "x"), Ok(()));
    assert_eq!(ledger.balance(&alice()), 0);
    assert_eq!(update(&mut ledger, alice(), at, "Day1", "xy"), Err(JournalError::AllocationFailed));
    assert_eq!(ledger.entry(&at).unwrap().message, "x");
    assert_eq!(update(&mut ledger, alice(), at, "Day1", "y"), Ok(()));
}

#[test]
fn fund_overflow_refused() {
    let mut ledger = Ledger::new(program());
    assert!(ledger.fund(&alice(), u64::MAX));
    assert!(!ledger.fund(&alice(), 1));
    assert_eq!(ledger.balance(&alice()), u64::MAX);
}

#[test]
fn refund_overflow_allocation_failed() {
    let mut ledger = funded_ledger();
    let at = address(&alice(), "Day1");
    assert_eq!(create(&mut ledger, alice(), "Day1", "x"), Ok(()));
    let balance = ledger.balance(&alice());
    assert!(ledger.fund(&alice(), u64::MAX - balance));
    assert_eq!(delete(&mut ledger, alice(), at, "Day1"), Err(JournalError::AllocationFailed));
    assert!(ledger.entry(&at).is_some());
}

#[test]
fn rent_exact_values() {
    assert_eq!(rent_for(0), 890_880);
    assert_eq!(rent_for(67), 1_357_200);
    assert_eq!(rent_for(276), 2_811_840);
}

#[test]
fn required_space_exact() {
    assert_eq!(required_space(&"Day1".to_string(), &"Woke up".to_string()), 67);
    assert_eq!(required_space(&String::new(), &String::new()), 56);
    assert_eq!(text_len(&"\u{e9}a".to_string()), 3);
}

#[test]
fn address_is_deterministic() {
    let a = address(&alice(), "Day1");
    let b = address(&alice(), "Day1");
    assert_eq!(a.bytes, b.bytes);
    assert_ne!(a.bytes, address(&alice(), "Day2").bytes);
    assert_ne!(a.bytes, address(&bob(), "Day1").bytes);
    assert_ne!(a.bytes, alice().bytes);
    assert_ne!(a.bytes, program().bytes);
}

#[test]
fn address_of_long_seed_is_none() {
    assert!(entry_address(&program(), &alice(), &"s".repeat(33)).is_none());
    assert!(entry_address(&program(), &alice(), &"s".repeat(32)).is_some());
}

#[test]
fn keys_compare_by_bytes() {
    assert!(alice().same_as(&Key::new([1u8; 32])));
    assert!(!alice().same_as(&bob()));
}
