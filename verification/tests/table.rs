use psp_coin::table::{Key, Table};
use psp_coin::{AccountId, AllowanceKey, Amount};

#[test]
fn missing_key_reads_as_nothing() {
    let table: Table<AccountId> = Table::new();
    assert_eq!(table.get(&AccountId::new([9; 20])), None);
}

#[test]
fn insert_replaces_the_stored_amount() {
    let a = AccountId::new([1; 20]);
    let b = AccountId::new([2; 20]);
    let mut table: Table<AccountId> = Table::new();
    table.insert(a, Amount::from_u64(5));
    table.insert(b, Amount::from_u64(6));
    table.insert(a, Amount::from_u64(7));
    assert_eq!(table.get(&a), Some(Amount::from_u64(7)));
    assert_eq!(table.get(&b), Some(Amount::from_u64(6)));
}

#[test]
fn allowance_keys_are_ordered_pairs() {
    let a = AccountId::new([1; 20]);
    let b = AccountId::new([2; 20]);
    let ab = AllowanceKey { owner: a, spender: b };
    let ba = AllowanceKey { owner: b, spender: a };
    assert!(ab.same(&ab));
    assert!(!ab.same(&ba));
    assert!(a.same(&a));
    assert!(!a.same(&b));

    let mut table: Table<AllowanceKey> = Table::new();
    table.insert(ab, Amount::from_u64(3));
    assert_eq!(table.get(&ab), Some(Amount::from_u64(3)));
    assert_eq!(table.get(&ba), None);
}
