use rust_ds::hash_table::Error;
use rust_ds::hash_table::Table;

#[test]
fn test_hash_table_ops() {
    let mut table = Table::new(16);
    table.insert("key1", "value1");
    assert_eq!(table.get(&"key1").unwrap(), &"value1");
    table.remove(&"key1").unwrap();
    assert!(table.get(&"key1").is_err());
    table.insert("key2", "value2");
    if let Ok(v) = table.update(&"key2") {
        *v = "value3";
    }
    assert_eq!(table.get(&"key2").unwrap(), &"value3");
}

#[test]
fn test_hash_table_errors() {
    let mut table: Table<&str, &str> = Table::new(16);
    assert!(table.get(&"key1").is_err());
    assert!(table.remove(&"key1").is_err());
    assert!(table.update(&"key1").is_err());
    assert!(table.resize(0).is_err());
}

#[test]
fn hash_table_error_kinds() {
    let mut table: Table<u32, u32> = Table::new(4);
    assert_eq!(table.get(&1), Err(Error::KeyNotFound));
    assert_eq!(table.remove(&1), Err(Error::KeyNotFound));
    assert_eq!(table.update(&1).err(), Some(Error::KeyNotFound));
    assert_eq!(table.resize(0), Err(Error::InvalidCapacity));
    assert_eq!(table.elements.len(), 4);
    let mut none: Table<u32, u32> = Table::new(0);
    assert_eq!(none.remove(&1), Err(Error::EmptyTable));
    assert_eq!(none.update(&1).err(), Some(Error::EmptyTable));
    assert_eq!(none.resize(2), Ok(()));
    assert_eq!(none.elements.len(), 2);
}

#[test]
fn hash_table_slots_by_index() {
    let mut table: Table<u32, &str> = Table::new(3);
    table.insert_at(1, 10, "ten");
    assert_eq!(table.get_at(1), Ok(&"ten"));
    assert_eq!(table.get_at(0), Err(Error::KeyNotFound));
    table.insert_at(1, 11, "eleven");
    assert_eq!(table.elements[1], Some((11, "eleven")));
    *table.update_at(1).unwrap() = "onze";
    assert_eq!(table.get_at(1), Ok(&"onze"));
    assert_eq!(table.update_at(2).err(), Some(Error::KeyNotFound));
    assert_eq!(table.remove_at(1), Ok("onze"));
    assert_eq!(table.remove_at(1), Err(Error::KeyNotFound));
    assert!(table.elements.iter().all(|slot| slot.is_none()));
}

#[test]
fn hash_table_a_key_finds_its_slot_again() {
    let mut table: Table<String, usize> = Table::new(8);
    table.insert(String::from("alpha"), 1);
    assert_eq!(table.get(&String::from("alpha")), Ok(&1));
    let filled = table.elements.iter().filter(|slot| slot.is_some()).count();
    assert_eq!(filled, 1);
    table.insert(String::from("alpha"), 2);
    assert_eq!(table.get(&String::from("alpha")), Ok(&2));
    let filled = table.elements.iter().filter(|slot| slot.is_some()).count();
    assert_eq!(filled, 1);
}

#[test]
fn hash_table_resize_keeps_a_single_entry() {
    let mut table: Table<u64, u64> = Table::new(4);
    table.insert(5, 50);
    assert_eq!(table.resize(32), Ok(()));
    assert_eq!(table.elements.len(), 32);
    assert_eq!(table.get(&5), Ok(&50));
    let filled = table.elements.iter().filter(|slot| slot.is_some()).count();
    assert_eq!(filled, 1);
}

#[test]
fn hash_table_default_has_sixty_four_slots() {
    let table: Table<u8, u8> = Table::default();
    assert_eq!(table.elements.len(), 64);
    assert!(table.elements.iter().all(|slot| slot.is_none()));
}

#[test]
fn hash_table_error_messages() {
    assert_eq!(Error::EmptyTable.message(), "Operation failed: Table is empty");
    assert_eq!(
        Error::KeyNotFound.message(),
        "Operation failed: Key not found in table"
    );
    assert_eq!(
        Error::InvalidCapacity.message(),
        "Operation failed: Invalid capacity"
    );
}

#[test]
fn hash_table_slot_of_a_digest() {
    let table: Table<u32, u32> = Table::new(4);
    assert_eq!(table.slot_for(0), 0);
    assert_eq!(table.slot_for(10), 2);
    assert_eq!(table.slot_for(7), 3);
    let table: Table<u32, u32> = Table::new(7);
    assert_eq!(table.slot_for(10), 3);
    assert_eq!(table.slot_for(7), 0);
    assert_eq!(table.slot_for(u64::MAX), (u64::MAX as usize) % 7);
}
