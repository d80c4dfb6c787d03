use rust_ds::linked_lists::Error;
use rust_ds::linked_lists::Singly;

fn contents(list: &Singly<i32>) -> Vec<i32> {
    list.values().into_iter().map(|v| *v).collect()
}

#[test]
fn test_singly_list_ops() {
    let mut list = Singly::new();
    assert!(list.remove(99).is_err());
    list.append(1);
    list.append(2);
    list.append(3);
    list.append(4);
    list.append(5);
    assert_eq!(list.is_empty(), false);
    assert_eq!(list.search(3).unwrap(), true);
    assert_eq!(list.update(3, 6).unwrap(), true);
    let list2 = Singly::from_vec(vec!["hello", "world", "rust"]);
    assert_eq!(list.pop().unwrap().unwrap(), 5);
    assert_eq!(list.pop().unwrap().unwrap(), 4);
    assert_eq!(list.pop().unwrap().unwrap(), 6);
    assert_eq!(list.pop().unwrap().unwrap(), 2);
    assert_eq!(list.pop().unwrap().unwrap(), 1);
    assert_eq!(list2.get(2).unwrap(), Some(&"rust"));
}

#[test]
fn test_singly_list_errors() {
    let mut list = Singly::new();
    assert!(list.is_empty());
    assert!(list.remove(99).is_err());
    assert!(list.update(99, 100).is_err());
    assert!(list.pop().is_err());
    assert!(list.get(0).is_err());
    assert!(list.search(6).is_err());
}

#[test]
fn singly_scenario_pop_remove_search_update() {
    let mut list = Singly::new();
    for v in [1, 2, 3, 4, 5] {
        list.append(v);
    }
    assert_eq!(list.pop(), Ok(Some(5)));
    assert_eq!(list.len(), 4);
    assert_eq!(list.remove(3), Ok(true));
    assert_eq!(list.len(), 3);
    assert_eq!(contents(&list), vec![1, 2, 4]);
    assert_eq!(list.search(3), Err(Error::ValueNotFound));
    assert_eq!(list.update(4, 9), Ok(true));
    assert_eq!(list.get(1), Ok(Some(&2)));
    assert_eq!(list.get(2), Ok(Some(&9)));
    assert_eq!(contents(&list), vec![1, 2, 9]);
}

#[test]
fn singly_empty_list_reports_empty_list() {
    let mut list: Singly<i32> = Singly::new();
    assert_eq!(list.remove(1), Err(Error::EmptyList));
    assert_eq!(list.update(1, 2), Err(Error::EmptyList));
    assert_eq!(list.pop(), Err(Error::EmptyList));
    assert_eq!(list.get(0), Err(Error::EmptyList));
    assert_eq!(list.search(1), Err(Error::EmptyList));
    assert_eq!(list.len(), 0);
    assert!(list.is_empty());
}

#[test]
fn singly_length_follows_the_operations() {
    let mut list = Singly::new();
    let mut expected = 0;
    for v in 0..10 {
        list.append(v);
        expected += 1;
        assert_eq!(list.len(), expected);
        assert_eq!(list.is_empty(), list.len() == 0);
    }
    assert_eq!(list.remove(100), Err(Error::ValueNotFound));
    assert_eq!(list.len(), expected);
    for v in [0, 9, 4] {
        assert_eq!(list.remove(v), Ok(true));
        expected -= 1;
        assert_eq!(list.len(), expected);
    }
    while expected > 0 {
        assert!(list.pop().is_ok());
        expected -= 1;
        assert_eq!(list.len(), expected);
        assert_eq!(list.is_empty(), list.len() == 0);
    }
    assert_eq!(list.pop(), Err(Error::EmptyList));
    assert_eq!(list.len(), 0);
}

#[test]
fn singly_round_trip() {
    let values = vec![10, 20, 30, 40];
    let list = Singly::from_vec(values.clone());
    assert_eq!(list.len(), values.len());
    for i in 0..values.len() {
        assert_eq!(list.get(i), Ok(Some(&values[i])));
    }
    let empty: Singly<i32> = Singly::from_vec(Vec::new());
    assert!(empty.is_empty());
}

#[test]
fn singly_queries_leave_the_list_alone() {
    let list = Singly::from_vec(vec![3, 1, 2]);
    assert_eq!(list.search(1), Ok(true));
    assert_eq!(list.search(7), Err(Error::ValueNotFound));
    assert_eq!(list.get(0), Ok(Some(&3)));
    assert_eq!(list.get(5), Err(Error::IndexOutOfBounds));
    assert_eq!(list.len(), 3);
    assert_eq!(contents(&list), vec![3, 1, 2]);
}

#[test]
fn singly_get_at_the_length_is_out_of_bounds() {
    let list = Singly::from_vec(vec![1, 2, 3]);
    assert_eq!(list.get(list.len()), Err(Error::IndexOutOfBounds));
    assert_eq!(list.get(usize::MAX), Err(Error::IndexOutOfBounds));
    assert_eq!(list.get(2), Ok(Some(&3)));
}

#[test]
fn singly_search_and_update_reach_the_last_element() {
    let mut list = Singly::from_vec(vec![1]);
    assert_eq!(list.search(1), Ok(true));
    assert_eq!(list.search(2), Err(Error::ValueNotFound));
    assert_eq!(list.update(1, 5), Ok(true));
    assert_eq!(contents(&list), vec![5]);
    let mut list = Singly::from_vec(vec![1, 2, 3]);
    assert_eq!(list.search(3), Ok(true));
    assert_eq!(list.update(3, 8), Ok(true));
    assert_eq!(list.update(3, 9), Err(Error::ValueNotFound));
    assert_eq!(contents(&list), vec![1, 2, 8]);
}

#[test]
fn singly_remove_and_update_take_the_first_match() {
    let mut list = Singly::from_vec(vec![1, 2, 1, 2]);
    assert_eq!(list.update(2, 7), Ok(true));
    assert_eq!(contents(&list), vec![1, 7, 1, 2]);
    assert_eq!(list.remove(1), Ok(true));
    assert_eq!(contents(&list), vec![7, 1, 2]);
    assert_eq!(list.remove(2), Ok(true));
    assert_eq!(contents(&list), vec![7, 1]);
    assert_eq!(list.remove(7), Ok(true));
    assert_eq!(list.remove(1), Ok(true));
    assert!(list.is_empty());
    list.append(4);
    assert_eq!(contents(&list), vec![4]);
}

#[test]
fn list_error_messages() {
    assert_eq!(Error::EmptyList.message(), "Operation failed: List is empty");
    assert_eq!(
        Error::ValueNotFound.message(),
        "Operation failed: Value not found in list"
    );
    assert_eq!(Error::IndexOutOfBounds.message(), "Index is out of bounds");
}
