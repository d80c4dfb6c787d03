use rust_ds::linked_lists::Double;
use rust_ds::linked_lists::Error;

fn forward(list: &Double<i32>) -> Vec<i32> {
    list.values().into_iter().map(|v| *v).collect()
}

fn backward(list: &Double<i32>) -> Vec<i32> {
    list.values_reversed().into_iter().map(|v| *v).collect()
}

fn assert_mirrored(list: &Double<i32>, expected: &[i32]) {
    let mut reversed = expected.to_vec();
    reversed.reverse();
    assert_eq!(forward(list), expected);
    assert_eq!(backward(list), reversed);
    assert_eq!(list.len(), expected.len());
    assert_eq!(list.is_empty(), expected.is_empty());
}

#[test]
fn test_double_linked_list_ops() {
    let mut list = Double::new();
    list.append(1);
    list.append(2);
    assert!(!list.is_empty());
    let value = list.pop().unwrap().unwrap();
    assert_eq!(value, 2);
    assert_eq!(list.len(), 1);
    let mut list2 = Double::from_vec(vec!["hello", "world", "rust"]);
    assert_eq!(list2.get(1).unwrap().unwrap(), "world");
    assert!(!list2.is_empty());
    assert!(list2.search("rust").unwrap());
    assert!(list2.update("world", "earth").unwrap());
    assert_eq!(list2.get(1).unwrap().unwrap(), "earth");
    assert!(list2.remove("earth").unwrap());
    assert_eq!(list2.values(), vec![&"hello", &"rust"]);
}

#[test]
fn test_double_linked_list_errors() {
    let mut list: Double<i32> = Double::new();
    assert!(list.is_empty());
    assert!(list.search(6).is_err());
    assert!(list.update(6, 7).is_err());
    assert!(list.pop().is_err());
    assert!(list.remove(6).is_err());
}

#[test]
fn double_scenario_pop_remove_search_update() {
    let mut list = Double::new();
    for v in [1, 2, 3, 4, 5] {
        list.append(v);
    }
    assert_eq!(list.pop(), Ok(Some(5)));
    assert_eq!(list.len(), 4);
    assert_eq!(list.remove(3), Ok(true));
    assert_eq!(list.len(), 3);
    assert_mirrored(&list, &[1, 2, 4]);
    assert_eq!(list.search(3), Err(Error::ValueNotFound));
    assert_eq!(list.update(4, 9), Ok(true));
    assert_eq!(list.get(1), Ok(Some(2)));
    assert_eq!(list.get(2), Ok(Some(9)));
    assert_mirrored(&list, &[1, 2, 9]);
}

#[test]
fn double_empty_list_reports_empty_list() {
    let mut list: Double<i32> = Double::new();
    assert_eq!(list.remove(1), Err(Error::EmptyList));
    assert_eq!(list.update(1, 2), Err(Error::EmptyList));
    assert_eq!(list.pop(), Err(Error::EmptyList));
    assert_eq!(list.get(0), Err(Error::EmptyList));
    assert_eq!(list.get_ref(0), Err(Error::EmptyList));
    assert_eq!(list.search(1), Err(Error::EmptyList));
    assert_mirrored(&list, &[]);
}

#[test]
fn double_pop_down_to_empty_and_refill() {
    let mut list = Double::from_vec(vec![1, 2]);
    assert_eq!(list.pop(), Ok(Some(2)));
    assert_mirrored(&list, &[1]);
    assert_eq!(list.pop(), Ok(Some(1)));
    assert_mirrored(&list, &[]);
    assert_eq!(list.pop(), Err(Error::EmptyList));
    list.append(7);
    list.append(8);
    assert_mirrored(&list, &[7, 8]);
}

#[test]
fn double_remove_head_interior_and_tail() {
    let mut list = Double::from_vec(vec![1, 2, 3, 4, 5]);
    assert_eq!(list.remove(1), Ok(true));
    assert_mirrored(&list, &[2, 3, 4, 5]);
    assert_eq!(list.remove(4), Ok(true));
    assert_mirrored(&list, &[2, 3, 5]);
    assert_eq!(list.remove(5), Ok(true));
    assert_mirrored(&list, &[2, 3]);
    assert_eq!(list.remove(5), Err(Error::ValueNotFound));
    assert_mirrored(&list, &[2, 3]);
    list.append(6);
    list.append(7);
    list.append(8);
    list.append(9);
    assert_mirrored(&list, &[2, 3, 6, 7, 8, 9]);
    assert_eq!(list.remove(2), Ok(true));
    assert_eq!(list.remove(3), Ok(true));
    assert_eq!(list.pop(), Ok(Some(9)));
    assert_mirrored(&list, &[6, 7, 8]);
}

#[test]
fn double_remove_the_only_element() {
    let mut list = Double::from_vec(vec![4]);
    assert_eq!(list.remove(4), Ok(true));
    assert_mirrored(&list, &[]);
    assert_eq!(list.remove(4), Err(Error::EmptyList));
}

#[test]
fn double_length_follows_the_operations() {
    let mut list = Double::new();
    let mut expected = 0;
    for v in 0..10 {
        list.append(v);
        expected += 1;
        assert_eq!(list.len(), expected);
    }
    assert_eq!(list.remove(100), Err(Error::ValueNotFound));
    assert_eq!(list.len(), expected);
    for v in [0, 9, 4] {
        assert_eq!(list.remove(v), Ok(true));
        expected -= 1;
        assert_eq!(list.len(), expected);
    }
    while expected > 0 {
        assert!(list.pop().is_ok());
        expected -= 1;
        assert_eq!(list.len(), expected);
        assert_eq!(list.is_empty(), list.len() == 0);
    }
    assert_eq!(list.pop(), Err(Error::EmptyList));
}

#[test]
fn double_round_trip() {
    let values = vec![10, 20, 30, 40];
    let list = Double::from_vec(values.clone());
    for i in 0..values.len() {
        assert_eq!(list.get(i), Ok(Some(values[i])));
        assert_eq!(list.get_ref(i), Ok(Some(&values[i])));
    }
    assert_mirrored(&list, &values);
}

#[test]
fn double_queries_leave_the_list_alone() {
    let list = Double::from_vec(vec![3, 1, 2]);
    assert_eq!(list.search(1), Ok(true));
    assert_eq!(list.search(7), Err(Error::ValueNotFound));
    assert_eq!(list.get(0), Ok(Some(3)));
    assert_eq!(list.get(5), Err(Error::IndexOutOfBounds));
    assert_mirrored(&list, &[3, 1, 2]);
}

#[test]
fn double_get_at_the_length_is_out_of_bounds() {
    let list = Double::from_vec(vec![1, 2, 3]);
    assert_eq!(list.get(list.len()), Err(Error::IndexOutOfBounds));
    assert_eq!(list.get_ref(usize::MAX), Err(Error::IndexOutOfBounds));
    assert_eq!(list.get(2), Ok(Some(3)));
}

#[test]
fn double_search_and_update_reach_every_element() {
    let mut list = Double::from_vec(vec![1]);
    assert_eq!(list.search(1), Ok(true));
    assert_eq!(list.search(2), Err(Error::ValueNotFound));
    assert_eq!(list.update(2, 5), Err(Error::ValueNotFound));
    assert_eq!(list.update(1, 5), Ok(true));
    assert_mirrored(&list, &[5]);
    let mut list = Double::from_vec(vec![1, 2, 3]);
    assert_eq!(list.update(3, 8), Ok(true));
    assert_eq!(list.update(3, 9), Err(Error::ValueNotFound));
    assert_mirrored(&list, &[1, 2, 8]);
}

#[test]
fn double_remove_and_update_take_the_first_match() {
    let mut list = Double::from_vec(vec![1, 2, 1, 2]);
    assert_eq!(list.update(2, 7), Ok(true));
    assert_mirrored(&list, &[1, 7, 1, 2]);
    assert_eq!(list.remove(1), Ok(true));
    assert_mirrored(&list, &[7, 1, 2]);
}
