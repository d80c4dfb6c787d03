use rust_ds::linked_list::LinkedList;

fn contents(list: &LinkedList<i32>) -> Vec<i32> {
    list.values().into_iter().map(|v| *v).collect()
}

#[test]
fn linked_list_insert_and_pop() {
    let mut list = LinkedList::new();
    assert_eq!(list.pop(), None);
    list.insert(1);
    list.insert(2);
    list.insert(3);
    assert_eq!(contents(&list), vec![1, 2, 3]);
    assert_eq!(list.pop(), Some(3));
    assert_eq!(list.pop(), Some(2));
    assert_eq!(list.pop(), Some(1));
    assert_eq!(list.pop(), None);
}

#[test]
fn linked_list_remove_search_update() {
    let mut list = LinkedList::from_vec(vec![1, 2, 3, 2]);
    assert!(list.search(&2));
    assert!(!list.search(&9));
    assert!(list.remove(&2));
    assert_eq!(contents(&list), vec![1, 3, 2]);
    assert!(!list.remove(&9));
    assert!(list.update(2, 5));
    assert!(!list.update(2, 6));
    assert_eq!(contents(&list), vec![1, 3, 5]);
    assert!(list.remove(&1));
    assert!(list.remove(&5));
    assert!(list.remove(&3));
    assert!(!list.remove(&3));
    assert!(!list.search(&3));
    assert!(contents(&list).is_empty());
}
