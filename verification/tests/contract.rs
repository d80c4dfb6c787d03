use rust_ds::linked_lists::errors;
use rust_ds::linked_lists::types::Error;
use rust_ds::linked_lists::Double;
use rust_ds::linked_lists::ExtNode;
use rust_ds::linked_lists::ExtendedNode;
use rust_ds::linked_lists::List;
use rust_ds::linked_lists::SNode;
use rust_ds::linked_lists::Singly;
use rust_ds::linked_lists::SinglyNode;

fn scenario<L: List<i32>>() {
    let mut list = L::new();
    for v in [1, 2, 3, 4, 5] {
        list.insert(v);
    }
    assert_eq!(list.pop(), Some(5));
    assert_eq!(list.len(), 4);
    assert!(matches!(list.remove(&3), Ok(true)));
    assert_eq!(list.len(), 3);
    assert!(matches!(list.get(0), Ok(Some(&1))));
    assert!(matches!(list.get(1), Ok(Some(&2))));
    assert!(matches!(list.get(2), Ok(Some(&4))));
    assert!(matches!(list.search(&3), Err(Error::ValueNotFound { value: 3 })));
    assert!(matches!(list.update(4, 9), Ok(true)));
    assert!(matches!(list.get(2), Ok(Some(&9))));
    assert!(matches!(list.search(&9), Ok(true)));
    assert!(!list.is_empty());
    assert_eq!(list.values(), vec![&1, &2, &9]);
}

fn empty_list<L: List<i32>>() {
    let mut list = L::new();
    assert!(list.is_empty());
    assert_eq!(list.len(), 0);
    assert!(matches!(list.remove(&1), Err(Error::EmptyList)));
    assert!(matches!(list.update(1, 2), Err(Error::EmptyList)));
    assert!(matches!(list.search(&1), Err(Error::EmptyList)));
    assert!(matches!(list.get(0), Err(Error::EmptyList)));
    assert_eq!(list.pop(), None);
    assert!(list.is_empty());
}

fn errors_carry_their_subject<L: List<i32>>() {
    let mut list = L::from_vec(vec![7, 8, 9]);
    assert!(matches!(list.remove(&1), Err(Error::ValueNotFound { value: 1 })));
    assert!(matches!(list.update(2, 5), Err(Error::ValueNotFound { value: 2 })));
    assert!(matches!(
        list.get(3),
        Err(Error::IndexOutOfBounds { index: 3, max_index: 2 })
    ));
    assert!(matches!(
        list.get(10),
        Err(Error::IndexOutOfBounds { index: 10, max_index: 2 })
    ));
    assert_eq!(list.len(), 3);
    for (i, v) in [7, 8, 9].iter().enumerate() {
        assert!(matches!(list.get(i), Ok(Some(x)) if x == v));
    }
}

#[test]
fn contract_scenario_on_the_singly_chain() {
    scenario::<Singly<i32>>();
}

#[test]
fn contract_scenario_on_the_doubly_chain() {
    scenario::<Double<i32>>();
}

#[test]
fn contract_empty_list_on_the_singly_chain() {
    empty_list::<Singly<i32>>();
}

#[test]
fn contract_empty_list_on_the_doubly_chain() {
    empty_list::<Double<i32>>();
}

#[test]
fn contract_errors_on_the_singly_chain() {
    errors_carry_their_subject::<Singly<i32>>();
}

#[test]
fn contract_errors_on_the_doubly_chain() {
    errors_carry_their_subject::<Double<i32>>();
}

#[test]
fn detailed_errors_have_a_kind() {
    let e: Error<i32> = Error::EmptyList;
    assert_eq!(e.kind(), errors::Error::EmptyList);
    let e = Error::ValueNotFound { value: 4 };
    assert_eq!(e.kind(), errors::Error::ValueNotFound);
    let e: Error<i32> = Error::IndexOutOfBounds { index: 3, max_index: 1 };
    assert_eq!(e.kind(), errors::Error::IndexOutOfBounds);
}

#[test]
fn by_reference_operations() {
    let mut singly = Singly::from_vec(vec![String::from("a"), String::from("b")]);
    let b = String::from("b");
    assert_eq!(singly.search_for(&b), Ok(true));
    assert_eq!(singly.replace_first(&b, String::from("c")), Ok(true));
    assert_eq!(singly.search_for(&b), Err(errors::Error::ValueNotFound));
    assert_eq!(singly.remove_first(&String::from("a")), Ok(true));
    assert_eq!(singly.values(), vec![&String::from("c")]);

    let mut double = Double::from_vec(vec![String::from("a"), String::from("b")]);
    assert_eq!(double.search_for(&b), Ok(true));
    assert_eq!(double.replace_first(&b, String::from("c")), Ok(true));
    assert_eq!(double.search_for(&b), Err(errors::Error::ValueNotFound));
    assert_eq!(double.remove_first(&String::from("a")), Ok(true));
    assert_eq!(double.values(), vec![&String::from("c")]);
    assert_eq!(double.values_reversed(), vec![&String::from("c")]);
}

#[test]
fn default_double_is_empty() {
    let list: Double<u8> = Double::default();
    assert!(list.is_empty());
    assert_eq!(list.len(), 0);
}

#[test]
fn singly_node_contract() {
    let mut node: SNode<i32> = SinglyNode::new(1);
    assert_eq!(*SinglyNode::get_value(&node), 1);
    assert!(SinglyNode::get_next(&node).is_none());
    assert!(SinglyNode::get_next_mut(&mut node).is_none());
    SinglyNode::set_next(&mut node, Some(Box::new(SNode::new(2))));
    SinglyNode::set_value(&mut node, 3);
    assert_eq!(*SinglyNode::get_value(&node), 3);
    assert_eq!(*SinglyNode::get_next(&node).unwrap().get_value(), 2);
    SinglyNode::get_next_mut(&mut node).unwrap().set_value(5);
    assert_eq!(*SinglyNode::get_next(&node).unwrap().get_value(), 5);
}

#[test]
fn extended_node_contract() {
    let mut node: ExtNode<i32> = ExtendedNode::new(1);
    assert_eq!(*ExtendedNode::get_value(&node), 1);
    assert_eq!(ExtendedNode::get_next(&node), None);
    assert_eq!(ExtendedNode::get_previous(&node), None);
    assert!(ExtendedNode::get_next_mut(&mut node).is_none());
    assert!(ExtendedNode::get_previous_mut(&mut node).is_none());
    ExtendedNode::set_next(&mut node, Some(3));
    ExtendedNode::set_previous(&mut node, Some(4));
    ExtendedNode::set_value(&mut node, 2);
    assert_eq!(*ExtendedNode::get_value(&node), 2);
    assert_eq!(ExtendedNode::get_next(&node), Some(&3));
    assert_eq!(ExtendedNode::get_previous(&node), Some(&4));
    *ExtendedNode::get_next_mut(&mut node).unwrap() = 6;
    *ExtendedNode::get_previous_mut(&mut node).unwrap() = 7;
    assert_eq!(*node.get_next(), Some(6));
    assert_eq!(*node.get_previous(), Some(7));
}
