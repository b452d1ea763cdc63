use soroban_sdk::Env;
use zenith::id_list::IdList;

#[test]
fn new_list_is_empty() {
    let env = Env::default();
    let list = IdList::new(&env);
    assert_eq!(list.len(), 0);
    assert!(list.is_empty());
    assert_eq!(list.get(0), None);
    assert_eq!(list.position(1), None);
    assert!(!list.contains(1));
    assert_eq!(list.to_vec(), Vec::<u64>::new());
}

#[test]
fn push_appends_in_order() {
    let env = Env::default();
    let mut list = IdList::new(&env);
    list.push(7);
    list.push(9);
    list.push(7);
    assert_eq!(list.len(), 3);
    assert!(!list.is_empty());
    assert_eq!(list.get(0), Some(7));
    assert_eq!(list.get(1), Some(9));
    assert_eq!(list.get(2), Some(7));
    assert_eq!(list.get(3), None);
    assert_eq!(list.to_vec(), vec![7, 9, 7]);
}

#[test]
fn position_is_the_first_occurrence() {
    let env = Env::default();
    let list = IdList::from_ids(&env, &vec![5, 6, 5, 8]);
    assert_eq!(list.position(5), Some(0));
    assert_eq!(list.position(6), Some(1));
    assert_eq!(list.position(8), Some(3));
    assert_eq!(list.position(4), None);
    assert!(list.contains(8));
    assert!(!list.contains(0));
}

#[test]
fn remove_first_takes_one_occurrence() {
    let env = Env::default();
    let mut list = IdList::from_ids(&env, &vec![5, 6, 5, 8]);
    assert!(list.remove_first(5));
    assert_eq!(list.to_vec(), vec![6, 5, 8]);
    assert!(list.remove_first(8));
    assert_eq!(list.to_vec(), vec![6, 5]);
    assert!(!list.remove_first(8));
    assert_eq!(list.to_vec(), vec![6, 5]);
    assert!(list.remove_first(6));
    assert!(list.remove_first(5));
    assert!(list.is_empty());
    assert!(!list.remove_first(5));
}

#[test]
fn try_push_adds_where_there_is_room() {
    let env = Env::default();
    let mut list = IdList::new(&env);
    assert!(list.try_push(3));
    assert!(list.try_push(4));
    assert_eq!(list.to_vec(), vec![3, 4]);
}

#[test]
fn duplicate_holds_the_same_items_and_is_independent() {
    let env = Env::default();
    let mut list = IdList::from_ids(&env, &vec![1, 2, 3]);
    let copy = list.duplicate();
    list.push(4);
    list.remove_first(1);
    assert_eq!(copy.to_vec(), vec![1, 2, 3]);
    assert_eq!(list.to_vec(), vec![2, 3, 4]);
}

#[test]
fn from_ids_keeps_large_values() {
    let env = Env::default();
    let list = IdList::from_ids(&env, &vec![u64::MAX, 0, 1u64 << 40]);
    assert_eq!(list.to_vec(), vec![u64::MAX, 0, 1u64 << 40]);
    assert_eq!(list.get(0), Some(u64::MAX));
}
