use dsa::error::IndexError;
use dsa::linked_list::LinkedList;

fn list_of(values: &[i32]) -> LinkedList<i32> {
    let mut list = LinkedList::new();
    for v in values {
        list.insert(*v, None).unwrap();
    }
    list
}

fn contents(list: &LinkedList<i32>) -> Vec<i32> {
    let mut out = Vec::new();
    for i in 0..list.len() {
        out.push(list.read_at(i).unwrap());
    }
    out
}

#[test]
fn appended_values_are_read_back_in_order() {
    let values = [4, 8, 15, 16, 23, 42];
    let list = list_of(&values);
    assert_eq!(list.len(), values.len());
    for (k, v) in values.iter().enumerate() {
        assert_eq!(list.read_at(k), Ok(*v));
    }
    assert_eq!(list.read_at(values.len()), Err(IndexError));
}

#[test]
fn insert_at_front_shifts_everything_back() {
    let mut list = list_of(&[1, 2, 3]);
    assert_eq!(list.insert(0, Some(0)), Ok(()));
    assert_eq!(list.len(), 4);
    assert_eq!(contents(&list), vec![0, 1, 2, 3]);
}

#[test]
fn insert_at_front_of_empty_list() {
    let mut list: LinkedList<i32> = LinkedList::new();
    assert_eq!(list.insert(5, Some(0)), Ok(()));
    assert_eq!(contents(&list), vec![5]);
    assert_eq!(*list.head().unwrap().get_data(), 5);
}

#[test]
fn insert_at_length_appends() {
    let mut list = list_of(&[1, 2]);
    assert_eq!(list.insert(3, Some(2)), Ok(()));
    assert_eq!(contents(&list), vec![1, 2, 3]);
}

#[test]
fn insert_in_the_middle_splices() {
    let mut list = list_of(&[1, 2, 4, 5]);
    assert_eq!(list.insert(3, Some(2)), Ok(()));
    assert_eq!(contents(&list), vec![1, 2, 3, 4, 5]);
}

#[test]
fn insert_behind_the_end_is_refused_and_changes_nothing() {
    let mut list = list_of(&[1, 2, 3]);
    assert_eq!(list.insert(9, Some(4)), Err(IndexError));
    assert_eq!(list.insert(9, Some(usize::MAX)), Err(IndexError));
    assert_eq!(list.len(), 3);
    assert_eq!(contents(&list), vec![1, 2, 3]);

    let mut empty: LinkedList<i32> = LinkedList::new();
    assert_eq!(empty.insert(9, Some(1)), Err(IndexError));
    assert_eq!(empty.len(), 0);
    assert!(empty.head().is_none());
}

#[test]
fn insert_after_places_the_value_behind_the_position() {
    let mut list = list_of(&[1, 3]);
    assert_eq!(list.insert_after(2, 0), Ok(()));
    assert_eq!(list.insert_after(4, 2), Ok(()));
    assert_eq!(contents(&list), vec![1, 2, 3, 4]);
    assert_eq!(list.insert_after(9, 4), Err(IndexError));
    assert_eq!(contents(&list), vec![1, 2, 3, 4]);
}

#[test]
fn push_puts_the_value_in_front() {
    let mut list = list_of(&[2, 3]);
    assert_eq!(list.push(1), Ok(()));
    assert_eq!(contents(&list), vec![1, 2, 3]);
}

#[test]
fn remove_then_read_gives_the_next_element() {
    let mut list = list_of(&[10, 20, 30, 40]);
    assert_eq!(list.remove_at(1), Ok(()));
    assert_eq!(list.len(), 3);
    assert_eq!(list.read_at(1), Ok(30));
    assert_eq!(contents(&list), vec![10, 30, 40]);
}

#[test]
fn remove_last_then_read_is_out_of_range() {
    let mut list = list_of(&[10, 20, 30]);
    assert_eq!(list.remove_at(2), Ok(()));
    assert_eq!(list.len(), 2);
    assert_eq!(list.read_at(2), Err(IndexError));
    assert_eq!(contents(&list), vec![10, 20]);
}

#[test]
fn remove_head_until_empty() {
    let mut list = list_of(&[1, 2]);
    assert_eq!(list.remove_at(0), Ok(()));
    assert_eq!(contents(&list), vec![2]);
    assert_eq!(list.remove_at(0), Ok(()));
    assert_eq!(list.len(), 0);
    assert!(list.head().is_none());
    assert_eq!(list.remove_at(0), Err(IndexError));
}

#[test]
fn remove_out_of_range_changes_nothing() {
    let mut list = list_of(&[1, 2, 3]);
    assert_eq!(list.remove_at(3), Err(IndexError));
    assert_eq!(contents(&list), vec![1, 2, 3]);
}

#[test]
fn swap_twice_restores_the_list() {
    let mut list = list_of(&[1, 2, 3, 4]);
    assert_eq!(list.swap_at(0, 3), Ok(()));
    assert_eq!(contents(&list), vec![4, 2, 3, 1]);
    assert_eq!(list.swap_at(0, 3), Ok(()));
    assert_eq!(contents(&list), vec![1, 2, 3, 4]);
}

#[test]
fn swap_with_itself_changes_nothing() {
    let mut list = list_of(&[1, 2, 3]);
    assert_eq!(list.swap_at(1, 1), Ok(()));
    assert_eq!(contents(&list), vec![1, 2, 3]);
}

#[test]
fn swap_out_of_range_changes_nothing() {
    let mut list = list_of(&[1, 2, 3]);
    assert_eq!(list.swap_at(3, 0), Err(IndexError));
    assert_eq!(list.swap_at(0, 3), Err(IndexError));
    assert_eq!(contents(&list), vec![1, 2, 3]);
}

#[test]
fn update_changes_one_payload() {
    let mut list = list_of(&[1, 2, 3]);
    assert_eq!(list.update_at(7, 2), Ok(()));
    assert_eq!(contents(&list), vec![1, 2, 7]);
    assert_eq!(list.update_at(7, 3), Err(IndexError));
    assert_eq!(contents(&list), vec![1, 2, 7]);
    assert_eq!(list.len(), 3);
}

#[test]
fn index_of_gives_the_first_of_equal_payloads() {
    let list = list_of(&[5, 7, 5, 7]);
    assert_eq!(list.index_of(5), Some(0));
    assert_eq!(list.index_of(7), Some(1));
    assert_eq!(list.index_of(6), None);
    let empty: LinkedList<i32> = LinkedList::new();
    assert_eq!(empty.index_of(5), None);
}

#[test]
fn get_node_at_hands_out_the_node_and_its_chain() {
    let list = list_of(&[1, 2, 3]);
    let node = list.get_node_at(1).unwrap().unwrap();
    assert_eq!(*node.get_data(), 2);
    assert_eq!(*node.get_next().unwrap().get_data(), 3);
    assert!(node.get_next().unwrap().get_next().is_none());
    assert_eq!(list.get_node_at(3), Err(IndexError));
}

#[test]
fn insert_then_remove_scenario() {
    let mut list: LinkedList<i32> = LinkedList::new();
    list.insert(10, None).unwrap();
    list.insert(30, None).unwrap();
    list.insert(20, Some(1)).unwrap();
    assert_eq!(list.read_at(0), Ok(10));
    assert_eq!(list.read_at(1), Ok(20));
    assert_eq!(list.read_at(2), Ok(30));
    assert_eq!(list.len(), 3);

    list.remove_at(1).unwrap();
    assert_eq!(list.read_at(1), Ok(30));
    assert_eq!(list.len(), 2);
}

#[test]
fn long_list_is_walked_to_its_far_end() {
    let count = 20_000usize;
    let mut list: LinkedList<usize> = LinkedList::new();
    for v in (0..count).rev() {
        list.push(v).unwrap();
    }
    assert_eq!(list.len(), count);
    assert_eq!(list.read_at(count - 1), Ok(count - 1));
    assert_eq!(list.update_at(7, count - 1), Ok(()));
    assert_eq!(list.index_of(7), Some(7));
    assert_eq!(list.insert(8, None), Ok(()));
    assert_eq!(list.read_at(count), Ok(8));
    assert_eq!(list.remove_at(count - 1), Ok(()));
    assert_eq!(list.read_at(count - 1), Ok(8));
    assert_eq!(list.swap_at(0, count - 1), Ok(()));
    assert_eq!(list.read_at(0), Ok(8));
    assert_eq!(list.read_at(count - 1), Ok(0));
    assert_eq!(list.len(), count);
}

#[test]
fn long_list_is_released_without_trouble() {
    let count = 1_000_000usize;
    let mut list: LinkedList<usize> = LinkedList::new();
    for v in 0..count {
        list.push(v).unwrap();
    }
    assert_eq!(list.len(), count);
    assert_eq!(list.read_at(0), Ok(count - 1));
    assert_eq!(list.remove_at(0), Ok(()));
    assert_eq!(list.len(), count - 1);
    drop(list);
}
