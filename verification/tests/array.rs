use dsa::array::Array;
use dsa::error::{AllocationError, IndexError, NotFoundError};

#[test]
fn array_init_array() {
    let length = 3;
    let init_value = 1;
    let arr = Array::new(length, init_value).unwrap();

    assert_eq!(arr.len(), length);

    for i in 0..length {
        assert_eq!(*arr.get_at(i).unwrap(), init_value);
    }
}

#[test]
fn array_get() {
    let length = 3;
    let init_value = 1;
    let arr = Array::new(length, init_value).unwrap();

    // Default case
    for i in 0..length {
        assert_eq!(arr.get_at(i).unwrap(), &init_value);
    }

    // Error case
    assert!(arr.get_at(length).is_err());
}

#[test]
fn get_err() {
    let length = 3;
    let init_value = 1;
    let arr = Array::new(length, init_value).unwrap();

    assert!(arr.get_at(length).is_err());
}

#[test]
fn set() {
    let length = 3;
    let init_value = 1;
    let mut arr = Array::new(length, init_value).unwrap();

    // Default case
    for i in 0..length {
        arr.set_at(i, i).unwrap();
        assert_eq!(arr.get_at(i).unwrap(), &i);
    }

    // Error case
    assert!(arr.set_at(length, init_value).is_err());
}

#[test]
fn index_of() {
    let length = 3;
    let init_value = 1;
    let mut arr = Array::new(length, init_value).unwrap();

    // Must return first found (0)
    for _ in 0..length {
        assert_eq!(arr.index_of(init_value).unwrap(), 0);
    }

    // Default behavior
    for i in 0..length {
        arr.set_at(i, i * 2).unwrap();
        assert_eq!(arr.index_of(i * 2).unwrap(), i);
    }

    // Error: value not found
    assert!(arr.index_of(init_value).is_err());
}

#[test]
fn array_new_fills_every_slot() {
    let arr = Array::new(5, 'x').unwrap();
    assert_eq!(arr.len(), 5);
    for i in 0..5 {
        assert_eq!(arr.get_at(i), Ok(&'x'));
    }
}

#[test]
fn array_of_no_elements() {
    let mut arr: Array<u8> = Array::new(0, 7).unwrap();
    assert_eq!(arr.len(), 0);
    assert_eq!(arr.get_at(0), Err(IndexError));
    assert_eq!(arr.set_at(0, 1), Err(IndexError));
    assert_eq!(arr.index_of(7), Err(NotFoundError));
}

#[test]
fn array_request_beyond_addressable_memory() {
    let r: Result<Array<u64>, AllocationError> = Array::new(usize::MAX, 0);
    assert!(matches!(r, Err(AllocationError)));
}

#[test]
fn array_from_refused_allocation() {
    let mut probe: Vec<u64> = Vec::new();
    let refusal = probe.try_reserve_exact(usize::MAX).unwrap_err();
    let r = Array::from_allocation(Err(refusal), 3, 0u64);
    assert!(matches!(r, Err(AllocationError)));
}

#[test]
fn array_from_granted_allocation_discards_old_contents() {
    let arr = Array::from_allocation(Ok(vec![9, 9, 9, 9]), 2, 4).unwrap();
    assert_eq!(arr.len(), 2);
    assert_eq!(arr.get_at(0), Ok(&4));
    assert_eq!(arr.get_at(1), Ok(&4));
    assert_eq!(arr.get_at(2), Err(IndexError));
}

#[test]
fn array_out_of_range_reads_and_writes_fail() {
    let mut arr = Array::new(4, 0i64).unwrap();
    for i in [4usize, 5, 100, usize::MAX] {
        assert_eq!(arr.get_at(i), Err(IndexError));
        assert_eq!(arr.set_at(i, 1), Err(IndexError));
    }
    for i in 0..4 {
        assert_eq!(arr.get_at(i), Ok(&0));
    }
}

#[test]
fn array_set_changes_one_slot() {
    let mut arr = Array::new(3, 10).unwrap();
    assert_eq!(arr.set_at(1, 20), Ok(()));
    assert_eq!(arr.get_at(0), Ok(&10));
    assert_eq!(arr.get_at(1), Ok(&20));
    assert_eq!(arr.get_at(2), Ok(&10));
    assert_eq!(arr.len(), 3);
}

#[test]
fn array_index_of_tracks_writes() {
    let mut arr = Array::new(5, 0).unwrap();
    assert_eq!(arr.index_of(0), Ok(0));
    assert_eq!(arr.index_of(7), Err(NotFoundError));

    arr.set_at(3, 7).unwrap();
    assert_eq!(arr.index_of(7), Ok(3));

    arr.set_at(1, 7).unwrap();
    assert_eq!(arr.index_of(7), Ok(1));

    arr.set_at(1, 2).unwrap();
    assert_eq!(arr.index_of(7), Ok(3));
    assert_eq!(arr.index_of(2), Ok(1));

    arr.set_at(0, 5).unwrap();
    assert_eq!(arr.index_of(0), Ok(2));

    arr.set_at(3, 1).unwrap();
    assert_eq!(arr.index_of(7), Err(NotFoundError));
}
