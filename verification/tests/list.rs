use ipsecret_sync::list::List;

#[test]
fn second_test() {
    let mut list = List::new();
    assert_eq!(list.pop(), None);

    list.push(1);
    list.push(2);
    list.push(3);

    assert_eq!(list.pop(), Some(3));
    assert_eq!(list.pop(), Some(2));

    list.push(4);
    list.push(5);

    assert_eq!(list.pop(), Some(5));
    assert_eq!(list.pop(), Some(4));

    assert_eq!(list.pop(), Some(1));
    assert_eq!(list.pop(), None);
}

#[test]
fn peek() {
    let mut list = List::new();

    assert_eq!(list.peek(), None);
    assert_eq!(list.peek_mut(), None);

    list.push(1);
    list.push(2);
    list.push(3);

    assert_eq!(list.peek(), Some(&3));
    assert_eq!(list.peek_mut(), Some(&mut 3));

    if let Some(value) = list.peek_mut() {
        *value = 42
    }

    assert_eq!(list.peek(), Some(&42));
    assert_eq!(list.pop(), Some(42));
}

#[test]
fn into_iter() {
    let mut list = List::new();
    list.push(1);
    list.push(2);
    list.push(3);

    let mut iter = list.into_iter();
    assert_eq!(iter.next(), Some(3));
    assert_eq!(iter.next(), Some(2));
    assert_eq!(iter.next(), Some(1));
    assert_eq!(iter.next(), None);
}

#[test]
fn iter() {
    let mut list = List::new();
    list.push(1);
    list.push(2);
    list.push(3);

    let mut iter = list.iter();
    assert_eq!(iter.next(), Some(&3));
    assert_eq!(iter.next(), Some(&2));
    assert_eq!(iter.next(), Some(&1));
}

#[test]
fn iter_mut() {
    let mut list = List::new();
    list.push(1);
    list.push(2);
    list.push(3);

    let mut iter = list.iter_mut();
    assert_eq!(iter.next(), Some(&mut 3));
    assert_eq!(iter.next(), Some(&mut 2));
    assert_eq!(iter.next(), Some(&mut 1));
}

#[test]
fn iter_runs_out_and_leaves_the_list() {
    let mut list = List::new();
    list.push(7);
    let mut iter = list.iter();
    assert_eq!(iter.next(), Some(&7));
    assert_eq!(iter.next(), None);
    assert_eq!(iter.next(), None);
    assert_eq!(list.peek(), Some(&7));
}

#[test]
fn iter_mut_changes_are_kept_in_place() {
    let mut list = List::new();
    list.push(1);
    list.push(2);
    list.push(3);
    {
        let mut iter = list.iter_mut();
        let first = iter.next();
        let second = iter.next();
        if let Some(value) = second {
            *value = 20;
        }
        if let Some(value) = first {
            *value = 30;
        }
        assert_eq!(iter.next(), Some(&mut 1));
        assert_eq!(iter.next(), None);
    }
    assert_eq!(list.pop(), Some(30));
    assert_eq!(list.pop(), Some(20));
    assert_eq!(list.pop(), Some(1));
    assert_eq!(list.pop(), None);
}

#[test]
fn pop_on_empty_leaves_it_empty() {
    let mut list: List<u8> = List::new();
    assert_eq!(list.pop(), None);
    assert_eq!(list.peek(), None);
    list.push(9);
    assert_eq!(list.pop(), Some(9));
    assert_eq!(list.pop(), None);
}

#[test]
fn default_list_is_empty() {
    let mut list: List<i32> = List::default();
    assert_eq!(list.peek(), None);
    list.push(1);
    assert_eq!(list.pop(), Some(1));
    assert_eq!(list.pop(), None);
}

#[test]
fn a_long_list_is_dropped_without_nesting() {
    let mut list = List::new();
    for n in 0..1_000_000u32 {
        list.push(n);
    }
    assert_eq!(list.peek(), Some(&999_999));
    drop(list);
}
