use arrayvec::ArrayVec;
use editer::edit;

#[test]
fn arrayvec_replacing_the_first_item_with_one() {
    let mut items: ArrayVec<_, 10> = ArrayVec::from_iter([1, 2, 3, 4, 5]);

    edit(&mut items, |mut item| {
        if *item.get() == 1 {
            *item.get_mut() = 6;
        }
    });

    assert_eq!(items, ArrayVec::from_iter([6, 2, 3, 4, 5]));
}

#[test]
fn arrayvec_replacing_an_interior_item_with_one() {
    let mut items: ArrayVec<_, 10> = ArrayVec::from_iter([1, 2, 3, 4, 5]);

    edit(&mut items, |mut item| {
        if *item.get() == 3 {
            *item.get_mut() = 6;
        }
    });

    assert_eq!(items, ArrayVec::from_iter([1, 2, 6, 4, 5]));
}

#[test]
fn arrayvec_replacing_the_last_item_with_one() {
    let mut items: ArrayVec<_, 10> = ArrayVec::from_iter([1, 2, 3, 4, 5]);

    edit(&mut items, |mut item| {
        if *item.get() == 5 {
            *item.get_mut() = 6;
        }
    });

    assert_eq!(items, ArrayVec::from_iter([1, 2, 3, 4, 6]));
}

#[test]
fn arrayvec_replacing_the_first_item_with_many() {
    let mut items: ArrayVec<_, 10> = ArrayVec::from_iter([1, 2, 3, 4, 5]);

    edit(&mut items, |item| {
        if *item.get() == 1 {
            item.replace(vec![6, 7, 8]);
        }
    });

    assert_eq!(items, ArrayVec::from_iter([6, 7, 8, 2, 3, 4, 5]));
}

#[test]
fn arrayvec_replacing_an_interior_item_with_many() {
    let mut items: ArrayVec<_, 10> = ArrayVec::from_iter([1, 2, 3, 4, 5]);

    edit(&mut items, |item| {
        if *item.get() == 3 {
            item.replace(vec![6, 7, 8]);
        }
    });

    assert_eq!(items, ArrayVec::from_iter([1, 2, 6, 7, 8, 4, 5]));
}

#[test]
fn arrayvec_replacing_the_last_item_with_many() {
    let mut items: ArrayVec<_, 10> = ArrayVec::from_iter([1, 2, 3, 4, 5]);

    edit(&mut items, |item| {
        if *item.get() == 5 {
            item.replace(vec![6, 7, 8]);
        }
    });

    assert_eq!(items, ArrayVec::from_iter([1, 2, 3, 4, 6, 7, 8]));
}

#[test]
fn arrayvec_borrowing_and_replacing_the_first_item_with_many() {
    let mut items: ArrayVec<_, 10> = ArrayVec::from_iter([1, 2, 3, 4, 5]);

    edit(&mut items, |item| {
        if *item.get() == 1 {
            item.replace_with(|item| vec![item + 5, item + 6, item + 7]);
        }
    });

    assert_eq!(items, ArrayVec::from_iter([6, 7, 8, 2, 3, 4, 5]));
}

#[test]
fn arrayvec_borrowing_and_replacing_an_interior_item_with_many() {
    let mut items: ArrayVec<_, 10> = ArrayVec::from_iter([1, 2, 3, 4, 5]);

    edit(&mut items, |item| {
        if *item.get() == 3 {
            item.replace_with(|item| vec![item + 3, item + 4, item + 5]);
        }
    });

    assert_eq!(items, ArrayVec::from_iter([1, 2, 6, 7, 8, 4, 5]));
}

#[test]
fn arrayvec_borrowing_and_replacing_the_last_item_with_many() {
    let mut items: ArrayVec<_, 10> = ArrayVec::from_iter([1, 2, 3, 4, 5]);

    edit(&mut items, |item| {
        if *item.get() == 5 {
            item.replace_with(|item| vec![item + 1, item + 2, item + 3]);
        }
    });

    assert_eq!(items, ArrayVec::from_iter([1, 2, 3, 4, 6, 7, 8]));
}

#[test]
fn arrayvec_removing_the_first_item() {
    let mut items: ArrayVec<_, 10> = ArrayVec::from_iter([1, 2, 3, 4, 5]);

    edit(&mut items, |item| {
        if *item.get() == 1 {
            item.remove();
        }
    });

    assert_eq!(items, ArrayVec::from_iter([2, 3, 4, 5]));
}

#[test]
fn arrayvec_removing_an_interior_item() {
    let mut items: ArrayVec<_, 10> = ArrayVec::from_iter([1, 2, 3, 4, 5]);

    edit(&mut items, |item| {
        if *item.get() == 3 {
            item.remove();
        }
    });

    assert_eq!(items, ArrayVec::from_iter([1, 2, 4, 5]));
}

#[test]
fn arrayvec_removing_the_last_item() {
    let mut items: ArrayVec<_, 10> = ArrayVec::from_iter([1, 2, 3, 4, 5]);

    edit(&mut items, |item| {
        if *item.get() == 5 {
            item.remove();
        }
    });

    assert_eq!(items, ArrayVec::from_iter([1, 2, 3, 4]));
}

#[test]
fn arrayvec_inserting_an_item_before_the_first_item() {
    let mut items: ArrayVec<_, 10> = ArrayVec::from_iter([1, 2, 3, 4, 5]);

    edit(&mut items, |item| {
        if *item.get() == 1 {
            item.insert_before(vec![6]);
        }
    });

    assert_eq!(items, ArrayVec::from_iter([6, 1, 2, 3, 4, 5]));
}

#[test]
fn arrayvec_inserting_an_item_before_an_interior_item() {
    let mut items: ArrayVec<_, 10> = ArrayVec::from_iter([1, 2, 3, 4, 5]);

    edit(&mut items, |item| {
        if *item.get() == 3 {
            item.insert_before(vec![6]);
        }
    });

    assert_eq!(items, ArrayVec::from_iter([1, 2, 6, 3, 4, 5]));
}

#[test]
fn arrayvec_inserting_an_item_before_the_last_item() {
    let mut items: ArrayVec<_, 10> = ArrayVec::from_iter([1, 2, 3, 4, 5]);

    edit(&mut items, |item| {
        if *item.get() == 5 {
            item.insert_before(vec![6]);
        }
    });

    assert_eq!(items, ArrayVec::from_iter([1, 2, 3, 4, 6, 5]));
}

#[test]
fn arrayvec_inserting_an_item_after_the_first_item() {
    let mut items: ArrayVec<_, 10> = ArrayVec::from_iter([1, 2, 3, 4, 5]);

    edit(&mut items, |item| {
        if *item.get() == 1 {
            item.insert_after(vec![6]);
        }
    });

    assert_eq!(items, ArrayVec::from_iter([1, 6, 2, 3, 4, 5]));
}

#[test]
fn arrayvec_inserting_an_item_after_an_interior_item() {
    let mut items: ArrayVec<_, 10> = ArrayVec::from_iter([1, 2, 3, 4, 5]);

    edit(&mut items, |item| {
        if *item.get() == 3 {
            item.insert_after(vec![6]);
        }
    });

    assert_eq!(items, ArrayVec::from_iter([1, 2, 3, 6, 4, 5]));
}

#[test]
fn arrayvec_inserting_an_item_after_the_last_item() {
    let mut items: ArrayVec<_, 10> = ArrayVec::from_iter([1, 2, 3, 4, 5]);

    edit(&mut items, |item| {
        if *item.get() == 5 {
            item.insert_after(vec![6]);
        }
    });

    assert_eq!(items, ArrayVec::from_iter([1, 2, 3, 4, 5, 6]));
}
