use lib::fn_box::FnBox;

#[test]
fn can_be_boxed() {
    let f = move || {};
    let _: Box<dyn FnBox<(), ()>> = Box::new(f);
}

#[test]
fn can_be_sent() {
    let f = move || {};
    let _: Box<dyn FnBox<(), ()> + Send> = Box::new(f);
}

#[test]
fn can_be_called() {
    let mut called = false;

    {
        let f: Box<dyn FnBox<(), ()>> = Box::new(|| called = true);

        f.call_box(());
    }

    assert_eq!(called, true);
}

#[test]
fn can_be_called_with_args() {
    let f: Box<dyn FnBox<(usize,), ()>> = Box::new(move |x: usize| assert_eq!(x, 3));
    f.call_box((3,));
}

#[test]
fn can_return_values() {
    let f: Box<dyn FnBox<(), usize>> = Box::new(move || 3);
    assert_eq!(f.call_box(()), 3);
}

#[test]
fn everything() {
    let f: Box<dyn FnBox<(usize,), usize>> = Box::new(move |x: usize| x + 1);
    assert_eq!(f.call_box((3,)), 4);
}

#[test]
fn two_arguments_come_in_order() {
    let f: Box<dyn FnBox<(u32, u32), u32>> = Box::new(move |a: u32, b: u32| a * 10 + b);
    assert_eq!(f.call_box((4, 2)), 42);
}
