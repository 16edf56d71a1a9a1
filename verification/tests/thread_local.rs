use lib::thread_local::Key;

#[test]
fn key_computes_on_first_use_only() {
    let mut k = Key::new(|| 5u32);
    assert!(k.value.is_none());
    assert_eq!(k.with(|v| *v + 1), 6);
    assert_eq!(k.value, Some(5));
    k.value = Some(8);
    assert_eq!(k.with(|v| *v), 8);
}

#[test]
fn key_init_stores_the_value() {
    let mut k = Key::new(|| 2u32);
    k.init();
    assert_eq!(k.value, Some(2));
}
