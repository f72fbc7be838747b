#[test]
fn it_works() {
    let line = format!("{} {}", "aaaa", 123);
    assert_eq!(2 + 2, 4);
    assert_eq!(line, "aaaa 123");
}
