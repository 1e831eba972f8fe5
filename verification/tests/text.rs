use digraph::text::push_decimal;

#[test]
fn push_decimal_appends_the_digits() {
    let mut text = String::from("n = ");
    push_decimal(&mut text, 0);
    assert_eq!(text, "n = 0");
    push_decimal(&mut text, 907);
    assert_eq!(text, "n = 0907");
    push_decimal(&mut text, 10);
    assert_eq!(text, "n = 090710");
}

#[test]
fn push_decimal_agrees_with_the_standard_formatting() {
    for n in [0usize, 1, 9, 10, 11, 19, 20, 99, 100, 101, 999, 1000, 1001, 65535, 65536, 1000000] {
        let mut text = String::new();
        push_decimal(&mut text, n);
        assert_eq!(text, format!("{}", n));
    }
    let mut text = String::new();
    push_decimal(&mut text, usize::MAX);
    assert_eq!(text, format!("{}", usize::MAX));
}
