use clean_url::utils::text::{push_range, to_chars};

#[test]
fn to_chars_reads_characters_not_bytes() {
    assert_eq!(to_chars("aé€😀"), vec!['a', 'é', '€', '😀']);
    assert_eq!(to_chars(""), Vec::<char>::new());
}

#[test]
fn push_range_appends_a_range() {
    let v = vec!['a', 'b', 'c'];
    let mut s = String::from("x");
    push_range(&mut s, &v, 1, 3);
    assert_eq!(s, "xbc");
    push_range(&mut s, &v, 0, 0);
    assert_eq!(s, "xbc");
}
