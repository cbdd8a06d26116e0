use clean_url::utils::{remove_end_slash, urlify};

#[test]
fn remove_end_slash_takes_one_slash_off() {
    assert_eq!(remove_end_slash("example.com/"), "example.com");
    assert_eq!(remove_end_slash("example.com"), "example.com");
    assert_eq!(remove_end_slash("example.com//"), "example.com/");
    assert_eq!(remove_end_slash("/"), "");
    assert_eq!(remove_end_slash(""), "");
    assert_eq!(remove_end_slash("a/b"), "a/b");
    assert_eq!(remove_end_slash("a/\n"), "a/\n");
}

#[test]
fn urlify_makes_a_name_fit_for_a_path() {
    assert_eq!(urlify("Company Name Here"), "company-name-here");
    assert_eq!(urlify("TEST"), "test");
    assert_eq!(urlify("TEST-2"), "test-2");
    assert_eq!(urlify("Google's.Cool#&Company, LLC"), "googlescoolcompany-llc");
}

#[test]
fn urlify_drops_each_unsafe_character() {
    assert_eq!(urlify("a@b!c&d#e'f$g,h.i"), "abcdefghi");
    assert_eq!(urlify("@!&#'$,."), "");
    assert_eq!(urlify("a/b?c=d%e"), "a/b?c=d%e");
}

#[test]
fn urlify_writes_a_hyphen_for_each_white_space() {
    assert_eq!(urlify("a  b"), "a--b");
    assert_eq!(urlify(" a "), "-a-");
    assert_eq!(urlify("a\tb\nc\rd\u{b}e\u{c}f"), "a-b-c-d-e-f");
    assert_eq!(urlify("a\u{85}b\u{a0}c\u{1680}d"), "a-b-c-d");
    assert_eq!(urlify("a\u{2000}b\u{200a}c\u{2028}d\u{2029}e"), "a-b-c-d-e");
    assert_eq!(urlify("a\u{202f}b\u{205f}c\u{3000}d"), "a-b-c-d");
    assert_eq!(urlify("a\u{200b}b\u{feff}c\u{1f}d"), "a\u{200b}b\u{feff}c\u{1f}d");
}

#[test]
fn urlify_lowers_ascii_only() {
    assert_eq!(urlify("AZaz09"), "azaz09");
    assert_eq!(urlify("ÄÖÜ É"), "ÄÖÜ-É");
    assert_eq!(urlify("[\\]^_`{|}~"), "[\\]^_`{|}~");
    assert_eq!(urlify(""), "");
}

#[test]
fn urlify_treats_each_character_as_the_patterns_do() {
    let unsafe_class = regex::Regex::new(r"[@!&#'$,\.]").unwrap();
    let space_class = regex::Regex::new(r"\s").unwrap();
    for code in 0..0x11000u32 {
        if let Some(c) = char::from_u32(code) {
            let text = format!("a{}b", c);
            let lowered = text.to_ascii_lowercase();
            let cleaned = unsafe_class.replace_all(&lowered, "");
            let expected = space_class.replace_all(&cleaned, "-").to_string();
            assert_eq!(urlify(&text), expected);
        }
    }
}

#[test]
fn remove_end_slash_does_what_the_pattern_does() {
    let end_slash = regex::Regex::new(r"/$").unwrap();
    for text in ["", "/", "//", "a/", "a//", "/a", "a/b/", "a/\n", "a/ ", "é/", "a\n/"] {
        assert_eq!(remove_end_slash(text), end_slash.replace_all(text, "").to_string());
    }
}
