use clean_url::utils::{add_www, has_www, remove_www, swap_www};

#[test]
fn has_www_sees_the_label() {
    assert!(has_www("http://www.example.com"));
    assert!(!has_www("http://example.com"));
}

#[test]
fn has_www_looks_at_the_host_only() {
    assert!(!has_www("https://example.com/www.html"));
    assert!(!has_www("https://example.com?next=www.example.org"));
    assert!(!has_www("https://example.com#www.example.org"));
    assert!(has_www("https://www.example.com/www.html"));
}

#[test]
fn has_www_wants_a_whole_label() {
    assert!(!has_www("https://wwww.example.com/"));
    assert!(!has_www("https://awww.example.com/"));
    assert!(!has_www("https://example.www"));
    assert!(!has_www("https://www"));
    assert!(has_www("https://shop.www.example.com/"));
}

#[test]
fn has_www_without_a_separator_reads_from_the_start() {
    assert!(has_www("www.example.com"));
    assert!(!has_www("example.com"));
    assert!(!has_www(""));
}

#[test]
fn remove_www_takes_the_label_out() {
    assert_eq!(remove_www("http://www.example.com"), "http://example.com");
    assert_eq!(remove_www("https://www.example.com/a?b#c"), "https://example.com/a?b#c");
    assert_eq!(remove_www("www.example.com"), "example.com");
}

#[test]
fn remove_www_takes_every_label_out() {
    assert_eq!(remove_www("http://www.www.example.com/"), "http://example.com/");
    assert_eq!(remove_www("http://shop.www.example.com/"), "http://shop.example.com/");
    assert_eq!(remove_www("http://www.a.www.b/"), "http://a.b/");
}

#[test]
fn remove_www_leaves_the_rest_alone() {
    assert_eq!(remove_www("http://example.com/www.html"), "http://example.com/www.html");
    assert_eq!(remove_www("http://wwww.example.com"), "http://wwww.example.com");
    assert_eq!(remove_www("http://www.example.com/www.html"), "http://example.com/www.html");
    assert_eq!(remove_www(""), "");
}

#[test]
fn add_www_puts_the_label_in() {
    assert_eq!(add_www("http://example.com"), "http://www.example.com");
    assert_eq!(add_www("https://example.com/a?b#c"), "https://www.example.com/a?b#c");
}

#[test]
fn add_www_keeps_hyphens() {
    assert_eq!(add_www("http://my-site.example.com/a-b"), "http://www.my-site.example.com/a-b");
}

#[test]
fn add_www_leaves_an_address_that_has_it() {
    assert_eq!(add_www("http://www.example.com"), "http://www.example.com");
    assert_eq!(add_www("http://shop.www.example.com"), "http://shop.www.example.com");
}

#[test]
fn add_www_needs_a_separator() {
    assert_eq!(add_www("example.com"), "example.com");
    assert_eq!(add_www(""), "");
}

#[test]
fn add_www_goes_behind_the_first_separator() {
    assert_eq!(
        add_www("http://example.com/?next=http://example.org"),
        "http://www.example.com/?next=http://example.org"
    );
    assert_eq!(add_www("ftp://example.com"), "ftp://www.example.com");
}

#[test]
fn swap_www_toggles_the_label() {
    assert_eq!(swap_www("http://example.com"), "http://www.example.com");
    assert_eq!(swap_www("http://www.example.com"), "http://example.com");
}

#[test]
fn swap_www_twice_gives_the_address_back() {
    for u in [
        "http://example.com",
        "http://www.example.com",
        "https://example.com/",
        "https://www.example.com/path?q=1#top",
        "https://my-site.example.com/www.html",
        "https://wwww.example.com/",
        "example.com",
        "",
    ] {
        assert_eq!(swap_www(&swap_www(u)), u);
    }
}

#[test]
fn swap_www_twice_differs_where_the_label_is_not_alone_in_front() {
    assert_eq!(swap_www(&swap_www("http://www.www.example.com")), "http://www.example.com");
    assert_eq!(swap_www(&swap_www("http://shop.www.example.com")), "http://www.shop.example.com");
    assert_eq!(swap_www(&swap_www("www.example.com")), "example.com");
}

#[test]
fn swap_www_changes_whether_there_is_a_label() {
    for u in [
        "http://example.com",
        "http://www.example.com",
        "http://www.www.example.com",
        "http://shop.www.example.com/www.",
        "https://",
    ] {
        assert_eq!(has_www(&swap_www(u)), !has_www(u));
    }
}

#[test]
fn swap_www_copes_with_text_outside_ascii() {
    assert_eq!(swap_www("https://bücher.example/"), "https://www.bücher.example/");
    assert_eq!(swap_www("https://www.bücher.example/ü"), "https://bücher.example/ü");
}
