use clean_url::resolve::{advance, begin, Rung, Step};
use clean_url::utils::probe::ProbeReply;

fn ok(final_url: &str) -> ProbeReply {
    ProbeReply::Response { status: 200, final_url: String::from(final_url), server: None }
}

fn not_found() -> ProbeReply {
    ProbeReply::Response {
        status: 404,
        final_url: String::from("https://error.example/"),
        server: Some(String::from("nginx")),
    }
}

/// Drives a resolution: each probe gets the reply that `server` gives for its
/// address. Returns what was found and the addresses probed.
fn resolve_with(raw: &str, server: impl Fn(&str) -> ProbeReply) -> (Option<String>, Vec<String>) {
    let mut probed = Vec::new();
    let mut step = begin(String::from(raw));
    loop {
        match step {
            Step::Probe { url, ladder } => {
                let reply = server(&url);
                probed.push(url);
                step = advance(ladder, reply);
            }
            Step::Done(found) => return (found, probed),
        }
    }
}

#[test]
fn accepted_first_probe_ends_the_resolution() {
    let (found, probed) = resolve_with("example.com", |_| ok("https://example.com/landing"));
    assert_eq!(found, Some(String::from("https://example.com/landing")));
    assert_eq!(probed, vec!["https://example.com/"]);
}

#[test]
fn accepted_sibling_ends_the_resolution_after_two_probes() {
    let (found, probed) = resolve_with("example.com", |url| {
        if url == "https://www.example.com/" {
            ok("https://www.example.com/home")
        } else {
            ProbeReply::TransportFailure
        }
    });
    assert_eq!(found, Some(String::from("https://www.example.com/home")));
    assert_eq!(probed, vec!["https://example.com/", "https://www.example.com/"]);
}

#[test]
fn four_rejected_probes_find_nothing() {
    let (found, probed) =
        resolve_with("broken-host-never-resolves.invalid", |_| ProbeReply::TransportFailure);
    assert_eq!(found, None);
    assert_eq!(
        probed,
        vec![
            "https://broken-host-never-resolves.invalid/",
            "https://www.broken-host-never-resolves.invalid/",
            "http://broken-host-never-resolves.invalid/",
            "http://www.broken-host-never-resolves.invalid/",
        ]
    );
}

#[test]
fn rejected_statuses_count_like_transport_failures() {
    let (found, probed) = resolve_with("www.example.com/a", |_| not_found());
    assert_eq!(found, None);
    assert_eq!(
        probed,
        vec![
            "https://www.example.com/a",
            "https://example.com/a",
            "http://www.example.com/a",
            "http://example.com/a",
        ]
    );
}

#[test]
fn input_that_is_no_address_is_never_probed() {
    for raw in ["", "http://", "exa mple.com", "//example.com:99999"] {
        let (found, probed) = resolve_with(raw, |_| ok("https://example.com/"));
        assert_eq!(found, None);
        assert_eq!(probed, Vec::<String>::new());
    }
}

#[test]
fn override_host_is_accepted_with_a_404() {
    let (found, probed) = resolve_with("example.com", |_| ProbeReply::Response {
        status: 404,
        final_url: String::from("https://example.com/missing"),
        server: Some(String::from("Squarespace")),
    });
    assert_eq!(found, Some(String::from("https://example.com/missing")));
    assert_eq!(probed, vec!["https://example.com/"]);
}

#[test]
fn example_com_resolves_with_one_probe() {
    let (found, probed) = resolve_with("example.com", |url| {
        if url == "https://example.com/" {
            ok(url)
        } else {
            ProbeReply::TransportFailure
        }
    });
    assert_eq!(found, Some(String::from("https://example.com/")));
    assert_eq!(probed.len(), 1);
}

#[test]
fn www_example_com_resolves_to_the_bare_host_with_two_probes() {
    let (found, probed) = resolve_with("www.example.com", |url| {
        if url == "https://example.com/" {
            ok(url)
        } else {
            not_found()
        }
    });
    assert_eq!(found, Some(String::from("https://example.com/")));
    assert_eq!(probed, vec!["https://www.example.com/", "https://example.com/"]);
}

#[test]
fn insecure_candidate_is_tried_third() {
    let (found, probed) = resolve_with("example.com", |url| {
        if url.starts_with("http://") {
            ok(url)
        } else {
            ProbeReply::TransportFailure
        }
    });
    assert_eq!(found, Some(String::from("http://example.com/")));
    assert_eq!(probed.len(), 3);
}

#[test]
fn insecure_sibling_is_tried_last() {
    let (found, probed) = resolve_with("example.com", |url| {
        if url == "http://www.example.com/" {
            ok("https://www.example.com/")
        } else {
            not_found()
        }
    });
    assert_eq!(found, Some(String::from("https://www.example.com/")));
    assert_eq!(probed.len(), 4);
}

#[test]
fn given_scheme_is_probed_in_both_halves() {
    let (found, probed) = resolve_with("http://example.com", |_| ProbeReply::TransportFailure);
    assert_eq!(found, None);
    assert_eq!(
        probed,
        vec![
            "http://example.com/",
            "http://www.example.com/",
            "http://example.com/",
            "http://www.example.com/",
        ]
    );
}

#[test]
fn ladder_names_its_rung() {
    let mut rungs = Vec::new();
    let mut step = begin(String::from("example.com"));
    while let Step::Probe { url: _, ladder } = step {
        rungs.push(ladder.rung());
        step = advance(ladder, ProbeReply::TransportFailure);
    }
    assert_eq!(
        rungs,
        vec![Rung::SecurePrimary, Rung::SecureSwapped, Rung::InsecurePrimary, Rung::InsecureSwapped]
    );
}
