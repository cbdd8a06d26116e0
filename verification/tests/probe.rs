use clean_url::utils::check_status;
use clean_url::utils::probe::{classify, is_known_override_host, ProbeOutcome, ProbeReply};

fn response(status: u16, server: Option<&str>) -> ProbeReply {
    ProbeReply::Response {
        status,
        final_url: String::from("https://example.com/"),
        server: server.map(String::from),
    }
}

#[test]
fn check_status_accepts_the_200_series() {
    for status in [200, 201, 204, 226, 299] {
        assert_eq!(check_status(response(status, None)), Some(String::from("https://example.com/")));
    }
}

#[test]
fn check_status_rejects_other_statuses() {
    for status in [0, 100, 199, 300, 301, 404, 500, 999, u16::MAX] {
        assert_eq!(check_status(response(status, None)), None);
        assert_eq!(check_status(response(status, Some("nginx"))), None);
    }
}

#[test]
fn check_status_accepts_the_override_host() {
    assert_eq!(
        check_status(response(404, Some("Squarespace"))),
        Some(String::from("https://example.com/"))
    );
    assert_eq!(
        check_status(response(503, Some("Squarespace"))),
        Some(String::from("https://example.com/"))
    );
}

#[test]
fn check_status_wants_the_header_letter_for_letter() {
    for server in ["squarespace", "SQUARESPACE", "Squarespace ", " Squarespace", "Squarespace/1.0", ""] {
        assert_eq!(check_status(response(404, Some(server))), None);
    }
}

#[test]
fn check_status_rejects_a_transport_failure() {
    assert_eq!(check_status(ProbeReply::TransportFailure), None);
}

#[test]
fn check_status_returns_where_the_request_ended() {
    let reply = ProbeReply::Response {
        status: 200,
        final_url: String::from("https://bertsmithco.com/"),
        server: None,
    };
    assert_eq!(check_status(reply), Some(String::from("https://bertsmithco.com/")));
}

#[test]
fn classify_names_each_outcome() {
    assert_eq!(
        classify(response(200, Some("Squarespace"))),
        ProbeOutcome::Accepted(String::from("https://example.com/"))
    );
    assert_eq!(
        classify(response(404, Some("Squarespace"))),
        ProbeOutcome::RejectedWithHostOverride(String::from("https://example.com/"))
    );
    assert_eq!(classify(response(404, None)), ProbeOutcome::Rejected);
    assert_eq!(classify(response(301, Some("Apache"))), ProbeOutcome::Rejected);
    assert_eq!(classify(ProbeReply::TransportFailure), ProbeOutcome::TransportFailure);
}

#[test]
fn outcome_gives_up_its_address() {
    assert_eq!(ProbeOutcome::Accepted(String::from("a")).into_url(), Some(String::from("a")));
    assert_eq!(
        ProbeOutcome::RejectedWithHostOverride(String::from("b")).into_url(),
        Some(String::from("b"))
    );
    assert_eq!(ProbeOutcome::Rejected.into_url(), None);
    assert_eq!(ProbeOutcome::TransportFailure.into_url(), None);
}

#[test]
fn override_host_is_one_name() {
    assert!(is_known_override_host(&Some(String::from("Squarespace"))));
    assert!(!is_known_override_host(&Some(String::from("squarespace"))));
    assert!(!is_known_override_host(&Some(String::from("cloudflare"))));
    assert!(!is_known_override_host(&None));
}
