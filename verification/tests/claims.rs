use xmip_core_identify::{
    Arriving, Established, IdentifyError, Layer, Mechanism, Message, Presented, Stream,
    StreamArrival,
};

fn ssh_key() -> Mechanism {
    Mechanism::new("ssh-key", Layer::Transport, true)
}

fn envelope() -> Mechanism {
    Mechanism::new("edi-edifact-interchange", Layer::Message, false)
}

#[test]
fn each_constructor_records_how_the_claim_was_established() {
    let passed = Presented::passed(ssh_key(), "partner-x");
    let inferred = Presented::inferred(ssh_key(), "/in/partner-x");
    let detected = Presented::detected(envelope(), "PARTNERX");
    let made = Presented::new(ssh_key(), "partner-y", Established::Inferred);

    assert_eq!(passed.established, Established::Passed);
    assert_eq!(inferred.established, Established::Inferred);
    assert_eq!(detected.established, Established::Detected);
    assert_eq!(made.established, Established::Inferred);
    assert_eq!(passed.value, "partner-x");
    assert_eq!(inferred.value, "/in/partner-x");
    assert_eq!(made.value, "partner-y");
    assert!(passed.evidence.is_empty());
    assert_eq!(passed.mechanism, ssh_key());
}

#[test]
fn evidence_is_kept_in_the_order_it_was_added() {
    let claim = Presented::passed(ssh_key(), "partner-x")
        .with_evidence("peer", "192.0.2.1")
        .with_evidence("fingerprint", "SHA256:abc");

    assert_eq!(
        claim.evidence,
        vec![
            ("peer".to_string(), "192.0.2.1".to_string()),
            ("fingerprint".to_string(), "SHA256:abc".to_string()),
        ]
    );
    assert_eq!(claim.value, "partner-x");
    assert_eq!(claim.established, Established::Passed);
    assert_eq!(claim.layer(), Layer::Transport);
}

#[test]
fn the_layer_comes_from_the_mechanism() {
    assert_eq!(Presented::detected(envelope(), "X").layer(), Layer::Message);
    assert_eq!(Presented::detected(ssh_key(), "X").layer(), Layer::Transport);
}

#[test]
fn a_mechanism_reads_back_what_it_was_made_of() {
    let m = envelope();
    assert_eq!(m.name(), "edi-edifact-interchange");
    assert_eq!(m.layer(), Layer::Message);
    assert!(!m.authenticates());
    assert!(ssh_key().authenticates());
}

#[test]
fn an_error_reads_as_its_message() {
    let e = IdentifyError {
        message: "truncated header".to_string(),
    };
    assert_eq!(e.to_string(), "truncated header");
}

#[test]
fn an_arrival_reads_back_what_it_was_made_of() {
    let stream = Stream::new(b"<order/>".to_vec());
    let properties = [
        ("peer".to_string(), "192.0.2.1".to_string()),
        ("path".to_string(), "/in/x".to_string()),
    ];
    let arrival = StreamArrival::new(&stream, Arriving::Scheduled, "sftp://host/in", &properties);

    assert_eq!(arrival.arriving(), Arriving::Scheduled);
    assert_eq!(arrival.source_uri(), "sftp://host/in");
    assert_eq!(arrival.stream().bytes(), b"<order/>");
    assert_eq!(
        arrival.properties(),
        vec![("peer", "192.0.2.1"), ("path", "/in/x")]
    );
}

#[test]
fn the_first_property_of_a_name_is_the_one_read() {
    let stream = Stream::new(Vec::new());
    let properties = [
        ("header".to_string(), "first".to_string()),
        ("other".to_string(), "x".to_string()),
        ("header".to_string(), "second".to_string()),
    ];
    let arrival = StreamArrival::new(&stream, Arriving::Pushed, "https://x", &properties);

    assert_eq!(arrival.property("header"), Some("first"));
    assert_eq!(arrival.property("other"), Some("x"));
    assert_eq!(arrival.property("absent"), None);
    assert_eq!(arrival.property("Header"), None);
    assert_eq!(arrival.property(""), None);
}

#[test]
fn an_arrival_without_properties_has_none() {
    let stream = Stream::new(Vec::new());
    let arrival = StreamArrival::new(&stream, Arriving::Detected, "file:///in/x", &[]);
    assert_eq!(arrival.property("anything"), None);
    assert!(arrival.properties().is_empty());
}

#[test]
fn a_message_keeps_its_sections_in_order() {
    let m = Message::new(vec![Stream::new(b"one".to_vec()), Stream::new(b"two".to_vec())]);
    assert_eq!(m.sections().len(), 2);
    assert_eq!(m.sections()[0].bytes(), b"one");
    assert_eq!(m.sections()[1].bytes(), b"two");
}
