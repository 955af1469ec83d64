use base64::Engine;

use subconv::classify::{classify, CountryTag};
use subconv::groups::aggregate;
use subconv::parse::parse_line;
use subconv::pipeline::{parse_servers, run};
use subconv::server::ParseError;

fn b64(s: &str) -> String {
    base64::engine::general_purpose::STANDARD.encode(s)
}

fn ss_link(name: &str) -> String {
    let cipher = b64("aes-256-gcm:pass");
    format!("ss://{}@1.2.3.4:8388#{}", cipher, name)
}

const FIXED_GROUPS: &str = "\nproxy-groups:\n    - { name: 'Direct', type: select, proxies: [DIRECT] }\n    - { name: 'Reject', type: select, proxies: [REJECT,DIRECT] }\n";
const FIXED_TAIL: &str = "    - { name: 'Unmatched', type: select, proxies: ['HongKong'] }\n    - { name: 'Choice', type: select, proxies: ['HongKong'] }\n    - { name: 'telegram', type: select, proxies: ['US'] }\n";

#[test]
fn classifier_is_deterministic_and_total() {
    for name in ["香港-1", "美国 2", "plain", "新加坡x", "台湾", "日本3"] {
        assert_eq!(classify(name), classify(name));
    }
    assert_eq!(classify("香港-1"), CountryTag::HongKong);
    assert_eq!(classify("美国-1"), CountryTag::US);
    assert_eq!(classify("新加坡-1"), CountryTag::Singapore);
    assert_eq!(classify("台湾-1"), CountryTag::Taiwan);
    assert_eq!(classify("日本-1"), CountryTag::Japan);
    assert_eq!(classify("HK-1"), CountryTag::Others);
    assert_eq!(classify(""), CountryTag::Others);
}

#[test]
fn classifier_leftmost_token_wins() {
    assert_eq!(classify("x日本y香港"), CountryTag::Japan);
    assert_eq!(classify("香港日本"), CountryTag::HongKong);
}

#[test]
fn aggregator_preserves_order() {
    let lines = vec![ss_link("香港-a"), ss_link("香港-b"), ss_link("香港-c")];
    let mut servers = Vec::new();
    for l in &lines {
        servers.push(parse_line(l).unwrap());
    }
    let g = aggregate(&servers, 0);
    assert_eq!(g.hong_kong, vec!["香港-a", "香港-b", "香港-c"]);
    assert!(g.us.is_empty());
    assert!(g.others.is_empty());
}

#[test]
fn aggregator_skips_the_sampling_offset() {
    let lines = vec![ss_link("info-1"), ss_link("info-2"), ss_link("香港-a")];
    let mut servers = Vec::new();
    for l in &lines {
        servers.push(parse_line(l).unwrap());
    }
    let g = aggregate(&servers, 2);
    assert_eq!(g.hong_kong, vec!["香港-a"]);
    assert!(g.others.is_empty());
}

#[test]
fn short_payload_yields_fixed_document() {
    let payload = b64(&format!("{}\n{}\n", ss_link("a"), ss_link("b"))).into_bytes();
    let doc = run(payload, 2, "static rules\n").unwrap();
    let expected = format!("\nproxies:\n{}{}\nrules:\nstatic rules\n", FIXED_GROUPS, FIXED_TAIL);
    assert_eq!(doc, expected);
}

#[test]
fn full_run_emits_entries_and_groups() {
    let link3 = ss_link("香港-1");
    let payload = b64(&format!("{}\n{}\n{}\n", ss_link("a"), ss_link("b"), link3)).into_bytes();
    let doc = run(payload, 2, "RULES").unwrap();
    let expected = format!(
        "\nproxies:\n    - {{ name: '香港-1', type: ss, server: 1.2.3.4, port: 8388, cipher: aes-256-gcm, password: pass, udp: true }}\n{}    - {{ name: 'HongKong', type: select, proxies: ['香港-1'] }}\n{}\nrules:\nRULES",
        FIXED_GROUPS, FIXED_TAIL
    );
    assert_eq!(doc, expected);
}

#[test]
fn emission_is_reproducible() {
    let payload = b64(&format!(
        "{}\n{}\n{}\n{}\n",
        ss_link("a"),
        ss_link("b"),
        ss_link("香港-1"),
        ss_link("美国-1")
    ))
    .into_bytes();
    let doc1 = run(payload.clone(), 2, "R").unwrap();
    let doc2 = run(payload, 2, "R").unwrap();
    assert_eq!(doc1, doc2);
}

#[test]
fn bad_scheme_aborts_the_run() {
    let payload = b64("ftp://foo\n").into_bytes();
    assert_eq!(run(payload, 2, "R").unwrap_err(), ParseError::UnsupportedSchemeError);
}

#[test]
fn first_error_wins() {
    let payload = b64(&format!("ss://nodelims\nftp://foo\n{}\n", ss_link("a"))).into_bytes();
    assert_eq!(run(payload, 2, "R").unwrap_err(), ParseError::MalformedLinkError);
}

#[test]
fn bad_envelope_is_an_envelope_error() {
    assert_eq!(
        run(b"!!!not base64!!!".to_vec(), 2, "R").unwrap_err(),
        ParseError::EnvelopeDecodeError
    );
    let payload = base64::engine::general_purpose::STANDARD.encode([0xffu8, 0xfe]);
    assert_eq!(
        run(payload.into_bytes(), 2, "R").unwrap_err(),
        ParseError::EnvelopeDecodeError
    );
}

#[test]
fn blank_and_crlf_lines_are_skipped() {
    let payload = b64(&format!("\r\n{}\r\n\n{}\r\n", ss_link("a"), ss_link("b"))).into_bytes();
    let doc = run(payload, 2, "R").unwrap();
    let expected = format!("\nproxies:\n{}{}\nrules:\nR", FIXED_GROUPS, FIXED_TAIL);
    assert_eq!(doc, expected);
}

#[test]
fn parse_servers_keeps_input_order() {
    let lines = vec![ss_link("n1"), ss_link("n2")];
    let servers = parse_servers(&lines).unwrap();
    assert_eq!(servers.len(), 2);
    assert_eq!(servers[0].name(), "n1");
    assert_eq!(servers[1].name(), "n2");
}
