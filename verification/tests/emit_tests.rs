use base64::Engine;

use subconv::emit::{emit_document, u16_to_string};
use subconv::groups::aggregate;
use subconv::parse::{parse_line, parse_vmess};
use subconv::server::Server;

fn b64(s: &str) -> String {
    base64::engine::general_purpose::STANDARD.encode(s)
}

#[test]
fn numbers_render_in_base_ten() {
    assert_eq!(u16_to_string(0), "0");
    assert_eq!(u16_to_string(7), "7");
    assert_eq!(u16_to_string(443), "443");
    assert_eq!(u16_to_string(8388), "8388");
    assert_eq!(u16_to_string(65535), "65535");
}

#[test]
fn ss_round_trip_renders_decoded_fields() {
    let s = parse_line("ss://YWVzLTI1Ni1nY206cGFzcw==@1.2.3.4:8388#HK-1").unwrap();
    assert_eq!(
        s.config_entry(),
        "{ name: 'HK-1', type: ss, server: 1.2.3.4, port: 8388, cipher: aes-256-gcm, password: pass, udp: true }"
    );
}

#[test]
fn vmess_entry_renders_decoded_fields() {
    let json = "{\"v\":\"2\",\"ps\":\"日本-7\",\"add\":\"h.example\",\"port\":\"443\",\"id\":\"uuid-x\",\"aid\":\"64\"}";
    let v = parse_vmess(&b64(json)).unwrap();
    assert_eq!(
        v.config_entry(),
        "{ name: '日本-7', type: vmess, server: h.example, port: 443, uuid: uuid-x, alterId: 64, cipher: auto, udp: true }"
    );
}

#[test]
fn groups_follow_the_canonical_tag_order() {
    let cipher = b64("aes-256-gcm:pass");
    let mk = |name: &str| -> Server {
        parse_line(&format!("ss://{}@h:1#{}", cipher, name)).unwrap()
    };
    let servers = vec![mk("plain"), mk("日本-1"), mk("美国-1"), mk("香港-1")];
    let g = aggregate(&servers, 0);
    let doc = emit_document(&servers, 0, &g, "");
    let hk = doc.find("'HongKong', type: select").unwrap();
    let us = doc.find("'US', type: select").unwrap();
    let jp = doc.find("'Japan', type: select").unwrap();
    let ot = doc.find("'others', type: select").unwrap();
    assert!(hk < us && us < jp && jp < ot);
    assert!(!doc.contains("'Singapore', type: select"));
    assert!(!doc.contains("'Taiwan', type: select"));
}

#[test]
fn quoted_names_join_with_comma() {
    let cipher = b64("aes-256-gcm:pass");
    let mk = |name: &str| -> Server {
        parse_line(&format!("ss://{}@h:1#{}", cipher, name)).unwrap()
    };
    let servers = vec![mk("香港-a"), mk("香港-b")];
    let g = aggregate(&servers, 0);
    let doc = emit_document(&servers, 0, &g, "");
    assert!(doc.contains("{ name: 'HongKong', type: select, proxies: ['香港-a', '香港-b'] }"));
}
