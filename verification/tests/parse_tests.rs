use base64::Engine;

use subconv::parse::{parse_line, parse_ss, parse_vmess};
use subconv::server::{ParseError, Server};

fn b64(s: &str) -> String {
    base64::engine::general_purpose::STANDARD.encode(s)
}

#[test]
fn ss_link_scenario() {
    let r = parse_line("ss://YWVzLTI1Ni1nY206cGFzcw==@1.2.3.4:8388#HK-1");
    match r {
        Ok(Server::SS(s)) => {
            assert_eq!(s.name, "HK-1");
            assert_eq!(s.host, "1.2.3.4");
            assert_eq!(s.port, 8388);
            assert_eq!(s.cipher, "aes-256-gcm");
            assert_eq!(s.password, "pass");
            assert!(s.udp);
        }
        _ => panic!("expected a shadowsocks descriptor"),
    }
}

#[test]
fn ss_name_is_percent_decoded() {
    let r = parse_ss("YWVzLTI1Ni1nY206cGFzcw==@1.2.3.4:8388#HK%2D1%20a");
    let s = r.expect("link should parse");
    assert_eq!(s.name, "HK-1 a");
}

#[test]
fn ss_password_may_contain_colon() {
    let cipher = b64("chacha20:pa:ss");
    let body = format!("{}@h:443#n", cipher);
    let s = parse_ss(&body).expect("link should parse");
    assert_eq!(s.cipher, "chacha20");
    assert_eq!(s.password, "pa:ss");
}

#[test]
fn ss_missing_delimiters_is_malformed() {
    assert_eq!(parse_ss("nodelims").unwrap_err(), ParseError::MalformedLinkError);
    assert_eq!(parse_ss("abc@host:1").unwrap_err(), ParseError::MalformedLinkError);
    assert_eq!(parse_ss("abc@host#n").unwrap_err(), ParseError::MalformedLinkError);
}

#[test]
fn ss_bad_base64_cipher_is_malformed() {
    assert_eq!(parse_ss("!!!@h:443#n").unwrap_err(), ParseError::MalformedLinkError);
}

#[test]
fn ss_port_out_of_range_is_malformed() {
    let cipher = b64("aes-256-gcm:pass");
    assert_eq!(
        parse_ss(&format!("{}@h:0#n", cipher)).unwrap_err(),
        ParseError::MalformedLinkError
    );
    assert_eq!(
        parse_ss(&format!("{}@h:65536#n", cipher)).unwrap_err(),
        ParseError::MalformedLinkError
    );
    assert_eq!(
        parse_ss(&format!("{}@h:12ab#n", cipher)).unwrap_err(),
        ParseError::MalformedLinkError
    );
    assert_eq!(parse_ss(&format!("{}@h:04388#n", cipher)).unwrap().port, 4388);
}

#[test]
fn vmess_fields_map_one_to_one() {
    let json = "{\"v\":\"2\",\"ps\":\"香港-2\",\"add\":\"h.example\",\"port\":\"443\",\"id\":\"uuid-x\",\"aid\":\"0\"}";
    let body = b64(json);
    let v = parse_vmess(&body).expect("link should parse");
    assert_eq!(v.version, "2");
    assert_eq!(v.name, "香港-2");
    assert_eq!(v.host, "h.example");
    assert_eq!(v.port, 443);
    assert_eq!(v.uuid, "uuid-x");
    assert_eq!(v.alter_id, "0");
}

#[test]
fn vmess_missing_member_is_malformed() {
    let json = "{\"v\":\"2\",\"ps\":\"a\",\"add\":\"h\",\"port\":\"443\",\"id\":\"u\"}";
    assert_eq!(parse_vmess(&b64(json)).unwrap_err(), ParseError::MalformedLinkError);
}

#[test]
fn vmess_non_numeric_port_is_malformed() {
    let json = "{\"v\":\"2\",\"ps\":\"a\",\"add\":\"h\",\"port\":\"https\",\"id\":\"u\",\"aid\":\"0\"}";
    assert_eq!(parse_vmess(&b64(json)).unwrap_err(), ParseError::MalformedLinkError);
}

#[test]
fn vmess_not_json_is_malformed() {
    assert_eq!(parse_vmess(&b64("not json")).unwrap_err(), ParseError::MalformedLinkError);
}

#[test]
fn unknown_scheme_is_unsupported() {
    assert_eq!(parse_line("ftp://foo").unwrap_err(), ParseError::UnsupportedSchemeError);
    assert_eq!(parse_line("").unwrap_err(), ParseError::UnsupportedSchemeError);
    assert_eq!(parse_line("ssx://abc").unwrap_err(), ParseError::UnsupportedSchemeError);
}

#[test]
fn server_name_reads_the_label() {
    let s = parse_line("ss://YWVzLTI1Ni1nY206cGFzcw==@1.2.3.4:8388#HK-1").unwrap();
    assert_eq!(s.name(), "HK-1");
}
