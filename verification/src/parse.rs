use vstd::prelude::*;

use crate::classify::matches_at;
use crate::codec::{b64_decode, b64_of, percent_decode, percent_of, utf8_of, utf8_to_string,
    vmess_json_fields, vmess_json_of};
use crate::scan::{all_digits, find_char, parse_port, port_of_str, rfind_char};
use crate::server::{ParseError, Server, ServerV, ShadowSocks, ShadowSocksV, Vmess, VmessV};

verus! {

/// Splits a shadowsocks body `<cipher-b64>@<host>:<port>#<name>` into its
/// four segments. The delimiters are fixed and read in a fixed order: the
/// name follows the last `#`, the cipher block precedes the last `@`
/// before it, and the port follows the first `:` of the address part.
pub open spec fn ss_split(body: Seq<char>) -> Option<
    (Seq<char>, Seq<char>, Seq<char>, Seq<char>),
> {
    match body.index_of_last('#') {
        Some(h) => {
            let left = body.take(h);
            let name = body.skip(h + 1);
            match left.index_of_last('@') {
                Some(a) => {
                    let cipher = left.take(a);
                    let addr = left.skip(a + 1);
                    match addr.index_of_first(':') {
                        Some(p) => Some((cipher, addr.take(p), addr.skip(p + 1), name)),
                        None => None,
                    }
                },
                None => None,
            }
        },
        None => None,
    }
}

/// What parsing a shadowsocks body yields: the segments of `ss_split`,
/// with the cipher block base64- and UTF-8-decoded and split at its first
/// `:` into method and password, the port read as a number, and the name
/// percent-decoded and required non-empty. `udp` is always enabled by
/// this pipeline.
pub open spec fn spec_parse_ss(body: Seq<char>) -> Option<ShadowSocksV> {
    match ss_split(body) {
        Some((cseg, hostseg, portseg, nameseg)) => match b64_of(cseg) {
            Some(bytes) => match utf8_of(bytes) {
                Some(ct) => match ct.index_of_first(':') {
                    Some(ci) => match parse_port(portseg) {
                        Some(p) => match percent_of(nameseg) {
                            Some(nm) => if nm.len() > 0 {
                                Some(
                                    ShadowSocksV {
                                        name: nm,
                                        host: hostseg,
                                        port: p,
                                        cipher: ct.take(ci),
                                        password: ct.skip(ci + 1),
                                        udp: true,
                                    },
                                )
                            } else {
                                None
                            },
                            None => None,
                        },
                        None => None,
                    },
                    None => None,
                },
                None => None,
            },
            None => None,
        },
        None => None,
    }
}

/// What parsing a vmess body yields: the body base64- and UTF-8-decoded
/// into a JSON object whose six wire members become the descriptor's
/// fields, with the port read as a number, the alter id required to be
/// digits, and the name required non-empty.
pub open spec fn spec_parse_vmess(body: Seq<char>) -> Option<VmessV> {
    match b64_of(body) {
        Some(bytes) => match utf8_of(bytes) {
            Some(txt) => match vmess_json_of(txt) {
                Some((v, ps, add, portf, id, aid)) => match parse_port(portf) {
                    Some(p) => if ps.len() > 0 && aid.len() > 0 && all_digits(aid) {
                        Some(
                            VmessV {
                                version: v,
                                name: ps,
                                host: add,
                                port: p,
                                uuid: id,
                                alter_id: aid,
                            },
                        )
                    } else {
                        None
                    },
                    None => None,
                },
                None => None,
            },
            None => None,
        },
        None => None,
    }
}

/// What parsing one link line yields: the scheme prefix picks the parser,
/// a line with neither prefix is an unsupported scheme, and a recognized
/// body of the wrong shape is a malformed link.
pub open spec fn spec_parse_line(line: Seq<char>) -> Result<ServerV, ParseError> {
    if matches_at(line, "ss://"@, 0) {
        match spec_parse_ss(line.skip(5)) {
            Some(v) => Ok(ServerV::SS(v)),
            None => Err(ParseError::MalformedLinkError),
        }
    } else if matches_at(line, "vmess://"@, 0) {
        match spec_parse_vmess(line.skip(8)) {
            Some(v) => Ok(ServerV::Vmess(v)),
            None => Err(ParseError::MalformedLinkError),
        }
    } else {
        Err(ParseError::UnsupportedSchemeError)
    }
}

/// Round trip for shadowsocks links: whenever a body parses, the
/// descriptor's `host`, `port`, `cipher` and `password` are exactly the
/// decoded source segments, so re-serializing the descriptor renders the
/// same entry as rendering the decoded source fields themselves.
pub proof fn lemma_ss_round_trip(body: Seq<char>)
    ensures
        spec_parse_ss(body) matches Some(d) ==> {
            let (cseg, hostseg, portseg, nameseg) = ss_split(body).unwrap();
            let ct = utf8_of(b64_of(cseg).unwrap()).unwrap();
            let ci = ct.index_of_first(':').unwrap();
            &&& d.host == hostseg
            &&& parse_port(portseg) == Some(d.port)
            &&& d.cipher == ct.take(ci)
            &&& d.password == ct.skip(ci + 1)
            &&& crate::emit::ss_entry(d) == crate::emit::ss_entry(
                ShadowSocksV {
                    name: percent_of(nameseg).unwrap(),
                    host: hostseg,
                    port: parse_port(portseg).unwrap(),
                    cipher: ct.take(ci),
                    password: ct.skip(ci + 1),
                    udp: true,
                },
            )
        },
{
}

/// Field fidelity for vmess links: whenever a body parses, the decoded
/// JSON members map one to one onto the descriptor's fields, the port
/// being the only one read as a number.
pub proof fn lemma_vmess_fields_faithful(body: Seq<char>)
    ensures
        spec_parse_vmess(body) matches Some(d) ==> {
            let (v, ps, add, portf, id, aid) = vmess_json_of(
                utf8_of(b64_of(body).unwrap()).unwrap(),
            ).unwrap();
            &&& d.version == v
            &&& d.name == ps
            &&& d.host == add
            &&& parse_port(portf) == Some(d.port)
            &&& d.uuid == id
            &&& d.alter_id == aid
        },
{
}

/// Checks that every character of `s` is a decimal digit.
fn check_all_digits(s: &str) -> (b: bool)
    ensures
        b == all_digits(s@),
{
    let n = s.unicode_len();
    let mut i: usize = 0;
    while i < n
        invariant
            i <= n,
            n == s@.len(),
            forall|j: int| 0 <= j < i ==> crate::scan::is_digit(s@[j]),
        decreases n - i,
    {
        let cu = s.get_char(i) as u32;
        if cu < 48 || cu > 57 {
            assert(!crate::scan::is_digit(s@[i as int]));
            return false;
        }
        i += 1;
    }
    true
}

/// Parses a shadowsocks body into a descriptor, `MalformedLinkError` when
/// any segment or decoding step fails.
pub fn parse_ss(body: &str) -> (r: Result<ShadowSocks, ParseError>)
    ensures
        match r {
            Ok(s) => spec_parse_ss(body@) == Some(s@) && s@.wf(),
            Err(e) => spec_parse_ss(body@) is None && e == ParseError::MalformedLinkError,
        },
{
    let n = body.unicode_len();
    let h = match rfind_char(body, '#') {
        Some(h) => h,
        None => {
            return Err(ParseError::MalformedLinkError);
        },
    };
    proof {
        body@.index_of_last_ensures('#');
    }
    let left = body.substring_char(0, h);
    let name_seg = body.substring_char(h + 1, n);
    let left_n = left.unicode_len();
    let a = match rfind_char(left, '@') {
        Some(a) => a,
        None => {
            return Err(ParseError::MalformedLinkError);
        },
    };
    proof {
        left@.index_of_last_ensures('@');
    }
    let cipher_seg = left.substring_char(0, a);
    let addr = left.substring_char(a + 1, left_n);
    let addr_n = addr.unicode_len();
    let p = match find_char(addr, ':') {
        Some(p) => p,
        None => {
            return Err(ParseError::MalformedLinkError);
        },
    };
    proof {
        addr@.index_of_first_ensures(':');
    }
    let host_seg = addr.substring_char(0, p);
    let port_seg = addr.substring_char(p + 1, addr_n);
    let bytes = match b64_decode(cipher_seg) {
        Some(b) => b,
        None => {
            return Err(ParseError::MalformedLinkError);
        },
    };
    let ct = match utf8_to_string(bytes) {
        Some(t) => t,
        None => {
            return Err(ParseError::MalformedLinkError);
        },
    };
    let ct_n = ct.as_str().unicode_len();
    let ci = match find_char(ct.as_str(), ':') {
        Some(c) => c,
        None => {
            return Err(ParseError::MalformedLinkError);
        },
    };
    proof {
        ct@.index_of_first_ensures(':');
    }
    let cipher = ct.as_str().substring_char(0, ci).to_owned();
    let password = ct.as_str().substring_char(ci + 1, ct_n).to_owned();
    let port = match port_of_str(port_seg) {
        Some(p) => p,
        None => {
            return Err(ParseError::MalformedLinkError);
        },
    };
    let name = match percent_decode(name_seg) {
        Some(nm) => nm,
        None => {
            return Err(ParseError::MalformedLinkError);
        },
    };
    if name.as_str().unicode_len() == 0 {
        return Err(ParseError::MalformedLinkError);
    }
    let host = host_seg.to_owned();
    Ok(ShadowSocks { name, host, port, cipher, password, udp: true })
}

/// Parses a vmess body into a descriptor, `MalformedLinkError` when the
/// base64 blob, the JSON object or any required member fails.
pub fn parse_vmess(body: &str) -> (r: Result<Vmess, ParseError>)
    ensures
        match r {
            Ok(s) => spec_parse_vmess(body@) == Some(s@) && s@.wf(),
            Err(e) => spec_parse_vmess(body@) is None && e == ParseError::MalformedLinkError,
        },
{
    let bytes = match b64_decode(body) {
        Some(b) => b,
        None => {
            return Err(ParseError::MalformedLinkError);
        },
    };
    let txt = match utf8_to_string(bytes) {
        Some(t) => t,
        None => {
            return Err(ParseError::MalformedLinkError);
        },
    };
    let fields = match vmess_json_fields(txt.as_str()) {
        Some(f) => f,
        None => {
            return Err(ParseError::MalformedLinkError);
        },
    };
    let (version, name, host, port_field, uuid, alter_id) = fields;
    let port = match port_of_str(port_field.as_str()) {
        Some(p) => p,
        None => {
            return Err(ParseError::MalformedLinkError);
        },
    };
    if name.as_str().unicode_len() == 0 {
        return Err(ParseError::MalformedLinkError);
    }
    if alter_id.as_str().unicode_len() == 0 || !check_all_digits(alter_id.as_str()) {
        return Err(ParseError::MalformedLinkError);
    }
    Ok(Vmess { version, name, host, port, uuid, alter_id })
}

/// Parses one link line: `ss://` and `vmess://` are the two recognized
/// schemes; any other line fails with `UnsupportedSchemeError`, and a
/// recognized body of the wrong shape with `MalformedLinkError`.
pub fn parse_line(line: &str) -> (r: Result<Server, ParseError>)
    ensures
        match r {
            Ok(s) => spec_parse_line(line@) == Ok::<ServerV, ParseError>(s@) && s@.wf(),
            Err(e) => spec_parse_line(line@) == Err::<ServerV, ParseError>(e),
        },
{
    let n = line.unicode_len();
    proof {
        reveal_strlit("ss://");
        reveal_strlit("vmess://");
    }
    let is_ss = n >= 1 && crate::classify::occurs_at(line, n, 0, "ss://", 5);
    if is_ss {
        match parse_ss(line.substring_char(5, n)) {
            Ok(s) => Ok(Server::SS(s)),
            Err(_) => Err(ParseError::MalformedLinkError),
        }
    } else {
        let is_vmess = n >= 1 && crate::classify::occurs_at(line, n, 0, "vmess://", 8);
        if is_vmess {
            match parse_vmess(line.substring_char(8, n)) {
                Ok(s) => Ok(Server::Vmess(s)),
                Err(_) => Err(ParseError::MalformedLinkError),
            }
        } else {
            assert(!matches_at(line@, "ss://"@, 0));
            assert(!matches_at(line@, "vmess://"@, 0));
            Err(ParseError::UnsupportedSchemeError)
        }
    }
}

} // verus!
