use vstd::prelude::*;

use crate::emit::{document_of, emit_document};
use crate::envelope::{decode_envelope, envelope_lines};
use crate::groups::{aggregate, retained, str_views, views};
use crate::parse::{parse_line, spec_parse_line};
use crate::server::{ParseError, Server, ServerV};

verus! {

/// What parsing every line yields: the descriptors in input order when
/// every line parses, else the error of the first line that fails.
pub open spec fn parse_all(lines: Seq<Seq<char>>) -> Result<Seq<ServerV>, ParseError>
    decreases lines.len(),
{
    if lines.len() == 0 {
        Ok(Seq::empty())
    } else {
        match parse_all(lines.drop_last()) {
            Err(e) => Err(e),
            Ok(front) => match spec_parse_line(lines.last()) {
                Err(e) => Err(e),
                Ok(s) => Ok(front.push(s)),
            },
        }
    }
}

proof fn lemma_parse_all_err(lines: Seq<Seq<char>>, k: int)
    requires
        0 <= k <= lines.len(),
        parse_all(lines.take(k)) is Err,
    ensures
        parse_all(lines) == parse_all(lines.take(k)),
    decreases lines.len() - k,
{
    if k < lines.len() {
        assert(lines.take(k + 1).drop_last() =~= lines.take(k));
        lemma_parse_all_err(lines, k + 1);
    } else {
        assert(lines.take(k) =~= lines);
    }
}

/// What one whole run yields for a payload, a sampling offset and a rule
/// block: the complete document, or the first error met, with no partial
/// document in between.
pub open spec fn spec_run(payload: Seq<u8>, skip: int, rules: Seq<char>) -> Result<
    Seq<char>,
    ParseError,
> {
    match envelope_lines(payload) {
        None => Err(ParseError::EnvelopeDecodeError),
        Some(lines) => match parse_all(lines) {
            Err(e) => Err(e),
            Ok(list) => Ok(document_of(retained(list, skip), rules)),
        },
    }
}

/// Parses every link line, aborting on the first failure: either all
/// lines become descriptors, in input order, or the first error is
/// returned and no descriptor list exists.
pub fn parse_servers(lines: &Vec<String>) -> (r: Result<Vec<Server>, ParseError>)
    ensures
        match r {
            Ok(ss) => parse_all(str_views(lines@)) == Ok::<Seq<ServerV>, ParseError>(views(ss@)),
            Err(e) => parse_all(str_views(lines@)) == Err::<Seq<ServerV>, ParseError>(e),
        },
{
    let ghost lv = str_views(lines@);
    let n = lines.len();
    let mut servers: Vec<Server> = Vec::new();
    proof {
        assert(lv.take(0) =~= Seq::<Seq<char>>::empty());
        assert(views(servers@) =~= Seq::<ServerV>::empty());
    }
    let mut i: usize = 0;
    while i < n
        invariant
            i <= n,
            n == lines@.len(),
            lv == str_views(lines@),
            lv.len() == n,
            parse_all(lv.take(i as int)) == Ok::<Seq<ServerV>, ParseError>(views(servers@)),
        decreases n - i,
    {
        let ghost old_views = views(servers@);
        proof {
            assert(lv.take(i + 1).drop_last() =~= lv.take(i as int));
            assert(lv.take(i + 1).last() == lv[i as int]);
            assert(lv[i as int] == lines@[i as int]@);
        }
        match parse_line(lines[i].as_str()) {
            Ok(s) => {
                servers.push(s);
                proof {
                    assert(views(servers@) =~= old_views.push(s@));
                }
            },
            Err(e) => {
                proof {
                    assert(parse_all(lv.take(i + 1)) == Err::<Seq<ServerV>, ParseError>(e));
                    lemma_parse_all_err(lv, i + 1);
                }
                return Err(e);
            },
        }
        i += 1;
    }
    proof {
        assert(lv.take(n as int) =~= lv);
    }
    Ok(servers)
}

/// One whole run: decode the envelope, parse every line, classify and
/// bucket the descriptors after the sampling offset, and emit the
/// document. Aborts on the first error with no partial document; the
/// document produced is pinned to `spec_run`, a function of the inputs.
pub fn run(payload: Vec<u8>, skip: usize, rules: &str) -> (r: Result<String, ParseError>)
    ensures
        match r {
            Ok(doc) => spec_run(payload@, skip as int, rules@) == Ok::<Seq<char>, ParseError>(
                doc@,
            ),
            Err(e) => spec_run(payload@, skip as int, rules@) == Err::<Seq<char>, ParseError>(e),
        },
{
    let ghost p = payload@;
    let lines = match decode_envelope(payload) {
        Ok(l) => l,
        Err(e) => {
            return Err(e);
        },
    };
    let servers = match parse_servers(&lines) {
        Ok(s) => s,
        Err(e) => {
            return Err(e);
        },
    };
    let g = aggregate(&servers, skip);
    let doc = emit_document(&servers, skip, &g, rules);
    Ok(doc)
}

} // verus!
