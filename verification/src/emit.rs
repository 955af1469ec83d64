use vstd::prelude::*;

use crate::classify::CountryTag;
use crate::groups::{retained, spec_bucket, str_views, views, GroupTable};
use crate::server::{Server, ServerV, ShadowSocks, ShadowSocksV, Vmess, VmessV};

verus! {

/// The character of a single decimal digit.
pub open spec fn digit_char(d: nat) -> char {
    if d == 0 {
        '0'
    } else if d == 1 {
        '1'
    } else if d == 2 {
        '2'
    } else if d == 3 {
        '3'
    } else if d == 4 {
        '4'
    } else if d == 5 {
        '5'
    } else if d == 6 {
        '6'
    } else if d == 7 {
        '7'
    } else if d == 8 {
        '8'
    } else {
        '9'
    }
}

/// The base-ten rendering of a number, most significant digit first.
pub open spec fn spec_dec(n: nat) -> Seq<char>
    decreases n,
{
    if n < 10 {
        seq![digit_char(n)]
    } else {
        spec_dec(n / 10).push(digit_char(n % 10))
    }
}

/// The rendering of a boolean.
pub open spec fn spec_bool(b: bool) -> Seq<char> {
    if b {
        "true"@
    } else {
        "false"@
    }
}

fn digit_str(d: u16) -> (r: &'static str)
    requires
        d < 10,
    ensures
        r@ == seq![digit_char(d as nat)],
{
    proof {
        reveal_strlit("0");
        reveal_strlit("1");
        reveal_strlit("2");
        reveal_strlit("3");
        reveal_strlit("4");
        reveal_strlit("5");
        reveal_strlit("6");
        reveal_strlit("7");
        reveal_strlit("8");
        reveal_strlit("9");
    }
    let r = match d {
        0 => "0",
        1 => "1",
        2 => "2",
        3 => "3",
        4 => "4",
        5 => "5",
        6 => "6",
        7 => "7",
        8 => "8",
        _ => "9",
    };
    proof {
        assert(r@ =~= seq![digit_char(d as nat)]);
    }
    r
}

/// Renders a number in base ten.
pub fn u16_to_string(n: u16) -> (s: String)
    ensures
        s@ == spec_dec(n as nat),
    decreases n,
{
    if n < 10 {
        digit_str(n).to_owned()
    } else {
        let mut s = u16_to_string(n / 10);
        s.append(digit_str(n % 10));
        proof {
            assert(s@ =~= spec_dec(n as nat));
        }
        s
    }
}

fn bool_str(b: bool) -> (r: &'static str)
    ensures
        r@ == spec_bool(b),
{
    if b {
        "true"
    } else {
        "false"
    }
}

/// The rendered proxy entry of a shadowsocks descriptor: every field in
/// the fixed order name, type, server, port, cipher, password, udp.
pub open spec fn ss_entry(s: ShadowSocksV) -> Seq<char> {
    "{ name: '"@ + s.name + "', type: ss, server: "@ + s.host + ", port: "@ + spec_dec(
        s.port as nat,
    ) + ", cipher: "@ + s.cipher + ", password: "@ + s.password + ", udp: "@ + spec_bool(s.udp)
        + " }"@
}

/// The rendered proxy entry of a vmess descriptor: every field in the
/// fixed order name, type, server, port, uuid, alterId, with the fixed
/// cipher and udp tail.
pub open spec fn vmess_entry(v: VmessV) -> Seq<char> {
    "{ name: '"@ + v.name + "', type: vmess, server: "@ + v.host + ", port: "@ + spec_dec(
        v.port as nat,
    ) + ", uuid: "@ + v.uuid + ", alterId: "@ + v.alter_id + ", cipher: auto, udp: true }"@
}

/// The rendered proxy entry of a descriptor.
pub open spec fn entry_of(s: ServerV) -> Seq<char> {
    match s {
        ServerV::SS(ss) => ss_entry(ss),
        ServerV::Vmess(v) => vmess_entry(v),
    }
}

impl ShadowSocks {
    /// Renders this endpoint as one proxy-entry mapping.
    pub fn config_entry(&self) -> (out: String)
        ensures
            out@ == ss_entry(self@),
    {
        let port = u16_to_string(self.port);
        let mut out = "{ name: '".to_owned();
        out.append(self.name.as_str());
        out.append("', type: ss, server: ");
        out.append(self.host.as_str());
        out.append(", port: ");
        out.append(port.as_str());
        out.append(", cipher: ");
        out.append(self.cipher.as_str());
        out.append(", password: ");
        out.append(self.password.as_str());
        out.append(", udp: ");
        out.append(bool_str(self.udp));
        out.append(" }");
        out
    }
}

impl Vmess {
    /// Renders this endpoint as one proxy-entry mapping.
    pub fn config_entry(&self) -> (out: String)
        ensures
            out@ == vmess_entry(self@),
    {
        let port = u16_to_string(self.port);
        let mut out = "{ name: '".to_owned();
        out.append(self.name.as_str());
        out.append("', type: vmess, server: ");
        out.append(self.host.as_str());
        out.append(", port: ");
        out.append(port.as_str());
        out.append(", uuid: ");
        out.append(self.uuid.as_str());
        out.append(", alterId: ");
        out.append(self.alter_id.as_str());
        out.append(", cipher: auto, udp: true }");
        out
    }
}

impl Server {
    /// Renders this endpoint as one proxy-entry mapping.
    pub fn config_entry(&self) -> (out: String)
        ensures
            out@ == entry_of(self@),
    {
        match self {
            Server::SS(s) => s.config_entry(),
            Server::Vmess(v) => v.config_entry(),
        }
    }
}

/// The separator that precedes the member at index `k` of a joined list.
pub open spec fn comma(k: int) -> Seq<char> {
    if k == 0 {
        Seq::empty()
    } else {
        ", "@
    }
}

/// Names quoted with `'` and joined by `, `, in list order.
pub open spec fn quoted_join(ns: Seq<Seq<char>>) -> Seq<char>
    decreases ns.len(),
{
    if ns.len() == 0 {
        Seq::empty()
    } else {
        quoted_join(ns.drop_last()) + comma(ns.len() - 1) + "'"@ + ns.last() + "'"@
    }
}

/// One selector-group line: the label, the fixed select type, and the
/// bucket's names quoted and joined in their preserved order.
pub open spec fn group_line(label: Seq<char>, ns: Seq<Seq<char>>) -> Seq<char> {
    "    - { name: '"@ + label + "', type: select, proxies: ["@ + quoted_join(ns) + "] }\n"@
}

/// Joins a bucket's names, each quoted, with `, `.
fn join_quoted(names: &Vec<String>) -> (out: String)
    ensures
        out@ == quoted_join(str_views(names@)),
{
    let ghost ns = str_views(names@);
    let mut out = String::new();
    let n = names.len();
    let mut i: usize = 0;
    proof {
        assert(ns.take(0) =~= Seq::<Seq<char>>::empty());
    }
    while i < n
        invariant
            i <= n,
            n == names@.len(),
            ns == str_views(names@),
            ns.len() == n,
            out@ == quoted_join(ns.take(i as int)),
        decreases n - i,
    {
        if i > 0 {
            out.append(", ");
        }
        out.append("'");
        out.append(names[i].as_str());
        out.append("'");
        proof {
            assert(ns.take(i + 1).drop_last() =~= ns.take(i as int));
            assert(ns.take(i + 1).last() == ns[i as int]);
            assert(ns[i as int] == names@[i as int]@);
            assert(out@ =~= quoted_join(ns.take(i + 1)));
        }
        i += 1;
    }
    proof {
        assert(ns.take(n as int) =~= ns);
    }
    out
}

/// Renders one selector-group line.
fn group_line_str(label: &str, names: &Vec<String>) -> (out: String)
    ensures
        out@ == group_line(label@, str_views(names@)),
{
    let joined = join_quoted(names);
    let mut out = "    - { name: '".to_owned();
    out.append(label);
    out.append("', type: select, proxies: [");
    out.append(joined.as_str());
    out.append("] }\n");
    out
}

/// The proxy-entry lines of a descriptor list, one per descriptor, in
/// input order.
pub open spec fn entry_lines(list: Seq<ServerV>) -> Seq<char>
    decreases list.len(),
{
    if list.len() == 0 {
        Seq::empty()
    } else {
        entry_lines(list.drop_last()) + "    - "@ + entry_of(list.last()) + "\n"@
    }
}

/// The proxies section: its header and one entry line per descriptor.
pub open spec fn proxies_section(list: Seq<ServerV>) -> Seq<char> {
    "\nproxies:\n"@ + entry_lines(list)
}

/// A selector group for a bucket: present only when the bucket is
/// populated.
pub open spec fn maybe_group(label: Seq<char>, ns: Seq<Seq<char>>) -> Seq<char> {
    if ns.len() == 0 {
        Seq::empty()
    } else {
        group_line(label, ns)
    }
}

/// The proxy-groups section: its header, the two fixed leading groups,
/// one group per populated bucket in the canonical tag order with
/// `others` last, then the three fixed trailing groups.
pub open spec fn groups_section(
    hk: Seq<Seq<char>>,
    us: Seq<Seq<char>>,
    sg: Seq<Seq<char>>,
    tw: Seq<Seq<char>>,
    jp: Seq<Seq<char>>,
    ot: Seq<Seq<char>>,
) -> Seq<char> {
    "\nproxy-groups:\n"@ + "    - { name: 'Direct', type: select, proxies: [DIRECT] }\n"@
        + "    - { name: 'Reject', type: select, proxies: [REJECT,DIRECT] }\n"@ + maybe_group(
        "HongKong"@,
        hk,
    ) + maybe_group("US"@, us) + maybe_group("Singapore"@, sg) + maybe_group("Taiwan"@, tw)
        + maybe_group("Japan"@, jp) + maybe_group("others"@, ot)
        + "    - { name: 'Unmatched', type: select, proxies: ['HongKong'] }\n"@
        + "    - { name: 'Choice', type: select, proxies: ['HongKong'] }\n"@
        + "    - { name: 'telegram', type: select, proxies: ['US'] }\n"@
}

/// The groups section as a function of the descriptor list alone.
pub open spec fn groups_section_of(list: Seq<ServerV>) -> Seq<char> {
    groups_section(
        spec_bucket(list, CountryTag::HongKong),
        spec_bucket(list, CountryTag::US),
        spec_bucket(list, CountryTag::Singapore),
        spec_bucket(list, CountryTag::Taiwan),
        spec_bucket(list, CountryTag::Japan),
        spec_bucket(list, CountryTag::Others),
    )
}

/// The whole emitted document: the proxies section over the retained
/// descriptors, the groups section, and the rule block passed through
/// verbatim. Emission is deterministic: this is a function of its inputs.
pub open spec fn document_of(list: Seq<ServerV>, rules: Seq<char>) -> Seq<char> {
    proxies_section(list) + groups_section_of(list) + "\nrules:\n"@ + rules
}

/// Emission is deterministic: the document is a function of the
/// descriptor list and the rule block alone, so two runs over the same
/// inputs produce character-identical output.
pub proof fn lemma_emit_deterministic(
    a: Seq<ServerV>,
    b: Seq<ServerV>,
    ra: Seq<char>,
    rb: Seq<char>,
)
    requires
        a == b,
        ra == rb,
    ensures
        document_of(a, ra) == document_of(b, rb),
{
}

/// Boundary behaviour: when no descriptor survives the sampling offset,
/// the document still carries the proxies header, the two fixed leading
/// selector groups, the three fixed trailing ones and the rule block, and
/// nothing else: no entry lines and no dynamic groups.
pub proof fn lemma_short_input_fixed_document(list: Seq<ServerV>, skip: int, rules: Seq<char>)
    requires
        0 <= skip,
        list.len() <= skip,
    ensures
        retained(list, skip).len() == 0,
        document_of(retained(list, skip), rules) == "\nproxies:\n"@ + "\nproxy-groups:\n"@
            + "    - { name: 'Direct', type: select, proxies: [DIRECT] }\n"@
            + "    - { name: 'Reject', type: select, proxies: [REJECT,DIRECT] }\n"@
            + "    - { name: 'Unmatched', type: select, proxies: ['HongKong'] }\n"@
            + "    - { name: 'Choice', type: select, proxies: ['HongKong'] }\n"@
            + "    - { name: 'telegram', type: select, proxies: ['US'] }\n"@ + "\nrules:\n"@
            + rules,
{
    reveal(Seq::filter);
    let r = retained(list, skip);
    if skip <= list.len() {
        assert(list.skip(skip) =~= Seq::<ServerV>::empty());
    }
    assert(r.len() == 0);
    assert(r =~= Seq::<ServerV>::empty());
    assert(entry_lines(r) =~= Seq::<char>::empty());
    assert forall|t: CountryTag| #[trigger] spec_bucket(r, t) == Seq::<Seq<char>>::empty() by {
        assert(r.filter(crate::groups::has_tag(t)) =~= Seq::<ServerV>::empty());
        assert(spec_bucket(r, t) =~= Seq::<Seq<char>>::empty());
    }
    assert(document_of(r, rules) =~= "\nproxies:\n"@ + "\nproxy-groups:\n"@
        + "    - { name: 'Direct', type: select, proxies: [DIRECT] }\n"@
        + "    - { name: 'Reject', type: select, proxies: [REJECT,DIRECT] }\n"@
        + "    - { name: 'Unmatched', type: select, proxies: ['HongKong'] }\n"@
        + "    - { name: 'Choice', type: select, proxies: ['HongKong'] }\n"@
        + "    - { name: 'telegram', type: select, proxies: ['US'] }\n"@ + "\nrules:\n"@ + rules);
}

/// Renders the proxies section for the descriptors from `skip` on.
fn render_proxies(servers: &Vec<Server>, skip: usize) -> (out: String)
    ensures
        out@ == proxies_section(retained(views(servers@), skip as int)),
{
    let ghost vs = views(servers@);
    let mut out = "\nproxies:\n".to_owned();
    let n = servers.len();
    if skip >= n {
        proof {
            if skip < vs.len() {
                assert(vs.skip(skip as int) =~= Seq::<ServerV>::empty());
            }
            assert(out@ =~= proxies_section(retained(vs, skip as int)));
        }
        return out;
    }
    let mut i: usize = skip;
    proof {
        assert(vs.subrange(skip as int, skip as int) =~= Seq::<ServerV>::empty());
        assert(out@ =~= "\nproxies:\n"@ + entry_lines(vs.subrange(skip as int, skip as int)));
    }
    while i < n
        invariant
            skip <= i <= n,
            n == servers@.len(),
            vs == views(servers@),
            vs.len() == n,
            out@ == "\nproxies:\n"@ + entry_lines(vs.subrange(skip as int, i as int)),
        decreases n - i,
    {
        let entry = servers[i].config_entry();
        out.append("    - ");
        out.append(entry.as_str());
        out.append("\n");
        proof {
            let prefix = vs.subrange(skip as int, i as int);
            assert(vs.subrange(skip as int, i + 1).drop_last() =~= prefix);
            assert(vs.subrange(skip as int, i + 1).last() == vs[i as int]);
            assert(vs[i as int] == servers@[i as int]@);
            assert(out@ =~= "\nproxies:\n"@ + entry_lines(vs.subrange(skip as int, i + 1)));
        }
        i += 1;
    }
    proof {
        assert(vs.subrange(skip as int, n as int) =~= retained(vs, skip as int));
    }
    out
}

/// Renders the proxy-groups section of a group table. The six buckets are
/// visited in the canonical fixed order, never by map traversal, so the
/// output is the same on every run over the same table.
fn render_groups(g: &GroupTable) -> (out: String)
    ensures
        out@ == groups_section(
            g.bucket(CountryTag::HongKong),
            g.bucket(CountryTag::US),
            g.bucket(CountryTag::Singapore),
            g.bucket(CountryTag::Taiwan),
            g.bucket(CountryTag::Japan),
            g.bucket(CountryTag::Others),
        ),
{
    let mut out = "\nproxy-groups:\n".to_owned();
    out.append("    - { name: 'Direct', type: select, proxies: [DIRECT] }\n");
    out.append("    - { name: 'Reject', type: select, proxies: [REJECT,DIRECT] }\n");
    let ghost base0 = out@;
    if g.hong_kong.len() > 0 {
        let line = group_line_str("HongKong", &g.hong_kong);
        out.append(line.as_str());
    }
    proof {
        assert(out@ =~= base0 + maybe_group("HongKong"@, g.bucket(CountryTag::HongKong)));
    }
    let ghost base1 = base0 + maybe_group("HongKong"@, g.bucket(CountryTag::HongKong));
    if g.us.len() > 0 {
        let line = group_line_str("US", &g.us);
        out.append(line.as_str());
    }
    proof {
        assert(out@ =~= base1 + maybe_group("US"@, g.bucket(CountryTag::US)));
    }
    let ghost base2 = base1 + maybe_group("US"@, g.bucket(CountryTag::US));
    if g.singapore.len() > 0 {
        let line = group_line_str("Singapore", &g.singapore);
        out.append(line.as_str());
    }
    proof {
        assert(out@ =~= base2 + maybe_group("Singapore"@, g.bucket(CountryTag::Singapore)));
    }
    let ghost base3 = base2 + maybe_group("Singapore"@, g.bucket(CountryTag::Singapore));
    if g.taiwan.len() > 0 {
        let line = group_line_str("Taiwan", &g.taiwan);
        out.append(line.as_str());
    }
    proof {
        assert(out@ =~= base3 + maybe_group("Taiwan"@, g.bucket(CountryTag::Taiwan)));
    }
    let ghost base4 = base3 + maybe_group("Taiwan"@, g.bucket(CountryTag::Taiwan));
    if g.japan.len() > 0 {
        let line = group_line_str("Japan", &g.japan);
        out.append(line.as_str());
    }
    proof {
        assert(out@ =~= base4 + maybe_group("Japan"@, g.bucket(CountryTag::Japan)));
    }
    let ghost base5 = base4 + maybe_group("Japan"@, g.bucket(CountryTag::Japan));
    if g.others.len() > 0 {
        let line = group_line_str("others", &g.others);
        out.append(line.as_str());
    }
    proof {
        assert(out@ =~= base5 + maybe_group("others"@, g.bucket(CountryTag::Others)));
    }
    out.append("    - { name: 'Unmatched', type: select, proxies: ['HongKong'] }\n");
    out.append("    - { name: 'Choice', type: select, proxies: ['HongKong'] }\n");
    out.append("    - { name: 'telegram', type: select, proxies: ['US'] }\n");
    proof {
        assert(out@ =~= groups_section(
            g.bucket(CountryTag::HongKong),
            g.bucket(CountryTag::US),
            g.bucket(CountryTag::Singapore),
            g.bucket(CountryTag::Taiwan),
            g.bucket(CountryTag::Japan),
            g.bucket(CountryTag::Others),
        ));
    }
    out
}

/// Serializes the three document sections: a proxy entry per retained
/// descriptor in input order, the selector groups, and the rule block
/// verbatim. The output is pinned to a function of the inputs, so two
/// runs over the same inputs emit identical text.
pub fn emit_document(servers: &Vec<Server>, skip: usize, g: &GroupTable, rules: &str) -> (out:
    String)
    ensures
        out@ == proxies_section(retained(views(servers@), skip as int)) + groups_section(
            g.bucket(CountryTag::HongKong),
            g.bucket(CountryTag::US),
            g.bucket(CountryTag::Singapore),
            g.bucket(CountryTag::Taiwan),
            g.bucket(CountryTag::Japan),
            g.bucket(CountryTag::Others),
        ) + "\nrules:\n"@ + rules@,
{
    let mut out = render_proxies(servers, skip);
    let gs = render_groups(g);
    out.append(gs.as_str());
    out.append("\nrules:\n");
    out.append(rules);
    out
}

} // verus!
