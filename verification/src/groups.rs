use vstd::prelude::*;

use crate::classify::{classify, spec_classify, CountryTag};
use crate::server::{Server, ServerV};

verus! {

/// The images of a descriptor list.
pub open spec fn views(list: Seq<Server>) -> Seq<ServerV> {
    list.map_values(|s: Server| s@)
}

/// The images of a name list.
pub open spec fn str_views(list: Seq<String>) -> Seq<Seq<char>> {
    list.map_values(|s: String| s@)
}

/// The descriptors kept after the fixed sampling offset: everything from
/// position `skip` on, nothing when the list is shorter than the offset.
pub open spec fn retained(list: Seq<ServerV>, skip: int) -> Seq<ServerV> {
    if 0 <= skip <= list.len() {
        list.skip(skip)
    } else {
        Seq::empty()
    }
}

/// Membership of a descriptor in the bucket of tag `t`.
pub open spec fn has_tag(t: CountryTag) -> spec_fn(ServerV) -> bool {
    |s: ServerV| spec_classify(s.name()) == t
}

/// The display label of a descriptor.
pub open spec fn label_of() -> spec_fn(ServerV) -> Seq<char> {
    |s: ServerV| s.name()
}

/// The names of the descriptors of `list` classified to `t`, in the
/// relative order the list gives them.
pub open spec fn spec_bucket(list: Seq<ServerV>, t: CountryTag) -> Seq<Seq<char>> {
    list.filter(has_tag(t)).map_values(label_of())
}

/// The country-to-names table: one ordered bucket per tag of the closed
/// domain, each preserving the relative input order of its descriptors.
pub struct GroupTable {
    pub hong_kong: Vec<String>,
    pub us: Vec<String>,
    pub singapore: Vec<String>,
    pub taiwan: Vec<String>,
    pub japan: Vec<String>,
    pub others: Vec<String>,
}

impl GroupTable {
    /// The ordered name list held for tag `t`.
    pub open spec fn bucket(&self, t: CountryTag) -> Seq<Seq<char>> {
        str_views(
            match t {
                CountryTag::HongKong => self.hong_kong@,
                CountryTag::US => self.us@,
                CountryTag::Singapore => self.singapore@,
                CountryTag::Taiwan => self.taiwan@,
                CountryTag::Japan => self.japan@,
                CountryTag::Others => self.others@,
            },
        )
    }
}

/// Builds the group table of the descriptors after the sampling offset:
/// each retained descriptor's name is appended to the bucket of its
/// classified tag, so every bucket preserves the input order.
pub fn aggregate(servers: &Vec<Server>, skip: usize) -> (g: GroupTable)
    ensures
        forall|t: CountryTag| #[trigger] g.bucket(t) == spec_bucket(
            retained(views(servers@), skip as int),
            t,
        ),
{
    let mut g = GroupTable {
        hong_kong: Vec::new(),
        us: Vec::new(),
        singapore: Vec::new(),
        taiwan: Vec::new(),
        japan: Vec::new(),
        others: Vec::new(),
    };
    let n = servers.len();
    if skip >= n {
        proof {
            assert forall|t: CountryTag| #[trigger] g.bucket(t) == spec_bucket(
                retained(views(servers@), skip as int),
                t,
            ) by {
                reveal(Seq::filter);
                if skip < views(servers@).len() {
                    assert(views(servers@).skip(skip as int) =~= Seq::<ServerV>::empty());
                }
                assert(g.bucket(t) =~= Seq::<Seq<char>>::empty());
            }
        }
        return g;
    }
    let mut i: usize = skip;
    while i < n
        invariant
            skip <= i <= n,
            n == servers@.len(),
            forall|t: CountryTag| #[trigger] g.bucket(t) == spec_bucket(
                views(servers@).subrange(skip as int, i as int),
                t,
            ),
        decreases n - i,
    {
        let s = &servers[i];
        let name = s.name();
        let tag = classify(name.as_str());
        let ghost old_g = g;
        match tag {
            CountryTag::HongKong => g.hong_kong.push(name),
            CountryTag::US => g.us.push(name),
            CountryTag::Singapore => g.singapore.push(name),
            CountryTag::Taiwan => g.taiwan.push(name),
            CountryTag::Japan => g.japan.push(name),
            CountryTag::Others => g.others.push(name),
        }
        proof {
            let vs = views(servers@);
            let prefix = vs.subrange(skip as int, i as int);
            let x = vs[i as int];
            assert(vs.subrange(skip as int, i + 1) =~= prefix.push(x));
            assert forall|t: CountryTag| #[trigger] g.bucket(t) == spec_bucket(
                vs.subrange(skip as int, i + 1),
                t,
            ) by {
                prefix.lemma_filter_push(x, has_tag(t));
                if spec_classify(x.name()) == t {
                    prefix.filter(has_tag(t)).lemma_push_map_commute(label_of(), x);
                    assert(g.bucket(t) =~= old_g.bucket(t).push(x.name()));
                } else {
                    assert(g.bucket(t) =~= old_g.bucket(t));
                }
            }
        }
        i += 1;
    }
    proof {
        assert(views(servers@).subrange(skip as int, n as int) =~= retained(
            views(servers@),
            skip as int,
        ));
    }
    g
}

/// Order preservation: when every descriptor of a list falls in tag `t`,
/// the bucket of `t` is exactly the list's names in the list's order, and
/// every other bucket is empty.
pub proof fn lemma_aggregate_preserves_order(list: Seq<ServerV>, t: CountryTag)
    requires
        forall|i: int| 0 <= i < list.len() ==> spec_classify(#[trigger] list[i].name()) == t,
    ensures
        spec_bucket(list, t) == list.map_values(label_of()),
        forall|u: CountryTag| u != t ==> #[trigger] spec_bucket(list, u) == Seq::<Seq<char>>::empty(),
    decreases list.len(),
{
    reveal(Seq::filter);
    if list.len() == 0 {
        assert forall|u: CountryTag| u != t implies #[trigger] spec_bucket(list, u) == Seq::<
            Seq<char>,
        >::empty() by {
            assert(spec_bucket(list, u) =~= Seq::<Seq<char>>::empty());
        }
        assert(spec_bucket(list, t) =~= list.map_values(label_of()));
    } else {
        let front = list.drop_last();
        let x = list.last();
        assert(front.push(x) =~= list);
        assert(forall|i: int|
            0 <= i < front.len() ==> spec_classify(#[trigger] front[i].name()) == t);
        lemma_aggregate_preserves_order(front, t);
        front.lemma_filter_push(x, has_tag(t));
        assert(spec_classify(x.name()) == t);
        front.filter(has_tag(t)).lemma_push_map_commute(label_of(), x);
        front.lemma_push_map_commute(label_of(), x);
        assert(spec_bucket(list, t) =~= list.map_values(label_of()));
        assert forall|u: CountryTag| u != t implies #[trigger] spec_bucket(list, u) == Seq::<
            Seq<char>,
        >::empty() by {
            front.lemma_filter_push(x, has_tag(u));
            assert(spec_bucket(list, u) =~= spec_bucket(front, u));
        }
    }
}

} // verus!
