use vstd::prelude::*;

verus! {

/// The closed set of geography buckets. A descriptor name maps to exactly
/// one of these; `Others` catches every name without a known token.
#[derive(Clone, Copy, Debug, PartialEq, Eq, Structural)]
pub enum CountryTag {
    HongKong,
    US,
    Singapore,
    Taiwan,
    Japan,
    Others,
}

/// Token `tok` occurs in `name` starting at position `i`.
pub open spec fn matches_at(name: Seq<char>, tok: Seq<char>, i: int) -> bool {
    0 <= i && i + tok.len() <= name.len() && name.subrange(i, i + tok.len()) == tok
}

/// The tag whose token occurs at position `i`, if any. When several tokens
/// occur at the same position the global precedence order decides:
/// HongKong, US, Singapore, Taiwan, Japan.
pub open spec fn tag_at(name: Seq<char>, i: int) -> Option<CountryTag> {
    if matches_at(name, "香港"@, i) {
        Some(CountryTag::HongKong)
    } else if matches_at(name, "美国"@, i) {
        Some(CountryTag::US)
    } else if matches_at(name, "新加坡"@, i) {
        Some(CountryTag::Singapore)
    } else if matches_at(name, "台湾"@, i) {
        Some(CountryTag::Taiwan)
    } else if matches_at(name, "日本"@, i) {
        Some(CountryTag::Japan)
    } else {
        None
    }
}

/// The tag of the first position at or after `i` where a token occurs,
/// `Others` when none does.
pub open spec fn classify_from(name: Seq<char>, i: int) -> CountryTag
    decreases name.len() - i,
{
    if i < 0 || i >= name.len() {
        CountryTag::Others
    } else {
        match tag_at(name, i) {
            Some(t) => t,
            None => classify_from(name, i + 1),
        }
    }
}

/// The bucket of a descriptor name: the leftmost occurrence of any of the
/// five country tokens decides; `Others` when no token occurs.
pub open spec fn spec_classify(name: Seq<char>) -> CountryTag {
    classify_from(name, 0)
}

proof fn lemma_classify_skip(name: Seq<char>, i: int)
    requires
        0 <= i <= name.len(),
        forall|j: int| 0 <= j < i ==> tag_at(name, j) is None,
    ensures
        classify_from(name, 0) == classify_from(name, i),
    decreases i,
{
    if i > 0 {
        lemma_classify_skip(name, i - 1);
        assert(classify_from(name, i - 1) == classify_from(name, i));
    }
}

/// Token `tok` (of length `m`) occurs in `name` (of length `n`) at `i`.
pub(crate) fn occurs_at(name: &str, n: usize, i: usize, tok: &str, m: usize) -> (b: bool)
    requires
        n == name@.len(),
        m == tok@.len(),
        i < n,
        m >= 1,
    ensures
        b == matches_at(name@, tok@, i as int),
{
    if m > n - i {
        return false;
    }
    let mut k: usize = 0;
    while k < m
        invariant
            k <= m,
            m <= n - i,
            i < n,
            n == name@.len(),
            m == tok@.len(),
            forall|j: int| 0 <= j < k ==> name@[i + j] == tok@[j],
        decreases m - k,
    {
        if name.get_char(i + k) != tok.get_char(k) {
            assert(name@[i + k] != tok@[k as int]);
            assert(!matches_at(name@, tok@, i as int)) by {
                if name@.subrange(i as int, i + m) == tok@ {
                    assert(name@.subrange(i as int, i + m)[k as int] == tok@[k as int]);
                }
            }
            return false;
        }
        k += 1;
    }
    assert(name@.subrange(i as int, i + m) =~= tok@);
    true
}

/// Assigns a descriptor name its geography bucket: the leftmost occurrence
/// of any country token wins; at equal positions the precedence order is
/// HongKong, US, Singapore, Taiwan, Japan. Total and deterministic: the
/// result is pinned to `spec_classify`, a function of the name alone.
pub fn classify(name: &str) -> (t: CountryTag)
    ensures
        t == spec_classify(name@),
{
    let n = name.unicode_len();
    let tok_hk = "香港";
    let tok_us = "美国";
    let tok_sg = "新加坡";
    let tok_tw = "台湾";
    let tok_jp = "日本";
    let m_hk = tok_hk.unicode_len();
    let m_us = tok_us.unicode_len();
    let m_sg = tok_sg.unicode_len();
    let m_tw = tok_tw.unicode_len();
    let m_jp = tok_jp.unicode_len();
    proof {
        reveal_strlit("香港");
        reveal_strlit("美国");
        reveal_strlit("新加坡");
        reveal_strlit("台湾");
        reveal_strlit("日本");
    }
    let mut i: usize = 0;
    while i < n
        invariant
            i <= n,
            n == name@.len(),
            tok_hk@ == "香港"@ && m_hk == tok_hk@.len() && m_hk >= 1,
            tok_us@ == "美国"@ && m_us == tok_us@.len() && m_us >= 1,
            tok_sg@ == "新加坡"@ && m_sg == tok_sg@.len() && m_sg >= 1,
            tok_tw@ == "台湾"@ && m_tw == tok_tw@.len() && m_tw >= 1,
            tok_jp@ == "日本"@ && m_jp == tok_jp@.len() && m_jp >= 1,
            forall|j: int| 0 <= j < i ==> tag_at(name@, j) is None,
        decreases n - i,
    {
        if occurs_at(name, n, i, tok_hk, m_hk) {
            proof {
                lemma_classify_skip(name@, i as int);
            }
            return CountryTag::HongKong;
        }
        if occurs_at(name, n, i, tok_us, m_us) {
            proof {
                lemma_classify_skip(name@, i as int);
            }
            return CountryTag::US;
        }
        if occurs_at(name, n, i, tok_sg, m_sg) {
            proof {
                lemma_classify_skip(name@, i as int);
            }
            return CountryTag::Singapore;
        }
        if occurs_at(name, n, i, tok_tw, m_tw) {
            proof {
                lemma_classify_skip(name@, i as int);
            }
            return CountryTag::Taiwan;
        }
        if occurs_at(name, n, i, tok_jp, m_jp) {
            proof {
                lemma_classify_skip(name@, i as int);
            }
            return CountryTag::Japan;
        }
        i += 1;
    }
    proof {
        lemma_classify_skip(name@, n as int);
    }
    CountryTag::Others
}

/// The classifier is total over the closed six-tag domain and deterministic:
/// two names with the same characters always fall in the same bucket, and
/// the bucket is always one of the six tags.
pub proof fn lemma_classifier_total(a: Seq<char>, b: Seq<char>)
    requires
        a == b,
    ensures
        spec_classify(a) == spec_classify(b),
        spec_classify(a) is HongKong || spec_classify(a) is US || spec_classify(a) is Singapore
            || spec_classify(a) is Taiwan || spec_classify(a) is Japan || spec_classify(
            a,
        ) is Others,
{
}

} // verus!
