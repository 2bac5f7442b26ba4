//! The sample search rule.
//!
//! The sample store is an external collaborator; what belongs to the
//! library is the matching rule itself: a sample matches a free-text query
//! exactly when its name or its uuid contains the query as a substring, and
//! a search returns the matching samples in storage order. `filter_matching`
//! is that rule at the specification level and `find_matching_samples` its
//! verified implementation over an in-memory sequence of store rows.

use vstd::prelude::*;

verus! {

/// One sample record of the store.
#[derive(Debug, Clone, PartialEq, Eq)]
pub struct MicroarraySample {
    pub id: u32,
    pub uuid: String,
    pub array: String,
    pub name: String,
}

/// True when `needle` matches `hay` exactly at offset `i`.
pub open spec fn spec_matches_at(hay: Seq<char>, needle: Seq<char>, i: int) -> bool {
    0 <= i && i + needle.len() <= hay.len() && hay.subrange(i, i + needle.len()) == needle
}

/// True when `needle` occurs contiguously somewhere in `hay`; the empty
/// needle occurs in every haystack.
pub open spec fn is_substring(hay: Seq<char>, needle: Seq<char>) -> bool {
    exists|i: int| spec_matches_at(hay, needle, i)
}

/// The empty needle occurs in every haystack, at offset zero.
pub proof fn lemma_empty_needle(hay: Seq<char>, needle: Seq<char>)
    requires
        needle.len() == 0,
    ensures
        is_substring(hay, needle),
{
    assert(hay.subrange(0, needle.len() as int) =~= needle);
    assert(spec_matches_at(hay, needle, 0));
}

/// True when the sample matches the query: its name or its uuid contains
/// the query as a substring.
pub open spec fn spec_sample_matches(s: MicroarraySample, q: Seq<char>) -> bool {
    is_substring(s.name@, q) || is_substring(s.uuid@, q)
}

/// The samples of `samples` that match `q`, in their original order.
pub open spec fn filter_matching(samples: Seq<MicroarraySample>, q: Seq<char>) -> Seq<
    MicroarraySample,
>
    decreases samples.len(),
{
    if samples.len() == 0 {
        Seq::empty()
    } else {
        let head = if spec_sample_matches(samples[0], q) {
            seq![samples[0]]
        } else {
            Seq::empty()
        };
        head + filter_matching(samples.drop_first(), q)
    }
}

/// The empty query matches every sample, so filtering on it returns the
/// store unchanged.
pub proof fn lemma_empty_query_matches_all(samples: Seq<MicroarraySample>)
    ensures
        filter_matching(samples, Seq::<char>::empty()) == samples,
    decreases samples.len(),
{
    if samples.len() == 0 {
        assert(filter_matching(samples, Seq::<char>::empty()) =~= samples);
    } else {
        lemma_empty_needle(samples[0].name@, Seq::<char>::empty());
        lemma_empty_query_matches_all(samples.drop_first());
        assert(filter_matching(samples, Seq::<char>::empty()) =~= samples);
    }
}

/// True when `needle` matches `hay` at offset `i`.
fn match_at(hay: &str, needle: &str, i: usize) -> (b: bool)
    requires
        i + needle@.len() <= hay@.len(),
    ensures
        b == (hay@.subrange(i as int, i as int + needle@.len() as int) == needle@),
{
    let hay_len = hay.unicode_len();
    let nn = needle.unicode_len();
    let mut j: usize = 0;
    while j < nn
        invariant
            j <= nn,
            hay_len == hay@.len(),
            nn == needle@.len(),
            i + nn <= hay@.len(),
            forall|t: int| 0 <= t < j ==> hay@[i + t] == needle@[t],
        decreases nn - j,
    {
        if hay.get_char(i + j) != needle.get_char(j) {
            proof {
                let sub = hay@.subrange(i as int, i as int + nn as int);
                assert(sub[j as int] == hay@[i + j]);
                assert(sub != needle@);
            }
            return false;
        }
        j = j + 1;
    }
    proof {
        assert(hay@.subrange(i as int, i as int + nn as int) =~= needle@);
    }
    true
}

/// True when `hay` contains `needle` as a substring.
pub fn contains_str(hay: &str, needle: &str) -> (b: bool)
    ensures
        b == is_substring(hay@, needle@),
{
    let hn = hay.unicode_len();
    let nn = needle.unicode_len();
    if nn > hn {
        return false;
    }
    if nn == 0 {
        proof {
            lemma_empty_needle(hay@, needle@);
        }
        return true;
    }
    let mut i: usize = 0;
    while i <= hn - nn
        invariant
            1 <= nn <= hn,
            hn == hay@.len(),
            nn == needle@.len(),
            i <= hn - nn + 1,
            forall|k: int| 0 <= k < i ==> !spec_matches_at(hay@, needle@, k),
        decreases hn - nn + 1 - i,
    {
        if match_at(hay, needle, i) {
            proof {
                assert(spec_matches_at(hay@, needle@, i as int));
            }
            return true;
        }
        i = i + 1;
    }
    false
}

/// True when the sample matches the query text.
pub fn sample_matches(s: &MicroarraySample, query: &str) -> (b: bool)
    ensures
        b == spec_sample_matches(*s, query@),
{
    contains_str(s.name.as_str(), query) || contains_str(s.uuid.as_str(), query)
}

/// Returns the samples that match the query, in the order given.
#[verifier::loop_isolation(false)]
pub fn find_matching_samples(samples: Vec<MicroarraySample>, search: &str) -> (r: Vec<
    MicroarraySample,
>)
    ensures
        r@ == filter_matching(samples@, search@),
{
    let ghost orig = samples@;
    let ghost q = search@;
    let mut pending = samples;
    let mut out: Vec<MicroarraySample> = Vec::new();
    let mut k: usize = 0;
    let n = pending.len();
    proof {
        assert(pending@ =~= orig.skip(0));
        assert(out@ + filter_matching(orig.skip(0), q) =~= filter_matching(orig, q));
    }
    while pending.len() > 0
        invariant
            k <= n,
            n == orig.len(),
            k + pending@.len() == orig.len(),
            pending@ == orig.skip(k as int),
            filter_matching(orig, q) == out@ + filter_matching(orig.skip(k as int), q),
        decreases pending@.len(),
    {
        let sr = pending.remove(0);
        proof {
            assert(sr == orig[k as int]);
            assert(pending@ =~= orig.skip(k as int + 1));
            assert(orig.skip(k as int).drop_first() =~= orig.skip(k as int + 1));
        }
        let ghost out0 = out@;
        if sample_matches(&sr, search) {
            out.push(sr);
            proof {
                assert(out@ =~= out0.push(orig[k as int]));
                assert(out0 + (seq![orig[k as int]] + filter_matching(orig.skip(k as int + 1), q))
                    =~= out@ + filter_matching(orig.skip(k as int + 1), q));
            }
        } else {
            proof {
                assert(out0 + (Seq::<MicroarraySample>::empty() + filter_matching(
                    orig.skip(k as int + 1),
                    q,
                )) =~= out@ + filter_matching(orig.skip(k as int + 1), q));
            }
        }
        k = k + 1;
    }
    proof {
        assert(orig.skip(k as int) =~= Seq::<MicroarraySample>::empty());
        assert(out@ + filter_matching(orig.skip(k as int), q) =~= out@);
    }
    out
}

} // verus!
