//! What the two pattern tries share: the split of a URI into its
//! dot-separated segments, the data they index, and their error type.
use vstd::prelude::*;

use crate::errors::Reason;
use crate::policies::MatchingPolicy;
use crate::ID;

verus! {

/// Data that a pattern trie holds: anything with an identifier.
pub trait PatternData: Sized {
    /// The identifier, for specification purposes.
    spec fn spec_id(&self) -> ID;

    /// The identifier of this datum.
    fn get_id(&self) -> (r: ID)
        ensures
            r == self.spec_id(),
    ;
}

impl PatternData for u64 {
    open spec fn spec_id(&self) -> ID {
        *self
    }

    fn get_id(&self) -> (r: ID)
        ensures
            r == self.spec_id(),
    {
        *self
    }
}

/// An error met while adding or removing patterns.
#[derive(Debug)]
pub struct PatternError {
    /// Why the operation failed.
    pub reason: Reason,
}

impl PatternError {
    /// Wraps a reason as a pattern error.
    pub fn new(reason: Reason) -> (e: PatternError)
        ensures
            e.reason == reason,
    {
        PatternError { reason }
    }

    /// The reason of the error.
    pub fn reason(self) -> (r: Reason)
        ensures
            r == self.reason,
    {
        self.reason
    }

}

/// Where the first dot stands in a URI text, or the text's length when it
/// has none.
pub open spec fn first_dot(s: Seq<char>) -> nat
    decreases s.len(),
{
    if s.len() == 0 {
        0
    } else if s[0] == '.' {
        0
    } else {
        1 + first_dot(s.skip(1))
    }
}

/// The first dot stands exactly at the first index holding a dot.
pub proof fn lemma_first_dot_at(s: Seq<char>, k: int)
    requires
        0 <= k < s.len(),
        s[k] == '.',
        forall|j: int| 0 <= j < k ==> s[j] != '.',
    ensures
        first_dot(s) == k,
    decreases k,
{
    if k == 0 {
    } else {
        assert(forall|j: int| 0 <= j < k - 1 ==> s.skip(1)[j] == s[j + 1]);
        assert(s.skip(1)[k - 1] == s[k]);
        lemma_first_dot_at(s.skip(1), k - 1);
    }
}

/// A text without a dot has its first dot at its length.
pub proof fn lemma_first_dot_none(s: Seq<char>)
    requires
        forall|j: int| 0 <= j < s.len() ==> s[j] != '.',
    ensures
        first_dot(s) == s.len(),
    decreases s.len(),
{
    if s.len() == 0 {
    } else {
        assert(forall|j: int| 0 <= j < s.skip(1).len() ==> s.skip(1)[j] == s[j + 1]);
        lemma_first_dot_none(s.skip(1));
    }
}

/// The segments of a URI text: the runs between its dots, kept in order;
/// a text without dots is one segment, and every text has at least one.
pub open spec fn uri_segments(s: Seq<char>) -> Seq<Seq<char>>
    decreases s.len(),
{
    let i = first_dot(s) as int;
    if i >= s.len() {
        seq![s]
    } else {
        seq![s.take(i)] + uri_segments(s.skip(i + 1))
    }
}

/// A URI always splits into at least one segment.
pub proof fn lemma_uri_segments_nonempty(s: Seq<char>)
    ensures
        uri_segments(s).len() >= 1,
    decreases s.len(),
{
    let i = first_dot(s) as int;
    if i < s.len() {
        lemma_uri_segments_nonempty(s.skip(i + 1));
    }
}

/// The view of a segment list: each segment as its character sequence.
pub open spec fn segments_view(v: Seq<Vec<char>>) -> Seq<Seq<char>> {
    Seq::new(v.len(), |i: int| v[i]@)
}

/// Splits a URI text into its dot-separated segments.
pub fn split_uri(uri: &str) -> (r: Vec<Vec<char>>)
    ensures
        segments_view(r@) == uri_segments(uri@),
{
    let ghost full = uri@;
    let len = uri.unicode_len();
    let mut out: Vec<Vec<char>> = Vec::new();
    let mut cur: Vec<char> = Vec::new();
    let mut i: usize = 0;
    let ghost mut seg_start: int = 0;
    proof {
        assert(full.skip(0) =~= full);
        assert(segments_view(out@) + uri_segments(full) =~= uri_segments(full));
    }
    while i < len
        invariant
            full == uri@,
            len == full.len(),
            0 <= seg_start <= i <= len,
            cur@ == full.subrange(seg_start, i as int),
            forall|j: int| seg_start <= j < i ==> full[j] != '.',
            uri_segments(full) == segments_view(out@) + uri_segments(full.skip(seg_start)),
        decreases len - i,
    {
        let c = uri.get_char(i);
        if c == '.' {
            proof {
                let rest = full.skip(seg_start);
                assert(forall|j: int| 0 <= j < rest.len() ==> rest[j] == full[j + seg_start]);
                lemma_first_dot_at(rest, i - seg_start);
                assert(rest.take(i - seg_start) =~= full.subrange(seg_start, i as int));
                assert(rest.skip(i - seg_start + 1) =~= full.skip(i + 1));
                assert(segments_view(out@.push(cur)) =~= segments_view(out@) + seq![cur@]);
                assert(segments_view(out@) + (seq![cur@] + uri_segments(full.skip(i + 1)))
                    =~= (segments_view(out@) + seq![cur@]) + uri_segments(full.skip(i + 1)));
            }
            out.push(cur);
            cur = Vec::new();
            proof {
                seg_start = i + 1;
            }
            assert(cur@ =~= full.subrange(seg_start, i + 1));
        } else {
            cur.push(c);
            proof {
                assert(cur@ =~= full.subrange(seg_start, i + 1));
            }
        }
        i = i + 1;
    }
    proof {
        let rest = full.skip(seg_start);
        assert(forall|j: int| 0 <= j < rest.len() ==> rest[j] == full[j + seg_start]);
        lemma_first_dot_none(rest);
        assert(rest =~= cur@);
        assert(uri_segments(rest) =~= seq![cur@]);
        assert(segments_view(out@.push(cur)) =~= segments_view(out@) + seq![cur@]);
    }
    out.push(cur);
    proof {
        assert(segments_view(out@) =~= uri_segments(full));
    }
    out
}

/// Whether a pattern's segments are legal under a matching policy: an empty
/// segment after the first stands for a wildcard, so it is only legal when
/// the policy is the wildcard policy.  The first segment is never checked,
/// as the trie consumes it before looking.
pub open spec fn valid_pattern(segs: Seq<Seq<char>>, policy: MatchingPolicy) -> bool {
    forall|i: int|
        1 <= i < segs.len() && segs[i].len() == 0 ==> policy == MatchingPolicy::Wildcard
}

/// Checks the segments after the first for illegal empty segments.
pub fn check_pattern(segs: &Vec<Vec<char>>, policy: MatchingPolicy) -> (r: bool)
    ensures
        r == valid_pattern(segments_view(segs@), policy),
{
    let ghost gv = segments_view(segs@);
    if policy == MatchingPolicy::Wildcard {
        return true;
    }
    let mut i: usize = 1;
    while i < segs.len()
        invariant
            policy != MatchingPolicy::Wildcard,
            1 <= i <= segs@.len() || segs@.len() == 0,
            gv == segments_view(segs@),
            forall|j: int| 1 <= j < i ==> gv[j].len() != 0,
        decreases segs@.len() - i,
    {
        if segs[i].len() == 0 {
            proof {
                assert(gv[i as int].len() == 0);
                assert(!valid_pattern(gv, policy));
            }
            return false;
        }
        i = i + 1;
    }
    true
}

/// Compares two segments character by character.
pub fn seg_eq(a: &Vec<char>, b: &Vec<char>) -> (r: bool)
    ensures
        r == (a@ == b@),
{
    if a.len() != b.len() {
        proof {
            assert(a@ != b@);
        }
        return false;
    }
    let mut i: usize = 0;
    while i < a.len()
        invariant
            a@.len() == b@.len(),
            0 <= i <= a@.len(),
            forall|j: int| 0 <= j < i ==> a@[j] == b@[j],
        decreases a@.len() - i,
    {
        if a[i] != b[i] {
            return false;
        }
        i = i + 1;
    }
    proof {
        assert(a@ =~= b@);
    }
    true
}

} // verus!
