use vstd::prelude::*;
use vstd::string::*;
use vstd::utf8::*;

verus! {

/// What the oracle logs once it accepts HTTP requests.
pub const READY_MARKER: &'static str = "Listening and serving HTTP";

/// `needle` occurs in `hay` starting at byte `i`.
pub open spec fn occurs_at(hay: Seq<u8>, needle: Seq<u8>, i: int) -> bool {
    0 <= i && i + needle.len() <= hay.len() && hay.subrange(i, i + needle.len()) == needle
}

/// `needle` occurs somewhere in `hay`.
pub open spec fn contains_bytes(hay: Seq<u8>, needle: Seq<u8>) -> bool {
    exists|i: int| occurs_at(hay, needle, i)
}

/// A log line announces that the oracle serves HTTP: its UTF-8 bytes contain
/// those of [`READY_MARKER`].
pub open spec fn is_ready_text(line: Seq<char>) -> bool {
    contains_bytes(encode_utf8(line), encode_utf8(READY_MARKER@))
}

/// Whether `needle` occurs in `hay`, byte for byte.
pub fn bytes_contain(hay: &[u8], needle: &[u8]) -> (found: bool)
    ensures
        found == contains_bytes(hay@, needle@),
{
    let n: usize = hay.len();
    let m: usize = needle.len();
    if m > n {
        assert forall|i: int| !occurs_at(hay@, needle@, i) by {}
        return false;
    }
    let last: usize = n - m;
    let mut i: usize = 0;
    while i <= last
        invariant
            n == hay@.len(),
            m == needle@.len(),
            m <= n,
            last == n - m,
            i <= last + 1,
            forall|k: int| 0 <= k < i ==> !occurs_at(hay@, needle@, k),
        decreases last + 1 - i,
    {
        let mut j: usize = 0;
        let mut same: bool = true;
        while j < m
            invariant
                n == hay@.len(),
                m == needle@.len(),
                i + m <= n,
                j <= m,
                same == (forall|t: int| 0 <= t < j ==> hay@[i + t] == needle@[t]),
            decreases m - j,
        {
            if hay[i + j] != needle[j] {
                same = false;
            }
            j = j + 1;
        }
        if same {
            assert(hay@.subrange(i as int, i + m) =~= needle@);
            assert(occurs_at(hay@, needle@, i as int));
            return true;
        }
        assert(!occurs_at(hay@, needle@, i as int)) by {
            if occurs_at(hay@, needle@, i as int) {
                assert forall|t: int| 0 <= t < m implies hay@[i + t] == needle@[t] by {
                    assert(hay@.subrange(i as int, i + m)[t] == hay@[i + t]);
                }
            }
        }
        i = i + 1;
    }
    assert forall|k: int| !occurs_at(hay@, needle@, k) by {
        if 0 <= k < i {
        }
    }
    false
}

/// Whether a log line announces that the oracle serves HTTP.
pub fn is_ready_line(line: &str) -> (ready: bool)
    ensures
        ready == is_ready_text(line@),
        ready <==> exists|i: int|
            0 <= i && i + encode_utf8(READY_MARKER@).len() <= encode_utf8(line@).len()
                && #[trigger] encode_utf8(line@).subrange(
                i,
                i + encode_utf8(READY_MARKER@).len(),
            ) == encode_utf8(READY_MARKER@),
{
    proof {
        lemma_ready_exactly_with_marker(line@);
    }
    bytes_contain(line.as_bytes(), READY_MARKER.as_bytes())
}

/// A log line announces HTTP service exactly when the bytes of [`READY_MARKER`]
/// occur in its bytes at some position; a line without them is never ready.
pub proof fn lemma_ready_exactly_with_marker(line: Seq<char>)
    ensures
        is_ready_text(line) <==> exists|i: int|
            0 <= i && i + encode_utf8(READY_MARKER@).len() <= encode_utf8(line).len()
                && #[trigger] encode_utf8(line).subrange(
                i,
                i + encode_utf8(READY_MARKER@).len(),
            ) == encode_utf8(READY_MARKER@),
{
    let b = encode_utf8(line);
    let m = encode_utf8(READY_MARKER@);
    if is_ready_text(line) {
        let i = choose|i: int| occurs_at(b, m, i);
        assert(b.subrange(i, i + m.len()) == m);
    }
    if exists|i: int|
        0 <= i && i + m.len() <= b.len() && #[trigger] b.subrange(i, i + m.len()) == m {
        let i = choose|i: int|
            0 <= i && i + m.len() <= b.len() && #[trigger] b.subrange(i, i + m.len()) == m;
        assert(occurs_at(b, m, i));
    }
}

} // verus!
