//! The shape of a bearer token: `Bearer `, then three segments parted by
//! dots, of which the middle one is the base64url payload.

use vstd::prelude::*;
use vstd::string::StringSliceAdditionalSpecFns;

verus! {

/// The byte `.`, which parts the segments of a token.
pub const DOT: u8 = 46;

/// The byte `=`, which fills a payload up to a multiple of four.
pub const PAD: u8 = 61;

/// The bytes of `Bearer `, which an authorization header starts with.
pub open spec fn bearer_prefix() -> Seq<u8> {
    seq![66u8, 101u8, 97u8, 114u8, 101u8, 114u8, 32u8]
}

/// What follows `Bearer ` in a header, if the header starts with it.
pub open spec fn strip_bearer(header: Seq<u8>) -> Option<Seq<u8>> {
    if bearer_prefix().is_prefix_of(header) {
        Some(header.subrange(7, header.len() as int))
    } else {
        None
    }
}

/// The segments of a text between its dots, in order. A text with `n` dots
/// has `n + 1` segments, some of which may be empty.
pub open spec fn split_dots(text: Seq<u8>) -> Seq<Seq<u8>>
    decreases text.len(),
{
    if text.len() == 0 {
        seq![Seq::<u8>::empty()]
    } else {
        let before = split_dots(text.drop_last());
        if text.last() == DOT {
            before.push(Seq::<u8>::empty())
        } else {
            before.drop_last().push(before.last().push(text.last()))
        }
    }
}

/// Whether a text holds no dot.
pub open spec fn dot_free(text: Seq<u8>) -> bool {
    forall|i: int| 0 <= i < text.len() ==> text[i] != DOT
}

/// How many `=` a payload of the given length needs.
pub open spec fn pad_len(len: nat) -> nat {
    if len % 4 == 0 {
        0
    } else {
        (4 - len % 4) as nat
    }
}

/// A payload filled up with `=` to a length that four divides.
pub open spec fn padded(payload: Seq<u8>) -> Seq<u8> {
    payload + Seq::new(pad_len(payload.len()), |i: int| PAD)
}

/// The padded payload of the token in a header: the header starts with
/// `Bearer `, and the rest has exactly three segments.
pub open spec fn token_payload(header: Seq<u8>) -> Option<Seq<u8>> {
    match strip_bearer(header) {
        None => None,
        Some(token) => if split_dots(token).len() == 3 {
            Some(padded(split_dots(token)[1]))
        } else {
            None
        },
    }
}

/// The middle segment of the token in a header, unpadded; empty where the
/// header holds no token of three segments.
pub open spec fn payload_segment(header: Seq<u8>) -> Seq<u8> {
    match strip_bearer(header) {
        None => Seq::<u8>::empty(),
        Some(token) => if split_dots(token).len() == 3 {
            split_dots(token)[1]
        } else {
            Seq::<u8>::empty()
        },
    }
}

/// The views of the segments collected so far.
pub open spec fn segment_views(segments: Seq<Vec<u8>>) -> Seq<Seq<u8>> {
    segments.map_values(|v: Vec<u8>| v@)
}

/// Whether the header starts with `Bearer `.
pub fn has_bearer_prefix(header: &[u8]) -> (r: bool)
    ensures
        r == bearer_prefix().is_prefix_of(header@),
{
    if header.len() < 7 {
        return false;
    }
    let r = header[0] == 66 && header[1] == 101 && header[2] == 97 && header[3] == 114
        && header[4] == 101 && header[5] == 114 && header[6] == 32;
    proof {
        if r {
            assert(bearer_prefix() =~= header@.subrange(0, 7));
        } else {
            assert(forall|i: int| 0 <= i < 7 ==> header@.subrange(0, 7)[i] == header@[i]);
        }
    }
    r
}

/// Fills a payload up with `=` to a length that four divides.
pub fn pad_payload(payload: Vec<u8>) -> (r: Vec<u8>)
    requires
        payload.len() <= usize::MAX - 3,
    ensures
        r@ == padded(payload@),
        r@.len() % 4 == 0,
{
    let mut out = payload;
    let rem: usize = out.len() % 4;
    if rem != 0 {
        let mut k: usize = rem;
        while k < 4
            invariant
                0 < rem <= k <= 4,
                rem == payload@.len() % 4,
                out@ =~= payload@ + Seq::new((k - rem) as nat, |i: int| PAD),
                payload@.len() <= usize::MAX - 3,
            decreases 4 - k,
        {
            out.push(PAD);
            k += 1;
        }
    }
    assert(out@ =~= padded(payload@));
    out
}

/// The padded payload of the bearer token in an authorization header, or
/// `None` where the header does not start with `Bearer ` or the token does
/// not have exactly three segments.
pub fn bearer_payload(header: &str) -> (r: Option<Vec<u8>>)
    ensures
        match r {
            Some(payload) => token_payload(header.spec_bytes()) == Some(payload@),
            None => token_payload(header.spec_bytes()).is_none(),
        },
{
    let bytes = header.as_bytes();
    if !has_bearer_prefix(bytes) {
        return None;
    }
    let n: usize = bytes.len();
    let ghost token = bytes@.subrange(7, n as int);
    let mut done: Vec<Vec<u8>> = Vec::new();
    let mut cur: Vec<u8> = Vec::new();
    let mut i: usize = 7;
    assert(token.subrange(0, 0) =~= Seq::<u8>::empty());
    assert(segment_views(done@).push(cur@) =~= seq![Seq::<u8>::empty()]);
    while i < n
        invariant
            7 <= i <= n,
            n == bytes@.len(),
            token == bytes@.subrange(7, n as int),
            split_dots(token.subrange(0, i - 7)) == segment_views(done@).push(cur@),
            cur@.len() <= i - 7,
            forall|k: int| 0 <= k < done@.len() ==> (#[trigger] done@[k])@.len() <= i - 7,
        decreases n - i,
    {
        let b: u8 = bytes[i];
        proof {
            let now = token.subrange(0, i - 7 + 1);
            assert(now.drop_last() =~= token.subrange(0, i - 7));
            assert(now.last() == b);
            let before = segment_views(done@).push(cur@);
            assert(before.drop_last() =~= segment_views(done@));
            assert(before.last() == cur@);
        }
        if b == DOT {
            let ghost old_done = done@;
            let ghost old_cur = cur@;
            done.push(cur);
            cur = Vec::new();
            assert(segment_views(done@) =~= segment_views(old_done).push(old_cur));
        } else {
            cur.push(b);
        }
        i += 1;
    }
    assert(token.subrange(0, n - 7) =~= token);
    if done.len() != 2 {
        assert(split_dots(token).len() == done@.len() + 1);
        return None;
    }
    assert(split_dots(token)[1] == done@[1]@);
    match done.pop() {
        Some(payload) => Some(pad_payload(payload)),
        None => None,
    }
}

/// A payload whose length is one over a multiple of four is filled up with
/// three `=`, so that `=` stands in the third place from the end.
pub proof fn lemma_three_pads(payload: Seq<u8>)
    ensures
        padded(payload).len() % 4 == 0,
        payload.len() % 4 == 1 ==> padded(payload).len() >= 4 && padded(payload)[padded(
            payload,
        ).len() - 3] == PAD,
{
}

/// A text without dots is its own single segment.
pub proof fn lemma_split_dot_free(text: Seq<u8>)
    requires
        dot_free(text),
    ensures
        split_dots(text) == seq![text],
    decreases text.len(),
{
    if text.len() > 0 {
        lemma_split_dot_free(text.drop_last());
        assert(text.drop_last().push(text.last()) =~= text);
        assert(seq![text.drop_last()].drop_last().push(text) =~= seq![text]);
    } else {
        assert(text =~= Seq::<u8>::empty());
    }
}

/// Text without dots, put behind any text, lengthens that text's last segment
/// and leaves the others as they are.
pub proof fn lemma_split_append_dot_free(text: Seq<u8>, tail: Seq<u8>)
    requires
        dot_free(tail),
    ensures
        split_dots(text).len() >= 1,
        split_dots(text + tail) == split_dots(text).drop_last().push(
            split_dots(text).last() + tail,
        ),
    decreases tail.len(),
{
    lemma_split_nonempty(text);
    let parts = split_dots(text);
    if tail.len() == 0 {
        assert(text + tail =~= text);
        assert(parts.last() + tail =~= parts.last());
        assert(parts.drop_last().push(parts.last()) =~= parts);
    } else {
        let shorter = tail.drop_last();
        lemma_split_append_dot_free(text, shorter);
        let whole = text + tail;
        assert(whole.drop_last() =~= text + shorter);
        assert(whole.last() == tail.last());
        let before = split_dots(text + shorter);
        assert(before.drop_last() =~= parts.drop_last());
        assert(before.last().push(tail.last()) =~= parts.last() + tail);
    }
}

/// Every text has at least one segment.
pub proof fn lemma_split_nonempty(text: Seq<u8>)
    ensures
        split_dots(text).len() >= 1,
    decreases text.len(),
{
    if text.len() > 0 {
        lemma_split_nonempty(text.drop_last());
    }
}

/// Three texts without dots, joined by two dots, split into those three.
pub proof fn lemma_split_three(head: Seq<u8>, payload: Seq<u8>, signature: Seq<u8>)
    requires
        dot_free(head),
        dot_free(payload),
        dot_free(signature),
    ensures
        split_dots(head.push(DOT) + payload.push(DOT) + signature) == seq![
            head,
            payload,
            signature,
        ],
{
    let empty = Seq::<u8>::empty();
    lemma_split_dot_free(head);
    let a = head.push(DOT);
    assert(a.drop_last() =~= head);
    assert(split_dots(a) =~= seq![head, empty]);
    lemma_split_append_dot_free(a, payload);
    assert(empty + payload =~= payload);
    let b = a + payload;
    assert(split_dots(b) =~= seq![head, payload]);
    let c = b.push(DOT);
    assert(c.drop_last() =~= b);
    assert(split_dots(c) =~= seq![head, payload, empty]);
    assert(c =~= a + payload.push(DOT));
    lemma_split_append_dot_free(c, signature);
    assert(empty + signature =~= signature);
    assert(split_dots(c + signature) =~= seq![head, payload, signature]);
}

} // verus!
