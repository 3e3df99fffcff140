//! Framing of the Klippy Unix-socket stream: every message is one line of
//! JSON text terminated by `\n`. A decoded line is checked to be JSON text
//! with `serde_json`; turning it into a value is the caller's.
use vstd::prelude::*;

verus! {

/// The byte that ends a frame.
pub const NEWLINE: u8 = 10u8;

/// `n` is the position of the first newline in `s`.
pub open spec fn first_newline_at(s: Seq<u8>, n: int) -> bool {
    &&& 0 <= n < s.len()
    &&& s[n] == NEWLINE
    &&& forall|k: int| 0 <= k < n ==> s[k] != NEWLINE
}

/// `s` holds no newline.
pub open spec fn newline_free(s: Seq<u8>) -> bool {
    forall|k: int| 0 <= k < s.len() ==> s[k] != NEWLINE
}

/// What one decoding step does to the buffered bytes `s`: the frame it
/// yields (if any) and the bytes left buffered. Without a newline nothing is
/// taken. Otherwise the line and its newline are taken off the front; an
/// empty line yields no frame.
pub open spec fn decode_spec(s: Seq<u8>) -> (Option<Seq<u8>>, Seq<u8>) {
    if newline_free(s) {
        (None, s)
    } else {
        let n: int = choose|n: int| first_newline_at(s, n);
        (if n == 0 {
            None
        } else {
            Some(s.take(n))
        }, s.skip(n + 1))
    }
}

/// The bytes that encoding appends for a payload.
pub open spec fn encode_spec(payload: Seq<u8>) -> Seq<u8> {
    payload.push(NEWLINE)
}

proof fn lemma_first_newline_unique(s: Seq<u8>, n: int, m: int)
    requires
        first_newline_at(s, n),
        first_newline_at(s, m),
    ensures
        n == m,
{
    if n < m {
        assert(s[n] != NEWLINE);
    } else if m < n {
        assert(s[m] != NEWLINE);
    }
}

proof fn lemma_decode_at(s: Seq<u8>, n: int)
    requires
        first_newline_at(s, n),
    ensures
        decode_spec(s) == (if n == 0 {
            None
        } else {
            Some(s.take(n))
        }, s.skip(n + 1)),
{
    assert(!newline_free(s));
    let m = choose|m: int| first_newline_at(s, m);
    lemma_first_newline_unique(s, n, m);
}

/// Whether `serde_json` reads `bytes` as one JSON text (a `serde_json::Value`
/// with nothing but whitespace after it).
pub uninterp spec fn json_text_valid(bytes: Seq<u8>) -> bool;

/// Calls `serde_json::from_slice::<serde_json::Value>` and reports whether
/// it succeeded. The parse depends on the bytes alone; the contract names
/// its outcome `json_text_valid`.
#[verifier::external_body]
fn is_json_text(bytes: &[u8]) -> (r: bool)
    ensures
        r == json_text_valid(bytes@),
{
    serde_json::from_slice::<serde_json::Value>(bytes).is_ok()
}

/// A complete line that is not JSON text. The line has been taken off the
/// buffer all the same.
#[derive(Debug)]
pub struct NotJsonText {
    pub line: Vec<u8>,
}

/// What one JSON decoding step yields from the buffered bytes `s`, and the
/// bytes left buffered: no complete line (or an empty one) yields nothing, a
/// line of JSON text yields that line, and any other line is an error.
pub open spec fn decode_json_spec(s: Seq<u8>) -> (Result<Option<Seq<u8>>, Seq<u8>>, Seq<u8>) {
    let (frame, rest) = decode_spec(s);
    (match frame {
        None => Ok(None),
        Some(line) => if json_text_valid(line) {
            Ok(Some(line))
        } else {
            Err(line)
        },
    }, rest)
}

/// The view of a JSON decoding result.
pub open spec fn json_result_view(r: Result<Option<Vec<u8>>, NotJsonText>) -> Result<
    Option<Seq<u8>>,
    Seq<u8>,
> {
    match r {
        Ok(Some(line)) => Ok(Some(line@)),
        Ok(None) => Ok(None),
        Err(e) => Err(e.line@),
    }
}

pub struct KlippyUdsCodec;

impl KlippyUdsCodec {
    /// Takes the next frame off the front of `src`. The frame is the line
    /// before the first newline; the line and the newline are removed. An
    /// empty line is removed and yields nothing; a buffer without a newline
    /// is left as it is.
    pub fn decode(&mut self, src: &mut Vec<u8>) -> (r: Option<Vec<u8>>)
        ensures
            (r.deep_view(), final(src)@) == decode_spec(old(src)@),
    {
        let len: usize = src.len();
        let mut i: usize = 0;
        while i < len && src[i] != NEWLINE
            invariant
                len == src@.len(),
                src@ == old(src)@,
                i <= len,
                forall|k: int| 0 <= k < i ==> src@[k] != NEWLINE,
            decreases len - i,
        {
            i += 1;
        }
        if i == len {
            assert(newline_free(old(src)@));
            return None;
        }
        let ghost before = src@;
        proof {
            lemma_decode_at(before, i as int);
        }
        let mut rest = src.split_off(i + 1);
        std::mem::swap(src, &mut rest);
        rest.pop();
        assert(rest@ =~= before.take(i as int));
        assert(src@ =~= before.skip(i + 1));
        if i == 0 {
            None
        } else {
            Some(rest)
        }
    }

    /// Takes the next line off the front of `src` and checks that it is
    /// JSON text: `Ok(Some(line))` for JSON text, `Ok(None)` where no
    /// complete line is buffered or the line is empty, and `Err` for any
    /// other line.
    pub fn decode_json(&mut self, src: &mut Vec<u8>) -> (r: Result<Option<Vec<u8>>, NotJsonText>)
        ensures
            (json_result_view(r), final(src)@) == decode_json_spec(old(src)@),
    {
        let frame = self.decode(src);
        let ghost (spec_frame, spec_rest) = decode_spec(old(src)@);
        assert(src@ == spec_rest);
        match frame {
            None => {
                assert(spec_frame is None);
                Ok(None)
            },
            Some(line) => {
                assert(line.deep_view() =~= line@);
                assert(spec_frame == Some(line@));
                if is_json_text(line.as_slice()) {
                    Ok(Some(line))
                } else {
                    Err(NotJsonText { line })
                }
            },
        }
    }

    /// Appends `item` and the terminating newline to `dst`.
    pub fn encode(&mut self, item: &[u8], dst: &mut Vec<u8>)
        ensures
            final(dst)@ == old(dst)@ + encode_spec(item@),
    {
        dst.extend_from_slice(item);
        dst.push(NEWLINE);
        assert(dst@ =~= old(dst)@ + encode_spec(item@));
    }
}

/// Framing round trip: a non-empty payload without a newline, once encoded,
/// is exactly what the next decoding step yields, and whatever was buffered
/// after it stays buffered.
pub proof fn lemma_encoded_frame_decodes(payload: Seq<u8>, rest: Seq<u8>)
    requires
        payload.len() > 0,
        newline_free(payload),
    ensures
        decode_spec(encode_spec(payload) + rest) == (Some(payload), rest),
{
    let s = encode_spec(payload) + rest;
    let n: int = payload.len() as int;
    assert(s[n] == NEWLINE);
    assert forall|k: int| 0 <= k < n implies s[k] != NEWLINE by {
        assert(s[k] == payload[k]);
    }
    lemma_decode_at(s, n);
    assert(s.take(n) =~= payload);
    assert(s.skip(n + 1) =~= rest);
}

/// Buffering more bytes after an incomplete frame does not change the frame
/// that is eventually decoded: bytes are only ever taken up to the first
/// newline.
pub proof fn lemma_decode_prefix_stable(s: Seq<u8>, more: Seq<u8>)
    requires
        !newline_free(s),
    ensures
        decode_spec(s + more).0 == decode_spec(s).0,
        decode_spec(s + more).1 == decode_spec(s).1 + more,
{
    let n: int = choose|n: int| first_newline_at(s, n);
    assert(exists|n: int| first_newline_at(s, n)) by {
        let k: int = choose|k: int| 0 <= k < s.len() && s[k] == NEWLINE;
        lemma_exists_first_newline(s, k);
    }
    let t = s + more;
    assert(first_newline_at(t, n)) by {
        assert forall|k: int| 0 <= k < n implies t[k] != NEWLINE by {
            assert(t[k] == s[k]);
        }
    }
    lemma_decode_at(s, n);
    lemma_decode_at(t, n);
    assert(t.take(n) =~= s.take(n));
    assert(t.skip(n + 1) =~= s.skip(n + 1) + more);
}

proof fn lemma_exists_first_newline(s: Seq<u8>, k: int)
    requires
        0 <= k < s.len(),
        s[k] == NEWLINE,
    ensures
        exists|n: int| first_newline_at(s, n),
    decreases k,
{
    if forall|j: int| 0 <= j < k ==> s[j] != NEWLINE {
        assert(first_newline_at(s, k));
    } else {
        let j: int = choose|j: int| 0 <= j < k && s[j] == NEWLINE;
        lemma_exists_first_newline(s, j);
    }
}

/// JSON round trip over the socket: a non-empty JSON text without a
/// newline, once encoded, is what the next JSON decoding step yields, and
/// whatever was buffered after it stays buffered.
pub proof fn law_json_frame_round_trip(payload: Seq<u8>, rest: Seq<u8>)
    requires
        payload.len() > 0,
        newline_free(payload),
        json_text_valid(payload),
    ensures
        decode_json_spec(encode_spec(payload) + rest) == (Ok::<Option<Seq<u8>>, Seq<u8>>(
            Some(payload),
        ), rest),
{
    lemma_encoded_frame_decodes(payload, rest);
}

} // verus!
