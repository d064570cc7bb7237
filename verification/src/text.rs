//! Capped null-terminated string reading and the legacy Japanese text
//! decoding that record names and string values are stored in.

use vstd::prelude::*;

verus! {

use crate::reader::Stream;

/// The index of the first zero byte of `s` at or after `i`, or `s.len()`
/// when there is none.
pub open spec fn find_nul(s: Seq<u8>, i: int) -> int
    decreases s.len() - i,
{
    if i < 0 || i >= s.len() {
        s.len() as int
    } else if s[i] == 0 {
        i
    } else {
        find_nul(s, i + 1)
    }
}

/// The byte run of `s` from `i` to its first terminator.
pub open spec fn nul_run(s: Seq<u8>, i: int) -> Seq<u8> {
    s.subrange(i, find_nul(s, i))
}

/// `find_nul` never answers before `i` nor past the end of `s`.
pub proof fn lemma_find_nul_bounds(s: Seq<u8>, i: int)
    requires
        0 <= i <= s.len(),
    ensures
        i <= find_nul(s, i) <= s.len(),
    decreases s.len() - i,
{
    if i < s.len() && s[i] != 0 {
        lemma_find_nul_bounds(s, i + 1);
    }
}

/// What the legacy Japanese single/double-byte encoding decodes a byte run
/// to. The decoding is a function of the bytes alone.
pub uninterp spec fn shift_jis_of(bytes: Seq<u8>) -> Seq<char>;

/// Relies on `encoding_rs::SHIFT_JIS.decode`: decoding is deterministic in
/// the input bytes, malformed sequences become replacement characters (the
/// call never fails), an empty input decodes to an empty string, and for an
/// ASCII-compatible encoding an ASCII-only input decodes to itself.
#[verifier::external_body]
fn decode_shift_jis(bytes: &[u8]) -> (r: String)
    ensures
        r@ == shift_jis_of(bytes@),
        bytes@.len() == 0 ==> r@.len() == 0,
        (forall|i: int| 0 <= i < bytes@.len() ==> bytes@[i] < 0x80) ==> r@ == bytes@.map_values(
            |b: u8| b as char,
        ),
{
    let (decoded, _encoding, _had_errors) = encoding_rs::SHIFT_JIS.decode(bytes);
    decoded.into_owned()
}

/// What `String::from_utf8_lossy` decodes a byte run to: a function of
/// the bytes alone.
pub uninterp spec fn utf8_lossy_of(bytes: Seq<u8>) -> Seq<char>;

/// Relies on `String::from_utf8_lossy`: decoding is deterministic in the
/// bytes, and the identity decode on valid UTF-8.
#[verifier::external_body]
pub fn utf8_lossy(bytes: &[u8]) -> (r: String)
    ensures
        r@ == utf8_lossy_of(bytes@),
        vstd::utf8::valid_utf8(bytes@) ==> r@ == vstd::utf8::decode_utf8(bytes@),
{
    String::from_utf8_lossy(bytes).into_owned()
}

/// The run of `buf` before its first terminator, when it has one.
#[verifier::loop_isolation(false)]
pub fn nul_run_in(buf: &[u8]) -> (r: Option<&[u8]>)
    ensures
        match r {
            Some(run) => find_nul(buf@, 0) < buf@.len() && run@ == nul_run(buf@, 0),
            None => find_nul(buf@, 0) == buf@.len(),
        },
{
    let mut j: usize = 0;
    while j < buf.len()
        invariant
            j <= buf@.len(),
            find_nul(buf@, 0) == find_nul(buf@, j as int),
        decreases buf@.len() - j,
    {
        if buf[j] == 0 {
            proof {
                assert(find_nul(buf@, j as int) == j as int);
            }
            return Some(vstd::slice::slice_subrange(buf, 0, j));
        }
        j = j + 1;
    }
    None
}

/// Reads a null-terminated byte run from the stream, capped at `max_size`
/// content bytes, and decodes it.
///
/// The terminator is consumed but not part of the content. A run longer than
/// the cap is truncated to `max_size` bytes (one more byte, the first one
/// past the cap, is consumed and discarded). Hitting the end of the stream
/// before a terminator or the cap is a failure; the stream is then fully
/// consumed.
#[verifier::loop_isolation(false)]
pub fn read_null_terminated_string(stream: &mut Stream, max_size: usize) -> (r: Option<String>)
    requires
        old(stream).wf(),
    ensures
        final(stream).wf(),
        final(stream).bytes() == old(stream).bytes(),
        old(stream).pos() <= final(stream).pos(),
        ({
            let s = old(stream).bytes();
            let p0 = old(stream).pos();
            let n = find_nul(s, p0);
            if n < s.len() && n - p0 <= max_size {
                r matches Some(v) && v@ == shift_jis_of(s.subrange(p0, n)) && final(stream).pos() == n + 1
            } else if p0 + max_size < s.len() {
                r matches Some(v) && v@ == shift_jis_of(s.subrange(p0, p0 + max_size))
                    && final(stream).pos() == p0 + max_size + 1
            } else {
                r is None && final(stream).pos() == s.len()
            }
        }),
{
    let ghost s = old(stream).bytes();
    let ghost p0 = old(stream).pos();
    let mut out: Vec<u8> = Vec::new();
    proof {
        lemma_find_nul_bounds(s, p0);
        assert(out@ =~= s.subrange(p0, p0));
    }
    loop
        invariant
            stream.wf(),
            stream.bytes() == s,
            out@.len() <= max_size,
            stream.pos() == p0 + out@.len(),
            out@ == s.subrange(p0, p0 + out@.len()),
            find_nul(s, p0) == find_nul(s, p0 + out@.len()),
            find_nul(s, p0) >= p0 + out@.len(),
        decreases s.len() - stream.pos(),
    {
        let next = stream.read_u8();
        match next {
            None => {
                proof {
                    lemma_find_nul_bounds(s, stream.pos());
                }
                return None;
            },
            Some(b) => {
                let ghost at = p0 + out@.len();
                if b == 0 {
                    proof {
                        assert(s[at] == 0);
                        assert(find_nul(s, at) == at);
                    }
                    return Some(decode_shift_jis(out.as_slice()));
                }
                if out.len() == max_size {
                    proof {
                        assert(s[at] != 0);
                        assert(find_nul(s, at) == find_nul(s, at + 1));
                        lemma_find_nul_bounds(s, at + 1);
                    }
                    return Some(decode_shift_jis(out.as_slice()));
                }
                out.push(b);
                proof {
                    assert(s[at] != 0);
                    assert(find_nul(s, at) == find_nul(s, at + 1));
                    lemma_find_nul_bounds(s, at + 1);
                    assert(out@ =~= s.subrange(p0, p0 + out@.len()));
                }
            },
        }
    }
}

} // verus!
