//! Recovery of the ciphertext block from an encryptor's armored output.
use vstd::prelude::*;
use vstd::utf8::{decode_utf8, encode_utf8, valid_utf8};

verus! {

/// Why an armored block could not be taken apart.
#[derive(Clone, Copy, Debug, PartialEq, Eq, Structural)]
pub enum ExtractError {
    /// A boundary marker is absent.
    NotFound,
    /// The payload would start at or past the end of the buffer.
    TooShort,
    /// The payload bytes are not valid UTF-8.
    InvalidEncoding,
}

/// `needle` stands in `haystack` starting at byte `i`.
pub open spec fn occurs_at(haystack: Seq<u8>, needle: Seq<u8>, i: int) -> bool {
    0 <= i && i + needle.len() <= haystack.len() && haystack.subrange(i, i + needle.len())
        == needle
}

/// The least index `i >= start` at which `needle` occurs, if any.
pub open spec fn first_match(haystack: Seq<u8>, needle: Seq<u8>, start: int) -> Option<int>
    decreases haystack.len() + 1 - start,
{
    if start < 0 || start + needle.len() > haystack.len() {
        None
    } else if occurs_at(haystack, needle, start) {
        Some(start)
    } else {
        first_match(haystack, needle, start + 1)
    }
}

/// The header/blank-line boundary: two newlines.
pub open spec fn blank_line() -> Seq<u8> {
    seq![10u8, 10u8]
}

/// The start of the footer line: a newline and a dash.
pub open spec fn footer_start() -> Seq<u8> {
    seq![10u8, 45u8]
}

/// The payload bytes of an armored block, or why there are none.
pub open spec fn armor_payload(out: Seq<u8>) -> Result<Seq<u8>, ExtractError> {
    match first_match(out, blank_line(), 0) {
        None => Err(ExtractError::NotFound),
        Some(i) => {
            let start = i + 2;
            if start >= out.len() {
                Err(ExtractError::TooShort)
            } else {
                match first_match(out, footer_start(), start) {
                    None => Err(ExtractError::NotFound),
                    Some(end) => Ok(out.subrange(start, end)),
                }
            }
        },
    }
}

/// What extraction yields: the payload decoded as UTF-8, or the reason it fails.
pub open spec fn armor_text(out: Seq<u8>) -> Result<Seq<char>, ExtractError> {
    match armor_payload(out) {
        Err(e) => Err(e),
        Ok(p) => if valid_utf8(p) {
            Ok(decode_utf8(p))
        } else {
            Err(ExtractError::InvalidEncoding)
        },
    }
}

/// `first_match` finds the least occurrence at or after `start`, and `None`
/// means there is none.
pub proof fn lemma_first_match(haystack: Seq<u8>, needle: Seq<u8>, start: int)
    requires
        0 <= start,
    ensures
        first_match(haystack, needle, start) matches Some(i) ==> start <= i && occurs_at(
            haystack,
            needle,
            i,
        ) && forall|j: int| start <= j < i ==> !occurs_at(haystack, needle, j),
        first_match(haystack, needle, start) is None ==> forall|j: int|
            start <= j ==> !occurs_at(haystack, needle, j),
    decreases haystack.len() - start,
{
    if start + needle.len() > haystack.len() {
    } else if occurs_at(haystack, needle, start) {
    } else {
        if needle.len() == 0 {
            assert(haystack.subrange(start, start) =~= needle);
        }
        lemma_first_match(haystack, needle, start + 1);
    }
}

/// An occurrence at `i` with none between `start` and `i` is the one that
/// `first_match` finds.
pub proof fn lemma_first_match_at(haystack: Seq<u8>, needle: Seq<u8>, start: int, i: int)
    requires
        0 <= start <= i,
        occurs_at(haystack, needle, i),
        forall|j: int| start <= j < i ==> !occurs_at(haystack, needle, j),
    ensures
        first_match(haystack, needle, start) == Some(i),
    decreases i - start,
{
    if start < i {
        lemma_first_match_at(haystack, needle, start + 1, i);
    }
}

/// Extraction inverts armoring: a header line without newlines, a blank line,
/// a valid UTF-8 payload with no newline followed by a dash, then a footer line
/// starting with a dash, gives back exactly the payload's text.
pub proof fn lemma_extract_round_trip(header: Seq<u8>, payload: Seq<u8>, footer: Seq<u8>)
    requires
        forall|k: int| 0 <= k < header.len() ==> header[k] != 10u8,
        forall|k: int| !occurs_at(payload, footer_start(), k),
        valid_utf8(payload),
    ensures
        armor_payload(header + blank_line() + payload + footer_start() + footer) == Ok::<
            Seq<u8>,
            ExtractError,
        >(payload),
        armor_text(header + blank_line() + payload + footer_start() + footer) == Ok::<
            Seq<char>,
            ExtractError,
        >(decode_utf8(payload)),
        encode_utf8(decode_utf8(payload)) == payload,
{
    let out = header + blank_line() + payload + footer_start() + footer;
    let h = header.len() as int;
    let p = payload.len() as int;
    assert(out.len() == h + 2 + p + 2 + footer.len());
    assert forall|k: int| 0 <= k < h implies out[k] == header[k] by {}
    assert(out[h] == 10u8 && out[h + 1] == 10u8);
    assert forall|k: int| 0 <= k < p implies out[h + 2 + k] == payload[k] by {}
    assert(out[h + 2 + p] == 10u8 && out[h + 2 + p + 1] == 45u8);
    assert(out.subrange(h, h + 2) =~= blank_line());
    assert forall|j: int| 0 <= j < h implies !occurs_at(out, blank_line(), j) by {
        if occurs_at(out, blank_line(), j) {
            assert(out.subrange(j, j + 2)[0] == out[j]);
        }
    }
    lemma_first_match_at(out, blank_line(), 0, h);
    assert(out.subrange(h + 2 + p, h + 2 + p + 2) =~= footer_start());
    assert forall|j: int| h + 2 <= j < h + 2 + p implies !occurs_at(out, footer_start(), j) by {
        if occurs_at(out, footer_start(), j) {
            assert(out.subrange(j, j + 2)[0] == out[j]);
            assert(out.subrange(j, j + 2)[1] == out[j + 1]);
            if j + 1 < h + 2 + p {
                let m = j - h - 2;
                assert(out[h + 2 + m] == payload[m]);
                assert(out[h + 2 + (m + 1)] == payload[m + 1]);
                assert(payload.subrange(m, m + 2) =~= footer_start());
                assert(occurs_at(payload, footer_start(), m));
            } else {
                assert(footer_start()[1] == 45u8);
            }
        }
    }
    lemma_first_match_at(out, footer_start(), h + 2, h + 2 + p);
    assert(out.subrange(h + 2, h + 2 + p) =~= payload);
    vstd::utf8::decode_utf8_encode_utf8(payload);
}

/// Output without a blank line has no payload: extraction reports `NotFound`.
pub proof fn lemma_missing_blank_line(out: Seq<u8>)
    requires
        forall|k: int| !occurs_at(out, blank_line(), k),
    ensures
        armor_payload(out) == Err::<Seq<u8>, ExtractError>(ExtractError::NotFound),
        armor_text(out) == Err::<Seq<char>, ExtractError>(ExtractError::NotFound),
{
    lemma_first_match(out, blank_line(), 0);
}

/// Index of the first occurrence of `needle` in `haystack` at or after
/// `start_index`.
pub fn first_index_of(start_index: usize, haystack: &[u8], needle: &[u8]) -> (r: Result<
    usize,
    ExtractError,
>)
    ensures
        match r {
            Ok(i) => first_match(haystack@, needle@, start_index as int) == Some(i as int),
            Err(e) => e == ExtractError::NotFound && first_match(
                haystack@,
                needle@,
                start_index as int,
            ) is None,
        },
{
    let hlen: usize = haystack.len();
    if needle.len() > hlen {
        return Err(ExtractError::NotFound);
    }
    let last: usize = hlen - needle.len();
    let mut i: usize = start_index;
    while i <= last
        invariant
            hlen == haystack@.len(),
            last == haystack@.len() - needle@.len(),
            start_index <= i,
            first_match(haystack@, needle@, start_index as int) == first_match(
                haystack@,
                needle@,
                i as int,
            ),
        decreases last + 1 - i,
    {
        let mut k: usize = 0;
        let mut same: bool = true;
        while k < needle.len()
            invariant
                hlen == haystack@.len(),
                i <= last,
                last == haystack@.len() - needle@.len(),
                i + needle@.len() <= haystack@.len(),
                k <= needle@.len(),
                same == forall|m: int| 0 <= m < k ==> haystack@[i + m] == needle@[m],
            decreases needle.len() - k,
        {
            if haystack[i + k] != needle[k] {
                same = false;
            }
            k = k + 1;
        }
        if same {
            assert(haystack@.subrange(i as int, i + needle@.len()) =~= needle@);
            return Ok(i);
        }
        assert(!occurs_at(haystack@, needle@, i as int)) by {
            if occurs_at(haystack@, needle@, i as int) {
                assert forall|m: int| 0 <= m < k implies haystack@[i + m] == needle@[m] by {
                    assert(haystack@.subrange(i as int, i + needle@.len())[m] == haystack@[i + m]);
                }
            }
        }
        if i == last {
            assert(first_match(haystack@, needle@, i + 1) is None);
            return Err(ExtractError::NotFound);
        }
        i = i + 1;
    }
    Err(ExtractError::NotFound)
}

/// Relies on `String::from_utf8`: `Ok` exactly when the bytes are valid UTF-8,
/// and then it holds the characters they encode.
#[verifier::external_body]
fn decode_bytes(b: Vec<u8>) -> (r: Option<String>)
    ensures
        r is Some <==> valid_utf8(b@),
        r matches Some(s) ==> s@ == decode_utf8(b@),
{
    String::from_utf8(b).ok()
}

/// The ciphertext block of an encryptor's armored output: the text after the
/// first blank line and before the first line that starts with a dash.
pub fn extract_armor(output: &[u8]) -> (r: Result<String, ExtractError>)
    ensures
        match armor_text(output@) {
            Ok(t) => r matches Ok(s) && s@ == t,
            Err(e) => r == Err::<String, ExtractError>(e),
        },
{
    let blank: [u8; 2] = [10u8, 10u8];
    let footer: [u8; 2] = [10u8, 45u8];
    assert(blank@ =~= blank_line());
    assert(footer@ =~= footer_start());
    let i = match first_index_of(0, output, blank.as_slice()) {
        Ok(i) => i,
        Err(e) => {
            return Err(e);
        },
    };
    proof {
        lemma_first_match(output@, blank_line(), 0);
        assert(occurs_at(output@, blank_line(), i as int));
    }
    let olen: usize = output.len();
    let start: usize = i + 2;
    if start >= olen {
        return Err(ExtractError::TooShort);
    }
    let end = match first_index_of(start, output, footer.as_slice()) {
        Ok(e) => e,
        Err(e) => {
            return Err(e);
        },
    };
    proof {
        lemma_first_match(output@, footer_start(), start as int);
    }
    let mut payload: Vec<u8> = Vec::new();
    let mut k: usize = start;
    while k < end
        invariant
            start <= k <= end,
            end <= output@.len(),
            payload@ =~= output@.subrange(start as int, k as int),
        decreases end - k,
    {
        payload.push(output[k]);
        k = k + 1;
    }
    match decode_bytes(payload) {
        Some(s) => Ok(s),
        None => Err(ExtractError::InvalidEncoding),
    }
}

} // verus!
