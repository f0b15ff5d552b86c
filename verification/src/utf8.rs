//! Reading bytes as text.

use vstd::prelude::*;
use vstd::string::StringExecFns;
use vstd::utf8::{
    decode_first_scalar, decode_utf8, length_of_first_scalar, pop_first_scalar, valid_first_scalar,
    valid_utf8,
};

use crate::text::copy_range;

verus! {

/// How many bytes at the start of `bytes` are whole, valid UTF-8 characters.
pub open spec fn valid_prefix(bytes: Seq<u8>) -> nat
    decreases bytes.len(),
{
    if bytes.len() == 0 || !valid_first_scalar(bytes) {
        0
    } else {
        length_of_first_scalar(bytes) as nat + valid_prefix(pop_first_scalar(bytes))
    }
}

/// Bytes that are not valid UTF-8 have an invalid sequence behind that prefix.
pub proof fn lemma_valid_prefix(bytes: Seq<u8>)
    ensures
        valid_prefix(bytes) <= bytes.len(),
        !valid_utf8(bytes) ==> valid_prefix(bytes) < bytes.len(),
    decreases bytes.len(),
{
    if bytes.len() > 0 && valid_first_scalar(bytes) {
        lemma_valid_prefix(pop_first_scalar(bytes));
    }
}

/// `std::str::from_utf8` accepts exactly the bytes that are valid UTF-8, and the
/// string it gives holds the characters that they encode. Otherwise
/// `Utf8Error::valid_up_to` is where the first invalid sequence begins.
#[verifier::external_body]
pub(crate) fn decode(bytes: &[u8]) -> (r: Result<String, usize>)
    ensures
        r is Ok == valid_utf8(bytes@),
        r is Ok ==> r->Ok_0@ == decode_utf8(bytes@),
        r is Err ==> r->Err_0 == valid_prefix(bytes@),
{
    match std::str::from_utf8(bytes) {
        Ok(s) => Ok(s.to_string()),
        Err(e) => Err(e.valid_up_to()),
    }
}

/// What `String::from_utf8_lossy` makes of `bytes`.
pub uninterp spec fn lossy(bytes: Seq<u8>) -> Seq<char>;

/// `String::from_utf8_lossy` gives the text that the bytes encode where they are
/// valid UTF-8; elsewhere it puts U+FFFD for what is invalid. Which bytes share
/// one such character is left unsaid.
#[verifier::external_body]
pub(crate) fn decode_lossy(bytes: &[u8]) -> (r: String)
    ensures
        r@ == lossy(bytes@),
        valid_utf8(bytes@) ==> r@ == decode_utf8(bytes@),
{
    String::from_utf8_lossy(bytes).into_owned()
}

/// The text that `bytes` encode; where they are not valid UTF-8, with U+FFFD for
/// what is invalid.
pub open spec fn as_text(bytes: Seq<u8>) -> Seq<char> {
    if valid_utf8(bytes) {
        decode_utf8(bytes)
    } else {
        lossy(bytes)
    }
}

// ---------------------------------------------------------------------------
// Underscores for invalid bytes
// ---------------------------------------------------------------------------
/// The text that `bytes` encode, with an underscore for each byte that is no part
/// of a valid UTF-8 character.
pub open spec fn patched(bytes: Seq<u8>) -> Seq<char>
    decreases bytes.len(),
{
    if bytes.len() == 0 {
        seq![]
    } else if valid_first_scalar(bytes) {
        seq![decode_first_scalar(bytes) as char] + patched(pop_first_scalar(bytes))
    } else {
        seq!['_'] + patched(bytes.skip(1))
    }
}

/// Valid UTF-8 needs no underscores.
pub proof fn law_patched_keeps_text(bytes: Seq<u8>)
    requires
        valid_utf8(bytes),
    ensures
        patched(bytes) == decode_utf8(bytes),
    decreases bytes.len(),
{
    if bytes.len() > 0 {
        law_patched_keeps_text(pop_first_scalar(bytes));
    }
}

/// Where something is invalid, there is an underscore.
pub proof fn lemma_patched_shows(bytes: Seq<u8>)
    requires
        !valid_utf8(bytes),
    ensures
        patched(bytes).contains('_'),
    decreases bytes.len(),
{
    if valid_first_scalar(bytes) {
        let rest = patched(pop_first_scalar(bytes));
        lemma_patched_shows(pop_first_scalar(bytes));
        let i = choose|i: int| 0 <= i < rest.len() && rest[i] == '_';
        assert(patched(bytes)[i + 1] == '_');
    } else {
        assert(patched(bytes)[0] == '_');
    }
}

/// The valid characters at the start stay, and an invalid byte follows.
pub proof fn lemma_patched_prefix(bytes: Seq<u8>)
    ensures
        valid_prefix(bytes) <= bytes.len(),
        valid_utf8(bytes.take(valid_prefix(bytes) as int)),
        patched(bytes) == decode_utf8(bytes.take(valid_prefix(bytes) as int)) + patched(
            bytes.skip(valid_prefix(bytes) as int),
        ),
        valid_prefix(bytes) < bytes.len() ==> !valid_first_scalar(
            bytes.skip(valid_prefix(bytes) as int),
        ),
    decreases bytes.len(),
{
    let k = valid_prefix(bytes) as int;
    if bytes.len() == 0 || !valid_first_scalar(bytes) {
        assert(bytes.skip(0) == bytes);
        assert(bytes.take(0).len() == 0);
        assert(decode_utf8(bytes.take(0)) + patched(bytes) == patched(bytes));
    } else {
        let n = length_of_first_scalar(bytes);
        let rest = pop_first_scalar(bytes);
        lemma_patched_prefix(rest);
        let head = bytes.take(k);
        assert(rest.take(k - n) == head.subrange(n, k));
        assert(rest.skip(k - n) == bytes.skip(k));
        assert(valid_first_scalar(head));
        assert(pop_first_scalar(head) == rest.take(k - n));
        let first = seq![decode_first_scalar(bytes) as char];
        assert(decode_utf8(head) == first + decode_utf8(rest.take(k - n)));
        assert(first + (decode_utf8(rest.take(k - n)) + patched(bytes.skip(k))) == decode_utf8(head)
            + patched(bytes.skip(k)));
    }
}

/// Decodes bytes with an underscore for each invalid one.
pub fn patch(bytes: &[u8]) -> (r: String)
    ensures
        r@ == patched(bytes@),
{
    let mut out = String::new();
    let mut i: usize = 0;
    assert(bytes@.skip(0) == bytes@);
    assert(out@ + patched(bytes@.skip(0)) == patched(bytes@));
    loop
        invariant
            i <= bytes@.len(),
            out@ + patched(bytes@.skip(i as int)) == patched(bytes@),
        decreases bytes@.len() - i,
    {
        let rest: Vec<u8> = copy_range(bytes, i, bytes.len());
        let ghost before = out@;
        assert(rest@ == bytes@.skip(i as int));
        match decode(&rest) {
            Ok(s) => {
                proof {
                    law_patched_keeps_text(rest@);
                }
                out.append(&s);
                return out;
            },
            Err(k) => {
                proof {
                    lemma_valid_prefix(rest@);
                    lemma_patched_prefix(rest@);
                    assert(rest@.subrange(0, k as int) == rest@.take(k as int));
                }
                if let Ok(s) = decode(&copy_range(&rest, 0, k)) {
                    out.append(&s);
                }
                out.push('_');
                proof {
                    let head = decode_utf8(rest@.take(k as int));
                    let tail = patched(bytes@.skip(i + k + 1));
                    assert(rest@.skip(k as int).skip(1) == bytes@.skip(i + k + 1));
                    assert(patched(rest@) == head + (seq!['_'] + tail));
                    assert(out@ == before + head + seq!['_']);
                    assert(before + (head + (seq!['_'] + tail)) == out@ + tail);
                }
                i = i + k + 1;
            },
        }
    }
}

} // verus!
