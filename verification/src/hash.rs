use vstd::prelude::*;
use vstd::string::StrSliceExecFns;
use vstd::string::StringExecFns;

verus! {

/// The 20-byte SHA-1 digest of a text, as the `sha1` crate computes it.
/// The digest depends on the input characters alone; no short statement of
/// its value is attempted here.
pub uninterp spec fn sha1_of(s: Seq<char>) -> Seq<u8>;

pub open spec fn hex_digits() -> Seq<char> {
    "0123456789abcdef"@
}

/// The lower-case hexadecimal rendering of a byte sequence: two digits per
/// byte, high nibble first.
pub open spec fn hex_of(bytes: Seq<u8>) -> Seq<char>
    decreases bytes.len(),
{
    if bytes.len() == 0 {
        Seq::empty()
    } else {
        seq![
            hex_digits()[bytes[0] as int / 16],
            hex_digits()[bytes[0] as int % 16],
        ] + hex_of(bytes.drop_first())
    }
}

/// The identifier a fragment of identifier-bearing text derives: its SHA-1
/// digest rendered as lower-case hexadecimal.
pub open spec fn sha1_hex_of(s: Seq<char>) -> Seq<char> {
    hex_of(sha1_of(s))
}

/// Relies on sha1::Sha1 through the Digest trait: feeding the whole text
/// once and finalizing yields its 20-byte SHA-1 digest, a pure function of
/// the input bytes.
#[verifier::external_body]
fn sha1_digest(text: &str) -> (r: Vec<u8>)
    ensures
        r@ == sha1_of(text@),
        r@.len() == 20,
{
    let mut hasher = <sha1::Sha1 as sha1::Digest>::new();
    sha1::Digest::update(&mut hasher, text);
    let digest = sha1::Digest::finalize(hasher);
    digest.as_slice().to_vec()
}

/// Renders a byte sequence as lower-case hexadecimal text.
#[verifier::loop_isolation(false)]
fn to_hex(bytes: &Vec<u8>) -> (r: String)
    ensures
        r@ == hex_of(bytes@),
{
    let table = "0123456789abcdef";
    proof {
        reveal_strlit("0123456789abcdef");
    }
    assert(table@ == hex_digits());
    assert(table.is_ascii());
    let mut out = String::new();
    proof {
        assert(bytes@.skip(0) =~= bytes@);
        assert(out@ + hex_of(bytes@) =~= hex_of(bytes@));
    }
    for i in 0..bytes.len()
        invariant
            out@ + hex_of(bytes@.skip(i as int)) == hex_of(bytes@),
    {
        let b = bytes[i];
        let hi = (b / 16) as usize;
        let lo = (b % 16) as usize;
        out.append(table.substring_ascii(hi, hi + 1));
        out.append(table.substring_ascii(lo, lo + 1));
        proof {
            assert(bytes@.skip(i as int)[0] == bytes@[i as int]);
            assert(bytes@.skip(i as int).drop_first() =~= bytes@.skip(i as int + 1));
            assert(table@.subrange(hi as int, hi as int + 1) =~= seq![
                hex_digits()[bytes@[i as int] as int / 16],
            ]);
            assert(table@.subrange(lo as int, lo as int + 1) =~= seq![
                hex_digits()[bytes@[i as int] as int % 16],
            ]);
            assert(out@ + hex_of(bytes@.skip(i as int + 1)) =~= hex_of(bytes@));
        }
    }
    proof {
        assert(bytes@.skip(bytes@.len() as int) =~= Seq::<u8>::empty());
        assert(out@ =~= out@ + hex_of(Seq::<u8>::empty()));
    }
    out
}

/// Hexadecimal text is twice as long as the bytes it renders.
pub proof fn lemma_hex_of_len(bytes: Seq<u8>)
    ensures
        hex_of(bytes).len() == 2 * bytes.len(),
    decreases bytes.len(),
{
    if bytes.len() != 0 {
        lemma_hex_of_len(bytes.drop_first());
    }
}

/// Derives the stable identifier for one fragment of identifier-bearing
/// text: its SHA-1 digest as lower-case hexadecimal, always 40 digits.
pub fn calculate_guid(text: &str) -> (r: String)
    ensures
        r@ == sha1_hex_of(text@),
        r@.len() == 40,
{
    let digest = sha1_digest(text);
    proof {
        lemma_hex_of_len(digest@);
    }
    to_hex(&digest)
}

} // verus!
