//! The credential gate: an operator's input is hashed outside the library, the
//! digest is rendered as lowercase hex text, and that text must match the
//! provisioned reference byte for byte.

use hex_display::HexDisplayExt;
use vstd::prelude::*;

verus! {

/// Length of the digest that the hash primitive produces.
pub const HASH_LENGTH: usize = 32;

/// Length of the provisioned PIN reference: the digest rendered as hex text.
pub const PIN_LENGTH: usize = 64;

/// Length of the provisioned token reference: the digest rendered as hex text.
pub const TOKEN_LENGTH: usize = 64;

/// The ASCII character of a hex digit `n < 16`, lowercase.
pub open spec fn hex_digit(n: u8) -> u8 {
    if n < 10 {
        (48 + n) as u8
    } else {
        (87 + n) as u8
    }
}

/// `b` rendered as text: two lowercase hex digits per byte, high nibble first.
pub open spec fn hex_text(b: Seq<u8>) -> Seq<u8>
    decreases b.len(),
{
    if b.len() == 0 {
        seq![]
    } else {
        hex_text(b.drop_last()) + seq![hex_digit(b.last() / 16), hex_digit(b.last() % 16)]
    }
}

/// The rendered text is twice as long as the bytes.
pub proof fn lemma_hex_text_len(b: Seq<u8>)
    ensures
        hex_text(b).len() == 2 * b.len(),
    decreases b.len(),
{
    if b.len() > 0 {
        lemma_hex_text_len(b.drop_last());
    }
}

/// Relies on hex_display's `Display` for `Hex`: with no width, fill or
/// alternate flag it writes each byte as two lowercase hex digits, in order.
#[verifier::external_body]
fn render_hex(b: &[u8]) -> (r: Vec<u8>)
    ensures
        r@ == hex_text(b@),
{
    format!("{}", b.hex()).into_bytes()
}

/// The hash primitive reported an error instead of a digest.
#[derive(Clone, Copy, Debug, PartialEq, Eq, Structural)]
pub struct HashFailure;

/// The outcome of a credential check.
#[derive(Clone, Copy, Debug, PartialEq, Eq, Structural)]
pub enum GateVerdict {
    Accepted,
    Rejected,
    HashFailure,
}

/// The verdict on a digest (`None` when hashing failed) against a reference.
pub open spec fn gate_verdict(digest: Option<Seq<u8>>, reference: Seq<u8>) -> GateVerdict {
    match digest {
        None => GateVerdict::HashFailure,
        Some(d) => if hex_text(d) == reference {
            GateVerdict::Accepted
        } else {
            GateVerdict::Rejected
        },
    }
}

/// The digest that the hash primitive handed back, if it handed one back.
pub open spec fn digest_view(digest: &Result<Vec<u8>, HashFailure>) -> Option<Seq<u8>> {
    match digest {
        Ok(d) => Some(d@),
        Err(_) => None,
    }
}

/// Compares two byte strings over their whole length: when the lengths agree
/// it looks at every byte, whatever it finds on the way.
pub fn bytes_equal(a: &[u8], b: &[u8]) -> (r: bool)
    ensures
        r == (a@ == b@),
{
    if a.len() != b.len() {
        return false;
    }
    let mut same = true;
    let mut i: usize = 0;
    while i < a.len()
        invariant
            a@.len() == b@.len(),
            i <= a@.len(),
            same == (forall|j: int| 0 <= j < i ==> a@[j] == b@[j]),
        decreases a@.len() - i,
    {
        if a[i] != b[i] {
            same = false;
        }
        i = i + 1;
    }
    if same {
        assert(a@ =~= b@);
    }
    same
}

/// Checks a digest of the operator's input against a provisioned reference:
/// `Accepted` exactly when the digest's hex text equals the reference over its
/// full length, `Rejected` on any difference of length or content, and
/// `HashFailure` when the digest could not be computed.
pub fn check(digest: &Result<Vec<u8>, HashFailure>, reference: &[u8]) -> (r: GateVerdict)
    ensures
        r == gate_verdict(digest_view(digest), reference@),
        digest matches Ok(d) ==> (r == GateVerdict::Accepted <==> hex_text(d@) == reference@),
        digest matches Ok(d) ==> (reference@.len() != 2 * d@.len() ==> r == GateVerdict::Rejected),
        r == GateVerdict::HashFailure <==> digest is Err,
{
    match digest {
        Err(_) => GateVerdict::HashFailure,
        Ok(d) => {
            let text = render_hex(d.as_slice());
            proof {
                lemma_hex_text_len(d@);
            }
            if bytes_equal(text.as_slice(), reference) {
                GateVerdict::Accepted
            } else {
                GateVerdict::Rejected
            }
        },
    }
}

/// The PIN gate in front of attestation: `check` against the PIN reference.
pub fn validate_pin(digest: &Result<Vec<u8>, HashFailure>, pin_reference: &[u8]) -> (r:
    GateVerdict)
    ensures
        r == gate_verdict(digest_view(digest), pin_reference@),
{
    check(digest, pin_reference)
}

/// The token gate in front of the standalone identity proof: `check` against
/// the token reference.
pub fn validate_token(digest: &Result<Vec<u8>, HashFailure>, token_reference: &[u8]) -> (r:
    GateVerdict)
    ensures
        r == gate_verdict(digest_view(digest), token_reference@),
{
    check(digest, token_reference)
}

} // verus!
