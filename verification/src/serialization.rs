//! Public inputs serialized by arkworks, read as the BN254 scalars' own text.

use crate::bytes::{bytes_at, le_u64, le_value, read_u64_at};
use crate::ethereum::{decimal, fr_modulus, scalar_at, scalars_readable};
use crate::zkey::Curve;
use ark_serialize::CanonicalDeserialize;
use vstd::prelude::*;
use vstd::slice::slice_subrange;

verus! {

/// How a BN254 scalar prints: its decimal digits with leading zeros trimmed,
/// so that zero prints as the empty string.
pub open spec fn fr_text(n: nat) -> Seq<char> {
    if n == 0 {
        Seq::empty()
    } else {
        decimal(n)
    }
}

/// Reads the BN254 scalar in `raw` with `ark_bn254::Fr::deserialize_uncompressed`
/// and prints it with its `Display`, which prints the canonical integer in
/// decimal with leading zeros trimmed; `None` where the little-endian integer
/// `raw` is not below the order.
#[verifier::external_body]
fn bn254_fr_text(raw: &[u8]) -> (r: Option<String>)
    requires
        raw@.len() == 32,
    ensures
        match r {
            Some(d) => le_value(raw@) < fr_modulus(Curve::Bn254) && d@ == fr_text(le_value(raw@)),
            None => le_value(raw@) >= fr_modulus(Curve::Bn254),
        },
{
    match ark_bn254::Fr::deserialize_uncompressed(raw) {
        Ok(f) => Some(f.to_string()),
        Err(_) => None,
    }
}

/// The BN254 public inputs serialized as a vector of scalars, each as the
/// scalar prints.
pub fn to_ethereum_inputs(inputs: &[u8]) -> (r: Vec<String>)
    requires
        scalars_readable(inputs@, Curve::Bn254),
    ensures
        r@.len() == le_u64(inputs@),
        forall|i: int| 0 <= i < r@.len() ==> #[trigger] r@[i]@ == fr_text(scalar_at(inputs@, i)),
{
    let n = read_u64_at(inputs, 0).unwrap();
    assert(bytes_at(inputs@, 0, 8).take(8) =~= inputs@.take(8));
    let len: usize = inputs.len();
    let mut out: Vec<String> = Vec::new();
    let mut i: u64 = 0;
    while i < n
        invariant
            len == inputs@.len(),
            i <= n,
            n == le_u64(inputs@),
            scalars_readable(inputs@, Curve::Bn254),
            out@.len() == i,
            forall|j: int| 0 <= j < i ==> #[trigger] out@[j]@ == fr_text(scalar_at(inputs@, j)),
        decreases n - i,
    {
        assert(32 * (i as int) + 32 <= 32 * (n as int));
        let iu: usize = i as usize;
        let p: usize = 8 + 32 * iu;
        let raw = slice_subrange(inputs, p, p + 32);
        assert(raw@ =~= bytes_at(inputs@, 8 + 32 * i, 32));
        assert(scalar_at(inputs@, i as int) < fr_modulus(Curve::Bn254));
        let d = bn254_fr_text(raw).unwrap();
        out.push(d);
        i = i + 1;
    }
    out
}

} // verus!
