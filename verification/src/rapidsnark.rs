//! What the rapidsnark prover and verifier read: the witness, each value as
//! 32 little-endian bytes one after another, and the verifying key in the
//! snarkjs JSON layout.

use crate::ethereum::string_views;
use crate::zkey::{G1Point, G2Point, ZkeyVerifyingKey};
use ark_ff::BigInteger256;
use ark_serialize::CanonicalDeserialize;
use vstd::prelude::*;

verus! {

/// `w` made exactly 32 bytes long: cut after the 32nd byte, or padded with zeros.
pub open spec fn fit32(w: Seq<u8>) -> Seq<u8> {
    if w.len() >= 32 {
        w.take(32)
    } else {
        w + Seq::new((32 - w.len()) as nat, |i: int| 0u8)
    }
}

/// The words of `words`, each made 32 bytes long, one after another.
pub open spec fn witness_layout(words: Seq<Seq<u8>>) -> Seq<u8>
    decreases words.len(),
{
    if words.len() == 0 {
        Seq::empty()
    } else {
        witness_layout(words.drop_last()) + fit32(words.last())
    }
}

/// The witness word `i` occupies the 32 bytes from `32 * i`: byte `k` of it is
/// byte `k` of the `i`-th value's little-endian bytes, or zero past their
/// end (a value of 32 bytes is kept as it is, a longer one is cut).
pub proof fn lemma_witness_words(words: Seq<Seq<u8>>)
    ensures
        witness_layout(words).len() == 32 * words.len(),
        forall|i: int, k: int|
            0 <= i < words.len() && 0 <= k < 32 ==> #[trigger] witness_layout(words)[32 * i + k]
                == (if k < words[i].len() {
                words[i][k]
            } else {
                0u8
            }),
    decreases words.len(),
{
    if words.len() > 0 {
        let init = words.drop_last();
        lemma_witness_words(init);
        let w = words.last();
        assert(fit32(w).len() == 32);
        assert forall|i: int, k: int|
            0 <= i < words.len() && 0 <= k < 32 implies #[trigger] witness_layout(words)[32 * i
            + k] == (if k < words[i].len() {
            words[i][k]
        } else {
            0u8
        }) by {
            if i < init.len() {
                assert(init[i] == words[i]);
                assert(witness_layout(words)[32 * i + k] == witness_layout(init)[32 * i + k]);
            } else {
                assert(witness_layout(words)[32 * i + k] == fit32(w)[k]);
            }
        }
    }
}

/// The views of the byte vectors of `v`.
pub open spec fn byte_views(v: Seq<Vec<u8>>) -> Seq<Seq<u8>> {
    v.map_values(|w: Vec<u8>| w@)
}

/// The witness for rapidsnark: the little-endian bytes of each value, resized
/// to 32 bytes, concatenated.
pub fn witness_bytes(words_le: &[Vec<u8>]) -> (r: Vec<u8>)
    ensures
        r@ == witness_layout(byte_views(words_le@)),
{
    let mut out: Vec<u8> = Vec::new();
    let mut i: usize = 0;
    while i < words_le.len()
        invariant
            i <= words_le@.len(),
            out@ == witness_layout(byte_views(words_le@.take(i as int))),
        decreases words_le@.len() - i,
    {
        let w = &words_le[i];
        let ghost before = out@;
        let mut k: usize = 0;
        while k < 32
            invariant
                k <= 32,
                out@ == before + fit32(w@).take(k as int),
            decreases 32 - k,
        {
            let b: u8 = if k < w.len() {
                w[k]
            } else {
                0
            };
            out.push(b);
            assert(out@ =~= before + fit32(w@).take(k + 1));
            k = k + 1;
        }
        assert(fit32(w@).take(32) =~= fit32(w@));
        assert(byte_views(words_le@.take(i + 1)).drop_last() =~= byte_views(
            words_le@.take(i as int),
        ));
        i = i + 1;
    }
    assert(words_le@.take(i as int) =~= words_le@);
    out
}


/// The decimal that the BN254 base-field element stored in Montgomery form as
/// the 32 bytes `raw` prints as.
pub uninterp spec fn bn254_fq_mont_decimal(raw: Seq<u8>) -> Seq<char>;

/// Reads `raw` with `BigInteger256::deserialize_uncompressed`, takes it as the
/// Montgomery form of a BN254 base-field element (`ark_bn254::Fq::new_unchecked`)
/// and prints it with `to_string`. The contract names the result, a function
/// of `raw` alone.
#[verifier::external_body]
fn bn254_fq_display(raw: &[u8]) -> (r: String)
    requires
        raw@.len() == 32,
    ensures
        r@ == bn254_fq_mont_decimal(raw@),
{
    let repr = BigInteger256::deserialize_uncompressed(raw).unwrap();
    ark_bn254::Fq::new_unchecked(repr).to_string()
}

/// The views of the string vectors of `v`.
pub open spec fn string_rows(v: Seq<Vec<String>>) -> Seq<Seq<Seq<char>>> {
    v.map_values(|w: Vec<String>| string_views(w@))
}

/// Every coordinate of `p` has the 32 bytes of a BN254 base-field element.
pub open spec fn bn254_g1(p: G1Point) -> bool {
    p.x@.len() == 32 && p.y@.len() == 32
}

/// Every component of `p` has the 32 bytes of a BN254 base-field element.
pub open spec fn bn254_g2(p: G2Point) -> bool {
    p.x_c0@.len() == 32 && p.x_c1@.len() == 32 && p.y_c0@.len() == 32 && p.y_c1@.len() == 32
}

/// Every coordinate of `vk` has the 32 bytes of a BN254 base-field element.
pub open spec fn bn254_vk(vk: ZkeyVerifyingKey) -> bool {
    &&& bn254_g1(vk.alpha_g1)
    &&& bn254_g2(vk.beta_g2)
    &&& bn254_g2(vk.gamma_g2)
    &&& bn254_g2(vk.delta_g2)
    &&& forall|i: int| 0 <= i < vk.gamma_abc_g1@.len() ==> bn254_g1(#[trigger] vk.gamma_abc_g1@[i])
}

/// A G1 point of the key as snarkjs writes it: `[x, y, "1"]`.
pub open spec fn g1_json(p: G1Point) -> Seq<Seq<char>> {
    seq![bn254_fq_mont_decimal(p.x@), bn254_fq_mont_decimal(p.y@), "1"@]
}

/// A G2 point of the key as snarkjs writes it:
/// `[[x.c0, x.c1], [y.c0, y.c1], ["1", "0"]]`.
pub open spec fn g2_json(p: G2Point) -> Seq<Seq<Seq<char>>> {
    seq![
        seq![bn254_fq_mont_decimal(p.x_c0@), bn254_fq_mont_decimal(p.x_c1@)],
        seq![bn254_fq_mont_decimal(p.y_c0@), bn254_fq_mont_decimal(p.y_c1@)],
        seq!["1"@, "0"@],
    ]
}

/// A Groth16 verifying key in the JSON layout that rapidsnark's verifier reads.
pub struct RapidsnarkVkey {
    pub protocol: String,
    pub curve: String,
    pub n_public: u32,
    pub vk_alpha_1: Vec<String>,
    pub vk_beta_2: Vec<Vec<String>>,
    pub vk_gamma_2: Vec<Vec<String>>,
    pub vk_delta_2: Vec<Vec<String>>,
    pub ic: Vec<Vec<String>>,
}

fn g1_strings(p: &G1Point) -> (r: Vec<String>)
    requires
        bn254_g1(*p),
    ensures
        string_views(r@) == g1_json(*p),
{
    let mut r: Vec<String> = Vec::new();
    r.push(bn254_fq_display(p.x.as_slice()));
    r.push(bn254_fq_display(p.y.as_slice()));
    r.push(String::from_str("1"));
    assert(string_views(r@) =~= g1_json(*p));
    r
}

fn pair(a: String, b: String) -> (r: Vec<String>)
    ensures
        string_views(r@) == seq![a@, b@],
{
    let mut r: Vec<String> = Vec::new();
    r.push(a);
    r.push(b);
    assert(string_views(r@) =~= seq![a@, b@]);
    r
}

fn g2_strings(p: &G2Point) -> (r: Vec<Vec<String>>)
    requires
        bn254_g2(*p),
    ensures
        string_rows(r@) == g2_json(*p),
{
    let mut r: Vec<Vec<String>> = Vec::new();
    r.push(pair(bn254_fq_display(p.x_c0.as_slice()), bn254_fq_display(p.x_c1.as_slice())));
    r.push(pair(bn254_fq_display(p.y_c0.as_slice()), bn254_fq_display(p.y_c1.as_slice())));
    r.push(pair(String::from_str("1"), String::from_str("0")));
    assert(string_rows(r@) =~= g2_json(*p));
    r
}

/// The verifying key `vk` of a BN254 zkey as rapidsnark's verifier reads it:
/// protocol `groth16`, curve `bn128`, `nPublic` 0 (the verifier does not read
/// it), each G1 point as `[x, y, "1"]` and each G2 point as
/// `[[x.c0, x.c1], [y.c0, y.c1], ["1", "0"]]`, coordinates in decimal.
pub fn rapidsnark_vkey(vk: &ZkeyVerifyingKey) -> (r: RapidsnarkVkey)
    requires
        bn254_vk(*vk),
    ensures
        r.protocol@ == "groth16"@,
        r.curve@ == "bn128"@,
        r.n_public == 0,
        string_views(r.vk_alpha_1@) == g1_json(vk.alpha_g1),
        string_rows(r.vk_beta_2@) == g2_json(vk.beta_g2),
        string_rows(r.vk_gamma_2@) == g2_json(vk.gamma_g2),
        string_rows(r.vk_delta_2@) == g2_json(vk.delta_g2),
        string_rows(r.ic@) == vk.gamma_abc_g1@.map_values(|p: G1Point| g1_json(p)),
{
    let mut ic: Vec<Vec<String>> = Vec::new();
    let mut i: usize = 0;
    while i < vk.gamma_abc_g1.len()
        invariant
            i <= vk.gamma_abc_g1@.len(),
            bn254_vk(*vk),
            string_rows(ic@) == vk.gamma_abc_g1@.take(i as int).map_values(
                |p: G1Point| g1_json(p),
            ),
        decreases vk.gamma_abc_g1@.len() - i,
    {
        let row = g1_strings(&vk.gamma_abc_g1[i]);
        let ghost before = ic@;
        let ghost row_view = string_views(row@);
        ic.push(row);
        assert(string_rows(ic@) =~= string_rows(before).push(row_view));
        assert(vk.gamma_abc_g1@.take(i + 1).map_values(|p: G1Point| g1_json(p))
            =~= vk.gamma_abc_g1@.take(i as int).map_values(|p: G1Point| g1_json(p)).push(
            g1_json(vk.gamma_abc_g1@[i as int]),
        ));
        i = i + 1;
    }
    assert(vk.gamma_abc_g1@.take(i as int) =~= vk.gamma_abc_g1@);
    RapidsnarkVkey {
        protocol: String::from_str("groth16"),
        curve: String::from_str("bn128"),
        n_public: 0,
        vk_alpha_1: g1_strings(&vk.alpha_g1),
        vk_beta_2: g2_strings(&vk.beta_g2),
        vk_gamma_2: g2_strings(&vk.gamma_g2),
        vk_delta_2: g2_strings(&vk.delta_g2),
        ic,
    }
}

} // verus!
