//! Groth16 proofs and their public inputs in the form the Solidity verifier
//! takes as calldata, and back.

use crate::app_config::constants::str_eq;
use crate::bytes::{bytes_at, lemma_le_value_bound, le_u64, le_value, pow256, read_u64_at};
use crate::rapidsnark::byte_views;
use crate::zkey::Curve;
use ark_ff::{BigInteger, PrimeField};
use ark_serialize::{CanonicalDeserialize, CanonicalSerialize};
use num_bigint::BigUint;
use vstd::prelude::*;
use vstd::slice::slice_subrange;

verus! {

/// A point of G1, coordinates as decimal strings; `z` is absent in calldata.
#[derive(Debug, Clone, Default, PartialEq, Eq)]
pub struct G1 {
    pub x: String,
    pub y: String,
    pub z: Option<String>,
}

/// A point of G2, coordinates as pairs of decimal strings; `z` is absent in
/// calldata.
#[derive(Debug, Clone, Default, PartialEq, Eq)]
pub struct G2 {
    pub x: Vec<String>,
    pub y: Vec<String>,
    pub z: Option<Vec<String>>,
}

/// A Groth16 proof with the protocol and curve it was made with.
#[derive(Debug, Clone, Default, PartialEq, Eq)]
pub struct CircomProof {
    pub a: G1,
    pub b: G2,
    pub c: G1,
    pub protocol: String,
    pub curve: String,
}

/// A proof as the Solidity Groth16 verifier takes it.
#[derive(Debug, Clone, Default, PartialEq, Eq)]
pub struct ProofCalldata {
    pub a: G1,
    pub b: G2,
    pub c: G1,
}

/// The views of the strings of `v`.
pub open spec fn string_views(v: Seq<String>) -> Seq<Seq<char>> {
    v.map_values(|s: String| s@)
}

fn copy_strings(v: &Vec<String>) -> (r: Vec<String>)
    ensures
        string_views(r@) == string_views(v@),
{
    let mut out: Vec<String> = Vec::new();
    let mut i: usize = 0;
    while i < v.len()
        invariant
            i <= v@.len(),
            string_views(out@) == string_views(v@.take(i as int)),
        decreases v@.len() - i,
    {
        let s = v[i].clone();
        assert(s@ == v@[i as int]@);
        let ghost before = out@;
        out.push(s);
        assert(string_views(v@.take(i + 1)) =~= string_views(v@.take(i as int)).push(v@[i as int]@));
        assert(string_views(out@) =~= string_views(v@.take(i + 1)));
        i = i + 1;
    }
    assert(v@.take(i as int) =~= v@);
    out
}

/// `c` holds the affine coordinates of `p` and no `z`.
pub open spec fn calldata_g1(c: G1, p: G1) -> bool {
    c.x@ == p.x@ && c.y@ == p.y@ && c.z is None
}

/// `c` holds the affine coordinates of `p` and no `z`.
pub open spec fn calldata_g2(c: G2, p: G2) -> bool {
    string_views(c.x@) == string_views(p.x@) && string_views(c.y@) == string_views(p.y@)
        && c.z is None
}

/// The calldata of `proof` for the Solidity Groth16 verifier: the `x` and `y`
/// coordinates of its three points, without `z`.
pub fn to_ethereum_proof(proof: CircomProof) -> (r: ProofCalldata)
    ensures
        calldata_g1(r.a, proof.a),
        calldata_g2(r.b, proof.b),
        calldata_g1(r.c, proof.c),
{
    let a = G1 { x: proof.a.x.clone(), y: proof.a.y.clone(), z: None };
    let b = G2 { x: copy_strings(&proof.b.x), y: copy_strings(&proof.b.y), z: None };
    let c = G1 { x: proof.c.x.clone(), y: proof.c.y.clone(), z: None };
    ProofCalldata { a, b, c }
}


/// Why a conversion between proofs and calldata was refused.
#[derive(Debug, Clone, Copy, PartialEq, Eq, Structural)]
pub enum EthereumError {
    /// The curve name is neither `bn128` nor `bls12381`.
    UnsupportedCurve,
}

/// The curve that a circom curve name stands for.
pub open spec fn curve_named(name: Seq<char>) -> Option<Curve> {
    if name == "bn128"@ {
        Some(Curve::Bn254)
    } else if name == "bls12381"@ {
        Some(Curve::Bls12_381)
    } else {
        None
    }
}

/// The circom name of a curve.
pub open spec fn curve_name(c: Curve) -> Seq<char> {
    match c {
        Curve::Bn254 => "bn128"@,
        Curve::Bls12_381 => "bls12381"@,
    }
}

/// The curve that the circom curve name `name` stands for.
pub fn curve_from_name(name: &str) -> (r: Option<Curve>)
    ensures
        r == curve_named(name@),
{
    if str_eq(name, "bn128") {
        Some(Curve::Bn254)
    } else if str_eq(name, "bls12381") {
        Some(Curve::Bls12_381)
    } else {
        None
    }
}

fn curve_name_string(c: Curve) -> (r: String)
    ensures
        r@ == curve_name(c),
{
    match c {
        Curve::Bn254 => String::from_str("bn128"),
        Curve::Bls12_381 => String::from_str("bls12381"),
    }
}

/// The order of the base field of `c`.
pub open spec fn fq_modulus(c: Curve) -> nat {
    match c {
        Curve::Bn254 => 21888242871839275222246405745257275088696311157297823662689037894645226208583nat,
        Curve::Bls12_381 => 4002409555221667393417789825735904156556882819939007885332058136124031650490837864442687629129015664037894272559787nat,
    }
}

/// `s` is the plain decimal (no sign, no leading zero) of an element of the
/// base field of `c`.
pub open spec fn plain_fq(c: Curve, s: Seq<char>) -> bool {
    exists|n: nat| #[trigger] decimal(n) == s && n < fq_modulus(c)
}

/// `c` is one of the ASCII digits `0` to `9`.
pub open spec fn is_digit(c: char) -> bool {
    '0' <= c && c <= '9'
}

/// The digit character of `d` (below ten).
pub open spec fn digit_char(d: nat) -> char {
    if d == 0 {
        '0'
    } else if d == 1 {
        '1'
    } else if d == 2 {
        '2'
    } else if d == 3 {
        '3'
    } else if d == 4 {
        '4'
    } else if d == 5 {
        '5'
    } else if d == 6 {
        '6'
    } else if d == 7 {
        '7'
    } else if d == 8 {
        '8'
    } else {
        '9'
    }
}

/// The value of the ASCII digit `c`.
pub open spec fn digit_value(c: char) -> nat {
    (c as int - '0' as int) as nat
}

/// The integer that the decimal digits of `s` write, `_` skipped.
pub open spec fn digits_value(s: Seq<char>) -> nat
    decreases s.len(),
{
    if s.len() == 0 {
        0
    } else if s.last() == '_' {
        digits_value(s.drop_last())
    } else {
        digits_value(s.drop_last()) * 10 + digit_value(s.last())
    }
}

/// The element of the base field of `c` that `Fq::from_str` reads from `s`:
/// `0` for `"0"`, else refused unless `s` is non-empty, all ASCII digits and
/// without a leading zero, and then the integer reduced modulo the field.
pub open spec fn fq_from_str_value(c: Curve, s: Seq<char>) -> Option<nat> {
    if s == seq!['0'] {
        Some(0)
    } else if s.len() == 0 || s[0] == '0' || exists|i: int|
        0 <= i < s.len() && !is_digit(#[trigger] s[i]) {
        None
    } else {
        Some(digits_value(s) % fq_modulus(c))
    }
}

/// The base-field element of `c` read from `s`, printed as an unsigned
/// decimal; `None` where `Fq::from_str` refuses `s`.
pub open spec fn fq_decimal(c: Curve, s: Seq<char>) -> Option<Seq<char>> {
    match fq_from_str_value(c, s) {
        Some(v) => Some(decimal(v)),
        None => None,
    }
}

/// The plain decimal of `n` is non-empty, all digits, without a leading zero
/// unless it is `0`, and writes `n`.
pub proof fn lemma_decimal_digits(n: nat)
    ensures
        decimal(n).len() > 0,
        forall|i: int| 0 <= i < decimal(n).len() ==> is_digit(#[trigger] decimal(n)[i]),
        n == 0 ==> decimal(n) == seq!['0'],
        n > 0 ==> decimal(n)[0] != '0',
        digits_value(decimal(n)) == n,
    decreases n,
{
    if n < 10 {
        assert(decimal(n) == seq![digit_char(n)]);
        assert(digits_value(seq![digit_char(n)]) == digits_value(seq![digit_char(n)].drop_last())
            * 10 + digit_value(digit_char(n)));
        assert(seq![digit_char(n)].drop_last() =~= Seq::<char>::empty());
    } else {
        let q = n / 10;
        lemma_decimal_digits(q);
        let d = decimal(n);
        assert(d == decimal(q).push(digit_char(n % 10)));
        assert(d.drop_last() =~= decimal(q));
        assert(d[0] == decimal(q)[0]);
        assert forall|i: int| 0 <= i < d.len() implies is_digit(#[trigger] d[i]) by {
            if i < d.len() - 1 {
                assert(d[i] == decimal(q)[i]);
            }
        }
        assert(digit_value(digit_char(n % 10)) == n % 10);
        assert(digits_value(d) == q * 10 + n % 10);
    }
}

/// The plain decimal of an element of the base field of `c` reads as that
/// element and prints back as itself.
pub proof fn lemma_plain_fq_reads_back(c: Curve, s: Seq<char>)
    requires
        plain_fq(c, s),
    ensures
        fq_decimal(c, s) == Some(s),
{
    let n = choose|n: nat| #[trigger] decimal(n) == s && n < fq_modulus(c);
    lemma_decimal_digits(n);
    if n == 0 {
        assert(fq_from_str_value(c, s) == Some(0nat));
    } else {
        assert(s != seq!['0']) by {
            if s == seq!['0'] {
                assert(digits_value(s) == 0) by {
                    assert(s.drop_last() =~= Seq::<char>::empty());
                }
            }
        }
        assert(fq_from_str_value(c, s) == Some(n));
    }
}

/// Parses `s` with `ark_bn254::Fq::from_str` and prints the element through
/// `BigUint::from` and `to_string`: `from_str` takes `"0"`, or a non-empty
/// string of ASCII digits without a leading zero, and reduces its integer
/// modulo the field; printing writes the canonical integer in decimal.
#[verifier::external_body]
fn bn254_fq_from_str(s: &str) -> (r: Option<String>)
    ensures
        match r {
            Some(d) => fq_decimal(Curve::Bn254, s@) == Some(d@),
            None => fq_decimal(Curve::Bn254, s@) is None,
        },
{
    match s.parse::<ark_bn254::Fq>() {
        Ok(f) => Some(BigUint::from(f).to_string()),
        Err(_) => None,
    }
}

/// As `bn254_fq_from_str`, with `ark_bls12_381::Fq`.
#[verifier::external_body]
fn bls12_381_fq_from_str(s: &str) -> (r: Option<String>)
    ensures
        match r {
            Some(d) => fq_decimal(Curve::Bls12_381, s@) == Some(d@),
            None => fq_decimal(Curve::Bls12_381, s@) is None,
        },
{
    match s.parse::<ark_bls12_381::Fq>() {
        Ok(f) => Some(BigUint::from(f).to_string()),
        Err(_) => None,
    }
}

fn fq_from_str(c: Curve, s: &str) -> (r: Option<String>)
    ensures
        match r {
            Some(d) => fq_decimal(c, s@) == Some(d@),
            None => fq_decimal(c, s@) is None,
        },
        plain_fq(c, s@) ==> r is Some && r->0@ == s@,
{
    proof {
        if plain_fq(c, s@) {
            lemma_plain_fq_reads_back(c, s@);
        }
    }
    match c {
        Curve::Bn254 => bn254_fq_from_str(s),
        Curve::Bls12_381 => bls12_381_fq_from_str(s),
    }
}

/// Every coordinate of the calldata `proof` is a base-field element of `c`,
/// and both coordinates of `b` have two components.
pub open spec fn calldata_parses(proof: ProofCalldata, c: Curve) -> bool {
    &&& proof.b.x@.len() >= 2
    &&& proof.b.y@.len() >= 2
    &&& fq_decimal(c, proof.a.x@) is Some
    &&& fq_decimal(c, proof.a.y@) is Some
    &&& fq_decimal(c, proof.b.x@[0]@) is Some
    &&& fq_decimal(c, proof.b.x@[1]@) is Some
    &&& fq_decimal(c, proof.b.y@[0]@) is Some
    &&& fq_decimal(c, proof.b.y@[1]@) is Some
    &&& fq_decimal(c, proof.c.x@) is Some
    &&& fq_decimal(c, proof.c.y@) is Some
}

/// `p` is the point of `c` whose affine coordinates the calldata `q` holds,
/// in projective form with `z` = 1.
pub open spec fn g1_from_calldata(p: G1, c: Curve, q: G1) -> bool {
    &&& fq_decimal(c, q.x@) == Some(p.x@)
    &&& fq_decimal(c, q.y@) == Some(p.y@)
    &&& plain_fq(c, q.x@) ==> p.x@ == q.x@
    &&& plain_fq(c, q.y@) ==> p.y@ == q.y@
    &&& p.z matches Some(z) && z@ == "1"@
}

/// `p` is the point of `c` whose affine coordinates the calldata `q` holds,
/// in projective form with `z` = 1 + 0u.
pub open spec fn g2_from_calldata(p: G2, c: Curve, q: G2) -> bool {
    &&& p.x@.len() == 2
    &&& p.y@.len() == 2
    &&& fq_decimal(c, q.x@[0]@) == Some(p.x@[0]@)
    &&& fq_decimal(c, q.x@[1]@) == Some(p.x@[1]@)
    &&& fq_decimal(c, q.y@[0]@) == Some(p.y@[0]@)
    &&& fq_decimal(c, q.y@[1]@) == Some(p.y@[1]@)
    &&& forall|i: int| 0 <= i < 2 ==> plain_fq(c, q.x@[i]@) ==> p.x@[i]@ == q.x@[i]@
    &&& forall|i: int| 0 <= i < 2 ==> plain_fq(c, q.y@[i]@) ==> p.y@[i]@ == q.y@[i]@
    &&& p.z matches Some(z) && z@.len() == 2 && z@[0]@ == "1"@ && z@[1]@ == "0"@
}

/// What converting the calldata `proof` for the curve named `curve` gives:
/// an error for an unknown curve, else the Groth16 proof of that curve.
pub open spec fn proof_from_calldata(
    proof: ProofCalldata,
    curve: Seq<char>,
    r: Result<CircomProof, EthereumError>,
) -> bool {
    match curve_named(curve) {
        None => r == Err::<CircomProof, EthereumError>(EthereumError::UnsupportedCurve),
        Some(c) => r matches Ok(p) && g1_from_calldata(p.a, c, proof.a) && g2_from_calldata(
            p.b,
            c,
            proof.b,
        ) && g1_from_calldata(p.c, c, proof.c) && p.protocol@ == "groth16"@ && p.curve@
            == curve_name(c),
    }
}

fn fq_field(c: Curve, s: &str) -> (r: String)
    requires
        fq_decimal(c, s@) is Some,
    ensures
        fq_decimal(c, s@) == Some(r@),
        plain_fq(c, s@) ==> r@ == s@,
{
    fq_from_str(c, s).unwrap()
}

fn one_string() -> (r: String)
    ensures
        r@ == "1"@,
{
    String::from_str("1")
}

fn g1_of_calldata(q: &G1, c: Curve) -> (p: G1)
    requires
        fq_decimal(c, q.x@) is Some,
        fq_decimal(c, q.y@) is Some,
    ensures
        g1_from_calldata(p, c, *q),
{
    G1 { x: fq_field(c, q.x.as_str()), y: fq_field(c, q.y.as_str()), z: Some(one_string()) }
}

fn g2_of_calldata(q: &G2, c: Curve) -> (p: G2)
    requires
        q.x@.len() >= 2,
        q.y@.len() >= 2,
        fq_decimal(c, q.x@[0]@) is Some,
        fq_decimal(c, q.x@[1]@) is Some,
        fq_decimal(c, q.y@[0]@) is Some,
        fq_decimal(c, q.y@[1]@) is Some,
    ensures
        g2_from_calldata(p, c, *q),
{
    let mut x: Vec<String> = Vec::new();
    x.push(fq_field(c, q.x[0].as_str()));
    x.push(fq_field(c, q.x[1].as_str()));
    let mut y: Vec<String> = Vec::new();
    y.push(fq_field(c, q.y[0].as_str()));
    y.push(fq_field(c, q.y[1].as_str()));
    let mut z: Vec<String> = Vec::new();
    z.push(one_string());
    z.push(String::from_str("0"));
    G2 { x, y, z: Some(z) }
}

/// The Groth16 proof of the curve named `curve` (`bn128` or `bls12381`)
/// whose affine coordinates the calldata `proof` holds, with `z` = 1; an
/// unknown curve is refused before any coordinate is read.
pub fn from_ethereum_proof(proof: ProofCalldata, curve: &str) -> (r: Result<
    CircomProof,
    EthereumError,
>)
    requires
        curve_named(curve@) matches Some(c) ==> calldata_parses(proof, c),
    ensures
        proof_from_calldata(proof, curve@, r),
{
    let c = match curve_from_name(curve) {
        Some(c) => c,
        None => {
            return Err(EthereumError::UnsupportedCurve);
        },
    };
    let a = g1_of_calldata(&proof.a, c);
    let b = g2_of_calldata(&proof.b, c);
    let pc = g1_of_calldata(&proof.c, c);
    Ok(CircomProof {
        a,
        b,
        c: pc,
        protocol: String::from_str("groth16"),
        curve: curve_name_string(c),
    })
}

/// Every coordinate of the calldata `proof` is the plain decimal of an element
/// of the base field of `c`, and both coordinates of `b` have two components.
pub open spec fn plain_calldata(proof: ProofCalldata, c: Curve) -> bool {
    &&& proof.b.x@.len() >= 2
    &&& proof.b.y@.len() >= 2
    &&& plain_fq(c, proof.a.x@)
    &&& plain_fq(c, proof.a.y@)
    &&& plain_fq(c, proof.b.x@[0]@)
    &&& plain_fq(c, proof.b.x@[1]@)
    &&& plain_fq(c, proof.b.y@[0]@)
    &&& plain_fq(c, proof.b.y@[1]@)
    &&& plain_fq(c, proof.c.x@)
    &&& plain_fq(c, proof.c.y@)
}

/// Whether every coordinate of the calldata `proof` parses for `c`.
pub fn calldata_parses_for(proof: &ProofCalldata, c: Curve) -> (r: bool)
    ensures
        r == calldata_parses(*proof, c),
        plain_calldata(*proof, c) ==> r,
{
    if proof.b.x.len() < 2 || proof.b.y.len() < 2 {
        return false;
    }
    fq_from_str(c, proof.a.x.as_str()).is_some() && fq_from_str(c, proof.a.y.as_str()).is_some()
        && fq_from_str(c, proof.b.x[0].as_str()).is_some() && fq_from_str(
        c,
        proof.b.x[1].as_str(),
    ).is_some() && fq_from_str(c, proof.b.y[0].as_str()).is_some() && fq_from_str(
        c,
        proof.b.y[1].as_str(),
    ).is_some() && fq_from_str(c, proof.c.x.as_str()).is_some() && fq_from_str(
        c,
        proof.c.y.as_str(),
    ).is_some()
}

/// `from_ethereum_proof` on any calldata: `None` where the curve is known and
/// a coordinate does not parse, else the conversion's result.
pub fn from_ethereum_proof_checked(proof: ProofCalldata, curve: &str) -> (r: Option<
    Result<CircomProof, EthereumError>,
>)
    ensures
        r is None <==> (curve_named(curve@) matches Some(c) && !calldata_parses(proof, c)),
        r matches Some(res) ==> proof_from_calldata(proof, curve@, res),
        (curve_named(curve@) matches Some(c) && plain_calldata(proof, c)) ==> r is Some,
{
    match curve_from_name(curve) {
        Some(c) => {
            if calldata_parses_for(&proof, c) {
                Some(from_ethereum_proof(proof, curve))
            } else {
                None
            }
        },
        None => Some(from_ethereum_proof(proof, curve)),
    }
}


/// The order of the scalar field of `c`.
pub open spec fn fr_modulus(c: Curve) -> nat {
    match c {
        Curve::Bn254 => 21888242871839275222246405745257275088548364400416034343698204186575808495617nat,
        Curve::Bls12_381 => 52435875175126190479447740508185965837690552500527637822603658699938581184513nat,
    }
}

/// The decimal digits of `n`, without leading zeros (`0` for zero).
pub open spec fn decimal(n: nat) -> Seq<char>
    decreases n,
{
    if n < 10 {
        seq![digit_char(n)]
    } else {
        decimal(n / 10).push(digit_char(n % 10))
    }
}

/// What `BigUint::from_str` parses of `s`: one leading `+` is dropped
/// unless another follows it.
pub open spec fn biguint_digits(s: Seq<char>) -> Seq<char> {
    if s.len() > 0 && s[0] == '+' && !(s.len() > 1 && s[1] == '+') {
        s.drop_first()
    } else {
        s
    }
}

/// The integer that `BigUint::from_str` reads from `s`: the digits left after
/// the sign must be non-empty, start with a digit and hold only ASCII digits
/// and `_`, which is skipped.
pub open spec fn biguint_from_str_value(s: Seq<char>) -> Option<nat> {
    let t = biguint_digits(s);
    if t.len() == 0 || t[0] == '_' || exists|i: int|
        0 <= i < t.len() && !is_digit(#[trigger] t[i]) && t[i] != '_' {
        None
    } else {
        Some(digits_value(t))
    }
}

/// `b` is the shortest little-endian form of its value (`[0]` for zero), as
/// `BigUint::to_bytes_le` gives it.
pub open spec fn minimal_le(b: Seq<u8>) -> bool {
    b.len() > 0 && (b.len() == 1 || b.last() != 0)
}

/// The plain decimal of `n` reads as `n`.
pub proof fn lemma_plain_decimal_reads_back(n: nat)
    ensures
        biguint_from_str_value(decimal(n)) == Some(n),
{
    lemma_decimal_digits(n);
    let s = decimal(n);
    assert(is_digit(s[0]));
    assert(biguint_digits(s) == s);
}

/// Parses `s` with `num_bigint::BigUint::from_str` and returns the value's
/// `to_bytes_le`: the shortest little-endian bytes of the integer parsed.
#[verifier::external_body]
fn biguint_le_from_str(s: &str) -> (r: Option<Vec<u8>>)
    ensures
        match biguint_from_str_value(s@) {
            Some(v) => r is Some && le_value(r->0@) == v && minimal_le(r->0@),
            None => r is None,
        },
{
    match s.parse::<BigUint>() {
        Ok(v) => Some(v.to_bytes_le()),
        Err(_) => None,
    }
}

/// The scalar of BN254 that `ark_bn254::Fr::from_le_bytes_mod_order` makes of
/// `le`, as the 32 little-endian bytes of its canonical integer
/// (`into_bigint`, `to_bytes_le`): the value of `le` reduced modulo the order.
#[verifier::external_body]
fn bn254_fr_from_le(le: &[u8]) -> (r: Vec<u8>)
    ensures
        r@.len() == 32,
        le_value(r@) == le_value(le@) % fr_modulus(Curve::Bn254),
{
    ark_bn254::Fr::from_le_bytes_mod_order(le).into_bigint().to_bytes_le()
}

/// As `bn254_fr_from_le`, with `ark_bls12_381::Fr`.
#[verifier::external_body]
fn bls12_381_fr_from_le(le: &[u8]) -> (r: Vec<u8>)
    ensures
        r@.len() == 32,
        le_value(r@) == le_value(le@) % fr_modulus(Curve::Bls12_381),
{
    ark_bls12_381::Fr::from_le_bytes_mod_order(le).into_bigint().to_bytes_le()
}

fn fr_from_le(c: Curve, le: &[u8]) -> (r: Vec<u8>)
    ensures
        r@.len() == 32,
        le_value(r@) == le_value(le@) % fr_modulus(c),
{
    match c {
        Curve::Bn254 => bn254_fr_from_le(le),
        Curve::Bls12_381 => bls12_381_fr_from_le(le),
    }
}

/// The eight bytes that ark-serialize writes for `n` (`u64::serialize_uncompressed`,
/// which writes `to_le_bytes`).
#[verifier::external_body]
fn ark_u64_bytes(n: u64) -> (r: Vec<u8>)
    ensures
        r@.len() == 8,
        le_value(r@) == n,
{
    let mut buf: Vec<u8> = Vec::new();
    let _ = n.serialize_uncompressed(&mut buf);
    buf
}

/// `out` is the ark-serialize encoding of the scalars of `c` made of the
/// integers `values`: an eight-byte count, then each integer reduced modulo
/// the order in 32 little-endian bytes.
pub open spec fn scalars_layout(c: Curve, values: Seq<nat>, out: Seq<u8>) -> bool {
    &&& out.len() == 8 + 32 * values.len()
    &&& le_value(out.take(8)) == values.len()
    &&& forall|i: int|
        #![trigger values[i]]
        0 <= i < values.len() ==> le_value(bytes_at(out, 8 + 32 * i, 32)) == values[i] % fr_modulus(
            c,
        )
}

/// The integers whose little-endian bytes are `bs`.
pub open spec fn le_values(bs: Seq<Seq<u8>>) -> Seq<nat> {
    bs.map_values(|b: Seq<u8>| le_value(b))
}

/// The ark-serialize encoding of the scalars of `c` whose integers have the
/// little-endian bytes `values`.
pub fn encode_scalars(c: Curve, values: &Vec<Vec<u8>>) -> (r: Vec<u8>)
    ensures
        scalars_layout(c, le_values(byte_views(values@)), r@),
{
    let n = values.len();
    let mut out = ark_u64_bytes(n as u64);
    assert(out@.take(8) =~= out@);
    let mut i: usize = 0;
    while i < n
        invariant
            i <= n,
            n == values@.len(),
            out@.len() == 8 + 32 * i,
            le_value(out@.take(8)) == n,
            forall|j: int|
                0 <= j < i ==> #[trigger] le_value(bytes_at(out@, 8 + 32 * j, 32)) == le_value(
                    values@[j]@,
                ) % fr_modulus(c),
        decreases n - i,
    {
        let mut e = fr_from_le(c, values[i].as_slice());
        let ghost before = out@;
        let ghost added = e@;
        out.append(&mut e);
        proof {
            assert(out@.take(8) =~= before.take(8));
            assert forall|j: int| 0 <= j < i + 1 implies #[trigger] le_value(
                bytes_at(out@, 8 + 32 * j, 32),
            ) == le_value(values@[j]@) % fr_modulus(c) by {
                if j < i {
                    assert(bytes_at(out@, 8 + 32 * j, 32) =~= bytes_at(before, 8 + 32 * j, 32));
                } else {
                    assert(bytes_at(out@, 8 + 32 * j, 32) =~= added);
                }
            }
        }
        i = i + 1;
    }
    proof {
        assert forall|j: int|
            #![trigger le_values(byte_views(values@))[j]]
            0 <= j < le_values(byte_views(values@)).len() implies le_value(
                bytes_at(out@, 8 + 32 * j, 32),
            ) == le_values(byte_views(values@))[j] % fr_modulus(c) by {
            assert(le_value(bytes_at(out@, 8 + 32 * j, 32)) == le_value(values@[j]@) % fr_modulus(c));
        }
    }
    out
}

/// `s` is the plain decimal (no sign, no leading zero) of an integer.
pub open spec fn plain_decimal(s: Seq<char>) -> bool {
    exists|n: nat| #[trigger] decimal(n) == s
}

/// Every string of `inputs` is a plain decimal.
pub open spec fn all_plain(inputs: Seq<String>) -> bool {
    forall|i: int| 0 <= i < inputs.len() ==> plain_decimal((#[trigger] inputs[i])@)
}

/// Every string of `inputs` is a decimal that `BigUint::from_str` reads.
pub open spec fn all_decimals(inputs: Seq<String>) -> bool {
    forall|i: int|
        0 <= i < inputs.len() ==> (#[trigger] biguint_from_str_value(inputs[i]@)) is Some
}

/// The integers that `BigUint::from_str` reads from `inputs`.
pub open spec fn decimal_values(inputs: Seq<String>) -> Seq<nat> {
    inputs.map_values(|s: String| biguint_from_str_value(s@)->0)
}

fn parse_decimals(inputs: &Vec<String>) -> (r: Option<Vec<Vec<u8>>>)
    ensures
        r is Some <==> all_decimals(inputs@),
        r matches Some(v) ==> le_values(byte_views(v@)) == decimal_values(inputs@),
{
    let mut v: Vec<Vec<u8>> = Vec::new();
    let mut i: usize = 0;
    while i < inputs.len()
        invariant
            i <= inputs@.len(),
            v@.len() == i,
            forall|j: int| 0 <= j < i ==> (#[trigger] biguint_from_str_value(inputs@[j]@)) is Some,
            forall|j: int|
                0 <= j < i ==> Some(le_value(#[trigger] v@[j]@)) == biguint_from_str_value(
                    inputs@[j]@,
                ),
        decreases inputs@.len() - i,
    {
        match biguint_le_from_str(inputs[i].as_str()) {
            Some(b) => {
                v.push(b);
            },
            None => {
                return None;
            },
        }
        i = i + 1;
    }
    assert(le_values(byte_views(v@)) =~= decimal_values(inputs@));
    Some(v)
}

/// Every plain decimal is read by `BigUint::from_str`.
proof fn lemma_plain_decimals_parse(inputs: Seq<String>)
    requires
        all_plain(inputs),
    ensures
        all_decimals(inputs),
{
    assert forall|i: int| 0 <= i < inputs.len() implies (#[trigger] biguint_from_str_value(
        inputs[i]@,
    )) is Some by {
        assert(plain_decimal(inputs[i]@));
        let n = choose|n: nat| #[trigger] decimal(n) == inputs[i]@;
        lemma_plain_decimal_reads_back(n);
    }
}

/// What converting the decimal public inputs `inputs` for the curve named
/// `curve` gives: an error for an unknown curve, else their ark-serialize
/// encoding as scalars of that curve.
pub open spec fn inputs_from_decimals(
    inputs: Seq<String>,
    curve: Seq<char>,
    r: Result<Vec<u8>, EthereumError>,
) -> bool {
    match curve_named(curve) {
        None => r == Err::<Vec<u8>, EthereumError>(EthereumError::UnsupportedCurve),
        Some(c) => r matches Ok(out) && scalars_layout(c, decimal_values(inputs), out@),
    }
}

/// The public inputs given as decimals, encoded as the scalars of the curve
/// named `curve` the way ark-serialize writes a vector of them.
pub fn from_ethereum_inputs(inputs: &Vec<String>, curve: &str) -> (r: Result<
    Vec<u8>,
    EthereumError,
>)
    requires
        all_decimals(inputs@),
    ensures
        inputs_from_decimals(inputs@, curve@, r),
{
    let values = parse_decimals(inputs).unwrap();
    match curve_from_name(curve) {
        Some(c) => Ok(encode_scalars(c, &values)),
        None => Err(EthereumError::UnsupportedCurve),
    }
}

/// `from_ethereum_inputs` on any strings: `None` where one of them is not a
/// decimal, else the conversion's result.
pub fn from_ethereum_inputs_checked(inputs: &Vec<String>, curve: &str) -> (r: Option<
    Result<Vec<u8>, EthereumError>,
>)
    ensures
        r is None <==> !all_decimals(inputs@),
        r matches Some(res) ==> inputs_from_decimals(inputs@, curve@, res),
        all_plain(inputs@) ==> r is Some,
{
    proof {
        if all_plain(inputs@) {
            lemma_plain_decimals_parse(inputs@);
        }
    }
    if parse_decimals(inputs).is_some() {
        Some(from_ethereum_inputs(inputs, curve))
    } else {
        None
    }
}


/// The integer stored little-endian in the `i`-th 32-byte scalar after the
/// eight-byte count of `data`.
pub open spec fn scalar_at(data: Seq<u8>, i: int) -> nat {
    le_value(bytes_at(data, 8 + 32 * i, 32))
}

/// `data` is an ark-serialize vector of scalars of `c`: an eight-byte count,
/// then that many 32-byte integers, each below the order of the field.
pub open spec fn scalars_readable(data: Seq<u8>, c: Curve) -> bool {
    &&& data.len() >= 8
    &&& 8 + 32 * le_u64(data) <= data.len()
    &&& forall|i: int| 0 <= i < le_u64(data) ==> #[trigger] scalar_at(data, i) < fr_modulus(c)
}

/// Reads the BN254 scalar in `raw` with `ark_bn254::Fr::deserialize_uncompressed`
/// and prints it through `BigUint::from` and `to_string`: the decimal of the
/// little-endian integer `raw`, or `None` (`InvalidData`) where that integer
/// is not below the order.
#[verifier::external_body]
fn bn254_fr_decimal(raw: &[u8]) -> (r: Option<String>)
    requires
        raw@.len() == 32,
    ensures
        match r {
            Some(d) => le_value(raw@) < fr_modulus(Curve::Bn254) && d@ == decimal(le_value(raw@)),
            None => le_value(raw@) >= fr_modulus(Curve::Bn254),
        },
{
    match ark_bn254::Fr::deserialize_uncompressed(raw) {
        Ok(f) => Some(BigUint::from(f).to_string()),
        Err(_) => None,
    }
}

/// As `bn254_fr_decimal`, with `ark_bls12_381::Fr`.
#[verifier::external_body]
fn bls12_381_fr_decimal(raw: &[u8]) -> (r: Option<String>)
    requires
        raw@.len() == 32,
    ensures
        match r {
            Some(d) => le_value(raw@) < fr_modulus(Curve::Bls12_381) && d@ == decimal(
                le_value(raw@),
            ),
            None => le_value(raw@) >= fr_modulus(Curve::Bls12_381),
        },
{
    match ark_bls12_381::Fr::deserialize_uncompressed(raw) {
        Ok(f) => Some(BigUint::from(f).to_string()),
        Err(_) => None,
    }
}

fn fr_decimal(c: Curve, raw: &[u8]) -> (r: Option<String>)
    requires
        raw@.len() == 32,
    ensures
        match r {
            Some(d) => le_value(raw@) < fr_modulus(c) && d@ == decimal(le_value(raw@)),
            None => le_value(raw@) >= fr_modulus(c),
        },
{
    match c {
        Curve::Bn254 => bn254_fr_decimal(raw),
        Curve::Bls12_381 => bls12_381_fr_decimal(raw),
    }
}

/// What reading the encoded public inputs `data` for the curve named `curve`
/// gives: an error for an unknown curve, else the decimals of the scalars.
pub open spec fn decimals_from_scalars(
    data: Seq<u8>,
    curve: Seq<char>,
    r: Result<Vec<String>, EthereumError>,
) -> bool {
    match curve_named(curve) {
        None => r == Err::<Vec<String>, EthereumError>(EthereumError::UnsupportedCurve),
        Some(c) => r matches Ok(v) && v@.len() == le_u64(data) && forall|i: int|
            0 <= i < v@.len() ==> #[trigger] v@[i]@ == decimal(scalar_at(data, i)),
    }
}

/// The decimals of the scalars of `c` that `data` encodes, or `None` where
/// `data` is not such an encoding.
fn read_scalars(data: &[u8], c: Curve) -> (r: Option<Vec<String>>)
    ensures
        r is Some <==> scalars_readable(data@, c),
        r matches Some(v) ==> v@.len() == le_u64(data@) && forall|i: int|
            0 <= i < v@.len() ==> #[trigger] v@[i]@ == decimal(scalar_at(data@, i)),
{
    let n = match read_u64_at(data, 0) {
        Some(n) => n,
        None => {
            return None;
        },
    };
    assert(bytes_at(data@, 0, 8).take(8) =~= data@.take(8));
    assert(n == le_u64(data@));
    let len: usize = data.len();
    if n > ((len - 8) / 32) as u64 {
        return None;
    }
    assert(8 + 32 * le_u64(data@) <= data@.len());
    let mut out: Vec<String> = Vec::new();
    let mut i: u64 = 0;
    while i < n
        invariant
            len == data@.len(),
            i <= n,
            n == le_u64(data@),
            8 + 32 * n <= len,
            out@.len() == i,
            forall|j: int| 0 <= j < i ==> #[trigger] scalar_at(data@, j) < fr_modulus(c),
            forall|j: int| 0 <= j < i ==> #[trigger] out@[j]@ == decimal(scalar_at(data@, j)),
        decreases n - i,
    {
        assert(32 * (i as int) + 32 <= 32 * (n as int));
        let iu: usize = i as usize;
        let p: usize = 8 + 32 * iu;
        let raw = slice_subrange(data, p, p + 32);
        assert(raw@ =~= bytes_at(data@, 8 + 32 * i, 32));
        match fr_decimal(c, raw) {
            Some(d) => {
                out.push(d);
            },
            None => {
                assert(!(scalar_at(data@, i as int) < fr_modulus(c)));
                return None;
            },
        }
        i = i + 1;
    }
    Some(out)
}

/// The public inputs encoded as an ark-serialize vector of scalars of the
/// curve named `curve`, as the decimals the Solidity verifier takes; an
/// unknown curve is refused before the bytes are read.
pub fn to_ethereum_inputs(inputs: &[u8], curve: &str) -> (r: Result<Vec<String>, EthereumError>)
    requires
        curve_named(curve@) matches Some(c) ==> scalars_readable(inputs@, c),
    ensures
        decimals_from_scalars(inputs@, curve@, r),
{
    match curve_from_name(curve) {
        Some(c) => Ok(read_scalars(inputs, c).unwrap()),
        None => Err(EthereumError::UnsupportedCurve),
    }
}

/// `to_ethereum_inputs` on any bytes: `None` where the curve is known and the
/// bytes do not encode scalars of it, else the conversion's result.
pub fn to_ethereum_inputs_checked(inputs: &[u8], curve: &str) -> (r: Option<
    Result<Vec<String>, EthereumError>,
>)
    ensures
        r is None <==> (curve_named(curve@) matches Some(c) && !scalars_readable(inputs@, c)),
        r matches Some(res) ==> decimals_from_scalars(inputs@, curve@, res),
{
    match curve_from_name(curve) {
        Some(c) => match read_scalars(inputs, c) {
            Some(v) => Some(Ok(v)),
            None => None,
        },
        None => Some(Err(EthereumError::UnsupportedCurve)),
    }
}

proof fn lemma_le_value_injective(a: Seq<u8>, b: Seq<u8>)
    requires
        a.len() == b.len(),
        le_value(a) == le_value(b),
    ensures
        a == b,
    decreases a.len(),
{
    if a.len() > 0 {
        let x = le_value(a.drop_first());
        let y = le_value(b.drop_first());
        assert(a[0] == b[0] && x == y) by (nonlinear_arith)
            requires
                a[0] + 256 * x == b[0] + 256 * y,
                0 <= a[0] < 256,
                0 <= b[0] < 256,
                x >= 0,
                y >= 0,
        ;
        lemma_le_value_injective(a.drop_first(), b.drop_first());
        assert forall|k: int| 0 <= k < a.len() implies a[k] == b[k] by {
            if k > 0 {
                assert(a.drop_first()[k - 1] == a[k]);
                assert(b.drop_first()[k - 1] == b[k]);
            }
        }
        assert(a =~= b);
    }
}

proof fn lemma_blocks_agree(a: Seq<u8>, b: Seq<u8>, m: int)
    requires
        0 <= m,
        8 + 32 * m <= a.len(),
        8 + 32 * m <= b.len(),
        a.take(8) == b.take(8),
        forall|i: int| 0 <= i < m ==> #[trigger] bytes_at(a, 8 + 32 * i, 32) == bytes_at(b, 8 + 32 * i, 32),
    ensures
        a.take(8 + 32 * m) == b.take(8 + 32 * m),
    decreases m,
{
    if m > 0 {
        let k = m - 1;
        lemma_blocks_agree(a, b, k);
        assert(bytes_at(a, 8 + 32 * k, 32) == bytes_at(b, 8 + 32 * k, 32));
        assert(a.take(8 + 32 * m) =~= a.take(8 + 32 * k) + bytes_at(a, 8 + 32 * k, 32));
        assert(b.take(8 + 32 * m) =~= b.take(8 + 32 * k) + bytes_at(b, 8 + 32 * k, 32));
    }
}

/// Reading encoded public inputs as decimals (`to_ethereum_inputs`) and
/// writing those decimals back (`from_ethereum_inputs`) gives the encoding
/// again, up to the last scalar.
pub proof fn lemma_inputs_round_trip(
    data: Seq<u8>,
    curve: Seq<char>,
    read: Result<Vec<String>, EthereumError>,
    written: Result<Vec<u8>, EthereumError>,
)
    requires
        curve_named(curve) matches Some(c) && scalars_readable(data, c),
        decimals_from_scalars(data, curve, read),
        read matches Ok(v) && inputs_from_decimals(v@, curve, written),
    ensures
        written matches Ok(out) && out@ == data.take(8 + 32 * le_u64(data)),
{
    let c = curve_named(curve)->0;
    let v = read->Ok_0;
    let out = written->Ok_0@;
    let n = le_u64(data);
    let values = decimal_values(v@);
    assert forall|i: int| 0 <= i < n implies #[trigger] bytes_at(out, 8 + 32 * i, 32) == bytes_at(
        data,
        8 + 32 * i,
        32,
    ) by {
        assert(v@[i]@ == decimal(scalar_at(data, i)));
        lemma_plain_decimal_reads_back(scalar_at(data, i));
        assert(values[i] == scalar_at(data, i));
        assert(scalar_at(data, i) < fr_modulus(c));
        assert(le_value(bytes_at(out, 8 + 32 * i, 32)) == values[i] % fr_modulus(c));
        lemma_le_value_injective(bytes_at(out, 8 + 32 * i, 32), bytes_at(data, 8 + 32 * i, 32));
    }
    lemma_le_value_bound(data.take(8));
    assert(pow256(8) == 0x1_0000_0000_0000_0000) by {
        reveal_with_fuel(pow256, 9);
    }
    assert(le_value(out.take(8)) == le_value(data.take(8)));
    lemma_le_value_injective(out.take(8), data.take(8));
    lemma_blocks_agree(out, data, n as int);
    assert(out =~= out.take(8 + 32 * n));
}

/// Writing plain decimals of scalars (`from_ethereum_inputs`) gives bytes
/// that `to_ethereum_inputs` accepts, and reading them gives the same
/// decimals back.
pub proof fn lemma_decimals_round_trip(
    inputs: Seq<String>,
    values: Seq<nat>,
    curve: Seq<char>,
    written: Result<Vec<u8>, EthereumError>,
    read: Result<Vec<String>, EthereumError>,
)
    requires
        curve_named(curve) is Some,
        inputs.len() == values.len(),
        forall|i: int|
            0 <= i < inputs.len() ==> #[trigger] inputs[i]@ == decimal(values[i]) && values[i]
                < fr_modulus(curve_named(curve)->0),
        inputs_from_decimals(inputs, curve, written),
        written matches Ok(out) ==> decimals_from_scalars(out@, curve, read),
    ensures
        written matches Ok(out) && scalars_readable(out@, curve_named(curve)->0),
        read matches Ok(back) && string_views(back@) == string_views(inputs),
{
    let c = curve_named(curve)->0;
    let out = written->Ok_0@;
    let vals = decimal_values(inputs);
    lemma_le_value_bound(out.take(8));
    assert(pow256(8) == 0x1_0000_0000_0000_0000) by {
        reveal_with_fuel(pow256, 9);
    }
    assert(le_u64(out) == inputs.len());
    assert forall|i: int| 0 <= i < inputs.len() implies #[trigger] scalar_at(out, i) == values[i] by {
        assert(inputs[i]@ == decimal(values[i]));
        lemma_plain_decimal_reads_back(values[i]);
        assert(vals[i] == values[i]);
        assert(le_value(bytes_at(out, 8 + 32 * i, 32)) == vals[i] % fr_modulus(c));
    }
    assert forall|i: int| 0 <= i < le_u64(out) implies #[trigger] scalar_at(out, i) < fr_modulus(
        c,
    ) by {
        assert(inputs[i]@ == decimal(values[i]));
        assert(scalar_at(out, i) == values[i]);
    }
    assert(scalars_readable(out, c));
    let back = read->Ok_0;
    assert(string_views(back@) =~= string_views(inputs));
}

/// The coordinates of `p` are plain decimals of elements of the base field of
/// `c`, and its G2 coordinates have two components each.
pub open spec fn plain_proof(p: CircomProof, c: Curve) -> bool {
    &&& plain_fq(c, p.a.x@)
    &&& plain_fq(c, p.a.y@)
    &&& plain_fq(c, p.c.x@)
    &&& plain_fq(c, p.c.y@)
    &&& p.b.x@.len() == 2
    &&& p.b.y@.len() == 2
    &&& forall|i: int| 0 <= i < 2 ==> plain_fq(c, #[trigger] p.b.x@[i]@)
    &&& forall|i: int| 0 <= i < 2 ==> plain_fq(c, #[trigger] p.b.y@[i]@)
}

/// Turning a proof into calldata (`to_ethereum_proof`) and back
/// (`from_ethereum_proof`) keeps its coordinates.
pub proof fn lemma_proof_round_trip(
    p: CircomProof,
    curve: Seq<char>,
    calldata: ProofCalldata,
    back: Result<CircomProof, EthereumError>,
)
    requires
        curve_named(curve) matches Some(c) && plain_proof(p, c),
        calldata_g1(calldata.a, p.a),
        calldata_g2(calldata.b, p.b),
        calldata_g1(calldata.c, p.c),
        proof_from_calldata(calldata, curve, back),
    ensures
        back matches Ok(q) && q.a.x@ == p.a.x@ && q.a.y@ == p.a.y@ && q.c.x@ == p.c.x@ && q.c.y@
            == p.c.y@ && string_views(q.b.x@) == string_views(p.b.x@) && string_views(q.b.y@)
            == string_views(p.b.y@),
{
    let c = curve_named(curve)->0;
    let q = back->Ok_0;
    assert(string_views(calldata.b.x@).len() == calldata.b.x@.len());
    assert(string_views(calldata.b.y@).len() == calldata.b.y@.len());
    assert(string_views(p.b.x@).len() == 2);
    assert(string_views(p.b.y@).len() == 2);
    assert(string_views(calldata.b.x@)[0] == calldata.b.x@[0]@);
    assert(string_views(calldata.b.x@)[1] == calldata.b.x@[1]@);
    assert(string_views(calldata.b.y@)[0] == calldata.b.y@[0]@);
    assert(string_views(calldata.b.y@)[1] == calldata.b.y@[1]@);
    assert(string_views(p.b.x@)[0] == p.b.x@[0]@);
    assert(string_views(p.b.x@)[1] == p.b.x@[1]@);
    assert(string_views(p.b.y@)[0] == p.b.y@[0]@);
    assert(string_views(p.b.y@)[1] == p.b.y@[1]@);
    assert(plain_fq(c, p.b.x@[0]@) && plain_fq(c, p.b.x@[1]@));
    assert(plain_fq(c, p.b.y@[0]@) && plain_fq(c, p.b.y@[1]@));
    assert(string_views(q.b.x@) =~= string_views(p.b.x@));
    assert(string_views(q.b.y@) =~= string_views(p.b.y@));
}

} // verus!
