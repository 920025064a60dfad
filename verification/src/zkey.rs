//! Reading snarkjs `.zkey` files.
//!
//! A zkey file starts with a four-byte magic string, a `u32` version and a
//! `u32` section count, followed by the sections, each introduced by a `u32`
//! id and a `u64` length:
//!
//! - `1` header: the prover type (`1` for Groth16);
//! - `2` Groth16 header: `n8q`, `q`, `n8r`, `r`, `NVars`, `NPub`, `DomainSize`,
//!   then `alpha1`, `beta1`, `beta2`, `gamma2`, `delta1`, `delta2`;
//! - `3` IC, `4` coefficients, `5` points A, `6` points B1, `7` points B2,
//!   `8` points C, `9` points H, `10` contributions.
//!
//! Field elements are kept as the little-endian bytes stored in the file
//! (base-field coordinates are stored in Montgomery form); scalar-field
//! coefficients are converted with the curve library.

use crate::bytes::{bytes_at, fits, le_u32, le_u64, le_value, read_u32_at, read_u64_at};
use ark_ff::{BigInteger, BigInteger256, PrimeField};
use ark_serialize::CanonicalDeserialize;
use std::collections::HashMap;
use vstd::prelude::*;
use vstd::slice::{slice_subrange, slice_to_vec};
use vstd::utf8::{decode_utf8, valid_utf8};

verus! {

/// The pairing-friendly curve a zkey was produced for.
#[derive(Debug, Clone, Copy, PartialEq, Eq, Structural)]
pub enum Curve {
    Bn254,
    Bls12_381,
}

impl Curve {
    /// Bytes of one base-field element.
    pub open spec fn spec_fq_len(self) -> nat {
        match self {
            Curve::Bn254 => 32,
            Curve::Bls12_381 => 48,
        }
    }

    /// Bytes of one base-field element.
    pub fn fq_len(&self) -> (r: usize)
        ensures
            r == self.spec_fq_len(),
    {
        match self {
            Curve::Bn254 => 32,
            Curve::Bls12_381 => 48,
        }
    }
}

/// Why a zkey could not be read.
#[derive(Debug, Clone, Copy, PartialEq, Eq, Structural)]
pub enum ZkeyError {
    /// A read went past the end of the file.
    UnexpectedEof,
    /// A section length moved the read position below zero or past `u64::MAX`.
    InvalidSeek,
}

/// One section of the file: its id, where its contents start and its length.
#[derive(Debug, Clone, Copy, PartialEq, Eq, Structural)]
pub struct Section {
    pub id: u32,
    pub position: u64,
    pub size: u64,
}

/// The position reached by seeking `len` bytes forward from `pos`, the length
/// taken as a signed 64-bit offset; `None` when it falls below zero or past
/// `u64::MAX`.
pub open spec fn seek_forward(pos: int, len: u64) -> Option<int> {
    let off: int = if len < 0x8000_0000_0000_0000u64 {
        len as int
    } else {
        len - 0x1_0000_0000_0000_0000int
    };
    if 0 <= pos + off <= u64::MAX {
        Some(pos + off)
    } else {
        None
    }
}

/// The `count` section entries found from `pos` on, each header followed by a
/// skip over the section's contents.
pub open spec fn section_table(data: Seq<u8>, pos: int, count: nat) -> Result<
    Seq<Section>,
    ZkeyError,
>
    decreases count,
{
    if count == 0 {
        Ok(Seq::empty())
    } else if !fits(data.len(), pos, 12) {
        Err(ZkeyError::UnexpectedEof)
    } else {
        let id = le_u32(bytes_at(data, pos, 4));
        let len = le_u64(bytes_at(data, pos + 4, 8));
        let start = pos + 12;
        match seek_forward(start, len) {
            None => Err(ZkeyError::InvalidSeek),
            Some(next) => match section_table(data, next, (count - 1) as nat) {
                Ok(rest) => Ok(seq![Section { id, position: start as u64, size: len }] + rest),
                Err(e) => Err(e),
            },
        }
    }
}

/// A section table read from `pos` has one entry per announced section; the
/// first section's contents start right after its 12-byte header, and each
/// later one right after the header that follows the previous section's
/// contents (for lengths below `2^63`, which seek forward).
pub proof fn lemma_sections_back_to_back(data: Seq<u8>, pos: int, count: nat)
    requires
        section_table(data, pos, count) is Ok,
        data.len() <= u64::MAX,
    ensures
        ({
            let s = section_table(data, pos, count)->Ok_0;
            &&& s.len() == count
            &&& count > 0 ==> s[0].position == pos + 12
            &&& forall|i: int|
                0 <= i < count - 1 && (#[trigger] s[i]).size < 0x8000_0000_0000_0000u64 ==> s[i
                    + 1].position == s[i].position + s[i].size + 12
        }),
    decreases count,
{
    if count > 0 {
        let len = le_u64(bytes_at(data, pos + 4, 8));
        let next = seek_forward(pos + 12, len)->0;
        lemma_sections_back_to_back(data, next, (count - 1) as nat);
        let s = section_table(data, pos, count)->Ok_0;
        let rest = section_table(data, next, (count - 1) as nat)->Ok_0;
        assert forall|i: int|
            0 <= i < count - 1 && (#[trigger] s[i]).size < 0x8000_0000_0000_0000u64 implies s[i
            + 1].position == s[i].position + s[i].size + 12 by {
            if i > 0 {
                assert(s[i] == rest[i - 1]);
                assert(s[i + 1] == rest[i]);
            } else {
                assert(s[1] == rest[0]);
                assert(s[0].size == len);
                assert(s[0].position == pos + 12);
            }
        }
    }
}

/// The version and the section entries of a zkey file, in file order.
pub open spec fn file_layout(data: Seq<u8>) -> Result<(u32, Seq<Section>), ZkeyError> {
    if data.len() < 12 {
        Err(ZkeyError::UnexpectedEof)
    } else {
        match section_table(data, 12, le_u32(bytes_at(data, 8, 4)) as nat) {
            Ok(s) => Ok((le_u32(bytes_at(data, 4, 4)), s)),
            Err(e) => Err(e),
        }
    }
}

/// The entries of the section table `table` with the id `id`, in file order.
pub open spec fn sections_with_id(table: Seq<Section>, id: u32) -> Seq<Section>
    decreases table.len(),
{
    if table.len() == 0 {
        Seq::empty()
    } else if table.last().id == id {
        sections_with_id(table.drop_last(), id).push(table.last())
    } else {
        sections_with_id(table.drop_last(), id)
    }
}

/// `m` maps each id of the section table `table` to its entries, in file
/// order, and holds no other id.
pub open spec fn groups_table(m: Map<u32, Vec<Section>>, table: Seq<Section>) -> bool {
    forall|id: u32|
        #![trigger m.contains_key(id)]
        #![trigger sections_with_id(table, id)]
        (m.contains_key(id) <==> sections_with_id(table, id).len() > 0) && (m.contains_key(id)
            ==> m[id]@ == sections_with_id(table, id))
}

/// A zkey file held in memory, with its sections grouped by id.
pub struct BinFile {
    pub ftype: String,
    pub version: u32,
    pub sections: HashMap<u32, Vec<Section>>,
    pub data: Vec<u8>,
    pub curve: Curve,
}

impl BinFile {
    /// The first section with the id `id`.
    pub open spec fn section_first(self, id: u32) -> Option<Section> {
        if self.sections@.contains_key(id) && self.sections@[id]@.len() > 0 {
            Some(self.sections@[id]@[0])
        } else {
            None
        }
    }
}

/// The entries of the section table `table` grouped by id.
pub fn group_sections(table: &Vec<Section>) -> (m: HashMap<u32, Vec<Section>>)
    ensures
        groups_table(m@, table@),
{
    broadcast use vstd::std_specs::hash::group_hash_axioms;

    let mut m: HashMap<u32, Vec<Section>> = HashMap::new();
    let mut i: usize = 0;
    assert(table@.take(0) =~= Seq::<Section>::empty());
    while i < table.len()
        invariant
            i <= table@.len(),
            groups_table(m@, table@.take(i as int)),
        decreases table@.len() - i,
    {
        let e = table[i];
        let ghost before = m@;
        let mut v = match m.remove(&e.id) {
            Some(v) => v,
            None => Vec::new(),
        };
        v.push(e);
        m.insert(e.id, v);
        proof {
            let t = table@.take(i + 1);
            assert(t.drop_last() =~= table@.take(i as int));
            assert(t.last() == e);
            assert forall|id: u32|
                #![trigger m@.contains_key(id)]
                #![trigger sections_with_id(t, id)]
                (m@.contains_key(id) <==> sections_with_id(t, id).len() > 0) && (m@.contains_key(
                    id,
                ) ==> m@[id]@ == sections_with_id(t, id)) by {
                if id == e.id {
                    if before.contains_key(id) {
                        assert(m@[id]@ =~= before[id]@.push(e));
                    } else {
                        assert(sections_with_id(table@.take(i as int), id).len() == 0);
                        assert(m@[id]@ =~= seq![e]);
                        assert(sections_with_id(t, id) =~= seq![e]);
                    }
                } else {
                    assert(m@.contains_key(id) == before.contains_key(id));
                }
            }
        }
        i = i + 1;
    }
    assert(table@.take(i as int) =~= table@);
    m
}

/// The result of `section_table` with `done` put in front of its entries.
pub open spec fn prepend(done: Seq<Section>, r: Result<Seq<Section>, ZkeyError>) -> Result<
    Seq<Section>,
    ZkeyError,
> {
    match r {
        Ok(rest) => Ok(done + rest),
        Err(e) => Err(e),
    }
}

/// The string made of the UTF-8 bytes `bytes`, or `None` when they are not
/// valid UTF-8: `std::str::from_utf8`, whose documentation states that it
/// fails exactly on invalid UTF-8.
#[verifier::external_body]
fn utf8_string(bytes: &[u8]) -> (r: Option<String>)
    ensures
        r is Some <==> valid_utf8(bytes@),
        r matches Some(s) ==> s@ == decode_utf8(bytes@),
{
    match std::str::from_utf8(bytes) {
        Ok(s) => Some(s.to_string()),
        Err(_) => None,
    }
}

/// The version and section table of the zkey `data`.
pub fn section_layout(data: &[u8]) -> (r: Result<(u32, Vec<Section>), ZkeyError>)
    ensures
        match r {
            Ok((version, sections)) => file_layout(data@) == Ok::<(u32, Seq<Section>), ZkeyError>(
                (version, sections@),
            ),
            Err(e) => file_layout(data@) == Err::<(u32, Seq<Section>), ZkeyError>(e),
        },
{
    let len: usize = data.len();
    if len < 12 {
        return Err(ZkeyError::UnexpectedEof);
    }
    let version: u32 = read_u32_at(data, 4).unwrap();
    let num_sections: u32 = read_u32_at(data, 8).unwrap();
    let mut sections: Vec<Section> = Vec::new();
    let mut pos: u64 = 12;
    let mut i: u32 = 0;
    while i < num_sections
        invariant
            i <= num_sections,
            len == data@.len(),
            data@.len() >= 12,
            num_sections == le_u32(bytes_at(data@, 8, 4)),
            section_table(data@, 12, num_sections as nat) == prepend(
                sections@,
                section_table(data@, pos as int, (num_sections - i) as nat),
            ),
        decreases num_sections - i,
    {
        if pos > u64::MAX - 4 {
            return Err(ZkeyError::UnexpectedEof);
        }
        let id: u32 = match read_u32_at(data, pos) {
            Some(v) => v,
            None => {
                return Err(ZkeyError::UnexpectedEof);
            },
        };
        let len_field: u64 = match read_u64_at(data, pos + 4) {
            Some(v) => v,
            None => {
                return Err(ZkeyError::UnexpectedEof);
            },
        };
        assert(pos + 12 <= len);
        let start: u64 = pos + 12;
        let next: u64;
        if len_field < 0x8000_0000_0000_0000u64 {
            if start > u64::MAX - len_field {
                return Err(ZkeyError::InvalidSeek);
            }
            next = start + len_field;
        } else {
            let back: u64 = (u64::MAX - len_field) + 1;
            if start < back {
                return Err(ZkeyError::InvalidSeek);
            }
            next = start - back;
        }
        let ghost old_sections = sections@;
        let entry = Section { id, position: start, size: len_field };
        sections.push(entry);
        assert forall|rest: Seq<Section>|
            #![trigger sections@ + rest]
            old_sections + (seq![entry] + rest) == sections@ + rest by {
            assert(old_sections + (seq![entry] + rest) =~= sections@ + rest);
        }
        pos = next;
        i = i + 1;
    }
    proof {
        assert(section_table(data@, pos as int, 0) == Ok::<Seq<Section>, ZkeyError>(
            Seq::empty(),
        ));
        assert(sections@ + Seq::<Section>::empty() =~= sections@);
    }
    Ok((version, sections))
}

impl BinFile {
    /// Reads the magic, version and section table of `data`.
    pub fn new(data: Vec<u8>, curve: Curve) -> (r: Result<BinFile, ZkeyError>)
        requires
            file_layout(data@) is Ok ==> valid_utf8(data@.take(4)),
        ensures
            match r {
                Ok(f) => {
                    &&& file_layout(data@) matches Ok((v, table))
                    &&& f.version == v
                    &&& groups_table(f.sections@, table)
                    &&& f.data@ == data@
                    &&& f.curve == curve
                    &&& f.ftype@ == decode_utf8(data@.take(4))
                },
                Err(e) => file_layout(data@) == Err::<(u32, Seq<Section>), ZkeyError>(e),
            },
    {
        let (version, table) = match section_layout(data.as_slice()) {
            Ok(v) => v,
            Err(e) => {
                return Err(e);
            },
        };
        let magic = slice_subrange(data.as_slice(), 0, 4);
        assert(data@.take(4) =~= data@.subrange(0, 4));
        let ftype = match utf8_string(magic) {
            Some(s) => s,
            None => {
                proof {
                    assert(false);
                }
                return Err(ZkeyError::UnexpectedEof);
            },
        };
        let sections = group_sections(&table);
        Ok(BinFile { ftype, version, sections, data, curve })
    }

    /// Whether the file has a section with the id `id`.
    pub fn has_section(&self, id: u32) -> (r: bool)
        ensures
            r == self.section_first(id) is Some,
    {
        broadcast use vstd::std_specs::hash::group_hash_axioms;

        match self.sections.get(&id) {
            Some(v) => v.len() > 0,
            None => false,
        }
    }
}

/// The canonical little-endian bytes of the BN254 scalar that a zkey stores
/// as the 32 bytes `raw` (snarkjs stores coefficients multiplied by `R^2`).
pub uninterp spec fn zkey_fr_bn254(raw: Seq<u8>) -> Seq<u8>;

/// The canonical little-endian bytes of the BLS12-381 scalar that a zkey
/// stores as the 32 bytes `raw`.
pub uninterp spec fn zkey_fr_bls12_381(raw: Seq<u8>) -> Seq<u8>;

/// The canonical bytes of the scalar of `curve` stored as `raw`.
pub open spec fn zkey_fr(curve: Curve, raw: Seq<u8>) -> Seq<u8> {
    match curve {
        Curve::Bn254 => zkey_fr_bn254(raw),
        Curve::Bls12_381 => zkey_fr_bls12_381(raw),
    }
}

/// Reads `raw` with `BigInteger256::deserialize_uncompressed`, takes it as the
/// Montgomery form of a BN254 scalar twice over (`Fr::new_unchecked`, then
/// `PrimeField::into_bigint`, then `Fr::new_unchecked` again), and returns the
/// result's canonical bytes (`into_bigint`, `BigInteger::to_bytes_le`). The
/// contract names the result; it depends on `raw` alone.
#[verifier::external_body]
fn fr_bytes_bn254(raw: &[u8]) -> (r: Vec<u8>)
    requires
        raw@.len() == 32,
    ensures
        r@ == zkey_fr_bn254(raw@),
{
    let repr = BigInteger256::deserialize_uncompressed(raw).unwrap();
    let fr = ark_bn254::Fr::new_unchecked(ark_bn254::Fr::new_unchecked(repr).into_bigint());
    fr.into_bigint().to_bytes_le()
}

/// As `fr_bytes_bn254`, with the BLS12-381 scalar field (`ark_bls12_381::Fr`).
#[verifier::external_body]
fn fr_bytes_bls12_381(raw: &[u8]) -> (r: Vec<u8>)
    requires
        raw@.len() == 32,
    ensures
        r@ == zkey_fr_bls12_381(raw@),
{
    let repr = BigInteger256::deserialize_uncompressed(raw).unwrap();
    let fr = ark_bls12_381::Fr::new_unchecked(
        ark_bls12_381::Fr::new_unchecked(repr).into_bigint(),
    );
    fr.into_bigint().to_bytes_le()
}

/// The `u32` at the start of `bytes`, read with ark-serialize's
/// `u32::deserialize_uncompressed_unchecked`, which reads four bytes with
/// `read_exact` and decodes them with `u32::from_le_bytes`; `None` when fewer
/// than four bytes are there.
#[verifier::external_body]
fn ark_read_u32(bytes: &[u8]) -> (r: Option<u32>)
    ensures
        r == (if bytes@.len() >= 4 {
            Some(le_value(bytes@.take(4)) as u32)
        } else {
            None::<u32>
        }),
{
    u32::deserialize_uncompressed_unchecked(bytes).ok()
}

/// Whether every byte of `s` is zero.
pub open spec fn all_zero(s: Seq<u8>) -> bool {
    forall|i: int| 0 <= i < s.len() ==> s[i] == 0
}

/// A point of G1 as a zkey stores it: the bytes of its two coordinates. Both
/// zero stands for the point at infinity.
#[derive(Debug, Clone, PartialEq, Eq)]
pub struct G1Point {
    pub x: Vec<u8>,
    pub y: Vec<u8>,
    pub infinity: bool,
}

/// A point of G2 as a zkey stores it: the bytes of the two components of each
/// coordinate. All zero stands for the point at infinity.
#[derive(Debug, Clone, PartialEq, Eq)]
pub struct G2Point {
    pub x_c0: Vec<u8>,
    pub x_c1: Vec<u8>,
    pub y_c0: Vec<u8>,
    pub y_c1: Vec<u8>,
    pub infinity: bool,
}

/// `p` is the G1 point stored at `pos`, coordinates of `n` bytes each.
pub open spec fn g1_at(p: G1Point, data: Seq<u8>, pos: int, n: nat) -> bool {
    &&& p.x@ == bytes_at(data, pos, n as int)
    &&& p.y@ == bytes_at(data, pos + n, n as int)
    &&& p.infinity == (all_zero(p.x@) && all_zero(p.y@))
}

/// `p` is the G2 point stored at `pos`, components of `n` bytes each.
pub open spec fn g2_at(p: G2Point, data: Seq<u8>, pos: int, n: nat) -> bool {
    &&& p.x_c0@ == bytes_at(data, pos, n as int)
    &&& p.x_c1@ == bytes_at(data, pos + n, n as int)
    &&& p.y_c0@ == bytes_at(data, pos + 2 * n, n as int)
    &&& p.y_c1@ == bytes_at(data, pos + 3 * n, n as int)
    &&& p.infinity == (all_zero(p.x_c0@) && all_zero(p.x_c1@) && all_zero(p.y_c0@) && all_zero(
        p.y_c1@,
    ))
}

/// A G1 point is stored as its two coordinates one after the other: the
/// `2n` bytes at `pos` are `x` then `y`.
pub proof fn lemma_g1_layout(p: G1Point, data: Seq<u8>, pos: int, n: nat)
    requires
        g1_at(p, data, pos, n),
        0 <= pos,
        pos + 2 * n <= data.len(),
    ensures
        p.x@ + p.y@ == bytes_at(data, pos, 2 * n as int),
        p.x@.len() == n && p.y@.len() == n,
{
    assert(p.x@ + p.y@ =~= bytes_at(data, pos, 2 * n as int));
}

/// A G2 point is stored as four base-field elements one after the other, in
/// the order `x.c0`, `x.c1`, `y.c0`, `y.c1`: the `4n` bytes at `pos` are those
/// four components in that order.
pub proof fn lemma_g2_layout(p: G2Point, data: Seq<u8>, pos: int, n: nat)
    requires
        g2_at(p, data, pos, n),
        0 <= pos,
        pos + 4 * n <= data.len(),
    ensures
        p.x_c0@ + p.x_c1@ + p.y_c0@ + p.y_c1@ == bytes_at(data, pos, 4 * n as int),
        p.x_c0@.len() == n && p.x_c1@.len() == n && p.y_c0@.len() == n && p.y_c1@.len() == n,
{
    assert(p.x_c0@ + p.x_c1@ + p.y_c0@ + p.y_c1@ =~= bytes_at(data, pos, 4 * n as int));
}

/// Whether every byte of `s` is zero.
pub fn is_all_zero(s: &[u8]) -> (r: bool)
    ensures
        r == all_zero(s@),
{
    let mut i: usize = 0;
    while i < s.len()
        invariant
            i <= s@.len(),
            forall|k: int| 0 <= k < i ==> s@[k] == 0,
        decreases s@.len() - i,
    {
        if s[i] != 0 {
            return false;
        }
        i = i + 1;
    }
    true
}

/// The `n` bytes at `pos`, which must lie inside `data`.
fn copy_at(data: &[u8], pos: u64, n: usize) -> (r: Vec<u8>)
    requires
        fits(data@.len(), pos as int, n as int),
    ensures
        r@ == bytes_at(data@, pos as int, n as int),
{
    let len: usize = data.len();
    let p: usize = pos as usize;
    slice_to_vec(slice_subrange(data, p, p + n))
}

/// The G1 point at `pos`, which must lie inside `data`.
fn read_g1(data: &[u8], pos: u64, n: usize) -> (r: G1Point)
    requires
        fits(data@.len(), pos as int, 2 * n),
    ensures
        g1_at(r, data@, pos as int, n as nat),
{
    let len: usize = data.len();
    let x = copy_at(data, pos, n);
    let y = copy_at(data, pos + n as u64, n);
    let infinity = is_all_zero(x.as_slice()) && is_all_zero(y.as_slice());
    G1Point { x, y, infinity }
}

/// The G2 point at `pos`, which must lie inside `data`.
fn read_g2(data: &[u8], pos: u64, n: usize) -> (r: G2Point)
    requires
        fits(data@.len(), pos as int, 4 * n),
    ensures
        g2_at(r, data@, pos as int, n as nat),
{
    let len: usize = data.len();
    let x_c0 = copy_at(data, pos, n);
    let x_c1 = copy_at(data, pos + n as u64, n);
    let y_c0 = copy_at(data, pos + 2 * n as u64, n);
    let y_c1 = copy_at(data, pos + 3 * n as u64, n);
    let infinity = is_all_zero(x_c0.as_slice()) && is_all_zero(x_c1.as_slice()) && is_all_zero(
        y_c0.as_slice(),
    ) && is_all_zero(y_c1.as_slice());
    G2Point { x_c0, x_c1, y_c0, y_c1, infinity }
}

/// The least `k` with `2^k >= x` (and `0` for `0`).
pub open spec fn ceil_log2(x: nat) -> nat
    decreases x,
{
    if x <= 1 {
        0
    } else {
        1 + ceil_log2(((x + 1) / 2) as nat)
    }
}

/// `ark_std::log2`: `0` for `0`, the exponent of a power of two, and otherwise
/// the bit length of `x`; in each case the least `k` with `2^k >= x`.
#[verifier::external_body]
fn ark_log2(x: usize) -> (r: u32)
    ensures
        r == ceil_log2(x as nat),
{
    ark_std::log2(x)
}

/// The Groth16 header (section 2) of a zkey.
pub struct HeaderGroth {
    pub n8q: u32,
    pub q: Vec<u8>,
    pub n8r: u32,
    pub r: Vec<u8>,
    pub n_vars: usize,
    pub n_public: usize,
    pub domain_size: u32,
    pub power: u32,
    pub alpha_g1: G1Point,
    pub beta_g1: G1Point,
    pub beta_g2: G2Point,
    pub gamma_g2: G2Point,
    pub delta_g1: G1Point,
    pub delta_g2: G2Point,
}

/// Bytes taken by the Groth16 header of a zkey for `curve`.
pub open spec fn groth_header_len(curve: Curve) -> nat {
    52 + 19 * curve.spec_fq_len()
}

/// `h` is the Groth16 header stored at `p` in a zkey for `curve`.
pub open spec fn header_at(h: HeaderGroth, data: Seq<u8>, p: int, curve: Curve) -> bool {
    let n = curve.spec_fq_len();
    &&& h.n8q == le_u32(bytes_at(data, p, 4))
    &&& h.q@ == bytes_at(data, p + 4, n as int)
    &&& h.n8r == le_u32(bytes_at(data, p + 4 + n, 4))
    &&& h.r@ == zkey_fr(curve, bytes_at(data, p + 8 + n, 32))
    &&& h.n_vars == le_u32(bytes_at(data, p + 40 + n, 4))
    &&& h.n_public == le_u32(bytes_at(data, p + 44 + n, 4))
    &&& h.domain_size == le_u32(bytes_at(data, p + 48 + n, 4))
    &&& h.power == ceil_log2(h.domain_size as nat)
    &&& g1_at(h.alpha_g1, data, p + 52 + n, n)
    &&& g1_at(h.beta_g1, data, p + 52 + 3 * n, n)
    &&& g2_at(h.beta_g2, data, p + 52 + 5 * n, n)
    &&& g2_at(h.gamma_g2, data, p + 52 + 9 * n, n)
    &&& g1_at(h.delta_g1, data, p + 52 + 13 * n, n)
    &&& g2_at(h.delta_g2, data, p + 52 + 15 * n, n)
}

/// The bytes of a G1 point as stored: `x` then `y`.
pub open spec fn g1_bytes(p: G1Point) -> Seq<u8> {
    p.x@ + p.y@
}

/// The bytes of a G2 point as stored: `x.c0`, `x.c1`, `y.c0`, `y.c1`.
pub open spec fn g2_bytes(p: G2Point) -> Seq<u8> {
    p.x_c0@ + p.x_c1@ + p.y_c0@ + p.y_c1@
}

/// After the domain size, the Groth16 header stores its six points back to
/// back, in the order `alpha1`, `beta1`, `beta2`, `gamma2`, `delta1`, `delta2`.
pub proof fn lemma_groth_header_points(h: HeaderGroth, data: Seq<u8>, p: int, curve: Curve)
    requires
        header_at(h, data, p, curve),
        0 <= p,
        p + 52 + 19 * curve.spec_fq_len() <= data.len(),
    ensures
        bytes_at(data, p + 52 + curve.spec_fq_len(), 18 * curve.spec_fq_len() as int) == g1_bytes(
            h.alpha_g1,
        ) + g1_bytes(h.beta_g1) + g2_bytes(h.beta_g2) + g2_bytes(h.gamma_g2) + g1_bytes(
            h.delta_g1,
        ) + g2_bytes(h.delta_g2),
{
    let n = curve.spec_fq_len();
    let b = p + 52 + n;
    lemma_g1_layout(h.alpha_g1, data, b, n);
    lemma_g1_layout(h.beta_g1, data, b + 2 * n, n);
    lemma_g2_layout(h.beta_g2, data, b + 4 * n, n);
    lemma_g2_layout(h.gamma_g2, data, b + 8 * n, n);
    lemma_g1_layout(h.delta_g1, data, b + 12 * n, n);
    lemma_g2_layout(h.delta_g2, data, b + 14 * n, n);
    assert(bytes_at(data, b, 18 * n as int) =~= bytes_at(data, b, 2 * n as int) + bytes_at(
        data,
        b + 2 * n,
        2 * n as int,
    ) + bytes_at(data, b + 4 * n, 4 * n as int) + bytes_at(data, b + 8 * n, 4 * n as int)
        + bytes_at(data, b + 12 * n, 2 * n as int) + bytes_at(data, b + 14 * n, 4 * n as int));
}

/// The canonical bytes of the scalar of `curve` stored as the 32 bytes `raw`.
pub fn fr_bytes(curve: Curve, raw: &[u8]) -> (r: Vec<u8>)
    requires
        raw@.len() == 32,
    ensures
        r@ == zkey_fr(curve, raw@),
{
    match curve {
        Curve::Bn254 => fr_bytes_bn254(raw),
        Curve::Bls12_381 => fr_bytes_bls12_381(raw),
    }
}

/// The `u32` at `pos`, which must lie inside `data`, read as ark-serialize reads it.
fn ark_u32_at(data: &[u8], pos: u64) -> (r: u32)
    requires
        fits(data@.len(), pos as int, 4),
    ensures
        r == le_u32(bytes_at(data@, pos as int, 4)),
{
    let len: usize = data.len();
    let p: usize = pos as usize;
    let rest = slice_subrange(data, p, len);
    assert(rest@.take(4) =~= bytes_at(data@, pos as int, 4).take(4));
    ark_read_u32(rest).unwrap()
}

impl BinFile {
    /// The first section with the id `id`.
    pub fn get_section(&self, id: u32) -> (r: Section)
        requires
            self.section_first(id) is Some,
        ensures
            self.section_first(id) == Some(r),
    {
        broadcast use vstd::std_specs::hash::group_hash_axioms;

        let v = self.sections.get(&id).unwrap();
        v[0]
    }

    /// Reads the Groth16 header (section 2).
    pub fn groth_header(&self) -> (r: Result<HeaderGroth, ZkeyError>)
        requires
            self.section_first(2) is Some,
        ensures
            ({
                let p = self.section_first(2)->0.position as int;
                match r {
                    Ok(h) => fits(self.data@.len(), p, groth_header_len(self.curve) as int)
                        && header_at(h, self.data@, p, self.curve),
                    Err(e) => !fits(self.data@.len(), p, groth_header_len(self.curve) as int)
                        && e == ZkeyError::UnexpectedEof,
                }
            }),
    {
        let section = self.get_section(2);
        let data = self.data.as_slice();
        let len: usize = data.len();
        let n: usize = self.curve.fq_len();
        let total: usize = 52 + 19 * n;
        let p: u64 = section.position;
        if p > len as u64 || (len as u64) - p < total as u64 {
            return Err(ZkeyError::UnexpectedEof);
        }
        let m: u64 = n as u64;
        let n8q = ark_u32_at(data, p);
        let q = copy_at(data, p + 4, n);
        let n8r = ark_u32_at(data, p + 4 + m);
        let r_raw = copy_at(data, p + 8 + m, 32);
        let r = fr_bytes(self.curve, r_raw.as_slice());
        let n_vars = ark_u32_at(data, p + 40 + m) as usize;
        let n_public = ark_u32_at(data, p + 44 + m) as usize;
        let domain_size = ark_u32_at(data, p + 48 + m);
        let power = ark_log2(domain_size as usize);
        let alpha_g1 = read_g1(data, p + 52 + m, n);
        let beta_g1 = read_g1(data, p + 52 + 3 * m, n);
        let beta_g2 = read_g2(data, p + 52 + 5 * m, n);
        let gamma_g2 = read_g2(data, p + 52 + 9 * m, n);
        let delta_g1 = read_g1(data, p + 52 + 13 * m, n);
        let delta_g2 = read_g2(data, p + 52 + 15 * m, n);
        Ok(
            HeaderGroth {
                n8q,
                q,
                n8r,
                r,
                n_vars,
                n_public,
                domain_size,
                power,
                alpha_g1,
                beta_g1,
                beta_g2,
                gamma_g2,
                delta_g1,
                delta_g2,
            },
        )
    }
}

/// One coefficient of the constraint matrices: the canonical bytes of its
/// scalar and the signal it multiplies.
#[derive(Debug, Clone, PartialEq, Eq)]
pub struct MatrixEntry {
    pub value: Vec<u8>,
    pub signal: usize,
}

/// The coefficients of a row as (scalar bytes, signal) pairs.
pub open spec fn entries_view(row: Seq<MatrixEntry>) -> Seq<(Seq<u8>, nat)> {
    Seq::new(row.len(), |k: int| (row[k].value@, row[k].signal as nat))
}

/// The number of coefficients in `rows`.
pub open spec fn total_len(rows: Seq<Vec<MatrixEntry>>) -> nat
    decreases rows.len(),
{
    if rows.len() == 0 {
        0
    } else {
        total_len(rows.drop_last()) + rows.last()@.len()
    }
}

/// The A and B matrices of a zkey's R1CS, as `ark_relations` lays out
/// `ConstraintMatrices` (C is left empty: Groth16 proving does not read it).
pub struct ZkeyMatrices {
    pub num_instance_variables: usize,
    pub num_witness_variables: usize,
    pub num_constraints: usize,
    pub a_num_non_zero: usize,
    pub b_num_non_zero: usize,
    pub c_num_non_zero: usize,
    pub a: Vec<Vec<MatrixEntry>>,
    pub b: Vec<Vec<MatrixEntry>>,
    pub c: Vec<Vec<MatrixEntry>>,
}

/// Coefficient record `i` of section 4, whose contents start at `base`:
/// (matrix, constraint, signal, stored scalar bytes).
pub open spec fn coeff_record(data: Seq<u8>, base: int, i: int) -> (u32, u32, u32, Seq<u8>) {
    let o = base + 4 + 44 * i;
    (
        le_u32(bytes_at(data, o, 4)),
        le_u32(bytes_at(data, o + 4, 4)),
        le_u32(bytes_at(data, o + 8, 4)),
        bytes_at(data, o + 12, 32),
    )
}

/// The coefficients of row `j` of matrix `m` among the first `k` records, in
/// record order.
pub open spec fn row_spec(data: Seq<u8>, base: int, curve: Curve, k: nat, m: u32, j: u32) -> Seq<
    (Seq<u8>, nat),
>
    decreases k,
{
    if k == 0 {
        Seq::empty()
    } else {
        let prev = row_spec(data, base, curve, (k - 1) as nat, m, j);
        let rec = coeff_record(data, base, k - 1);
        if rec.0 == m && rec.1 == j {
            prev.push((zkey_fr(curve, rec.3), rec.2 as nat))
        } else {
            prev
        }
    }
}

/// The largest constraint index among the first `k` records (`0` when none).
pub open spec fn max_constraint(data: Seq<u8>, base: int, k: nat) -> nat
    decreases k,
{
    if k == 0 {
        0
    } else {
        let prev = max_constraint(data, base, (k - 1) as nat);
        let c = coeff_record(data, base, k - 1).1 as nat;
        if c > prev {
            c
        } else {
            prev
        }
    }
}

proof fn lemma_total_len_update(rows: Seq<Vec<MatrixEntry>>, j: int, row: Vec<MatrixEntry>)
    requires
        0 <= j < rows.len(),
    ensures
        total_len(rows.update(j, row)) + rows[j]@.len() == total_len(rows) + row@.len(),
    decreases rows.len(),
{
    if j < rows.len() - 1 {
        lemma_total_len_update(rows.drop_last(), j, row);
        assert(rows.update(j, row).drop_last() =~= rows.drop_last().update(j, row));
    } else {
        assert(rows.update(j, row).drop_last() =~= rows.drop_last());
    }
}

proof fn lemma_total_len_prefix(rows: Seq<Vec<MatrixEntry>>, k: int)
    requires
        0 <= k <= rows.len(),
    ensures
        total_len(rows.take(k)) <= total_len(rows),
    decreases rows.len(),
{
    if k < rows.len() {
        lemma_total_len_prefix(rows.drop_last(), k);
        assert(rows.drop_last().take(k) =~= rows.take(k));
    } else {
        assert(rows.take(k) =~= rows);
    }
}

/// `rows` holds `n` empty rows.
fn empty_rows(n: usize) -> (rows: Vec<Vec<MatrixEntry>>)
    ensures
        rows@.len() == n,
        forall|j: int| 0 <= j < n ==> (#[trigger] rows@[j])@.len() == 0,
        total_len(rows@) == 0,
{
    let mut rows: Vec<Vec<MatrixEntry>> = Vec::new();
    let mut i: usize = 0;
    while i < n
        invariant
            i <= n,
            rows@.len() == i,
            forall|j: int| 0 <= j < i ==> (#[trigger] rows@[j])@.len() == 0,
            total_len(rows@) == 0,
        decreases n - i,
    {
        let ghost old_rows = rows@;
        rows.push(Vec::new());
        assert(rows@.drop_last() =~= old_rows);
        i = i + 1;
    }
    rows
}

/// The number of coefficients in `rows`.
fn count_entries(rows: &Vec<Vec<MatrixEntry>>, bound: usize) -> (r: usize)
    requires
        total_len(rows@) <= bound,
    ensures
        r == total_len(rows@),
{
    let mut sum: usize = 0;
    let mut j: usize = 0;
    while j < rows.len()
        invariant
            j <= rows@.len(),
            sum == total_len(rows@.take(j as int)),
            total_len(rows@) <= bound,
        decreases rows@.len() - j,
    {
        proof {
            lemma_total_len_prefix(rows@, j + 1);
            assert(rows@.take(j + 1).drop_last() =~= rows@.take(j as int));
        }
        sum = sum + rows[j].len();
        j = j + 1;
    }
    assert(rows@.take(j as int) =~= rows@);
    sum
}

impl BinFile {
    /// Where the contents of the Groth16 header start.
    pub open spec fn header_pos(self) -> int {
        self.section_first(2)->0.position as int
    }

    /// Whether the whole Groth16 header lies inside the file.
    pub open spec fn header_fits(self) -> bool {
        fits(self.data@.len(), self.header_pos(), groth_header_len(self.curve) as int)
    }

    /// The `u32` of the Groth16 header stored `off` bytes after `q`'s end
    /// (`40`: `NVars`, `44`: `NPub`, `48`: `DomainSize`).
    pub open spec fn header_u32(self, off: int) -> u32 {
        le_u32(bytes_at(self.data@, self.header_pos() + self.curve.spec_fq_len() + off, 4))
    }

    /// Where the contents of the coefficient section (4) start.
    pub open spec fn coeffs_pos(self) -> int {
        self.section_first(4)->0.position as int
    }

    /// The number of coefficient records the file announces.
    pub open spec fn num_coeffs(self) -> nat {
        le_u32(bytes_at(self.data@, self.coeffs_pos(), 4)) as nat
    }

    /// Whether all announced coefficient records lie inside the file.
    pub open spec fn coeffs_fit(self) -> bool {
        fits(self.data@.len(), self.coeffs_pos(), 4) && fits(
            self.data@.len(),
            self.coeffs_pos(),
            4 + 44 * self.num_coeffs() as int,
        )
    }

    /// Every coefficient record that can be read names matrix A or B and a
    /// constraint below the domain size; the file's counts leave the variable
    /// numbers non-negative and in range.
    pub open spec fn matrices_in_range(self) -> bool {
        self.header_fits() ==> {
            &&& self.section_first(4) is Some
            &&& fits(self.data@.len(), self.coeffs_pos(), 4) ==> forall|i: int|
                0 <= i < self.num_coeffs() && fits(
                    self.data@.len(),
                    self.coeffs_pos(),
                    4 + 44 * (i + 1),
                ) ==> {
                    &&& (#[trigger] coeff_record(self.data@, self.coeffs_pos(), i)).0 < 2
                    &&& coeff_record(self.data@, self.coeffs_pos(), i).1 < self.header_u32(48)
                }
            &&& self.coeffs_fit() ==> {
                &&& max_constraint(self.data@, self.coeffs_pos(), self.num_coeffs())
                    >= self.header_u32(44)
                &&& self.header_u32(40) >= self.header_u32(44)
                &&& self.header_u32(44) + 1 <= usize::MAX
            }
        }
    }

    /// Reads the A and B constraint matrices from the coefficient section (4).
    pub fn matrices(&self) -> (r: Result<ZkeyMatrices, ZkeyError>)
        requires
            self.section_first(2) is Some,
            self.matrices_in_range(),
        ensures
            match r {
                Ok(m) => {
                    let base = self.coeffs_pos();
                    let k = self.num_coeffs();
                    let nc = max_constraint(self.data@, base, k) - self.header_u32(44);
                    &&& self.header_fits() && self.coeffs_fit()
                    &&& m.num_constraints == nc
                    &&& m.num_instance_variables == self.header_u32(44) + 1
                    &&& m.num_witness_variables == self.header_u32(40) - self.header_u32(44)
                    &&& m.a@.len() == nc && m.b@.len() == nc
                    &&& forall|j: int|
                        0 <= j < nc ==> entries_view((#[trigger] m.a@[j])@) == row_spec(
                            self.data@,
                            base,
                            self.curve,
                            k,
                            0,
                            j as u32,
                        )
                    &&& forall|j: int|
                        0 <= j < nc ==> entries_view((#[trigger] m.b@[j])@) == row_spec(
                            self.data@,
                            base,
                            self.curve,
                            k,
                            1,
                            j as u32,
                        )
                    &&& m.a_num_non_zero == total_len(m.a@)
                    &&& m.b_num_non_zero == total_len(m.b@)
                    &&& m.c@.len() == 0 && m.c_num_non_zero == 0
                },
                Err(e) => e == ZkeyError::UnexpectedEof && !(self.header_fits()
                    && self.coeffs_fit()),
            },
    {
        let header = match self.groth_header() {
            Ok(h) => h,
            Err(e) => {
                return Err(e);
            },
        };
        let section = self.get_section(4);
        let data = self.data.as_slice();
        let len: usize = data.len();
        let base: u64 = section.position;
        if base > len as u64 || (len as u64) - base < 4 {
            return Err(ZkeyError::UnexpectedEof);
        }
        let num_coeffs: u32 = read_u32_at(data, base).unwrap();
        if ((len as u64) - base - 4) / 44 < num_coeffs as u64 {
            return Err(ZkeyError::UnexpectedEof);
        }
        assert(fits(self.data@.len(), self.coeffs_pos(), 4 + 44 * self.num_coeffs() as int));
        let ds: usize = header.domain_size as usize;
        let mut a = empty_rows(ds);
        let mut b = empty_rows(ds);
        let mut max_c: u32 = 0;
        let mut i: u32 = 0;
        while i < num_coeffs
            invariant
                i <= num_coeffs,
                num_coeffs == self.num_coeffs(),
                base == self.coeffs_pos(),
                data@ == self.data@,
                len == data@.len(),
                fits(data@.len(), base as int, 4 + 44 * num_coeffs),
                ds == self.header_u32(48),
                header.n_public == self.header_u32(44),
                header.n_vars == self.header_u32(40),
                self.header_fits(),
                self.matrices_in_range(),
                a@.len() == ds && b@.len() == ds,
                max_c == max_constraint(data@, base as int, i as nat),
                max_c == 0 || max_c < ds,
                total_len(a@) + total_len(b@) == i,
                forall|j: int|
                    0 <= j < ds ==> entries_view((#[trigger] a@[j])@) == row_spec(
                        data@,
                        base as int,
                        self.curve,
                        i as nat,
                        0,
                        j as u32,
                    ),
                forall|j: int|
                    0 <= j < ds ==> entries_view((#[trigger] b@[j])@) == row_spec(
                        data@,
                        base as int,
                        self.curve,
                        i as nat,
                        1,
                        j as u32,
                    ),
            decreases num_coeffs - i,
        {
            let o: u64 = base + 4 + 44 * (i as u64);
            let matrix: u32 = read_u32_at(data, o).unwrap();
            let constraint: u32 = read_u32_at(data, o + 4).unwrap();
            let signal: u32 = read_u32_at(data, o + 8).unwrap();
            let raw = copy_at(data, o + 12, 32);
            let value = fr_bytes(self.curve, raw.as_slice());
            let ghost rec = coeff_record(data@, base as int, i as int);
            assert(rec.0 == matrix && rec.1 == constraint && rec.2 == signal && rec.3 == raw@);
            assert(rec.0 < 2 && rec.1 < ds);
            if constraint > max_c {
                max_c = constraint;
            }
            let entry = MatrixEntry { value, signal: signal as usize };
            let c: usize = constraint as usize;
            let ghost a_old = a@;
            let ghost b_old = b@;
            if matrix == 0 {
                let ghost row_old = a@[c as int]@;
                a[c].push(entry);
                assert(entries_view(a@[c as int]@) =~= entries_view(row_old).push(
                    (value@, signal as nat),
                ));
                proof {
                    lemma_total_len_update(a_old, c as int, a@[c as int]);
                    assert(a_old.update(c as int, a@[c as int]) =~= a@);
                }
            } else {
                let ghost row_old = b@[c as int]@;
                b[c].push(entry);
                assert(entries_view(b@[c as int]@) =~= entries_view(row_old).push(
                    (value@, signal as nat),
                ));
                proof {
                    lemma_total_len_update(b_old, c as int, b@[c as int]);
                    assert(b_old.update(c as int, b@[c as int]) =~= b@);
                }
            }
            i = i + 1;
        }
        let nc: usize = (max_c as usize) - header.n_public;
        let ghost a_full = a@;
        let ghost b_full = b@;
        a.truncate(nc);
        b.truncate(nc);
        proof {
            assert(nc <= ds);
            lemma_total_len_prefix(a_full, nc as int);
            lemma_total_len_prefix(b_full, nc as int);
            assert(a@ =~= a_full.take(nc as int));
            assert(b@ =~= b_full.take(nc as int));
        }
        let a_num_non_zero = count_entries(&a, num_coeffs as usize);
        let b_num_non_zero = count_entries(&b, num_coeffs as usize);
        Ok(
            ZkeyMatrices {
                num_instance_variables: header.n_public + 1,
                num_witness_variables: header.n_vars - header.n_public,
                num_constraints: nc,
                a_num_non_zero,
                b_num_non_zero,
                c_num_non_zero: 0,
                a,
                b,
                c: Vec::new(),
            },
        )
    }
}

/// `v` holds the `count` G1 points stored one after another from `pos`.
pub open spec fn g1_vec_at(v: Seq<G1Point>, data: Seq<u8>, pos: int, count: nat, n: nat) -> bool {
    &&& v.len() == count
    &&& forall|i: int| 0 <= i < count ==> g1_at(#[trigger] v[i], data, pos + i * (2 * n), n)
}

/// `v` holds the `count` G2 points stored one after another from `pos`.
pub open spec fn g2_vec_at(v: Seq<G2Point>, data: Seq<u8>, pos: int, count: nat, n: nat) -> bool {
    &&& v.len() == count
    &&& forall|i: int| 0 <= i < count ==> g2_at(#[trigger] v[i], data, pos + i * (4 * n), n)
}

/// The stored bytes of the G1 points of `v`, one after another.
pub open spec fn g1_vec_bytes(v: Seq<G1Point>) -> Seq<u8>
    decreases v.len(),
{
    if v.len() == 0 {
        Seq::empty()
    } else {
        g1_vec_bytes(v.drop_last()) + g1_bytes(v.last())
    }
}

/// The stored bytes of the G2 points of `v`, one after another.
pub open spec fn g2_vec_bytes(v: Seq<G2Point>) -> Seq<u8>
    decreases v.len(),
{
    if v.len() == 0 {
        Seq::empty()
    } else {
        g2_vec_bytes(v.drop_last()) + g2_bytes(v.last())
    }
}

proof fn lemma_stride(k: int, m: int)
    requires
        0 <= k,
        0 <= m,
    ensures
        (k + 1) * m == k * m + m,
        0 <= k * m,
{
    assert((k + 1) * m == k * m + m) by (nonlinear_arith);
    assert(0 <= k * m) by (nonlinear_arith)
        requires
            0 <= k,
            0 <= m,
    ;
}

/// A vector of `count` G1 points is stored as the points back to back, with
/// no gap or overlap: the `count * 2n` bytes at `pos`.
pub proof fn lemma_g1_vec_layout(v: Seq<G1Point>, data: Seq<u8>, pos: int, count: nat, n: nat)
    requires
        g1_vec_at(v, data, pos, count, n),
        0 <= pos,
        pos + count * (2 * n) <= data.len(),
    ensures
        g1_vec_bytes(v) == bytes_at(data, pos, (count * (2 * n)) as int),
    decreases count,
{
    let m = 2 * n as int;
    if count > 0 {
        let k = count - 1;
        lemma_stride(k, m);
        let init = v.drop_last();
        assert forall|i: int| 0 <= i < k implies g1_at(#[trigger] init[i], data, pos + i * m, n) by {
            assert(init[i] == v[i]);
        }
        assert((count * (2 * n)) as int == (k + 1) * m);
        assert((k as nat * (2 * n)) as int == k * m);
        lemma_g1_vec_layout(init, data, pos, k as nat, n);
        assert(v.last() == v[k]);
        assert(g1_vec_bytes(v) == g1_vec_bytes(init) + g1_bytes(v[k]));
        assert(g1_at(v[k], data, pos + k * m, n));
        lemma_g1_layout(v[k], data, pos + k * m, n);
        assert(bytes_at(data, pos, (count * (2 * n)) as int) =~= bytes_at(data, pos, k * m) + bytes_at(
            data,
            pos + k * m,
            m,
        ));
        assert(g1_vec_bytes(v) == bytes_at(data, pos, (count * (2 * n)) as int));
    } else {
        assert(count * m == 0) by (nonlinear_arith)
            requires
                count == 0,
        ;
        assert(bytes_at(data, pos, 0) =~= Seq::<u8>::empty());
    }
}

/// A vector of `count` G2 points is stored as the points back to back, with
/// no gap or overlap: the `count * 4n` bytes at `pos`.
pub proof fn lemma_g2_vec_layout(v: Seq<G2Point>, data: Seq<u8>, pos: int, count: nat, n: nat)
    requires
        g2_vec_at(v, data, pos, count, n),
        0 <= pos,
        pos + count * (4 * n) <= data.len(),
    ensures
        g2_vec_bytes(v) == bytes_at(data, pos, (count * (4 * n)) as int),
    decreases count,
{
    let m = 4 * n as int;
    if count > 0 {
        let k = count - 1;
        lemma_stride(k, m);
        let init = v.drop_last();
        assert forall|i: int| 0 <= i < k implies g2_at(#[trigger] init[i], data, pos + i * m, n) by {
            assert(init[i] == v[i]);
        }
        assert((count * (4 * n)) as int == (k + 1) * m);
        assert((k as nat * (4 * n)) as int == k * m);
        lemma_g2_vec_layout(init, data, pos, k as nat, n);
        assert(v.last() == v[k]);
        assert(g2_vec_bytes(v) == g2_vec_bytes(init) + g2_bytes(v[k]));
        assert(g2_at(v[k], data, pos + k * m, n));
        lemma_g2_layout(v[k], data, pos + k * m, n);
        assert(bytes_at(data, pos, (count * (4 * n)) as int) =~= bytes_at(data, pos, k * m) + bytes_at(
            data,
            pos + k * m,
            m,
        ));
        assert(g2_vec_bytes(v) == bytes_at(data, pos, (count * (4 * n)) as int));
    } else {
        assert(count * m == 0) by (nonlinear_arith)
            requires
                count == 0,
        ;
        assert(bytes_at(data, pos, 0) =~= Seq::<u8>::empty());
    }
}

/// The `count` G1 points stored from `pos`, or `None` when they do not all lie
/// inside `data`.
fn read_g1_vec(data: &[u8], pos: u64, count: u32, n: usize) -> (r: Option<Vec<G1Point>>)
    requires
        n <= 48,
    ensures
        match r {
            Some(v) => fits(data@.len(), pos as int, count * (2 * n)) && g1_vec_at(
                v@,
                data@,
                pos as int,
                count as nat,
                n as nat,
            ),
            None => !fits(data@.len(), pos as int, count * (2 * n)),
        },
{
    let len: usize = data.len();
    let step: u64 = 2 * n as u64;
    if pos > len as u64 || (step > 0 && ((len as u64) - pos) / step < count as u64) {
        proof {
            if step > 0 && pos <= len {
                assert(((len - pos) / step as int) * step <= len - pos) by (nonlinear_arith)
                    requires
                        step > 0,
                        len >= pos,
                ;
                assert((count as int) * step > len - pos) by (nonlinear_arith)
                    requires
                        step > 0,
                        ((len - pos) / step as int) < count,
                        len >= pos,
                ;
            }
        }
        return None;
    }
    proof {
        if step > 0 {
            assert((count as int) * step <= len - pos) by (nonlinear_arith)
                requires
                    step > 0,
                    ((len - pos) / step as int) >= count,
                    len >= pos,
            ;
        }
    }
    let mut v: Vec<G1Point> = Vec::new();
    let mut i: u32 = 0;
    while i < count
        invariant
            i <= count,
            len == data@.len(),
            step == 2 * n,
            n <= 48,
            pos + count * step <= len,
            g1_vec_at(v@, data@, pos as int, i as nat, n as nat),
        decreases count - i,
    {
        proof {
            assert((i as int) * step + step <= (count as int) * step) by (nonlinear_arith)
                requires
                    i < count,
                    step >= 0,
            ;
        }
        let p: u64 = pos + (i as u64) * step;
        let pt = read_g1(data, p, n);
        v.push(pt);
        i = i + 1;
    }
    Some(v)
}

/// The `count` G2 points stored from `pos`, or `None` when they do not all lie
/// inside `data`.
fn read_g2_vec(data: &[u8], pos: u64, count: u32, n: usize) -> (r: Option<Vec<G2Point>>)
    requires
        n <= 48,
    ensures
        match r {
            Some(v) => fits(data@.len(), pos as int, count * (4 * n)) && g2_vec_at(
                v@,
                data@,
                pos as int,
                count as nat,
                n as nat,
            ),
            None => !fits(data@.len(), pos as int, count * (4 * n)),
        },
{
    let len: usize = data.len();
    let step: u64 = 4 * n as u64;
    if pos > len as u64 || (step > 0 && ((len as u64) - pos) / step < count as u64) {
        proof {
            if step > 0 && pos <= len {
                assert(((len - pos) / step as int) * step <= len - pos) by (nonlinear_arith)
                    requires
                        step > 0,
                        len >= pos,
                ;
                assert((count as int) * step > len - pos) by (nonlinear_arith)
                    requires
                        step > 0,
                        ((len - pos) / step as int) < count,
                        len >= pos,
                ;
            }
        }
        return None;
    }
    proof {
        if step > 0 {
            assert((count as int) * step <= len - pos) by (nonlinear_arith)
                requires
                    step > 0,
                    ((len - pos) / step as int) >= count,
                    len >= pos,
            ;
        }
    }
    let mut v: Vec<G2Point> = Vec::new();
    let mut i: u32 = 0;
    while i < count
        invariant
            i <= count,
            len == data@.len(),
            step == 4 * n,
            n <= 48,
            pos + count * step <= len,
            g2_vec_at(v@, data@, pos as int, i as nat, n as nat),
        decreases count - i,
    {
        proof {
            assert((i as int) * step + step <= (count as int) * step) by (nonlinear_arith)
                requires
                    i < count,
                    step >= 0,
            ;
        }
        let p: u64 = pos + (i as u64) * step;
        let pt = read_g2(data, p, n);
        v.push(pt);
        i = i + 1;
    }
    Some(v)
}

/// The verifying half of a Groth16 key, points as the zkey stores them.
pub struct ZkeyVerifyingKey {
    pub alpha_g1: G1Point,
    pub beta_g2: G2Point,
    pub gamma_g2: G2Point,
    pub delta_g2: G2Point,
    pub gamma_abc_g1: Vec<G1Point>,
}

/// A Groth16 proving key, points as the zkey stores them.
pub struct ZkeyProvingKey {
    pub vk: ZkeyVerifyingKey,
    pub beta_g1: G1Point,
    pub delta_g1: G1Point,
    pub a_query: Vec<G1Point>,
    pub b_g1_query: Vec<G1Point>,
    pub b_g2_query: Vec<G2Point>,
    pub h_query: Vec<G1Point>,
    pub l_query: Vec<G1Point>,
}

impl BinFile {
    /// Where the contents of the first section with id `id` start.
    pub open spec fn section_pos(self, id: u32) -> int {
        self.section_first(id)->0.position as int
    }

    /// Whether section `id` exists and holds `count` G1 points inside the file.
    pub open spec fn g1_fit(self, id: u32, count: nat) -> bool {
        &&& self.section_first(id) is Some
        &&& fits(self.data@.len(), self.section_pos(id), (count * (2 * self.curve.spec_fq_len())) as int)
    }

    /// Whether section `id` exists and holds `count` G2 points inside the file.
    pub open spec fn g2_fit(self, id: u32, count: nat) -> bool {
        &&& self.section_first(id) is Some
        &&& fits(self.data@.len(), self.section_pos(id), (count * (4 * self.curve.spec_fq_len())) as int)
    }

    /// The number of IC points read: `NPub + 1`, as the `u32` count it is passed as.
    pub open spec fn ic_count(self) -> nat {
        ((self.header_u32(44) + 1) as u32) as nat
    }

    /// The number of L points: `NVars - NPub - 1`.
    pub open spec fn l_count(self) -> nat {
        (self.header_u32(40) - self.header_u32(44) - 1) as nat
    }

    /// Whether the first `k` reads of the proving key succeed: the header, then
    /// IC (3), A (5), B1 (6), B2 (7), L (8) and H (9).
    pub open spec fn pk_reads(self, k: nat) -> bool {
        &&& k >= 1 ==> self.header_fits()
        &&& k >= 2 ==> self.g1_fit(3, self.ic_count())
        &&& k >= 3 ==> self.g1_fit(5, self.header_u32(40) as nat)
        &&& k >= 4 ==> self.g1_fit(6, self.header_u32(40) as nat)
        &&& k >= 5 ==> self.g2_fit(7, self.header_u32(40) as nat)
        &&& k >= 6 ==> self.g1_fit(8, self.l_count())
        &&& k >= 7 ==> self.g1_fit(9, self.header_u32(48) as nat)
    }

    /// The sections each read needs exist once the reads before it succeed,
    /// and the counts are in range.
    pub open spec fn pk_well_formed(self) -> bool {
        &&& self.section_first(2) is Some
        &&& self.pk_reads(1) ==> self.section_first(3) is Some && self.header_u32(44)
            + 1 <= usize::MAX
        &&& self.pk_reads(2) ==> self.section_first(5) is Some
        &&& self.pk_reads(3) ==> self.section_first(6) is Some
        &&& self.pk_reads(4) ==> self.section_first(7) is Some
        &&& self.pk_reads(5) ==> self.section_first(8) is Some && self.header_u32(40)
            >= self.header_u32(44) + 1
        &&& self.pk_reads(6) ==> self.section_first(9) is Some
    }

    fn g1_section(&self, count: u32, id: u32) -> (r: Option<Vec<G1Point>>)
        requires
            self.section_first(id) is Some,
        ensures
            match r {
                Some(v) => self.g1_fit(id, count as nat) && g1_vec_at(
                    v@,
                    self.data@,
                    self.section_pos(id),
                    count as nat,
                    self.curve.spec_fq_len(),
                ),
                None => !self.g1_fit(id, count as nat),
            },
    {
        let section = self.get_section(id);
        read_g1_vec(self.data.as_slice(), section.position, count, self.curve.fq_len())
    }

    fn g2_section(&self, count: u32, id: u32) -> (r: Option<Vec<G2Point>>)
        requires
            self.section_first(id) is Some,
        ensures
            match r {
                Some(v) => self.g2_fit(id, count as nat) && g2_vec_at(
                    v@,
                    self.data@,
                    self.section_pos(id),
                    count as nat,
                    self.curve.spec_fq_len(),
                ),
                None => !self.g2_fit(id, count as nat),
            },
    {
        let section = self.get_section(id);
        read_g2_vec(self.data.as_slice(), section.position, count, self.curve.fq_len())
    }

    /// Reads the Groth16 proving key: the header's points, then IC (`NPub + 1`
    /// points), A, B1 and B2 (`NVars` points each), L (`NVars - NPub - 1`) and H
    /// (`DomainSize`).
    pub fn proving_key(&self) -> (r: Result<ZkeyProvingKey, ZkeyError>)
        requires
            self.pk_well_formed(),
        ensures
            match r {
                Ok(pk) => {
                    let n = self.curve.spec_fq_len();
                    let p = self.header_pos();
                    let nv = self.header_u32(40) as nat;
                    &&& self.pk_reads(7)
                    &&& g1_at(pk.vk.alpha_g1, self.data@, p + 52 + n, n)
                    &&& g1_at(pk.beta_g1, self.data@, p + 52 + 3 * n, n)
                    &&& g2_at(pk.vk.beta_g2, self.data@, p + 52 + 5 * n, n)
                    &&& g2_at(pk.vk.gamma_g2, self.data@, p + 52 + 9 * n, n)
                    &&& g1_at(pk.delta_g1, self.data@, p + 52 + 13 * n, n)
                    &&& g2_at(pk.vk.delta_g2, self.data@, p + 52 + 15 * n, n)
                    &&& g1_vec_at(
                        pk.vk.gamma_abc_g1@,
                        self.data@,
                        self.section_pos(3),
                        self.ic_count(),
                        n,
                    )
                    &&& g1_vec_at(pk.a_query@, self.data@, self.section_pos(5), nv, n)
                    &&& g1_vec_at(pk.b_g1_query@, self.data@, self.section_pos(6), nv, n)
                    &&& g2_vec_at(pk.b_g2_query@, self.data@, self.section_pos(7), nv, n)
                    &&& g1_vec_at(pk.l_query@, self.data@, self.section_pos(8), self.l_count(), n)
                    &&& g1_vec_at(
                        pk.h_query@,
                        self.data@,
                        self.section_pos(9),
                        self.header_u32(48) as nat,
                        n,
                    )
                },
                Err(e) => e == ZkeyError::UnexpectedEof && !self.pk_reads(7),
            },
    {
        let header = match self.groth_header() {
            Ok(h) => h,
            Err(e) => {
                return Err(e);
            },
        };
        let ic_count: u32 = #[verifier::truncate] ((header.n_public + 1) as u32);
        let ic = match self.g1_section(ic_count, 3) {
            Some(v) => v,
            None => {
                return Err(ZkeyError::UnexpectedEof);
            },
        };
        let nv: u32 = header.n_vars as u32;
        let a_query = match self.g1_section(nv, 5) {
            Some(v) => v,
            None => {
                return Err(ZkeyError::UnexpectedEof);
            },
        };
        let b_g1_query = match self.g1_section(nv, 6) {
            Some(v) => v,
            None => {
                return Err(ZkeyError::UnexpectedEof);
            },
        };
        let b_g2_query = match self.g2_section(nv, 7) {
            Some(v) => v,
            None => {
                return Err(ZkeyError::UnexpectedEof);
            },
        };
        let l_count: u32 = (header.n_vars - header.n_public - 1) as u32;
        let l_query = match self.g1_section(l_count, 8) {
            Some(v) => v,
            None => {
                return Err(ZkeyError::UnexpectedEof);
            },
        };
        let h_query = match self.g1_section(header.domain_size, 9) {
            Some(v) => v,
            None => {
                return Err(ZkeyError::UnexpectedEof);
            },
        };
        let vk = ZkeyVerifyingKey {
            alpha_g1: header.alpha_g1,
            beta_g2: header.beta_g2,
            gamma_g2: header.gamma_g2,
            delta_g2: header.delta_g2,
            gamma_abc_g1: ic,
        };
        Ok(
            ZkeyProvingKey {
                vk,
                beta_g1: header.beta_g1,
                delta_g1: header.delta_g1,
                a_query,
                b_g1_query,
                b_g2_query,
                h_query,
                l_query,
            },
        )
    }
}

impl BinFile {
    /// Whether `matrices` can be called: the Groth16 header section exists and
    /// the coefficient records it reaches are in range.
    pub fn matrices_readable(&self) -> (r: bool)
        ensures
            r == (self.section_first(2) is Some && self.matrices_in_range()),
    {
        if !self.has_section(2) {
            return false;
        }
        let data = self.data.as_slice();
        let len: usize = data.len();
        let n: usize = self.curve.fq_len();
        let p: u64 = self.get_section(2).position;
        if p > len as u64 || (len as u64) - p < (52 + 19 * n) as u64 {
            return true;
        }
        if !self.has_section(4) {
            return false;
        }
        let base: u64 = self.get_section(4).position;
        if base > len as u64 || (len as u64) - base < 4 {
            return true;
        }
        let num: u32 = read_u32_at(data, base).unwrap();
        let n_vars: u32 = read_u32_at(data, p + n as u64 + 40).unwrap();
        let n_public: u32 = read_u32_at(data, p + n as u64 + 44).unwrap();
        let ds: u32 = read_u32_at(data, p + n as u64 + 48).unwrap();
        let room: u64 = ((len as u64) - base - 4) / 44;
        let mut max_c: u32 = 0;
        let mut i: u32 = 0;
        while i < num && (i as u64) < room
            invariant
                i <= num,
                len == data@.len(),
                data@ == self.data@,
                base == self.coeffs_pos(),
                num == self.num_coeffs(),
                ds == self.header_u32(48),
                self.header_fits(),
                base + 4 <= len,
                room == (len - base - 4) / 44,
                i <= room,
                max_c == max_constraint(data@, base as int, i as nat),
                forall|k: int|
                    0 <= k < i ==> (#[trigger] coeff_record(data@, base as int, k)).0 < 2
                        && coeff_record(data@, base as int, k).1 < ds,
            decreases num - i,
        {
            let o: u64 = base + 4 + 44 * (i as u64);
            let matrix: u32 = read_u32_at(data, o).unwrap();
            let constraint: u32 = read_u32_at(data, o + 4).unwrap();
            if matrix >= 2 || constraint >= ds {
                proof {
                    assert(44 * (i + 1) <= len - base - 4) by (nonlinear_arith)
                        requires
                            i < room,
                            room == (len - base - 4) / 44,
                            len - base - 4 >= 0,
                    ;
                    let rec = coeff_record(self.data@, self.coeffs_pos(), i as int);
                    assert(rec.0 == matrix && rec.1 == constraint);
                }
                return false;
            }
            if constraint > max_c {
                max_c = constraint;
            }
            i = i + 1;
        }
        proof {
            assert forall|k: int|
                0 <= k < self.num_coeffs() && fits(
                    self.data@.len(),
                    self.coeffs_pos(),
                    4 + 44 * (k + 1),
                ) implies (#[trigger] coeff_record(self.data@, self.coeffs_pos(), k)).0 < 2
                && coeff_record(self.data@, self.coeffs_pos(), k).1 < self.header_u32(48) by {
                if k >= i {
                    assert(44 * (k + 1) <= len - base - 4);
                    assert(k + 1 <= (len - base - 4) / 44) by (nonlinear_arith)
                        requires
                            44 * (k + 1) <= len - base - 4,
                            len - base - 4 >= 0,
                    ;
                }
            }
        }
        if i < num {
            proof {
                assert(!fits(self.data@.len(), self.coeffs_pos(), 4 + 44 * self.num_coeffs() as int))
                    by {
                    assert(44 * (room + 1) > len - base - 4) by (nonlinear_arith)
                        requires
                            room == (len - base - 4) / 44,
                            len - base - 4 >= 0,
                    ;
                }
            }
            return true;
        }
        proof {
            assert(fits(self.data@.len(), self.coeffs_pos(), 4 + 44 * self.num_coeffs() as int)) by {
                assert(44 * room <= len - base - 4) by (nonlinear_arith)
                    requires
                        room == (len - base - 4) / 44,
                        len - base - 4 >= 0,
                ;
            }
        }
        max_c >= n_public && n_vars >= n_public && (n_public as u64) + 1 <= usize::MAX as u64
    }

    /// Whether `proving_key` can be called: each section it reaches exists and
    /// the counts are in range.
    pub fn proving_key_readable(&self) -> (r: bool)
        ensures
            r == self.pk_well_formed(),
    {
        if !self.has_section(2) {
            return false;
        }
        let data = self.data.as_slice();
        let len: usize = data.len();
        let n: usize = self.curve.fq_len();
        let p: u64 = self.get_section(2).position;
        if p > len as u64 || (len as u64) - p < (52 + 19 * n) as u64 {
            return true;
        }
        let n_vars: u32 = read_u32_at(data, p + n as u64 + 40).unwrap();
        let n_public: u32 = read_u32_at(data, p + n as u64 + 44).unwrap();
        let ds: u32 = read_u32_at(data, p + n as u64 + 48).unwrap();
        if !self.has_section(3) || (n_public as u64) + 1 > usize::MAX as u64 {
            return false;
        }
        let ic: u32 = #[verifier::truncate] ((n_public as u64 + 1) as u32);
        if !self.g1_section_fits(ic, 3) {
            return true;
        }
        if !self.has_section(5) {
            return false;
        }
        if !self.g1_section_fits(n_vars, 5) {
            return true;
        }
        if !self.has_section(6) {
            return false;
        }
        if !self.g1_section_fits(n_vars, 6) {
            return true;
        }
        if !self.has_section(7) {
            return false;
        }
        if !self.g2_section_fits(n_vars, 7) {
            return true;
        }
        if !self.has_section(8) || (n_vars as u64) < (n_public as u64) + 1 {
            return false;
        }
        if !self.g1_section_fits(n_vars - n_public - 1, 8) {
            return true;
        }
        self.has_section(9)
    }

    fn g1_section_fits(&self, count: u32, id: u32) -> (r: bool)
        requires
            self.section_first(id) is Some,
        ensures
            r == self.g1_fit(id, count as nat),
    {
        let pos: u64 = self.get_section(id).position;
        let len: usize = self.data.len();
        let step: u64 = 2 * self.curve.fq_len() as u64;
        let fits_all = pos <= len as u64 && ((len as u64) - pos) / step >= count as u64;
        proof {
            if pos <= len {
                if ((len - pos) / step as int) >= count {
                    assert((count as int) * step <= len - pos) by (nonlinear_arith)
                        requires
                            step > 0,
                            ((len - pos) / step as int) >= count,
                            len >= pos,
                    ;
                } else {
                    assert((count as int) * step > len - pos) by (nonlinear_arith)
                        requires
                            step > 0,
                            ((len - pos) / step as int) < count,
                            len >= pos,
                    ;
                }
            }
        }
        fits_all
    }

    fn g2_section_fits(&self, count: u32, id: u32) -> (r: bool)
        requires
            self.section_first(id) is Some,
        ensures
            r == self.g2_fit(id, count as nat),
    {
        let pos: u64 = self.get_section(id).position;
        let len: usize = self.data.len();
        let step: u64 = 4 * self.curve.fq_len() as u64;
        let fits_all = pos <= len as u64 && ((len as u64) - pos) / step >= count as u64;
        proof {
            if pos <= len {
                if ((len - pos) / step as int) >= count {
                    assert((count as int) * step <= len - pos) by (nonlinear_arith)
                        requires
                            step > 0,
                            ((len - pos) / step as int) >= count,
                            len >= pos,
                    ;
                } else {
                    assert((count as int) * step > len - pos) by (nonlinear_arith)
                        requires
                            step > 0,
                            ((len - pos) / step as int) < count,
                            len >= pos,
                    ;
                }
            }
        }
        fits_all
    }
}

} // verus!
