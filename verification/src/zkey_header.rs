//! Reading the Groth16 header at the start of a zkey file, to learn which
//! curve the key was made for before the whole file is read.
//!
//! The first two sections are read back to back from the start of the file:
//! section `1` must declare a Groth16 key, section `2` carries the field sizes
//! and moduli. The integers `q` and `r` are kept as their little-endian bytes.

use crate::bytes::{bytes_at, fits, le_u32, le_u64, read_u32_at};
use crate::zkey::{file_layout, header_at, section_table, seek_forward, Curve, HeaderGroth, Section};
use vstd::prelude::*;
use vstd::slice::{slice_subrange, slice_to_vec};

verus! {

/// What the header reader has learnt, and where it stands in the bytes.
pub struct HeaderState {
    pub offset: nat,
    pub n8q: u32,
    pub q: Seq<u8>,
    pub n8r: u32,
    pub r: Seq<u8>,
    pub n_vars: u32,
    pub n_public: u32,
    pub domain_size: u32,
}

/// The state after reading section `id` at `st.offset`; `None` where the
/// reader panics: a read past the end, a non-Groth16 key type, or a section
/// id other than `1` and `2`.
pub open spec fn read_section_spec(data: Seq<u8>, st: HeaderState, id: u32) -> Option<
    HeaderState,
> {
    let o = st.offset as int;
    if id == 1 {
        if fits(data.len(), o, 4) && le_u32(bytes_at(data, o, 4)) == 1 {
            Some(HeaderState { offset: (o + 4) as nat, ..st })
        } else {
            None
        }
    } else if id == 2 {
        if !fits(data.len(), o, 4) {
            None
        } else {
            let n8q = le_u32(bytes_at(data, o, 4));
            let o2 = o + 4 + n8q;
            if !fits(data.len(), o + 4, n8q as int) || !fits(data.len(), o2, 4) {
                None
            } else {
                let n8r = le_u32(bytes_at(data, o2, 4));
                let o3 = o2 + 4 + n8r;
                if !fits(data.len(), o2 + 4, n8r as int) || !fits(data.len(), o3, 12) {
                    None
                } else {
                    Some(
                        HeaderState {
                            offset: (o3 + 12) as nat,
                            n8q,
                            q: bytes_at(data, o + 4, n8q as int),
                            n8r,
                            r: bytes_at(data, o2 + 4, n8r as int),
                            n_vars: le_u32(bytes_at(data, o3, 4)),
                            n_public: le_u32(bytes_at(data, o3 + 4, 4)),
                            domain_size: le_u32(bytes_at(data, o3 + 8, 4)),
                        },
                    )
                }
            }
        }
    } else {
        None
    }
}

/// The state after reading the section id and length at `st.offset`, then the
/// section itself.
pub open spec fn next_section_spec(data: Seq<u8>, st: HeaderState) -> Option<HeaderState> {
    let o = st.offset as int;
    if !fits(data.len(), o, 12) {
        None
    } else {
        read_section_spec(
            data,
            HeaderState { offset: (o + 12) as nat, ..st },
            le_u32(bytes_at(data, o, 4)),
        )
    }
}

/// The state after parsing `data` from `st`: magic, version and section count,
/// then at most the first two sections. `None` where the reader panics.
pub open spec fn parse_spec(data: Seq<u8>, st: HeaderState) -> Option<HeaderState> {
    let o = st.offset as int;
    if !fits(data.len(), o, 12) {
        None
    } else {
        let num = le_u32(bytes_at(data, o + 8, 4));
        let st0 = HeaderState { offset: (o + 12) as nat, ..st };
        if num == 0 {
            Some(st0)
        } else {
            match next_section_spec(data, st0) {
                None => None,
                Some(st1) => if num == 1 {
                    Some(st1)
                } else {
                    next_section_spec(data, st1)
                },
            }
        }
    }
}

/// Reads the Groth16 header at the start of a zkey.
pub struct ZkeyHeaderReader {
    zkey_path: String,
    offset: usize,
    data: Option<Vec<u8>>,
    pub n8q: u32,
    pub n8r: u32,
    n_public: u32,
    n_vars: u32,
    domain_size: u32,
    pub q: Vec<u8>,
    pub r: Vec<u8>,
}

impl ZkeyHeaderReader {
    /// What the reader has learnt so far.
    pub closed spec fn state(self) -> HeaderState {
        HeaderState {
            offset: self.offset as nat,
            n8q: self.n8q,
            q: self.q@,
            n8r: self.n8r,
            r: self.r@,
            n_vars: self.n_vars,
            n_public: self.n_public,
            domain_size: self.domain_size,
        }
    }

    /// The path the reader was made for.
    pub closed spec fn spec_zkey_path(self) -> Seq<char> {
        self.zkey_path@
    }

    /// The bytes the reader was given, if any.
    pub closed spec fn spec_data(self) -> Option<Seq<u8>> {
        match self.data {
            Some(d) => Some(d@),
            None => None,
        }
    }

    /// A reader for the zkey at `zkey_path`, with nothing read yet.
    pub fn new(zkey_path: &str) -> (r: Self)
        ensures
            r.spec_zkey_path() == zkey_path@,
            r.spec_data() is None,
            r.state() == (HeaderState {
                offset: 0,
                n8q: 0,
                q: Seq::empty(),
                n8r: 0,
                r: Seq::empty(),
                n_vars: 0,
                n_public: 0,
                domain_size: 0,
            }),
    {
        ZkeyHeaderReader {
            zkey_path: zkey_path.to_string(),
            offset: 0,
            data: None,
            n8q: 0,
            n8r: 0,
            n_public: 0,
            n_vars: 0,
            domain_size: 0,
            q: Vec::new(),
            r: Vec::new(),
        }
    }

    /// The path the reader was made for.
    pub fn zkey_path(&self) -> (r: &str)
        ensures
            r@ == self.spec_zkey_path(),
    {
        self.zkey_path.as_str()
    }

    /// The number of variables of the circuit.
    pub fn n_vars(&self) -> (r: u32)
        ensures
            r == self.state().n_vars,
    {
        self.n_vars
    }

    /// The number of public inputs of the circuit.
    pub fn n_public(&self) -> (r: u32)
        ensures
            r == self.state().n_public,
    {
        self.n_public
    }

    /// The size of the evaluation domain.
    pub fn domain_size(&self) -> (r: u32)
        ensures
            r == self.state().domain_size,
    {
        self.domain_size
    }

    /// Whether parsing `zkey_bytes` from the current state completes without
    /// one of the failures that make the reader panic.
    pub fn parses(&self, zkey_bytes: &[u8]) -> (r: bool)
        ensures
            r == parse_spec(zkey_bytes@, self.state()) is Some,
    {
        parse_from(zkey_bytes, self.current()).is_some()
    }

    fn current(&self) -> (r: ParsedHeader)
        ensures
            r.state() == self.state(),
    {
        ParsedHeader {
            offset: self.offset,
            n8q: self.n8q,
            q: self.q.clone(),
            n8r: self.n8r,
            r: self.r.clone(),
            n_vars: self.n_vars,
            n_public: self.n_public,
            domain_size: self.domain_size,
        }
    }

    /// Takes `zkey_bytes` as the start of the zkey and reads its header: the
    /// magic, version and section count, then the first two sections.
    pub fn read_bytes(&mut self, zkey_bytes: Vec<u8>)
        requires
            parse_spec(zkey_bytes@, old(self).state()) is Some,
        ensures
            final(self).state() == parse_spec(zkey_bytes@, old(self).state())->0,
            final(self).spec_data() == Some(zkey_bytes@),
            final(self).spec_zkey_path() == old(self).spec_zkey_path(),
    {
        let parsed = parse_from(zkey_bytes.as_slice(), self.current()).unwrap();
        self.offset = parsed.offset;
        self.n8q = parsed.n8q;
        self.q = parsed.q;
        self.n8r = parsed.n8r;
        self.r = parsed.r;
        self.n_vars = parsed.n_vars;
        self.n_public = parsed.n_public;
        self.domain_size = parsed.domain_size;
        self.data = Some(zkey_bytes);
    }
}

/// The fields a header parse produces.
struct ParsedHeader {
    offset: usize,
    n8q: u32,
    q: Vec<u8>,
    n8r: u32,
    r: Vec<u8>,
    n_vars: u32,
    n_public: u32,
    domain_size: u32,
}

impl ParsedHeader {
    spec fn state(self) -> HeaderState {
        HeaderState {
            offset: self.offset as nat,
            n8q: self.n8q,
            q: self.q@,
            n8r: self.n8r,
            r: self.r@,
            n_vars: self.n_vars,
            n_public: self.n_public,
            domain_size: self.domain_size,
        }
    }
}

/// The `n` bytes at `pos`, which must lie inside `data`.
fn copy_at(data: &[u8], pos: usize, n: usize) -> (r: Vec<u8>)
    requires
        fits(data@.len(), pos as int, n as int),
    ensures
        r@ == bytes_at(data@, pos as int, n as int),
{
    let len: usize = data.len();
    slice_to_vec(slice_subrange(data, pos, pos + n))
}

/// Reads the section whose id and length are at `st.offset`.
fn next_section(data: &[u8], st: ParsedHeader) -> (r: Option<ParsedHeader>)
    ensures
        match next_section_spec(data@, st.state()) {
            Some(s1) => r matches Some(p) && p.state() == s1 && s1.offset <= data@.len(),
            None => r is None,
        },
{
    let len: usize = data.len();
    let pos: usize = st.offset;
    if pos > len || len - pos < 12 {
        return None;
    }
    let id: u32 = read_u32_at(data, pos as u64).unwrap();
    let o: usize = pos + 12;
    if id == 1 {
        if len - o < 4 {
            return None;
        }
        let key_type: u32 = read_u32_at(data, o as u64).unwrap();
        if key_type != 1 {
            return None;
        }
        Some(ParsedHeader { offset: o + 4, ..st })
    } else if id == 2 {
        if len - o < 4 {
            return None;
        }
        let n8q: u32 = read_u32_at(data, o as u64).unwrap();
        if len - o - 4 < n8q as usize || len - o - 4 - (n8q as usize) < 4 {
            return None;
        }
        let q = copy_at(data, o + 4, n8q as usize);
        let o2: usize = o + 4 + n8q as usize;
        let n8r: u32 = read_u32_at(data, o2 as u64).unwrap();
        if len - o2 - 4 < n8r as usize || len - o2 - 4 - (n8r as usize) < 12 {
            return None;
        }
        let r = copy_at(data, o2 + 4, n8r as usize);
        let o3: usize = o2 + 4 + n8r as usize;
        let n_vars: u32 = read_u32_at(data, o3 as u64).unwrap();
        let n_public: u32 = read_u32_at(data, (o3 + 4) as u64).unwrap();
        let domain_size: u32 = read_u32_at(data, (o3 + 8) as u64).unwrap();
        Some(ParsedHeader { offset: o3 + 12, n8q, q, n8r, r, n_vars, n_public, domain_size })
    } else {
        None
    }
}

/// Parses `data` from `st`: magic, version and section count, then at most
/// the first two sections.
fn parse_from(data: &[u8], st: ParsedHeader) -> (r: Option<ParsedHeader>)
    ensures
        match parse_spec(data@, st.state()) {
            Some(s) => r matches Some(p) && p.state() == s,
            None => r is None,
        },
{
    let len: usize = data.len();
    let o: usize = st.offset;
    if o > len || len - o < 12 {
        return None;
    }
    let num: u32 = read_u32_at(data, (o + 8) as u64).unwrap();
    let st0 = ParsedHeader { offset: o + 12, ..st };
    if num == 0 {
        return Some(st0);
    }
    match next_section(data, st0) {
        None => None,
        Some(st1) => {
            if num == 1 {
                Some(st1)
            } else {
                next_section(data, st1)
            }
        },
    }
}

/// The state of a reader that has read nothing.
pub open spec fn initial_state() -> HeaderState {
    HeaderState {
        offset: 0,
        n8q: 0,
        q: Seq::empty(),
        n8r: 0,
        r: Seq::empty(),
        n_vars: 0,
        n_public: 0,
        domain_size: 0,
    }
}

/// On a zkey whose first section is the 4-byte Groth16 key type and whose
/// second is the Groth16 header, with field sizes those of `curve`, the header
/// reader learns what the full reader finds in the Groth16 header: the field
/// sizes, `q`, `r` (as the 32 bytes stored right after the `n8r` field, which
/// the full reader converts to the scalar it holds), and the circuit's
/// variable count, public input count and domain size.
pub proof fn lemma_header_reader_agrees(data: Seq<u8>, curve: Curve, h: HeaderGroth)
    requires
        data.len() <= u64::MAX,
        file_layout(data) matches Ok((_, sections)) && sections.len() >= 2 && sections[0]
            == (Section { id: 1, position: 24, size: 4 }) && sections[1].id == 2,
        parse_spec(data, initial_state()) is Some,
        header_at(h, data, 40, curve),
        h.n8q == curve.spec_fq_len(),
        h.n8r == 32,
    ensures
        ({
            let st = parse_spec(data, initial_state())->0;
            &&& st.n8q == h.n8q
            &&& st.q == h.q@
            &&& st.n8r == h.n8r
            &&& st.r.len() == st.n8r
            &&& st.r == bytes_at(data, 48 + curve.spec_fq_len() as int, 32)
            &&& h.r@ == crate::zkey::zkey_fr(curve, st.r)
            &&& st.n_vars == h.n_vars
            &&& st.n_public == h.n_public
            &&& st.domain_size == h.domain_size
        }),
{
    let sections = file_layout(data)->Ok_0.1;
    let num = le_u32(bytes_at(data, 8, 4));
    let t = section_table(data, 12, num as nat);
    assert(t == Ok::<Seq<Section>, crate::zkey::ZkeyError>(sections));
    let len0 = le_u64(bytes_at(data, 16, 8));
    let next = seek_forward(24, len0)->0;
    let rest = section_table(data, next, (num - 1) as nat)->Ok_0;
    assert(sections[0] == (Section { id: le_u32(bytes_at(data, 12, 4)), position: 24, size: len0 }));
    assert(len0 == 4);
    assert(next == 28);
    assert(sections[1] == rest[0]);
    assert(rest[0].id == le_u32(bytes_at(data, 28, 4)));
}

} // verus!
