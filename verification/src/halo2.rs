//! Halo2 circuit inputs: decimal strings read as integers below `2^128`, and
//! the proof bundle the Halo2 adapter returns.

use crate::adapters::MoproError;
use vstd::prelude::*;

verus! {

/// The value of the decimal digit `c` (`0` for any other character).
pub open spec fn digit_value(c: char) -> nat {
    if '0' <= c <= '9' {
        (c as u32 - '0' as u32) as nat
    } else {
        0
    }
}

/// The value of the decimal digits `s`.
pub open spec fn decimal_value(s: Seq<char>) -> nat
    decreases s.len(),
{
    if s.len() == 0 {
        0
    } else {
        decimal_value(s.drop_last()) * 10 + digit_value(s.last())
    }
}

/// Whether every character of `s` is an ASCII digit.
pub open spec fn all_digits(s: Seq<char>) -> bool {
    forall|i: int| 0 <= i < s.len() ==> '0' <= #[trigger] s[i] <= '9'
}

/// `u128::from_str`: an optional `+` and at least one decimal digit, of value
/// at most `u128::MAX`; `None` for anything else.
pub open spec fn u128_from_str(s: Seq<char>) -> Option<u128> {
    let body = if s.len() > 0 && s[0] == '+' {
        s.drop_first()
    } else {
        s
    };
    if body.len() > 0 && all_digits(body) && decimal_value(body) <= u128::MAX {
        Some(decimal_value(body) as u128)
    } else {
        None
    }
}

proof fn lemma_decimal_monotone(s: Seq<char>, k: int)
    requires
        0 <= k <= s.len(),
        all_digits(s),
    ensures
        decimal_value(s.take(k)) <= decimal_value(s),
    decreases s.len() - k,
{
    if k < s.len() {
        lemma_decimal_monotone(s, k + 1);
        assert(s.take(k + 1).drop_last() =~= s.take(k));
        assert('0' <= s[k] <= '9');
    } else {
        assert(s.take(k) =~= s);
    }
}

/// The integer written in decimal in `s`, or `None` where `u128::from_str`
/// refuses `s`.
pub fn parse_u128(s: &str) -> (r: Option<u128>)
    ensures
        r == u128_from_str(s@),
{
    let cs = crate::text::chars_of(s);
    let n: usize = cs.len();
    let start: usize = if n > 0 && cs[0] == '+' {
        1
    } else {
        0
    };
    let ghost body = if s@.len() > 0 && s@[0] == '+' {
        s@.drop_first()
    } else {
        s@
    };
    assert(body =~= s@.skip(start as int));
    if start == n {
        return None;
    }
    let mut v: u128 = 0;
    let mut i: usize = start;
    while i < n
        invariant
            start <= i <= n,
            n == s@.len(),
            cs@ == s@,
            body == s@.skip(start as int),
            body == (if s@.len() > 0 && s@[0] == '+' {
                s@.drop_first()
            } else {
                s@
            }),
            all_digits(body.take(i - start)),
            v == decimal_value(body.take(i - start)),
        decreases n - i,
    {
        let c = cs[i];
        assert(body.take(i - start + 1).drop_last() =~= body.take(i - start));
        assert(body[i - start] == c);
        assert(body.take(i - start + 1).last() == c);
        if !('0' <= c && c <= '9') {
            assert(!('0' <= body[i - start] <= '9'));
            assert(!all_digits(body));
            return None;
        }
        let d: u128 = ((c as u32) - ('0' as u32)) as u128;
        match v.checked_mul(10) {
            None => {
                proof {
                    assert forall|k: int| 0 <= k < i - start + 1 implies '0' <= #[trigger] body.take(
                        i - start + 1,
                    )[k] <= '9' by {
                        if k == i - start {
                            assert(body.take(i - start + 1)[k] == c);
                        } else {
                            assert(body.take(i - start + 1)[k] == body.take(i - start)[k]);
                        }
                    }
                    if all_digits(body) {
                        lemma_decimal_monotone(body, i - start + 1);
                    }
                }
                return None;
            },
            Some(m) => match m.checked_add(d) {
                None => {
                    proof {
                        assert forall|k: int|
                            0 <= k < i - start + 1 implies '0' <= #[trigger] body.take(
                            i - start + 1,
                        )[k] <= '9' by {
                            if k == i - start {
                                assert(body.take(i - start + 1)[k] == c);
                            } else {
                                assert(body.take(i - start + 1)[k] == body.take(i - start)[k]);
                            }
                        }
                        if all_digits(body) {
                            lemma_decimal_monotone(body, i - start + 1);
                        }
                    }
                    return None;
                },
                Some(w) => {
                    v = w;
                },
            },
        }
        assert forall|k: int| 0 <= k < i - start + 1 implies '0' <= #[trigger] body.take(
            i - start + 1,
        )[k] <= '9' by {
            if k == i - start {
                assert(body.take(i - start + 1)[k] == c);
            } else {
                assert(body.take(i - start + 1)[k] == body.take(i - start)[k]);
            }
        }
        i = i + 1;
    }
    assert(body.take(n - start) =~= body);
    Some(v)
}

/// The values of `inputs`, each parsed with `u128_from_str`.
pub open spec fn parsed_values(inputs: Seq<String>) -> Seq<u128> {
    inputs.map_values(|s: String| u128_from_str(s@)->0)
}

/// Whether every string of `inputs` is a decimal integer below `2^128`.
pub open spec fn all_parse(inputs: Seq<String>) -> bool {
    forall|i: int| 0 <= i < inputs.len() ==> u128_from_str((#[trigger] inputs[i])@) is Some
}

/// No two entries of `entries` have the same name, as in a map from names.
pub open spec fn distinct_names<T>(entries: Seq<(String, T)>) -> bool {
    forall|i: int, j: int|
        0 <= i < j < entries.len() ==> (#[trigger] entries[i]).0@ != (#[trigger] entries[j]).0@
}

/// The circuit inputs, a map from names to decimal values, with each value
/// read as an integer; the names and their order are kept. Every value must
/// be a decimal integer below `2^128`.
pub fn deserialize_circuit_inputs(ser_inputs: &Vec<(String, Vec<String>)>) -> (r: Vec<
    (String, Vec<u128>),
>)
    requires
        distinct_names(ser_inputs@),
        forall|i: int| 0 <= i < ser_inputs@.len() ==> all_parse((#[trigger] ser_inputs@[i]).1@),
    ensures
        distinct_names(r@),
        r@.len() == ser_inputs@.len(),
        forall|i: int|
            0 <= i < r@.len() ==> (#[trigger] r@[i]).0@ == ser_inputs@[i].0@ && r@[i].1@
                == parsed_values(ser_inputs@[i].1@),
{
    let mut out: Vec<(String, Vec<u128>)> = Vec::new();
    let mut i: usize = 0;
    while i < ser_inputs.len()
        invariant
            i <= ser_inputs@.len(),
            out@.len() == i,
            forall|k: int| 0 <= k < ser_inputs@.len() ==> all_parse((#[trigger] ser_inputs@[k]).1@),
            forall|k: int|
                0 <= k < i ==> (#[trigger] out@[k]).0@ == ser_inputs@[k].0@ && out@[k].1@
                    == parsed_values(ser_inputs@[k].1@),
        decreases ser_inputs@.len() - i,
    {
        let values = &ser_inputs[i].1;
        let mut parsed: Vec<u128> = Vec::new();
        let mut j: usize = 0;
        while j < values.len()
            invariant
                j <= values@.len(),
                all_parse(values@),
                parsed@ == parsed_values(values@).take(j as int),
            decreases values@.len() - j,
        {
            let v = parse_u128(values[j].as_str()).unwrap();
            parsed.push(v);
            assert(parsed@ =~= parsed_values(values@).take(j + 1));
            j = j + 1;
        }
        assert(parsed_values(values@).take(j as int) =~= parsed_values(values@));
        let name = ser_inputs[i].0.clone();
        out.push((name, parsed));
        i = i + 1;
    }
    assert forall|a: int, b: int| 0 <= a < b < out@.len() implies (#[trigger] out@[a]).0@ != (
    #[trigger] out@[b]).0@ by {
        assert(ser_inputs@[a].0@ != ser_inputs@[b].0@);
    }
    out
}

/// A Halo2 proof and its public inputs, as bytes.
#[derive(Debug, Clone, PartialEq, Eq)]
pub struct Halo2Output {
    pub proof: Vec<u8>,
    pub public_inputs: Vec<u8>,
}

/// What the Halo2 adapter returns for the result of a circuit's prove
/// function: the proof and public inputs, or the function's error message as
/// a prover error.
pub fn halo2_prove_output(result: Result<(Vec<u8>, Vec<u8>), String>) -> (r: Result<
    Halo2Output,
    MoproError,
>)
    ensures
        match result {
            Ok((proof, public_inputs)) => r matches Ok(o) && o.proof@ == proof@
                && o.public_inputs@ == public_inputs@,
            Err(e) => r matches Err(MoproError::ProverError(m)) && m@ == e@,
        },
{
    match result {
        Ok((proof, public_inputs)) => Ok(Halo2Output { proof, public_inputs }),
        Err(e) => Err(MoproError::ProverError(e)),
    }
}

/// What the Halo2 adapter returns for the result of a circuit's verify
/// function: the verdict, or the function's error message as a verifier error.
pub fn halo2_verify_result(result: Result<bool, String>) -> (r: Result<bool, MoproError>)
    ensures
        match result {
            Ok(b) => r == Ok::<bool, MoproError>(b),
            Err(e) => r matches Err(MoproError::VerifierError(m)) && m@ == e@,
        },
{
    match result {
        Ok(b) => Ok(b),
        Err(e) => Err(MoproError::VerifierError(e)),
    }
}

/// Which of its user's functions the Halo2 adapter calls.
#[derive(Debug, Clone, Copy, PartialEq, Eq, Structural)]
pub enum Halo2Call {
    Prove,
    Verify,
}

/// The paths the Halo2 adapter hands to its user's function for `call`: the
/// SRS, then the proving key to prove or the verifying key to verify.
pub fn halo2_key_paths(call: Halo2Call, srs_path: &str, pk_path: &str, vk_path: &str) -> (r: (
    String,
    String,
))
    ensures
        r.0@ == srs_path@,
        r.1@ == match call {
            Halo2Call::Prove => pk_path@,
            Halo2Call::Verify => vk_path@,
        },
{
    let key = match call {
        Halo2Call::Prove => pk_path,
        Halo2Call::Verify => vk_path,
    };
    (String::from_str(srs_path), String::from_str(key))
}

} // verus!
