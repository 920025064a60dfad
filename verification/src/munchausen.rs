//! Munchausen numbers: numbers equal to the sum of their digits, each raised
//! to its own power (with `0^0` taken as `0`).

use vstd::prelude::*;

verus! {

/// The sum of `cache[d]` over the decimal digits `d` of `n`.
pub open spec fn digit_power_sum(n: int, cache: Seq<i32>) -> int
    decreases n,
{
    if n <= 0 {
        0
    } else {
        cache[n % 10] + digit_power_sum(n / 10, cache)
    }
}

/// Whether `number` equals the sum of `cache[d]` over its digits `d`.
pub open spec fn is_munchausen(number: int, cache: Seq<i32>) -> bool {
    number >= 0 && digit_power_sum(number, cache) == number
}

proof fn lemma_sum_nonneg(n: int, cache: Seq<i32>)
    requires
        cache.len() == 10,
        forall|d: int| 0 <= d < 10 ==> cache[d] >= 0,
    ensures
        digit_power_sum(n, cache) >= 0,
    decreases n,
{
    if n > 0 {
        lemma_sum_nonneg(n / 10, cache);
    }
}

/// Whether `number` is a Munchausen number for the digit powers `cache`.
pub fn is_munchausen_number(number: i32, cache: &[i32; 10]) -> (r: bool)
    requires
        forall|d: int| 0 <= d < 10 ==> 0 <= #[trigger] cache@[d] && number + cache@[d] <= i32::MAX,
    ensures
        r == is_munchausen(number as int, cache@),
{
    if number <= 0 {
        return number == 0;
    }
    let mut current_number: i32 = number;
    let mut sum: i32 = 0;
    while current_number > 0
        invariant
            cache@.len() == 10,
            forall|d: int|
                0 <= d < 10 ==> 0 <= #[trigger] cache@[d] && number + cache@[d] <= i32::MAX,
            0 <= sum <= number,
            current_number >= 0,
            sum + digit_power_sum(current_number as int, cache@) == digit_power_sum(
                number as int,
                cache@,
            ),
        decreases current_number,
    {
        let digit: i32 = current_number % 10;
        sum = sum + cache[digit as usize];
        if sum > number {
            proof {
                lemma_sum_nonneg(current_number / 10, cache@);
            }
            return false;
        }
        current_number = current_number / 10;
    }
    number == sum
}

/// `d` raised to the power `e`.
pub open spec fn power(d: int, e: nat) -> int
    decreases e,
{
    if e == 0 {
        1
    } else {
        d * power(d, (e - 1) as nat)
    }
}

/// The power of each digit raised to itself, with `0^0` taken as `0`.
pub fn digit_powers() -> (r: [i32; 10])
    ensures
        r@[0] == 0,
        forall|d: int| 1 <= d < 10 ==> r@[d] == power(d, d as nat),
{
    let mut cache: [i32; 10] = [0; 10];
    let mut n: usize = 1;
    while n <= 9
        invariant
            1 <= n <= 10,
            cache@.len() == 10,
            cache@[0] == 0,
            forall|d: int| 1 <= d < n ==> cache@[d] == power(d, d as nat),
        decreases 10 - n,
    {
        let mut p: i32 = 1;
        let mut k: usize = 0;
        while k < n
            invariant
                k <= n <= 9,
                p == power(n as int, k as nat),
                1 <= p <= power(9, k as nat),
            decreases n - k,
        {
            proof {
                lemma_power_bound(n as int, k as nat);
                lemma_power_bound(n as int, (k + 1) as nat);
                lemma_power_nine(k as nat);
            }
            p = p * (n as i32);
            k = k + 1;
        }
        cache[n] = p;
        n = n + 1;
    }
    cache
}

proof fn lemma_power_bound(d: int, k: nat)
    requires
        1 <= d <= 9,
    ensures
        1 <= power(d, k) <= power(9, k),
        power(d, k + 1) == power(d, k) * d,
        power(9, k + 1) == power(9, k) * 9,
    decreases k,
{
    assert(power(d, k + 1) == d * power(d, k));
    assert(d * power(d, k) == power(d, k) * d) by (nonlinear_arith);
    assert(9 * power(9, k) == power(9, k) * 9) by (nonlinear_arith);
    if k > 0 {
        lemma_power_bound(d, (k - 1) as nat);
        let a = power(d, (k - 1) as nat);
        let b = power(9, (k - 1) as nat);
        assert(1 <= d * a <= 9 * b) by (nonlinear_arith)
            requires
                1 <= d <= 9,
                1 <= a <= b,
        ;
    }
}

proof fn lemma_power_nine(k: nat)
    requires
        k <= 8,
    ensures
        power(9, k + 1) <= 387420489,
    decreases k,
{
    reveal_with_fuel(power, 10);
    if k > 0 {
        lemma_power_nine((k - 1) as nat);
    }
}

/// The Munchausen numbers below `limit` for the digit powers `cache`, in
/// increasing order.
pub fn munchausen_numbers_below(limit: i32, cache: &[i32; 10]) -> (r: Vec<i32>)
    requires
        forall|d: int| 0 <= d < 10 ==> 0 <= #[trigger] cache@[d] && limit + cache@[d] <= i32::MAX,
    ensures
        forall|i: int| 0 <= i < r@.len() ==> 0 <= #[trigger] r@[i] < limit && is_munchausen(r@[i] as int, cache@),
        forall|i: int, j: int| 0 <= i < j < r@.len() ==> r@[i] < r@[j],
        forall|n: int| 0 <= n < limit && is_munchausen(n, cache@) ==> r@.contains(n as i32),
{
    let mut found: Vec<i32> = Vec::new();
    let mut n: i32 = 0;
    while n < limit
        invariant
            0 <= n,
            n <= limit || (n == 0 && found@.len() == 0),
            forall|d: int| 0 <= d < 10 ==> 0 <= #[trigger] cache@[d] && limit + cache@[d] <= i32::MAX,
            forall|i: int| 0 <= i < found@.len() ==> 0 <= #[trigger] found@[i] < n && is_munchausen(found@[i] as int, cache@),
            forall|i: int, j: int| 0 <= i < j < found@.len() ==> found@[i] < found@[j],
            forall|m: int| 0 <= m < n && is_munchausen(m, cache@) ==> found@.contains(m as i32),
        decreases limit - n,
    {
        let ghost before = found@;
        if is_munchausen_number(n, cache) {
            found.push(n);
            assert(found@[found@.len() - 1] == n);
        }
        proof {
            assert forall|m: int| 0 <= m < n + 1 && is_munchausen(m, cache@) implies found@.contains(
                m as i32,
            ) by {
                if m == n {
                    assert(found@[found@.len() - 1] == n);
                } else {
                    let k = choose|k: int| 0 <= k < before.len() && before[k] == m as i32;
                    assert(found@[k] == m as i32);
                }
            }
        }
        n = n + 1;
    }
    found
}

} // verus!
