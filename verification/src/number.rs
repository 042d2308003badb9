//! Decimal integer parsing with the grammar of std's `from_str` for integers: an
//! optional sign (`-` only for signed types), then one or more ASCII digits, the
//! value within the type's range.
use vstd::prelude::*;

verus! {

pub open spec fn is_digit(c: char) -> bool {
    '0' <= c <= '9'
}

pub open spec fn digit_val(c: char) -> int {
    c as int - '0' as int
}

/// One or more digits.
pub open spec fn all_digits(d: Seq<char>) -> bool {
    d.len() > 0 && forall|i: int| 0 <= i < d.len() ==> is_digit(#[trigger] d[i])
}

/// The value of a run of digits, most significant first.
pub open spec fn digits_value(d: Seq<char>) -> int
    decreases d.len(),
{
    if d.len() == 0 {
        0
    } else {
        digits_value(d.drop_last()) * 10 + digit_val(d.last())
    }
}

/// The integer a string denotes: optional `+` (or `-` when `signed`), then digits.
pub open spec fn parse_int_spec(s: Seq<char>, signed: bool) -> Option<int> {
    if s.len() == 0 {
        None
    } else if s[0] == '+' {
        if all_digits(s.drop_first()) { Some(digits_value(s.drop_first())) } else { None }
    } else if s[0] == '-' && signed {
        if all_digits(s.drop_first()) { Some(-digits_value(s.drop_first())) } else { None }
    } else if all_digits(s) {
        Some(digits_value(s))
    } else {
        None
    }
}

/// What `str::parse::<i32>` gives, as an option.
pub open spec fn parse_i32_spec(s: Seq<char>) -> Option<i32> {
    match parse_int_spec(s, true) {
        Some(v) => if i32::MIN <= v <= i32::MAX { Some(v as i32) } else { None },
        None => None,
    }
}

/// What `str::parse::<usize>` gives, as an option.
pub open spec fn parse_usize_spec(s: Seq<char>) -> Option<usize> {
    match parse_int_spec(s, false) {
        Some(v) => if 0 <= v <= usize::MAX { Some(v as usize) } else { None },
        None => None,
    }
}

/// The character of decimal digit `d` (for `0 <= d <= 9`).
pub open spec fn digit_char(d: int) -> char {
    if d == 0 { '0' } else if d == 1 { '1' } else if d == 2 { '2' } else if d == 3 { '3' }
    else if d == 4 { '4' } else if d == 5 { '5' } else if d == 6 { '6' } else if d == 7 { '7' }
    else if d == 8 { '8' } else { '9' }
}

/// `n` in decimal, most significant digit first, with no leading zero (`0` for zero).
pub open spec fn nat_text(n: nat) -> Seq<char>
    decreases n,
{
    if n < 10 {
        seq![digit_char(n as int)]
    } else {
        nat_text(n / 10).push(digit_char((n % 10) as int))
    }
}

/// `v` in decimal, `-` before a negative value: the text `i32::to_string` writes.
pub open spec fn i32_text(v: i32) -> Seq<char> {
    if v < 0 {
        seq!['-'] + nat_text((-(v as int)) as nat)
    } else {
        nat_text(v as nat)
    }
}

proof fn lemma_digit_char(d: int)
    requires
        0 <= d <= 9,
    ensures
        is_digit(digit_char(d)),
        digit_val(digit_char(d)) == d,
{
}

/// The decimal text of `n` is a run of digits whose value is `n`.
pub proof fn lemma_nat_text_value(n: nat)
    ensures
        all_digits(nat_text(n)),
        digits_value(nat_text(n)) == n,
    decreases n,
{
    if n < 10 {
        lemma_digit_char(n as int);
        let t = nat_text(n);
        assert(t.drop_last() =~= Seq::<char>::empty());
        assert(digits_value(Seq::<char>::empty()) == 0);
        assert(t.last() == digit_char(n as int));
        assert(digits_value(t) == digits_value(t.drop_last()) * 10 + digit_val(t.last()));
    } else {
        lemma_nat_text_value(n / 10);
        lemma_digit_char((n % 10) as int);
        let t = nat_text(n);
        assert(t.drop_last() =~= nat_text(n / 10));
        assert(t.last() == digit_char((n % 10) as int));
        assert(digits_value(t) == digits_value(t.drop_last()) * 10 + digit_val(t.last()));
        assert(n == (n / 10) * 10 + n % 10);
    }
}

/// Reading back what `format_i32` wrote gives the same value: for every `i32`, parsing
/// its decimal text yields it.
pub proof fn lemma_i32_text_round_trip(v: i32)
    ensures
        parse_i32_spec(i32_text(v)) == Some(v),
{
    if v < 0 {
        let m = (-(v as int)) as nat;
        lemma_nat_text_value(m);
        let s = i32_text(v);
        assert(s.drop_first() =~= nat_text(m));
    } else {
        lemma_nat_text_value(v as nat);
        let s = nat_text(v as nat);
        assert(is_digit(s[0]));
    }
}

/// Appends the decimal digits of `m` to `out`.
fn push_decimal(m: u32, out: &mut Vec<char>)
    ensures
        final(out)@ == old(out)@ + nat_text(m as nat),
    decreases m,
{
    if m >= 10 {
        push_decimal(m / 10, out);
    }
    let d = m % 10;
    let c = if d == 0 { '0' } else if d == 1 { '1' } else if d == 2 { '2' } else if d == 3 { '3' }
        else if d == 4 { '4' } else if d == 5 { '5' } else if d == 6 { '6' } else if d == 7 { '7' }
        else if d == 8 { '8' } else { '9' };
    let ghost before = out@;
    out.push(c);
    proof {
        if m >= 10 {
            assert(nat_text(m as nat) == nat_text((m / 10) as nat).push(digit_char((m % 10) as int)));
        } else {
            assert(m % 10 == m);
        }
        assert(c == digit_char((m % 10) as int));
    }
}

/// `x` clamped into `[lo, hi]`.
pub open spec fn clamp_spec(x: int, lo: int, hi: int) -> int {
    if x < lo { lo } else if x > hi { hi } else { x }
}

/// A spinner's value after `amount` notches of `step`: `(value + amount * step)`
/// clamped into `[min, max]`, as `i32::clamp` computes it. (The range must be ordered,
/// and the step and the stepped value must fit an `i32`, as the `i32` arithmetic asks.)
pub fn spin_step(value: i32, amount: i32, step: i32, min: i32, max: i32) -> (r: i32)
    requires
        min <= max,
        i32::MIN <= amount * step <= i32::MAX,
        i32::MIN <= value + amount * step <= i32::MAX,
    ensures
        r == clamp_spec(value + amount * step, min as int, max as int),
{
    let raw: i32 = value + amount * step;
    if raw < min { min } else if raw > max { max } else { raw }
}

/// `v` in decimal, as `i32::to_string` writes it.
pub fn format_i32(v: i32) -> (s: String)
    ensures
        s@ == i32_text(v),
{
    let mut out: Vec<char> = Vec::new();
    if v < 0 {
        out.push('-');
        let wide: i64 = v as i64;
        let m: u32 = (0i64 - wide) as u32;
        push_decimal(m, &mut out);
        proof {
            assert(out@ =~= seq!['-'] + nat_text(m as nat));
        }
    } else {
        push_decimal(v as u32, &mut out);
        proof {
            assert(out@ =~= nat_text(v as nat));
        }
    }
    crate::text::chars_to_string(&out)
}

proof fn lemma_digits_value_nonneg(d: Seq<char>)
    requires
        forall|i: int| 0 <= i < d.len() ==> is_digit(#[trigger] d[i]),
    ensures
        digits_value(d) >= 0,
    decreases d.len(),
{
    if d.len() > 0 {
        lemma_digits_value_nonneg(d.drop_last());
    }
}

proof fn lemma_saturate_step(v: int, k: int, d: int)
    requires
        v >= 0,
        k > 0,
        0 <= d <= 9,
    ensures
        (if (if v < k { v } else { k }) * 10 + d < k { (if v < k { v } else { k }) * 10 + d } else { k })
            == (if v * 10 + d < k { v * 10 + d } else { k }),
{
    if v >= k {
        assert(v * 10 >= k * 10) by (nonlinear_arith)
            requires v >= k, k > 0;
    }
}

/// The value of the digits of `s` from `start` on, when they are one or more digits
/// and the value is at most `bound`.
fn parse_digits(s: &Vec<char>, start: usize, bound: u64) -> (r: Option<u64>)
    requires
        start <= s@.len(),
    ensures
        ({
            let d = s@.skip(start as int);
            r == if all_digits(d) && digits_value(d) <= bound {
                Some(digits_value(d) as u64)
            } else {
                None
            }
        }),
{
    if start >= s.len() {
        return None;
    }
    let k: u128 = (bound as u128) + 1;
    let mut acc: u128 = 0;
    let mut i: usize = start;
    let ghost d = s@.skip(start as int);
    proof {
        assert(s@.subrange(start as int, start as int) =~= Seq::<char>::empty());
    }
    while i < s.len()
        invariant
            start <= i <= s@.len(),
            d == s@.skip(start as int),
            k == bound + 1,
            forall|j: int| start <= j < i ==> is_digit(#[trigger] s@[j]),
            acc == if digits_value(s@.subrange(start as int, i as int)) < k {
                digits_value(s@.subrange(start as int, i as int))
            } else {
                k as int
            },
        decreases s.len() - i,
    {
        let c = s[i];
        if !('0' <= c && c <= '9') {
            proof {
                assert(d[i - start] == c);
            }
            return None;
        }
        let ghost pre = s@.subrange(start as int, i as int);
        let ghost nxt = s@.subrange(start as int, i + 1);
        proof {
            assert(nxt.drop_last() =~= pre);
            assert(nxt.last() == c);
            lemma_digits_value_nonneg(pre);
            lemma_saturate_step(digits_value(pre), k as int, digit_val(c));
        }
        let dv = ((c as u32) - ('0' as u32)) as u128;
        let nv = acc * 10 + dv;
        acc = if nv < k { nv } else { k };
        i = i + 1;
    }
    proof {
        assert(s@.subrange(start as int, i as int) =~= d);
        assert forall|j: int| 0 <= j < d.len() implies is_digit(#[trigger] d[j]) by {
            assert(d[j] == s@[start + j]);
        }
    }
    if acc <= bound as u128 {
        Some(acc as u64)
    } else {
        None
    }
}

/// `str::parse::<i32>`, as an option.
pub fn parse_i32(s: &Vec<char>) -> (r: Option<i32>)
    ensures
        r == parse_i32_spec(s@),
{
    if s.len() == 0 {
        return None;
    }
    if s[0] == '+' || s[0] == '-' {
        proof {
            assert(s@.skip(1) =~= s@.drop_first());
            lemma_digits_value_nonneg_if(s@.drop_first());
        }
        match parse_digits(s, 1, 2147483648) {
            Some(m) => {
                assert(m <= 2147483648);
                if s[0] == '-' {
                    let neg: i64 = 0 - (m as i64);
                    Some(neg as i32)
                } else if m <= 2147483647 {
                    Some(m as i32)
                } else {
                    None
                }
            }
            None => {
                proof {
                    lemma_digits_value_nonneg_if(s@.drop_first());
                }
                None
            }
        }
    } else {
        proof {
            assert(s@.skip(0) =~= s@);
            lemma_digits_value_nonneg_if(s@);
        }
        match parse_digits(s, 0, 2147483647) {
            Some(m) => Some(m as i32),
            None => {
                proof {
                    lemma_digits_value_nonneg_if(s@);
                }
                None
            }
        }
    }
}

proof fn lemma_digits_value_nonneg_if(d: Seq<char>)
    ensures
        all_digits(d) ==> digits_value(d) >= 0,
{
    if all_digits(d) {
        lemma_digits_value_nonneg(d);
    }
}

/// `str::parse::<usize>`, as an option.
pub fn parse_usize(s: &Vec<char>) -> (r: Option<usize>)
    ensures
        r == parse_usize_spec(s@),
{
    if s.len() == 0 {
        return None;
    }
    let start: usize = if s[0] == '+' { 1 } else { 0 };
    proof {
        assert(s@.skip(1) =~= s@.drop_first());
        assert(s@.skip(0) =~= s@);
        lemma_digits_value_nonneg_if(s@.skip(start as int));
    }
    match parse_digits(s, start, usize::MAX as u64) {
        Some(m) => Some(m as usize),
        None => None,
    }
}

} // verus!
