//! Unsigned decimal numbers as they travel in the transfer headers.
//!
//! Reading follows `str::parse` for unsigned integers: one optional leading
//! `+`, then at least one ASCII digit and nothing else, and the value must
//! fit the target type. Writing produces the shortest digit string.

use vstd::prelude::*;

verus! {

/// ASCII `0`.
pub const DIGIT_ZERO: u8 = 48u8;

pub open spec fn is_digit(b: u8) -> bool {
    48 <= b <= 57
}

pub open spec fn all_digits(s: Seq<u8>) -> bool {
    forall|i: int| 0 <= i < s.len() ==> #[trigger] is_digit(s[i])
}

/// The value that a string of ASCII digits denotes.
pub open spec fn digits_value(s: Seq<u8>) -> nat
    decreases s.len(),
{
    if s.len() == 0 {
        0
    } else {
        digits_value(s.drop_last()) * 10 + (s.last() - DIGIT_ZERO) as nat
    }
}

/// The part of the text that holds the digits: a single leading `+` is skipped.
pub open spec fn unsigned_body(s: Seq<u8>) -> Seq<u8> {
    if s.len() > 0 && s[0] == 43u8 {
        s.drop_first()
    } else {
        s
    }
}

/// What parsing `s` as an unsigned integer no larger than `max` gives.
pub open spec fn parse_unsigned(s: Seq<u8>, max: nat) -> Option<nat> {
    let body = unsigned_body(s);
    if body.len() > 0 && all_digits(body) && digits_value(body) <= max {
        Some(digits_value(body))
    } else {
        None
    }
}

/// The shortest decimal spelling of `n`.
pub open spec fn decimal_digits(n: nat) -> Seq<u8>
    decreases n,
{
    if n < 10 {
        seq![(n + DIGIT_ZERO) as u8]
    } else {
        decimal_digits(n / 10).push(((n % 10) + DIGIT_ZERO) as u8)
    }
}

/// A longer digit string never denotes less than its prefix.
pub proof fn lemma_digits_value_prefix(s: Seq<u8>, k: int)
    requires
        all_digits(s),
        0 <= k <= s.len(),
    ensures
        digits_value(s.take(k)) <= digits_value(s),
    decreases s.len() - k,
{
    if k < s.len() {
        lemma_digits_value_prefix(s, k + 1);
        assert(s.take(k + 1).drop_last() =~= s.take(k));
        assert(is_digit(s[k]));
    } else {
        assert(s.take(k) =~= s);
    }
}

proof fn lemma_decimal_digits_facts(n: nat)
    ensures
        decimal_digits(n).len() > 0,
        all_digits(decimal_digits(n)),
        digits_value(decimal_digits(n)) == n,
        decimal_digits(n)[0] != 43u8,
    decreases n,
{
    let d = decimal_digits(n);
    if n >= 10 {
        lemma_decimal_digits_facts(n / 10);
        assert(d.drop_last() =~= decimal_digits(n / 10));
        assert((n / 10) * 10 + n % 10 == n) by (nonlinear_arith);
        assert(d.last() - DIGIT_ZERO == n % 10);
        assert forall|i: int| 0 <= i < d.len() implies #[trigger] is_digit(d[i]) by {
            if i < d.len() - 1 {
                assert(d[i] == decimal_digits(n / 10)[i]);
            }
        }
    } else {
        assert(d.drop_last() =~= Seq::<u8>::empty());
        assert(d.last() == n + DIGIT_ZERO);
        assert(digits_value(d.drop_last()) == 0);
    }
}

/// Reading back what was written gives the number that was written.
pub proof fn lemma_decimal_roundtrip(n: nat, max: nat)
    requires
        n <= max,
    ensures
        parse_unsigned(decimal_digits(n), max) == Some(n),
{
    lemma_decimal_digits_facts(n);
}

/// Parses `text` as an unsigned integer no larger than `max`.
pub fn parse_bounded(text: &[u8], max: u64) -> (res: Option<u64>)
    ensures
        match parse_unsigned(text@, max as nat) {
            Some(v) => res == Some(v as u64),
            None => res is None,
        },
{
    let mut start: usize = 0;
    if text.len() > 0 && text[0] == 43u8 {
        start = 1;
    }
    let ghost body = unsigned_body(text@);
    assert(body =~= text@.skip(start as int));
    if start >= text.len() {
        return None;
    }
    let mut value: u64 = 0;
    let mut i: usize = start;
    while i < text.len()
        invariant
            start <= i <= text.len(),
            body =~= text@.skip(start as int),
            body == unsigned_body(text@),
            all_digits(body.take(i - start)),
            value as nat == digits_value(body.take(i - start)),
            value <= max,
        decreases text.len() - i,
    {
        let b: u8 = text[i];
        if b < 48u8 || b > 57u8 {
            assert(body[i - start] == b);
            assert(!is_digit(body[i - start]));
            assert(!all_digits(body));
            assert(parse_unsigned(text@, max as nat) is None);
            return None;
        }
        let d: u64 = (b - 48u8) as u64;
        assert(body.take(i + 1 - start).drop_last() =~= body.take(i - start));
        assert(body.take(i + 1 - start).last() == b);
        if d > max || value > (max - d) / 10 {
            proof {
                assert(all_digits(body.take(i + 1 - start))) by {
                    assert forall|j: int| 0 <= j < i + 1 - start implies #[trigger] is_digit(
                        body.take(i + 1 - start)[j],
                    ) by {
                        if j < i - start {
                            assert(body.take(i + 1 - start)[j] == body.take(i - start)[j]);
                        }
                    }
                }
                assert(digits_value(body.take(i + 1 - start)) > max) by (nonlinear_arith)
                    requires
                        digits_value(body.take(i + 1 - start)) == value * 10 + d,
                        d > max || value > (max - d) / 10,
                        d <= 9,
                {
                }
                if all_digits(body) {
                    lemma_digits_value_prefix(body, i + 1 - start);
                }
            }
            return None;
        }
        value = value * 10 + d;
        i = i + 1;
        proof {
            assert forall|j: int| 0 <= j < i - start implies #[trigger] is_digit(
                body.take(i - start)[j],
            ) by {
                if j < i - 1 - start {
                    assert(body.take(i - start)[j] == body.take(i - 1 - start)[j]);
                }
            }
        }
    }
    assert(body.take(i - start) =~= body);
    Some(value)
}

/// Writes `n` in decimal, most significant digit first.
pub fn format_decimal(n: u64) -> (res: Vec<u8>)
    ensures
        res@ == decimal_digits(n as nat),
    decreases n,
{
    if n < 10 {
        let mut v: Vec<u8> = Vec::new();
        v.push((n as u8) + DIGIT_ZERO);
        v
    } else {
        let mut v = format_decimal(n / 10);
        v.push(((n % 10) as u8) + DIGIT_ZERO);
        v
    }
}


/// `z` ASCII zeros.
pub open spec fn zero_run(z: nat) -> Seq<u8> {
    Seq::new(z, |i: int| 48u8)
}

proof fn lemma_zero_run_prefix(z: nat, t: Seq<u8>)
    requires
        all_digits(t),
    ensures
        all_digits(zero_run(z) + t),
        digits_value(zero_run(z) + t) == digits_value(t),
    decreases t.len() + z,
{
    let s = zero_run(z) + t;
    assert forall|i: int| 0 <= i < s.len() implies #[trigger] is_digit(s[i]) by {
        if i >= z {
            assert(s[i] == t[i - z]);
        }
    }
    if t.len() > 0 {
        lemma_zero_run_prefix(z, t.drop_last());
        assert(s.drop_last() =~= zero_run(z) + t.drop_last());
        assert(all_digits(t.drop_last()));
    } else if z > 0 {
        lemma_zero_run_prefix((z - 1) as nat, t);
        assert(s.drop_last() =~= zero_run((z - 1) as nat) + t);
    } else {
        assert(s =~= t);
    }
}

/// Every digit string is some zeros followed by the shortest spelling of its value.
proof fn lemma_digits_shape(t: Seq<u8>) -> (z: nat)
    requires
        all_digits(t),
        t.len() > 0,
    ensures
        t == zero_run(z) + decimal_digits(digits_value(t)),
    decreases t.len(),
{
    let c = t.last();
    assert(is_digit(t[t.len() - 1]));
    let d: nat = (c - 48) as nat;
    let head = t.drop_last();
    assert(all_digits(head));
    if head.len() == 0 {
        assert(digits_value(head) == 0);
        assert(t =~= zero_run(0) + decimal_digits(digits_value(t)));
        0
    } else {
        let z1 = lemma_digits_shape(head);
        let v1 = digits_value(head);
        if v1 == 0 {
            assert(decimal_digits(0) =~= seq![48u8]);
            assert(head =~= zero_run(z1 + 1));
            assert(digits_value(t) == d);
            assert(decimal_digits(d) =~= seq![c]);
            assert(t =~= zero_run(z1 + 1) + decimal_digits(digits_value(t)));
            z1 + 1
        } else {
            let v = digits_value(t);
            assert(v == v1 * 10 + d);
            assert(v / 10 == v1 && v % 10 == d && v >= 10) by (nonlinear_arith)
                requires
                    v == v1 * 10 + d,
                    d < 10,
                    v1 > 0,
            ;
            assert(decimal_digits(v) == decimal_digits(v1).push(c));
            assert(t =~= head.push(c));
            assert((zero_run(z1) + decimal_digits(v1)).push(c) =~= zero_run(z1) + decimal_digits(v1).push(c));
            assert(t =~= zero_run(z1) + decimal_digits(v));
            z1
        }
    }
}

/// What reads as a number: exactly some ASCII zeros followed by the shortest
/// spelling of a number no larger than the bound, optionally after one `+`.
pub proof fn lemma_parse_form(s: Seq<u8>, max: nat, v: nat)
    ensures
        parse_unsigned(s, max) == Some(v) <==> (v <= max && exists|z: nat|
            s == zero_run(z) + decimal_digits(v) || s == seq![43u8] + zero_run(z) + decimal_digits(
                v,
            )),
{
    lemma_decimal_digits_facts(v);
    if parse_unsigned(s, max) == Some(v) {
        let body = unsigned_body(s);
        let z = lemma_digits_shape(body);
        assert(digits_value(body) == v);
        assert(body == zero_run(z) + decimal_digits(v));
        if s.len() > 0 && s[0] == 43u8 {
            assert(body == s.drop_first());
            assert(s =~= seq![43u8] + s.drop_first());
            assert(s =~= seq![43u8] + zero_run(z) + decimal_digits(v));
        }
    }
    if v <= max && exists|z: nat|
        s == zero_run(z) + decimal_digits(v) || s == seq![43u8] + zero_run(z) + decimal_digits(v) {
        let z = choose|z: nat|
            s == zero_run(z) + decimal_digits(v) || s == seq![43u8] + zero_run(z) + decimal_digits(v);
        let t = zero_run(z) + decimal_digits(v);
        lemma_zero_run_prefix(z, decimal_digits(v));
        if s == t {
            assert(t[0] != 43u8) by {
                if z > 0 {
                    assert(t[0] == 48u8);
                } else {
                    assert(t[0] == decimal_digits(v)[0]);
                }
            }
            assert(unsigned_body(s) == t);
        } else {
            assert(s[0] == 43u8);
            assert(s.drop_first() =~= t);
        }
    }
}

/// The shortest spelling: ASCII digits only, no leading zero except for the
/// number zero itself, and one more digit for each factor of ten.
pub proof fn lemma_decimal_digits_shape(q: nat, r: nat)
    requires
        r < 10,
    ensures
        forall|i: int| 0 <= i < decimal_digits(q).len() ==> 48 <= #[trigger] decimal_digits(q)[i] <= 57,
        q > 0 ==> decimal_digits(q)[0] != 48u8,
        q < 10 ==> decimal_digits(q) == seq![(q + 48) as u8],
        q > 0 ==> decimal_digits(q * 10 + r) == decimal_digits(q).push((r + 48) as u8),
    decreases q,
{
    lemma_decimal_digits_facts(q);
    assert(forall|i: int| 0 <= i < decimal_digits(q).len() ==> #[trigger] is_digit(decimal_digits(q)[i]));
    if q >= 10 {
        lemma_decimal_digits_shape(q / 10, 0);
        assert(decimal_digits(q)[0] == decimal_digits(q / 10)[0]);
    }
    if q > 0 {
        let n = q * 10 + r;
        assert(n / 10 == q && n % 10 == r && n >= 10) by (nonlinear_arith)
            requires
                n == q * 10 + r,
                r < 10,
                q > 0,
        ;
    }
}

} // verus!
