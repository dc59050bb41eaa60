//! The text of decimal literals written the way Rust writes a 64-bit float:
//! in exponent form (`{:e}`) and in the `Debug` form.
//!
//! A literal is read as digits, an optional '.', and more digits. Its significant digits are
//! the digits without the leading and trailing zeros; the exponent is that of the first of them.
//! Both forms print these digits exactly, which is what Rust prints for a literal of at most
//! fifteen significant digits. A literal with more digits than a 64-bit float holds, or beyond
//! its range, prints here with all its own digits, where a parsed `f64` would print rounded
//! (`0.1000000000000000055511151231257827` as `1e-1`) or as `inf`: this library holds no
//! floating-point values, so literals are kept as their text.
use vstd::prelude::*;
use crate::text::{int_decimal, push_char, push_str, i128_to_decimal};

verus! {

/// The index of the first '.' in `t`, or its length when there is none.
pub open spec fn dot_index(t: Seq<char>) -> nat
    decreases t.len(),
{
    if t.len() == 0 {
        0
    } else if t[0] == '.' {
        0
    } else {
        dot_index(t.drop_first()) + 1
    }
}

/// The digits of a literal without its '.'.
pub open spec fn literal_digits(t: Seq<char>) -> Seq<char> {
    let d = dot_index(t);
    if d < t.len() {
        t.subrange(0, d as int) + t.subrange(d as int + 1, t.len() as int)
    } else {
        t
    }
}

/// The number of leading '0' characters of `d`.
pub open spec fn lead_zeros(d: Seq<char>) -> nat
    decreases d.len(),
{
    if d.len() > 0 && d[0] == '0' {
        lead_zeros(d.drop_first()) + 1
    } else {
        0
    }
}

/// `d` without its trailing '0' characters.
pub open spec fn strip_zeros_end(d: Seq<char>) -> Seq<char>
    decreases d.len(),
{
    if d.len() > 0 && d.last() == '0' {
        strip_zeros_end(d.drop_last())
    } else {
        d
    }
}

/// The significant digits of a literal: no leading or trailing zeros (empty for zero).
pub open spec fn sig_digits(t: Seq<char>) -> Seq<char> {
    strip_zeros_end(literal_digits(t).skip(lead_zeros(literal_digits(t)) as int))
}

/// The decimal exponent of the first significant digit.
pub open spec fn exponent(t: Seq<char>) -> int {
    dot_index(t) - 1 - lead_zeros(literal_digits(t))
}

/// `n` zero characters.
pub open spec fn zeros(n: nat) -> Seq<char> {
    Seq::new(n, |i: int| '0')
}

/// The literal in exponent form, as Rust's `{:e}` writes a float: `3.14e0`, `1e2`, `5e-1`, `0e0`.
/// Its own digits are kept: for a literal that a 64-bit float cannot hold exactly to fifteen
/// digits, or beyond its range, this differs from the parsed float's `{:e}`.
pub open spec fn float_exp_text(t: Seq<char>) -> Seq<char> {
    let s = sig_digits(t);
    if s.len() == 0 {
        seq!['0', 'e', '0']
    } else {
        seq![s[0]] + (if s.len() > 1 { seq!['.'] + s.skip(1) } else { Seq::empty() }) + seq!['e']
            + int_decimal(exponent(t))
    }
}

/// The literal as Rust's `Debug` writes a float: plain decimals with at least one fractional
/// digit when the exponent is in -4..=15, the exponent form otherwise.
pub open spec fn float_debug_text(t: Seq<char>) -> Seq<char> {
    let s = sig_digits(t);
    let e = exponent(t);
    if s.len() == 0 {
        seq!['0', '.', '0']
    } else if e < -4 || e >= 16 {
        float_exp_text(t)
    } else if e >= 0 {
        if s.len() > e + 1 {
            s.take(e + 1) + seq!['.'] + s.skip(e + 1)
        } else {
            s + zeros((e + 1 - s.len()) as nat) + seq!['.', '0']
        }
    } else {
        seq!['0', '.'] + zeros((-e - 1) as nat) + s
    }
}

proof fn lemma_dot_index(t: Seq<char>)
    ensures
        dot_index(t) <= t.len(),
        dot_index(t) < t.len() ==> t[dot_index(t) as int] == '.',
        forall|i: int| 0 <= i < dot_index(t) ==> t[i] != '.',
    decreases t.len(),
{
    if t.len() > 0 && t[0] != '.' {
        lemma_dot_index(t.drop_first());
        assert forall|i: int| 0 <= i < dot_index(t) implies t[i] != '.' by {
            if i > 0 {
                assert(t[i] == t.drop_first()[i - 1]);
            }
        }
    }
}

proof fn lemma_dot_index_unique(t: Seq<char>, k: nat)
    requires
        k <= t.len(),
        k < t.len() ==> t[k as int] == '.',
        forall|i: int| 0 <= i < k ==> t[i] != '.',
    ensures
        dot_index(t) == k,
    decreases t.len(),
{
    if t.len() > 0 && k > 0 {
        assert forall|i: int| 0 <= i < k - 1 implies t.drop_first()[i] != '.' by {
            assert(t.drop_first()[i] == t[i + 1]);
        }
        lemma_dot_index_unique(t.drop_first(), (k - 1) as nat);
    }
}

proof fn lemma_lead_zeros(d: Seq<char>, k: nat)
    requires
        k <= d.len(),
        forall|i: int| 0 <= i < k ==> d[i] == '0',
        k < d.len() ==> d[k as int] != '0',
    ensures
        lead_zeros(d) == k,
    decreases d.len(),
{
    if k > 0 {
        assert forall|i: int| 0 <= i < k - 1 implies d.drop_first()[i] == '0' by {
            assert(d.drop_first()[i] == d[i + 1]);
        }
        lemma_lead_zeros(d.drop_first(), (k - 1) as nat);
    }
}

proof fn lemma_strip_zeros_end(d: Seq<char>, k: nat)
    requires
        k <= d.len(),
        forall|i: int| k <= i < d.len() ==> d[i] == '0',
        k > 0 ==> d[k - 1] != '0',
    ensures
        strip_zeros_end(d) == d.take(k as int),
    decreases d.len(),
{
    if d.len() > k {
        assert(d.last() == '0');
        assert forall|i: int| k <= i < d.drop_last().len() implies d.drop_last()[i] == '0' by {}
        lemma_strip_zeros_end(d.drop_last(), k);
        assert(d.drop_last().take(k as int) =~= d.take(k as int));
    } else {
        assert(d.take(k as int) =~= d);
    }
}

/// The significant digits and the exponent of a literal.
fn sig_and_exponent(t: &Vec<char>) -> (r: (Vec<char>, i128))
    ensures
        r.0@ == sig_digits(t@),
        r.1 as int == exponent(t@),
{
    let n = t.len();
    let mut d: usize = 0;
    while d < n && t[d] != '.'
        invariant
            d <= n == t@.len(),
            forall|i: int| 0 <= i < d ==> t@[i] != '.',
        decreases n - d,
    {
        d += 1;
    }
    proof {
        lemma_dot_index_unique(t@, d as nat);
    }
    let mut digits: Vec<char> = Vec::new();
    let mut i: usize = 0;
    while i < n
        invariant
            d <= n == t@.len(),
            i <= n,
            digits@ == (if i <= d { t@.subrange(0, i as int) } else { t@.subrange(0, d as int) + t@.subrange(d + 1, i as int) }),
        decreases n - i,
    {
        if i != d {
            digits.push(t[i]);
        }
        proof {
            if i < d {
                assert(t@.subrange(0, i + 1) =~= t@.subrange(0, i as int).push(t@[i as int]));
            } else if i == d {
                assert(t@.subrange(0, d as int) + t@.subrange(d + 1, i + 1) =~= t@.subrange(0, d as int));
            } else {
                assert(t@.subrange(0, d as int) + t@.subrange(d + 1, i + 1) =~= (t@.subrange(0, d as int)
                    + t@.subrange(d + 1, i as int)).push(t@[i as int]));
            }
        }
        i += 1;
    }
    assert(digits@ == literal_digits(t@)) by {
        if d == n {
            assert(t@.subrange(0, n as int) =~= t@);
        }
    }
    let m = digits.len();
    let mut z: usize = 0;
    while z < m && digits[z] == '0'
        invariant
            z <= m == digits@.len(),
            forall|k: int| 0 <= k < z ==> digits@[k] == '0',
        decreases m - z,
    {
        z += 1;
    }
    proof {
        lemma_lead_zeros(digits@, z as nat);
    }
    let mut end: usize = m;
    while end > z && digits[end - 1] == '0'
        invariant
            z <= end <= m == digits@.len(),
            forall|k: int| end <= k < m ==> digits@[k] == '0',
        decreases end,
    {
        end -= 1;
    }
    let mut s: Vec<char> = Vec::new();
    let mut j: usize = z;
    while j < end
        invariant
            z <= j <= end <= m == digits@.len(),
            s@ == digits@.subrange(z as int, j as int),
        decreases end - j,
    {
        s.push(digits[j]);
        assert(digits@.subrange(z as int, j + 1) =~= digits@.subrange(z as int, j as int).push(digits@[j as int]));
        j += 1;
    }
    proof {
        let rest = digits@.skip(z as int);
        lemma_strip_zeros_end(rest, (end - z) as nat);
        assert(rest.take((end - z) as int) =~= digits@.subrange(z as int, end as int));
    }
    let e: i128 = d as i128 - 1 - z as i128;
    (s, e)
}

/// Appends the exponent form of the digits `s` with exponent `e`.
fn push_exp_form(out: &mut String, s: &Vec<char>, e: i128)
    requires
        s@.len() > 0,
    ensures
        final(out)@ == old(out)@ + seq![s@[0]] + (if s@.len() > 1 { seq!['.'] + s@.skip(1) } else { Seq::empty() })
            + seq!['e'] + int_decimal(e as int),
{
    push_char(out, s[0]);
    let ghost o1 = out@;
    if s.len() > 1 {
        push_char(out, '.');
        let mut k: usize = 1;
        while k < s.len()
            invariant
                1 <= k <= s@.len(),
                out@ == o1 + seq!['.'] + s@.subrange(1, k as int),
            decreases s@.len() - k,
        {
            push_char(out, s[k]);
            assert(s@.subrange(1, k + 1) =~= s@.subrange(1, k as int).push(s@[k as int]));
            k += 1;
        }
        assert(s@.subrange(1, s@.len() as int) =~= s@.skip(1));
    }
    push_char(out, 'e');
    let et = i128_to_decimal(e);
    push_str(out, et.as_str());
    assert(final_shape(old(out)@, s@, e as int, out@));
}

spec fn final_shape(o: Seq<char>, s: Seq<char>, e: int, out: Seq<char>) -> bool {
    out =~= o + seq![s[0]] + (if s.len() > 1 { seq!['.'] + s.skip(1) } else { Seq::empty() }) + seq!['e']
        + int_decimal(e)
}

/// The literal `text` in exponent form (Rust's `{:e}` for floats).
pub fn float_exp_string(text: &str) -> (r: String)
    ensures
        r@ == float_exp_text(text@),
{
    let t = crate::text::str_chars(text);
    let (s, e) = sig_and_exponent(&t);
    if s.len() == 0 {
        let r = String::from_str("0e0");
        proof {
            reveal_strlit("0e0");
            assert(r@ =~= seq!['0', 'e', '0']);
        }
        r
    } else {
        let mut out = String::new();
        push_exp_form(&mut out, &s, e);
        assert(out@ =~= float_exp_text(text@));
        out
    }
}

/// The literal `text` as the `Debug` of a float.
pub fn float_debug_string(text: &str) -> (r: String)
    ensures
        r@ == float_debug_text(text@),
{
    let t = crate::text::str_chars(text);
    let (s, e) = sig_and_exponent(&t);
    let mut out = String::new();
    if s.len() == 0 {
        let r = String::from_str("0.0");
        proof {
            reveal_strlit("0.0");
            assert(r@ =~= seq!['0', '.', '0']);
        }
        return r;
    }
    if e < -4 || e >= 16 {
        push_exp_form(&mut out, &s, e);
        assert(out@ =~= float_debug_text(text@));
        return out;
    }
    if e >= 0 {
        let w: usize = (e + 1) as usize;
        let mut k: usize = 0;
        while k < s.len() && k < w
            invariant
                k <= s@.len(),
                k <= w,
                out@ == s@.take(k as int),
            decreases s@.len() - k,
        {
            push_char(&mut out, s[k]);
            assert(s@.take(k + 1) =~= s@.take(k as int).push(s@[k as int]));
            k += 1;
        }
        if s.len() > w {
            push_char(&mut out, '.');
            let ghost o1 = out@;
            while k < s.len()
                invariant
                    w <= k <= s@.len(),
                    out@ == o1 + s@.subrange(w as int, k as int),
                decreases s@.len() - k,
            {
                push_char(&mut out, s[k]);
                assert(s@.subrange(w as int, k + 1) =~= s@.subrange(w as int, k as int).push(s@[k as int]));
                k += 1;
            }
            assert(s@.subrange(w as int, s@.len() as int) =~= s@.skip(w as int));
            assert(out@ =~= float_debug_text(text@));
        } else {
            assert(s@.take(k as int) =~= s@);
            let ghost o1 = out@;
            let mut z: usize = k;
            while z < w
                invariant
                    k <= z <= w,
                    out@ == o1 + zeros((z - k) as nat),
                decreases w - z,
            {
                push_char(&mut out, '0');
                assert(zeros((z + 1 - k) as nat) =~= zeros((z - k) as nat).push('0'));
                z += 1;
            }
            push_char(&mut out, '.');
            push_char(&mut out, '0');
            assert(out@ =~= float_debug_text(text@));
        }
        out
    } else {
        push_char(&mut out, '0');
        push_char(&mut out, '.');
        let ghost o1 = out@;
        let w: usize = (-e - 1) as usize;
        let mut z: usize = 0;
        while z < w
            invariant
                z <= w,
                out@ == o1 + zeros(z as nat),
            decreases w - z,
        {
            push_char(&mut out, '0');
            assert(zeros((z + 1) as nat) =~= zeros(z as nat).push('0'));
            z += 1;
        }
        let ghost o2 = out@;
        let mut k: usize = 0;
        while k < s.len()
            invariant
                k <= s@.len(),
                out@ == o2 + s@.take(k as int),
            decreases s@.len() - k,
        {
            push_char(&mut out, s[k]);
            assert(s@.take(k + 1) =~= s@.take(k as int).push(s@[k as int]));
            k += 1;
        }
        assert(s@.take(s@.len() as int) =~= s@);
        assert(out@ =~= float_debug_text(text@));
        out
    }
}

} // verus!
