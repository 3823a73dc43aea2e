//! Text helpers: decimal integer parsing with the rules of std's
//! `FromStr` for integers, and decimal rendering of integers and
//! fixed-point values.

use vstd::prelude::*;

verus! {

// ── Specifications ───────────────────────────────────────────────────────────

pub open spec fn is_digit(c: char) -> bool {
    '0' <= c && c <= '9'
}

pub open spec fn digit_val(c: char) -> int {
    (c as int) - ('0' as int)
}

pub open spec fn all_digits(s: Seq<char>) -> bool {
    forall|i: int| 0 <= i < s.len() ==> is_digit(#[trigger] s[i])
}

/// The number written by a string of decimal digits (most significant first).
pub open spec fn digits_value(s: Seq<char>) -> int
    decreases s.len(),
{
    if s.len() == 0 {
        0
    } else {
        digits_value(s.drop_last()) * 10 + digit_val(s.last())
    }
}

/// The unsigned number a string denotes under std's integer parsing rules,
/// before any range check: an optional `+`, then one or more ASCII digits.
pub open spec fn unsigned_text_value(s: Seq<char>) -> Option<int> {
    let body = if s.len() > 0 && s[0] == '+' { s.drop_first() } else { s };
    if body.len() > 0 && all_digits(body) {
        Some(digits_value(body))
    } else {
        None
    }
}

/// What `s.parse::<u32>()` gives: `Some` exactly for an optional `+`
/// followed by one or more digits whose value fits in a `u32`.
pub open spec fn spec_parse_u32(s: Seq<char>) -> Option<u32> {
    match unsigned_text_value(s) {
        Some(v) => if v <= u32::MAX { Some(v as u32) } else { None },
        None => None,
    }
}

/// What `s.parse::<i32>()` gives: an optional sign, then one or more digits
/// whose signed value fits in an `i32`.
pub open spec fn spec_parse_i32(s: Seq<char>) -> Option<i32> {
    if s.len() > 0 && s[0] == '-' {
        let body = s.drop_first();
        if body.len() > 0 && all_digits(body) && digits_value(body) <= 0x8000_0000 {
            Some((-digits_value(body)) as i32)
        } else {
            None
        }
    } else {
        match unsigned_text_value(s) {
            Some(v) => if v <= i32::MAX { Some(v as i32) } else { None },
            None => None,
        }
    }
}

// ── Lemmas ───────────────────────────────────────────────────────────────────

pub proof fn lemma_digits_value_nonneg(s: Seq<char>)
    requires
        all_digits(s),
    ensures
        digits_value(s) >= 0,
    decreases s.len(),
{
    if s.len() > 0 {
        assert(all_digits(s.drop_last()));
        lemma_digits_value_nonneg(s.drop_last());
        assert(is_digit(s[s.len() - 1]));
    }
}

/// A digit string is worth at least as much as any of its prefixes.
pub proof fn lemma_digits_value_prefix(s: Seq<char>, k: int)
    requires
        all_digits(s),
        0 <= k <= s.len(),
    ensures
        digits_value(s.subrange(0, k)) <= digits_value(s),
    decreases s.len() - k,
{
    if k < s.len() {
        lemma_digits_value_prefix(s, k + 1);
        let p = s.subrange(0, k + 1);
        assert(p.drop_last() =~= s.subrange(0, k));
        assert(all_digits(p.drop_last()));
        lemma_digits_value_nonneg(p.drop_last());
        assert(is_digit(p.last()));
    } else {
        assert(s.subrange(0, k) =~= s);
    }
}

// ── Parsing ──────────────────────────────────────────────────────────────────

/// Reads the decimal digits `s[start..]` as a number no larger than `limit`.
/// `None` when that part is empty, holds a non-digit, or exceeds `limit`.
fn parse_digits_upto(s: &str, start: usize, limit: u64) -> (r: Option<u64>)
    requires
        start <= s@.len(),
    ensures
        ({
            let body = s@.subrange(start as int, s@.len() as int);
            match r {
                Some(v) => body.len() > 0 && all_digits(body) && v == digits_value(body)
                    && v <= limit,
                None => !(body.len() > 0 && all_digits(body) && digits_value(body) <= limit),
            }
        }),
{
    let n = s.unicode_len();
    let ghost body = s@.subrange(start as int, s@.len() as int);
    if start >= n {
        return None;
    }
    let mut acc: u64 = 0;
    let mut i = start;
    while i < n
        invariant
            start <= i <= n,
            n == s@.len(),
            body == s@.subrange(start as int, s@.len() as int),
            all_digits(body.subrange(0, i - start)),
            acc as int == digits_value(body.subrange(0, i - start)),
            acc <= limit,
        decreases n - i,
    {
        let c = s.get_char(i);
        if !('0' <= c && c <= '9') {
            proof {
                assert(body[i - start] == c);
                assert(!all_digits(body));
            }
            return None;
        }
        let d = (c as u64) - ('0' as u64);
        let ghost prev = body.subrange(0, i - start);
        let ghost next = body.subrange(0, i - start + 1);
        proof {
            assert(next.drop_last() =~= prev);
            assert(next.last() == c);
            assert(all_digits(next));
        }
        if d > limit {
            proof {
                assert(digits_value(next) > limit) by {
                    lemma_digits_value_nonneg(prev);
                }
                if all_digits(body) {
                    lemma_digits_value_prefix(body, i - start + 1);
                }
            }
            return None;
        }
        if acc > (limit - d) / 10 {
            proof {
                assert(acc * 10 + d > limit) by (nonlinear_arith)
                    requires
                        acc > (limit - d) / 10,
                        d <= 9,
                        d <= limit,
                ;
                assert(digits_value(next) > limit);
                if all_digits(body) {
                    lemma_digits_value_prefix(body, i - start + 1);
                }
            }
            return None;
        }
        proof {
            assert(acc * 10 + d <= limit) by (nonlinear_arith)
                requires
                    acc <= (limit - d) / 10,
                    d <= limit,
            ;
        }
        acc = acc * 10 + d;
        i = i + 1;
    }
    proof {
        assert(body.subrange(0, i - start) =~= body);
    }
    Some(acc)
}

/// `s.parse::<u32>().ok()`: an optional `+` followed by decimal digits.
pub fn parse_u32(s: &str) -> (r: Option<u32>)
    ensures
        r == spec_parse_u32(s@),
{
    let n = s.unicode_len();
    let start: usize = if n > 0 && s.get_char(0) == '+' { 1 } else { 0 };
    proof {
        let body = if s@.len() > 0 && s@[0] == '+' { s@.drop_first() } else { s@ };
        assert(body =~= s@.subrange(start as int, s@.len() as int));
    }
    match parse_digits_upto(s, start, 0xFFFF_FFFF) {
        Some(v) => Some(v as u32),
        None => None,
    }
}

/// `s.parse::<i32>().ok()`: an optional sign followed by decimal digits.
pub fn parse_i32(s: &str) -> (r: Option<i32>)
    ensures
        r == spec_parse_i32(s@),
{
    let n = s.unicode_len();
    if n > 0 && s.get_char(0) == '-' {
        proof {
            assert(s@.drop_first() =~= s@.subrange(1, s@.len() as int));
        }
        match parse_digits_upto(s, 1, 0x8000_0000) {
            Some(v) => Some((0 - (v as i64)) as i32),
            None => None,
        }
    } else {
        let start: usize = if n > 0 && s.get_char(0) == '+' { 1 } else { 0 };
        proof {
            let body = if s@.len() > 0 && s@[0] == '+' { s@.drop_first() } else { s@ };
            assert(body =~= s@.subrange(start as int, s@.len() as int));
        }
        match parse_digits_upto(s, start, 0x7FFF_FFFF) {
            Some(v) => Some(v as i32),
            None => None,
        }
    }
}

// ── Rendering ────────────────────────────────────────────────────────────────

pub open spec fn digit_char(d: int) -> char {
    (('0' as int) + d) as char
}

/// Decimal digits of a natural number, most significant first.
pub open spec fn nat_text(n: nat) -> Seq<char>
    decreases n,
{
    if n < 10 {
        seq![digit_char(n as int)]
    } else {
        nat_text(n / 10) + seq![digit_char((n % 10) as int)]
    }
}

/// Decimal text of an integer, with a leading `-` when negative.
pub open spec fn int_text(i: int) -> Seq<char> {
    if i < 0 {
        seq!['-'] + nat_text((-i) as nat)
    } else {
        nat_text(i as nat)
    }
}

/// `s` left-padded with zeros to at least `width` characters.
pub open spec fn zero_pad(s: Seq<char>, width: nat) -> Seq<char> {
    if s.len() < width {
        Seq::new((width - s.len()) as nat, |i: int| '0') + s
    } else {
        s
    }
}

pub open spec fn pow10(e: nat) -> nat
    decreases e,
{
    if e == 0 {
        1
    } else {
        10 * pow10((e - 1) as nat)
    }
}

/// A fixed-point value (four decimals) rounded to `places` decimals, exact
/// halves to the even neighbour, and written out; negative values keep
/// their `-` sign even when they round to zero, as Rust's float formatting
/// does.
pub open spec fn fixed_text(v: int, places: nat) -> Seq<char> {
    let m = pow10((4 - places) as nat);
    let a: nat = if v < 0 { (-v) as nat } else { v as nat };
    let q: nat = a / m;
    let rem: nat = a % m;
    let r: nat = if 2 * rem > m || (2 * rem == m && q % 2 == 1) { q + 1 } else { q };
    let ip: nat = r / pow10(places);
    let fp: nat = r % pow10(places);
    let sign = if v < 0 { seq!['-'] } else { Seq::<char>::empty() };
    let frac = if places > 0 {
        seq!['.'] + zero_pad(nat_text(fp), places)
    } else {
        Seq::<char>::empty()
    };
    sign + nat_text(ip) + frac
}

fn digit_str(d: u64) -> (r: &'static str)
    requires
        d < 10,
    ensures
        r@ == seq![digit_char(d as int)],
{
    proof {
        reveal_strlit("0");
        reveal_strlit("1");
        reveal_strlit("2");
        reveal_strlit("3");
        reveal_strlit("4");
        reveal_strlit("5");
        reveal_strlit("6");
        reveal_strlit("7");
        reveal_strlit("8");
        reveal_strlit("9");
    }
    if d == 0 {
        "0"
    } else if d == 1 {
        "1"
    } else if d == 2 {
        "2"
    } else if d == 3 {
        "3"
    } else if d == 4 {
        "4"
    } else if d == 5 {
        "5"
    } else if d == 6 {
        "6"
    } else if d == 7 {
        "7"
    } else if d == 8 {
        "8"
    } else {
        "9"
    }
}

/// Appends the decimal digits of `n`.
pub fn push_u128(out: &mut String, n: u128)
    ensures
        final(out)@ == old(out)@ + nat_text(n as nat),
    decreases n,
{
    if n >= 10 {
        push_u128(out, n / 10);
        out.append(digit_str((n % 10) as u64));
        proof {
            assert(old(out)@ + nat_text((n / 10) as nat) + seq![digit_char((n % 10) as int)]
                =~= old(out)@ + nat_text(n as nat));
        }
    } else {
        out.append(digit_str(n as u64));
    }
}

/// Appends the decimal digits of `n`.
pub fn push_u64(out: &mut String, n: u64)
    ensures
        final(out)@ == old(out)@ + nat_text(n as nat),
{
    push_u128(out, n as u128);
}

/// `n.to_string()` for an unsigned integer.
pub fn u64_text(n: u64) -> (r: String)
    ensures
        r@ == nat_text(n as nat),
{
    let mut s = String::new();
    push_u64(&mut s, n);
    proof {
        assert(s@ =~= nat_text(n as nat));
    }
    s
}

/// Appends the decimal text of a signed integer.
pub fn push_i64(out: &mut String, i: i64)
    ensures
        final(out)@ == old(out)@ + int_text(i as int),
{
    if i < 0 {
        out.append("-");
        proof {
            reveal_strlit("-");
        }
        let a: u64 = if i == i64::MIN { 0x8000_0000_0000_0000u64 } else { (-i) as u64 };
        push_u64(out, a);
        proof {
            assert(old(out)@ + seq!['-'] + nat_text(a as nat) =~= old(out)@ + int_text(i as int));
        }
    } else {
        push_u64(out, i as u64);
    }
}

pub proof fn lemma_nat_text_len_pos(n: nat)
    ensures
        nat_text(n).len() >= 1,
    decreases n,
{
    if n >= 10 {
        lemma_nat_text_len_pos(n / 10);
    }
}

/// The decimal text of `n` is one or more digits that read back as `n`.
pub proof fn lemma_nat_text_value(n: nat)
    ensures
        nat_text(n).len() >= 1,
        all_digits(nat_text(n)),
        digits_value(nat_text(n)) == n,
    decreases n,
{
    let d = (n % 10) as int;
    assert(digit_val(digit_char(d)) == d);
    if n >= 10 {
        lemma_nat_text_value(n / 10);
        let t = nat_text(n);
        assert(t.drop_last() =~= nat_text(n / 10));
        assert(t.last() == digit_char(d));
        assert(is_digit(t.last()));
        assert(n == (n / 10) * 10 + d);
        assert(digits_value(t) == digits_value(t.drop_last()) * 10 + digit_val(t.last()));
    } else {
        let t = nat_text(n);
        assert(t.drop_last().len() == 0);
        assert(digits_value(t.drop_last()) == 0);
        assert(t.last() == digit_char(d));
        assert(d == n);
        assert(digits_value(t) == digits_value(t.drop_last()) * 10 + digit_val(t.last()));
    }
}

/// Leading zeros change neither the digits nor their value.
pub proof fn lemma_leading_zeros(k: nat, s: Seq<char>)
    requires
        all_digits(s),
    ensures
        all_digits(Seq::new(k, |i: int| '0') + s),
        digits_value(Seq::new(k, |i: int| '0') + s) == digits_value(s),
    decreases s.len() + k,
{
    let z = Seq::new(k, |i: int| '0');
    if s.len() > 0 {
        assert((z + s).drop_last() =~= z + s.drop_last());
        lemma_leading_zeros(k, s.drop_last());
    } else {
        assert(z + s =~= z);
        if k > 0 {
            assert(z.drop_last() =~= Seq::new((k - 1) as nat, |i: int| '0') + s);
            lemma_leading_zeros((k - 1) as nat, s);
        }
    }
}

/// An integer's decimal text parses back to it as an `i32`.
pub proof fn lemma_int_text_parse(y: i32)
    ensures
        spec_parse_i32(int_text(y as int)) == Some(y),
{
    if y < 0 {
        let a = (-(y as int)) as nat;
        lemma_nat_text_value(a);
        assert(int_text(y as int).drop_first() =~= nat_text(a));
    } else {
        lemma_nat_text_value(y as nat);
        assert(is_digit(nat_text(y as nat)[0]));
    }
}

/// A week number padded to two digits parses back to it as a `u32`.
pub proof fn lemma_padded_parse(w: u32)
    ensures
        spec_parse_u32(zero_pad(nat_text(w as nat), 2)) == Some(w),
        all_digits(zero_pad(nat_text(w as nat), 2)),
{
    let t = nat_text(w as nat);
    lemma_nat_text_value(w as nat);
    if t.len() < 2 {
        lemma_leading_zeros((2 - t.len()) as nat, t);
    }
    let p = zero_pad(t, 2);
    assert(is_digit(p[0]));
}

/// Appends `n` left-padded with zeros to `width` characters.
fn push_padded(out: &mut String, n: u64, width: usize)
    ensures
        final(out)@ == old(out)@ + zero_pad(nat_text(n as nat), width as nat),
{
    let t = u64_text(n);
    let len = t.as_str().unicode_len();
    let mut k = len;
    let ghost start = out@;
    while k < width
        invariant
            len == nat_text(n as nat).len(),
            len <= k,
            k <= width || len > width,
            len >= width ==> k == len,
            out@ == start + Seq::new((k - len) as nat, |i: int| '0'),
        decreases width - k,
    {
        out.append("0");
        proof {
            reveal_strlit("0");
            assert(start + Seq::new((k + 1 - len) as nat, |i: int| '0')
                =~= start + Seq::new((k - len) as nat, |i: int| '0') + seq!['0']);
        }
        k = k + 1;
    }
    out.append(t.as_str());
    proof {
        if len < width {
            assert(k == width);
        } else {
            assert(k == len);
            assert(Seq::new(0nat, |i: int| '0') + nat_text(n as nat) =~= nat_text(n as nat));
        }
        assert(start + Seq::new((k - len) as nat, |i: int| '0') + nat_text(n as nat)
            =~= start + zero_pad(nat_text(n as nat), width as nat));
    }
}

fn pow10_exec(e: u32) -> (r: u64)
    requires
        e <= 4,
    ensures
        r == pow10(e as nat),
        r >= 1,
{
    reveal_with_fuel(pow10, 5);
    if e == 0 {
        1
    } else if e == 1 {
        10
    } else if e == 2 {
        100
    } else if e == 3 {
        1000
    } else {
        10000
    }
}

/// Appends a fixed-point value rounded to `places` decimals (half away
/// from zero), e.g. `12.3456` with two places gives `12.35`.
#[verifier::spinoff_prover]
#[verifier::rlimit(40)]
pub fn push_fixed(out: &mut String, v: i128, places: u32)
    requires
        places <= 4,
    ensures
        final(out)@ == old(out)@ + fixed_text(v as int, places as nat),
{
    let m = pow10_exec(4 - places) as u128;
    let p = pow10_exec(places) as u128;
    let a: u128 = if v == i128::MIN {
        0x8000_0000_0000_0000_0000_0000_0000_0000u128
    } else if v < 0 {
        (-v) as u128
    } else {
        v as u128
    };
    let q = a / m;
    let rem = a % m;
    proof {
        assert(rem < m);
        assert(q <= a);
    }
    let r = if 2 * rem > m || (2 * rem == m && q % 2 == 1) { q + 1 } else { q };
    proof {
        let sa: nat = if v < 0 { (-v) as nat } else { v as nat };
        assert(sa == a as nat);
        let sm = pow10((4 - places) as nat);
        assert(sm == m as nat);
        let sq: nat = sa / sm;
        let srem: nat = sa % sm;
        assert(sq == q as nat);
        assert(srem == rem as nat);
        let sr: nat = if 2 * srem > sm || (2 * srem == sm && sq % 2 == 1) { sq + 1 } else { sq };
        assert(sr == r as nat);
    }
    let ip = r / p;
    let fp = r % p;
    if v < 0 {
        out.append("-");
        proof {
            reveal_strlit("-");
        }
    }
    let ghost after_sign = out@;
    push_u128(out, ip);
    if places > 0 {
        out.append(".");
        proof {
            reveal_strlit(".");
        }
        push_padded(out, fp as u64, places as usize);
    }
    proof {
        let sign = if v < 0 { seq!['-'] } else { Seq::<char>::empty() };
        assert(after_sign =~= old(out)@ + sign);
        assert(out@ =~= old(out)@ + fixed_text(v as int, places as nat));
    }
}

/// `format!("{:.N}", x)` for a fixed-point `x` and `N = places`.
pub fn fixed_string(v: i128, places: u32) -> (r: String)
    requires
        places <= 4,
    ensures
        r@ == fixed_text(v as int, places as nat),
{
    let mut s = String::new();
    push_fixed(&mut s, v, places);
    proof {
        assert(s@ =~= fixed_text(v as int, places as nat));
    }
    s
}

// ── Comparing text ───────────────────────────────────────────────────────────

/// The character sequences of a list of strings.
pub open spec fn views(v: Seq<String>) -> Seq<Seq<char>> {
    v.map_values(|s: String| s@)
}

/// `a == b` on string slices.
pub fn str_eq(a: &str, b: &str) -> (r: bool)
    ensures
        r == (a@ == b@),
{
    let x = String::from_str(a);
    let y = String::from_str(b);
    x == y
}

/// Whether a list of strings holds `s`.
pub fn contains_str(v: &Vec<String>, s: &str) -> (r: bool)
    ensures
        r == views(v@).contains(s@),
{
    let mut i: usize = 0;
    while i < v.len()
        invariant
            i <= v.len(),
            forall|j: int| 0 <= j < i ==> v@[j]@ != s@,
        decreases v.len() - i,
    {
        if str_eq(v[i].as_str(), s) {
            proof {
                assert(views(v@)[i as int] == s@);
            }
            return true;
        }
        i = i + 1;
    }
    proof {
        if views(v@).contains(s@) {
            let j = choose|j: int| 0 <= j < views(v@).len() && views(v@)[j] == s@;
            assert(v@[j]@ == s@);
        }
    }
    false
}

/// Whether `s` contains the character `c`.
pub fn has_char(s: &str, c: char) -> (r: bool)
    ensures
        r == s@.contains(c),
{
    let n = s.unicode_len();
    let mut i: usize = 0;
    while i < n
        invariant
            n == s@.len(),
            i <= n,
            forall|j: int| 0 <= j < i ==> s@[j] != c,
        decreases n - i,
    {
        if s.get_char(i) == c {
            return true;
        }
        i = i + 1;
    }
    false
}

} // verus!
