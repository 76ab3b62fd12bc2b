use vstd::prelude::*;

verus! {

/// Whether `c` is a decimal digit.
pub open spec fn is_digit(c: char) -> bool {
    '0' <= c <= '9'
}

/// Whether every character of `s` is a decimal digit.
pub open spec fn all_digits(s: Seq<char>) -> bool {
    forall|i: int| 0 <= i < s.len() ==> is_digit(#[trigger] s[i])
}

/// The number that a string of decimal digits writes.
pub open spec fn digits_value(s: Seq<char>) -> int
    decreases s.len(),
{
    if s.len() == 0 {
        0
    } else {
        digits_value(s.drop_last()) * 10 + (s.last() as int - '0' as int)
    }
}

/// Where the first `.` of `s` stands at `i` or after, or the length of `s`
/// where there is none.
pub open spec fn dot_from(s: Seq<char>, i: int) -> int
    decreases s.len() - i,
{
    if i < 0 || i >= s.len() {
        s.len() as int
    } else if s[i] == '.' {
        i
    } else {
        dot_from(s, i + 1)
    }
}

/// The integer part of a mantissa: what stands before its first `.`.
pub open spec fn int_part(s: Seq<char>) -> Seq<char> {
    s.take(dot_from(s, 0))
}

/// The fraction part of a mantissa: what stands after its first `.`.
pub open spec fn frac_part(s: Seq<char>) -> Seq<char> {
    if dot_from(s, 0) < s.len() {
        s.skip(dot_from(s, 0) + 1)
    } else {
        Seq::empty()
    }
}

/// Where the first `e` or `E` of `s` stands at `i` or after, or the length of
/// `s` where there is none.
pub open spec fn exp_from(s: Seq<char>, i: int) -> int
    decreases s.len() - i,
{
    if i < 0 || i >= s.len() {
        s.len() as int
    } else if s[i] == 'e' || s[i] == 'E' {
        i
    } else {
        exp_from(s, i + 1)
    }
}

/// Whether `s` starts with a sign.
pub open spec fn signed(s: Seq<char>) -> bool {
    s.len() > 0 && (s[0] == '+' || s[0] == '-')
}

/// Whether `s` starts with a minus sign.
pub open spec fn negative(s: Seq<char>) -> bool {
    s.len() > 0 && s[0] == '-'
}

/// `s` without its leading sign.
pub open spec fn unsigned(s: Seq<char>) -> Seq<char> {
    if signed(s) {
        s.skip(1)
    } else {
        s
    }
}

/// The mantissa of a number: what stands, after the sign, before the exponent.
pub open spec fn mantissa(s: Seq<char>) -> Seq<char> {
    let b = unsigned(s);
    b.take(exp_from(b, 0))
}

/// Whether a number has an exponent.
pub open spec fn has_exponent(s: Seq<char>) -> bool {
    exp_from(unsigned(s), 0) < unsigned(s).len()
}

/// What follows the `e` or `E` of a number.
pub open spec fn exponent_text(s: Seq<char>) -> Seq<char> {
    unsigned(s).skip(exp_from(unsigned(s), 0) + 1)
}

/// Whether `s` writes a number: an optional sign, digits with an optional
/// `.` and at least one digit in all, then optionally `e` or `E` with an
/// optionally signed, non-empty string of digits.
pub open spec fn is_number(s: Seq<char>) -> bool {
    let m = mantissa(s);
    &&& all_digits(int_part(m))
    &&& all_digits(frac_part(m))
    &&& int_part(m).len() + frac_part(m).len() > 0
    &&& has_exponent(s) ==> {
        &&& unsigned(exponent_text(s)).len() > 0
        &&& all_digits(unsigned(exponent_text(s)))
    }
}

/// The power of ten by which a number's exponent scales it.
pub open spec fn exponent(s: Seq<char>) -> int {
    if !has_exponent(s) {
        0
    } else if negative(exponent_text(s)) {
        -digits_value(unsigned(exponent_text(s)))
    } else {
        digits_value(unsigned(exponent_text(s)))
    }
}

/// The first `m` digits of `ds`, padded with zeros where `ds` has fewer.
pub open spec fn padded(ds: Seq<char>, m: int) -> Seq<char> {
    if m <= ds.len() {
        ds.take(m)
    } else {
        ds + Seq::new((m - ds.len()) as nat, |i: int| '0')
    }
}

/// The digits of the magnitude of a number in millionths, the fraction of a
/// millionth dropped: the digits of the mantissa, cut or padded so that the
/// point falls six places after the last.
pub open spec fn micro_digits(s: Seq<char>) -> Seq<char> {
    let m = mantissa(s);
    let n = int_part(m).len() + exponent(s) + 6;
    if n <= 0 {
        Seq::empty()
    } else {
        padded(int_part(m) + frac_part(m), n)
    }
}

/// The value of a number in millionths, rounded toward zero; nothing where
/// `s` is no number or the value does not fit an `i64`.
pub open spec fn decimal_micros(s: Seq<char>) -> Option<i64> {
    let mag = digits_value(micro_digits(s));
    if !is_number(s) {
        None
    } else if negative(s) {
        if mag <= 0x8000_0000_0000_0000 {
            Some((-mag) as i64)
        } else {
            None
        }
    } else if mag <= i64::MAX {
        Some(mag as i64)
    } else {
        None
    }
}

proof fn lemma_digits_value_nonneg(s: Seq<char>)
    requires
        all_digits(s),
    ensures
        digits_value(s) >= 0,
    decreases s.len(),
{
    if s.len() > 0 {
        assert(all_digits(s.drop_last())) by {
            assert forall|i: int| 0 <= i < s.drop_last().len() implies is_digit(
                #[trigger] s.drop_last()[i],
            ) by {
                assert(s.drop_last()[i] == s[i]);
            }
        }
        lemma_digits_value_nonneg(s.drop_last());
        assert(is_digit(s[s.len() - 1]));
    }
}

/// A string of digits writes at least as much as any of its prefixes.
proof fn lemma_digits_value_prefix(s: Seq<char>, i: int)
    requires
        all_digits(s),
        0 <= i <= s.len(),
    ensures
        digits_value(s.take(i)) <= digits_value(s),
    decreases s.len() - i,
{
    if i < s.len() {
        lemma_digits_value_prefix(s, i + 1);
        let t = s.take(i + 1);
        assert(t.drop_last() =~= s.take(i));
        assert(is_digit(s[i]));
        assert(all_digits(s.take(i))) by {
            assert forall|j: int| 0 <= j < s.take(i).len() implies is_digit(
                #[trigger] s.take(i)[j],
            ) by {
                assert(s.take(i)[j] == s[j]);
            }
        }
        lemma_digits_value_nonneg(s.take(i));
    } else {
        assert(s.take(i) =~= s);
    }
}

/// Ten to the power `k`.
pub open spec fn pow10(k: nat) -> int
    decreases k,
{
    if k == 0 {
        1
    } else {
        10 * pow10((k - 1) as nat)
    }
}

proof fn lemma_pow10_big(k: nat)
    requires
        k >= 20,
    ensures
        pow10(k) > u64::MAX,
    decreases k,
{
    if k == 20 {
        reveal_with_fuel(pow10, 21);
    } else {
        lemma_pow10_big((k - 1) as nat);
    }
}

proof fn lemma_padded_step(ds: Seq<char>, i: int)
    requires
        0 <= i,
    ensures
        padded(ds, i + 1) == padded(ds, i).push(if i < ds.len() { ds[i] } else { '0' }),
        padded(ds, i).len() == i,
{
    assert(padded(ds, i + 1) =~= padded(ds, i).push(if i < ds.len() { ds[i] } else { '0' }));
}

proof fn lemma_padded_prefix(ds: Seq<char>, j: int, n: int)
    requires
        0 <= j <= n,
    ensures
        padded(ds, n).take(j) == padded(ds, j),
{
    assert(padded(ds, n).take(j) =~= padded(ds, j));
}

proof fn lemma_padded_digits(ds: Seq<char>, n: int)
    requires
        0 <= n,
        all_digits(ds),
    ensures
        all_digits(padded(ds, n)),
{
    assert forall|i: int| 0 <= i < padded(ds, n).len() implies is_digit(#[trigger] padded(ds, n)[i]) by {
        if i < ds.len() {
            assert(padded(ds, n)[i] == ds[i]);
        }
    }
}

/// Zeros appended to digits worth nothing leave them worth nothing.
proof fn lemma_padded_zero(ds: Seq<char>, i: int, n: int)
    requires
        ds.len() <= i <= n,
        digits_value(padded(ds, i)) == 0,
    ensures
        digits_value(padded(ds, n)) == 0,
    decreases n - i,
{
    if i < n {
        lemma_padded_step(ds, i);
        assert(padded(ds, i + 1).drop_last() =~= padded(ds, i));
        lemma_padded_zero(ds, i + 1, n);
    }
}

/// The characters of `s`.
fn chars_of(s: &str) -> (r: Vec<char>)
    ensures
        r@ == s@,
{
    let n = s.unicode_len();
    let mut r: Vec<char> = Vec::new();
    let mut i: usize = 0;
    while i < n
        invariant
            n == s@.len(),
            i <= n,
            r@ == s@.take(i as int),
        decreases n - i,
    {
        r.push(s.get_char(i));
        i = i + 1;
        assert(r@ =~= s@.take(i as int));
    }
    assert(s@.take(n as int) =~= s@);
    r
}

fn slice(v: &Vec<char>, from: usize, to: usize) -> (r: Vec<char>)
    requires
        from <= to <= v@.len(),
    ensures
        r@ == v@.subrange(from as int, to as int),
{
    let mut r: Vec<char> = Vec::new();
    let mut i: usize = from;
    while i < to
        invariant
            from <= i <= to,
            to <= v@.len(),
            r@ == v@.subrange(from as int, i as int),
        decreases to - i,
    {
        r.push(v[i]);
        i = i + 1;
        assert(r@ =~= v@.subrange(from as int, i as int));
    }
    r
}

fn concat(a: &Vec<char>, b: &Vec<char>) -> (r: Vec<char>)
    ensures
        r@ == a@ + b@,
{
    let mut r = slice(a, 0, a.len());
    let mut i: usize = 0;
    while i < b.len()
        invariant
            i <= b@.len(),
            r@ == a@ + b@.take(i as int),
        decreases b@.len() - i,
    {
        r.push(b[i]);
        i = i + 1;
        assert(r@ =~= a@ + b@.take(i as int));
    }
    assert(a@.subrange(0, a@.len() as int) =~= a@);
    assert(b@.take(b@.len() as int) =~= b@);
    r
}

fn all_digit_chars(v: &Vec<char>) -> (r: bool)
    ensures
        r == all_digits(v@),
{
    let mut i: usize = 0;
    while i < v.len()
        invariant
            i <= v@.len(),
            forall|j: int| 0 <= j < i ==> is_digit(#[trigger] v@[j]),
        decreases v@.len() - i,
    {
        if !('0' <= v[i] && v[i] <= '9') {
            return false;
        }
        i = i + 1;
    }
    true
}

fn find_dot(v: &Vec<char>) -> (k: usize)
    ensures
        k as int == dot_from(v@, 0),
        k <= v@.len(),
{
    let mut k: usize = 0;
    while k < v.len() && v[k] != '.'
        invariant
            k <= v@.len(),
            dot_from(v@, 0) == dot_from(v@, k as int),
        decreases v@.len() - k,
    {
        k = k + 1;
    }
    k
}

fn find_exp(v: &Vec<char>) -> (k: usize)
    ensures
        k as int == exp_from(v@, 0),
        k <= v@.len(),
{
    let mut k: usize = 0;
    while k < v.len() && v[k] != 'e' && v[k] != 'E'
        invariant
            k <= v@.len(),
            exp_from(v@, 0) == exp_from(v@, k as int),
        decreases v@.len() - k,
    {
        k = k + 1;
    }
    k
}

/// The number that the digits `v` write, held to `cap + 1`.
fn capped_value(v: &Vec<char>, cap: i128) -> (r: i128)
    requires
        all_digits(v@),
        0 <= cap <= u64::MAX as i128 + 100,
    ensures
        r == if digits_value(v@) <= cap { digits_value(v@) } else { cap + 1 },
{
    let mut r: i128 = 0;
    let mut j: usize = 0;
    while j < v.len()
        invariant
            all_digits(v@),
            0 <= cap <= u64::MAX as i128 + 100,
            j <= v@.len(),
            r == if digits_value(v@.take(j as int)) <= cap {
                digits_value(v@.take(j as int))
            } else {
                cap + 1
            },
        decreases v@.len() - j,
    {
        assert(v@.take(j + 1).drop_last() =~= v@.take(j as int));
        assert(is_digit(v@[j as int]));
        proof {
            assert(all_digits(v@.take(j as int))) by {
                assert forall|x: int| 0 <= x < j implies is_digit(#[trigger] v@.take(j as int)[x]) by {
                    assert(v@.take(j as int)[x] == v@[x]);
                }
            }
            lemma_digits_value_nonneg(v@.take(j as int));
        }
        let d: i128 = (v[j] as u32 - '0' as u32) as i128;
        if r <= cap {
            let x = r * 10 + d;
            r = if x <= cap {
                x
            } else {
                cap + 1
            };
        }
        j = j + 1;
    }
    assert(v@.take(v@.len() as int) =~= v@);
    r
}

/// The digits of a mantissa and how many stand before the point, where it
/// is well formed.
fn split_mantissa(m: &Vec<char>) -> (r: Option<(Vec<char>, usize)>)
    ensures
        r is None <==> !(all_digits(int_part(m@)) && all_digits(frac_part(m@)) && int_part(
            m@,
        ).len() + frac_part(m@).len() > 0),
        r matches Some((ds, ilen)) ==> {
            &&& ds@ == int_part(m@) + frac_part(m@)
            &&& ilen == int_part(m@).len()
            &&& all_digits(ds@)
        },
{
    let dp = find_dot(m);
    let ip = slice(m, 0, dp);
    assert(ip@ =~= int_part(m@));
    let fp = if dp < m.len() {
        slice(m, dp + 1, m.len())
    } else {
        Vec::new()
    };
    assert(fp@ =~= frac_part(m@));
    if !all_digit_chars(&ip) || !all_digit_chars(&fp) || (ip.len() == 0 && fp.len() == 0) {
        return None;
    }
    let ds = concat(&ip, &fp);
    assert(all_digits(ds@)) by {
        assert forall|x: int| 0 <= x < ds@.len() implies is_digit(#[trigger] ds@[x]) by {
            if x < ip@.len() {
                assert(ds@[x] == ip@[x]);
            } else {
                assert(ds@[x] == fp@[x - ip@.len()]);
            }
        }
    }
    Some((ds, ip.len()))
}

/// The value of an exponent's text: optionally signed digits.
pub open spec fn exponent_value(t: Seq<char>) -> int {
    if negative(t) {
        -digits_value(unsigned(t))
    } else {
        digits_value(unsigned(t))
    }
}

/// The value of an exponent's text held to `cap + 1` either way, where it
/// is well formed.
fn read_exponent(et: &Vec<char>, cap: i128) -> (r: Option<i128>)
    requires
        0 <= cap <= u64::MAX as i128 + 100,
    ensures
        r is None <==> !(unsigned(et@).len() > 0 && all_digits(unsigned(et@))),
        r matches Some(ex) ==> {
            &&& -(cap + 1) <= ex <= cap + 1
            &&& (-cap <= exponent_value(et@) <= cap ==> ex == exponent_value(et@))
            &&& (exponent_value(et@) > cap ==> ex == cap + 1)
            &&& (exponent_value(et@) < -cap ==> ex == -(cap + 1))
        },
{
    let esg = et.len() > 0 && (et[0] == '+' || et[0] == '-');
    let eneg = et.len() > 0 && et[0] == '-';
    let ed = if esg {
        slice(et, 1, et.len())
    } else {
        slice(et, 0, et.len())
    };
    assert(ed@ =~= unsigned(et@));
    if ed.len() == 0 || !all_digit_chars(&ed) {
        return None;
    }
    let v = capped_value(&ed, cap);
    proof {
        lemma_digits_value_nonneg(ed@);
    }
    if eneg {
        Some(-v)
    } else {
        Some(v)
    }
}

/// The parts of a number: its sign, the digits of its mantissa, how many of
/// them stand before the point, and its exponent held to `cap + 1` either
/// way, where `cap` is the number of digits plus 64.
fn split_number(c: &Vec<char>) -> (r: Option<(bool, Vec<char>, usize, i128)>)
    ensures
        r is None <==> !is_number(c@),
        r matches Some((neg, ds, ilen, ex)) ==> {
            let m = mantissa(c@);
            let cap = ds@.len() + 64;
            &&& neg == negative(c@)
            &&& ds@ == int_part(m) + frac_part(m)
            &&& ilen == int_part(m).len()
            &&& all_digits(ds@)
            &&& -(cap + 1) <= ex <= cap + 1
            &&& ds@.len() <= usize::MAX
            &&& (-cap <= exponent(c@) <= cap ==> ex == exponent(c@))
            &&& (exponent(c@) > cap ==> ex == cap + 1)
            &&& (exponent(c@) < -cap ==> ex == -(cap + 1))
        },
{
    let ghost sv = c@;
    let sg = c.len() > 0 && (c[0] == '+' || c[0] == '-');
    let neg = c.len() > 0 && c[0] == '-';
    let body = if sg {
        slice(c, 1, c.len())
    } else {
        slice(c, 0, c.len())
    };
    assert(body@ =~= unsigned(sv));
    let ep = find_exp(&body);
    let m = slice(&body, 0, ep);
    assert(m@ =~= mantissa(sv));
    let (ds, ilen) = match split_mantissa(&m) {
        None => return None,
        Some(p) => p,
    };
    let cap: i128 = ds.len() as i128 + 64;
    if ep < body.len() {
        let et = slice(&body, ep + 1, body.len());
        assert(et@ =~= exponent_text(sv));
        match read_exponent(&et, cap) {
            None => None,
            Some(ex) => Some((neg, ds, ilen, ex)),
        }
    } else {
        Some((neg, ds, ilen, 0))
    }
}

/// The number that the first `nr` digits of `ds`, padded with zeros, write,
/// where it fits a `u64`; `n` is `nr`, or at least 20 past the digits where
/// `nr` is larger.
fn magnitude(ds: &Vec<char>, n: i128, Ghost(nr): Ghost<int>) -> (r: Option<u64>)
    requires
        all_digits(ds@),
        0 < n <= nr,
        n != nr ==> n >= ds@.len() + 20,
    ensures
        r matches Some(v) ==> v as int == digits_value(padded(ds@, nr)),
        r is None ==> digits_value(padded(ds@, nr)) > u64::MAX,
{
    proof {
        lemma_padded_digits(ds@, nr);
    }
    let mut acc: u64 = 0;
    let mut i: i128 = 0;
    assert(padded(ds@, 0) =~= Seq::<char>::empty());
    while i < n
        invariant
            all_digits(ds@),
            all_digits(padded(ds@, nr)),
            0 <= i <= n <= nr,
            n != nr ==> n >= ds@.len() + 20,
            acc as int == digits_value(padded(ds@, i as int)),
            i > ds@.len() ==> acc as int >= pow10((i - ds@.len()) as nat),
        decreases n - i,
    {
        proof {
            lemma_padded_step(ds@, i as int);
            assert(padded(ds@, i + 1).drop_last() =~= padded(ds@, i as int));
        }
        let d: u64 = if i < ds.len() as i128 {
            assert(is_digit(ds@[i as int]));
            (ds[i as usize] as u32 - '0' as u32) as u64
        } else {
            if acc == 0 {
                proof {
                    lemma_padded_zero(ds@, i as int, nr);
                }
                return Some(0);
            }
            0
        };
        match acc.checked_mul(10) {
            Some(a) => match a.checked_add(d) {
                Some(b) => {
                    acc = b;
                },
                None => {
                    proof {
                        lemma_padded_prefix(ds@, i + 1, nr);
                        lemma_digits_value_prefix(padded(ds@, nr), i + 1);
                    }
                    return None;
                },
            },
            None => {
                proof {
                    lemma_padded_prefix(ds@, i + 1, nr);
                    lemma_digits_value_prefix(padded(ds@, nr), i + 1);
                    lemma_digits_value_nonneg(padded(ds@, i as int));
                }
                return None;
            },
        }
        proof {
            if i >= ds@.len() {
                if i > ds@.len() {
                    assert(pow10((i + 1 - ds@.len()) as nat) == 10 * pow10((i - ds@.len()) as nat));
                } else {
                    assert(pow10(1) == 10 * pow10(0));
                }
            }
        }
        i = i + 1;
    }
    proof {
        if n != nr {
            lemma_pow10_big((i - ds@.len()) as nat);
        }
    }
    Some(acc)
}

/// Reads a number in millionths, as `decimal_micros` says: `"12.5"` gives
/// 12_500_000, `"-1e3"` gives -1_000_000_000, and `"not-a-number"` gives
/// nothing.
pub fn parse_micros(s: &str) -> (r: Option<i64>)
    ensures
        r == decimal_micros(s@),
{
    let c = chars_of(s);
    let ghost sv = s@;
    let (neg, ds, ilen, ex) = match split_number(&c) {
        None => return None,
        Some(p) => p,
    };
    let ghost nr = ilen + exponent(sv) + 6;
    assert(ilen as int <= ds@.len());
    let n: i128 = ilen as i128 + ex + 6;
    if n <= 0 {
        assert(micro_digits(sv) =~= Seq::<char>::empty());
        return Some(0);
    }
    assert(micro_digits(sv) == padded(ds@, nr));
    let mag = match magnitude(&ds, n, Ghost(nr)) {
        None => return None,
        Some(v) => v,
    };
    if neg {
        if mag <= 0x8000_0000_0000_0000u64 {
            if mag == 0x8000_0000_0000_0000u64 {
                Some(i64::MIN)
            } else {
                Some(-(mag as i64))
            }
        } else {
            None
        }
    } else if mag <= i64::MAX as u64 {
        Some(mag as i64)
    } else {
        None
    }
}

} // verus!
