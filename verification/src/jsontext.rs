//! Text-level JSON building blocks for the wire and file formats this crate
//! speaks: string escaping, decimal integers, and their exact parsers.
use vstd::prelude::*;
use vstd::string::StrSliceExecFns;

verus! {

/// Characters that a string value must protect with a backslash.
pub open spec fn needs_escape(c: char) -> bool {
    c == '"' || c == '\\'
}

/// The escaped rendering of one character.
pub open spec fn spec_escape_char(c: char) -> Seq<char> {
    if needs_escape(c) {
        seq!['\\', c]
    } else {
        seq![c]
    }
}

/// The escaped rendering of a whole string value, character by character.
pub open spec fn spec_escape(s: Seq<char>) -> Seq<char>
    decreases s.len(),
{
    if s.len() == 0 {
        Seq::empty()
    } else {
        spec_escape_char(s[0]) + spec_escape(s.drop_first())
    }
}

/// Escaping distributes over concatenation.
pub proof fn lemma_escape_append(a: Seq<char>, b: Seq<char>)
    ensures
        spec_escape(a + b) == spec_escape(a) + spec_escape(b),
    decreases a.len(),
{
    if a.len() == 0 {
        assert(a + b =~= b);
        assert(spec_escape(a) + spec_escape(b) =~= spec_escape(b));
    } else {
        assert((a + b).drop_first() =~= a.drop_first() + b);
        lemma_escape_append(a.drop_first(), b);
        assert(spec_escape_char(a[0]) + (spec_escape(a.drop_first()) + spec_escape(b))
            =~= (spec_escape_char(a[0]) + spec_escape(a.drop_first())) + spec_escape(b));
    }
}

/// The characters of a string slice, in order.
pub fn chars_of(s: &str) -> (r: Vec<char>)
    ensures
        r@ == s@,
{
    let n = s.unicode_len();
    let mut r: Vec<char> = Vec::new();
    let mut i: usize = 0;
    while i < n
        invariant
            n == s@.len(),
            i <= n,
            r@ == s@.take(i as int),
        decreases n - i,
    {
        r.push(s.get_char(i));
        i = i + 1;
        assert(r@ =~= s@.take(i as int));
    }
    assert(r@ =~= s@);
    r
}

/// Relies on `String`'s `FromIterator<char>`: collecting characters yields a
/// string whose characters are exactly those collected, in order.
#[verifier::external_body]
pub fn string_from_chars(v: &Vec<char>) -> (r: String)
    ensures
        r@ == v@,
{
    v.iter().collect()
}

/// Appends the characters of a literal to an output buffer.
pub fn push_lit(out: &mut Vec<char>, lit: &str)
    ensures
        final(out)@ == old(out)@ + lit@,
{
    let n = lit.unicode_len();
    let mut i: usize = 0;
    while i < n
        invariant
            n == lit@.len(),
            i <= n,
            out@ == old(out)@ + lit@.take(i as int),
        decreases n - i,
    {
        out.push(lit.get_char(i));
        i = i + 1;
        assert(out@ =~= old(out)@ + lit@.take(i as int));
    }
    assert(out@ =~= old(out)@ + lit@);
}

/// Appends the escaped rendering of `s` to an output buffer.
pub fn push_escaped(out: &mut Vec<char>, s: &str)
    ensures
        final(out)@ == old(out)@ + spec_escape(s@),
{
    let n = s.unicode_len();
    let mut i: usize = 0;
    while i < n
        invariant
            n == s@.len(),
            i <= n,
            out@ == old(out)@ + spec_escape(s@.take(i as int)),
        decreases n - i,
    {
        let c = s.get_char(i);
        if c == '"' || c == '\\' {
            out.push('\\');
            out.push(c);
        } else {
            out.push(c);
        }
        proof {
            lemma_escape_append(s@.take(i as int), seq![s@[i as int]]);
            assert(s@.take(i + 1) =~= s@.take(i as int) + seq![s@[i as int]]);
            assert(seq![s@[i as int]].drop_first() =~= Seq::<char>::empty());
            assert(spec_escape(seq![s@[i as int]]) == spec_escape_char(s@[i as int])
                + spec_escape(Seq::<char>::empty()));
            assert(spec_escape_char(s@[i as int]) + spec_escape(Seq::<char>::empty())
                =~= spec_escape_char(s@[i as int]));
        }
        i = i + 1;
        assert(out@ =~= old(out)@ + spec_escape(s@.take(i as int)));
    }
    assert(s@.take(n as int) =~= s@);
}

/// Reads an escaped string value up to and including its closing quote.
/// `s` starts right after the opening quote; the result is the decoded value
/// and what follows the closing quote. `None` on a dangling backslash, an
/// unknown escape, or a missing closing quote.
pub open spec fn spec_scan_string(s: Seq<char>) -> Option<(Seq<char>, Seq<char>)>
    decreases s.len(),
{
    if s.len() == 0 {
        None
    } else if s[0] == '"' {
        Some((Seq::empty(), s.drop_first()))
    } else if s[0] == '\\' {
        if s.len() >= 2 && (s[1] == '"' || s[1] == '\\') {
            match spec_scan_string(s.subrange(2, s.len() as int)) {
                Some(p) => Some((seq![s[1]] + p.0, p.1)),
                None => None,
            }
        } else {
            None
        }
    } else {
        match spec_scan_string(s.drop_first()) {
            Some(p) => Some((seq![s[0]] + p.0, p.1)),
            None => None,
        }
    }
}

/// Scanning undoes escaping: an escaped value, its closing quote and a tail
/// scan back to exactly that value and that tail.
pub proof fn lemma_scan_escape(v: Seq<char>, rest: Seq<char>)
    ensures
        spec_scan_string(spec_escape(v) + seq!['"'] + rest) == Some((v, rest)),
    decreases v.len(),
{
    let s = spec_escape(v) + seq!['"'] + rest;
    if v.len() == 0 {
        assert(s =~= seq!['"'] + rest);
        assert(s[0] == '"');
        assert(s.drop_first() =~= rest);
        assert(v =~= Seq::<char>::empty());
    } else {
        let c = v[0];
        let v1 = v.drop_first();
        assert(spec_escape(v) == spec_escape_char(c) + spec_escape(v1));
        lemma_scan_escape(v1, rest);
        let s1 = spec_escape(v1) + seq!['"'] + rest;
        if needs_escape(c) {
            assert(s =~= seq!['\\', c] + s1);
            assert(s[0] == '\\');
            assert(s[1] == c);
            assert(s.subrange(2, s.len() as int) =~= s1);
            assert(seq![s[1]] + v1 =~= v);
        } else {
            assert(s =~= seq![c] + s1);
            assert(s[0] == c);
            assert(s.drop_first() =~= s1);
            assert(seq![s[0]] + v1 =~= v);
        }
    }
}

/// Decodes an escaped string value of `v` starting at `start` (just after the
/// opening quote), returning the value and the position after the closing
/// quote, exactly as the scanning specification says.
pub fn scan_string(v: &Vec<char>, start: usize) -> (r: Option<(Vec<char>, usize)>)
    requires
        start <= v@.len(),
    ensures
        match spec_scan_string(v@.skip(start as int)) {
            Some(p) => {
                &&& r is Some
                &&& (r->0).0@ == p.0
                &&& start <= (r->0).1 <= v@.len()
                &&& v@.skip((r->0).1 as int) == p.1
            },
            None => r is None,
        },
{
    let ghost orig = v@.skip(start as int);
    let mut i: usize = start;
    let mut acc: Vec<char> = Vec::new();
    loop
        invariant
            start <= i <= v@.len(),
            orig == v@.skip(start as int),
            match spec_scan_string(v@.skip(i as int)) {
                Some(p) => spec_scan_string(orig) == Some((acc@ + p.0, p.1)),
                None => spec_scan_string(orig) is None,
            },
        decreases v@.len() - i,
    {
        let ghost cur = v@.skip(i as int);
        if i == v.len() {
            assert(cur.len() == 0);
            return None;
        }
        let c = v[i];
        assert(cur[0] == c);
        if c == '"' {
            proof {
                assert(cur.drop_first() =~= v@.skip(i + 1));
                assert(spec_scan_string(cur) == Some((Seq::<char>::empty(), v@.skip(i + 1))));
                assert(acc@ + Seq::<char>::empty() =~= acc@);
            }
            return Some((acc, i + 1));
        } else if c == '\\' {
            if i + 1 < v.len() {
                let c2 = v[i + 1];
                assert(cur[1] == c2);
                if c2 == '"' || c2 == '\\' {
                    proof {
                        assert(cur.subrange(2, cur.len() as int) =~= v@.skip(i + 2));
                    }
                    let ghost acc0 = acc@;
                    acc.push(c2);
                    proof {
                        if let Some(p) = spec_scan_string(v@.skip(i + 2)) {
                            assert(spec_scan_string(cur) == Some((seq![c2] + p.0, p.1)));
                            assert(acc0 + (seq![c2] + p.0) =~= (acc0 + seq![c2]) + p.0);
                            assert(acc@ =~= acc0 + seq![c2]);
                        }
                    }
                    i = i + 2;
                } else {
                    assert(spec_scan_string(cur) is None);
                    return None;
                }
            } else {
                assert(cur.len() < 2);
                assert(spec_scan_string(cur) is None);
                return None;
            }
        } else {
            proof {
                assert(cur.drop_first() =~= v@.skip(i + 1));
            }
            let ghost acc0 = acc@;
            acc.push(c);
            proof {
                if let Some(p) = spec_scan_string(v@.skip(i + 1)) {
                    assert(spec_scan_string(cur) == Some((seq![c] + p.0, p.1)));
                    assert(acc0 + (seq![c] + p.0) =~= (acc0 + seq![c]) + p.0);
                    assert(acc@ =~= acc0 + seq![c]);
                }
            }
            i = i + 1;
        }
    }
}

/// Decimal digit characters.
pub open spec fn is_digit(c: char) -> bool {
    c == '0' || c == '1' || c == '2' || c == '3' || c == '4' || c == '5' || c == '6' || c == '7'
        || c == '8' || c == '9'
}

/// The numeric value of a digit character; ten marks a non-digit.
pub open spec fn char_digit(c: char) -> int {
    if c == '0' {
        0
    } else if c == '1' {
        1
    } else if c == '2' {
        2
    } else if c == '3' {
        3
    } else if c == '4' {
        4
    } else if c == '5' {
        5
    } else if c == '6' {
        6
    } else if c == '7' {
        7
    } else if c == '8' {
        8
    } else if c == '9' {
        9
    } else {
        10
    }
}

/// The digit character of a value below ten.
pub open spec fn digit_char(d: int) -> char {
    if d == 0 {
        '0'
    } else if d == 1 {
        '1'
    } else if d == 2 {
        '2'
    } else if d == 3 {
        '3'
    } else if d == 4 {
        '4'
    } else if d == 5 {
        '5'
    } else if d == 6 {
        '6'
    } else if d == 7 {
        '7'
    } else if d == 8 {
        '8'
    } else {
        '9'
    }
}

/// The decimal rendering of a non-negative integer, most significant digit
/// first, without leading zeros.
pub open spec fn spec_dec_nat(n: nat) -> Seq<char>
    decreases n,
{
    if n < 10 {
        seq![digit_char(n as int)]
    } else {
        spec_dec_nat(n / 10) + seq![digit_char((n % 10) as int)]
    }
}

/// The decimal rendering of an integer, with a leading minus sign when
/// negative.
pub open spec fn spec_dec_int(n: int) -> Seq<char> {
    if n < 0 {
        seq!['-'] + spec_dec_nat((-n) as nat)
    } else {
        spec_dec_nat(n as nat)
    }
}

/// How many digit characters start the input.
pub open spec fn spec_digits_len(s: Seq<char>) -> nat
    decreases s.len(),
{
    if s.len() == 0 || !is_digit(s[0]) {
        0
    } else {
        1 + spec_digits_len(s.drop_first())
    }
}

/// The value of a run of digit characters read as a decimal number.
pub open spec fn spec_digits_val(s: Seq<char>) -> int
    decreases s.len(),
{
    if s.len() == 0 {
        0
    } else {
        spec_digits_val(s.drop_last()) * 10 + char_digit(s.last())
    }
}

/// Reads an optional minus sign and a non-empty maximal run of digits,
/// returning the signed value and the rest of the input.
pub open spec fn spec_scan_int(s: Seq<char>) -> Option<(int, Seq<char>)> {
    if s.len() > 0 && s[0] == '-' {
        let t = s.drop_first();
        let k = spec_digits_len(t);
        if k == 0 {
            None
        } else {
            Some((-spec_digits_val(t.take(k as int)), t.skip(k as int)))
        }
    } else {
        let k = spec_digits_len(s);
        if k == 0 {
            None
        } else {
            Some((spec_digits_val(s.take(k as int)), s.skip(k as int)))
        }
    }
}

/// Every character of a rendered non-negative number is a digit.
pub proof fn lemma_dec_nat_digits(n: nat)
    ensures
        spec_dec_nat(n).len() >= 1,
        forall|i: int| 0 <= i < spec_dec_nat(n).len() ==> is_digit(#[trigger] spec_dec_nat(n)[i]),
    decreases n,
{
    if n >= 10 {
        lemma_dec_nat_digits(n / 10);
    }
}

/// A run of digits followed by a non-digit (or nothing) measures exactly its
/// own length.
pub proof fn lemma_digits_len_concrete(s: Seq<char>, k: nat)
    requires
        k <= s.len(),
        forall|i: int| 0 <= i < k ==> is_digit(#[trigger] s[i]),
        k == s.len() || !is_digit(s[k as int]),
    ensures
        spec_digits_len(s) == k,
    decreases k,
{
    if k == 0 {
    } else {
        assert(is_digit(s[0]));
        lemma_digits_len_concrete(s.drop_first(), (k - 1) as nat);
    }
}

/// Leading zeros do not change the value of a digit run.
pub proof fn lemma_digits_val_leading_zeros(z: Seq<char>, d: Seq<char>)
    requires
        forall|i: int| 0 <= i < z.len() ==> #[trigger] z[i] == '0',
    ensures
        spec_digits_val(z + d) == spec_digits_val(d),
    decreases d.len(),
{
    if d.len() == 0 {
        assert(z + d =~= z);
        lemma_digits_val_all_zeros(z);
    } else {
        assert((z + d).drop_last() =~= z + d.drop_last());
        assert((z + d).last() == d.last());
        lemma_digits_val_leading_zeros(z, d.drop_last());
    }
}

/// A run of zero characters has value zero.
pub proof fn lemma_digits_val_all_zeros(z: Seq<char>)
    requires
        forall|i: int| 0 <= i < z.len() ==> #[trigger] z[i] == '0',
    ensures
        spec_digits_val(z) == 0,
    decreases z.len(),
{
    if z.len() > 0 {
        lemma_digits_val_all_zeros(z.drop_last());
    }
}

/// A digit below ten reads back as itself.
pub proof fn lemma_digit_value(d: int)
    requires
        0 <= d < 10,
    ensures
        char_digit(digit_char(d)) == d,
        is_digit(digit_char(d)),
{
}

/// Reading back a rendered non-negative number yields that number.
pub proof fn lemma_digits_val_dec_nat(n: nat)
    ensures
        spec_digits_val(spec_dec_nat(n)) == n,
    decreases n,
{
    if n < 10 {
        lemma_digit_value(n as int);
        let s = spec_dec_nat(n);
        assert(s == seq![digit_char(n as int)]);
        assert(s.drop_last() =~= Seq::<char>::empty());
        assert(s.last() == digit_char(n as int));
        assert(spec_digits_val(s) == spec_digits_val(s.drop_last()) * 10 + char_digit(s.last()));
        assert(spec_digits_val(s.drop_last()) == 0);
    } else {
        lemma_digits_val_dec_nat(n / 10);
        lemma_digit_value((n % 10) as int);
        let s = spec_dec_nat(n);
        assert(s == spec_dec_nat(n / 10) + seq![digit_char((n % 10) as int)]);
        assert(s.drop_last() =~= spec_dec_nat(n / 10));
        assert(s.len() > 0) by {
            lemma_dec_nat_digits(n / 10);
        };
        assert(s.last() == digit_char((n % 10) as int));
        assert(spec_digits_val(s) == spec_digits_val(s.drop_last()) * 10 + char_digit(s.last()));
        assert(n / 10 * 10 + n % 10 == n) by {
            vstd::arithmetic::div_mod::lemma_fundamental_div_mod(n as int, 10);
        };
    }
}

/// Scanning a rendered integer followed by anything that does not begin with
/// a digit yields that integer and that tail.
pub proof fn lemma_scan_int_dec(n: int, rest: Seq<char>)
    requires
        rest.len() == 0 || !is_digit(rest[0]),
    ensures
        spec_scan_int(spec_dec_int(n) + rest) == Some((n, rest)),
{
    if n < 0 {
        let m = (-n) as nat;
        let d = spec_dec_nat(m);
        lemma_dec_nat_digits(m);
        let s = (seq!['-'] + d) + rest;
        assert(spec_dec_int(n) + rest =~= s);
        assert(s[0] == '-');
        assert(!is_digit('-'));
        assert(s.drop_first() =~= d + rest);
        lemma_scan_digits_dec(m, rest);
    } else {
        let m = n as nat;
        let d = spec_dec_nat(m);
        lemma_dec_nat_digits(m);
        let s = d + rest;
        assert(is_digit(s[0]));
        assert(s[0] != '-');
        lemma_scan_digits_dec(m, rest);
    }
}

/// The digit-run part of the previous lemma: length and value line up.
proof fn lemma_scan_digits_dec(m: nat, rest: Seq<char>)
    requires
        rest.len() == 0 || !is_digit(rest[0]),
    ensures
        spec_digits_len(spec_dec_nat(m) + rest) == spec_dec_nat(m).len(),
        (spec_dec_nat(m) + rest).take(spec_dec_nat(m).len() as int) == spec_dec_nat(m),
        (spec_dec_nat(m) + rest).skip(spec_dec_nat(m).len() as int) == rest,
        spec_digits_val(spec_dec_nat(m)) == m,
{
    let d = spec_dec_nat(m);
    let s = d + rest;
    lemma_dec_nat_digits(m);
    lemma_digits_len_concrete(s, d.len());
    assert(s.take(d.len() as int) =~= d);
    assert(s.skip(d.len() as int) =~= rest);
    lemma_digits_val_dec_nat(m);
}

/// Powers of ten.
pub open spec fn pow10(n: nat) -> int
    decreases n,
{
    if n == 0 {
        1
    } else {
        10 * pow10((n - 1) as nat)
    }
}

/// Powers of ten are positive.
pub proof fn lemma_pow10_pos(n: nat)
    ensures
        pow10(n) >= 1,
    decreases n,
{
    if n > 0 {
        lemma_pow10_pos((n - 1) as nat);
    }
}

/// Powers of ten grow with the exponent.
pub proof fn lemma_pow10_mono(a: nat, b: nat)
    requires
        a <= b,
    ensures
        1 <= pow10(a) <= pow10(b),
    decreases b,
{
    lemma_pow10_pos(a);
    if a < b {
        lemma_pow10_mono(a, (b - 1) as nat);
    }
}

/// The two concrete powers of ten that bound a 64-bit value's digits.
pub proof fn lemma_pow10_concrete()
    ensures
        pow10(18) == 1000000000000000000,
        pow10(19) == 10000000000000000000,
{
    reveal_with_fuel(pow10, 20);
    assert(pow10(18) == 1000000000000000000);
}

/// A run of digits is bounded by the power of ten of its length.
pub proof fn lemma_digits_val_bound(s: Seq<char>)
    requires
        forall|i: int| 0 <= i < s.len() ==> is_digit(#[trigger] s[i]),
    ensures
        0 <= spec_digits_val(s) < pow10(s.len()),
    decreases s.len(),
{
    if s.len() > 0 {
        lemma_digits_val_bound(s.drop_last());
        assert(0 <= char_digit(s.last()) <= 9);
    }
}

/// A digit run that does not start with a zero is at least the power of ten
/// of one less than its length.
pub proof fn lemma_digits_val_lower(s: Seq<char>)
    requires
        s.len() >= 1,
        forall|i: int| 0 <= i < s.len() ==> is_digit(#[trigger] s[i]),
        s[0] != '0',
    ensures
        spec_digits_val(s) >= pow10((s.len() - 1) as nat),
    decreases s.len(),
{
    if s.len() == 1 {
        assert(char_digit(s[0]) >= 1);
        assert(spec_digits_val(s.drop_last()) == 0);
    } else {
        lemma_digits_val_lower(s.drop_last());
        assert(0 <= char_digit(s.last()) <= 9);
    }
}

/// Exec mirror of `digit_char`.
fn digit_char_x(d: u64) -> (c: char)
    requires
        d < 10,
    ensures
        c == digit_char(d as int),
{
    if d == 0 {
        '0'
    } else if d == 1 {
        '1'
    } else if d == 2 {
        '2'
    } else if d == 3 {
        '3'
    } else if d == 4 {
        '4'
    } else if d == 5 {
        '5'
    } else if d == 6 {
        '6'
    } else if d == 7 {
        '7'
    } else if d == 8 {
        '8'
    } else {
        '9'
    }
}

/// Exec mirror of `char_digit`.
fn char_digit_x(c: char) -> (d: u64)
    ensures
        d == char_digit(c),
{
    if c == '0' {
        0
    } else if c == '1' {
        1
    } else if c == '2' {
        2
    } else if c == '3' {
        3
    } else if c == '4' {
        4
    } else if c == '5' {
        5
    } else if c == '6' {
        6
    } else if c == '7' {
        7
    } else if c == '8' {
        8
    } else if c == '9' {
        9
    } else {
        10
    }
}

/// Exec mirror of `is_digit`.
fn is_digit_x(c: char) -> (b: bool)
    ensures
        b == is_digit(c),
{
    c == '0' || c == '1' || c == '2' || c == '3' || c == '4' || c == '5' || c == '6' || c == '7'
        || c == '8' || c == '9'
}

/// Appends the decimal rendering of a non-negative 64-bit value.
fn push_dec_u64(out: &mut Vec<char>, m0: u64)
    ensures
        final(out)@ == old(out)@ + spec_dec_nat(m0 as nat),
{
    let mut digits: Vec<char> = Vec::new();
    let mut m: u64 = m0;
    loop
        invariant_except_break
            digits@.len() == 0 ==> m == m0,
            digits@.len() > 0 ==> m > 0 && spec_dec_nat(m0 as nat) == spec_dec_nat(m as nat)
                + digits@.reverse(),
        ensures
            spec_dec_nat(m0 as nat) == digits@.reverse(),
        decreases m,
    {
        let ghost digits0 = digits@;
        let ghost mprev = m as nat;
        let d = m % 10;
        digits.push(digit_char_x(d));
        m = m / 10;
        proof {
            assert(digits@.reverse() =~= seq![digit_char(d as int)] + digits0.reverse());
            if mprev < 10 {
                assert(m == 0);
                assert(d == mprev);
                assert(spec_dec_nat(mprev) == seq![digit_char(d as int)]);
            } else {
                assert(m as nat == mprev / 10);
                assert(m >= 1);
                assert(d as nat == mprev % 10);
                assert(spec_dec_nat(mprev) == spec_dec_nat(mprev / 10) + seq![digit_char((mprev
                    % 10) as int)]);
            }
            if digits0.len() == 0 {
                assert(digits0.reverse() =~= Seq::<char>::empty());
                assert(digits@.reverse() =~= seq![digit_char(d as int)]);
                assert(mprev == m0 as nat);
                if m == 0 {
                    assert(spec_dec_nat(m0 as nat) =~= digits@.reverse());
                } else {
                    assert(spec_dec_nat(m0 as nat) =~= spec_dec_nat(m as nat) + digits@.reverse());
                }
            } else {
                assert(mprev > 0);
                assert(spec_dec_nat(m0 as nat) == spec_dec_nat(mprev) + digits0.reverse());
                if m == 0 {
                    assert(spec_dec_nat(m0 as nat) =~= digits@.reverse());
                } else {
                    assert(spec_dec_nat(mprev) + digits0.reverse() =~= spec_dec_nat(m as nat)
                        + digits@.reverse());
                    assert(spec_dec_nat(m0 as nat) =~= spec_dec_nat(m as nat) + digits@.reverse());
                }
            }
        }
        if m == 0 {
            break;
        }
    }
    let ghost rendered = spec_dec_nat(m0 as nat);
    let mut k: usize = digits.len();
    while k > 0
        invariant
            k <= digits@.len(),
            rendered == digits@.reverse(),
            out@ == old(out)@ + rendered.take((digits@.len() - k) as int),
        decreases k,
    {
        k = k - 1;
        out.push(digits[k]);
        proof {
            let done = (digits@.len() - k) as int;
            assert(rendered[done - 1] == digits@[k as int]);
            assert(out@ =~= old(out)@ + rendered.take(done));
        }
    }
    assert(rendered.take(digits@.len() as int) =~= rendered);
}

/// Appends the decimal rendering of a signed 64-bit value.
pub fn push_dec_i64(out: &mut Vec<char>, n: i64)
    ensures
        final(out)@ == old(out)@ + spec_dec_int(n as int),
{
    if n < 0 {
        let ghost before = out@;
        out.push('-');
        let mag: u64 = (-(n as i128)) as u64;
        push_dec_u64(out, mag);
        proof {
            assert((before + seq!['-']) + spec_dec_nat(mag as nat) =~= before + (seq!['-']
                + spec_dec_nat(mag as nat)));
        }
    } else {
        push_dec_u64(out, n as u64);
    }
}

/// `Some(rest)` when `lit` is a prefix of `s` and `rest` is what follows it.
pub open spec fn spec_expect(s: Seq<char>, lit: Seq<char>) -> Option<Seq<char>> {
    if lit.len() <= s.len() && s.take(lit.len() as int) == lit {
        Some(s.skip(lit.len() as int))
    } else {
        None
    }
}

/// A literal always matches at the front of itself followed by anything.
pub proof fn lemma_expect_concat(lit: Seq<char>, rest: Seq<char>)
    ensures
        spec_expect(lit + rest, lit) == Some(rest),
{
    assert((lit + rest).take(lit.len() as int) =~= lit);
    assert((lit + rest).skip(lit.len() as int) =~= rest);
}

/// Matches the characters of `lit` at position `start`, returning the
/// position just past the match.
pub fn expect_lit(v: &Vec<char>, start: usize, lit: &str) -> (r: Option<usize>)
    requires
        start <= v@.len(),
    ensures
        match spec_expect(v@.skip(start as int), lit@) {
            Some(rest) => {
                &&& r is Some
                &&& r->0 == start + lit@.len()
                &&& r->0 <= v@.len()
                &&& v@.skip(r->0 as int) == rest
            },
            None => r is None,
        },
{
    let ghost s = v@.skip(start as int);
    let n = lit.unicode_len();
    let vlen = v.len();
    if n > vlen - start {
        assert(lit@.len() > s.len());
        return None;
    }
    let mut j: usize = 0;
    while j < n
        invariant
            j <= n,
            n == lit@.len(),
            vlen == v@.len(),
            start + n <= vlen,
            s == v@.skip(start as int),
            forall|i: int| 0 <= i < j ==> s[i] == lit@[i],
        decreases n - j,
    {
        if v[start + j] != lit.get_char(j) {
            proof {
                assert(s.take(n as int)[j as int] != lit@[j as int]);
            }
            return None;
        }
        j = j + 1;
    }
    proof {
        assert(s.take(n as int) =~= lit@);
        assert(s.skip(n as int) =~= v@.skip((start + n) as int));
    }
    Some(start + n)
}

/// Reads a signed decimal integer at position `start`, exactly as the
/// scanning specification says, rejecting values outside the 64-bit range.
pub fn scan_int(v: &Vec<char>, start: usize) -> (r: Option<(i64, usize)>)
    requires
        start <= v@.len(),
    ensures
        match spec_scan_int(v@.skip(start as int)) {
            Some(p) => {
                &&& (i64::MIN <= p.0 && p.0 <= i64::MAX) ==> {
                    &&& r is Some
                    &&& (r->0).0 as int == p.0
                    &&& start <= (r->0).1 <= v@.len()
                    &&& v@.skip((r->0).1 as int) == p.1
                }
                &&& !(i64::MIN <= p.0 && p.0 <= i64::MAX) ==> r is None
            },
            None => r is None,
        },
{
    let ghost s = v@.skip(start as int);
    let mut i: usize = start;
    let mut neg = false;
    if i < v.len() && v[i] == '-' {
        neg = true;
        i = i + 1;
    }
    let digs_start = i;
    let ghost t = v@.skip(digs_start as int);
    proof {
        if neg {
            assert(s.drop_first() =~= t);
        }
        assert(!is_digit('-'));
    }
    while i < v.len() && v[i] == '0'
        invariant
            digs_start <= i <= v@.len(),
            forall|idx: int| digs_start <= idx < i ==> v@[idx] == '0',
        decreases v@.len() - i,
    {
        i = i + 1;
    }
    let sig_start = i;
    let mut j: usize = sig_start;
    loop
        invariant
            sig_start <= j <= v@.len(),
            forall|idx: int| sig_start <= idx < j ==> is_digit(#[trigger] v@[idx]),
        ensures
            sig_start <= j <= v@.len(),
            forall|idx: int| sig_start <= idx < j ==> is_digit(#[trigger] v@[idx]),
            j == v@.len() || !is_digit(v@[j as int]),
        decreases v@.len() - j,
    {
        if j == v.len() {
            break;
        }
        if !is_digit_x(v[j]) {
            break;
        }
        j = j + 1;
    }
    assert(j == v@.len() || !is_digit(v@[j as int]));
    let k = j - digs_start;
    proof {
        assert(forall|idx: int| digs_start <= idx < j ==> is_digit(#[trigger] v@[idx]));
        assert(forall|i2: int| 0 <= i2 < k ==> is_digit(#[trigger] t[i2]));
        if (j as int) < v@.len() {
            assert(t[k as int] == v@[j as int]);
        }
        lemma_digits_len_concrete(t, k as nat);
    }
    if k == 0 {
        return None;
    }
    let ghost dig_run = t.take(k as int);
    let ghost zeros = v@.subrange(digs_start as int, sig_start as int);
    let ghost sig = v@.subrange(sig_start as int, j as int);
    proof {
        assert(dig_run =~= zeros + sig);
        lemma_digits_val_leading_zeros(zeros, sig);
        assert(t.skip(k as int) =~= v@.skip(j as int));
    }
    let ghost value: int = if neg {
        -spec_digits_val(dig_run)
    } else {
        spec_digits_val(dig_run)
    };
    proof {
        if neg {
            assert(spec_scan_int(s) == Some((value, v@.skip(j as int))));
        } else {
            assert(t == s);
            assert(spec_scan_int(s) == Some((value, v@.skip(j as int))));
        }
    }
    let k_sig = j - sig_start;
    if k_sig > 19 {
        proof {
            assert(sig.len() == k_sig);
            assert(sig[0] == v@[sig_start as int]);
            assert(is_digit(sig[0]));
            assert(sig[0] != '0');
            lemma_digits_val_lower(sig);
            lemma_pow10_mono(19, (k_sig - 1) as nat);
            lemma_pow10_concrete();
        }
        return None;
    }
    let mut acc: u64 = 0;
    let mut tt: usize = sig_start;
    proof {
        assert(v@.subrange(sig_start as int, sig_start as int) =~= Seq::<char>::empty());
        lemma_pow10_concrete();
    }
    while tt < j
        invariant
            sig_start <= tt <= j <= v@.len(),
            j - sig_start <= 19,
            forall|idx: int| sig_start <= idx < j ==> is_digit(#[trigger] v@[idx]),
            acc == spec_digits_val(v@.subrange(sig_start as int, tt as int)),
            acc < pow10((tt - sig_start) as nat),
            pow10(18) == 1000000000000000000,
            pow10(19) == 10000000000000000000,
        decreases j - tt,
    {
        let ghost prefix = v@.subrange(sig_start as int, tt as int);
        proof {
            lemma_pow10_mono((tt - sig_start) as nat, 18);
        }
        let d = char_digit_x(v[tt]);
        assert(d <= 9);
        acc = acc * 10 + d;
        tt = tt + 1;
        proof {
            let prefix2 = v@.subrange(sig_start as int, tt as int);
            assert(prefix2.drop_last() =~= prefix);
            assert(prefix2.last() == v@[tt - 1]);
        }
    }
    proof {
        assert(v@.subrange(sig_start as int, j as int) == sig);
        assert(acc == spec_digits_val(sig));
        lemma_digits_val_bound(sig);
    }
    if neg {
        if acc > 9223372036854775808u64 {
            proof {
                lemma_pow10_mono((k_sig) as nat, 19);
            }
            return None;
        }
        let val: i64 = if acc == 9223372036854775808u64 {
            i64::MIN
        } else {
            -(acc as i64)
        };
        Some((val, j))
    } else {
        if acc > 9223372036854775807u64 {
            return None;
        }
        Some((acc as i64, j))
    }
}

} // verus!
