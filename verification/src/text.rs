//! Rendering of numbers and strings used by storage keys, frame identifiers
//! and log lines: decimal notation, zero-padding, and JSON string escaping.
//! Every rendering function produces exactly the character sequence that its
//! specification names.

use vstd::prelude::*;

verus! {

/// Relies on String::push: appends the given character to the end of the
/// string.
#[verifier::external_body]
pub fn push_char(s: &mut String, c: char)
    ensures
        final(s)@ == old(s)@ + seq![c],
{
    s.push(c);
}

/// The character for one decimal digit.
pub open spec fn digit_char(d: int) -> char
    recommends
        0 <= d < 10,
{
    ((48 + d) as u8) as char
}

/// Decimal notation of a natural number, most significant digit first,
/// without leading zeros (a single `0` for zero itself).
pub open spec fn spec_dec(n: nat) -> Seq<char>
    decreases n,
{
    if n < 10 {
        seq![digit_char(n as int)]
    } else {
        spec_dec(n / 10) + seq![digit_char((n % 10) as int)]
    }
}

/// `width` zeros-padded decimal notation: the decimal digits, preceded by
/// as many `0` characters as it takes to reach `width` (none when the
/// number is already that wide).
pub open spec fn spec_dec_padded(n: nat, width: nat) -> Seq<char> {
    if spec_dec(n).len() >= width {
        spec_dec(n)
    } else {
        Seq::new((width - spec_dec(n).len()) as nat, |i: int| '0') + spec_dec(n)
    }
}

/// Decimal notation is never empty.
pub proof fn lemma_dec_len_pos(n: nat)
    ensures
        spec_dec(n).len() >= 1,
    decreases n,
{
    if n >= 10 {
        lemma_dec_len_pos(n / 10);
    }
}

/// A number below `10^k` has at most `k` digits (stated for the widths the
/// crate renders).
pub proof fn lemma_dec_len_le(n: nat, k: nat)
    requires
        n < pow10(k),
    ensures
        spec_dec(n).len() <= if k == 0 {
            1nat
        } else {
            k
        },
    decreases k,
{
    if k == 0 {
    } else if k == 1 {
    } else if n < 10 {
    } else {
        assert(n / 10 < pow10((k - 1) as nat)) by (nonlinear_arith)
            requires
                n < 10 * pow10((k - 1) as nat),
                n >= 10,
        ;
        lemma_dec_len_le(n / 10, (k - 1) as nat);
    }
}

/// Ten to the `k`.
pub open spec fn pow10(k: nat) -> nat
    decreases k,
{
    if k == 0 {
        1
    } else {
        10 * pow10((k - 1) as nat)
    }
}

/// Two numbers with the same decimal notation are the same number.
pub proof fn lemma_dec_injective(a: nat, b: nat)
    requires
        spec_dec(a) == spec_dec(b),
    ensures
        a == b,
    decreases a,
{
    lemma_dec_len_pos(a);
    lemma_dec_len_pos(b);
    if a < 10 && b < 10 {
        assert(seq![digit_char(a as int)][0] == digit_char(a as int));
        assert(seq![digit_char(b as int)][0] == digit_char(b as int));
        assert(spec_dec(a)[0] == spec_dec(b)[0]);
        assert(digit_char(a as int) == digit_char(b as int));
        assert(((48 + a) as u8) as char == ((48 + b) as u8) as char);
        assert((48 + a) as u8 == (48 + b) as u8);
    } else if a >= 10 && b >= 10 {
        lemma_dec_len_pos(a / 10);
        lemma_dec_len_pos(b / 10);
        assert(spec_dec(a).last() == digit_char((a % 10) as int));
        assert(spec_dec(b).last() == digit_char((b % 10) as int));
        assert((48 + a % 10) as u8 == (48 + b % 10) as u8);
        assert(a % 10 == b % 10);
        assert(spec_dec(a).drop_last() =~= spec_dec(a / 10));
        assert(spec_dec(b).drop_last() =~= spec_dec(b / 10));
        lemma_dec_injective(a / 10, b / 10);
        assert(a == 10 * (a / 10) + a % 10);
        assert(b == 10 * (b / 10) + b % 10);
    } else if a < 10 {
        // Impossible: the notations differ in length.
        lemma_dec_len_pos(b / 10);
        assert(spec_dec(b).len() >= 2);
        assert(spec_dec(a).len() == 1);
    } else {
        lemma_dec_len_pos(a / 10);
        assert(spec_dec(a).len() >= 2);
        assert(spec_dec(b).len() == 1);
    }
}

/// A positive number is written without a leading zero.
pub proof fn lemma_dec_first_nonzero(n: nat)
    requires
        n >= 1,
    ensures
        spec_dec(n)[0] != '0',
    decreases n,
{
    if n < 10 {
        assert(seq![digit_char(n as int)][0] == digit_char(n as int));
    } else {
        lemma_dec_len_pos(n / 10);
        lemma_dec_first_nonzero(n / 10);
        assert(spec_dec(n)[0] == spec_dec(n / 10)[0]);
    }
}

/// Two numbers that fit a width and get the same zero-padded rendering are
/// the same number.
pub proof fn lemma_dec_padded_injective(a: nat, b: nat, w: nat)
    requires
        spec_dec(a).len() <= w,
        spec_dec(b).len() <= w,
        spec_dec_padded(a, w) == spec_dec_padded(b, w),
    ensures
        a == b,
{
    lemma_dec_len_pos(a);
    lemma_dec_len_pos(b);
    let la = spec_dec(a).len() as int;
    let lb = spec_dec(b).len() as int;
    let pa = spec_dec_padded(a, w);
    let pb = spec_dec_padded(b, w);
    assert(pa.len() == w && pb.len() == w);
    if la == lb {
        assert(spec_dec(a) =~= spec_dec(b)) by {
            assert(forall|j: int| 0 <= j < la ==> #[trigger] spec_dec(a)[j] == pa[w - la + j]);
            assert(forall|j: int| 0 <= j < lb ==> #[trigger] spec_dec(b)[j] == pb[w - lb + j]);
        }
        lemma_dec_injective(a, b);
    } else if la < lb {
        // The first digit of the longer rendering meets a padding zero.
        assert(b >= 1) by {
            if b == 0 {
                assert(spec_dec(0nat) =~= seq![digit_char(0)]);
            }
        }
        lemma_dec_first_nonzero(b);
        assert(pb[w - lb] == spec_dec(b)[0]);
        assert(pa[w - lb] == '0');
        assert(false);
    } else {
        assert(a >= 1) by {
            if a == 0 {
                assert(spec_dec(0nat) =~= seq![digit_char(0)]);
            }
        }
        lemma_dec_first_nonzero(a);
        assert(pa[w - la] == spec_dec(a)[0]);
        assert(pb[w - la] == '0');
        assert(false);
    }
}

/// Lexicographic order on character sequences, by code point.
pub open spec fn spec_lex_le(a: Seq<char>, b: Seq<char>) -> bool
    decreases a.len(),
{
    if a.len() == 0 {
        true
    } else if b.len() == 0 {
        false
    } else if a[0] != b[0] {
        (a[0] as int) < (b[0] as int)
    } else {
        spec_lex_le(a.drop_first(), b.drop_first())
    }
}

/// Strict lexicographic order on character sequences.
pub open spec fn spec_lex_lt(a: Seq<char>, b: Seq<char>) -> bool
    decreases b.len(),
{
    if b.len() == 0 {
        false
    } else if a.len() == 0 {
        true
    } else if a[0] != b[0] {
        (a[0] as int) < (b[0] as int)
    } else {
        spec_lex_lt(a.drop_first(), b.drop_first())
    }
}

/// Whether every character of a sequence is a decimal digit.
pub open spec fn all_digit_chars(s: Seq<char>) -> bool {
    forall|i: int| 0 <= i < s.len() ==> 48 <= #[trigger] s[i] as int <= 57
}

/// Every character of a decimal notation is a digit.
pub proof fn lemma_dec_chars_are_digits(n: nat)
    ensures
        all_digit_chars(spec_dec(n)),
    decreases n,
{
    if n < 10 {
        assert(seq![digit_char(n as int)][0] == digit_char(n as int));
        assert(48 <= digit_char(n as int) as int <= 57);
    } else {
        lemma_dec_chars_are_digits(n / 10);
        assert forall|i: int| 0 <= i < spec_dec(n).len() implies 48 <= #[trigger] spec_dec(
            n,
        )[i] as int <= 57 by {
            if i < spec_dec(n / 10).len() {
                assert(spec_dec(n)[i] == spec_dec(n / 10)[i]);
            } else {
                assert(spec_dec(n)[i] == digit_char((n % 10) as int));
            }
        }
    }
}

/// Every character of a zero-padded decimal notation is a digit.
pub proof fn lemma_padded_chars_are_digits(n: nat, w: nat)
    ensures
        all_digit_chars(spec_dec_padded(n, w)),
{
    lemma_dec_chars_are_digits(n);
    let p = spec_dec_padded(n, w);
    assert forall|i: int| 0 <= i < p.len() implies 48 <= #[trigger] p[i] as int <= 57 by {
        if spec_dec(n).len() < w {
            if i < w - spec_dec(n).len() {
                assert(p[i] == '0');
            } else {
                assert(p[i] == spec_dec(n)[i - (w - spec_dec(n).len())]);
            }
        } else {
            assert(p[i] == spec_dec(n)[i]);
        }
    }
}

/// The number a digit string denotes.
pub open spec fn spec_digits_val(s: Seq<char>) -> int
    decreases s.len(),
{
    if s.len() == 0 {
        0
    } else {
        spec_digits_val(s.drop_last()) * 10 + (s.last() as int - 48)
    }
}

/// Concatenation scales the leading part by the width of the trailing one.
proof fn lemma_val_concat(x: Seq<char>, s: Seq<char>)
    ensures
        spec_digits_val(x + s) == spec_digits_val(x) * pow10(s.len()) + spec_digits_val(s),
    decreases s.len(),
{
    if s.len() == 0 {
        assert(x + s =~= x);
        assert(pow10(0) == 1);
        assert(spec_digits_val(x) * 1 == spec_digits_val(x)) by (nonlinear_arith);
    } else {
        lemma_val_concat(x, s.drop_last());
        assert((x + s).drop_last() =~= x + s.drop_last());
        assert((x + s).last() == s.last());
        let vx = spec_digits_val(x);
        let vd = spec_digits_val(s.drop_last());
        let p = pow10((s.len() - 1) as nat);
        let c = s.last() as int - 48;
        assert(spec_digits_val(x + s) == spec_digits_val(x + s.drop_last()) * 10 + c);
        assert(spec_digits_val(x + s.drop_last()) == vx * p + vd);
        assert((vx * p + vd) * 10 + c == vx * (10 * p) + (vd * 10 + c)) by (nonlinear_arith);
        assert(pow10(s.len()) == 10 * p);
        assert(spec_digits_val(s) == vd * 10 + c);
    }
}

/// A run of zeros denotes zero.
proof fn lemma_val_zeros(k: nat)
    ensures
        spec_digits_val(Seq::new(k, |i: int| '0')) == 0,
    decreases k,
{
    if k > 0 {
        lemma_val_zeros((k - 1) as nat);
        let z = Seq::new(k, |i: int| '0');
        assert(z.drop_last() =~= Seq::new((k - 1) as nat, |i: int| '0'));
        assert(z.last() == '0');
    }
}

/// A decimal notation denotes its number.
pub proof fn lemma_val_of_dec(n: nat)
    ensures
        spec_digits_val(spec_dec(n)) == n,
    decreases n,
{
    if n < 10 {
        assert(spec_digits_val(Seq::<char>::empty()) == 0);
        assert(spec_dec(n).drop_last() =~= Seq::<char>::empty());
        assert(spec_dec(n).last() == digit_char(n as int)) by {
            assert(spec_dec(n) == seq![digit_char(n as int)]);
            assert(seq![digit_char(n as int)].last() == digit_char(n as int));
        }
        assert(digit_char(n as int) as int == 48 + n);
    } else {
        lemma_val_of_dec(n / 10);
        assert(spec_dec(n).drop_last() =~= spec_dec(n / 10));
        assert(spec_dec(n).last() == digit_char((n % 10) as int));
        assert(digit_char((n % 10) as int) as int == 48 + n % 10);
    }
}

/// A zero-padded decimal notation denotes its number.
pub proof fn lemma_val_of_padded(n: nat, w: nat)
    ensures
        spec_digits_val(spec_dec_padded(n, w)) == n,
{
    lemma_val_of_dec(n);
    if spec_dec(n).len() < w {
        let k = (w - spec_dec(n).len()) as nat;
        let z = Seq::new(k, |i: int| '0');
        lemma_val_zeros(k);
        lemma_val_concat(z, spec_dec(n));
    }
}

/// A digit string denotes a number below ten to its width.
proof fn lemma_val_bound(s: Seq<char>)
    requires
        all_digit_chars(s),
    ensures
        0 <= spec_digits_val(s) < pow10(s.len()),
    decreases s.len(),
{
    if s.len() > 0 {
        assert(all_digit_chars(s.drop_last())) by {
            assert(forall|i: int|
                0 <= i < s.len() - 1 ==> #[trigger] s.drop_last()[i] == s[i]);
        }
        lemma_val_bound(s.drop_last());
        assert(48 <= s.last() as int <= 57);
        let v = spec_digits_val(s.drop_last());
        let p = pow10((s.len() - 1) as nat);
        assert(v * 10 + 9 < p * 10) by (nonlinear_arith)
            requires
                v < p,
        ;
        assert(v * 10 >= 0) by (nonlinear_arith)
            requires
                v >= 0,
        ;
    }
}

/// A digit string splits at its first character.
proof fn lemma_val_front(s: Seq<char>)
    requires
        s.len() >= 1,
    ensures
        spec_digits_val(s) == (s[0] as int - 48) * pow10((s.len() - 1) as nat)
            + spec_digits_val(s.drop_first()),
{
    let head = s.subrange(0, 1);
    assert(s =~= head + s.drop_first());
    lemma_val_concat(head, s.drop_first());
    assert(spec_digits_val(Seq::<char>::empty()) == 0);
    assert(head.drop_last() =~= Seq::<char>::empty());
    assert(head.last() == s[0]);
    assert(spec_digits_val(head) == s[0] as int - 48);
    assert(spec_digits_val(s) == spec_digits_val(head + s.drop_first()));
}

/// On equal-width digit strings, lexicographic order is numeric order.
proof fn lemma_digits_lex_of_val(x: Seq<char>, y: Seq<char>)
    requires
        x.len() == y.len(),
        all_digit_chars(x),
        all_digit_chars(y),
    ensures
        spec_digits_val(x) < spec_digits_val(y) ==> spec_lex_lt(x, y),
        spec_digits_val(x) == spec_digits_val(y) ==> x == y,
    decreases x.len(),
{
    if x.len() == 0 {
        assert(x =~= y);
    } else {
        let xd = x.drop_first();
        let yd = y.drop_first();
        assert(all_digit_chars(xd) && all_digit_chars(yd)) by {
            assert(forall|i: int| 0 <= i < xd.len() ==> #[trigger] xd[i] == x[i + 1]);
            assert(forall|i: int| 0 <= i < yd.len() ==> #[trigger] yd[i] == y[i + 1]);
        }
        lemma_val_front(x);
        lemma_val_front(y);
        lemma_val_bound(xd);
        lemma_val_bound(yd);
        lemma_digits_lex_of_val(xd, yd);
        let p = pow10((x.len() - 1) as nat);
        let a = x[0] as int - 48;
        let b = y[0] as int - 48;
        assert(p >= 1) by {
            lemma_pow10_pos((x.len() - 1) as nat);
        }
        if a != b {
            // The first digits decide: each side's tail stays below `p`.
            assert(a < b ==> a * p + p <= b * p) by (nonlinear_arith)
                requires
                    p >= 1,
            ;
            assert(b < a ==> b * p + p <= a * p) by (nonlinear_arith)
                requires
                    p >= 1,
            ;
        } else {
            if spec_digits_val(x) == spec_digits_val(y) {
                assert(xd =~= yd);
                assert(x =~= y) by {
                    assert(forall|i: int| 1 <= i < x.len() ==> #[trigger] x[i] == xd[i - 1]);
                    assert(forall|i: int| 1 <= i < y.len() ==> #[trigger] y[i] == yd[i - 1]);
                }
            }
        }
    }
}

/// Ten to any power is positive.
proof fn lemma_pow10_pos(k: nat)
    ensures
        pow10(k) >= 1,
    decreases k,
{
    if k > 0 {
        lemma_pow10_pos((k - 1) as nat);
    }
}

/// Zero-padding to one width turns numeric order into lexicographic order.
pub proof fn lemma_padded_lex(a: nat, b: nat, w: nat)
    requires
        spec_dec(a).len() <= w,
        spec_dec(b).len() <= w,
    ensures
        a < b ==> spec_lex_lt(spec_dec_padded(a, w), spec_dec_padded(b, w)),
        a == b ==> spec_dec_padded(a, w) == spec_dec_padded(b, w),
{
    lemma_padded_chars_are_digits(a, w);
    lemma_padded_chars_are_digits(b, w);
    lemma_val_of_padded(a, w);
    lemma_val_of_padded(b, w);
    lemma_digits_lex_of_val(spec_dec_padded(a, w), spec_dec_padded(b, w));
}

/// A strict lexicographic head decides the comparison of any extensions.
pub proof fn lemma_lex_lt_extends(x: Seq<char>, y: Seq<char>, a: Seq<char>, b: Seq<char>)
    requires
        x.len() == y.len(),
        spec_lex_lt(x, y),
    ensures
        spec_lex_le(x + a, y + b),
    decreases x.len(),
{
    assert(x.len() >= 1);
    assert((x + a).drop_first() =~= x.drop_first() + a);
    assert((y + b).drop_first() =~= y.drop_first() + b);
    if x[0] == y[0] {
        lemma_lex_lt_extends(x.drop_first(), y.drop_first(), a, b);
    }
}

/// Lexicographic order is reflexive.
pub proof fn lemma_lex_le_refl(a: Seq<char>)
    ensures
        spec_lex_le(a, a),
    decreases a.len(),
{
    if a.len() > 0 {
        lemma_lex_le_refl(a.drop_first());
    }
}

/// Strict lexicographic order is lexicographic order.
pub proof fn lemma_lex_lt_implies_le(a: Seq<char>, b: Seq<char>)
    ensures
        spec_lex_lt(a, b) ==> spec_lex_le(a, b),
    decreases a.len(),
{
    if a.len() > 0 && b.len() > 0 {
        lemma_lex_lt_implies_le(a.drop_first(), b.drop_first());
    }
}

/// A common head reduces the comparison to the tails.
pub proof fn lemma_lex_common_head(x: Seq<char>, a: Seq<char>, b: Seq<char>)
    requires
        spec_lex_le(a, b),
    ensures
        spec_lex_le(x + a, x + b),
    decreases x.len(),
{
    if x.len() == 0 {
        assert(x + a =~= a);
        assert(x + b =~= b);
    } else {
        assert((x + a).drop_first() =~= x.drop_first() + a);
        assert((x + b).drop_first() =~= x.drop_first() + b);
        lemma_lex_common_head(x.drop_first(), a, b);
    }
}

/// The character for one decimal digit, as executable code.
pub fn digit_char_exec(d: u64) -> (c: char)
    requires
        d < 10,
    ensures
        c == digit_char(d as int),
{
    ((48 + d as u8)) as char
}

/// Render a number in decimal notation.
pub fn u64_to_dec(n: u64) -> (s: String)
    ensures
        s@ == spec_dec(n as nat),
    decreases n,
{
    let c = digit_char_exec(n % 10);
    if n < 10 {
        let mut s = String::new();
        push_char(&mut s, c);
        s
    } else {
        let mut s = u64_to_dec(n / 10);
        push_char(&mut s, c);
        s
    }
}

/// Render a number in decimal notation, zero-padded on the left to at
/// least `width` characters.
pub fn u64_to_dec_padded(n: u64, width: usize) -> (s: String)
    ensures
        s@ == spec_dec_padded(n as nat, width as nat),
{
    let digits = u64_to_dec(n);
    let digits_len = digits.as_str().unicode_len();
    let mut s = String::new();
    let mut i: usize = 0;
    if digits_len >= width {
        return digits;
    }
    let pad: usize = width - digits_len;
    while i < pad
        invariant
            i <= pad,
            s@ =~= Seq::new(i as nat, |j: int| '0'),
        decreases pad - i,
    {
        push_char(&mut s, '0');
        assert(s@ =~= Seq::new((i + 1) as nat, |j: int| '0'));
        i = i + 1;
    }
    let r = s.concat(digits.as_str());
    proof {
        assert(r@ =~= spec_dec_padded(n as nat, width as nat));
    }
    r
}

/// The escape of one character inside a JSON string literal: quote and
/// backslash are escaped, the control characters get their short escapes
/// or a four-digit hexadecimal escape, everything else stands as itself.
pub open spec fn spec_json_escape_char(c: char) -> Seq<char> {
    if c == '"' {
        seq!['\\', '"']
    } else if c == '\\' {
        seq!['\\', '\\']
    } else if c == '\n' {
        seq!['\\', 'n']
    } else if c == '\r' {
        seq!['\\', 'r']
    } else if c == '\t' {
        seq!['\\', 't']
    } else if (c as int) < 32 {
        seq!['\\', 'u', '0', '0', hex_char((c as int) / 16), hex_char((c as int) % 16)]
    } else {
        seq![c]
    }
}

/// The character for one hexadecimal digit (lower case).
pub open spec fn hex_char(d: int) -> char
    recommends
        0 <= d < 16,
{
    if d < 10 {
        digit_char(d)
    } else {
        ((87 + d) as u8) as char
    }
}

/// The escape of a whole character sequence.
pub open spec fn spec_json_escape(s: Seq<char>) -> Seq<char>
    decreases s.len(),
{
    if s.len() == 0 {
        Seq::empty()
    } else {
        spec_json_escape(s.drop_last()) + spec_json_escape_char(s.last())
    }
}

/// A JSON string literal: the escaped characters between double quotes.
pub open spec fn spec_json_string(s: Seq<char>) -> Seq<char> {
    seq!['"'] + spec_json_escape(s) + seq!['"']
}

/// The character for one hexadecimal digit, as executable code.
fn hex_char_exec(d: u32) -> (c: char)
    requires
        d < 16,
    ensures
        c == hex_char(d as int),
{
    if d < 10 {
        (48 + d as u8) as char
    } else {
        (87 + d as u8) as char
    }
}

/// Append the escape of one character.
fn push_escaped_char(out: &mut String, c: char)
    ensures
        final(out)@ == old(out)@ + spec_json_escape_char(c),
{
    if c == '"' {
        push_char(out, '\\');
        push_char(out, '"');
    } else if c == '\\' {
        push_char(out, '\\');
        push_char(out, '\\');
    } else if c == '\n' {
        push_char(out, '\\');
        push_char(out, 'n');
    } else if c == '\r' {
        push_char(out, '\\');
        push_char(out, 'r');
    } else if c == '\t' {
        push_char(out, '\\');
        push_char(out, 't');
    } else if (c as u32) < 32 {
        push_char(out, '\\');
        push_char(out, 'u');
        push_char(out, '0');
        push_char(out, '0');
        push_char(out, hex_char_exec(c as u32 / 16));
        push_char(out, hex_char_exec(c as u32 % 16));
    } else {
        push_char(out, c);
    }
}

/// Append a JSON string literal holding the given text.
pub fn push_json_string(out: &mut String, s: &str)
    ensures
        final(out)@ == old(out)@ + spec_json_string(s@),
{
    push_char(out, '"');
    let n = s.unicode_len();
    let mut i: usize = 0;
    while i < n
        invariant
            i <= n,
            n == s@.len(),
            out@ == old(out)@ + seq!['"'] + spec_json_escape(s@.subrange(0, i as int)),
        decreases n - i,
    {
        let c = s.get_char(i);
        push_escaped_char(out, c);
        proof {
            let pre = s@.subrange(0, i as int);
            let cur = s@.subrange(0, i + 1 as int);
            assert(cur.drop_last() =~= pre);
            assert(cur.last() == s@[i as int]);
        }
        i = i + 1;
    }
    proof {
        assert(s@.subrange(0, n as int) =~= s@);
        assert(old(out)@ + seq!['"'] + spec_json_escape(s@) + seq!['"'] =~= old(out)@
            + spec_json_string(s@));
    }
    push_char(out, '"');
}

/// Append a literal piece of text.
pub fn push_str_piece(out: &mut String, piece: &str)
    ensures
        final(out)@ == old(out)@ + piece@,
{
    out.append(piece);
}

/// Append a number in decimal notation.
pub fn push_dec(out: &mut String, n: u64)
    ensures
        final(out)@ == old(out)@ + spec_dec(n as nat),
{
    let d = u64_to_dec(n);
    out.append(d.as_str());
}

/// Append a number in decimal notation, zero-padded to at least `width`.
pub fn push_dec_padded(out: &mut String, n: u64, width: usize)
    ensures
        final(out)@ == old(out)@ + spec_dec_padded(n as nat, width as nat),
{
    let d = u64_to_dec_padded(n, width);
    out.append(d.as_str());
}

} // verus!
