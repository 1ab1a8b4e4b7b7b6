use vstd::prelude::*;
use crate::ast::{ArithmeticOp, AtomV, ExprV, RelationOp, UnaryOp};
use crate::parser::{digits_value, is_digit_in, unescaped};

verus! {

// The grammar of source text, over its characters. Each rule takes the
// text and a position and gives the tree it reads there with the
// position after it, or `None` where the text does not fit the rule.
// White space may stand before any token. A rule that reads an operator
// chain folds it to the left.

/// What a rule reads: a tree and the position after it.
pub type Reading = Option<(ExprV, int)>;

pub open spec fn space_char(c: char) -> bool {
    c == ' ' || c == '\t' || c == '\n' || c == '\r'
}

pub open spec fn ident_start_char(c: char) -> bool {
    ('a' <= c <= 'z') || ('A' <= c <= 'Z') || c == '_'
}

pub open spec fn ident_char(c: char) -> bool {
    ident_start_char(c) || ('0' <= c <= '9')
}

/// Whether position `i` holds `c`.
pub open spec fn at(s: Seq<char>, i: int, c: char) -> bool {
    0 <= i < s.len() && s[i] == c
}

/// The first position from `p` on that is not white space.
pub open spec fn ws(s: Seq<char>, p: int) -> int
    decreases s.len() - p,
{
    if 0 <= p < s.len() && space_char(s[p]) {
        ws(s, p + 1)
    } else {
        p
    }
}

/// The end of the run of identifier characters from `p` on.
pub open spec fn ident_end(s: Seq<char>, p: int) -> int
    decreases s.len() - p,
{
    if 0 <= p < s.len() && ident_char(s[p]) {
        ident_end(s, p + 1)
    } else {
        p
    }
}

/// The end of the run of digits in `base` from `p` on.
pub open spec fn digits_end(s: Seq<char>, p: int, base: int) -> int
    decreases s.len() - p,
{
    if 0 <= p < s.len() && is_digit_in(s[p], base) {
        digits_end(s, p + 1, base)
    } else {
        p
    }
}

pub const DOUBLE_MANTISSA_LIMIT: u64 = 0x1999_9999_9999_9998;

/// The digits and point of a double literal from `p` on, given the
/// mantissa and decimal scale read so far: the mantissa, the scale and
/// the position after them. At most one point is read.
pub open spec fn mantissa(s: Seq<char>, p: int, m: int, scale: int, seen_dot: bool) -> Option<(int, int, int)>
    decreases s.len() - p,
{
    if p < 0 || p >= s.len() {
        Some((m, scale, p))
    } else if s[p] == '.' && !seen_dot {
        mantissa(s, p + 1, m, scale, true)
    } else if '0' <= s[p] <= '9' {
        if m > DOUBLE_MANTISSA_LIMIT {
            None
        } else if seen_dot {
            if scale <= -1000 {
                None
            } else {
                mantissa(s, p + 1, m * 10 + (s[p] as int - '0' as int), scale - 1, true)
            }
        } else {
            mantissa(s, p + 1, m * 10 + (s[p] as int - '0' as int), scale, false)
        }
    } else {
        Some((m, scale, p))
    }
}

/// An optional exponent `e[+-]digits` at `p`, at most 1000 in size: its
/// value and the position after it.
pub open spec fn exponent(s: Seq<char>, p: int) -> Option<(int, int)> {
    if !(at(s, p, 'e') || at(s, p, 'E')) {
        Some((0, p))
    } else {
        let neg = at(s, p + 1, '-');
        let d = if neg || at(s, p + 1, '+') { p + 2 } else { p + 1 };
        let q = digits_end(s, d, 10);
        if q == d {
            None
        } else {
            let v = digits_value(s.subrange(d, q), 10);
            if v > 1000 {
                None
            } else {
                Some((if neg { -v } else { v }, q))
            }
        }
    }
}

/// `num` times ten `k` times, while it stays below the bound.
pub open spec fn scale_up(num: int, k: int) -> Option<int>
    decreases k,
{
    if k <= 0 {
        Some(num)
    } else if num >= 0x100_0000_0000_0000_0000_0000_0000_0000int / 2560 {
        None
    } else {
        scale_up(num * 10, k - 1)
    }
}

/// `den` times ten `k` times, while it stays below the bound.
pub open spec fn scale_den(den: int, k: int) -> Option<int>
    decreases k,
{
    if k <= 0 {
        Some(den)
    } else if den >= 0x1_0000_0000_0000_0000_0000 {
        None
    } else {
        scale_den(den * 10, k - 1)
    }
}

pub const TWO_53: u64 = 0x20_0000_0000_0000;

/// Doubles `d` (and lowers `t`) until `n / d < 2^54`: the new `d` and `t`.
pub open spec fn shrink(n: int, d: int, t: int) -> Option<(int, int)>
    decreases t + 200,
{
    if d <= 0 || t < -200 {
        None
    } else if n / d >= 2 * TWO_53 {
        if t <= -200 || d >= 0x1_0000_0000_0000_0000_0000_0000 {
            None
        } else {
            shrink(n, 2 * d, t - 1)
        }
    } else {
        Some((d, t))
    }
}

/// Doubles `n` (and raises `t`) until `n / d >= 2^53`: the new `n` and `t`.
pub open spec fn grow(n: int, d: int, t: int) -> Option<(int, int)>
    decreases 200 - t,
{
    if d <= 0 || t > 200 {
        None
    } else if n / d < TWO_53 {
        if t >= 200 || n >= 0x100_0000_0000_0000_0000_0000_0000_0000int / 4 {
            None
        } else {
            grow(2 * n, d, t + 1)
        }
    } else {
        Some((n, t))
    }
}

/// The 53-bit significand nearest to `n / (2 d)`, ties to even.
pub open spec fn rounded(n: int, d: int) -> int {
    let q = n / d;
    let h = q / 2;
    if q % 2 == 1 && (n % d != 0 || h % 2 == 1) {
        h + 1
    } else {
        h
    }
}

/// `rounded(n, d)` is a nearest integer to `n / (2 d)`: `2 d sig` is
/// within `d` of `n`, and on a tie it is even.
pub proof fn lemma_rounded_nearest(n: int, d: int)
    requires
        0 <= n,
        0 < d,
    ensures
        -d <= n - 2 * d * rounded(n, d) <= d,
        (n - 2 * d * rounded(n, d) == d || n - 2 * d * rounded(n, d) == -d) ==> rounded(n, d) % 2 == 0,
{
    let q = n / d;
    let rem = n % d;
    let h = q / 2;
    let b = q % 2;
    vstd::arithmetic::div_mod::lemma_fundamental_div_mod(n, d);
    vstd::arithmetic::div_mod::lemma_div_pos_is_pos(n, d);
    assert(0 <= rem < d);
    assert(q == 2 * h + b && (b == 0 || b == 1));
    assert(d * q == 2 * d * h + d * b) by (nonlinear_arith)
        requires
            q == 2 * h + b,
    ;
    assert(2 * d * (h + 1) == 2 * d * h + 2 * d) by (nonlinear_arith);
    assert(d * b == (if b == 1 { d } else { 0 })) by (nonlinear_arith)
        requires
            b == 0 || b == 1,
    ;
}

/// `shrink` doubles `d` once for each step it lowers `t`, and stops with
/// `n / d` below `2^54`.
pub proof fn lemma_shrink_scale(n: int, d: int, t: int)
    ensures
        shrink(n, d, t) matches Some((d2, t2)) ==> t2 <= t && d2 == d * vstd::arithmetic::power2::pow2(
            (t - t2) as nat,
        ) && n / d2 < 2 * TWO_53,
    decreases t + 200,
{
    if d <= 0 || t < -200 {
    } else if n / d >= 2 * TWO_53 {
        if t <= -200 || d >= 0x1_0000_0000_0000_0000_0000_0000 {
        } else {
            lemma_shrink_scale(n, 2 * d, t - 1);
            assert(shrink(n, d, t) == shrink(n, 2 * d, t - 1));
            if let Some((d2, t2)) = shrink(n, 2 * d, t - 1) {
                let e = (t - 1 - t2) as nat;
                vstd::arithmetic::power2::lemma_pow2_unfold(e + 1);
                assert(2 * d * vstd::arithmetic::power2::pow2(e) == d * vstd::arithmetic::power2::pow2(e + 1))
                    by (nonlinear_arith)
                    requires
                        vstd::arithmetic::power2::pow2(e + 1) == 2 * vstd::arithmetic::power2::pow2(e),
                ;
                assert((t - t2) as nat == e + 1);
            }
        }
    } else {
        assert(vstd::arithmetic::power2::pow2(0) == 1) by {
            vstd::arithmetic::power2::lemma2_to64();
        }
        assert(shrink(n, d, t) == Some((d, t)));
        assert(d * vstd::arithmetic::power2::pow2(0) == d);
    }
}

/// `grow` doubles `n` once for each step it raises `t`, and stops with
/// `n / d` at least `2^53`.
pub proof fn lemma_grow_scale(n: int, d: int, t: int)
    ensures
        grow(n, d, t) matches Some((n2, t2)) ==> t <= t2 && n2 == n * vstd::arithmetic::power2::pow2(
            (t2 - t) as nat,
        ) && n2 / d >= TWO_53,
    decreases 200 - t,
{
    if d <= 0 || t > 200 {
    } else if n / d < TWO_53 {
        if t >= 200 || n >= 0x100_0000_0000_0000_0000_0000_0000_0000int / 4 {
        } else {
            lemma_grow_scale(2 * n, d, t + 1);
            assert(grow(n, d, t) == grow(2 * n, d, t + 1));
            if let Some((n2, t2)) = grow(2 * n, d, t + 1) {
                let e = (t2 - t - 1) as nat;
                vstd::arithmetic::power2::lemma_pow2_unfold(e + 1);
                assert(2 * n * vstd::arithmetic::power2::pow2(e) == n * vstd::arithmetic::power2::pow2(e + 1))
                    by (nonlinear_arith)
                    requires
                        vstd::arithmetic::power2::pow2(e + 1) == 2 * vstd::arithmetic::power2::pow2(e),
                ;
                assert((t2 - t) as nat == e + 1);
            }
        }
    } else {
        assert(vstd::arithmetic::power2::pow2(0) == 1) by {
            vstd::arithmetic::power2::lemma2_to64();
        }
        assert(grow(n, d, t) == Some((n, t)));
        assert(n * vstd::arithmetic::power2::pow2(0) == n);
    }
}

/// What `ratio_double` gives is the rounding of `num / den` to 53
/// significant bits: with `d = den * 2^(-t)` and `n = num * 2^(t2 - t)`
/// (so that `n / d` is `num / den * 2^t2` and lies in `[2^53, 2^54)`),
/// the significand `rounded(n, d)` is within half a unit of `n / (2 d)`,
/// ties to even, and the bits encode it with exponent `1 - t2`.
pub proof fn lemma_ratio_double_nearest(num: int, den: int)
    requires
        0 < num,
        0 < den,
    ensures
        ratio_double(num, den) is Some ==> exists|d: int, t: int, n: int, t2: int|
            #![trigger grow(num, d, t), encode_double(rounded(n, d), t2)]
            shrink(num, den, 0) == Some((d, t)) && grow(num, d, t) == Some((n, t2))
                && d == den * vstd::arithmetic::power2::pow2((0 - t) as nat)
                && n == num * vstd::arithmetic::power2::pow2((t2 - t) as nat)
                && TWO_53 <= n / d < 2 * TWO_53
                && -d <= n - 2 * d * rounded(n, d) <= d
                && ((n - 2 * d * rounded(n, d) == d || n - 2 * d * rounded(n, d) == -d) ==> rounded(n, d) % 2 == 0)
                && ratio_double(num, den) == encode_double(rounded(n, d), t2),
{
    lemma_shrink_scale(num, den, 0);
    if let Some((d, t)) = shrink(num, den, 0) {
        lemma_grow_scale(num, d, t);
        if let Some((n, t2)) = grow(num, d, t) {
            assert(d > 0);
            lemma_grow_n_bound(num, d, t);
            lemma_rounded_nearest(n, d);
        }
    }
}

/// `grow` keeps `n / d` below `2^54` when it starts below it.
proof fn lemma_grow_n_bound(n: int, d: int, t: int)
    requires
        0 < n,
        0 < d,
        n / d < 2 * TWO_53,
    ensures
        grow(n, d, t) matches Some((n2, _)) ==> 0 < n2 && n2 / d < 2 * TWO_53,
    decreases 200 - t,
{
    if t > 200 {
    } else if n / d < TWO_53 {
        if t >= 200 || n >= 0x100_0000_0000_0000_0000_0000_0000_0000int / 4 {
        } else {
            vstd::arithmetic::div_mod::lemma_fundamental_div_mod(n, d);
            vstd::arithmetic::div_mod::lemma_fundamental_div_mod(2 * n, d);
            let q = n / d;
            let q2 = (2 * n) / d;
            assert(q2 < 2 * TWO_53) by (nonlinear_arith)
                requires
                    n == d * q + n % d,
                    2 * n == d * q2 + (2 * n) % d,
                    0 <= n % d < d,
                    0 <= (2 * n) % d < d,
                    q < TWO_53,
                    d > 0,
            ;
            lemma_grow_n_bound(2 * n, d, t + 1);
        }
    }
}

/// The bits of the double `sig * 2^(1 - t)`, for a significand with its
/// leading bit at 2^52 (or a carry to 2^53); `None` where the exponent
/// is out of the normal range.
pub open spec fn encode_double(sig: int, t: int) -> Option<u64> {
    let (g, u) = if sig >= TWO_53 { (sig / 2, t - 1) } else { (sig, t) };
    let biased = 1076 - u;
    if biased < 1 || biased > 2046 || g < TWO_53 / 2 || g >= TWO_53 {
        None
    } else {
        Some((biased * 0x10_0000_0000_0000 + (g - TWO_53 / 2)) as u64)
    }
}

/// The double nearest to `num / den`, ties to even, where it is a normal
/// number and the scaling stays in range.
pub open spec fn ratio_double(num: int, den: int) -> Option<u64> {
    match shrink(num, den, 0) {
        Some((d, t)) => match grow(num, d, t) {
            Some((n, t2)) => encode_double(rounded(n, d), t2),
            None => None,
        },
        None => None,
    }
}

/// The double nearest to `m * 10^p`.
pub open spec fn decimal_double(m: int, p: int) -> Option<u64> {
    if m == 0 {
        Some(0)
    } else if p >= 0 {
        match scale_up(m, p) {
            Some(n) => ratio_double(n, 1),
            None => None,
        }
    } else if p < -400 {
        None
    } else {
        match scale_den(1, -p) {
            Some(d) => ratio_double(m, d),
            None => None,
        }
    }
}

/// A double literal at `pos`: digits with a point, an exponent or both.
#[verifier::opaque]
pub open spec fn double_lit(s: Seq<char>, pos: int) -> Reading {
    match mantissa(s, pos, 0, 0, false) {
        Some((m, scale, p)) => match exponent(s, p) {
            Some((x, q)) => match decimal_double(m, scale + x) {
                Some(b) => Some((ExprV::Atom(AtomV::Double(b)), q)),
                None => None,
            },
            None => None,
        },
        None => None,
    }
}

/// A number literal at `pos`: decimal or `0x` hex digits, then a `u`
/// for a uint; a decimal with a point or exponent is a double.
#[verifier::opaque]
pub open spec fn number_lit(s: Seq<char>, pos: int) -> Reading {
    let hex = at(s, pos, '0') && (at(s, pos + 1, 'x') || at(s, pos + 1, 'X'));
    let start = if hex { pos + 2 } else { pos };
    let base = if hex { 16int } else { 10int };
    let end = digits_end(s, start, base);
    let v = digits_value(s.subrange(start, end), base);
    if end == start {
        None
    } else if !hex && (at(s, end, '.') || at(s, end, 'e') || at(s, end, 'E')) {
        double_lit(s, pos)
    } else if v > u64::MAX {
        None
    } else if at(s, end, 'u') || at(s, end, 'U') {
        Some((ExprV::Atom(AtomV::UInt(v as u64)), end + 1))
    } else if v <= i64::MAX {
        Some((ExprV::Atom(AtomV::Int(v as i64)), end))
    } else {
        None
    }
}

/// The body of a literal closed by `quote`, from `p` on, escapes kept as
/// written: the body and the position after the closing quote.
pub open spec fn quoted_from(s: Seq<char>, quote: char, p: int, body: Seq<char>) -> Option<(Seq<char>, int)>
    decreases s.len() - p,
{
    if p < 0 || p >= s.len() {
        None
    } else if s[p] == quote {
        Some((body, p + 1))
    } else if s[p] == '\\' && p + 1 < s.len() {
        quoted_from(s, quote, p + 2, body.push(s[p]).push(s[p + 1]))
    } else {
        quoted_from(s, quote, p + 1, body.push(s[p]))
    }
}

/// A string or bytes literal whose opening quote is at `pos`. Unless it is
/// raw, a body with a backslash has its escapes replaced; a body without
/// one stands as written. A bytes literal holds the UTF-8 encoding.
#[verifier::opaque]
pub open spec fn text_lit(s: Seq<char>, pos: int, raw: bool, bytes: bool) -> Reading {
    match quoted_from(s, s[pos], pos + 1, Seq::empty()) {
        Some((body, p)) => match (if raw || !body.contains('\\') { Some(body) } else { unescaped(body) }) {
            Some(t) => if bytes {
                Some((ExprV::Atom(AtomV::Bytes(vstd::utf8::encode_utf8(t))), p))
            } else {
                Some((ExprV::Atom(AtomV::String(t)), p))
            },
            None => None,
        },
        None => None,
    }
}

/// The relational operator at `q` and its length.
pub open spec fn relop_at(s: Seq<char>, q: int) -> Option<(RelationOp, int)> {
    if q < 0 || q >= s.len() {
        None
    } else {
        let c = s[q];
        let eq_next = at(s, q + 1, '=');
        if c == '<' {
            if eq_next { Some((RelationOp::LessThanEq, 2)) } else { Some((RelationOp::LessThan, 1)) }
        } else if c == '>' {
            if eq_next { Some((RelationOp::GreaterThanEq, 2)) } else { Some((RelationOp::GreaterThan, 1)) }
        } else if c == '=' && eq_next {
            Some((RelationOp::Equals, 2))
        } else if c == '!' && eq_next {
            Some((RelationOp::NotEquals, 2))
        } else if c == 'i' && at(s, q + 1, 'n') && !(q + 2 < s.len() && ident_char(s[q + 2])) {
            Some((RelationOp::In, 2))
        } else {
            None
        }
    }
}

/// The additive operator at `q`.
pub open spec fn addop_at(s: Seq<char>, q: int) -> Option<ArithmeticOp> {
    if at(s, q, '+') {
        Some(ArithmeticOp::Add)
    } else if at(s, q, '-') {
        Some(ArithmeticOp::Subtract)
    } else {
        None
    }
}

/// The multiplicative operator at `q`.
pub open spec fn mulop_at(s: Seq<char>, q: int) -> Option<ArithmeticOp> {
    if at(s, q, '*') {
        Some(ArithmeticOp::Multiply)
    } else if at(s, q, '/') {
        Some(ArithmeticOp::Divide)
    } else if at(s, q, '%') {
        Some(ArithmeticOp::Modulus)
    } else {
        None
    }
}

/// Whether `p` lies within the text.
pub open spec fn inside(s: Seq<char>, p: int) -> bool {
    0 <= p <= s.len()
}

/// `expr , expr , ...` up to `close`, a trailing comma allowed, after
/// the items read so far: the items and the position after `close`.
#[verifier::opaque]
pub open spec fn items(s: Seq<char>, p: int, close: char, acc: Seq<ExprV>) -> Option<(Seq<ExprV>, int)>
    decreases s.len() - p, 16nat,
{
    if !inside(s, p) {
        None
    } else {
        match expr(s, p) {
            Some((e, q0)) => {
                let acc2 = acc.push(e);
                let q = ws(s, q0);
                if at(s, q, ',') {
                    let p2 = ws(s, q + 1);
                    if at(s, p2, close) {
                        Some((acc2, p2 + 1))
                    } else if p2 <= p || !inside(s, p2) {
                        None
                    } else {
                        items(s, p2, close, acc2)
                    }
                } else if at(s, q, close) {
                    Some((acc2, q + 1))
                } else {
                    None
                }
            },
            None => None,
        }
    }
}

/// A bracketed list of expressions whose opening bracket ends before `pos`.
#[verifier::opaque]
pub open spec fn list_body(s: Seq<char>, pos: int, close: char) -> Option<(Seq<ExprV>, int)>
    decreases s.len() - pos, 17nat,
{
    if !inside(s, pos) {
        None
    } else {
        let p = ws(s, pos);
        if at(s, p, close) {
            Some((Seq::empty(), p + 1))
        } else if p < pos || !inside(s, p) {
            None
        } else {
            items(s, p, close, Seq::empty())
        }
    }
}

/// `key : value , ...` up to `}`, after the entries read so far.
#[verifier::opaque]
pub open spec fn entries(s: Seq<char>, p: int, acc: Seq<(ExprV, ExprV)>) -> Option<(Seq<(ExprV, ExprV)>, int)>
    decreases s.len() - p, 16nat,
{
    if !inside(s, p) {
        None
    } else {
        match expr(s, p) {
            Some((k, q0)) => {
                let q = ws(s, q0);
                if !at(s, q, ':') || q < p {
                    None
                } else {
                    match expr(s, q + 1) {
                        Some((v, r0)) => {
                            let acc2 = acc.push((k, v));
                            let r = ws(s, r0);
                            if at(s, r, ',') {
                                let p2 = ws(s, r + 1);
                                if at(s, p2, '}') {
                                    Some((acc2, p2 + 1))
                                } else if p2 <= p || !inside(s, p2) {
                                    None
                                } else {
                                    entries(s, p2, acc2)
                                }
                            } else if at(s, r, '}') {
                                Some((acc2, r + 1))
                            } else {
                                None
                            }
                        },
                        None => None,
                    }
                }
            },
            None => None,
        }
    }
}

/// A map literal's body whose `{` ends before `pos`.
#[verifier::opaque]
pub open spec fn map_body(s: Seq<char>, pos: int) -> Option<(Seq<(ExprV, ExprV)>, int)>
    decreases s.len() - pos, 17nat,
{
    if !inside(s, pos) {
        None
    } else {
        let p = ws(s, pos);
        if at(s, p, '}') {
            Some((Seq::empty(), p + 1))
        } else if p < pos || !inside(s, p) {
            None
        } else {
            entries(s, p, Seq::empty())
        }
    }
}

/// `or ? or : expr`, or a lone `or`.
#[verifier::opaque]
pub open spec fn expr(s: Seq<char>, pos: int) -> Reading
    decreases s.len() - pos, 15nat,
{
    if !inside(s, pos) {
        None
    } else {
        match or_chain(s, pos) {
            Some((c, p0)) => {
                let p = ws(s, p0);
                if !at(s, p, '?') {
                    Some((c, p))
                } else if p < pos {
                    None
                } else {
                    match or_chain(s, p + 1) {
                        Some((a, q0)) => {
                            let q = ws(s, q0);
                            if !at(s, q, ':') || q < pos {
                                None
                            } else {
                                match expr(s, q + 1) {
                                    Some((b, r)) => Some((ExprV::Ternary(Box::new(c), Box::new(a), Box::new(b)), r)),
                                    None => None,
                                }
                            }
                        },
                        None => None,
                    }
                }
            },
            None => None,
        }
    }
}

/// `and || and || ...`
#[verifier::opaque]
pub open spec fn or_chain(s: Seq<char>, pos: int) -> Reading
    decreases s.len() - pos, 14nat,
{
    if !inside(s, pos) {
        None
    } else {
        match and_chain(s, pos) {
            Some((l, p)) => if p < pos || !inside(s, p) { None } else { or_rest(s, l, p) },
            None => None,
        }
    }
}

#[verifier::opaque]
pub open spec fn or_rest(s: Seq<char>, l: ExprV, p: int) -> Reading
    decreases s.len() - p, 13nat,
{
    let q = ws(s, p);
    if !(at(s, q, '|') && at(s, q + 1, '|')) {
        Some((l, p))
    } else if q < p || !inside(s, p) {
        None
    } else {
        match and_chain(s, q + 2) {
            Some((r, p2)) => if p2 <= p || !inside(s, p2) {
                None
            } else {
                or_rest(s, ExprV::Or(Box::new(l), Box::new(r)), p2)
            },
            None => None,
        }
    }
}

/// `rel && rel && ...`
#[verifier::opaque]
pub open spec fn and_chain(s: Seq<char>, pos: int) -> Reading
    decreases s.len() - pos, 12nat,
{
    if !inside(s, pos) {
        None
    } else {
        match rel_chain(s, pos) {
            Some((l, p)) => if p < pos || !inside(s, p) { None } else { and_rest(s, l, p) },
            None => None,
        }
    }
}

#[verifier::opaque]
pub open spec fn and_rest(s: Seq<char>, l: ExprV, p: int) -> Reading
    decreases s.len() - p, 11nat,
{
    let q = ws(s, p);
    if !(at(s, q, '&') && at(s, q + 1, '&')) {
        Some((l, p))
    } else if q < p || !inside(s, p) {
        None
    } else {
        match rel_chain(s, q + 2) {
            Some((r, p2)) => if p2 <= p || !inside(s, p2) {
                None
            } else {
                and_rest(s, ExprV::And(Box::new(l), Box::new(r)), p2)
            },
            None => None,
        }
    }
}

/// `add op add op ...` with the relational operators.
#[verifier::opaque]
pub open spec fn rel_chain(s: Seq<char>, pos: int) -> Reading
    decreases s.len() - pos, 10nat,
{
    if !inside(s, pos) {
        None
    } else {
        match add_chain(s, pos) {
            Some((l, p)) => if p < pos || !inside(s, p) { None } else { rel_rest(s, l, p) },
            None => None,
        }
    }
}

#[verifier::opaque]
pub open spec fn rel_rest(s: Seq<char>, l: ExprV, p: int) -> Reading
    decreases s.len() - p, 9nat,
{
    let q = ws(s, p);
    match relop_at(s, q) {
        None => Some((l, p)),
        Some((op, n)) => if q < p || !inside(s, p) || n < 1 {
            None
        } else {
            match add_chain(s, q + n) {
                Some((r, p2)) => if p2 <= p || !inside(s, p2) {
                    None
                } else {
                    rel_rest(s, ExprV::Relation(Box::new(l), op, Box::new(r)), p2)
                },
                None => None,
            }
        },
    }
}

/// `mul + mul - ...`
#[verifier::opaque]
pub open spec fn add_chain(s: Seq<char>, pos: int) -> Reading
    decreases s.len() - pos, 8nat,
{
    if !inside(s, pos) {
        None
    } else {
        match mul_chain(s, pos) {
            Some((l, p)) => if p < pos || !inside(s, p) { None } else { add_rest(s, l, p) },
            None => None,
        }
    }
}

#[verifier::opaque]
pub open spec fn add_rest(s: Seq<char>, l: ExprV, p: int) -> Reading
    decreases s.len() - p, 7nat,
{
    let q = ws(s, p);
    match addop_at(s, q) {
        None => Some((l, p)),
        Some(op) => if q < p || !inside(s, p) {
            None
        } else {
            match mul_chain(s, q + 1) {
                Some((r, p2)) => if p2 <= p || !inside(s, p2) {
                    None
                } else {
                    add_rest(s, ExprV::Arithmetic(Box::new(l), op, Box::new(r)), p2)
                },
                None => None,
            }
        },
    }
}

/// `unary * unary / unary % ...`
#[verifier::opaque]
pub open spec fn mul_chain(s: Seq<char>, pos: int) -> Reading
    decreases s.len() - pos, 6nat,
{
    if !inside(s, pos) {
        None
    } else {
        match unary(s, pos) {
            Some((l, p)) => if p < pos || !inside(s, p) { None } else { mul_rest(s, l, p) },
            None => None,
        }
    }
}

#[verifier::opaque]
pub open spec fn mul_rest(s: Seq<char>, l: ExprV, p: int) -> Reading
    decreases s.len() - p, 5nat,
{
    let q = ws(s, p);
    match mulop_at(s, q) {
        None => Some((l, p)),
        Some(op) => if q < p || !inside(s, p) {
            None
        } else {
            match unary(s, q + 1) {
                Some((r, p2)) => if p2 <= p || !inside(s, p2) {
                    None
                } else {
                    mul_rest(s, ExprV::Arithmetic(Box::new(l), op, Box::new(r)), p2)
                },
                None => None,
            }
        },
    }
}

/// `!unary`, `-unary`, or a member expression.
#[verifier::opaque]
pub open spec fn unary(s: Seq<char>, pos: int) -> Reading
    decreases s.len() - pos, 4nat,
{
    if !inside(s, pos) {
        None
    } else {
        let p = ws(s, pos);
        if p < pos || !inside(s, p) {
            None
        } else if at(s, p, '!') || at(s, p, '-') {
            let op = if at(s, p, '!') { UnaryOp::Not } else { UnaryOp::Minus };
            match unary(s, p + 1) {
                Some((e, q)) => Some((ExprV::Unary(op, Box::new(e)), q)),
                None => None,
            }
        } else {
            member(s, p)
        }
    }
}

/// A primary expression followed by selections.
#[verifier::opaque]
pub open spec fn member(s: Seq<char>, pos: int) -> Reading
    decreases s.len() - pos, 3nat,
{
    if !inside(s, pos) {
        None
    } else {
        match primary(s, pos) {
            Some((b, p)) => if p < pos || !inside(s, p) { None } else { member_rest(s, b, p) },
            None => None,
        }
    }
}

/// `.name`, `.name(args)` and `[index]` selections after `b`.
#[verifier::opaque]
pub open spec fn member_rest(s: Seq<char>, b: ExprV, p: int) -> Reading
    decreases s.len() - p, 2nat,
{
    let q = ws(s, p);
    if q < p || !inside(s, p) || !inside(s, q) {
        None
    } else if at(s, q, '.') {
        let n0 = ws(s, q + 1);
        let e = ident_end(s, n0);
        if e == n0 || !ident_start_char(s[n0]) || n0 < q || e < n0 || !inside(s, e) {
            None
        } else {
            let name = s.subrange(n0, e);
            let t = ws(s, e);
            if at(s, t, '(') {
                if t < e {
                    None
                } else {
                    match list_body(s, t + 1, ')') {
                        Some((args, t2)) => if t2 <= p || !inside(s, t2) {
                            None
                        } else {
                            member_rest(s, ExprV::MethodCall(Box::new(b), name, args), t2)
                        },
                        None => None,
                    }
                }
            } else {
                member_rest(s, ExprV::Attribute(Box::new(b), name), e)
            }
        }
    } else if at(s, q, '[') {
        match expr(s, q + 1) {
            Some((i, t0)) => {
                let t = ws(s, t0);
                if !at(s, t, ']') || t < q {
                    None
                } else {
                    member_rest(s, ExprV::Index(Box::new(b), Box::new(i)), t + 1)
                }
            },
            None => None,
        }
    } else {
        Some((b, p))
    }
}

/// A word at `p`: `true`, `false`, `null`, an identifier, or a call.
#[verifier::opaque]
pub open spec fn word(s: Seq<char>, p: int) -> Reading
    decreases s.len() - p, 0nat,
{
    let e = ident_end(s, p);
    let name = s.subrange(p, e);
    if !inside(s, p) {
        None
    } else if name == "true"@ {
        Some((ExprV::Atom(AtomV::Bool(true)), e))
    } else if name == "false"@ {
        Some((ExprV::Atom(AtomV::Bool(false)), e))
    } else if name == "null"@ {
        Some((ExprV::Atom(AtomV::Null), e))
    } else {
        let t = ws(s, e);
        if at(s, t, '(') {
            if t < p || e < p {
                None
            } else {
                match list_body(s, t + 1, ')') {
                    Some((args, q)) => Some((ExprV::GlobalFunctionCall(name, args), q)),
                    None => None,
                }
            }
        } else {
            Some((ExprV::Ident(name), e))
        }
    }
}

/// A literal, an identifier, a call, a parenthesized expression, a list
/// or a map.
#[verifier::opaque]
pub open spec fn primary(s: Seq<char>, pos: int) -> Reading
    decreases s.len() - pos, 1nat,
{
    let p = ws(s, pos);
    if !inside(s, pos) || p < pos || p >= s.len() {
        None
    } else {
        let c = s[p];
        let next_quote = at(s, p + 1, '"') || at(s, p + 1, '\'');
        if '0' <= c <= '9' {
            number_lit(s, p)
        } else if c == '"' || c == '\'' {
            text_lit(s, p, false, false)
        } else if (c == 'r' || c == 'R') && next_quote {
            text_lit(s, p + 1, true, false)
        } else if (c == 'b' || c == 'B') && next_quote {
            text_lit(s, p + 1, false, true)
        } else if c == '(' {
            match expr(s, p + 1) {
                Some((e, q0)) => {
                    let q = ws(s, q0);
                    if at(s, q, ')') { Some((e, q + 1)) } else { None }
                },
                None => None,
            }
        } else if c == '[' {
            match list_body(s, p + 1, ']') {
                Some((xs, q)) => Some((ExprV::List(xs), q)),
                None => None,
            }
        } else if c == '{' {
            match map_body(s, p + 1) {
                Some((es, q)) => Some((ExprV::Mapping(es), q)),
                None => None,
            }
        } else if ident_start_char(c) {
            word(s, p)
        } else {
            None
        }
    }
}

/// The tree that a whole source text reads as: one expression, then
/// only white space.
#[verifier::opaque]
pub open spec fn parse_spec(s: Seq<char>) -> Option<ExprV> {
    match expr(s, 0) {
        Some((e, p)) => if ws(s, p) == s.len() { Some(e) } else { None },
        None => None,
    }
}

} // verus!
