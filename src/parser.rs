use vstd::prelude::*;
use vstd::string::StringExecFns;
use crate::ast::{
    lemma_view_and, lemma_view_arithmetic, lemma_view_atom, lemma_view_attribute, lemma_view_call,
    lemma_view_ident, lemma_view_index, lemma_view_list, lemma_view_mapping, lemma_view_method,
    lemma_view_or, lemma_view_relation, lemma_view_ternary, lemma_view_unary, exprs_view, pairs_view, ArithmeticOp, Atom, AtomV, ExprV, Expression, Member, RelationOp, UnaryOp,
};
use crate::grammar::{
    add_chain, add_rest, and_chain, and_rest, at, decimal_double, digits_end, double_lit, entries,
    exponent, expr, grow, ident_char, ident_end, ident_start_char, items, list_body, mantissa,
    map_body, member, member_rest, mul_chain, mul_rest, number_lit, or_chain, or_rest, parse_spec,
    primary, quoted_from, word, ratio_double, rel_chain, rel_rest, relop_at, rounded, scale_den, scale_up,
    shrink, space_char, text_lit, unary, ws, Reading, DOUBLE_MANTISSA_LIMIT,
};

verus! {

broadcast use vstd::std_specs::vec::group_vec_axioms;

/// Why a source text is not an expression.
#[derive(Debug)]
pub struct ParseError {
    pub message: String,
}

impl ParseError {
    pub fn new(message: &str) -> (r: ParseError)
        ensures
            r.message@ == message@,
    {
        ParseError { message: String::from_str(message) }
    }

    /// The message, for display.
    pub fn to_string(&self) -> (r: String)
        ensures
            r@ == self.message@,
    {
        self.message.clone()
    }
}

/// The value of a digit character in base 16, if it is one.
pub open spec fn digit_value(c: char) -> Option<int> {
    if '0' <= c <= '9' {
        Some(c as int - '0' as int)
    } else if 'a' <= c <= 'f' {
        Some(c as int - 'a' as int + 10)
    } else if 'A' <= c <= 'F' {
        Some(c as int - 'A' as int + 10)
    } else {
        None
    }
}

/// Whether `c` is a digit in `base` (10 or 16).
pub open spec fn is_digit_in(c: char, base: int) -> bool {
    digit_value(c) matches Some(d) && d < base
}

/// The number that a sequence of digits in `base` denotes.
pub open spec fn digits_value(s: Seq<char>, base: int) -> int
    decreases s.len(),
{
    if s.len() == 0 {
        0
    } else {
        digits_value(s.drop_last(), base) * base + match digit_value(s.last()) {
            Some(d) => d,
            None => 0,
        }
    }
}

fn digit_of(c: char) -> (r: Option<u64>)
    ensures
        match digit_value(c) {
            Some(d) => r == Some(d as u64),
            None => r is None,
        },
{
    if '0' <= c && c <= '9' {
        Some((c as u32 - '0' as u32) as u64)
    } else if 'a' <= c && c <= 'f' {
        Some((c as u32 - 'a' as u32 + 10) as u64)
    } else if 'A' <= c && c <= 'F' {
        Some((c as u32 - 'A' as u32 + 10) as u64)
    } else {
        None
    }
}

fn is_ident_start(c: char) -> (r: bool)
    ensures
        r == ident_start_char(c),
{
    ('a' <= c && c <= 'z') || ('A' <= c && c <= 'Z') || c == '_'
}

fn is_ident_char(c: char) -> (r: bool)
    ensures
        r == ident_char(c),
{
    is_ident_start(c) || ('0' <= c && c <= '9')
}

fn is_space(c: char) -> (r: bool)
    ensures
        r == space_char(c),
{
    c == ' ' || c == '\t' || c == '\n' || c == '\r'
}

/// Relies on `String::from_iter` over characters: the string holds
/// exactly the given characters, in order.
#[verifier::external_body]
fn string_of(chars: &[char]) -> (r: String)
    ensures
        r@ == chars@,
{
    String::from_iter(chars)
}

/// The text that `unescape::unescape` makes of `s`: `None` where `s`
/// holds an escape sequence it does not accept.
pub uninterp spec fn unescaped(s: Seq<char>) -> Option<Seq<char>>;

/// Relies on `unescape::unescape`, which replaces backslash escape
/// sequences by the characters they stand for and leaves every other
/// character as it is.
#[verifier::external_body]
fn unescape_str(s: &str) -> (r: Option<String>)
    ensures
        match unescaped(s@) {
            Some(t) => r is Some && r->0@ == t,
            None => r is None,
        },
        !s@.contains('\\') ==> r is Some && r->0@ == s@,
{
    unescape::unescape(s)
}

/// A string literal's body with its escape sequences replaced; a body
/// with an escape sequence that is not accepted gives the empty string.
pub fn parse_str(s: &str) -> (r: String)
    ensures
        r@ == match unescaped(s@) {
            Some(t) => t,
            None => Seq::empty(),
        },
{
    match unescape_str(s) {
        Some(t) => t,
        None => String::new(),
    }
}

const WIDE_TWO_53: u128 = 0x20_0000_0000_0000;

/// The double nearest to `num / den` (ties to even), as a bit pattern,
/// as `ratio_double` states it; `lemma_ratio_double_nearest` shows that
/// this is the rounding to 53 significant bits.
pub fn ratio_to_double(num: u128, den: u128) -> (r: Option<u64>)
    requires
        0 < num < 0x100_0000_0000_0000_0000_0000_0000_0000u128 / 256,
        0 < den,
    ensures
        r == ratio_double(num as int, den as int),
{
    let mut n: u128 = num;
    let mut d: u128 = den;
    // The value is n / d * 2^(-t).
    let mut t: i32 = 0;
    while n / d >= 2 * WIDE_TWO_53
        invariant
            n == num,
            0 < d,
            -200 <= t <= 0,
            shrink(num as int, den as int, 0) == shrink(n as int, d as int, t as int),
        decreases t + 200,
    {
        if t <= -200 || d >= 0x1_0000_0000_0000_0000_0000_0000u128 {
            return None;
        }
        d = d * 2;
        t = t - 1;
    }
    let ghost t1 = t;
    assert(shrink(num as int, den as int, 0) == Some((d as int, t1 as int)));
    while n / d < WIDE_TWO_53
        invariant
            0 < n < 0x100_0000_0000_0000_0000_0000_0000_0000u128 / 2,
            0 < d,
            -200 <= t <= 200,
            shrink(num as int, den as int, 0) == Some((d as int, t1 as int)),
            grow(num as int, d as int, t1 as int) == grow(n as int, d as int, t as int),
        decreases 200 - t,
    {
        if t >= 200 || n >= 0x100_0000_0000_0000_0000_0000_0000_0000u128 / 4 {
            return None;
        }
        n = n * 2;
        t = t + 1;
    }
    assert(grow(num as int, d as int, t1 as int) == Some((n as int, t as int)));
    let q = n / d;
    let rem = n % d;
    let mut sig: u128 = q / 2;
    if q % 2 == 1 && (rem != 0 || sig % 2 == 1) {
        sig = sig + 1;
    }
    assert(sig as int == rounded(n as int, d as int));
    if sig >= WIDE_TWO_53 {
        sig = sig / 2;
        t = t - 1;
    }
    let biased: i32 = 1076 - t;
    if biased < 1 || biased > 2046 || sig < WIDE_TWO_53 / 2 || sig >= WIDE_TWO_53 {
        return None;
    }
    let frac: u64 = (sig - WIDE_TWO_53 / 2) as u64;
    let bits: u64 = (biased as u64) * 0x10_0000_0000_0000 + frac;
    Some(bits)
}

/// The double nearest to `m * 10^p` (ties to even), as `decimal_double`
/// states it.
pub fn decimal_to_double(m: u64, p: i32) -> (r: Option<u64>)
    ensures
        r == decimal_double(m as int, p as int),
{
    if m == 0 {
        return Some(0);
    }
    if p >= 0 {
        let mut num: u128 = m as u128;
        let mut i: i32 = 0;
        while i < p
            invariant
                0 < num < 0x100_0000_0000_0000_0000_0000_0000_0000u128 / 256,
                0 <= i <= p,
                m > 0,
                scale_up(m as int, p as int) == scale_up(num as int, (p - i) as int),
            decreases p - i,
        {
            if num >= 0x100_0000_0000_0000_0000_0000_0000_0000u128 / 2560 {
                return None;
            }
            num = num * 10;
            i = i + 1;
        }
        ratio_to_double(num, 1)
    } else {
        if p < -400 {
            return None;
        }
        let mut den: u128 = 1;
        let mut i: i32 = 0;
        while i < -p
            invariant
                0 <= i <= -p,
                -400 <= p < 0,
                0 < den,
                m > 0,
                scale_den(1, -p as int) == scale_den(den as int, (-p - i) as int),
            decreases -p - i,
        {
            if den >= 0x1_0000_0000_0000_0000_0000u128 {
                return None;
            }
            den = den * 10;
            i = i + 1;
        }
        ratio_to_double(m as u128, den)
    }
}

/// The characters of `s`, in order.
pub fn chars_of(s: &str) -> (r: Vec<char>)
    ensures
        r@ == s@,
{
    let n = s.unicode_len();
    let mut out: Vec<char> = Vec::new();
    let mut i: usize = 0;
    while i < n
        invariant
            n == s@.len(),
            i <= n,
            out@ == s@.subrange(0, i as int),
        decreases n - i,
    {
        out.push(s.get_char(i));
        i = i + 1;
    }
    assert(out@ =~= s@);
    out
}

/// A parse of a prefix: the tree and the position after it.
pub type Parsed = Result<(Expression, usize), ParseError>;

/// Whether a parse that started at `pos` ended within the input.
pub open spec fn within(r: Parsed, pos: int, len: int) -> bool {
    r matches Ok((_, q)) ==> pos <= q <= len
}

/// `r` is what the grammar reads, `g`: the same tree and end on success,
/// an error where the grammar reads nothing.
pub open spec fn agrees(r: Parsed, g: Reading) -> bool {
    match g {
        Some((e, q)) => r matches Ok((x, q2)) && x@ == e && q2 as int == q,
        None => r is Err,
    }
}

/// A recursive-descent parser over the characters of a source text.
pub struct Parser {
    pub src: Vec<char>,
}

impl Parser {
    pub fn new(source: &str) -> (r: Parser)
        ensures
            r.src@ == source@,
    {
        Parser { src: chars_of(source) }
    }

    fn is_at(&self, p: usize, c: char) -> (r: bool)
        ensures
            r == at(self.src@, p as int, c),
    {
        p < self.src.len() && self.src[p] == c
    }

    /// The first position from `pos` on that is not white space.
    fn skip_ws(&self, pos: usize) -> (r: usize)
        requires
            pos <= self.src@.len(),
        ensures
            pos <= r <= self.src@.len(),
            r == ws(self.src@, pos as int),
    {
        let mut p = pos;
        while p < self.src.len() && is_space(self.src[p])
            invariant
                pos <= p <= self.src@.len(),
                ws(self.src@, pos as int) == ws(self.src@, p as int),
            decreases self.src@.len() - p,
        {
            p = p + 1;
        }
        p
    }

    /// The characters from `s` up to `e`, as a string.
    fn text_between(&self, s: usize, e: usize) -> (r: String)
        requires
            s <= e <= self.src@.len(),
        ensures
            r@ == self.src@.subrange(s as int, e as int),
    {
        let mut out: Vec<char> = Vec::new();
        let mut i = s;
        while i < e
            invariant
                s <= i <= e <= self.src@.len(),
                out@ == self.src@.subrange(s as int, i as int),
            decreases e - i,
        {
            out.push(self.src[i]);
            i = i + 1;
        }
        string_of(out.as_slice())
    }

    /// The end of the identifier characters from `pos` on.
    fn ident_end(&self, pos: usize) -> (r: usize)
        requires
            pos <= self.src@.len(),
        ensures
            pos <= r <= self.src@.len(),
            r == ident_end(self.src@, pos as int),
    {
        let mut p = pos;
        while p < self.src.len() && is_ident_char(self.src[p])
            invariant
                pos <= p <= self.src@.len(),
                ident_end(self.src@, pos as int) == ident_end(self.src@, p as int),
            decreases self.src@.len() - p,
        {
            p = p + 1;
        }
        p
    }

    /// Reads the digits in `base` from `pos` on: their value, where it
    /// fits in 64 bits, and the position after them.
    pub fn lex_digits(&self, pos: usize, base: u64) -> (r: (Option<u64>, usize))
        requires
            pos <= self.src@.len(),
            base == 10 || base == 16,
        ensures
            pos <= r.1 <= self.src@.len(),
            r.1 == digits_end(self.src@, pos as int, base as int),
            r.0 matches Some(v) ==> v == digits_value(self.src@.subrange(pos as int, r.1 as int), base as int),
            r.0 is None ==> digits_value(self.src@.subrange(pos as int, r.1 as int), base as int) > u64::MAX,
    {
        let mut p = pos;
        let mut acc: Option<u64> = Some(0);
        while p < self.src.len()
            invariant
                pos <= p <= self.src@.len(),
                base == 10 || base == 16,
                digits_end(self.src@, pos as int, base as int) == digits_end(self.src@, p as int, base as int),
                acc matches Some(v) ==> v == digits_value(self.src@.subrange(pos as int, p as int), base as int),
                acc is None ==> digits_value(self.src@.subrange(pos as int, p as int), base as int) > u64::MAX,
                digits_value(self.src@.subrange(pos as int, p as int), base as int) >= 0,
            ensures
                pos <= p <= self.src@.len(),
                digits_end(self.src@, pos as int, base as int) == p,
                acc matches Some(v) ==> v == digits_value(self.src@.subrange(pos as int, p as int), base as int),
                acc is None ==> digits_value(self.src@.subrange(pos as int, p as int), base as int) > u64::MAX,
            decreases self.src@.len() - p,
        {
            let d = match digit_of(self.src[p]) {
                Some(d) => d,
                None => break,
            };
            if d >= base {
                break;
            }
            let ghost old_v = digits_value(self.src@.subrange(pos as int, p as int), base as int);
            proof {
                assert(self.src@.subrange(pos as int, p + 1).drop_last() =~= self.src@.subrange(pos as int, p as int));
                assert(digits_value(self.src@.subrange(pos as int, p + 1), base as int) == old_v * base + d);
                assert(old_v * base >= old_v) by (nonlinear_arith)
                    requires old_v >= 0, base >= 10;
            }
            acc = match acc {
                Some(v) => match v.checked_mul(base) {
                    Some(w) => w.checked_add(d),
                    None => None,
                },
                None => None,
            };
            p = p + 1;
        }
        (acc, p)
    }

    /// A number literal at `pos`, as `number_lit` reads it.
    #[verifier::spinoff_prover]
    #[verifier::rlimit(100)]
    fn parse_number(&self, pos: usize) -> (r: Parsed)
        requires
            pos < self.src@.len(),
        ensures
            agrees(r, number_lit(self.src@, pos as int)),
            within(r, pos as int, self.src@.len() as int),
    {
        proof {
            reveal(number_lit);
        }
        let len = self.src.len();
        let hex = self.is_at(pos, '0') && (self.is_at(pos + 1, 'x') || self.is_at(pos + 1, 'X'));
        let start = if hex { pos + 2 } else { pos };
        let base: u64 = if hex { 16 } else { 10 };
        let (value, p) = self.lex_digits(start, base);
        if p == start {
            return Err(ParseError::new("expected digits"));
        }
        if !hex && (self.is_at(p, '.') || self.is_at(p, 'e') || self.is_at(p, 'E')) {
            return self.parse_double(pos);
        }
        let v = match value {
            Some(v) => v,
            None => {
                return Err(ParseError::new("integer literal out of range"));
            },
        };
        if self.is_at(p, 'u') || self.is_at(p, 'U') {
            proof {
                lemma_view_atom(Atom::UInt(v));
            }
            Ok((Expression::Atom(Atom::UInt(v)), p + 1))
        } else if v <= i64::MAX as u64 {
            proof {
                lemma_view_atom(Atom::Int(v as i64));
            }
            Ok((Expression::Atom(Atom::Int(v as i64)), p))
        } else {
            Err(ParseError::new("integer literal out of range"))
        }
    }

    /// A double literal at `pos`, as `double_lit` reads it.
    #[verifier::spinoff_prover]
    #[verifier::rlimit(100)]
    fn parse_double(&self, pos: usize) -> (r: Parsed)
        requires
            pos < self.src@.len(),
        ensures
            agrees(r, double_lit(self.src@, pos as int)),
            within(r, pos as int, self.src@.len() as int),
    {
        proof {
            reveal(double_lit);
        }
        let len = self.src.len();
        let mut mant: u64 = 0;
        let mut scale: i32 = 0;
        let mut p = pos;
        let mut seen_dot = false;
        while p < self.src.len()
            invariant
                pos <= p <= self.src@.len(),
                len == self.src@.len(),
                -1000 <= scale <= 0,
                mantissa(self.src@, pos as int, 0, 0, false) == mantissa(
                    self.src@,
                    p as int,
                    mant as int,
                    scale as int,
                    seen_dot,
                ),
            ensures
                pos <= p <= self.src@.len(),
                -1000 <= scale <= 0,
                mantissa(self.src@, pos as int, 0, 0, false) == Some((mant as int, scale as int, p as int)),
            decreases self.src@.len() - p,
        {
            proof {
                reveal(double_lit);
            }
            let c = self.src[p];
            if c == '.' && !seen_dot {
                seen_dot = true;
            } else if '0' <= c && c <= '9' {
                let d = (c as u32 - '0' as u32) as u64;
                if mant > DOUBLE_MANTISSA_LIMIT {
                    return Err(ParseError::new("unsupported double literal"));
                }
                mant = mant * 10 + d;
                if seen_dot {
                    if scale <= -1000 {
                        return Err(ParseError::new("unsupported double literal"));
                    }
                    scale = scale - 1;
                }
            } else {
                break;
            }
            p = p + 1;
        }
        let mut exp: i32 = 0;
        let end_mant = p;
        if self.is_at(p, 'e') || self.is_at(p, 'E') {
            p = p + 1;
            let neg = self.is_at(p, '-');
            if neg || self.is_at(p, '+') {
                p = p + 1;
            }
            let (e, q) = self.lex_digits(p, 10);
            if q == p {
                return Err(ParseError::new("expected exponent digits"));
            }
            exp = match e {
                Some(e) => if e <= 1000 {
                    e as i32
                } else {
                    return Err(ParseError::new("unsupported double literal"));
                },
                None => {
                    return Err(ParseError::new("unsupported double literal"));
                },
            };
            if neg {
                exp = -exp;
            }
            p = q;
        }
        assert(exponent(self.src@, end_mant as int) == Some((exp as int, p as int)));
        match decimal_to_double(mant, scale + exp) {
            Some(bits) => {
                proof {
                    lemma_view_atom(Atom::Double(bits));
                }
                Ok((Expression::Atom(Atom::Double(bits)), p))
            },
            None => Err(ParseError::new("unsupported double literal")),
        }
    }

    /// The body of a literal whose opening quote is at `pos`, as
    /// `quoted_from` reads it.
    #[verifier::spinoff_prover]
    #[verifier::rlimit(100)]
    fn quoted(&self, pos: usize) -> (r: Result<(Vec<char>, usize), ParseError>)
        requires
            pos < self.src@.len(),
        ensures
            match quoted_from(self.src@, self.src@[pos as int], pos + 1, Seq::empty()) {
                Some((body, q)) => r matches Ok((b, q2)) && b@ == body && q2 == q,
                None => r is Err,
            },
            r matches Ok((_, q)) ==> pos < q <= self.src@.len(),
    {
        let len = self.src.len();
        let quote = self.src[pos];
        let mut body: Vec<char> = Vec::new();
        let mut p = pos + 1;
        while p < self.src.len()
            invariant
                pos < p <= self.src@.len(),
                len == self.src@.len(),
                quote == self.src@[pos as int],
                quoted_from(self.src@, quote, pos + 1, Seq::empty()) == quoted_from(self.src@, quote, p as int, body@),
            decreases self.src@.len() - p,
        {
            let c = self.src[p];
            if c == quote {
                return Ok((body, p + 1));
            }
            if c == '\\' && p + 1 < self.src.len() {
                body.push(c);
                body.push(self.src[p + 1]);
                p = p + 2;
            } else {
                body.push(c);
                p = p + 1;
            }
        }
        Err(ParseError::new("unterminated literal"))
    }

    /// A string or bytes literal whose opening quote is at `pos`, as
    /// `text_lit` reads it.
    #[verifier::spinoff_prover]
    #[verifier::rlimit(100)]
    fn parse_text(&self, pos: usize, raw: bool, bytes: bool) -> (r: Parsed)
        requires
            pos < self.src@.len(),
        ensures
            agrees(r, text_lit(self.src@, pos as int, raw, bytes)),
            within(r, pos as int, self.src@.len() as int),
    {
        proof {
            reveal(text_lit);
        }
        let (body, p) = match self.quoted(pos) {
            Ok(x) => x,
            Err(e) => {
                return Err(e);
            },
        };
        let written = string_of(body.as_slice());
        let text = if raw {
            written
        } else {
            match unescape_str(written.as_str()) {
                Some(t) => t,
                None => {
                    return Err(ParseError::new("invalid escape sequence"));
                },
            }
        };
        if bytes {
            let b = text.as_str().as_bytes();
            let mut out: Vec<u8> = Vec::new();
            let mut i: usize = 0;
            while i < b.len()
                invariant
                    i <= b@.len(),
                    out@ == b@.subrange(0, i as int),
                decreases b@.len() - i,
            {
                out.push(b[i]);
                i = i + 1;
            }
            assert(out@ =~= b@);
            proof {
                lemma_view_atom(Atom::Bytes(out));
            }
            Ok((Expression::Atom(Atom::Bytes(out)), p))
        } else {
            proof {
                lemma_view_atom(Atom::String(text));
            }
            Ok((Expression::Atom(Atom::String(text)), p))
        }
    }

    /// A bracketed list of expressions, as `list_body` reads it.
    #[verifier::spinoff_prover]
    fn parse_list(&self, pos: usize, close: char) -> (r: Result<(Vec<Expression>, usize), ParseError>)
        requires
            pos <= self.src@.len(),
        ensures
            match list_body(self.src@, pos as int, close) {
                Some((xs, q)) => r matches Ok((v, q2)) && exprs_view(v@) == xs && q2 == q,
                None => r is Err,
            },
            r matches Ok((_, q)) ==> pos <= q <= self.src@.len(),
        decreases self.src@.len() - pos, 17nat,
    {
        proof {
            reveal(list_body);
        }
        let len = self.src.len();
        let out: Vec<Expression> = Vec::new();
        let p = self.skip_ws(pos);
        assert(exprs_view(out@) =~= Seq::<ExprV>::empty());
        if self.is_at(p, close) {
            return Ok((out, p + 1));
        }
        self.parse_items(p, close, out)
    }

    /// List items from `p` on, after those in `out`, as `items` reads them.
    #[verifier::spinoff_prover]
    fn parse_items(&self, p: usize, close: char, out: Vec<Expression>) -> (r: Result<(Vec<Expression>, usize), ParseError>)
        requires
            p <= self.src@.len(),
        ensures
            match items(self.src@, p as int, close, exprs_view(out@)) {
                Some((xs, q)) => r matches Ok((v, q2)) && exprs_view(v@) == xs && q2 == q,
                None => r is Err,
            },
            r matches Ok((_, q)) ==> p <= q <= self.src@.len(),
        decreases self.src@.len() - p, 16nat,
    {
        proof {
            reveal(items);
        }
        let len = self.src.len();
        let mut out = out;
        let ghost acc = exprs_view(out@);
        let (e, q) = match self.parse_expr(p) {
            Ok(x) => x,
            Err(e) => {
                return Err(e);
            },
        };
        let ghost ev = e@;
        out.push(e);
        assert(exprs_view(out@) =~= acc.push(ev));
        let q = self.skip_ws(q);
        if self.is_at(q, ',') {
            let p2 = self.skip_ws(q + 1);
            if self.is_at(p2, close) {
                Ok((out, p2 + 1))
            } else {
                self.parse_items(p2, close, out)
            }
        } else if self.is_at(q, close) {
            Ok((out, q + 1))
        } else {
            Err(ParseError::new("expected ',' or closing bracket"))
        }
    }

    /// A map literal's entries, as `map_body` reads them.
    #[verifier::spinoff_prover]
    #[verifier::rlimit(100)]
    fn parse_entries(&self, pos: usize) -> (r: Result<(Vec<(Expression, Expression)>, usize), ParseError>)
        requires
            pos <= self.src@.len(),
        ensures
            match map_body(self.src@, pos as int) {
                Some((xs, q)) => r matches Ok((v, q2)) && pairs_view(v@) == xs && q2 == q,
                None => r is Err,
            },
            r matches Ok((_, q)) ==> pos <= q <= self.src@.len(),
        decreases self.src@.len() - pos, 17nat,
    {
        proof {
            reveal(map_body);
        }
        let len = self.src.len();
        let out: Vec<(Expression, Expression)> = Vec::new();
        let p = self.skip_ws(pos);
        assert(pairs_view(out@) =~= Seq::<(ExprV, ExprV)>::empty());
        if self.is_at(p, '}') {
            return Ok((out, p + 1));
        }
        self.parse_entry_items(p, out)
    }

    /// A word at `p`, as `word` reads it.
    #[verifier::spinoff_prover]
    #[verifier::rlimit(100)]
    fn parse_word(&self, p: usize) -> (r: Parsed)
        requires
            p <= self.src@.len(),
        ensures
            agrees(r, word(self.src@, p as int)),
            within(r, p as int, self.src@.len() as int),
        decreases self.src@.len() - p, 0nat,
    {
        proof {
            reveal(word);
        }
        let len = self.src.len();
        let e = self.ident_end(p);
        let name = self.text_between(p, e);
        if name.eq(&String::from_str("true")) {
            proof {
                lemma_view_atom(Atom::Bool(true));
            }
            return Ok((Expression::Atom(Atom::Bool(true)), e));
        }
        if name.eq(&String::from_str("false")) {
            proof {
                lemma_view_atom(Atom::Bool(false));
            }
            return Ok((Expression::Atom(Atom::Bool(false)), e));
        }
        if name.eq(&String::from_str("null")) {
            proof {
                lemma_view_atom(Atom::Null);
            }
            return Ok((Expression::Atom(Atom::Null), e));
        }
        let t = self.skip_ws(e);
        if self.is_at(t, '(') {
            match self.parse_list(t + 1, ')') {
                Ok((args, q)) => {
                    proof {
                        lemma_view_call(name, args);
                    }
                    Ok((Expression::GlobalFunctionCall(name, args), q))
                },
                Err(e) => Err(e),
            }
        } else {
            proof {
                lemma_view_ident(name);
            }
            Ok((Expression::Ident(name), e))
        }
    }

    /// Selections after `b`, from `p` on, as `member_rest` reads them.
    #[verifier::spinoff_prover]
    #[verifier::rlimit(100)]
    fn parse_member_rest(&self, b: Expression, p: usize) -> (r: Parsed)
        requires
            p <= self.src@.len(),
        ensures
            agrees(r, member_rest(self.src@, b@, p as int)),
            within(r, p as int, self.src@.len() as int),
        decreases self.src@.len() - p, 2nat,
    {
        proof {
            reveal(member_rest);
        }
        let len = self.src.len();
        let q = self.skip_ws(p);
        if self.is_at(q, '.') {
            let s = self.skip_ws(q + 1);
            let e = self.ident_end(s);
            if e == s || !is_ident_start(self.src[s]) {
                return Err(ParseError::new("expected a field name"));
            }
            let name = self.text_between(s, e);
            let t = self.skip_ws(e);
            if self.is_at(t, '(') {
                let (args, t2) = match self.parse_list(t + 1, ')') {
                    Ok(x) => x,
                    Err(e) => {
                        return Err(e);
                    },
                };
                proof {
                    lemma_view_method(b, name, args);
                }
                self.parse_member_rest(Expression::Member(Box::new(b), Box::new(Member::FunctionCall(name, args))), t2)
            } else {
                proof {
                    lemma_view_attribute(b, name);
                }
                self.parse_member_rest(Expression::Member(Box::new(b), Box::new(Member::Attribute(name))), e)
            }
        } else if self.is_at(q, '[') {
            let (i, t) = match self.parse_expr(q + 1) {
                Ok(x) => x,
                Err(e) => {
                    return Err(e);
                },
            };
            let t = self.skip_ws(t);
            if !self.is_at(t, ']') {
                return Err(ParseError::new("expected ']'"));
            }
            proof {
                lemma_view_index(b, i);
            }
            self.parse_member_rest(Expression::Member(Box::new(b), Box::new(Member::Index(Box::new(i)))), t + 1)
        } else {
            Ok((b, p))
        }
    }

    /// Map entries from `p` on, after those in `out`, as `entries` reads them.
    #[verifier::spinoff_prover]
    #[verifier::rlimit(100)]
    fn parse_entry_items(&self, p: usize, out: Vec<(Expression, Expression)>) -> (r: Result<
        (Vec<(Expression, Expression)>, usize),
        ParseError,
    >)
        requires
            p <= self.src@.len(),
        ensures
            match entries(self.src@, p as int, pairs_view(out@)) {
                Some((xs, q)) => r matches Ok((v, q2)) && pairs_view(v@) == xs && q2 == q,
                None => r is Err,
            },
            r matches Ok((_, q)) ==> p <= q <= self.src@.len(),
        decreases self.src@.len() - p, 16nat,
    {
        proof {
            reveal(entries);
        }
        let len = self.src.len();
        let mut out = out;
        let ghost acc = pairs_view(out@);
        let (k, q) = match self.parse_expr(p) {
            Ok(x) => x,
            Err(e) => {
                return Err(e);
            },
        };
        let q = self.skip_ws(q);
        if !self.is_at(q, ':') {
            return Err(ParseError::new("expected ':'"));
        }
        let (v, q) = match self.parse_expr(q + 1) {
            Ok(x) => x,
            Err(e) => {
                return Err(e);
            },
        };
        let ghost kv = (k@, v@);
        out.push((k, v));
        assert(pairs_view(out@) =~= acc.push(kv));
        let q = self.skip_ws(q);
        if self.is_at(q, ',') {
            let p2 = self.skip_ws(q + 1);
            if self.is_at(p2, '}') {
                Ok((out, p2 + 1))
            } else {
                self.parse_entry_items(p2, out)
            }
        } else if self.is_at(q, '}') {
            Ok((out, q + 1))
        } else {
            Err(ParseError::new("expected ',' or '}'"))
        }
    }

    /// A whole source text as one expression, as `parse_spec` reads it.
    #[verifier::spinoff_prover]
    #[verifier::rlimit(100)]
    pub fn parse(&self) -> (r: Result<Expression, ParseError>)
        ensures
            match parse_spec(self.src@) {
                Some(e) => r matches Ok(x) && x@ == e,
                None => r is Err,
            },
    {
        proof {
            reveal(parse_spec);
        }
        match self.parse_expr(0) {
            Ok((expr, end)) => {
                let end = self.skip_ws(end);
                if end == self.src.len() {
                    Ok(expr)
                } else {
                    Err(ParseError::new("unexpected text after the expression"))
                }
            },
            Err(e) => Err(e),
        }
    }

    /// `or ? or : expr`, or a lone `or`, as `expr` reads it.
    #[verifier::spinoff_prover]
    #[verifier::rlimit(100)]
    pub fn parse_expr(&self, pos: usize) -> (r: Parsed)
        requires
            pos <= self.src@.len(),
        ensures
            agrees(r, expr(self.src@, pos as int)),
            within(r, pos as int, self.src@.len() as int),
        decreases self.src@.len() - pos, 15nat,
    {
        proof {
            reveal(expr);
        }
        let len = self.src.len();
        let (c, p) = match self.parse_or(pos) {
            Ok(x) => x,
            Err(e) => {
                return Err(e);
            },
        };
        let p = self.skip_ws(p);
        if !self.is_at(p, '?') {
            return Ok((c, p));
        }
        let (a, q) = match self.parse_or(p + 1) {
            Ok(x) => x,
            Err(e) => {
                return Err(e);
            },
        };
        let q = self.skip_ws(q);
        if !self.is_at(q, ':') {
            return Err(ParseError::new("expected ':'"));
        }
        let (b, q) = match self.parse_expr(q + 1) {
            Ok(x) => x,
            Err(e) => {
                return Err(e);
            },
        };
        proof {
            lemma_view_ternary(c, a, b);
        }
        Ok((Expression::Ternary(Box::new(c), Box::new(a), Box::new(b)), q))
    }

    /// `and || and || ...`, as `or_chain` reads it.
    #[verifier::spinoff_prover]
    fn parse_or(&self, pos: usize) -> (r: Parsed)
        requires
            pos <= self.src@.len(),
        ensures
            agrees(r, or_chain(self.src@, pos as int)),
            within(r, pos as int, self.src@.len() as int),
        decreases self.src@.len() - pos, 14nat,
    {
        proof {
            reveal(or_chain);
        }
        match self.parse_and(pos) {
            Ok((l, p)) => self.parse_or_rest(l, p),
            Err(e) => Err(e),
        }
    }

    /// The rest of the chain after `l`, from `p` on, as `or_rest` reads it.
    #[verifier::spinoff_prover]
    fn parse_or_rest(&self, l: Expression, p: usize) -> (r: Parsed)
        requires
            p <= self.src@.len(),
        ensures
            agrees(r, or_rest(self.src@, l@, p as int)),
            within(r, p as int, self.src@.len() as int),
        decreases self.src@.len() - p, 13nat,
    {
        proof {
            reveal(or_rest);
        }
        let len = self.src.len();
        let q = self.skip_ws(p);
        if !(self.is_at(q, '|') && self.is_at(q + 1, '|')) {
            return Ok((l, p));
        }
        match self.parse_and(q + 2) {
            Ok((r, p2)) => {
                proof {
                    lemma_view_or(l, r);
                }
                self.parse_or_rest(Expression::Or(Box::new(l), Box::new(r)), p2)
            },
            Err(e) => Err(e),
        }
    }

    /// `rel && rel && ...`, as `and_chain` reads it.
    #[verifier::spinoff_prover]
    fn parse_and(&self, pos: usize) -> (r: Parsed)
        requires
            pos <= self.src@.len(),
        ensures
            agrees(r, and_chain(self.src@, pos as int)),
            within(r, pos as int, self.src@.len() as int),
        decreases self.src@.len() - pos, 12nat,
    {
        proof {
            reveal(and_chain);
        }
        match self.parse_rel(pos) {
            Ok((l, p)) => self.parse_and_rest(l, p),
            Err(e) => Err(e),
        }
    }

    /// The rest of the chain after `l`, from `p` on, as `and_rest` reads it.
    #[verifier::spinoff_prover]
    fn parse_and_rest(&self, l: Expression, p: usize) -> (r: Parsed)
        requires
            p <= self.src@.len(),
        ensures
            agrees(r, and_rest(self.src@, l@, p as int)),
            within(r, p as int, self.src@.len() as int),
        decreases self.src@.len() - p, 11nat,
    {
        proof {
            reveal(and_rest);
        }
        let len = self.src.len();
        let q = self.skip_ws(p);
        if !(self.is_at(q, '&') && self.is_at(q + 1, '&')) {
            return Ok((l, p));
        }
        match self.parse_rel(q + 2) {
            Ok((r, p2)) => {
                proof {
                    lemma_view_and(l, r);
                }
                self.parse_and_rest(Expression::And(Box::new(l), Box::new(r)), p2)
            },
            Err(e) => Err(e),
        }
    }

    /// The relational operator at `q`, as `relop_at` reads it.
    fn relation_op_at(&self, q: usize) -> (r: Option<(RelationOp, usize)>)
        requires
            q <= self.src@.len(),
        ensures
            match relop_at(self.src@, q as int) {
                Some((op, n)) => r == Some((op, n as usize)),
                None => r is None,
            },
            r matches Some((_, n)) ==> 1 <= n <= 2,
    {
        let len = self.src.len();
        if q >= len {
            return None;
        }
        let c = self.src[q];
        let eq_next = self.is_at(q + 1, '=');
        if c == '<' {
            if eq_next { Some((RelationOp::LessThanEq, 2)) } else { Some((RelationOp::LessThan, 1)) }
        } else if c == '>' {
            if eq_next { Some((RelationOp::GreaterThanEq, 2)) } else { Some((RelationOp::GreaterThan, 1)) }
        } else if c == '=' && eq_next {
            Some((RelationOp::Equals, 2))
        } else if c == '!' && eq_next {
            Some((RelationOp::NotEquals, 2))
        } else if c == 'i' && self.is_at(q + 1, 'n') && !(q + 2 < len && is_ident_char(self.src[q + 2])) {
            Some((RelationOp::In, 2))
        } else {
            None
        }
    }

    /// `add op add op ...` with the relational operators, as `rel_chain` reads it.
    #[verifier::spinoff_prover]
    fn parse_rel(&self, pos: usize) -> (r: Parsed)
        requires
            pos <= self.src@.len(),
        ensures
            agrees(r, rel_chain(self.src@, pos as int)),
            within(r, pos as int, self.src@.len() as int),
        decreases self.src@.len() - pos, 10nat,
    {
        proof {
            reveal(rel_chain);
        }
        match self.parse_add(pos) {
            Ok((l, p)) => self.parse_rel_rest(l, p),
            Err(e) => Err(e),
        }
    }

    /// The rest of the chain after `l`, from `p` on, as `rel_rest` reads it.
    #[verifier::spinoff_prover]
    fn parse_rel_rest(&self, l: Expression, p: usize) -> (r: Parsed)
        requires
            p <= self.src@.len(),
        ensures
            agrees(r, rel_rest(self.src@, l@, p as int)),
            within(r, p as int, self.src@.len() as int),
        decreases self.src@.len() - p, 9nat,
    {
        proof {
            reveal(rel_rest);
        }
        let len = self.src.len();
        let q = self.skip_ws(p);
        let (op, n) = match self.relation_op_at(q) {
            Some(x) => x,
            None => {
                return Ok((l, p));
            },
        };
        match self.parse_add(q + n) {
            Ok((r, p2)) => {
                proof {
                    lemma_view_relation(l, op, r);
                }
                self.parse_rel_rest(Expression::Relation(Box::new(l), op, Box::new(r)), p2)
            },
            Err(e) => Err(e),
        }
    }

    /// `mul + mul - ...`, as `add_chain` reads it.
    #[verifier::spinoff_prover]
    fn parse_add(&self, pos: usize) -> (r: Parsed)
        requires
            pos <= self.src@.len(),
        ensures
            agrees(r, add_chain(self.src@, pos as int)),
            within(r, pos as int, self.src@.len() as int),
        decreases self.src@.len() - pos, 8nat,
    {
        proof {
            reveal(add_chain);
        }
        match self.parse_mul(pos) {
            Ok((l, p)) => self.parse_add_rest(l, p),
            Err(e) => Err(e),
        }
    }

    /// The rest of the chain after `l`, from `p` on, as `add_rest` reads it.
    #[verifier::spinoff_prover]
    fn parse_add_rest(&self, l: Expression, p: usize) -> (r: Parsed)
        requires
            p <= self.src@.len(),
        ensures
            agrees(r, add_rest(self.src@, l@, p as int)),
            within(r, p as int, self.src@.len() as int),
        decreases self.src@.len() - p, 7nat,
    {
        proof {
            reveal(add_rest);
        }
        let len = self.src.len();
        let q = self.skip_ws(p);
        let op = if self.is_at(q, '+') {
            ArithmeticOp::Add
        } else if self.is_at(q, '-') {
            ArithmeticOp::Subtract
        } else {
            return Ok((l, p));
        };
        match self.parse_mul(q + 1) {
            Ok((r, p2)) => {
                proof {
                    lemma_view_arithmetic(l, op, r);
                }
                self.parse_add_rest(Expression::Arithmetic(Box::new(l), op, Box::new(r)), p2)
            },
            Err(e) => Err(e),
        }
    }

    /// `unary * unary / unary % ...`, as `mul_chain` reads it.
    #[verifier::spinoff_prover]
    fn parse_mul(&self, pos: usize) -> (r: Parsed)
        requires
            pos <= self.src@.len(),
        ensures
            agrees(r, mul_chain(self.src@, pos as int)),
            within(r, pos as int, self.src@.len() as int),
        decreases self.src@.len() - pos, 6nat,
    {
        proof {
            reveal(mul_chain);
        }
        match self.parse_unary(pos) {
            Ok((l, p)) => self.parse_mul_rest(l, p),
            Err(e) => Err(e),
        }
    }

    /// The rest of the chain after `l`, from `p` on, as `mul_rest` reads it.
    #[verifier::spinoff_prover]
    fn parse_mul_rest(&self, l: Expression, p: usize) -> (r: Parsed)
        requires
            p <= self.src@.len(),
        ensures
            agrees(r, mul_rest(self.src@, l@, p as int)),
            within(r, p as int, self.src@.len() as int),
        decreases self.src@.len() - p, 5nat,
    {
        proof {
            reveal(mul_rest);
        }
        let len = self.src.len();
        let q = self.skip_ws(p);
        let op = if self.is_at(q, '*') {
            ArithmeticOp::Multiply
        } else if self.is_at(q, '/') {
            ArithmeticOp::Divide
        } else if self.is_at(q, '%') {
            ArithmeticOp::Modulus
        } else {
            return Ok((l, p));
        };
        match self.parse_unary(q + 1) {
            Ok((r, p2)) => {
                proof {
                    lemma_view_arithmetic(l, op, r);
                }
                self.parse_mul_rest(Expression::Arithmetic(Box::new(l), op, Box::new(r)), p2)
            },
            Err(e) => Err(e),
        }
    }

    /// `!unary`, `-unary`, or a member expression, as `unary` reads it.
    #[verifier::spinoff_prover]
    #[verifier::rlimit(100)]
    fn parse_unary(&self, pos: usize) -> (r: Parsed)
        requires
            pos <= self.src@.len(),
        ensures
            agrees(r, unary(self.src@, pos as int)),
            within(r, pos as int, self.src@.len() as int),
        decreases self.src@.len() - pos, 4nat,
    {
        proof {
            reveal(unary);
        }
        let len = self.src.len();
        let p = self.skip_ws(pos);
        let op = if self.is_at(p, '!') {
            UnaryOp::Not
        } else if self.is_at(p, '-') {
            UnaryOp::Minus
        } else {
            return self.parse_member(p);
        };
        match self.parse_unary(p + 1) {
            Ok((e, q)) => {
                proof {
                    lemma_view_unary(op, e);
                }
                Ok((Expression::Unary(op, Box::new(e)), q))
            },
            Err(e) => Err(e),
        }
    }

    /// A primary expression followed by selections, as `member` reads it.
    #[verifier::spinoff_prover]
    #[verifier::rlimit(100)]
    fn parse_member(&self, pos: usize) -> (r: Parsed)
        requires
            pos <= self.src@.len(),
        ensures
            agrees(r, member(self.src@, pos as int)),
            within(r, pos as int, self.src@.len() as int),
        decreases self.src@.len() - pos, 3nat,
    {
        proof {
            reveal(member);
        }
        match self.parse_primary(pos) {
            Ok((b, p)) => self.parse_member_rest(b, p),
            Err(e) => Err(e),
        }
    }

    /// A literal, an identifier, a call, a parenthesized expression, a
    /// list or a map, as `primary` reads it.
    #[verifier::spinoff_prover]
    #[verifier::rlimit(100)]
    fn parse_primary(&self, pos: usize) -> (r: Parsed)
        requires
            pos <= self.src@.len(),
        ensures
            agrees(r, primary(self.src@, pos as int)),
            within(r, pos as int, self.src@.len() as int),
        decreases self.src@.len() - pos, 1nat,
    {
        proof {
            reveal(primary);
        }
        let len = self.src.len();
        let p = self.skip_ws(pos);
        if p >= len {
            return Err(ParseError::new("unexpected end of input"));
        }
        let c = self.src[p];
        let next_quote = self.is_at(p + 1, '"') || self.is_at(p + 1, '\'');
        if '0' <= c && c <= '9' {
            self.parse_number(p)
        } else if c == '"' || c == '\'' {
            self.parse_text(p, false, false)
        } else if (c == 'r' || c == 'R') && next_quote {
            self.parse_text(p + 1, true, false)
        } else if (c == 'b' || c == 'B') && next_quote {
            self.parse_text(p + 1, false, true)
        } else if c == '(' {
            let (e, q) = match self.parse_expr(p + 1) {
                Ok(x) => x,
                Err(e) => {
                    return Err(e);
                },
            };
            let q = self.skip_ws(q);
            if !self.is_at(q, ')') {
                return Err(ParseError::new("expected ')'"));
            }
            Ok((e, q + 1))
        } else if c == '[' {
            match self.parse_list(p + 1, ']') {
                Ok((items, q)) => {
                    proof {
                        lemma_view_list(items);
                    }
                    Ok((Expression::List(items), q))
                },
                Err(e) => Err(e),
            }
        } else if c == '{' {
            match self.parse_entries(p + 1) {
                Ok((entries, q)) => {
                    proof {
                        lemma_view_mapping(entries);
                    }
                    Ok((Expression::Mapping(entries), q))
                },
                Err(e) => Err(e),
            }
        } else if is_ident_start(c) {
            self.parse_word(p)
        } else {
            Err(ParseError::new("unexpected character"))
        }
    }
}

} // verus!
