use vstd::prelude::*;
use crate::ast::Duration;
use vstd::std_specs::iter::IteratorSpec;
use crate::error::{ParserError, SStep, Step, step_matches, step_within};

verus! {

/// The text being parsed, with its characters at hand by index.
pub struct Source<'a> {
    pub text: &'a str,
    pub chars: Vec<char>,
}

impl<'a> View for Source<'a> {
    type V = Seq<char>;

    open spec fn view(&self) -> Seq<char> {
        self.chars@
    }
}

impl<'a> Source<'a> {
    pub open spec fn wf(&self) -> bool {
        &&& self.chars@ == self.text@
        &&& self.chars@.len() <= usize::MAX
    }

    pub fn new(text: &'a str) -> (r: Source<'a>)
        ensures
            r.wf(),
            r.text == text,
    {
        broadcast use vstd::string::group_string_axioms;

        let mut it = text.chars();
        let mut chars: Vec<char> = Vec::new();
        loop
            invariant
                it.obeys_prophetic_iter_laws(),
                it.decrease() is Some,
                chars@ + it.remaining() == text@,
            decreases it.decrease()->0,
        {
            match it.next() {
                Some(c) => {
                    chars.push(c);
                },
                None => {
                    let n = chars.len();
                    assert(n == chars@.len());
                    assert(chars@ =~= text@);
                    return Source { text, chars };
                },
            }
        }
    }

    pub fn len(&self) -> (r: usize)
        ensures
            r == self@.len(),
    {
        self.chars.len()
    }

    pub fn at(&self, i: usize) -> (r: char)
        requires
            i < self@.len(),
        ensures
            r == self@[i as int],
    {
        self.chars[i]
    }

    /// Whether the character at `i` is `c`; false past the end.
    pub fn is(&self, i: usize, c: char) -> (r: bool)
        ensures
            r == (i < self@.len() && self@[i as int] == c),
    {
        i < self.chars.len() && self.chars[i] == c
    }

    /// The characters from `a` to `b`, as a string.
    pub fn slice(&self, a: usize, b: usize) -> (r: String)
        requires
            self.wf(),
            a <= b <= self@.len(),
        ensures
            r@ == self@.subrange(a as int, b as int),
    {
        self.text.substring_char(a, b).to_owned()
    }

    /// The input from `a` on.
    pub fn rest(&self, a: usize) -> (r: &'a str)
        requires
            self.wf(),
            a <= self@.len(),
        ensures
            r@ == self@.subrange(a as int, self@.len() as int),
    {
        self.text.substring_char(a, self.chars.len())
    }
}

#[derive(Clone, Copy, PartialEq, Eq, Structural)]
pub enum CharClass {
    Space,
    Digit,
    Alnum,
    MetricStart,
    MetricChar,
    LabelStart,
    LabelChar,
}

pub open spec fn is_alpha(c: char) -> bool {
    ('a' <= c && c <= 'z') || ('A' <= c && c <= 'Z')
}

pub open spec fn is_digit(c: char) -> bool {
    '0' <= c && c <= '9'
}

pub open spec fn in_class(c: char, k: CharClass) -> bool {
    match k {
        CharClass::Space => c == ' ' || c == '\t' || c == '\n' || c == '\r',
        CharClass::Digit => is_digit(c),
        CharClass::Alnum => is_alpha(c) || is_digit(c),
        CharClass::MetricStart => is_alpha(c) || c == '_' || c == ':',
        CharClass::MetricChar => is_alpha(c) || is_digit(c) || c == '_' || c == ':',
        CharClass::LabelStart => is_alpha(c) || c == '_',
        CharClass::LabelChar => is_alpha(c) || is_digit(c) || c == '_',
    }
}

pub fn char_in_class(c: char, k: CharClass) -> (r: bool)
    ensures
        r == in_class(c, k),
{
    let alpha = ('a' <= c && c <= 'z') || ('A' <= c && c <= 'Z');
    let digit = '0' <= c && c <= '9';
    match k {
        CharClass::Space => c == ' ' || c == '\t' || c == '\n' || c == '\r',
        CharClass::Digit => digit,
        CharClass::Alnum => alpha || digit,
        CharClass::MetricStart => alpha || c == '_' || c == ':',
        CharClass::MetricChar => alpha || digit || c == '_' || c == ':',
        CharClass::LabelStart => alpha || c == '_',
        CharClass::LabelChar => alpha || digit || c == '_',
    }
}

/// The end of the longest run of characters of class `k` that starts at `p`.
pub open spec fn run_end(s: Seq<char>, p: int, k: CharClass) -> int
    decreases s.len() - p,
{
    if 0 <= p < s.len() && in_class(s[p], k) {
        run_end(s, p + 1, k)
    } else {
        p
    }
}

pub fn skip_class(src: &Source, p: usize, k: CharClass) -> (r: usize)
    requires
        src.wf(),
        p <= src@.len(),
    ensures
        r == run_end(src@, p as int, k),
        p <= r <= src@.len(),
{
    let n = src.len();
    let mut i = p;
    while i < n && char_in_class(src.at(i), k)
        invariant
            n == src@.len(),
            p <= i <= n,
            run_end(src@, i as int, k) == run_end(src@, p as int, k),
        decreases n - i,
    {
        i = i + 1;
    }
    i
}

/// Where the whitespace that starts at `p` ends.
pub open spec fn ws_end(s: Seq<char>, p: int) -> int {
    run_end(s, p, CharClass::Space)
}

pub fn skip_ws(src: &Source, p: usize) -> (r: usize)
    requires
        src.wf(),
        p <= src@.len(),
    ensures
        r == ws_end(src@, p as int),
        p <= r <= src@.len(),
{
    skip_class(src, p, CharClass::Space)
}

/// The text at `p` spells `t`.
pub open spec fn has_tag(s: Seq<char>, p: int, t: Seq<char>) -> bool {
    0 <= p && p + t.len() <= s.len() && forall|i: int| 0 <= i < t.len() ==> #[trigger] s[p + i] == t[i]
}

/// `c` is `t`, or the upper-case form of the ASCII letter `t`.
pub open spec fn eq_no_case(c: char, t: char) -> bool {
    c == t || ('A' <= c && c <= 'Z' && c as u32 + 32 == t as u32)
}

/// The text at `p` spells the lower-case word `t`, in any case.
pub open spec fn has_tag_no_case(s: Seq<char>, p: int, t: Seq<char>) -> bool {
    0 <= p && p + t.len() <= s.len() && forall|i: int|
        0 <= i < t.len() ==> eq_no_case(#[trigger] s[p + i], t[i])
}

pub fn tag_at(src: &Source, p: usize, t: &[char]) -> (r: bool)
    requires
        src.wf(),
        p <= src@.len(),
    ensures
        r == has_tag(src@, p as int, t@),
{
    let n = src.len();
    if t.len() > n - p {
        return false;
    }
    let mut i: usize = 0;
    while i < t.len()
        invariant
            n == src@.len(),
            i <= t@.len(),
            p + t@.len() <= n,
            forall|j: int| 0 <= j < i ==> #[trigger] src@[p + j] == t@[j],
        decreases t@.len() - i,
    {
        if src.at(p + i) != t[i] {
            return false;
        }
        i = i + 1;
    }
    true
}

pub fn tag_no_case_at(src: &Source, p: usize, t: &[char]) -> (r: bool)
    requires
        src.wf(),
        p <= src@.len(),
    ensures
        r == has_tag_no_case(src@, p as int, t@),
{
    let n = src.len();
    if t.len() > n - p {
        return false;
    }
    let mut i: usize = 0;
    while i < t.len()
        invariant
            n == src@.len(),
            i <= t@.len(),
            p + t@.len() <= n,
            forall|j: int| 0 <= j < i ==> eq_no_case(#[trigger] src@[p + j], t@[j]),
        decreases t@.len() - i,
    {
        let c = src.at(p + i);
        let d = t[i];
        if !(c == d || ('A' <= c && c <= 'Z' && c as u32 + 32 == d as u32)) {
            return false;
        }
        i = i + 1;
    }
    true
}

/// A metric name (`[A-Za-z_:][A-Za-z0-9_:]*`) at `p`: where it ends.
pub open spec fn metric_name_end(s: Seq<char>, p: int) -> Option<int> {
    if 0 <= p < s.len() && in_class(s[p], CharClass::MetricStart) {
        Some(run_end(s, p + 1, CharClass::MetricChar))
    } else {
        None
    }
}

/// A label name (`[A-Za-z_][A-Za-z0-9_]*`) at `p`: where it ends.
pub open spec fn label_name_end(s: Seq<char>, p: int) -> Option<int> {
    if 0 <= p < s.len() && in_class(s[p], CharClass::LabelStart) {
        Some(run_end(s, p + 1, CharClass::LabelChar))
    } else {
        None
    }
}

pub fn metric_name_at(src: &Source, p: usize) -> (r: Option<usize>)
    requires
        src.wf(),
        p <= src@.len(),
    ensures
        match r {
            Some(e) => metric_name_end(src@, p as int) == Some(e as int),
            None => metric_name_end(src@, p as int) is None,
        },
        r matches Some(e) ==> p < e <= src@.len(),
{
    if p < src.len() && char_in_class(src.at(p), CharClass::MetricStart) {
        Some(skip_class(src, p + 1, CharClass::MetricChar))
    } else {
        None
    }
}

pub fn label_name_at(src: &Source, p: usize) -> (r: Option<usize>)
    requires
        src.wf(),
        p <= src@.len(),
    ensures
        match r {
            Some(e) => label_name_end(src@, p as int) == Some(e as int),
            None => label_name_end(src@, p as int) is None,
        },
        r matches Some(e) ==> p < e <= src@.len(),
{
    if p < src.len() && char_in_class(src.at(p), CharClass::LabelStart) {
        Some(skip_class(src, p + 1, CharClass::LabelChar))
    } else {
        None
    }
}

/// An optional exponent (`e`, an optional sign, digits) at `q`: where the number ends.
pub open spec fn exponent_end(s: Seq<char>, q: int) -> int {
    if 0 <= q < s.len() && (s[q] == 'e' || s[q] == 'E') {
        let e0 = if q + 1 < s.len() && (s[q + 1] == '+' || s[q + 1] == '-') {
            q + 2
        } else {
            q + 1
        };
        let e1 = run_end(s, e0, CharClass::Digit);
        if e1 > e0 {
            e1
        } else {
            q
        }
    } else {
        q
    }
}

/// A number literal at `p`: an optional sign, then digits with an optional fraction or a
/// fraction alone, then an optional exponent. Where it ends.
pub open spec fn number_end(s: Seq<char>, p: int) -> Option<int> {
    let q0 = if 0 <= p < s.len() && (s[p] == '+' || s[p] == '-') {
        p + 1
    } else {
        p
    };
    let d1 = run_end(s, q0, CharClass::Digit);
    if d1 > q0 {
        if 0 <= d1 < s.len() && s[d1] == '.' {
            Some(exponent_end(s, run_end(s, d1 + 1, CharClass::Digit)))
        } else {
            Some(exponent_end(s, d1))
        }
    } else if 0 <= q0 < s.len() && s[q0] == '.' && run_end(s, q0 + 1, CharClass::Digit) > q0 + 1 {
        Some(exponent_end(s, run_end(s, q0 + 1, CharClass::Digit)))
    } else {
        None
    }
}

fn exponent_at(src: &Source, q: usize) -> (r: usize)
    requires
        src.wf(),
        q <= src@.len(),
    ensures
        r == exponent_end(src@, q as int),
        q <= r <= src@.len(),
{
    if src.is(q, 'e') || src.is(q, 'E') {
        let e0 = if src.is(q + 1, '+') || src.is(q + 1, '-') {
            q + 2
        } else {
            q + 1
        };
        let e1 = skip_class(src, e0, CharClass::Digit);
        if e1 > e0 {
            e1
        } else {
            q
        }
    } else {
        q
    }
}

pub fn number_at(src: &Source, p: usize) -> (r: Option<usize>)
    requires
        src.wf(),
        p <= src@.len(),
    ensures
        match r {
            Some(e) => number_end(src@, p as int) == Some(e as int),
            None => number_end(src@, p as int) is None,
        },
        r matches Some(e) ==> p < e <= src@.len(),
{
    let q0 = if src.is(p, '+') || src.is(p, '-') {
        p + 1
    } else {
        p
    };
    let d1 = skip_class(src, q0, CharClass::Digit);
    if d1 > q0 {
        if src.is(d1, '.') {
            let f = skip_class(src, d1 + 1, CharClass::Digit);
            Some(exponent_at(src, f))
        } else {
            Some(exponent_at(src, d1))
        }
    } else if src.is(q0, '.') {
        let f = skip_class(src, q0 + 1, CharClass::Digit);
        if f > q0 + 1 {
            Some(exponent_at(src, f))
        } else {
            None
        }
    } else {
        None
    }
}

pub open spec fn is_quote(c: char) -> bool {
    c == '"' || c == '\'' || c == '`'
}

/// The content of a string literal delimited by `d` runs from `i` to the position returned:
/// that of the closing delimiter. A backslash may escape only `d` or a backslash.
pub open spec fn string_body_end(s: Seq<char>, i: int, d: char) -> Option<int>
    decreases s.len() - i,
{
    if 0 <= i < s.len() {
        if s[i] == d {
            Some(i)
        } else if s[i] == '\\' {
            if i + 1 < s.len() && (s[i + 1] == d || s[i + 1] == '\\') {
                string_body_end(s, i + 2, d)
            } else {
                None
            }
        } else {
            string_body_end(s, i + 1, d)
        }
    } else {
        None
    }
}

/// A string literal at `p`, with the whitespace around it: where its content starts, where
/// the content ends, and where the literal and its trailing whitespace end.
pub open spec fn string_lit(s: Seq<char>, p: int) -> Option<(int, int, int)> {
    let q = ws_end(s, p);
    if 0 <= q < s.len() && is_quote(s[q]) {
        match string_body_end(s, q + 1, s[q]) {
            Some(e) => Some((q + 1, e, ws_end(s, e + 1))),
            None => None,
        }
    } else {
        None
    }
}

fn string_body_at(src: &Source, i: usize, d: char) -> (r: Option<usize>)
    requires
        src.wf(),
        i <= src@.len(),
    ensures
        match r {
            Some(e) => string_body_end(src@, i as int, d) == Some(e as int),
            None => string_body_end(src@, i as int, d) is None,
        },
        r matches Some(e) ==> i <= e < src@.len(),
{
    let n = src.len();
    let mut j = i;
    while j < n
        invariant
            n == src@.len(),
            i <= j <= n,
            string_body_end(src@, j as int, d) == string_body_end(src@, i as int, d),
        decreases n - j,
    {
        let c = src.at(j);
        if c == d {
            return Some(j);
        } else if c == '\\' {
            if j + 1 < n && (src.at(j + 1) == d || src.at(j + 1) == '\\') {
                j = j + 2;
            } else {
                return None;
            }
        } else {
            j = j + 1;
        }
    }
    None
}

pub fn string_lit_at(src: &Source, p: usize) -> (r: Option<(usize, usize, usize)>)
    requires
        src.wf(),
        p <= src@.len(),
    ensures
        match r {
            Some((a, b, e)) => string_lit(src@, p as int) == Some((a as int, b as int, e as int)),
            None => string_lit(src@, p as int) is None,
        },
        r matches Some((a, b, e)) ==> p < a <= b < e <= src@.len(),
{
    let q = skip_ws(src, p);
    if q < src.len() && (src.at(q) == '"' || src.at(q) == '\'' || src.at(q) == '`') {
        match string_body_at(src, q + 1, src.at(q)) {
            Some(e) => Some((q + 1, e, skip_ws(src, e + 1))),
            None => None,
        }
    } else {
        None
    }
}

/// What `humantime::parse_duration` makes of a text: seconds and nanoseconds, or nothing
/// where it refuses the text.
pub uninterp spec fn parsed_duration(text: Seq<char>) -> Option<(u64, u32)>;

/// Nanoseconds in 2^64 seconds: a duration holds less.
pub const DURATION_NANOS_LIMIT: u128 = 18_446_744_073_709_551_616_000_000_000;

/// The nanoseconds in the unit of the duration grammar whose name starts at `i` in `t`, known
/// by its first letters: `n` nanoseconds, `u` microseconds, `ms` and `mil` milliseconds, `mo`
/// and `M` months (30.44 days), other `m` minutes, `s` seconds, `h` hours, `d` days, `w` weeks,
/// `y` years (365.25 days). One second for any other letter, which starts no unit.
pub open spec fn unit_nanos(t: Seq<char>, i: int) -> nat {
    let c = t[i];
    let next = if i + 1 < t.len() {
        t[i + 1]
    } else {
        ' '
    };
    if c == 'n' {
        1
    } else if c == 'u' {
        1_000
    } else if c == 'm' && next == 's' {
        1_000_000
    } else if c == 'm' && next == 'i' && i + 2 < t.len() && t[i + 2] == 'l' {
        1_000_000
    } else if c == 'M' || (c == 'm' && next == 'o') {
        2_630_016_000_000_000
    } else if c == 'm' {
        60_000_000_000
    } else if c == 'h' {
        3_600_000_000_000
    } else if c == 'd' {
        86_400_000_000_000
    } else if c == 'w' {
        604_800_000_000_000
    } else if c == 'y' {
        31_557_600_000_000_000
    } else {
        1_000_000_000
    }
}

/// The nanoseconds that the text `t` from `i` on adds up to, where `cur` is the value of the
/// digits just before `i`: each number times the unit that follows it, a number with no unit
/// counted as seconds.
pub open spec fn nanos_from(t: Seq<char>, i: int, cur: nat) -> nat
    decreases t.len() - i,
{
    if 0 <= i < t.len() {
        if is_digit(t[i]) {
            nanos_from(t, i + 1, cur * 10 + (t[i] as u32 - '0' as u32) as nat)
        } else {
            cur * unit_nanos(t, i) + nanos_from(t, i + 1, 0)
        }
    } else {
        cur * 1_000_000_000
    }
}

/// The nanoseconds that a duration token adds up to. For a token that the duration grammar
/// accepts this is exactly the duration it denotes, each number standing right before its
/// unit.
pub open spec fn duration_nanos(t: Seq<char>) -> nat {
    nanos_from(t, 0, 0)
}

proof fn lemma_nanos_from_at_least(t: Seq<char>, i: int, cur: nat)
    requires
        0 <= i <= t.len(),
    ensures
        nanos_from(t, i, cur) >= cur,
    decreases t.len() - i,
{
    if i < t.len() {
        if is_digit(t[i]) {
            let d = (t[i] as u32 - '0' as u32) as nat;
            assert(cur * 10 + d >= cur) by (nonlinear_arith);
            lemma_nanos_from_at_least(t, i + 1, cur * 10 + d);
        } else {
            let w = unit_nanos(t, i);
            assert(cur * w >= cur) by (nonlinear_arith)
                requires
                    w >= 1,
            ;
        }
    } else {
        assert(cur * 1_000_000_000 >= cur) by (nonlinear_arith);
    }
}

/// Whether the characters from `p` to `e` add up to less than `DURATION_NANOS_LIMIT`
/// nanoseconds by `duration_nanos`.
fn duration_fits(src: &Source, p: usize, e: usize) -> (r: bool)
    requires
        p <= e <= src@.len(),
    ensures
        r == (duration_nanos(src@.subrange(p as int, e as int)) < DURATION_NANOS_LIMIT),
{
    let ghost t = src@.subrange(p as int, e as int);
    let mut i = p;
    let mut cur: u128 = 0;
    let mut total: u128 = 0;
    while i < e
        invariant
            p <= i <= e <= src@.len(),
            t == src@.subrange(p as int, e as int),
            cur < DURATION_NANOS_LIMIT,
            total < DURATION_NANOS_LIMIT,
            duration_nanos(t) == total + nanos_from(t, i - p, cur as nat),
        decreases e - i,
    {
        let c = src.at(i);
        assert(t[i - p] == c);
        if '0' <= c && c <= '9' {
            let d = (c as u32 - '0' as u32) as u128;
            assert(d <= 9);
            cur = cur * 10 + d;
            if cur >= DURATION_NANOS_LIMIT {
                proof {
                    lemma_nanos_from_at_least(t, i - p + 1, cur as nat);
                }
                return false;
            }
        } else {
            let next = if i + 1 < e {
                src.at(i + 1)
            } else {
                ' '
            };
            let w: u128 = if c == 'n' {
                1
            } else if c == 'u' {
                1_000
            } else if c == 'm' && next == 's' {
                1_000_000
            } else if c == 'm' && next == 'i' && i + 2 < e && src.at(i + 2) == 'l' {
                1_000_000
            } else if c == 'M' || (c == 'm' && next == 'o') {
                2_630_016_000_000_000
            } else if c == 'm' {
                60_000_000_000
            } else if c == 'h' {
                3_600_000_000_000
            } else if c == 'd' {
                86_400_000_000_000
            } else if c == 'w' {
                604_800_000_000_000
            } else if c == 'y' {
                31_557_600_000_000_000
            } else {
                1_000_000_000
            };
            proof {
                if i + 1 < e {
                    assert(t[i - p + 1] == src@[i + 1]);
                }
                if i + 2 < e {
                    assert(t[i - p + 2] == src@[i + 2]);
                }
            }
            assert(w == unit_nanos(t, i - p));
            if w > 1_000_000 && cur > 18_446_744_073_709_551_615 {
                assert(cur * w >= DURATION_NANOS_LIMIT) by (nonlinear_arith)
                    requires
                        cur >= 18_446_744_073_709_551_616,
                        w >= 1_000_000_000,
                ;
                return false;
            }
            if w <= 1_000_000 {
                assert(cur * w <= DURATION_NANOS_LIMIT * 1_000_000) by (nonlinear_arith)
                    requires
                        cur < DURATION_NANOS_LIMIT,
                        w <= 1_000_000,
                ;
            } else {
                assert(cur * w <= 18_446_744_073_709_551_615 * 31_557_600_000_000_000) by (
                nonlinear_arith)
                    requires
                        cur <= 18_446_744_073_709_551_615,
                        w <= 31_557_600_000_000_000,
                ;
            }
            total = total + cur * w;
            cur = 0;
            if total >= DURATION_NANOS_LIMIT {
                return false;
            }
        }
        i = i + 1;
    }
    assert(cur * 1_000_000_000 <= DURATION_NANOS_LIMIT * 1_000_000_000) by (nonlinear_arith)
        requires
            cur < DURATION_NANOS_LIMIT,
    ;
    total + cur * 1_000_000_000 < DURATION_NANOS_LIMIT
}

/// A run of class `k` from `p` to its end holds only characters of that class.
pub proof fn lemma_run_end_class(s: Seq<char>, p: int, k: CharClass)
    requires
        0 <= p <= s.len(),
    ensures
        forall|j: int| p <= j < run_end(s, p, k) ==> in_class(#[trigger] s[j], k),
    decreases s.len() - p,
{
    if p < s.len() && in_class(s[p], k) {
        lemma_run_end_class(s, p + 1, k);
    }
}

/// Relies on `humantime::parse_duration`: its result depends on the text alone, it refuses an
/// empty text, and the nanoseconds of a duration it returns stay below one second. It can
/// panic, in `Duration::new`, only when the units it has added up reach 2^64 seconds. In a text
/// of ASCII letters and digits each number stands right before its unit, and it adds a unit
/// only once it knows the unit's name, so what it adds up never exceeds `duration_nanos` of
/// the text, which this requires to stay below that.
#[verifier::external_body]
fn parse_human_duration(text: &str) -> (r: Result<(u64, u32), humantime::DurationError>)
    requires
        forall|i: int| 0 <= i < text@.len() ==> in_class(#[trigger] text@[i], CharClass::Alnum),
        duration_nanos(text@) < DURATION_NANOS_LIMIT,
    ensures
        r is Ok <==> parsed_duration(text@) is Some,
        r matches Ok(d) ==> parsed_duration(text@) == Some(d),
        r matches Ok(d) ==> d.1 < 1_000_000_000,
        text@.len() == 0 ==> r is Err,
{
    humantime::parse_duration(text).map(|d| (d.as_secs(), d.subsec_nanos()))
}

/// Relies on `humantime::DurationError::NumberOverflow`: the reason the duration grammar gives
/// for numbers too large for a duration.
#[verifier::external_body]
fn number_overflow() -> humantime::DurationError {
    humantime::DurationError::NumberOverflow
}

/// A duration token at `p`: the longest run of ASCII letters and digits, read by the duration
/// grammar. A token that grammar refuses is a fatal failure. One that adds up to 2^64 seconds
/// or more, which no duration holds, is refused as too large without being read.
pub open spec fn duration_at(s: Seq<char>, p: int) -> SStep<Duration> {
    let e = run_end(s, p, CharClass::Alnum);
    let t = s.subrange(p, e);
    if duration_nanos(t) >= DURATION_NANOS_LIMIT {
        SStep::Fatal
    } else {
        match parsed_duration(t) {
            Some(d) => SStep::Done(e, Duration { secs: d.0, nanos: d.1 }),
            None => SStep::Fatal,
        }
    }
}

pub fn duration_token(src: &Source, p: usize) -> (r: Step<Duration>)
    requires
        src.wf(),
        p <= src@.len(),
    ensures
        step_matches(r, duration_at(src@, p as int), |d: Duration| d),
        step_within(&r, p as int, src@.len() as int),
        r matches Step::Done(_, d) ==> d.wf(),
        !(r is NoMatch),
{
    let e = skip_class(src, p, CharClass::Alnum);
    proof {
        lemma_run_end_class(src@, p as int, CharClass::Alnum);
    }
    if !duration_fits(src, p, e) {
        return Step::Fatal(ParserError::InvalidDuration(number_overflow()));
    }
    let text = src.text.substring_char(p, e);
    match parse_human_duration(text) {
        Ok(d) => Step::Done(e, Duration { secs: d.0, nanos: d.1 }),
        Err(err) => Step::Fatal(ParserError::InvalidDuration(err)),
    }
}

} // verus!
