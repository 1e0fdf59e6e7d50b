//! Text helpers over `str` views: comparison, search, decimal numbers, joining.

use vstd::prelude::*;
use vstd::string::*;

verus! {

/// The text `n` occurs in `h` at some position.
pub open spec fn occurs_in(h: Seq<char>, n: Seq<char>) -> bool {
    exists|i: int| 0 <= i && i + n.len() <= h.len() && #[trigger] h.subrange(i, i + n.len()) == n
}

/// The text `n` occurs in `h` at position `i`.
pub open spec fn occurs_at(h: Seq<char>, n: Seq<char>, i: int) -> bool {
    0 <= i && i + n.len() <= h.len() && h.subrange(i, i + n.len()) == n
}

/// `s` ends with the text `suffix`.
pub open spec fn ends_with_text(s: Seq<char>, suffix: Seq<char>) -> bool {
    suffix.len() <= s.len() && s.subrange(s.len() - suffix.len(), s.len() as int) == suffix
}

pub open spec fn is_digit(c: char) -> bool {
    '0' <= c && c <= '9'
}

pub open spec fn digit_value(c: char) -> int {
    (c as int) - ('0' as int)
}

/// A non-empty run of decimal digits.
pub open spec fn all_digits(s: Seq<char>) -> bool {
    s.len() > 0 && forall|i: int| 0 <= i < s.len() ==> is_digit(#[trigger] s[i])
}

/// The value of a run of decimal digits, most significant first.
pub open spec fn digits_value(s: Seq<char>) -> int
    decreases s.len(),
{
    if s.len() == 0 {
        0
    } else {
        digits_value(s.drop_last()) * 10 + digit_value(s.last())
    }
}

/// The value that a decimal integer text denotes: an optional `+` or `-`
/// followed by digits.
pub open spec fn decimal_value(s: Seq<char>) -> Option<int> {
    if s.len() > 0 && s[0] == '-' && all_digits(s.drop_first()) {
        Some(-digits_value(s.drop_first()))
    } else if s.len() > 0 && s[0] == '+' && all_digits(s.drop_first()) {
        Some(digits_value(s.drop_first()))
    } else if all_digits(s) {
        Some(digits_value(s))
    } else {
        None
    }
}

/// A decimal integer text whose value fits in an `i64`.
pub open spec fn i64_of_text(s: Seq<char>) -> Option<i64> {
    match decimal_value(s) {
        Some(v) => if i64::MIN <= v <= i64::MAX {
            Some(v as i64)
        } else {
            None
        },
        None => None,
    }
}

/// The lines of `parts` joined with a newline between each two.
pub open spec fn joined(parts: Seq<Seq<char>>) -> Seq<char>
    decreases parts.len(),
{
    if parts.len() == 0 {
        Seq::empty()
    } else if parts.len() == 1 {
        parts[0]
    } else {
        joined(parts.drop_last()) + seq!['\n'] + parts.last()
    }
}

/// The texts of a sequence of lines.
pub open spec fn text_views(lines: Seq<String>) -> Seq<Seq<char>> {
    lines.map_values(|l: String| l@)
}

pub uninterp spec fn lower_of(s: Seq<char>) -> Seq<char>;

/// Relies on `str::to_lowercase`: the lower-case form depends on the text alone.
#[verifier::external_body]
pub(crate) fn lowercase(s: &str) -> (r: String)
    ensures
        r@ == lower_of(s@),
{
    s.to_lowercase()
}

/// The one-character text of a decimal digit.
fn digit_text(k: u64) -> (r: String)
    requires
        k < 10,
    ensures
        r@.len() == 1,
        is_digit(r@[0]),
        digit_value(r@[0]) == k,
{
    proof {
        reveal_strlit("0");
        reveal_strlit("1");
        reveal_strlit("2");
        reveal_strlit("3");
        reveal_strlit("4");
        reveal_strlit("5");
        reveal_strlit("6");
        reveal_strlit("7");
        reveal_strlit("8");
        reveal_strlit("9");
    }
    let t = if k == 0 {
        "0"
    } else if k == 1 {
        "1"
    } else if k == 2 {
        "2"
    } else if k == 3 {
        "3"
    } else if k == 4 {
        "4"
    } else if k == 5 {
        "5"
    } else if k == 6 {
        "6"
    } else if k == 7 {
        "7"
    } else if k == 8 {
        "8"
    } else {
        "9"
    };
    String::from_str(t)
}

/// The decimal digits of a value, most significant first, without leading
/// zeros.
fn digits_of(n: u64) -> (r: String)
    ensures
        all_digits(r@),
        digits_value(r@) == n,
    decreases n,
{
    let d = digit_text(n % 10);
    if n < 10 {
        assert(d@.drop_last() =~= Seq::<char>::empty());
        assert(d@.last() == d@[0]);
        assert(digits_value(d@.drop_last()) == 0);
        assert(digits_value(d@) == digits_value(d@.drop_last()) * 10 + digit_value(d@.last()));
        d
    } else {
        let s = digits_of(n / 10);
        let ghost prefix = s@;
        let r = s.concat(d.as_str());
        proof {
            assert(r@.drop_last() == prefix);
            assert(r@.last() == d@[0]);
            assert((n / 10) * 10 + n % 10 == n);
            assert(digits_value(r@) == digits_value(r@.drop_last()) * 10 + digit_value(r@.last()));
            assert(digits_value(prefix) == n / 10);
            assert forall|i: int| 0 <= i < r@.len() implies is_digit(#[trigger] r@[i]) by {
                if i < prefix.len() {
                    assert(r@[i] == prefix[i]);
                }
            }
        }
        r
    }
}

/// The decimal text of a value, with a `-` where it is negative; it reads
/// back as that value.
pub fn decimal_text(i: i64) -> (r: String)
    ensures
        i64_of_text(r@) == Some(i),
{
    if i >= 0 {
        let d = digits_of(i as u64);
        assert(d@[0] != '-' && d@[0] != '+') by {
            assert(is_digit(d@[0]));
        }
        d
    } else {
        let magnitude = (-(i as i128)) as u64;
        let d = digits_of(magnitude);
        proof {
            reveal_strlit("-");
        }
        let r = String::from_str("-").concat(d.as_str());
        assert(r@.drop_first() == d@);
        r
    }
}

/// Character-wise equality of two texts.
pub fn same_text(a: &str, b: &str) -> (r: bool)
    ensures
        r == (a@ == b@),
{
    let n = a.unicode_len();
    let m = b.unicode_len();
    if n != m {
        return false;
    }
    let mut i: usize = 0;
    while i < n
        invariant
            n == a@.len(),
            m == b@.len(),
            n == m,
            i <= n,
            a@.subrange(0, i as int) == b@.subrange(0, i as int),
        decreases n - i,
    {
        if a.get_char(i) != b.get_char(i) {
            assert(a@[i as int] != b@[i as int]);
            return false;
        }
        assert(a@.subrange(0, i + 1) == a@.subrange(0, i as int).push(a@[i as int]));
        assert(b@.subrange(0, i + 1) == b@.subrange(0, i as int).push(b@[i as int]));
        i = i + 1;
    }
    assert(a@ == a@.subrange(0, n as int));
    assert(b@ == b@.subrange(0, n as int));
    true
}

/// Whether `n` occurs in `h` at position `i`.
fn occurs_here(h: &str, n: &str, i: usize, hl: usize, nl: usize) -> (r: bool)
    requires
        hl == h@.len(),
        nl == n@.len(),
        i + nl <= hl,
    ensures
        r == occurs_at(h@, n@, i as int),
{
    let mut j: usize = 0;
    while j < nl
        invariant
            hl == h@.len(),
            nl == n@.len(),
            i + nl <= hl,
            j <= nl,
            forall|k: int| 0 <= k < j ==> h@[i + k] == n@[k],
        decreases nl - j,
    {
        if h.get_char(i + j) != n.get_char(j) {
            assert(h@.subrange(i as int, i + nl)[j as int] != n@[j as int]);
            return false;
        }
        j = j + 1;
    }
    assert(h@.subrange(i as int, i + nl) == n@);
    true
}

/// Whether `n` occurs in `h`.
pub fn contains_text(h: &str, n: &str) -> (r: bool)
    ensures
        r == occurs_in(h@, n@),
{
    let hl = h.unicode_len();
    let nl = n.unicode_len();
    if nl > hl {
        return false;
    }
    if nl == 0 {
        assert(h@.subrange(0, 0) == n@);
        assert(occurs_at(h@, n@, 0));
        return true;
    }
    let mut i: usize = 0;
    while i <= hl - nl
        invariant
            hl == h@.len(),
            nl == n@.len(),
            1 <= nl <= hl,
            i <= hl - nl + 1,
            forall|k: int| 0 <= k < i ==> !occurs_at(h@, n@, k),
        decreases hl + 1 - nl - i,
    {
        if occurs_here(h, n, i, hl, nl) {
            return true;
        }
        i = i + 1;
    }
    assert forall|k: int| 0 <= k && k + n@.len() <= h@.len() implies #[trigger] h@.subrange(k, k + n@.len()) != n@ by {
        assert(!occurs_at(h@, n@, k));
    }
    false
}

/// Whether `s` ends with the character `c`.
pub fn ends_with_char(s: &str, c: char) -> (r: bool)
    ensures
        r == (s@.len() > 0 && s@.last() == c),
{
    let n = s.unicode_len();
    n > 0 && s.get_char(n - 1) == c
}

/// Whether `s` ends with `suffix`.
pub fn ends_with_str(s: &str, suffix: &str) -> (r: bool)
    ensures
        r == ends_with_text(s@, suffix@),
{
    let n = s.unicode_len();
    let m = suffix.unicode_len();
    if m > n {
        return false;
    }
    let tail = s.substring_char(n - m, n);
    same_text(tail, suffix)
}

proof fn lemma_digits_value_nonneg(s: Seq<char>)
    requires
        forall|i: int| 0 <= i < s.len() ==> is_digit(#[trigger] s[i]),
    ensures
        digits_value(s) >= 0,
    decreases s.len(),
{
    if s.len() > 0 {
        assert(is_digit(s[s.len() - 1]));
        lemma_digits_value_nonneg(s.drop_last());
    }
}

proof fn lemma_digits_value_grows(s: Seq<char>, i: int)
    requires
        0 <= i <= s.len(),
        forall|k: int| 0 <= k < s.len() ==> is_digit(#[trigger] s[k]),
    ensures
        digits_value(s.subrange(0, i)) <= digits_value(s),
    decreases s.len() - i,
{
    if i < s.len() {
        lemma_digits_value_grows(s, i + 1);
        let p = s.subrange(0, i + 1);
        assert(p.drop_last() == s.subrange(0, i));
        assert(is_digit(p.last()));
        assert forall|k: int| 0 <= k < i implies is_digit(#[trigger] s.subrange(0, i)[k]) by {
            assert(s.subrange(0, i)[k] == s[k]);
        }
        lemma_digits_value_nonneg(s.subrange(0, i));
    } else {
        assert(s.subrange(0, i) == s);
    }
}

/// The value of the digits of `s` from `start` on, where it does not exceed
/// `bound`; `None` where one is not a digit, where there is none, or where the
/// value exceeds `bound`.
pub(crate) fn digits_up_to(s: &str, start: usize, bound: u128) -> (r: Option<u128>)
    requires
        start <= s@.len(),
        bound < u128::MAX / 10,
    ensures
        ({
            let d = s@.subrange(start as int, s@.len() as int);
            match r {
                Some(v) => all_digits(d) && v as int == digits_value(d) && v <= bound,
                None => !all_digits(d) || digits_value(d) > bound,
            }
        }),
{
    let n = s.unicode_len();
    let ghost d = s@.subrange(start as int, n as int);
    if start == n {
        return None;
    }
    let mut acc: u128 = 0;
    let mut i: usize = start;
    while i < n
        invariant
            n == s@.len(),
            start < n,
            start <= i <= n,
            d == s@.subrange(start as int, n as int),
            bound < u128::MAX / 10,
            acc <= bound,
            forall|k: int| 0 <= k < i - start ==> is_digit(#[trigger] d[k]),
            acc as int == digits_value(d.subrange(0, i - start)),
        decreases n - i,
    {
        let c = s.get_char(i);
        if !('0' <= c && c <= '9') {
            assert(!is_digit(d[i - start]));
            return None;
        }
        let ghost p = d.subrange(0, i - start + 1);
        assert(p.drop_last() == d.subrange(0, i - start));
        assert(p.last() == c);
        let next = acc * 10 + ((c as u32 - '0' as u32) as u128);
        assert(next as int == digits_value(p));
        i = i + 1;
        if next > bound {
            let tail_digits = forall_digits_tail(s, i, n);
            proof {
                if !tail_digits && all_digits(d) {
                    assert forall|k: int| i <= k < n implies is_digit(#[trigger] s@[k]) by {
                        assert(s@[k] == d[k - start]);
                    }
                }
            }
            if tail_digits {
                proof {
                    assert forall|k: int| 0 <= k < d.len() implies is_digit(#[trigger] d[k]) by {
                        if k >= i - start {
                            assert(d[k] == s@[start + k]);
                        }
                    }
                    lemma_digits_value_grows(d, i - start);
                }
            }
            return None;
        }
        acc = next;
    }
    assert(d.subrange(0, n - start) == d);
    Some(acc)
}

/// Whether every character of `s` from `from` to `to` is a digit.
fn forall_digits_tail(s: &str, from: usize, to: usize) -> (r: bool)
    requires
        from <= to,
        to == s@.len(),
    ensures
        r == (forall|k: int| from <= k < to ==> is_digit(#[trigger] s@[k])),
{
    let mut i: usize = from;
    while i < to
        invariant
            from <= i <= to,
            to == s@.len(),
            forall|k: int| from <= k < i ==> is_digit(#[trigger] s@[k]),
        decreases to - i,
    {
        let c = s.get_char(i);
        if !('0' <= c && c <= '9') {
            return false;
        }
        i = i + 1;
    }
    true
}

/// Reads a decimal integer: an optional sign and digits, fitting in an `i64`.
pub fn parse_i64(s: &str) -> (r: Option<i64>)
    ensures
        r == i64_of_text(s@),
{
    let n = s.unicode_len();
    let bound: u128 = 9223372036854775808;
    if n > 0 && (s.get_char(0) == '-' || s.get_char(0) == '+') {
        let neg = s.get_char(0) == '-';
        let ghost rest = s@.drop_first();
        assert(s@.subrange(1, n as int) == rest);
        match digits_up_to(s, 1, bound) {
            Some(v) => {
                if neg {
                    if v == bound {
                        Some(i64::MIN)
                    } else {
                        Some(-(v as i64))
                    }
                } else if v == bound {
                    None
                } else {
                    Some(v as i64)
                }
            },
            None => None,
        }
    } else {
        assert(s@.subrange(0, n as int) == s@);
        match digits_up_to(s, 0, bound) {
            Some(v) => {
                if v == bound {
                    None
                } else {
                    Some(v as i64)
                }
            },
            None => None,
        }
    }
}

/// Copies a text into a new `String`.
pub fn to_owned_text(s: &str) -> (r: String)
    ensures
        r@ == s@,
{
    String::from_str(s)
}

/// Joins texts with a newline between each two.
pub fn join_lines(parts: &Vec<String>) -> (r: String)
    ensures
        r@ == joined(parts@.map_values(|p: String| p@)),
{
    let ghost views = parts@.map_values(|p: String| p@);
    let mut out = String::new();
    let mut i: usize = 0;
    while i < parts.len()
        invariant
            i <= parts.len(),
            views == parts@.map_values(|p: String| p@),
            out@ == joined(views.subrange(0, i as int)),
        decreases parts.len() - i,
    {
        let ghost prev = views.subrange(0, i as int);
        let ghost next = views.subrange(0, i + 1);
        assert(next.drop_last() == prev);
        if i > 0 {
            out.append("\n");
            proof {
                reveal_strlit("\n");
            }
        }
        out.append(parts[i].as_str());
        proof {
            if i == 0 {
                assert(out@ == next[0]);
            }
        }
        i = i + 1;
    }
    assert(views.subrange(0, parts.len() as int) == views);
    out
}

/// Where the last segment after `c` starts: one past the last `c`, or 0.
pub open spec fn segment_start(s: Seq<char>, c: char) -> int
    decreases s.len(),
{
    if s.len() == 0 {
        0
    } else if s.last() == c {
        s.len() as int
    } else {
        segment_start(s.drop_last(), c)
    }
}

/// The text after the last `c`, or all of `s` where it has none.
pub open spec fn last_segment(s: Seq<char>, c: char) -> Seq<char> {
    s.subrange(segment_start(s, c), s.len() as int)
}

proof fn lemma_segment_start_bounds(s: Seq<char>, c: char)
    ensures
        0 <= segment_start(s, c) <= s.len(),
    decreases s.len(),
{
    if s.len() > 0 {
        lemma_segment_start_bounds(s.drop_last(), c);
    }
}

/// Where the last segment after `c` starts in `s`.
pub fn segment_start_of(s: &str, c: char) -> (r: usize)
    ensures
        r as int == segment_start(s@, c),
        r <= s@.len(),
{
    let n = s.unicode_len();
    let mut j: usize = 0;
    let mut k: usize = 0;
    while k < n
        invariant
            n == s@.len(),
            k <= n,
            j as int == segment_start(s@.subrange(0, k as int), c),
            j <= k,
        decreases n - k,
    {
        assert(s@.subrange(0, k + 1).drop_last() == s@.subrange(0, k as int));
        if s.get_char(k) == c {
            j = k + 1;
        }
        k = k + 1;
    }
    assert(s@.subrange(0, n as int) == s@);
    j
}

/// The text after the last `c` in `s`.
pub fn last_segment_of(s: &str, c: char) -> (r: String)
    ensures
        r@ == last_segment(s@, c),
{
    let n = s.unicode_len();
    let mut j: usize = 0;
    let mut k: usize = 0;
    while k < n
        invariant
            n == s@.len(),
            k <= n,
            j as int == segment_start(s@.subrange(0, k as int), c),
            j <= k,
        decreases n - k,
    {
        assert(s@.subrange(0, k + 1).drop_last() == s@.subrange(0, k as int));
        if s.get_char(k) == c {
            j = k + 1;
        }
        k = k + 1;
    }
    assert(s@.subrange(0, n as int) == s@);
    to_owned_text(s.substring_char(j, n))
}

/// The texts of `parts` with `sep` between each two.
pub open spec fn joined_by(parts: Seq<Seq<char>>, sep: Seq<char>) -> Seq<char>
    decreases parts.len(),
{
    if parts.len() == 0 {
        Seq::empty()
    } else if parts.len() == 1 {
        parts[0]
    } else {
        joined_by(parts.drop_last(), sep) + sep + parts.last()
    }
}

/// Joins texts with `sep` between each two.
pub fn join_with(parts: &Vec<String>, sep: &str) -> (r: String)
    ensures
        r@ == joined_by(text_views(parts@), sep@),
{
    let ghost views = text_views(parts@);
    let mut out = String::new();
    let mut i: usize = 0;
    while i < parts.len()
        invariant
            i <= parts.len(),
            views == text_views(parts@),
            out@ == joined_by(views.subrange(0, i as int), sep@),
        decreases parts.len() - i,
    {
        let ghost prev = views.subrange(0, i as int);
        let ghost next = views.subrange(0, i + 1);
        assert(next.drop_last() == prev);
        if i > 0 {
            out.append(sep);
        }
        out.append(parts[i].as_str());
        proof {
            if i == 0 {
                assert(out@ == next[0]);
            }
        }
        i = i + 1;
    }
    assert(views.subrange(0, parts.len() as int) == views);
    out
}

/// `a` sorts strictly before `b`, character by character.
pub open spec fn text_lt(a: Seq<char>, b: Seq<char>) -> bool
    decreases a.len(),
{
    if a.len() == 0 {
        b.len() > 0
    } else if b.len() == 0 {
        false
    } else if a[0] != b[0] {
        a[0] < b[0]
    } else {
        text_lt(a.drop_first(), b.drop_first())
    }
}

/// The order of texts is transitive.
pub proof fn lemma_text_lt_transitive(a: Seq<char>, b: Seq<char>, c: Seq<char>)
    requires
        text_lt(a, b),
        text_lt(b, c),
    ensures
        text_lt(a, c),
    decreases a.len(),
{
    if a.len() > 0 && b.len() > 0 && c.len() > 0 && a[0] == b[0] && b[0] == c[0] {
        lemma_text_lt_transitive(a.drop_first(), b.drop_first(), c.drop_first());
    }
}

/// The order of texts is asymmetric.
pub proof fn lemma_text_lt_asymmetric(a: Seq<char>, b: Seq<char>)
    requires
        text_lt(a, b),
    ensures
        !text_lt(b, a),
    decreases a.len(),
{
    if a.len() > 0 && b.len() > 0 && a[0] == b[0] {
        lemma_text_lt_asymmetric(a.drop_first(), b.drop_first());
    }
}

proof fn lemma_text_lt_suffix(a: Seq<char>, b: Seq<char>, i: int)
    requires
        0 <= i <= a.len(),
        i <= b.len(),
        a.subrange(0, i) == b.subrange(0, i),
    ensures
        text_lt(a, b) == text_lt(a.subrange(i, a.len() as int), b.subrange(i, b.len() as int)),
    decreases i,
{
    if i > 0 {
        assert(a[0] == a.subrange(0, i)[0]);
        assert(b[0] == b.subrange(0, i)[0]);
        assert(a.drop_first().subrange(0, i - 1) == a.subrange(0, i).drop_first());
        assert(b.drop_first().subrange(0, i - 1) == b.subrange(0, i).drop_first());
        lemma_text_lt_suffix(a.drop_first(), b.drop_first(), i - 1);
        assert(a.drop_first().subrange(i - 1, a.len() - 1) == a.subrange(i, a.len() as int));
        assert(b.drop_first().subrange(i - 1, b.len() - 1) == b.subrange(i, b.len() as int));
    } else {
        assert(a.subrange(0, a.len() as int) == a);
        assert(b.subrange(0, b.len() as int) == b);
    }
}

/// Whether `a` sorts strictly before `b`, character by character; this is
/// the order of `str` comparison.
pub fn text_less(a: &str, b: &str) -> (r: bool)
    ensures
        r == text_lt(a@, b@),
{
    let n = a.unicode_len();
    let m = b.unicode_len();
    let mut i: usize = 0;
    while i < n && i < m
        invariant
            n == a@.len(),
            m == b@.len(),
            i <= n,
            i <= m,
            a@.subrange(0, i as int) == b@.subrange(0, i as int),
        decreases n - i,
    {
        let x = a.get_char(i);
        let y = b.get_char(i);
        if x != y {
            proof {
                lemma_text_lt_suffix(a@, b@, i as int);
                assert(a@.subrange(i as int, n as int)[0] == x);
                assert(b@.subrange(i as int, m as int)[0] == y);
            }
            return x < y;
        }
        assert(a@.subrange(0, i + 1) == a@.subrange(0, i as int).push(x));
        assert(b@.subrange(0, i + 1) == b@.subrange(0, i as int).push(y));
        i = i + 1;
    }
    proof {
        lemma_text_lt_suffix(a@, b@, i as int);
    }
    i == n && i < m
}

/// The texts of `v` as a set.
pub open spec fn text_set(v: Seq<String>) -> Set<Seq<char>> {
    Set::new(|t: Seq<char>| exists|i: int| 0 <= i < v.len() && (#[trigger] v[i])@ == t)
}

/// No text appears twice.
pub open spec fn distinct_texts(v: Seq<String>) -> bool {
    forall|i: int, j: int| 0 <= i < j < v.len() ==> v[i]@ != v[j]@
}

/// Adds a text where it is not there yet.
pub fn insert_distinct(v: &mut Vec<String>, s: String)
    requires
        distinct_texts(old(v)@),
    ensures
        distinct_texts(final(v)@),
        text_set(final(v)@) == text_set(old(v)@).insert(s@),
{
    let mut i: usize = 0;
    while i < v.len()
        invariant
            i <= v.len(),
            v@ == old(v)@,
            distinct_texts(old(v)@),
            forall|k: int| 0 <= k < i ==> (#[trigger] v@[k])@ != s@,
        decreases v.len() - i,
    {
        if same_text(v[i].as_str(), s.as_str()) {
            assert(text_set(v@) =~= text_set(v@).insert(s@)) by {
                assert(text_set(v@).contains(v@[i as int]@));
            }
            return;
        }
        i = i + 1;
    }
    let ghost before = v@;
    v.push(s);
    proof {
        assert forall|a: int, b: int| 0 <= a < b < v@.len() implies v@[a]@ != v@[b]@ by {
            if b == before.len() {
                assert(before[a]@ != s@);
            } else {
                assert(v@[a] == before[a] && v@[b] == before[b]);
            }
        }
        assert forall|t: Seq<char>| text_set(v@).contains(t) <==> text_set(before).insert(s@).contains(t) by {
            if text_set(v@).contains(t) {
                let k = choose|k: int| 0 <= k < v@.len() && (#[trigger] v@[k])@ == t;
                if k < before.len() {
                    assert(v@[k] == before[k]);
                }
            }
            if text_set(before).contains(t) {
                let k = choose|k: int| 0 <= k < before.len() && (#[trigger] before[k])@ == t;
                assert(v@[k] == before[k]);
            }
            if t == s@ {
                assert(v@[before.len() as int] == s);
            }
        }
        assert(text_set(v@) =~= text_set(before).insert(s@));
    }
}

/// Adds an optional text where it is present and not there yet.
pub fn insert_distinct_opt(v: &mut Vec<String>, s: Option<String>)
    requires
        distinct_texts(old(v)@),
    ensures
        distinct_texts(final(v)@),
        text_set(final(v)@) == match s {
            Some(x) => text_set(old(v)@).insert(x@),
            None => text_set(old(v)@),
        },
{
    match s {
        Some(x) => insert_distinct(v, x),
        None => {},
    }
}

/// Relies on `std::path::Path::exists`: whether a path names something on
/// disk at the moment of the call. Nothing is known of the answer.
#[verifier::external_body]
pub(crate) fn path_exists(p: &str) -> (r: bool) {
    std::path::Path::new(p).exists()
}

} // verus!
