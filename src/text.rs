use crate::coordinate::{in_i32, Coordinate};
use vstd::prelude::*;
use vstd::string::*;

verus! {

/// The characters with Unicode's White_Space property.
pub open spec fn is_space(c: char) -> bool {
    ('\u{9}' <= c && c <= '\u{d}') || c == ' ' || c == '\u{85}' || c == '\u{a0}' || c
        == '\u{1680}' || ('\u{2000}' <= c && c <= '\u{200a}') || c == '\u{2028}' || c
        == '\u{2029}' || c == '\u{202f}' || c == '\u{205f}' || c == '\u{3000}'
}

pub fn space_char(c: char) -> (r: bool)
    ensures
        r == is_space(c),
{
    ('\u{9}' <= c && c <= '\u{d}') || c == ' ' || c == '\u{85}' || c == '\u{a0}' || c
        == '\u{1680}' || ('\u{2000}' <= c && c <= '\u{200a}') || c == '\u{2028}' || c
        == '\u{2029}' || c == '\u{202f}' || c == '\u{205f}' || c == '\u{3000}'
}

/// `s` without its leading white space.
pub open spec fn trim_start(s: Seq<char>) -> Seq<char>
    decreases s.len(),
{
    if s.len() > 0 && is_space(s[0]) {
        trim_start(s.drop_first())
    } else {
        s
    }
}

/// `s` without its trailing white space.
pub open spec fn trim_end(s: Seq<char>) -> Seq<char>
    decreases s.len(),
{
    if s.len() > 0 && is_space(s.last()) {
        trim_end(s.drop_last())
    } else {
        s
    }
}

pub open spec fn trim(s: Seq<char>) -> Seq<char> {
    trim_end(trim_start(s))
}

pub open spec fn is_digit(c: char) -> bool {
    '0' <= c && c <= '9'
}

pub open spec fn all_digits(s: Seq<char>) -> bool {
    forall|i: int| 0 <= i < s.len() ==> is_digit(#[trigger] s[i])
}

/// The value of a string of decimal digits.
pub open spec fn digits_value(s: Seq<char>) -> int
    decreases s.len(),
{
    if s.len() == 0 {
        0
    } else {
        digits_value(s.drop_last()) * 10 + (s.last() as int - '0' as int)
    }
}

/// The integer that `s` writes: an optional sign, then one or more decimal
/// digits, with nothing around them.
pub open spec fn int_of(s: Seq<char>) -> Option<int> {
    if s.len() > 0 && (s[0] == '-' || s[0] == '+') {
        let d = s.drop_first();
        if d.len() > 0 && all_digits(d) {
            if s[0] == '-' {
                Some(-digits_value(d))
            } else {
                Some(digits_value(d))
            }
        } else {
            None
        }
    } else if s.len() > 0 && all_digits(s) {
        Some(digits_value(s))
    } else {
        None
    }
}

/// The `i32` that `s` writes, if it writes one in range.
pub open spec fn i32_of(s: Seq<char>) -> Option<int> {
    match int_of(s) {
        Some(v) => if in_i32(v) {
            Some(v)
        } else {
            None
        },
        None => None,
    }
}

/// `k` is the one comma of `t`.
pub open spec fn sole_comma(t: Seq<char>, k: int) -> bool {
    &&& 0 <= k < t.len()
    &&& t[k] == ','
    &&& forall|i: int| 0 <= i < t.len() && i != k ==> t[i] != ','
}

/// The two integers between the parentheses of a key such as `(3, -4)`:
/// the key is `(`, an integer, `,`, an integer, `)`, with white space
/// allowed around each integer.
pub open spec fn key_coordinate(s: Seq<char>) -> Option<(int, int)> {
    if s.len() >= 2 && s[0] == '(' && s.last() == ')' {
        let t = s.subrange(1, s.len() - 1);
        if exists|k: int| sole_comma(t, k) {
            let k = choose|k: int| sole_comma(t, k);
            match (i32_of(trim(t.subrange(0, k))), i32_of(trim(t.subrange(k + 1, t.len() as int)))) {
                (Some(x), Some(y)) => Some((x, y)),
                _ => None,
            }
        } else {
            None
        }
    } else {
        None
    }
}

/// The bounds of `s[lo..hi]` without the white space at either end.
fn trim_bounds(s: &str, lo: usize, hi: usize) -> (r: (usize, usize))
    requires
        lo <= hi <= s@.len(),
    ensures
        lo <= r.0 <= r.1 <= hi,
        s@.subrange(r.0 as int, r.1 as int) == trim(s@.subrange(lo as int, hi as int)),
{
    let mut a = lo;
    while a < hi && space_char(s.get_char(a))
        invariant
            lo <= a <= hi <= s@.len(),
            trim_start(s@.subrange(lo as int, hi as int)) == trim_start(
                s@.subrange(a as int, hi as int),
            ),
        decreases hi - a,
    {
        assert(s@.subrange(a as int, hi as int).drop_first() =~= s@.subrange(
            a + 1,
            hi as int,
        ));
        a = a + 1;
    }
    let mut b = hi;
    while b > a && space_char(s.get_char(b - 1))
        invariant
            lo <= a <= b <= hi <= s@.len(),
            trim_end(s@.subrange(a as int, hi as int)) == trim_end(
                s@.subrange(a as int, b as int),
            ),
        decreases b - a,
    {
        assert(s@.subrange(a as int, b as int).drop_last() =~= s@.subrange(
            a as int,
            b - 1,
        ));
        b = b - 1;
    }
    (a, b)
}

proof fn lemma_digits_prefix(s: Seq<char>, i: int)
    requires
        all_digits(s),
        0 <= i <= s.len(),
    ensures
        0 <= digits_value(s.subrange(0, i)) <= digits_value(s),
    decreases s.len() - i,
{
    if i < s.len() {
        lemma_digits_prefix(s, i + 1);
        assert(s.subrange(0, i + 1).drop_last() =~= s.subrange(0, i));
    } else {
        assert(s.subrange(0, i) =~= s);
        lemma_digits_nonneg(s);
    }
}

proof fn lemma_digits_nonneg(s: Seq<char>)
    requires
        all_digits(s),
    ensures
        digits_value(s) >= 0,
    decreases s.len(),
{
    if s.len() > 0 {
        lemma_digits_nonneg(s.drop_last());
    }
}

/// Reads the integer that `s[lo..hi]` writes, if it is an `i32`.
pub fn parse_i32(s: &str, lo: usize, hi: usize) -> (r: Option<i32>)
    requires
        lo <= hi <= s@.len(),
    ensures
        r is Some <==> i32_of(s@.subrange(lo as int, hi as int)) is Some,
        r is Some ==> i32_of(s@.subrange(lo as int, hi as int)) == Some(r->0 as int),
{
    let ghost t = s@.subrange(lo as int, hi as int);
    if lo == hi {
        return None;
    }
    let first = s.get_char(lo);
    let negative = first == '-';
    let start: usize = if first == '-' || first == '+' {
        lo + 1
    } else {
        lo
    };
    let ghost d = s@.subrange(start as int, hi as int);
    assert(first == '-' || first == '+' ==> d =~= t.drop_first());
    assert(!(first == '-' || first == '+') ==> d =~= t);
    if start == hi {
        return None;
    }
    let mut acc: i64 = 0;
    let mut i: usize = start;
    while i < hi
        invariant
            lo <= start <= i <= hi <= s@.len(),
            d == s@.subrange(start as int, hi as int),
            forall|j: int| 0 <= j < i - start ==> is_digit(#[trigger] d[j]),
            acc == digits_value(d.subrange(0, i - start)),
            0 <= acc <= 2147483648,
            t == s@.subrange(lo as int, hi as int),
            t.len() > 0,
            t[0] == first,
            negative == (first == '-'),
            first == '-' || first == '+' ==> d == t.drop_first(),
            !(first == '-' || first == '+') ==> d == t,
        decreases hi - i,
    {
        let c = s.get_char(i);
        if !('0' <= c && c <= '9') {
            assert(!is_digit(d[i - start]));
            assert(!all_digits(d));
            return None;
        }
        assert(d.subrange(0, i + 1 - start).drop_last() =~= d.subrange(0, i - start));
        let v: i64 = acc * 10 + (c as u32 - '0' as u32) as i64;
        i = i + 1;
        if v > 2147483648 {
            proof {
                if all_digits(d) {
                    lemma_digits_prefix(d, i - start);
                }
            }
            return None;
        }
        acc = v;
    }
    assert(d.subrange(0, d.len() as int) =~= d);
    if negative {
        Some((-acc) as i32)
    } else if acc > 2147483647 {
        None
    } else {
        Some(acc as i32)
    }
}

/// Reads a key of the world data, such as `(3, -4)`, as a coordinate.
pub fn parse_key(s: &str) -> (r: Option<Coordinate>)
    ensures
        r is Some <==> key_coordinate(s@) is Some,
        r is Some ==> key_coordinate(s@) == Some(r->0@),
{
    let n = s.unicode_len();
    if n < 2 || s.get_char(0) != '(' || s.get_char(n - 1) != ')' {
        return None;
    }
    let ghost t = s@.subrange(1, n - 1);
    let mut k: usize = 1;
    while k < n - 1
        invariant
            1 <= k <= n - 1,
            n == s@.len(),
            forall|j: int| 1 <= j < k ==> s@[j] != ',',
        ensures
            1 <= k <= n - 1,
            k < n - 1 ==> s@[k as int] == ',',
            forall|j: int| 1 <= j < k ==> s@[j] != ',',
        decreases n - k,
    {
        if s.get_char(k) == ',' {
            break;
        }
        k = k + 1;
    }
    if k == n - 1 {
        assert(!exists|m: int| sole_comma(t, m)) by {
            assert forall|m: int| !sole_comma(t, m) by {
                if 0 <= m < t.len() {
                    assert(t[m] == s@[m + 1]);
                }
            }
        }
        return None;
    }
    let mut j: usize = k + 1;
    while j < n - 1
        invariant
            1 <= k < j <= n - 1,
            n == s@.len(),
            forall|i: int| k < i < j ==> s@[i] != ',',
            s@[k as int] == ',',
            t == s@.subrange(1, n - 1),
        decreases n - j,
    {
        if s.get_char(j) == ',' {
            assert(!exists|m: int| sole_comma(t, m)) by {
                assert forall|m: int| !sole_comma(t, m) by {
                    if sole_comma(t, m) {
                        assert(t[k - 1] == ',' && t[j - 1] == ',');
                    }
                }
            }
            return None;
        }
        j = j + 1;
    }
    assert(sole_comma(t, k - 1)) by {
        assert forall|i: int| 0 <= i < t.len() && i != k - 1 implies t[i] != ',' by {
            assert(t[i] == s@[i + 1]);
        }
    }
    let ghost m = choose|m: int| sole_comma(t, m);
    assert(m == k - 1);
    assert(t.subrange(0, k - 1) =~= s@.subrange(1, k as int));
    assert(t.subrange(k as int, t.len() as int) =~= s@.subrange(k + 1, n - 1));
    let (xa, xb) = trim_bounds(s, 1, k);
    let (ya, yb) = trim_bounds(s, k + 1, n - 1);
    match (parse_i32(s, xa, xb), parse_i32(s, ya, yb)) {
        (Some(x), Some(y)) => Some(Coordinate { x, y }),
        _ => None,
    }
}


/// The words of `s`: its maximal runs of characters that are not white space,
/// in order.
pub open spec fn words(s: Seq<char>) -> Seq<Seq<char>>
    decreases s.len(),
{
    if s.len() == 0 {
        Seq::empty()
    } else if is_space(s.last()) {
        words(s.drop_last())
    } else if s.len() >= 2 && !is_space(s[s.len() - 2]) {
        let w = words(s.drop_last());
        w.update(w.len() - 1, w.last().push(s.last()))
    } else {
        words(s.drop_last()).push(seq![s.last()])
    }
}

pub open spec fn strings_view(v: Seq<String>) -> Seq<Seq<char>> {
    v.map_values(|w: String| w@)
}

/// Splits `line` into its words.
pub fn split_words(line: &str) -> (r: Vec<String>)
    ensures
        strings_view(r@) == words(line@),
{
    let n = line.unicode_len();
    let ghost s = line@;
    let mut r: Vec<String> = Vec::new();
    let mut i: usize = 0;
    while i < n
        invariant
            n == s.len(),
            s == line@,
            i <= n,
            strings_view(r@) == words(s.subrange(0, i as int)),
            0 < i < n ==> is_space(s[i - 1]),
        decreases n - i,
    {
        if space_char(line.get_char(i)) {
            assert(s.subrange(0, i + 1).drop_last() =~= s.subrange(0, i as int));
            i = i + 1;
        } else {
            let a = i;
            assert(s.subrange(0, i + 1).drop_last() =~= s.subrange(0, i as int));
            assert(seq![s[a as int]] =~= s.subrange(a as int, a + 1));
            i = i + 1;
            while i < n && !space_char(line.get_char(i))
                invariant
                    n == s.len(),
                    s == line@,
                    a < i <= n,
                    words(s.subrange(0, i as int)) == strings_view(r@).push(
                        s.subrange(a as int, i as int),
                    ),
                    !is_space(s[i - 1]),
                decreases n - i,
            {
                let ghost w = words(s.subrange(0, i as int));
                assert(s.subrange(0, i + 1).drop_last() =~= s.subrange(0, i as int));
                assert(s.subrange(a as int, i + 1) =~= s.subrange(a as int, i as int).push(s[i as int]));
                assert(words(s.subrange(0, i + 1)) =~= strings_view(r@).push(
                    s.subrange(a as int, i + 1),
                ));
                i = i + 1;
            }
            let w = line.substring_char(a, i).to_owned();
            let ghost before = r@;
            r.push(w);
            assert(strings_view(r@) =~= strings_view(before).push(s.subrange(a as int, i as int)));
            if i < n {
                assert(s.subrange(0, i + 1).drop_last() =~= s.subrange(0, i as int));
                i = i + 1;
            }
        }
    }
    assert(s.subrange(0, n as int) =~= s);
    r
}

} // verus!
