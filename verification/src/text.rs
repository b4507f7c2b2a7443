use vstd::prelude::*;

verus! {

/// Unicode `White_Space`: the characters that `char::is_whitespace` accepts
/// and that surround the words of a protocol line.
pub open spec fn is_white_space(c: char) -> bool {
    let u = c as u32;
    ||| 0x09 <= u <= 0x0d
    ||| u == 0x20
    ||| u == 0x85
    ||| u == 0xa0
    ||| u == 0x1680
    ||| 0x2000 <= u <= 0x200a
    ||| u == 0x2028
    ||| u == 0x2029
    ||| u == 0x202f
    ||| u == 0x205f
    ||| u == 0x3000
}

/// `s` without its leading white space.
pub open spec fn trim_start(s: Seq<char>) -> Seq<char>
    decreases s.len(),
{
    if s.len() > 0 && is_white_space(s[0]) {
        trim_start(s.drop_first())
    } else {
        s
    }
}

/// `s` without its trailing white space.
pub open spec fn trim_end(s: Seq<char>) -> Seq<char>
    decreases s.len(),
{
    if s.len() > 0 && is_white_space(s.last()) {
        trim_end(s.drop_last())
    } else {
        s
    }
}

/// `s` without white space at either end.
pub open spec fn trimmed(s: Seq<char>) -> Seq<char> {
    trim_end(trim_start(s))
}

/// `t` is `s` with its white space ends cut off: `t` is the part of `s`
/// between a white-space prefix and a white-space suffix, and when `t` is
/// not empty it neither starts nor ends with white space.
pub open spec fn is_trim_of(t: Seq<char>, s: Seq<char>) -> bool {
    exists|a: int, b: int|
        #![trigger s.subrange(a, b)]
        0 <= a <= b <= s.len() && t == s.subrange(a, b) && (forall|k: int|
            0 <= k < a ==> is_white_space(#[trigger] s[k])) && (forall|k: int|
            b <= k < s.len() ==> is_white_space(#[trigger] s[k])) && (a < b ==> !is_white_space(
            s[a],
        ) && !is_white_space(s[b - 1]))
}

/// Among ASCII characters, exactly tab, line feed, vertical tab, form feed,
/// carriage return and space are white space: digits, signs, points,
/// letters and all other printable characters are kept by trimming.
pub proof fn lemma_white_space_ascii(c: char)
    requires
        (c as u32) < 0x80,
    ensures
        is_white_space(c) <==> (c == ' ' || c == '\t' || c == '\n' || c == '\u{0b}' || c == '\u{0c}'
            || c == '\r'),
        ('0' <= c <= '9' || c == '-' || c == '+' || c == '.') ==> !is_white_space(c),
{
}

proof fn lemma_trim_start_shape(s: Seq<char>) -> (a: int)
    ensures
        0 <= a <= s.len(),
        trim_start(s) == s.skip(a),
        forall|k: int| 0 <= k < a ==> is_white_space(#[trigger] s[k]),
        a < s.len() ==> !is_white_space(s[a]),
    decreases s.len(),
{
    if s.len() > 0 && is_white_space(s[0]) {
        let a0 = lemma_trim_start_shape(s.drop_first());
        assert(s.drop_first().skip(a0) == s.skip(a0 + 1));
        assert forall|k: int| 0 <= k < a0 + 1 implies is_white_space(#[trigger] s[k]) by {
            if k > 0 {
                assert(s[k] == s.drop_first()[k - 1]);
            }
        }
        if a0 + 1 < s.len() {
            assert(s[a0 + 1] == s.drop_first()[a0]);
        }
        a0 + 1
    } else {
        assert(s.skip(0) == s);
        0
    }
}

proof fn lemma_trim_end_shape(s: Seq<char>) -> (b: int)
    ensures
        0 <= b <= s.len(),
        trim_end(s) == s.take(b),
        forall|k: int| b <= k < s.len() ==> is_white_space(#[trigger] s[k]),
        b > 0 ==> !is_white_space(s[b - 1]),
    decreases s.len(),
{
    if s.len() > 0 && is_white_space(s.last()) {
        let b0 = lemma_trim_end_shape(s.drop_last());
        assert(s.drop_last().take(b0) == s.take(b0));
        assert forall|k: int| b0 <= k < s.len() implies is_white_space(#[trigger] s[k]) by {
            if k < s.len() - 1 {
                assert(s[k] == s.drop_last()[k]);
            }
        }
        if b0 > 0 {
            assert(s[b0 - 1] == s.drop_last()[b0 - 1]);
        }
        b0
    } else {
        assert(s.take(s.len() as int) == s);
        s.len() as int
    }
}

/// Trimming cuts off exactly the white space at both ends of a line and
/// keeps everything between, whatever the line's length.
pub proof fn lemma_trimmed_is_trim(s: Seq<char>)
    ensures
        is_trim_of(trimmed(s), s),
{
    let a = lemma_trim_start_shape(s);
    let r = s.skip(a);
    let m = lemma_trim_end_shape(r);
    let b = a + m;
    assert(r.take(m) == s.subrange(a, b));
    assert forall|k: int| b <= k < s.len() implies is_white_space(#[trigger] s[k]) by {
        assert(s[k] == r[k - a]);
    }
    if a < b {
        assert(s[a] == r[0]);
        assert(s[b - 1] == r[m - 1]);
        if m == 0 {
        }
    }
    if a == b && a < s.len() {
        // r is all white space, yet s[a] is not: impossible
        assert(r[0] == s[a]);
        assert(is_white_space(r[0]));
    }
}

/// Only one sequence is the trim of a line.
pub proof fn lemma_trim_unique(t1: Seq<char>, t2: Seq<char>, s: Seq<char>)
    requires
        is_trim_of(t1, s),
        is_trim_of(t2, s),
    ensures
        t1 == t2,
{
    let (a1, b1) = choose|a: int, b: int|
        #![trigger s.subrange(a, b)]
        0 <= a <= b <= s.len() && t1 == s.subrange(a, b) && (forall|k: int|
            0 <= k < a ==> is_white_space(#[trigger] s[k])) && (forall|k: int|
            b <= k < s.len() ==> is_white_space(#[trigger] s[k])) && (a < b ==> !is_white_space(
            s[a],
        ) && !is_white_space(s[b - 1]));
    let (a2, b2) = choose|a: int, b: int|
        #![trigger s.subrange(a, b)]
        0 <= a <= b <= s.len() && t2 == s.subrange(a, b) && (forall|k: int|
            0 <= k < a ==> is_white_space(#[trigger] s[k])) && (forall|k: int|
            b <= k < s.len() ==> is_white_space(#[trigger] s[k])) && (a < b ==> !is_white_space(
            s[a],
        ) && !is_white_space(s[b - 1]));
    if a1 < b1 && a2 < b2 {
        assert(a1 == a2) by {
            if a1 < a2 {
                assert(is_white_space(s[a1]));
            } else if a2 < a1 {
                assert(is_white_space(s[a2]));
            }
        }
        assert(b1 == b2) by {
            if b1 < b2 {
                assert(is_white_space(s[b2 - 1]));
            } else if b2 < b1 {
                assert(is_white_space(s[b1 - 1]));
            }
        }
    } else if a1 < b1 {
        assert(is_white_space(s[a1])) by {
            if a1 >= a2 {
                assert(a1 >= b2);
            }
        }
    } else if a2 < b2 {
        assert(is_white_space(s[a2])) by {
            if a2 >= a1 {
                assert(a2 >= b1);
            }
        }
    }
}

/// A line that neither starts nor ends with white space comes back whole;
/// in particular a number such as "-0.5" keeps its sign.
pub proof fn lemma_trim_keeps_plain_line(s: Seq<char>)
    requires
        s.len() > 0 ==> !is_white_space(s[0]) && !is_white_space(s.last()),
    ensures
        trimmed(s) == s,
{
    lemma_trimmed_is_trim(s);
    assert(s.subrange(0, s.len() as int) == s);
    assert(is_trim_of(s, s));
    lemma_trim_unique(trimmed(s), s, s);
}

/// Whether `c` has the Unicode `White_Space` property.
pub fn white_space(c: char) -> (b: bool)
    ensures
        b == is_white_space(c),
{
    let u = c as u32;
    (0x09 <= u && u <= 0x0d) || u == 0x20 || u == 0x85 || u == 0xa0 || u == 0x1680 || (0x2000 <= u
        && u <= 0x200a) || u == 0x2028 || u == 0x2029 || u == 0x202f || u == 0x205f || u == 0x3000
}

proof fn lemma_trim_start_skip(s: Seq<char>, i: int)
    requires
        0 <= i <= s.len(),
        forall|k: int| 0 <= k < i ==> is_white_space(#[trigger] s[k]),
    ensures
        trim_start(s) == trim_start(s.skip(i)),
    decreases i,
{
    if i > 0 {
        assert(s.drop_first() == s.skip(1));
        lemma_trim_start_skip(s.drop_first(), i - 1);
        assert(s.drop_first().skip(i - 1) == s.skip(i));
    } else {
        assert(s.skip(0) == s);
    }
}

proof fn lemma_trim_end_take(s: Seq<char>, j: int)
    requires
        0 <= j <= s.len(),
        forall|k: int| j <= k < s.len() ==> is_white_space(#[trigger] s[k]),
    ensures
        trim_end(s) == trim_end(s.take(j)),
    decreases s.len() - j,
{
    if j < s.len() {
        assert(s.drop_last() == s.take(s.len() - 1));
        lemma_trim_end_take(s.drop_last(), j);
        assert(s.drop_last().take(j) == s.take(j));
    } else {
        assert(s.take(s.len() as int) == s);
    }
}

/// The line with its leading and trailing white space removed, as
/// `str::trim` leaves it.
pub fn trim_line(line: &str) -> (t: String)
    ensures
        t@ == trimmed(line@),
{
    let n = line.unicode_len();
    let mut a: usize = 0;
    while a < n && white_space(line.get_char(a))
        invariant
            n == line@.len(),
            a <= n,
            forall|k: int| 0 <= k < a ==> is_white_space(#[trigger] line@[k]),
        decreases n - a,
    {
        a = a + 1;
    }
    proof {
        lemma_trim_start_skip(line@, a as int);
    }
    let ghost rest = line@.skip(a as int);
    assert(trim_start(line@) == rest) by {
        if a < n {
            assert(rest[0] == line@[a as int]);
        }
    }
    let mut b: usize = n;
    while b > a && white_space(line.get_char(b - 1))
        invariant
            n == line@.len(),
            a <= b <= n,
            forall|k: int| b <= k < n ==> is_white_space(#[trigger] line@[k]),
        decreases b - a,
    {
        b = b - 1;
    }
    proof {
        let m = (b - a) as int;
        assert forall|k: int| m <= k < rest.len() implies is_white_space(#[trigger] rest[k]) by {
            assert(rest[k] == line@[k + a]);
        }
        lemma_trim_end_take(rest, m);
        let kept = rest.take(m);
        assert(kept == line@.subrange(a as int, b as int));
        if m > 0 {
            assert(kept.last() == line@[b - 1]);
        }
    }
    line.substring_char(a, b).to_owned()
}

} // verus!
