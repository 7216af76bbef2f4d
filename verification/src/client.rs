//! The plain-HTTP client side: the requests sent to a running service and
//! the body taken out of its answer.
use vstd::prelude::*;

verus! {

/// The port the API listens on.
pub const PORT: &'static str = "7883";

/// The text of a `GET` request for `path` on the local service, asking the
/// server to close the connection afterwards.
pub open spec fn get_request_text(path: Seq<char>, port: Seq<char>) -> Seq<char> {
    "GET "@ + path + " HTTP/1.1\r\nHost: localhost:"@ + port + "\r\nConnection: close\r\n\r\n"@
}

/// Builds the `GET` request for `path` on the local service at `port`.
pub fn http_get_request(path: &str, port: &str) -> (r: String)
    ensures
        r@ == get_request_text(path@, port@),
{
    let mut r = String::from_str("GET ");
    r.append(path);
    r.append(" HTTP/1.1\r\nHost: localhost:");
    r.append(port);
    r.append("\r\nConnection: close\r\n\r\n");
    r
}

/// Unicode's White_Space property, by which `str::trim` trims.
pub open spec fn is_whitespace(c: char) -> bool {
    let u = c as u32;
    ||| 0x09 <= u <= 0x0D
    ||| u == 0x20
    ||| u == 0x85
    ||| u == 0xA0
    ||| u == 0x1680
    ||| 0x2000 <= u <= 0x200A
    ||| u == 0x2028
    ||| u == 0x2029
    ||| u == 0x202F
    ||| u == 0x205F
    ||| u == 0x3000
}

fn whitespace(c: char) -> (r: bool)
    ensures
        r == is_whitespace(c),
{
    let u = c as u32;
    (0x09 <= u && u <= 0x0D) || u == 0x20 || u == 0x85 || u == 0xA0 || u == 0x1680 || (0x2000
        <= u && u <= 0x200A) || u == 0x2028 || u == 0x2029 || u == 0x202F || u == 0x205F || u
        == 0x3000
}

/// How many whitespace characters `s` starts with.
pub open spec fn leading_whitespace(s: Seq<char>) -> nat
    decreases s.len(),
{
    if s.len() > 0 && is_whitespace(s[0]) {
        1 + leading_whitespace(s.drop_first())
    } else {
        0
    }
}

/// How many whitespace characters `s` ends with.
pub open spec fn trailing_whitespace(s: Seq<char>) -> nat
    decreases s.len(),
{
    if s.len() > 0 && is_whitespace(s.last()) {
        1 + trailing_whitespace(s.drop_last())
    } else {
        0
    }
}

/// `s` without the whitespace at either end.
pub open spec fn trimmed(s: Seq<char>) -> Seq<char> {
    if leading_whitespace(s) == s.len() {
        Seq::empty()
    } else {
        s.subrange(leading_whitespace(s) as int, s.len() - trailing_whitespace(s))
    }
}

proof fn lemma_leading(s: Seq<char>, i: int)
    requires
        0 <= i <= s.len(),
        forall|j: int| 0 <= j < i ==> is_whitespace(#[trigger] s[j]),
        i == s.len() || !is_whitespace(s[i]),
    ensures
        leading_whitespace(s) == i,
    decreases i,
{
    if i > 0 {
        assert(is_whitespace(s[0]));
        assert forall|j: int| 0 <= j < i - 1 implies is_whitespace(#[trigger] s.drop_first()[j]) by {
            assert(s.drop_first()[j] == s[j + 1]);
        }
        lemma_leading(s.drop_first(), i - 1);
    }
}

proof fn lemma_trailing(s: Seq<char>, k: int)
    requires
        0 <= k <= s.len(),
        forall|j: int| s.len() - k <= j < s.len() ==> is_whitespace(#[trigger] s[j]),
        k == s.len() || !is_whitespace(s[s.len() - k - 1]),
    ensures
        trailing_whitespace(s) == k,
    decreases k,
{
    if k > 0 {
        assert(is_whitespace(s.last()));
        assert forall|j: int| s.len() - 1 - (k - 1) <= j < s.len() - 1 implies is_whitespace(
            #[trigger] s.drop_last()[j],
        ) by {
            assert(s.drop_last()[j] == s[j]);
        }
        lemma_trailing(s.drop_last(), k - 1);
    }
}

proof fn lemma_leading_bounds(s: Seq<char>)
    ensures
        leading_whitespace(s) <= s.len(),
        leading_whitespace(s) < s.len() ==> !is_whitespace(s[leading_whitespace(s) as int]),
        forall|j: int| 0 <= j < leading_whitespace(s) ==> is_whitespace(#[trigger] s[j]),
    decreases s.len(),
{
    if s.len() > 0 && is_whitespace(s[0]) {
        lemma_leading_bounds(s.drop_first());
        assert forall|j: int| 0 <= j < leading_whitespace(s) implies is_whitespace(#[trigger] s[j]) by {
            if j > 0 {
                assert(s[j] == s.drop_first()[j - 1]);
            }
        }
    }
}

proof fn lemma_trailing_bounds(s: Seq<char>)
    ensures
        trailing_whitespace(s) <= s.len(),
        trailing_whitespace(s) < s.len() ==> !is_whitespace(
            s[s.len() - trailing_whitespace(s) - 1],
        ),
        forall|j: int| s.len() - trailing_whitespace(s) <= j < s.len() ==> is_whitespace(#[trigger] s[j]),
    decreases s.len(),
{
    if s.len() > 0 && is_whitespace(s.last()) {
        lemma_trailing_bounds(s.drop_last());
        assert forall|j: int| s.len() - trailing_whitespace(s) <= j < s.len() implies is_whitespace(
            #[trigger] s[j],
        ) by {
            if j < s.len() - 1 {
                assert(s[j] == s.drop_last()[j]);
            }
        }
    }
}

/// A trimmed text neither starts nor ends with whitespace, and trimming it
/// again changes nothing.
pub proof fn law_trimmed_has_no_outer_whitespace(s: Seq<char>)
    ensures
        trimmed(s).len() > 0 ==> !is_whitespace(trimmed(s)[0]) && !is_whitespace(trimmed(s).last()),
        trimmed(trimmed(s)) == trimmed(s),
{
    lemma_leading_bounds(s);
    lemma_trailing_bounds(s);
    let t = trimmed(s);
    if leading_whitespace(s) < s.len() {
        let a = leading_whitespace(s) as int;
        let b = s.len() - trailing_whitespace(s);
        if b <= a {
            assert(is_whitespace(s[a]));
        }
        assert(t[0] == s[a]);
        assert(t.last() == s[b - 1]);
        if t.len() > 0 {
            lemma_leading(t, 0);
            lemma_trailing(t, 0);
            assert(t.subrange(0, t.len() as int) =~= t);
        }
    } else {
        assert(t.len() == 0);
        lemma_leading(t, 0);
    }
}

/// The characters of Unicode's White_Space property, one by one.
pub open spec fn white_space_chars() -> Seq<char> {
    seq![
        '\t', '\n', '\u{b}', '\u{c}', '\r', ' ', '\u{85}', '\u{a0}', '\u{1680}', '\u{2000}',
        '\u{2001}', '\u{2002}', '\u{2003}', '\u{2004}', '\u{2005}', '\u{2006}', '\u{2007}',
        '\u{2008}', '\u{2009}', '\u{200a}', '\u{2028}', '\u{2029}', '\u{202f}', '\u{205f}',
        '\u{3000}',
    ]
}

proof fn lemma_listed_is_whitespace(c: char)
    requires
        white_space_chars().contains(c),
    ensures
        is_whitespace(c),
{
    let w = white_space_chars();
    let i = choose|i: int| 0 <= i < w.len() && w[i] == c;
    assert(0 <= i < 25);
    assert(is_whitespace(w[i])) by {
        assert(w[0] as u32 == 9);
    }
}

proof fn lemma_whitespace_is_listed(c: char)
    requires
        is_whitespace(c),
    ensures
        white_space_chars().contains(c),
{
    let w = white_space_chars();
    let u = c as u32;
    let i: int = if u <= 0x0D {
        u - 9
    } else if u == 0x20 {
        5
    } else if u == 0x85 {
        6
    } else if u == 0xA0 {
        7
    } else if u == 0x1680 {
        8
    } else if u <= 0x200A {
        u - 0x2000 + 9
    } else if u == 0x2028 {
        20
    } else if u == 0x2029 {
        21
    } else if u == 0x202F {
        22
    } else if u == 0x205F {
        23
    } else {
        24
    };
    assert(w[i] as u32 == u);
    assert(w[i] == c);
}

/// A character that is not White_Space is never trimmed: it stays the last
/// character of the trimmed text when appended, and the first when
/// prepended.
pub proof fn law_trim_keeps_other_chars(s: Seq<char>, c: char)
    requires
        !white_space_chars().contains(c),
    ensures
        trimmed(s.push(c)).len() > 0 && trimmed(s.push(c)).last() == c,
        trimmed(seq![c] + s).len() > 0 && trimmed(seq![c] + s)[0] == c,
{
    if is_whitespace(c) {
        lemma_whitespace_is_listed(c);
    }
    let t = s.push(c);
    let u = seq![c] + s;
    lemma_leading_bounds(t);
    lemma_trailing_bounds(t);
    lemma_trailing(t, 0);
    lemma_leading(u, 0);
    lemma_leading_bounds(u);
    lemma_trailing_bounds(u);
    if leading_whitespace(t) == t.len() {
        assert(is_whitespace(t[t.len() - 1]));
    }
    if trailing_whitespace(u) == u.len() {
        assert(is_whitespace(u[0]));
    }
}

/// Trimming ignores any White_Space character added at either end: carriage
/// returns, tabs, form feeds, vertical tabs, spaces and the Unicode spaces
/// alike.
pub proof fn law_trim_ignores_outer_white_space(s: Seq<char>, c: char)
    requires
        white_space_chars().contains(c),
    ensures
        trimmed(s.push(c)) == trimmed(s),
        trimmed(seq![c] + s) == trimmed(s),
{
    lemma_listed_is_whitespace(c);
    lemma_leading_bounds(s);
    lemma_trailing_bounds(s);
    let n = s.len() as int;
    let t = s.push(c);
    let u = seq![c] + s;
    if leading_whitespace(s) == n {
        assert forall|j: int| 0 <= j < n + 1 implies is_whitespace(#[trigger] t[j]) by {
            if j < n {
                assert(t[j] == s[j]);
            }
        }
        lemma_leading(t, n + 1);
        assert forall|j: int| 0 <= j < n + 1 implies is_whitespace(#[trigger] u[j]) by {
            if j > 0 {
                assert(u[j] == s[j - 1]);
            }
        }
        lemma_leading(u, n + 1);
    } else {
        let a = leading_whitespace(s) as int;
        let k = trailing_whitespace(s) as int;
        if k == n {
            assert(is_whitespace(s[a]));
        }
        assert(k < n);
        // appended
        assert forall|j: int| 0 <= j < a implies is_whitespace(#[trigger] t[j]) by {
            assert(t[j] == s[j]);
        }
        assert(t[a] == s[a]);
        lemma_leading(t, a);
        assert forall|j: int| t.len() - (k + 1) <= j < t.len() implies is_whitespace(
            #[trigger] t[j],
        ) by {
            if j < n {
                assert(t[j] == s[j]);
            }
        }
        assert(t[t.len() - (k + 1) - 1] == s[n - k - 1]);
        lemma_trailing(t, k + 1);
        assert(trimmed(t) =~= trimmed(s));
        // prepended
        assert forall|j: int| 0 <= j < a + 1 implies is_whitespace(#[trigger] u[j]) by {
            if j > 0 {
                assert(u[j] == s[j - 1]);
            }
        }
        assert(u[a + 1] == s[a]);
        lemma_leading(u, a + 1);
        assert forall|j: int| u.len() - k <= j < u.len() implies is_whitespace(#[trigger] u[j]) by {
            assert(u[j] == s[j - 1]);
        }
        assert(u[u.len() - k - 1] == s[n - k - 1]);
        lemma_trailing(u, k);
        assert(trimmed(u) =~= trimmed(s));
    }
}

/// `pat` occurs in `s` at `i`.
pub open spec fn occurs_at(s: Seq<char>, pat: Seq<char>, i: int) -> bool {
    0 <= i && i + pat.len() <= s.len() && s.subrange(i, i + pat.len()) == pat
}

/// `i` is the leftmost occurrence of `pat` in `s` at or after `start`.
pub open spec fn is_first_occurrence(s: Seq<char>, pat: Seq<char>, start: int, i: int) -> bool {
    &&& start <= i
    &&& occurs_at(s, pat, i)
    &&& forall|j: int| start <= j < i ==> !occurs_at(s, pat, j)
}

/// The leftmost occurrence of `pat` in `s` at or after `start`, if any.
pub open spec fn first_occurrence(s: Seq<char>, pat: Seq<char>, start: int) -> Option<int> {
    if exists|i: int| is_first_occurrence(s, pat, start, i) {
        Some(choose|i: int| is_first_occurrence(s, pat, start, i))
    } else {
        None
    }
}

/// The second piece of `s` split at `pat`: what lies between the first
/// occurrence and the next one, or the end; none when `pat` does not occur.
pub open spec fn second_piece(s: Seq<char>, pat: Seq<char>) -> Option<Seq<char>> {
    match first_occurrence(s, pat, 0) {
        None => None,
        Some(a) => {
            let b = a + pat.len();
            Some(
                match first_occurrence(s, pat, b) {
                    Some(c) => s.subrange(b, c),
                    None => s.subrange(b, s.len() as int),
                },
            )
        },
    }
}

/// The body of an HTTP answer as the health check reads it: the text after
/// the first blank line, up to any further blank line, trimmed.
pub open spec fn body_of(response: Seq<char>) -> Option<Seq<char>> {
    match second_piece(response, "\r\n\r\n"@) {
        Some(p) => Some(trimmed(p)),
        None => None,
    }
}

proof fn lemma_first_occurrence_is(s: Seq<char>, pat: Seq<char>, start: int, i: int)
    requires
        is_first_occurrence(s, pat, start, i),
    ensures
        first_occurrence(s, pat, start) == Some(i),
{
    let k = choose|k: int| is_first_occurrence(s, pat, start, k);
    assert(is_first_occurrence(s, pat, start, k));
    if k < i {
        assert(!occurs_at(s, pat, k));
    }
    if i < k {
        assert(!occurs_at(s, pat, i));
    }
}

proof fn lemma_no_occurrence(s: Seq<char>, pat: Seq<char>, start: int)
    requires
        forall|j: int| start <= j ==> !occurs_at(s, pat, j),
    ensures
        first_occurrence(s, pat, start) is None,
{
    if exists|i: int| is_first_occurrence(s, pat, start, i) {
        let k = choose|k: int| is_first_occurrence(s, pat, start, k);
        assert(occurs_at(s, pat, k));
    }
}

/// Whether `pat` occurs in `s` at `i`.
fn occurs_at_exec(s: &str, n: usize, pat: &str, m: usize, i: usize) -> (r: bool)
    requires
        n == s@.len(),
        m == pat@.len(),
        i + m <= s@.len(),
    ensures
        r == occurs_at(s@, pat@, i as int),
{
    for k in 0..m
        invariant
            n == s@.len(),
            m == pat@.len(),
            i + m <= s@.len(),
            forall|j: int| 0 <= j < k ==> s@[i + j] == pat@[j],
    {
        if s.get_char(i + k) != pat.get_char(k) {
            assert(s@.subrange(i as int, i + m)[k as int] != pat@[k as int]);
            return false;
        }
    }
    assert(s@.subrange(i as int, i + m) =~= pat@);
    true
}

/// The leftmost occurrence of `pat` in `s` at or after `start`.
fn find_occurrence(s: &str, n: usize, pat: &str, m: usize, start: usize) -> (r: Option<usize>)
    requires
        n == s@.len(),
        m == pat@.len(),
        m > 0,
    ensures
        match r {
            Some(i) => first_occurrence(s@, pat@, start as int) == Some(i as int) && i + m <= n,
            None => first_occurrence(s@, pat@, start as int) is None,
        },
{
    if n < m || start > n - m {
        proof {
            lemma_no_occurrence(s@, pat@, start as int);
        }
        return None;
    }
    let mut i = start;
    while i <= n - m
        invariant
            n == s@.len(),
            m == pat@.len(),
            m > 0,
            m <= n,
            start <= i <= n - m + 1,
            forall|j: int| start <= j < i ==> !occurs_at(s@, pat@, j),
        decreases n - m + 1 - i,
    {
        if occurs_at_exec(s, n, pat, m, i) {
            proof {
                lemma_first_occurrence_is(s@, pat@, start as int, i as int);
            }
            return Some(i);
        }
        i = i + 1;
    }
    proof {
        lemma_no_occurrence(s@, pat@, start as int);
    }
    None
}

/// The characters of `s` from `lo` up to `hi`, whitespace trimmed at both
/// ends.
fn trim_range(s: &str, lo: usize, hi: usize) -> (r: String)
    requires
        lo <= hi <= s@.len(),
    ensures
        r@ == trimmed(s@.subrange(lo as int, hi as int)),
{
    let ghost piece = s@.subrange(lo as int, hi as int);
    let mut a = lo;
    while a < hi && whitespace(s.get_char(a))
        invariant
            lo <= a <= hi <= s@.len(),
            piece == s@.subrange(lo as int, hi as int),
            forall|j: int| lo <= j < a ==> is_whitespace(s@[j]),
        decreases hi - a,
    {
        a = a + 1;
    }
    proof {
        assert forall|j: int| 0 <= j < a - lo implies is_whitespace(#[trigger] piece[j]) by {
            assert(piece[j] == s@[lo + j]);
        }
        if a < hi {
            assert(piece[a - lo] == s@[a as int]);
        }
        lemma_leading(piece, a - lo);
    }
    if a == hi {
        return String::new();
    }
    let mut b = hi;
    while b > a + 1 && whitespace(s.get_char(b - 1))
        invariant
            lo <= a < b <= hi <= s@.len(),
            piece == s@.subrange(lo as int, hi as int),
            forall|j: int| b <= j < hi ==> is_whitespace(s@[j]),
        decreases b,
    {
        b = b - 1;
    }
    proof {
        let k = hi - b;
        assert forall|j: int| piece.len() - k <= j < piece.len() implies is_whitespace(
            #[trigger] piece[j],
        ) by {
            assert(piece[j] == s@[lo + j]);
        }
        assert(!is_whitespace(s@[a as int]));
        assert(piece[piece.len() - k - 1] == s@[b - 1]);
        lemma_trailing(piece, k as int);
    }
    let r = String::from_str(s.substring_char(a, b));
    assert(r@ =~= piece.subrange(a - lo, piece.len() - (hi - b)));
    r
}

/// The body of an HTTP answer: the text after the first blank line, up to
/// any further blank line, with surrounding whitespace trimmed; none when
/// the answer has no blank line.
pub fn response_body(response: &str) -> (r: Option<String>)
    ensures
        match (r, body_of(response@)) {
            (Some(b), Some(t)) => b@ == t,
            (None, None) => true,
            _ => false,
        },
{
    let sep = "\r\n\r\n";
    let n = response.unicode_len();
    let m = sep.unicode_len();
    proof {
        reveal_strlit("\r\n\r\n");
    }
    match find_occurrence(response, n, sep, m, 0) {
        None => None,
        Some(a) => {
            let b = a + m;
            let end = match find_occurrence(response, n, sep, m, b) {
                Some(c) => c,
                None => n,
            };
            Some(trim_range(response, b, end))
        },
    }
}

/// An answer made of a head, a blank line and a body, with no other blank
/// line, has that body, trimmed.
pub proof fn law_body_after_blank_line(head: Seq<char>, body: Seq<char>)
    requires
        forall|j: int|
            0 <= j < head.len() ==> !occurs_at(head + "\r\n\r\n"@ + body, "\r\n\r\n"@, j),
        forall|j: int|
            head.len() + 4 <= j ==> !occurs_at(head + "\r\n\r\n"@ + body, "\r\n\r\n"@, j),
    ensures
        body_of(head + "\r\n\r\n"@ + body) == Some(trimmed(body)),
{
    reveal_strlit("\r\n\r\n");
    let sep = "\r\n\r\n"@;
    let s = head + sep + body;
    let h = head.len() as int;
    assert(s.subrange(h, h + 4) =~= sep);
    assert(occurs_at(s, sep, h));
    lemma_first_occurrence_is(s, sep, 0, h);
    lemma_no_occurrence(s, sep, h + 4);
    assert(s.subrange(h + 4, s.len() as int) =~= body);
}

} // verus!
