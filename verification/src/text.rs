//! Character-level text handling shared by the parsers: whitespace, trimming,
//! line splitting, substring search and string building.
use vstd::prelude::*;

verus! {

// ─── Whitespace ─────────────────────────────────────────────────────────────
/// The Unicode `White_Space` property (what `char::is_whitespace`, `str::trim`
/// and the regex class `\s` all use).
pub open spec fn is_ws(c: char) -> bool {
    let u = c as u32;
    ||| 0x09 <= u <= 0x0d
    ||| u == 0x20
    ||| u == 0x85
    ||| u == 0xa0
    ||| u == 0x1680
    ||| 0x2000 <= u <= 0x200a
    ||| u == 0x2028
    ||| u == 0x2029
    ||| u == 0x202f
    ||| u == 0x205f
    ||| u == 0x3000
}

/// Executable test of `is_ws`.
pub fn is_space(c: char) -> (b: bool)
    ensures
        b == is_ws(c),
{
    let u = c as u32;
    (0x09 <= u && u <= 0x0d) || u == 0x20 || u == 0x85 || u == 0xa0 || u == 0x1680 || (0x2000
        <= u && u <= 0x200a) || u == 0x2028 || u == 0x2029 || u == 0x202f || u == 0x205f || u
        == 0x3000
}

/// `s` with its leading whitespace removed.
pub open spec fn trim_start(s: Seq<char>) -> Seq<char>
    decreases s.len(),
{
    if s.len() > 0 && is_ws(s[0]) {
        trim_start(s.drop_first())
    } else {
        s
    }
}

/// `s` with its trailing whitespace removed.
pub open spec fn trim_end(s: Seq<char>) -> Seq<char>
    decreases s.len(),
{
    if s.len() > 0 && is_ws(s.last()) {
        trim_end(s.drop_last())
    } else {
        s
    }
}

/// `s` with leading and trailing whitespace removed (`str::trim`).
pub open spec fn trim(s: Seq<char>) -> Seq<char> {
    trim_end(trim_start(s))
}

/// Index of the first non-whitespace character of `s` at or after `i`
/// (or `s.len()`).
pub open spec fn ws_end(s: Seq<char>, i: int) -> int
    decreases s.len() - i,
{
    if 0 <= i < s.len() && is_ws(s[i]) {
        ws_end(s, i + 1)
    } else {
        i
    }
}

pub proof fn lemma_ws_end(s: Seq<char>, i: int)
    requires
        0 <= i <= s.len(),
    ensures
        i <= ws_end(s, i) <= s.len(),
        forall|k: int| i <= k < ws_end(s, i) ==> is_ws(#[trigger] s[k]),
        ws_end(s, i) < s.len() ==> !is_ws(s[ws_end(s, i)]),
    decreases s.len() - i,
{
    if i < s.len() && is_ws(s[i]) {
        lemma_ws_end(s, i + 1);
    }
}

/// Executable `ws_end`.
pub fn skip_ws(s: &Vec<char>, i: usize) -> (r: usize)
    requires
        i <= s@.len(),
    ensures
        r == ws_end(s@, i as int),
        i <= r <= s@.len(),
{
    let mut j = i;
    while j < s.len() && is_space(s[j])
        invariant
            i <= j <= s@.len(),
            ws_end(s@, i as int) == ws_end(s@, j as int),
        decreases s@.len() - j,
    {
        j = j + 1;
    }
    j
}

proof fn lemma_trim_start_is_skip(s: Seq<char>, i: int)
    requires
        0 <= i <= s.len(),
    ensures
        trim_start(s.skip(i)) == s.skip(ws_end(s, i)),
    decreases s.len() - i,
{
    if i < s.len() && is_ws(s[i]) {
        assert(s.skip(i).drop_first() =~= s.skip(i + 1));
        lemma_trim_start_is_skip(s, i + 1);
    } else {
        assert(s.skip(i).len() == 0 || !is_ws(s.skip(i)[0]));
    }
}

/// Index one past the last non-whitespace character of `s.take(j)`.
pub open spec fn ws_start_back(s: Seq<char>, j: int) -> int
    decreases j,
{
    if 0 < j <= s.len() && is_ws(s[j - 1]) {
        ws_start_back(s, j - 1)
    } else {
        j
    }
}

pub proof fn lemma_trim_end_is_take(s: Seq<char>, j: int)
    requires
        0 <= j <= s.len(),
    ensures
        trim_end(s.take(j)) == s.take(ws_start_back(s, j)),
        0 <= ws_start_back(s, j) <= j,
    decreases j,
{
    if 0 < j && is_ws(s[j - 1]) {
        assert(s.take(j).drop_last() =~= s.take(j - 1));
        lemma_trim_end_is_take(s, j - 1);
    } else {
        assert(s.take(j).len() == 0 || !is_ws(s.take(j).last()));
    }
}

/// `trim` of the characters of a string.
pub fn trim_chars(s: &Vec<char>) -> (r: Vec<char>)
    ensures
        r@ == trim(s@),
{
    let a = skip_ws(s, 0);
    let mut b = s.len();
    while b > a && is_space(s[b - 1])
        invariant
            a <= b <= s@.len(),
            ws_start_back(s@, s@.len() as int) == ws_start_back(s@, b as int),
        decreases b,
    {
        b = b - 1;
    }
    proof {
        lemma_trim_start_is_skip(s@, 0);
        assert(s@.skip(0) =~= s@);
        let t = s@.skip(a as int);
        lemma_trim_end_is_take(t, t.len() as int);
        assert(t.take(t.len() as int) =~= t);
        // ws_start_back on t relates to ws_start_back on s
        lemma_back_shift(s@, a as int, b as int);
    }
    let r = slice_vec(s, a, b);
    proof {
        let t = s@.skip(a as int);
        assert(r@ =~= t.take(b - a));
    }
    r
}

proof fn lemma_back_shift(s: Seq<char>, a: int, b: int)
    requires
        0 <= a <= b <= s.len(),
        ws_start_back(s, s.len() as int) == ws_start_back(s, b),
        b == a || !is_ws(s[b - 1]),
        a == ws_end(s, 0),
    ensures
        ws_start_back(s.skip(a), s.len() - a) == b - a,
{
    lemma_ws_end(s, 0);
    lemma_back_shift_rec(s, a, s.len() as int, b);
}

proof fn lemma_back_shift_rec(s: Seq<char>, a: int, j: int, b: int)
    requires
        0 <= a <= b <= j <= s.len(),
        ws_start_back(s, j) == ws_start_back(s, b),
        b == a || !is_ws(s[b - 1]),
        forall|k: int| 0 <= k < a ==> is_ws(#[trigger] s[k]),
        a < s.len() ==> !is_ws(s[a]),
    ensures
        ws_start_back(s.skip(a), j - a) == b - a,
    decreases j,
{
    let t = s.skip(a);
    if j > b {
        assert(t[j - a - 1] == s[j - 1]);
        if is_ws(s[j - 1]) {
            lemma_back_shift_rec(s, a, j - 1, b);
        } else {
            assert(ws_start_back(s, j) == j);
            lemma_back_fixed(s, b);
            assert(false);
        }
    } else {
        if b > a {
            assert(t[b - a - 1] == s[b - 1]);
        }
    }
}

proof fn lemma_back_fixed(s: Seq<char>, j: int)
    requires
        0 <= j <= s.len(),
    ensures
        ws_start_back(s, j) <= j,
    decreases j,
{
    if 0 < j && is_ws(s[j - 1]) {
        lemma_back_fixed(s, j - 1);
    }
}

// ─── Slicing and building ───────────────────────────────────────────────────
/// The characters `s[a..b]`.
pub fn slice_vec(s: &Vec<char>, a: usize, b: usize) -> (r: Vec<char>)
    requires
        a <= b <= s@.len(),
    ensures
        r@ == s@.subrange(a as int, b as int),
{
    let mut r: Vec<char> = Vec::new();
    let mut i = a;
    while i < b
        invariant
            a <= i <= b <= s@.len(),
            r@ == s@.subrange(a as int, i as int),
        decreases b - i,
    {
        r.push(s[i]);
        i = i + 1;
        assert(r@ =~= s@.subrange(a as int, i as int));
    }
    r
}

/// Appends `c` to `s` (`String::push`).
#[verifier::external_body]
pub fn push_char(s: &mut String, c: char)
    ensures
        final(s)@ == old(s)@.push(c),
{
    s.push(c)
}

/// A string holding exactly the given characters.
pub fn string_of(v: &Vec<char>) -> (s: String)
    ensures
        s@ == v@,
{
    let mut s = String::new();
    let mut i: usize = 0;
    while i < v.len()
        invariant
            i <= v@.len(),
            s@ == v@.take(i as int),
        decreases v@.len() - i,
    {
        push_char(&mut s, v[i]);
        i = i + 1;
        assert(s@ =~= v@.take(i as int));
    }
    assert(v@.take(v@.len() as int) =~= v@);
    s
}

/// The characters of a string slice, in order.
pub fn chars_of(s: &str) -> (v: Vec<char>)
    ensures
        v@ == s@,
{
    let mut v: Vec<char> = Vec::new();
    for c in it: s.chars()
        invariant
            v@ == it.seq().take(it.index() as int),
    {
        v.push(c);
    }
    v
}

/// The text without its last character (`String::pop`); an empty text
/// stays empty.
pub open spec fn without_last(s: Seq<char>) -> Seq<char> {
    if s.len() > 0 {
        s.drop_last()
    } else {
        s
    }
}

/// Removes the last character of `s`, if it has one.
pub fn pop_last(s: &mut String)
    ensures
        final(s)@ == without_last(old(s)@),
{
    let v = chars_of(s.as_str());
    if v.len() > 0 {
        let w = slice_vec(&v, 0, v.len() - 1);
        assert(w@ =~= v@.drop_last());
        *s = string_of(&w);
    }
}

/// A copy of a string slice.
pub fn str_to_string(s: &str) -> (r: String)
    ensures
        r@ == s@,
{
    s.to_owned()
}

/// `a` followed by `b`.
pub fn concat(a: &str, b: &str) -> (r: String)
    ensures
        r@ == a@ + b@,
{
    let mut r = str_to_string(a);
    let bv = chars_of(b);
    let mut i: usize = 0;
    while i < bv.len()
        invariant
            i <= bv@.len(),
            bv@ == b@,
            r@ == a@ + bv@.take(i as int),
        decreases bv@.len() - i,
    {
        push_char(&mut r, bv[i]);
        i = i + 1;
        assert(r@ =~= a@ + bv@.take(i as int));
    }
    assert(bv@.take(bv@.len() as int) =~= bv@);
    r
}

/// Appends the characters of `b` to `r`.
pub fn push_str(r: &mut String, b: &str)
    ensures
        final(r)@ == old(r)@ + b@,
{
    let bv = chars_of(b);
    let ghost start = r@;
    let mut i: usize = 0;
    while i < bv.len()
        invariant
            i <= bv@.len(),
            bv@ == b@,
            r@ == start + bv@.take(i as int),
        decreases bv@.len() - i,
    {
        push_char(r, bv[i]);
        i = i + 1;
        assert(r@ =~= start + bv@.take(i as int));
    }
    assert(bv@.take(bv@.len() as int) =~= bv@);
}

/// Character-wise equality of two strings.
pub fn str_eq(a: &str, b: &str) -> (r: bool)
    ensures
        r == (a@ == b@),
{
    let av = chars_of(a);
    let bv = chars_of(b);
    chars_eq(&av, &bv)
}

/// Element-wise equality of two character vectors.
pub fn chars_eq(a: &Vec<char>, b: &Vec<char>) -> (r: bool)
    ensures
        r == (a@ == b@),
{
    if a.len() != b.len() {
        return false;
    }
    let mut i: usize = 0;
    while i < a.len()
        invariant
            i <= a@.len() == b@.len(),
            forall|k: int| 0 <= k < i ==> a@[k] == b@[k],
        decreases a@.len() - i,
    {
        if a[i] != b[i] {
            return false;
        }
        i = i + 1;
    }
    assert(a@ =~= b@);
    true
}

// ─── Prefixes, suffixes and substrings ──────────────────────────────────────
/// `p` occurs in `s` at position `i`.
pub open spec fn occurs_at(s: Seq<char>, p: Seq<char>, i: int) -> bool {
    0 <= i && i + p.len() <= s.len() && s.subrange(i, i + p.len()) == p
}

/// `p` occurs somewhere in `s` (`str::contains`).
pub open spec fn contains_seq(s: Seq<char>, p: Seq<char>) -> bool {
    exists|i: int| occurs_at(s, p, i)
}

/// Executable `occurs_at`.
pub fn matches_at(s: &Vec<char>, p: &Vec<char>, i: usize) -> (r: bool)
    ensures
        r == occurs_at(s@, p@, i as int),
{
    if i > s.len() || p.len() > s.len() - i {
        return false;
    }
    let mut k: usize = 0;
    while k < p.len()
        invariant
            i + p@.len() <= s@.len(),
            s@.len() <= usize::MAX,
            k <= p@.len(),
            forall|j: int| 0 <= j < k ==> s@[i + j] == p@[j],
        decreases p@.len() - k,
    {
        if s[i + k] != p[k] {
            assert(s@.subrange(i as int, i + p@.len())[k as int] != p@[k as int]);
            return false;
        }
        k = k + 1;
    }
    assert(s@.subrange(i as int, i + p@.len()) =~= p@);
    true
}

/// First position at or after `from` where `p` occurs in `s`, if any.
pub fn find_from(s: &Vec<char>, p: &Vec<char>, from: usize) -> (r: Option<usize>)
    requires
        from <= s@.len(),
    ensures
        match r {
            Some(i) => from <= i && occurs_at(s@, p@, i as int) && forall|j: int|
                from <= j < i ==> !occurs_at(s@, p@, j),
            None => forall|j: int| from <= j ==> !occurs_at(s@, p@, j),
        },
{
    let mut i = from;
    while i < s.len()
        invariant
            from <= i <= s@.len(),
            forall|j: int| from <= j < i ==> !occurs_at(s@, p@, j),
        decreases s@.len() - i,
    {
        if matches_at(s, p, i) {
            return Some(i);
        }
        i = i + 1;
    }
    if matches_at(s, p, i) {
        return Some(i);
    }
    None
}

/// `str::contains` on character vectors.
pub fn contains_chars(s: &Vec<char>, p: &Vec<char>) -> (r: bool)
    ensures
        r == contains_seq(s@, p@),
{
    match find_from(s, p, 0) {
        Some(i) => true,
        None => false,
    }
}

/// `str::contains` on strings.
pub fn str_contains(s: &str, p: &str) -> (r: bool)
    ensures
        r == contains_seq(s@, p@),
{
    let sv = chars_of(s);
    let pv = chars_of(p);
    contains_chars(&sv, &pv)
}

/// `s` starts with `p`.
pub open spec fn starts_with(s: Seq<char>, p: Seq<char>) -> bool {
    occurs_at(s, p, 0)
}

/// `s` ends with `p`.
pub open spec fn ends_with(s: Seq<char>, p: Seq<char>) -> bool {
    p.len() <= s.len() && occurs_at(s, p, s.len() - p.len())
}

/// Executable `ends_with`.
pub fn ends_with_chars(s: &Vec<char>, p: &Vec<char>) -> (r: bool)
    ensures
        r == ends_with(s@, p@),
{
    if p.len() > s.len() {
        false
    } else {
        matches_at(s, p, s.len() - p.len())
    }
}

/// Position of the first occurrence of `c` in `s` at or after `from`, if any.
pub open spec fn first_char_from(s: Seq<char>, c: char, from: int) -> Option<int>
    decreases s.len() - from,
{
    if from < 0 || from >= s.len() {
        None
    } else if s[from] == c {
        Some(from)
    } else {
        first_char_from(s, c, from + 1)
    }
}

pub proof fn lemma_first_char_from(s: Seq<char>, c: char, from: int)
    requires
        0 <= from,
    ensures
        match first_char_from(s, c, from) {
            Some(i) => from <= i < s.len() && s[i] == c && forall|j: int|
                from <= j < i ==> s[j] != c,
            None => forall|j: int| from <= j < s.len() ==> s[j] != c,
        },
    decreases s.len() - from,
{
    if from < s.len() && s[from] != c {
        lemma_first_char_from(s, c, from + 1);
    }
}

/// Executable `first_char_from`.
pub fn find_char(s: &Vec<char>, c: char, from: usize) -> (r: Option<usize>)
    ensures
        match r {
            Some(i) => first_char_from(s@, c, from as int) == Some(i as int) && from <= i < s@.len()
                && s@[i as int] == c,
            None => first_char_from(s@, c, from as int) is None,
        },
{
    proof {
        lemma_first_char_from(s@, c, from as int);
    }
    let mut i = from;
    while i < s.len()
        invariant
            from <= i,
            first_char_from(s@, c, from as int) == first_char_from(s@, c, i as int),
        decreases s@.len() - i,
    {
        if s[i] == c {
            return Some(i);
        }
        i = i + 1;
    }
    None
}

/// Position of the last occurrence of `c` in `s`, if any.
pub open spec fn last_char(s: Seq<char>, c: char) -> Option<int>
    decreases s.len(),
{
    if s.len() == 0 {
        None
    } else if s.last() == c {
        Some(s.len() - 1)
    } else {
        last_char(s.drop_last(), c)
    }
}

pub proof fn lemma_last_char(s: Seq<char>, c: char)
    ensures
        match last_char(s, c) {
            Some(i) => 0 <= i < s.len() && s[i] == c && forall|j: int|
                i < j < s.len() ==> s[j] != c,
            None => forall|j: int| 0 <= j < s.len() ==> s[j] != c,
        },
    decreases s.len(),
{
    if s.len() > 0 && s.last() != c {
        lemma_last_char(s.drop_last(), c);
        assert forall|j: int| 0 <= j < s.len() - 1 implies s[j] == s.drop_last()[j] by {}
    }
}

/// Executable `last_char` (`str::rfind` of a character) over the first `n`
/// characters of `s`.
pub fn rfind_char(s: &Vec<char>, c: char, n: usize) -> (r: Option<usize>)
    requires
        n <= s@.len(),
    ensures
        match r {
            Some(i) => last_char(s@.take(n as int), c) == Some(i as int) && i < n,
            None => last_char(s@.take(n as int), c) is None,
        },
{
    let mut j = n;
    while j > 0
        invariant
            j <= n <= s@.len(),
            last_char(s@.take(n as int), c) == last_char(s@.take(j as int), c),
        decreases j,
    {
        assert(s@.take(j as int).drop_last() =~= s@.take(j - 1));
        if s[j - 1] == c {
            assert(s@.take(j as int).last() == c);
            return Some(j - 1);
        }
        j = j - 1;
    }
    None
}

// ─── Lines ──────────────────────────────────────────────────────────────────
/// A line as `str::lines` yields it: the text up to a `\n`, without a `\r`
/// that directly precedes that `\n`.
pub open spec fn strip_cr(s: Seq<char>) -> Seq<char> {
    if s.len() > 0 && s.last() == '\r' {
        s.drop_last()
    } else {
        s
    }
}

/// The lines of `s`, as `str::lines` splits them: at each `\n` (a `\r` before
/// it is dropped); a final line ending yields no empty last line.
pub open spec fn lines_of(s: Seq<char>) -> Seq<Seq<char>>
    decreases s.len(),
{
    if s.len() == 0 {
        Seq::empty()
    } else {
        match first_char_from(s, '\n', 0) {
            None => seq![s],
            Some(i) => {
                if 0 <= i < s.len() {
                    seq![strip_cr(s.take(i))] + lines_of(s.skip(i + 1))
                } else {
                    Seq::empty()
                }
            },
        }
    }
}

/// No `\n` occurs in `s`.
pub open spec fn no_newline(s: Seq<char>) -> bool {
    forall|k: int| 0 <= k < s.len() ==> s[k] != '\n'
}

pub proof fn lemma_lines_no_newline(s: Seq<char>)
    ensures
        forall|k: int| 0 <= k < lines_of(s).len() ==> no_newline(#[trigger] lines_of(s)[k]),
    decreases s.len(),
{
    if s.len() > 0 {
        lemma_first_char_from(s, '\n', 0);
        match first_char_from(s, '\n', 0) {
            None => {},
            Some(i) => {
                lemma_lines_no_newline(s.skip(i + 1));
                let head = strip_cr(s.take(i));
                assert(no_newline(head));
                let rest = lines_of(s.skip(i + 1));
                assert forall|k: int| 0 <= k < lines_of(s).len() implies no_newline(
                    #[trigger] lines_of(s)[k],
                ) by {
                    if k > 0 {
                        assert(lines_of(s)[k] == rest[k - 1]);
                    }
                }
            },
        }
    }
}

/// `str::lines` on a character vector.
pub fn split_lines(s: &Vec<char>) -> (r: Vec<Vec<char>>)
    ensures
        r@.len() == lines_of(s@).len(),
        forall|k: int| 0 <= k < r@.len() ==> (#[trigger] r@[k])@ == lines_of(s@)[k],
{
    let mut r: Vec<Vec<char>> = Vec::new();
    let mut start: usize = 0;
    assert(s@.skip(0) =~= s@);
    while start < s.len()
        invariant
            start <= s@.len(),
            r@.len() + lines_of(s@.skip(start as int)).len() == lines_of(s@).len(),
            forall|k: int| 0 <= k < r@.len() ==> (#[trigger] r@[k])@ == lines_of(s@)[k],
            forall|k: int|
                0 <= k < lines_of(s@.skip(start as int)).len() ==> #[trigger] lines_of(
                    s@.skip(start as int),
                )[k] == lines_of(s@)[r@.len() + k],
        decreases s@.len() - start,
    {
        let ghost t = s@.skip(start as int);
        let ghost old_len = r@.len();
        let ghost old_r = r@;
        proof {
            lemma_first_char_from(t, '\n', 0);
            lemma_first_char_from(s@, '\n', start as int);
        }
        match find_char(s, '\n', start) {
            None => {
                proof {
                    assert(first_char_from(t, '\n', 0) is None) by {
                        match first_char_from(t, '\n', 0) {
                            Some(i) => {
                                assert(s@[start + i] == t[i]);
                            },
                            None => {},
                        }
                    }
                    assert(lines_of(t) == seq![t]);
                }
                let line = slice_vec(s, start, s.len());
                proof {
                    assert(line@ =~= t);
                }
                r.push(line);
                start = s.len();
                proof {
                    assert(s@.skip(start as int).len() == 0);
                    assert(lines_of(s@.skip(start as int)) =~= Seq::<Seq<char>>::empty());
                    assert(lines_of(t)[0] == lines_of(s@)[old_len as int]);
                    assert forall|k: int| 0 <= k < r@.len() implies (#[trigger] r@[k])@
                        == lines_of(s@)[k] by {
                        if k < old_len {
                            assert(r@[k] == old_r[k]);
                        }
                    }
                }
            },
            Some(i) => {
                let ghost ti = i - start;
                proof {
                    assert(first_char_from(t, '\n', 0) == Some(ti)) by {
                        match first_char_from(t, '\n', 0) {
                            Some(j) => {
                                assert(s@[start + j] == t[j]);
                                if j < ti {
                                    assert(s@[start + j] != '\n');
                                }
                                if j > ti {
                                    assert(t[ti] == s@[i as int]);
                                }
                            },
                            None => {
                                assert(t[ti] == s@[i as int]);
                            },
                        }
                    }
                    assert(t.skip(ti + 1) =~= s@.skip(i + 1));
                    assert(t.take(ti) =~= s@.subrange(start as int, i as int));
                    assert(lines_of(t) == seq![strip_cr(t.take(ti))] + lines_of(
                        s@.skip(i + 1),
                    ));
                }
                let mut end = i;
                if end > start && s[end - 1] == '\r' {
                    end = end - 1;
                }
                let line = slice_vec(s, start, end);
                proof {
                    assert(line@ =~= strip_cr(t.take(ti)));
                }
                r.push(line);
                start = i + 1;
                proof {
                    let u = s@.skip(start as int);
                    assert forall|k: int| 0 <= k < lines_of(u).len() implies #[trigger] lines_of(u)[k]
                        == lines_of(s@)[r@.len() + k] by {
                        assert(lines_of(t)[k + 1] == lines_of(u)[k]);
                        assert(lines_of(t)[k + 1] == lines_of(s@)[old_len + k + 1]);
                    }
                    assert(lines_of(t)[0] == lines_of(s@)[old_len as int]);
                    assert forall|k: int| 0 <= k < r@.len() implies (#[trigger] r@[k])@
                        == lines_of(s@)[k] by {
                        if k < old_len {
                            assert(r@[k] == old_r[k]);
                        }
                    }
                }
            },
        }
    }
    proof {
        assert(s@.skip(start as int).len() == 0);
        assert(lines_of(s@.skip(start as int)) =~= Seq::<Seq<char>>::empty());
    }
    r
}

// ─── Paths ──────────────────────────────────────────────────────────────────
/// `name` joined below directory `dir` with `/` (what `Path::join` gives for
/// a relative `name`): `name` alone where `dir` is empty, no second `/` where
/// `dir` ends with one.
pub open spec fn joined(dir: Seq<char>, name: Seq<char>) -> Seq<char> {
    if dir.len() == 0 {
        name
    } else if dir.last() == '/' {
        dir + name
    } else {
        dir + "/"@ + name
    }
}

/// Writes `joined`.
pub fn join_path(dir: &str, name: &str) -> (r: String)
    ensures
        r@ == joined(dir@, name@),
{
    let d = chars_of(dir);
    if d.len() == 0 {
        str_to_string(name)
    } else if d[d.len() - 1] == '/' {
        concat(dir, name)
    } else {
        let mut r = concat(dir, "/");
        push_str(&mut r, name);
        r
    }
}

/// The first position `k` at or after `i`, within both lists, whose flag is
/// set.
pub open spec fn first_flagged(flags: Seq<bool>, n: int, i: int) -> Option<int>
    decreases n - i,
{
    if i < 0 || i >= n || i >= flags.len() {
        None
    } else if flags[i] {
        Some(i)
    } else {
        first_flagged(flags, n, i + 1)
    }
}

pub proof fn lemma_first_flagged(flags: Seq<bool>, n: int, i: int)
    requires
        0 <= i,
    ensures
        match first_flagged(flags, n, i) {
            Some(k) => i <= k < n && k < flags.len() && flags[k] && forall|j: int|
                i <= j < k ==> !#[trigger] flags[j],
            None => forall|j: int| i <= j < n && j < flags.len() ==> !#[trigger] flags[j],
        },
    decreases n - i,
{
    if !(i < 0 || i >= n || i >= flags.len()) && !flags[i] {
        lemma_first_flagged(flags, n, i + 1);
    }
}

/// The first of `candidates` whose flag in `flags` is set (the flags say,
/// for instance, which files exist); `None` where no flag is set.
pub fn first_flagged_of(candidates: &Vec<String>, flags: &Vec<bool>) -> (r: Option<String>)
    ensures
        match first_flagged(flags@, candidates@.len() as int, 0) {
            Some(k) => r matches Some(s) && s@ == candidates@[k]@,
            None => r is None,
        },
{
    let mut i: usize = 0;
    while i < candidates.len() && i < flags.len()
        invariant
            i <= candidates@.len(),
            first_flagged(flags@, candidates@.len() as int, 0) == first_flagged(
                flags@,
                candidates@.len() as int,
                i as int,
            ),
        decreases candidates@.len() - i,
    {
        if flags[i] {
            return Some(candidates[i].clone());
        }
        i = i + 1;
    }
    None
}

// ─── UTF-8 lengths and byte positions ───────────────────────────────────────
/// The number of bytes of the UTF-8 encoding of `c`.
pub open spec fn utf8_width(c: char) -> nat {
    let n = c as u32;
    if n < 0x80 {
        1
    } else if n < 0x800 {
        2
    } else if n < 0x10000 {
        3
    } else {
        4
    }
}

/// The length in bytes of the UTF-8 encoding of `s` (`str::len`).
pub open spec fn utf8_len(s: Seq<char>) -> nat
    decreases s.len(),
{
    if s.len() == 0 {
        0
    } else {
        utf8_len(s.drop_last()) + utf8_width(s.last())
    }
}

pub proof fn lemma_utf8_len_concat(a: Seq<char>, b: Seq<char>)
    ensures
        utf8_len(a + b) == utf8_len(a) + utf8_len(b),
    decreases b.len(),
{
    if b.len() > 0 {
        assert((a + b).drop_last() =~= a + b.drop_last());
        lemma_utf8_len_concat(a, b.drop_last());
    } else {
        assert(a + b =~= a);
    }
}

pub proof fn lemma_utf8_len_bound(s: Seq<char>)
    ensures
        utf8_len(s) <= 4 * s.len(),
    decreases s.len(),
{
    if s.len() > 0 {
        lemma_utf8_len_bound(s.drop_last());
    }
}

/// Writes `utf8_width`.
pub fn char_bytes(c: char) -> (r: u128)
    ensures
        r == utf8_width(c),
{
    let n = c as u32;
    if n < 0x80 {
        1
    } else if n < 0x800 {
        2
    } else if n < 0x10000 {
        3
    } else {
        4
    }
}

/// Writes `utf8_len`.
pub fn bytes_of(w: &Vec<char>) -> (r: u128)
    ensures
        r == utf8_len(w@),
        r <= 4 * w@.len(),
{
    let mut n: u128 = 0;
    let mut m: usize = 0;
    while m < w.len()
        invariant
            m <= w@.len(),
            n == utf8_len(w@.take(m as int)),
            n <= 4 * m,
        decreases w@.len() - m,
    {
        assert(w@.take(m + 1).drop_last() =~= w@.take(m as int));
        n = n + char_bytes(w[m]);
        m = m + 1;
    }
    assert(w@.take(m as int) =~= w@);
    n
}


/// The byte offset of character position `k` of `s` (the length in bytes of
/// its first `k` characters).
pub open spec fn byte_pos(s: Seq<char>, k: int) -> nat {
    utf8_len(s.take(k))
}

/// The first character position at or after `i` whose byte offset is `b`
/// (`s.len() + 1` where there is none).
pub open spec fn char_pos_from(s: Seq<char>, b: int, i: int) -> int
    decreases s.len() + 1 - i,
{
    if i < 0 || i > s.len() {
        s.len() + 1int
    } else if byte_pos(s, i) == b {
        i
    } else {
        char_pos_from(s, b, i + 1)
    }
}

/// The character position at byte offset `b` of `s`: within `0..=s.len()`
/// exactly where `b` falls between two characters (or at an end).
pub open spec fn char_pos(s: Seq<char>, b: int) -> int {
    char_pos_from(s, b, 0)
}

/// `b` is a character boundary of `s` (`str::is_char_boundary`).
pub open spec fn on_boundary(s: Seq<char>, b: int) -> bool {
    char_pos(s, b) <= s.len()
}

pub proof fn lemma_byte_pos_step(s: Seq<char>, k: int)
    requires
        0 <= k < s.len(),
    ensures
        byte_pos(s, k + 1) == byte_pos(s, k) + utf8_width(s[k]),
{
    assert(s.take(k + 1).drop_last() =~= s.take(k));
}

/// Byte offsets rise strictly with character positions and end at the
/// length in bytes.
pub proof fn lemma_byte_pos_mono(s: Seq<char>, j: int, k: int)
    requires
        0 <= j <= k <= s.len(),
    ensures
        byte_pos(s, j) + (k - j) <= byte_pos(s, k),
        byte_pos(s, k) <= utf8_len(s),
        byte_pos(s, s.len() as int) == utf8_len(s),
    decreases k - j,
{
    assert(s.take(s.len() as int) =~= s);
    lemma_byte_pos_le_len(s, k);
    if j < k {
        lemma_byte_pos_mono(s, j, k - 1);
        lemma_byte_pos_step(s, k - 1);
    }
}

proof fn lemma_byte_pos_le_len(s: Seq<char>, k: int)
    requires
        0 <= k <= s.len(),
    ensures
        byte_pos(s, k) <= utf8_len(s),
    decreases s.len() - k,
{
    assert(s.take(s.len() as int) =~= s);
    if k < s.len() {
        lemma_byte_pos_step(s, k);
        lemma_byte_pos_le_len(s, k + 1);
    }
}

/// The character position of the byte offset of position `k` is `k`.
pub proof fn lemma_char_pos_of(s: Seq<char>, k: int)
    requires
        0 <= k <= s.len(),
    ensures
        char_pos(s, byte_pos(s, k) as int) == k,
{
    lemma_char_pos_from(s, k, 0);
}

proof fn lemma_char_pos_from(s: Seq<char>, k: int, i: int)
    requires
        0 <= i <= k <= s.len(),
    ensures
        char_pos_from(s, byte_pos(s, k) as int, i) == k,
    decreases k - i,
{
    if i < k {
        lemma_byte_pos_mono(s, i, k);
        lemma_char_pos_from(s, k, i + 1);
    }
}

/// A boundary's character position gives it back.
pub proof fn lemma_on_boundary(s: Seq<char>, b: int)
    requires
        on_boundary(s, b),
    ensures
        0 <= char_pos(s, b) <= s.len(),
        byte_pos(s, char_pos(s, b)) == b,
{
    lemma_char_pos_found(s, b, 0);
}

proof fn lemma_char_pos_found(s: Seq<char>, b: int, i: int)
    requires
        0 <= i,
        char_pos_from(s, b, i) <= s.len(),
    ensures
        i <= char_pos_from(s, b, i) <= s.len(),
        byte_pos(s, char_pos_from(s, b, i)) == b,
    decreases s.len() + 1 - i,
{
    if i <= s.len() && byte_pos(s, i) != b {
        lemma_char_pos_found(s, b, i + 1);
    }
}

/// Positions before `a.len()` have the same byte offsets in `a + b` as in `a`.
pub proof fn lemma_byte_pos_prefix(a: Seq<char>, b: Seq<char>, k: int)
    requires
        0 <= k <= a.len(),
    ensures
        byte_pos(a + b, k) == byte_pos(a, k),
{
    assert((a + b).take(k) =~= a.take(k));
}

pub proof fn lemma_utf8_single(c: char)
    ensures
        utf8_len(seq![c]) == utf8_width(c),
{
    assert(seq![c].drop_last() =~= Seq::<char>::empty());
    assert(utf8_len(Seq::<char>::empty()) == 0);
}

pub proof fn lemma_utf8_take_skip(s: Seq<char>, k: int)
    requires
        0 <= k <= s.len(),
    ensures
        utf8_len(s) == utf8_len(s.take(k)) + utf8_len(s.skip(k)),
{
    assert(s =~= s.take(k) + s.skip(k));
    lemma_utf8_len_concat(s.take(k), s.skip(k));
}

pub proof fn lemma_utf8_trim_start(s: Seq<char>)
    ensures
        utf8_len(trim_start(s)) <= utf8_len(s),
    decreases s.len(),
{
    if s.len() > 0 && is_ws(s[0]) {
        lemma_utf8_trim_start(s.drop_first());
        lemma_utf8_take_skip(s, 1);
        assert(s.skip(1) =~= s.drop_first());
    }
}

pub proof fn lemma_utf8_trim_end(s: Seq<char>)
    ensures
        utf8_len(trim_end(s)) <= utf8_len(s),
    decreases s.len(),
{
    if s.len() > 0 && is_ws(s.last()) {
        lemma_utf8_trim_end(s.drop_last());
    }
}

/// Trimming never lengthens a text.
pub proof fn lemma_utf8_trim(s: Seq<char>)
    ensures
        utf8_len(trim(s)) <= utf8_len(s),
{
    lemma_utf8_trim_start(s);
    lemma_utf8_trim_end(trim_start(s));
}

/// Writes `on_boundary`.
pub fn is_boundary(v: &Vec<char>, b: usize) -> (r: bool)
    ensures
        r == on_boundary(v@, b as int),
{
    let mut n: u128 = 0;
    let mut i: usize = 0;
    assert(v.len() == v@.len());
    while n < b as u128 && i < v.len()
        invariant
            i <= v@.len(),
            n == byte_pos(v@, i as int),
            forall|j: int| 0 <= j < i ==> byte_pos(v@, j) < b,
        decreases v@.len() - i,
    {
        proof {
            lemma_byte_pos_step(v@, i as int);
        }
        n = n + char_bytes(v[i]);
        i = i + 1;
    }
    proof {
        if n == b {
            lemma_char_pos_of(v@, i as int);
        } else {
            // every position's offset differs from `b`
            assert forall|j: int| 0 <= j <= v@.len() implies byte_pos(v@, j) != b by {
                if j > i {
                    lemma_byte_pos_mono(v@, i as int, j);
                }
            }
            lemma_char_pos_missing(v@, b as int, 0);
        }
    }
    n == b as u128
}

proof fn lemma_char_pos_missing(s: Seq<char>, b: int, i: int)
    requires
        0 <= i,
        forall|j: int| 0 <= j <= s.len() ==> byte_pos(s, j) != b,
    ensures
        char_pos_from(s, b, i) == s.len() + 1,
    decreases s.len() + 1 - i,
{
    if i <= s.len() {
        lemma_char_pos_missing(s, b, i + 1);
    }
}

/// Writes `byte_pos` for a text whose length in bytes fits a `usize`.
pub fn byte_offset(v: &Vec<char>, k: usize) -> (r: usize)
    requires
        k <= v@.len(),
        utf8_len(v@) <= usize::MAX,
    ensures
        r == byte_pos(v@, k as int),
{
    let mut n: u128 = 0;
    let mut i: usize = 0;
    while i < k
        invariant
            i <= k <= v@.len(),
            n == byte_pos(v@, i as int),
            utf8_len(v@) <= usize::MAX,
        decreases k - i,
    {
        proof {
            lemma_byte_pos_step(v@, i as int);
            lemma_byte_pos_mono(v@, i + 1, v@.len() as int);
        }
        n = n + char_bytes(v[i]);
        i = i + 1;
    }
    proof {
        lemma_byte_pos_mono(v@, k as int, v@.len() as int);
    }
    n as usize
}

/// Writes `char_pos` for a boundary.
pub fn char_offset(v: &Vec<char>, b: usize) -> (k: usize)
    requires
        on_boundary(v@, b as int),
    ensures
        k == char_pos(v@, b as int),
{
    proof {
        lemma_on_boundary(v@, b as int);
    }
    let ghost target = char_pos(v@, b as int);
    assert(v.len() == v@.len());
    let mut n: u128 = 0;
    let mut i: usize = 0;
    while n < b as u128
        invariant
            0 <= i <= target <= v@.len() <= usize::MAX,
            n == byte_pos(v@, i as int),
            byte_pos(v@, target) == b,
            target == char_pos(v@, b as int),
        decreases target - i,
    {
        proof {
            if i == target {
                assert(false);
            }
            lemma_byte_pos_step(v@, i as int);
            lemma_byte_pos_mono(v@, i + 1, target);
        }
        n = n + char_bytes(v[i]);
        i = i + 1;
    }
    proof {
        lemma_byte_pos_mono(v@, i as int, target);
        lemma_char_pos_of(v@, i as int);
    }
    i
}

// ─── Case ───────────────────────────────────────────────────────────────────
/// What `str::to_lowercase` returns for a string with these characters.
pub uninterp spec fn lowercase(s: Seq<char>) -> Seq<char>;

/// `str::to_lowercase`: the Unicode lowercase mapping of `s`; the result is a
/// function of the characters of `s` alone (no locale is consulted).
#[verifier::external_body]
pub fn to_lower(s: &str) -> (r: String)
    ensures
        r@ == lowercase(s@),
{
    s.to_lowercase()
}

/// What `str::to_uppercase` returns for a string with these characters.
pub uninterp spec fn uppercase(s: Seq<char>) -> Seq<char>;

/// `str::to_uppercase`: the Unicode uppercase mapping of `s`; the result is a
/// function of the characters of `s` alone (no locale is consulted).
#[verifier::external_body]
pub fn to_upper(s: &str) -> (r: String)
    ensures
        r@ == uppercase(s@),
{
    s.to_uppercase()
}

/// ASCII lowercase of one character (`char::to_ascii_lowercase`).
pub open spec fn ascii_lower(c: char) -> char {
    if 'A' <= c <= 'Z' {
        ((c as u32) + 32) as char
    } else {
        c
    }
}

/// Executable `ascii_lower`.
pub fn to_ascii_lower(c: char) -> (r: char)
    ensures
        r == ascii_lower(c),
{
    if 'A' <= c && c <= 'Z' {
        ((c as u8) + 32) as char
    } else {
        c
    }
}

/// `a` and `b` are equal up to ASCII case (`str::eq_ignore_ascii_case`).
pub open spec fn eq_ignore_ascii_case(a: Seq<char>, b: Seq<char>) -> bool {
    a.len() == b.len() && forall|k: int| 0 <= k < a.len() ==> ascii_lower(a[k]) == ascii_lower(b[k])
}

/// `p` occurs at `i` in `s` up to ASCII case.
pub open spec fn occurs_at_ci(s: Seq<char>, p: Seq<char>, i: int) -> bool {
    0 <= i && i + p.len() <= s.len() && eq_ignore_ascii_case(s.subrange(i, i + p.len()), p)
}

/// Executable `occurs_at_ci`.
pub fn matches_at_ci(s: &Vec<char>, p: &Vec<char>, i: usize) -> (r: bool)
    ensures
        r == occurs_at_ci(s@, p@, i as int),
{
    if i > s.len() || p.len() > s.len() - i {
        return false;
    }
    let mut k: usize = 0;
    while k < p.len()
        invariant
            i + p@.len() <= s@.len(),
            s@.len() <= usize::MAX,
            k <= p@.len(),
            forall|j: int| 0 <= j < k ==> ascii_lower(s@[i + j]) == ascii_lower(p@[j]),
        decreases p@.len() - k,
    {
        if to_ascii_lower(s[i + k]) != to_ascii_lower(p[k]) {
            assert(s@.subrange(i as int, i + p@.len())[k as int] == s@[i + k]);
            return false;
        }
        k = k + 1;
    }
    assert forall|j: int| 0 <= j < p@.len() implies ascii_lower(
        s@.subrange(i as int, i + p@.len())[j],
    ) == ascii_lower(p@[j]) by {
        assert(s@.subrange(i as int, i + p@.len())[j] == s@[i + j]);
    }
    true
}

/// Executable `eq_ignore_ascii_case`.
pub fn chars_eq_ignore_ascii_case(a: &Vec<char>, b: &Vec<char>) -> (r: bool)
    ensures
        r == eq_ignore_ascii_case(a@, b@),
{
    if a.len() != b.len() {
        return false;
    }
    let r = matches_at_ci(a, b, 0);
    assert(a@.subrange(0, b@.len() as int) =~= a@);
    r
}

// ─── Decimal numbers ────────────────────────────────────────────────────────
/// The decimal digit for `d` (0..=9).
pub open spec fn digit(d: int) -> char {
    (('0' as u32) + (d as u32)) as char
}

/// Decimal representation of `n` without leading zeros (`"0"` for zero).
pub open spec fn decimal(n: nat) -> Seq<char>
    decreases n,
{
    if n < 10 {
        seq![digit(n as int)]
    } else {
        decimal(n / 10).push(digit((n % 10) as int))
    }
}

/// Decimal representation of a signed number (a leading `-` when negative).
pub open spec fn signed_decimal(n: int) -> Seq<char> {
    if n < 0 {
        seq!['-'] + decimal((-n) as nat)
    } else {
        decimal(n as nat)
    }
}

/// `n` written in decimal, as `format!("{}", n)` writes a `u64`.
pub fn u64_to_dec(n: u64) -> (r: String)
    ensures
        r@ == decimal(n as nat),
{
    let v = dec_chars(n);
    string_of(&v)
}

/// The decimal digits of `n`.
pub fn dec_chars(n: u64) -> (v: Vec<char>)
    ensures
        v@ == decimal(n as nat),
    decreases n,
{
    if n < 10 {
        let c = ((('0' as u8) + (n as u8)) as char);
        let mut v = Vec::new();
        v.push(c);
        assert(v@ =~= seq![digit(n as int)]);
        v
    } else {
        let mut v = dec_chars(n / 10);
        let d = n % 10;
        let c = ((('0' as u8) + (d as u8)) as char);
        v.push(c);
        v
    }
}

/// `n` written in decimal, as `format!("{}", n)` writes an `i64`.
pub fn i64_to_dec(n: i64) -> (r: String)
    ensures
        r@ == signed_decimal(n as int),
{
    if n < 0 {
        let m: u64 = if n == i64::MIN {
            9223372036854775808u64
        } else {
            (-n) as u64
        };
        let mut v: Vec<char> = Vec::new();
        v.push('-');
        let mut d = dec_chars(m);
        v.append(&mut d);
        assert(v@ =~= seq!['-'] + decimal((-(n as int)) as nat));
        string_of(&v)
    } else {
        u64_to_dec(n as u64)
    }
}

/// `n` in decimal, padded with leading zeros to at least two digits
/// (`format!("{:02}", n)`).
pub open spec fn decimal2(n: nat) -> Seq<char> {
    if n < 10 {
        seq!['0', digit(n as int)]
    } else {
        decimal(n)
    }
}

/// Executable `decimal2`.
pub fn u64_to_dec2(n: u64) -> (r: String)
    ensures
        r@ == decimal2(n as nat),
{
    if n < 10 {
        let mut v: Vec<char> = Vec::new();
        v.push('0');
        v.push(((('0' as u8) + (n as u8)) as char));
        assert(v@ =~= seq!['0', digit(n as int)]);
        string_of(&v)
    } else {
        u64_to_dec(n)
    }
}

/// The value of a run of ASCII digits.
pub open spec fn digits_value(s: Seq<char>) -> int
    decreases s.len(),
{
    if s.len() == 0 {
        0
    } else {
        digits_value(s.drop_last()) * 10 + (s.last() as int - '0' as int)
    }
}

/// Every character of `s` is an ASCII digit.
pub open spec fn all_digits(s: Seq<char>) -> bool {
    forall|k: int| 0 <= k < s.len() ==> '0' <= #[trigger] s[k] <= '9'
}


// ─── Joining and splitting at a separator ───────────────────────────────────
/// The items joined with `sep` between each two (`[..].join(sep)`).
pub open spec fn join(items: Seq<Seq<char>>, sep: Seq<char>) -> Seq<char>
    decreases items.len(),
{
    if items.len() == 0 {
        Seq::empty()
    } else if items.len() == 1 {
        items[0]
    } else {
        join(items.drop_last(), sep) + sep + items.last()
    }
}

/// Executable `join`.
pub fn join_strings(items: &Vec<String>, sep: &str) -> (r: String)
    ensures
        r@ == join(Seq::new(items@.len(), |i: int| items@[i]@), sep@),
{
    let ghost all = Seq::new(items@.len(), |i: int| items@[i]@);
    let mut r = String::new();
    let mut i: usize = 0;
    while i < items.len()
        invariant
            i <= items@.len(),
            all == Seq::new(items@.len(), |i: int| items@[i]@),
            r@ == join(all.take(i as int), sep@),
        decreases items@.len() - i,
    {
        assert(all.take(i + 1).drop_last() =~= all.take(i as int));
        if i > 0 {
            push_str(&mut r, sep);
        } else {
            assert(r@ =~= Seq::<char>::empty());
        }
        push_str(&mut r, items[i].as_str());
        i = i + 1;
    }
    assert(all.take(i as int) =~= all);
    r
}

/// The text after the last `/` of `s`, or all of `s` where it has none
/// (`s.split('/').last()`).
pub open spec fn last_segment(s: Seq<char>) -> Seq<char> {
    match last_char(s, '/') {
        Some(i) => s.skip(i + 1),
        None => s,
    }
}

/// Executable `last_segment`.
pub fn after_last_slash(s: &str) -> (r: String)
    ensures
        r@ == last_segment(s@),
{
    let v = chars_of(s);
    let n = v.len();
    assert(v@.take(n as int) =~= v@);
    match rfind_char(&v, '/', n) {
        Some(i) => {
            let t = slice_vec(&v, i + 1, n);
            assert(t@ =~= v@.skip(i + 1));
            string_of(&t)
        },
        None => str_to_string(s),
    }
}

} // verus!
