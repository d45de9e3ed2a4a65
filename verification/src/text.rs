//! Sequences of characters: occurrence of a pattern, first occurrence and
//! splitting on a separator, with executable counterparts on `&str`.

use vstd::prelude::*;
use vstd::string::*;

verus! {

/// `pat` stands in `s` at index `i`.
pub open spec fn occurs_at(s: Seq<char>, pat: Seq<char>, i: int) -> bool {
    0 <= i && i + pat.len() <= s.len() && s.subrange(i, i + pat.len()) =~= pat
}

/// `pat` stands somewhere in `s`.
pub open spec fn contains(s: Seq<char>, pat: Seq<char>) -> bool {
    exists|i: int| occurs_at(s, pat, i)
}

/// `pat` is a prefix of `s`.
pub open spec fn starts_with(s: Seq<char>, pat: Seq<char>) -> bool {
    occurs_at(s, pat, 0)
}

/// The least index at or after `from` at which `pat` stands in `s`.
pub open spec fn find_from(s: Seq<char>, pat: Seq<char>, from: int) -> Option<int>
    decreases s.len() + 1 - from,
{
    if from < 0 || from + pat.len() > s.len() {
        None
    } else if occurs_at(s, pat, from) {
        Some(from)
    } else {
        find_from(s, pat, from + 1)
    }
}

/// The pieces of `s`, from index `from` on, that lie between the occurrences
/// of `sep`, taken leftmost first and without overlap. An empty separator
/// cuts nothing.
pub open spec fn split_from(s: Seq<char>, sep: Seq<char>, from: int) -> Seq<Seq<char>>
    decreases s.len() + 1 - from,
{
    if from < 0 || from > s.len() {
        seq![]
    } else {
        match find_from(s, sep, from) {
            Some(i) => if sep.len() > 0 && from <= i && i + sep.len() <= s.len() {
                seq![s.subrange(from, i)] + split_from(s, sep, i + sep.len())
            } else {
                seq![s.subrange(from, s.len() as int)]
            },
            None => seq![s.subrange(from, s.len() as int)],
        }
    }
}

/// The pieces of `s` between the occurrences of `sep`.
pub open spec fn split(s: Seq<char>, sep: Seq<char>) -> Seq<Seq<char>> {
    split_from(s, sep, 0)
}

/// Whether a character is white space: one of the twenty-five characters
/// with the Unicode property `White_Space`.
pub open spec fn is_white_space(c: char) -> bool {
    let n: u32 = c as u32;
    ||| 0x9 <= n <= 0xD
    ||| n == 0x20
    ||| n == 0x85
    ||| n == 0xA0
    ||| n == 0x1680
    ||| 0x2000 <= n <= 0x200A
    ||| n == 0x2028
    ||| n == 0x2029
    ||| n == 0x202F
    ||| n == 0x205F
    ||| n == 0x3000
}

/// The index of the first character at or after `i` that is not white space,
/// or the length if there is none.
pub open spec fn skip_white_from(s: Seq<char>, i: int) -> int
    decreases s.len() - i,
{
    if i < 0 || i >= s.len() {
        s.len() as int
    } else if !is_white_space(s[i]) {
        i
    } else {
        skip_white_from(s, i + 1)
    }
}

/// The index after the last character before `j` that is not white space, or
/// zero if there is none.
pub open spec fn skip_white_back(s: Seq<char>, j: int) -> int
    decreases j,
{
    if j <= 0 || j > s.len() {
        0
    } else if !is_white_space(s[j - 1]) {
        j
    } else {
        skip_white_back(s, j - 1)
    }
}

/// Where the trimmed text begins.
pub open spec fn trim_start(s: Seq<char>) -> int {
    skip_white_from(s, 0)
}

/// Where the trimmed text ends.
pub open spec fn trim_end(s: Seq<char>) -> int {
    if trim_start(s) == s.len() {
        s.len() as int
    } else {
        skip_white_back(s, s.len() as int)
    }
}

/// A text without its leading and trailing white space.
pub open spec fn trimmed(s: Seq<char>) -> Seq<char> {
    s.subrange(trim_start(s), trim_end(s))
}

/// The parts with `sep` between each two.
pub open spec fn joined(parts: Seq<Seq<char>>, sep: Seq<char>) -> Seq<char>
    decreases parts.len(),
{
    if parts.len() == 0 {
        Seq::<char>::empty()
    } else if parts.len() == 1 {
        parts[0]
    } else {
        joined(parts.drop_last(), sep) + sep + parts.last()
    }
}

/// The views of a sequence of strings.
pub open spec fn views(v: Seq<String>) -> Seq<Seq<char>> {
    Seq::new(v.len(), |i: int| v[i]@)
}

/// `find_from` gives the first occurrence at or after `from`, and `None`
/// exactly when there is none.
pub proof fn lemma_find_from(s: Seq<char>, pat: Seq<char>, from: int)
    requires
        0 <= from,
    ensures
        match find_from(s, pat, from) {
            Some(i) => from <= i && occurs_at(s, pat, i) && forall|j: int|
                from <= j < i ==> !occurs_at(s, pat, j),
            None => forall|j: int| from <= j ==> !occurs_at(s, pat, j),
        },
    decreases s.len() + 1 - from,
{
    if from + pat.len() > s.len() {
    } else if occurs_at(s, pat, from) {
    } else {
        lemma_find_from(s, pat, from + 1);
    }
}

/// A search from the start finds something exactly when the pattern occurs.
pub proof fn lemma_find_contains(s: Seq<char>, pat: Seq<char>)
    ensures
        find_from(s, pat, 0) is Some <==> contains(s, pat),
{
    lemma_find_from(s, pat, 0);
}

/// Splitting always gives at least one piece, and at least two when a
/// non-empty separator occurs at or after `from`.
pub proof fn lemma_split_len(s: Seq<char>, sep: Seq<char>, from: int)
    requires
        0 <= from <= s.len(),
    ensures
        split_from(s, sep, from).len() >= 1,
        sep.len() > 0 && find_from(s, sep, from) is Some ==> split_from(s, sep, from).len() >= 2,
    decreases s.len() + 1 - from,
{
    lemma_find_from(s, sep, from);
    match find_from(s, sep, from) {
        Some(i) => {
            if sep.len() > 0 {
                lemma_split_len(s, sep, i + sep.len());
            }
        },
        None => {},
    }
}

/// Joining a part put in front of others gives the part, the separator and
/// the others joined.
pub proof fn lemma_joined_front(first: Seq<char>, rest: Seq<Seq<char>>, sep: Seq<char>)
    requires
        rest.len() > 0,
    ensures
        joined(seq![first] + rest, sep) == first + sep + joined(rest, sep),
    decreases rest.len(),
{
    let all = seq![first] + rest;
    if rest.len() == 1 {
        assert(all.drop_last() =~= seq![first]);
        assert(joined(all.drop_last(), sep) == first);
        assert(all.last() == rest[0]);
    } else {
        assert(all.drop_last() =~= seq![first] + rest.drop_last());
        lemma_joined_front(first, rest.drop_last(), sep);
        assert(all.last() == rest.last());
        assert(joined(all, sep) =~= first + sep + joined(rest, sep));
    }
}

/// Splitting loses nothing: the pieces from `from` on, joined again with the
/// separator, are the text from `from` on.
pub proof fn lemma_split_joins(s: Seq<char>, sep: Seq<char>, from: int)
    requires
        0 <= from <= s.len(),
    ensures
        joined(split_from(s, sep, from), sep) == s.subrange(from, s.len() as int),
    decreases s.len() + 1 - from,
{
    lemma_find_from(s, sep, from);
    lemma_split_len(s, sep, from);
    match find_from(s, sep, from) {
        Some(i) => {
            if sep.len() > 0 {
                let next = i + sep.len();
                let rest = split_from(s, sep, next);
                lemma_split_joins(s, sep, next);
                lemma_split_len(s, sep, next);
                lemma_joined_front(s.subrange(from, i), rest, sep);
                assert(s.subrange(i, next) =~= sep);
                assert(s.subrange(from, s.len() as int) =~= s.subrange(from, i) + s.subrange(
                    i,
                    next,
                ) + s.subrange(next, s.len() as int));
            }
        },
        None => {},
    }
}

/// Skipping forward stops at the first character that is not white space.
pub proof fn lemma_skip_white_from(s: Seq<char>, i: int)
    requires
        0 <= i <= s.len(),
    ensures
        i <= skip_white_from(s, i) <= s.len(),
        forall|k: int| i <= k < skip_white_from(s, i) ==> is_white_space(#[trigger] s[k]),
        skip_white_from(s, i) < s.len() ==> !is_white_space(s[skip_white_from(s, i)]),
    decreases s.len() - i,
{
    if i < s.len() && is_white_space(s[i]) {
        lemma_skip_white_from(s, i + 1);
    }
}

/// Skipping backward stops after the last character that is not white space.
pub proof fn lemma_skip_white_back(s: Seq<char>, j: int)
    requires
        0 <= j <= s.len(),
    ensures
        0 <= skip_white_back(s, j) <= j,
        forall|k: int| skip_white_back(s, j) <= k < j ==> is_white_space(#[trigger] s[k]),
        skip_white_back(s, j) > 0 ==> !is_white_space(s[skip_white_back(s, j) - 1]),
    decreases j,
{
    if j > 0 && is_white_space(s[j - 1]) {
        lemma_skip_white_back(s, j - 1);
    }
}

/// Trimming takes away white space and nothing else: the text is a run of
/// white space, the trimmed text, and a run of white space, and the trimmed
/// text neither begins nor ends with white space.
pub proof fn lemma_trimmed(s: Seq<char>)
    ensures
        0 <= trim_start(s) <= trim_end(s) <= s.len(),
        s == s.subrange(0, trim_start(s)) + trimmed(s) + s.subrange(
            trim_end(s),
            s.len() as int,
        ),
        forall|k: int| 0 <= k < trim_start(s) ==> is_white_space(#[trigger] s[k]),
        forall|k: int| trim_end(s) <= k < s.len() ==> is_white_space(#[trigger] s[k]),
        trimmed(s).len() > 0 ==> !is_white_space(trimmed(s).first()) && !is_white_space(
            trimmed(s).last(),
        ),
{
    lemma_skip_white_from(s, 0);
    lemma_skip_white_back(s, s.len() as int);
    let a = trim_start(s);
    let b = trim_end(s);
    if a < s.len() {
        if b <= a {
            assert(is_white_space(s[a]));
        }
    }
    assert(s =~= s.subrange(0, a) + trimmed(s) + s.subrange(b, s.len() as int));
}

/// A text that neither begins nor ends with white space is its own trimmed
/// text.
pub proof fn lemma_trimmed_fixed(s: Seq<char>)
    requires
        s.len() > 0 ==> !is_white_space(s.first()) && !is_white_space(s.last()),
    ensures
        trimmed(s) == s,
{
    assert(trimmed(s) =~= s);
}

/// The characters of a string.
pub fn to_chars(s: &str) -> (r: Vec<char>)
    ensures
        r@ == s@,
{
    let n: usize = s.unicode_len();
    let mut r: Vec<char> = Vec::new();
    let mut i: usize = 0;
    while i < n
        invariant
            n == s@.len(),
            i <= n,
            r@ == s@.subrange(0, i as int),
        decreases n - i,
    {
        r.push(s.get_char(i));
        i += 1;
        assert(r@ =~= s@.subrange(0, i as int));
    }
    assert(s@.subrange(0, n as int) =~= s@);
    r
}

/// Whether `pat` stands in `s` at index `i`.
pub fn chars_occur_at(s: &Vec<char>, pat: &Vec<char>, i: usize) -> (r: bool)
    ensures
        r == occurs_at(s@, pat@, i as int),
{
    let n: usize = s.len();
    let m: usize = pat.len();
    if m > n || i > n - m {
        return false;
    }
    let mut k: usize = 0;
    while k < m
        invariant
            n == s@.len(),
            m == pat@.len(),
            i + m <= n,
            k <= m,
            forall|j: int| 0 <= j < k ==> s@[i + j] == pat@[j],
        decreases m - k,
    {
        if s[i + k] != pat[k] {
            assert(s@.subrange(i as int, i + m)[k as int] == s@[i + k]);
            return false;
        }
        k += 1;
    }
    assert(s@.subrange(i as int, i + m) =~= pat@);
    true
}

/// The first index at or after `from` at which `pat` stands in `s`.
pub fn chars_find(s: &Vec<char>, pat: &Vec<char>, from: usize) -> (r: Option<usize>)
    ensures
        match r {
            Some(i) => find_from(s@, pat@, from as int) == Some(i as int),
            None => find_from(s@, pat@, from as int) is None,
        },
{
    let n: usize = s.len();
    let m: usize = pat.len();
    proof {
        lemma_find_from(s@, pat@, from as int);
    }
    if m > n || from > n - m {
        return None;
    }
    let last: usize = n - m;
    let mut i: usize = from;
    loop
        invariant
            n == s@.len(),
            m == pat@.len(),
            last == n - m,
            from <= i <= last,
            forall|j: int| from <= j < i ==> !occurs_at(s@, pat@, j),
        decreases last - i,
    {
        proof {
            lemma_find_from(s@, pat@, from as int);
        }
        if chars_occur_at(s, pat, i) {
            return Some(i);
        }
        if i == last {
            return None;
        }
        i += 1;
    }
}

/// Whether `pat` stands somewhere in `s`.
pub fn str_contains(s: &str, pat: &str) -> (r: bool)
    ensures
        r == contains(s@, pat@),
{
    let sc = to_chars(s);
    let pc = to_chars(pat);
    proof {
        lemma_find_contains(s@, pat@);
    }
    chars_find(&sc, &pc, 0).is_some()
}

/// Whether `pat` is a prefix of `s`.
pub fn str_starts_with(s: &str, pat: &str) -> (r: bool)
    ensures
        r == starts_with(s@, pat@),
{
    let sc = to_chars(s);
    let pc = to_chars(pat);
    chars_occur_at(&sc, &pc, 0)
}

/// Whether a character is white space.
pub fn char_is_white_space(c: char) -> (r: bool)
    ensures
        r == is_white_space(c),
{
    let n: u32 = c as u32;
    (0x9 <= n && n <= 0xD) || n == 0x20 || n == 0x85 || n == 0xA0 || n == 0x1680 || (0x2000 <= n
        && n <= 0x200A) || n == 0x2028 || n == 0x2029 || n == 0x202F || n == 0x205F || n == 0x3000
}

/// The text without its leading and trailing white space.
pub fn str_trim(s: &str) -> (r: &str)
    ensures
        r@ == trimmed(s@),
{
    let sc = to_chars(s);
    let n: usize = sc.len();
    let mut a: usize = 0;
    while a < n && char_is_white_space(sc[a])
        invariant
            sc@ == s@,
            n == s@.len(),
            a <= n,
            skip_white_from(s@, 0) == skip_white_from(s@, a as int),
        decreases n - a,
    {
        a += 1;
    }
    if a == n {
        return s.substring_char(n, n);
    }
    let mut b: usize = n;
    while char_is_white_space(sc[b - 1])
        invariant
            sc@ == s@,
            n == s@.len(),
            a < b <= n,
            !is_white_space(s@[a as int]),
            skip_white_back(s@, n as int) == skip_white_back(s@, b as int),
        decreases b,
    {
        b -= 1;
    }
    s.substring_char(a, b)
}

/// Whether two strings hold the same characters.
pub fn str_eq(a: &str, b: &str) -> (r: bool)
    ensures
        r == (a@ == b@),
{
    let ac = to_chars(a);
    let bc = to_chars(b);
    if ac.len() != bc.len() {
        return false;
    }
    let r = chars_occur_at(&ac, &bc, 0);
    assert(a@.subrange(0, a@.len() as int) =~= a@);
    r
}

/// The pieces of `s` between the occurrences of `sep`, leftmost first and
/// without overlap. An empty separator cuts nothing.
pub fn str_split(s: &str, sep: &str) -> (r: Vec<String>)
    ensures
        views(r@) == split(s@, sep@),
{
    let sc = to_chars(s);
    let pc = to_chars(sep);
    let n: usize = sc.len();
    let m: usize = pc.len();
    let mut parts: Vec<String> = Vec::new();
    let mut pos: usize = 0;
    assert(views(parts@) =~= Seq::<Seq<char>>::empty());
    loop
        invariant
            sc@ == s@,
            pc@ == sep@,
            n == s@.len(),
            m == sep@.len(),
            pos <= n,
            split(s@, sep@) == views(parts@) + split_from(s@, sep@, pos as int),
        decreases n - pos,
    {
        proof {
            lemma_find_from(s@, sep@, pos as int);
        }
        let found = if m == 0 {
            None
        } else {
            chars_find(&sc, &pc, pos)
        };
        let ghost before = parts@;
        match found {
            Some(i) => {
                parts.push(s.substring_char(pos, i).to_owned());
                assert(views(parts@) =~= views(before) + seq![s@.subrange(pos as int, i as int)]);
                pos = i + m;
            },
            None => {
                parts.push(s.substring_char(pos, n).to_owned());
                assert(views(parts@) =~= views(before) + seq![s@.subrange(pos as int, n as int)]);
                return parts;
            },
        }
    }
}

} // verus!
