//! Character-level text utilities shared by the other modules.
//!
//! Text is modelled as `Seq<char>`, the view of `str` and `String`. Lengths are
//! counted in characters, and every position is a character index.

use vstd::prelude::*;

verus! {

/// Whether `c` is white space for the purpose of trimming: the characters with
/// the Unicode `White_Space` property.
pub open spec fn is_whitespace(c: char) -> bool {
    let n = c as u32;
    ||| 0x09 <= n <= 0x0D
    ||| n == 0x20
    ||| n == 0x85
    ||| n == 0xA0
    ||| n == 0x1680
    ||| 0x2000 <= n <= 0x200A
    ||| n == 0x2028
    ||| n == 0x2029
    ||| n == 0x202F
    ||| n == 0x205F
    ||| n == 0x3000
}

/// `s` without its leading white space.
pub open spec fn trim_start(s: Seq<char>) -> Seq<char>
    decreases s.len(),
{
    if s.len() > 0 && is_whitespace(s[0]) {
        trim_start(s.drop_first())
    } else {
        s
    }
}

/// `s` without its trailing white space.
pub open spec fn trim_end(s: Seq<char>) -> Seq<char>
    decreases s.len(),
{
    if s.len() > 0 && is_whitespace(s.last()) {
        trim_end(s.drop_last())
    } else {
        s
    }
}

/// `s` without leading and trailing white space.
pub open spec fn trim(s: Seq<char>) -> Seq<char> {
    trim_end(trim_start(s))
}

/// Whether `s` holds nothing but white space.
pub open spec fn is_blank(s: Seq<char>) -> bool {
    trim(s).len() == 0
}

/// Whether `needle` stands in `hay` at position `i`.
pub open spec fn occurs_at(hay: Seq<char>, needle: Seq<char>, i: int) -> bool {
    &&& 0 <= i
    &&& i + needle.len() <= hay.len()
    &&& hay.subrange(i, i + needle.len()) == needle
}

/// The first position at or after `from` where `needle` stands in `hay`.
pub open spec fn find_from(hay: Seq<char>, needle: Seq<char>, from: int) -> Option<int>
    decreases hay.len() + 1 - from,
{
    if from < 0 || from + needle.len() > hay.len() {
        None
    } else if occurs_at(hay, needle, from) {
        Some(from)
    } else {
        find_from(hay, needle, from + 1)
    }
}

/// The first position where `needle` stands in `hay`.
pub open spec fn find(hay: Seq<char>, needle: Seq<char>) -> Option<int> {
    find_from(hay, needle, 0)
}

/// The first position of the character `c` in `s`.
pub open spec fn find_char(s: Seq<char>, c: char) -> Option<int> {
    find(s, seq![c])
}

/// The pieces of `s` between occurrences of `sep`. There is always at least
/// one piece; pieces may be empty.
pub open spec fn split(s: Seq<char>, sep: char) -> Seq<Seq<char>>
    decreases s.len(),
{
    match find_char(s, sep) {
        Some(i) => {
            proof {
                lemma_find_from(s, seq![sep], 0);
            }
            seq![s.take(i)] + split(s.skip(i + 1), sep)
        },
        None => seq![s],
    }
}

/// The parts in order, with `sep` between each two neighbours.
pub open spec fn join(parts: Seq<Seq<char>>, sep: Seq<char>) -> Seq<char>
    decreases parts.len(),
{
    if parts.len() == 0 {
        Seq::empty()
    } else if parts.len() == 1 {
        parts[0]
    } else {
        join(parts.drop_last(), sep) + sep + parts.last()
    }
}

/// `find_from` returns the least position at or after `from` where the needle
/// stands, and `None` exactly when there is none.
pub proof fn lemma_find_from(hay: Seq<char>, needle: Seq<char>, from: int)
    requires
        0 <= from,
    ensures
        match find_from(hay, needle, from) {
            Some(i) => {
                &&& from <= i
                &&& occurs_at(hay, needle, i)
                &&& forall|j: int| from <= j < i ==> !occurs_at(hay, needle, j)
            },
            None => forall|j: int| from <= j ==> !occurs_at(hay, needle, j),
        },
    decreases hay.len() + 1 - from,
{
    if from + needle.len() > hay.len() {
    } else if occurs_at(hay, needle, from) {
    } else {
        lemma_find_from(hay, needle, from + 1);
    }
}

/// Whether `c` is white space.
pub fn is_whitespace_char(c: char) -> (r: bool)
    ensures
        r == is_whitespace(c),
{
    let n: u32 = c as u32;
    (0x09 <= n && n <= 0x0D) || n == 0x20 || n == 0x85 || n == 0xA0 || n == 0x1680 || (0x2000 <= n
        && n <= 0x200A) || n == 0x2028 || n == 0x2029 || n == 0x202F || n == 0x205F || n == 0x3000
}

/// The characters of `s`, in order.
pub fn chars_of(s: &str) -> (v: Vec<char>)
    ensures
        v@ == s@,
{
    let mut v: Vec<char> = Vec::new();
    for c in it: s.chars()
        invariant
            v@ == it.seq().take(it.index()),
            it.seq() == s@,
    {
        v.push(c);
    }
    v
}

/// The bounds of `chars[lo..hi]` without its leading and trailing white space.
pub fn trim_bounds(chars: &Vec<char>, lo: usize, hi: usize) -> (r: (usize, usize))
    requires
        lo <= hi <= chars.len(),
    ensures
        lo <= r.0 <= r.1 <= hi,
        chars@.subrange(r.0 as int, r.1 as int) == trim(chars@.subrange(lo as int, hi as int)),
{
    let mut a: usize = lo;
    while a < hi && is_whitespace_char(chars[a])
        invariant
            lo <= a <= hi <= chars.len(),
            trim_start(chars@.subrange(lo as int, hi as int)) == trim_start(
                chars@.subrange(a as int, hi as int),
            ),
        decreases hi - a,
    {
        assert(chars@.subrange(a as int, hi as int).drop_first() =~= chars@.subrange(
            a + 1,
            hi as int,
        ));
        a += 1;
    }
    let mut b: usize = hi;
    while b > a && is_whitespace_char(chars[b - 1])
        invariant
            a <= b <= hi <= chars.len(),
            trim_end(chars@.subrange(a as int, hi as int)) == trim_end(
                chars@.subrange(a as int, b as int),
            ),
        decreases b - a,
    {
        assert(chars@.subrange(a as int, b as int).drop_last() =~= chars@.subrange(
            a as int,
            b - 1,
        ));
        b -= 1;
    }
    (a, b)
}

/// Whether `needle` stands in `chars` at position `i`.
pub fn matches_at(chars: &Vec<char>, i: usize, needle: &Vec<char>) -> (r: bool)
    requires
        i + needle.len() <= chars.len(),
    ensures
        r == (chars@.subrange(i as int, i + needle.len()) == needle@),
{
    let m = needle.len();
    let mut k: usize = 0;
    while k < m
        invariant
            m == needle.len(),
            k <= m,
            i + m <= chars.len(),
            chars@.subrange(i as int, i + k) == needle@.take(k as int),
        decreases m - k,
    {
        if chars[i + k] != needle[k] {
            assert(chars@.subrange(i as int, i + m)[k as int] != needle@[k as int]);
            return false;
        }
        assert(chars@.subrange(i as int, i + k + 1) =~= chars@.subrange(i as int, i + k).push(
            chars@[i + k],
        ));
        assert(needle@.take(k + 1) =~= needle@.take(k as int).push(needle@[k as int]));
        k += 1;
    }
    assert(needle@.take(m as int) =~= needle@);
    true
}

/// The first position in `chars[lo..hi]` where `needle` stands, as an index
/// into `chars`.
pub fn find_in(chars: &Vec<char>, lo: usize, hi: usize, needle: &Vec<char>) -> (r: Option<usize>)
    requires
        lo <= hi <= chars.len(),
    ensures
        match r {
            Some(i) => {
                &&& lo <= i
                &&& i + needle.len() <= hi
                &&& find(chars@.subrange(lo as int, hi as int), needle@) == Some(i - lo)
            },
            None => find(chars@.subrange(lo as int, hi as int), needle@) is None,
        },
{
    let m = needle.len();
    if hi - lo < m {
        return None;
    }
    let ghost hay = chars@.subrange(lo as int, hi as int);
    if m == 0 {
        assert(hay.subrange(0, 0) =~= needle@);
        return Some(lo);
    }
    let last = hi - m;
    let mut i: usize = lo;
    while i <= last
        invariant
            lo <= i <= last + 1,
            last + m == hi,
            m >= 1,
            m == needle.len(),
            lo <= hi <= chars.len(),
            hay == chars@.subrange(lo as int, hi as int),
            find(hay, needle@) == find_from(hay, needle@, i - lo),
        decreases last + 1 - i,
    {
        let here = matches_at(chars, i, needle);
        assert(hay.subrange(i - lo, i - lo + m) =~= chars@.subrange(i as int, i + m));
        if here {
            return Some(i);
        }
        i += 1;
    }
    None
}

/// Whether two vectors hold the same characters.
pub fn same_chars(x: &Vec<char>, y: &Vec<char>) -> (r: bool)
    ensures
        r == (x@ == y@),
{
    if x.len() != y.len() {
        return false;
    }
    let n = x.len();
    let mut i: usize = 0;
    while i < n
        invariant
            n == x.len(),
            n == y.len(),
            i <= n,
            x@.take(i as int) == y@.take(i as int),
        decreases n - i,
    {
        if x[i] != y[i] {
            assert(x@[i as int] != y@[i as int]);
            return false;
        }
        assert(x@.take(i + 1) =~= x@.take(i as int).push(x@[i as int]));
        assert(y@.take(i + 1) =~= y@.take(i as int).push(y@[i as int]));
        i += 1;
    }
    assert(x@.take(n as int) =~= x@);
    assert(y@.take(n as int) =~= y@);
    true
}

/// Whether two strings hold the same characters.
pub fn same_text(a: &str, b: &str) -> (r: bool)
    ensures
        r == (a@ == b@),
{
    same_chars(&chars_of(a), &chars_of(b))
}

/// The substring `s[lo..hi]`, by character positions, as an owned string.
pub fn slice_string(s: &str, lo: usize, hi: usize) -> (r: String)
    requires
        lo <= hi <= s@.len(),
    ensures
        r@ == s@.subrange(lo as int, hi as int),
{
    s.substring_char(lo, hi).to_owned()
}

/// `s` without leading and trailing white space.
pub fn trimmed(s: &str) -> (r: String)
    ensures
        r@ == trim(s@),
{
    let chars = chars_of(s);
    let (a, b) = trim_bounds(&chars, 0, chars.len());
    assert(chars@.subrange(0, chars.len() as int) =~= chars@);
    slice_string(s, a, b)
}

/// Whether `s` holds nothing but white space.
pub fn is_blank_str(s: &str) -> (r: bool)
    ensures
        r == is_blank(s@),
{
    let chars = chars_of(s);
    let (a, b) = trim_bounds(&chars, 0, chars.len());
    assert(chars@.subrange(0, chars.len() as int) =~= chars@);
    a == b
}

/// The parts in order, with `sep` between each two neighbours.
pub fn join_strings(parts: &Vec<String>, sep: &str) -> (r: String)
    ensures
        r@ == join(parts.deep_view(), sep@),
{
    let mut out = String::new();
    let n = parts.len();
    let mut i: usize = 0;
    while i < n
        invariant
            n == parts.len(),
            i <= n,
            out@ == join(parts.deep_view().take(i as int), sep@),
        decreases n - i,
    {
        let ghost before = parts.deep_view().take(i as int);
        let ghost after = parts.deep_view().take(i + 1);
        assert(after.drop_last() =~= before);
        assert(after.last() == parts@[i as int]@);
        if i > 0 {
            out.append(sep);
        }
        out.append(parts[i].as_str());
        assert(out@ =~= join(after, sep@));
        i += 1;
    }
    assert(parts.deep_view().take(n as int) =~= parts.deep_view());
    out
}

/// The pieces of `text` between occurrences of `sep`, each trimmed.
pub fn split_trimmed(text: &str, sep: char) -> (r: Vec<String>)
    ensures
        r.deep_view() == split(text@, sep).map_values(|piece: Seq<char>| trim(piece)),
{
    let chars = chars_of(text);
    let n = chars.len();
    let mut needle: Vec<char> = Vec::new();
    needle.push(sep);
    assert(needle@ =~= seq![sep]);
    let mut pieces: Vec<String> = Vec::new();
    let mut pos: usize = 0;
    let ghost trimmed = |piece: Seq<char>| trim(piece);
    let ghost mut done: Seq<Seq<char>> = seq![];
    assert(text@.skip(0) =~= text@);
    assert(done + split(text@, sep) =~= split(text@, sep));
    assert(pieces.deep_view() =~= done.map_values(trimmed));
    loop
        invariant_except_break
            pos <= n,
            split(text@, sep) == done + split(text@.skip(pos as int), sep),
            pieces.deep_view() == done.map_values(trimmed),
        invariant
            chars@ == text@,
            n == chars.len(),
            needle@ == seq![sep],
            trimmed == |piece: Seq<char>| trim(piece),
        ensures
            pieces.deep_view() == split(text@, sep).map_values(trimmed),
        decreases n - pos,
    {
        let ghost rest = text@.skip(pos as int);
        let ghost before = pieces.deep_view();
        assert(chars@.subrange(pos as int, n as int) =~= rest);
        let found = find_in(&chars, pos, n, &needle);
        let end = match found {
            Some(i) => i,
            None => n,
        };
        let ghost piece = chars@.subrange(pos as int, end as int);
        let (a, b) = trim_bounds(&chars, pos, end);
        let part = slice_string(text, a, b);
        pieces.push(part);
        assert(pieces.deep_view() =~= before.push(trim(piece)));
        assert(before.push(trim(piece)) =~= done.push(piece).map_values(trimmed));
        match found {
            Some(i) => {
                proof {
                    lemma_find_from(rest, seq![sep], 0);
                    assert(piece =~= rest.take(i - pos));
                    assert(rest.skip(i - pos + 1) =~= text@.skip(i + 1));
                    assert(done + (seq![piece] + split(text@.skip(i + 1), sep)) =~= done.push(piece)
                        + split(text@.skip(i + 1), sep));
                    done = done.push(piece);
                }
                pos = i + 1;
            },
            None => {
                proof {
                    assert(piece =~= rest);
                    assert(done + seq![rest] =~= done.push(piece));
                }
                break ;
            },
        }
    }
    pieces
}

} // verus!
