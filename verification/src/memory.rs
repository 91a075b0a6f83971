//! The names of the memory notes, from the names of the files that hold
//! them.
//!
//! A note is held by a file whose name is the name of the note and the
//! extension `.md`. The notes are listed in the order of their names,
//! character by character.

use crate::text::{chars_of, slice_string};
use vstd::prelude::*;
use vstd::seq_lib::{to_multiset_build, to_multiset_insert};

verus! {

/// The extension of the files that hold notes.
pub open spec fn note_extension() -> Seq<char> {
    ".md"@
}

/// Whether a file of this name holds a note: the name ends in the extension,
/// and something stands before it.
pub open spec fn is_note_file(file: Seq<char>) -> bool {
    file.len() > 3 && file.skip(file.len() - 3) == note_extension()
}

/// The name of the note that the file `file` holds.
pub open spec fn note_of(file: Seq<char>) -> Seq<char> {
    file.take(file.len() - 3)
}

/// The notes that `files` hold, in the order of the files.
pub open spec fn notes_among(files: Seq<Seq<char>>) -> Seq<Seq<char>>
    decreases files.len(),
{
    if files.len() == 0 {
        seq![]
    } else {
        let rest = notes_among(files.drop_last());
        if is_note_file(files.last()) {
            rest.push(note_of(files.last()))
        } else {
            rest
        }
    }
}

/// Whether `a` stands at or before `b` in the order of texts: at the first
/// place where they differ `a` has the smaller character, or `a` ends there.
pub open spec fn at_or_before(a: Seq<char>, b: Seq<char>) -> bool
    decreases a.len(),
{
    if a.len() == 0 {
        true
    } else if b.len() == 0 {
        false
    } else if a[0] as u32 != b[0] as u32 {
        (a[0] as u32) < (b[0] as u32)
    } else {
        at_or_before(a.drop_first(), b.drop_first())
    }
}

/// Whether `names` stand in the order of texts.
pub open spec fn in_order(names: Seq<Seq<char>>) -> bool {
    forall|i: int, j: int|
        0 <= i < j < names.len() ==> at_or_before(#[trigger] names[i], #[trigger] names[j])
}

/// Of two texts one stands at or before the other.
pub proof fn lemma_order_total(a: Seq<char>, b: Seq<char>)
    ensures
        at_or_before(a, b) || at_or_before(b, a),
    decreases a.len(),
{
    if a.len() > 0 && b.len() > 0 && a[0] as u32 == b[0] as u32 {
        lemma_order_total(a.drop_first(), b.drop_first());
    }
}

/// What stands at or before a text stands at or before all that follow it.
pub proof fn lemma_order_transitive(a: Seq<char>, b: Seq<char>, c: Seq<char>)
    requires
        at_or_before(a, b),
        at_or_before(b, c),
    ensures
        at_or_before(a, c),
    decreases a.len(),
{
    if a.len() > 0 && b.len() > 0 && c.len() > 0 && a[0] as u32 == b[0] as u32 && b[0] as u32
        == c[0] as u32 {
        lemma_order_transitive(a.drop_first(), b.drop_first(), c.drop_first());
    }
}

/// Two texts that each stand at or before the other are the same text, so
/// the order of a list of names is the only one.
pub proof fn lemma_order_antisymmetric(a: Seq<char>, b: Seq<char>)
    requires
        at_or_before(a, b),
        at_or_before(b, a),
    ensures
        a == b,
    decreases a.len(),
{
    if a.len() > 0 && b.len() > 0 {
        lemma_order_antisymmetric(a.drop_first(), b.drop_first());
        vstd::utf8::char_u32_cast(a[0], a[0] as u32);
        vstd::utf8::char_u32_cast(b[0], b[0] as u32);
        assert(a =~= seq![a[0]] + a.drop_first());
        assert(b =~= seq![b[0]] + b.drop_first());
    } else {
        assert(a =~= b);
    }
}

/// A name put into an ordered list, behind the names at or before it and
/// before a name that it stands before, leaves the list ordered.
proof fn lemma_insert_keeps_order(names: Seq<Seq<char>>, at: int, name: Seq<char>)
    requires
        in_order(names),
        0 <= at <= names.len(),
        forall|k: int| 0 <= k < at ==> at_or_before(#[trigger] names[k], name),
        at < names.len() ==> at_or_before(name, names[at]),
    ensures
        in_order(names.insert(at, name)),
{
    let after = names.insert(at, name);
    assert forall|i: int, j: int| 0 <= i < j < after.len() implies at_or_before(
        #[trigger] after[i],
        #[trigger] after[j],
    ) by {
        if j == at {
            assert(after[i] == names[i]);
        } else if i == at {
            assert(after[j] == names[j - 1]);
            if j - 1 > at {
                assert(at_or_before(names[at], names[j - 1]));
                lemma_order_transitive(name, names[at], names[j - 1]);
            }
        } else {
            let i0 = if i < at { i } else { i - 1 };
            let j0 = if j < at { j } else { j - 1 };
            assert(after[i] == names[i0]);
            assert(after[j] == names[j0]);
        }
    }
}

/// Whether `a` stands at or before `b` in the order of texts.
pub fn stands_at_or_before(a: &Vec<char>, b: &Vec<char>) -> (r: bool)
    ensures
        r == at_or_before(a@, b@),
{
    let n = a.len();
    let m = b.len();
    let mut i: usize = 0;
    assert(a@.skip(0) =~= a@);
    assert(b@.skip(0) =~= b@);
    while i < n
        invariant
            n == a.len(),
            m == b.len(),
            i <= n,
            i <= m,
            at_or_before(a@, b@) == at_or_before(a@.skip(i as int), b@.skip(i as int)),
        decreases n - i,
    {
        if i == m {
            return false;
        }
        let x: u32 = a[i] as u32;
        let y: u32 = b[i] as u32;
        assert(a@.skip(i as int)[0] == a@[i as int]);
        assert(b@.skip(i as int)[0] == b@[i as int]);
        if x != y {
            return x < y;
        }
        assert(a@.skip(i as int).drop_first() =~= a@.skip(i + 1));
        assert(b@.skip(i as int).drop_first() =~= b@.skip(i + 1));
        i += 1;
    }
    true
}

/// The name of the note that the file `file` holds, if it holds one.
pub fn note_name(file: &str) -> (r: Option<String>)
    ensures
        r.deep_view() == if is_note_file(file@) {
            Some(note_of(file@))
        } else {
            None
        },
{
    let chars = chars_of(file);
    let n = chars.len();
    proof {
        reveal_strlit(".md");
    }
    if n > 3 && chars[n - 3] == '.' && chars[n - 2] == 'm' && chars[n - 1] == 'd' {
        assert(file@.skip(n - 3) =~= note_extension());
        assert(file@.subrange(0, n - 3) =~= file@.take(n - 3));
        Some(slice_string(file, 0, n - 3))
    } else {
        if n > 3 {
            assert(file@.skip(n - 3)[0] == file@[n - 3]);
            assert(file@.skip(n - 3)[1] == file@[n - 2]);
            assert(file@.skip(n - 3)[2] == file@[n - 1]);
        }
        None
    }
}

/// The names of the notes that the files `files` hold, in the order of
/// texts. Each note is listed as often as a file holds it.
pub fn note_names(files: &Vec<String>) -> (names: Vec<String>)
    ensures
        in_order(names.deep_view()),
        names.deep_view().to_multiset() == notes_among(files.deep_view()).to_multiset(),
{
    let ghost all = files.deep_view();
    let mut names: Vec<String> = Vec::new();
    let n = files.len();
    let mut i: usize = 0;
    assert(names.deep_view() =~= notes_among(all.take(0)));
    while i < n
        invariant
            n == files.len(),
            i <= n,
            all == files.deep_view(),
            in_order(names.deep_view()),
            names.deep_view().to_multiset() == notes_among(all.take(i as int)).to_multiset(),
        decreases n - i,
    {
        assert(all.take(i + 1).drop_last() =~= all.take(i as int));
        assert(all.take(i + 1).last() == files[i as int]@);
        match note_name(files[i].as_str()) {
            Some(name) => {
                let ghost listed = names.deep_view();
                let key = chars_of(name.as_str());
                let count = names.len();
                let mut at: usize = 0;
                while at < count
                    invariant_except_break
                        at <= count,
                    invariant
                        count == names.len(),
                        listed == names.deep_view(),
                        key@ == name@,
                        at <= count,
                        forall|k: int| 0 <= k < at ==> at_or_before(#[trigger] listed[k], name@),
                    ensures
                        at <= count,
                        at < count ==> at_or_before(name@, listed[at as int]),
                    decreases count - at,
                {
                    let held = chars_of(names[at].as_str());
                    assert(held@ == listed[at as int]);
                    if !stands_at_or_before(&held, &key) {
                        proof {
                            lemma_order_total(listed[at as int], name@);
                        }
                        break ;
                    }
                    at += 1;
                }
                proof {
                    lemma_insert_keeps_order(listed, at as int, name@);
                    to_multiset_insert(listed, at as int, name@);
                    to_multiset_build(notes_among(all.take(i as int)), name@);
                }
                names.insert(at, name);
                assert(names.deep_view() =~= listed.insert(at as int, name@));
            },
            None => {},
        }
        i += 1;
    }
    assert(all.take(n as int) =~= all);
    names
}

} // verus!
