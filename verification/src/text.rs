//! Character-sequence toolkit: the pieces of text processing that the
//! cookie and path logic is built from, each with its mathematical model.

use vstd::prelude::*;

verus! {

/// The text after every `"; "` has become `";"`, scanning left to right
/// (what `str::replace("; ", ";")` computes).
pub open spec fn squeeze_separators(s: Seq<char>) -> Seq<char>
    decreases s.len(),
{
    if s.len() < 2 {
        s
    } else if s[0] == ';' && s[1] == ' ' {
        seq![';'] + squeeze_separators(s.skip(2))
    } else {
        seq![s[0]] + squeeze_separators(s.skip(1))
    }
}

/// The fields of `s` between occurrences of `sep` (what `str::split(sep)`
/// yields): always at least one field, one more than `sep` occurs.
pub open spec fn split_on(s: Seq<char>, sep: char) -> Seq<Seq<char>>
    decreases s.len(),
{
    if s.len() == 0 {
        seq![Seq::empty()]
    } else {
        let front = split_on(s.drop_last(), sep);
        if s.last() == sep {
            front.push(Seq::empty())
        } else {
            front.update(front.len() - 1, front.last().push(s.last()))
        }
    }
}

/// The fields joined back together with `sep` between them.
pub open spec fn join_with(fields: Seq<Seq<char>>, sep: char) -> Seq<char>
    decreases fields.len(),
{
    if fields.len() == 0 {
        Seq::empty()
    } else if fields.len() == 1 {
        fields[0]
    } else {
        join_with(fields.drop_last(), sep).push(sep) + fields.last()
    }
}

/// The character sequences held by a list of character vectors.
pub open spec fn views_of(v: Seq<Vec<char>>) -> Seq<Seq<char>> {
    v.map_values(|x: Vec<char>| x@)
}

/// All the sequences one after the other.
pub open spec fn concat_all(parts: Seq<Seq<char>>) -> Seq<char>
    decreases parts.len(),
{
    if parts.len() == 0 {
        Seq::empty()
    } else {
        concat_all(parts.drop_last()) + parts.last()
    }
}

/// Splitting at `sep` and joining the fields again with `sep` gives back
/// the text.
pub proof fn law_split_join(s: Seq<char>, sep: char)
    ensures
        join_with(split_on(s, sep), sep) == s,
    decreases s.len(),
{
    if s.len() == 0 {
        assert(join_with(split_on(s, sep), sep) =~= s);
    } else {
        let init = s.drop_last();
        let c = s.last();
        law_split_join(init, sep);
        lemma_split_nonempty(init, sep);
        let f = split_on(init, sep);
        if c == sep {
            let g = f.push(Seq::empty());
            assert(g.drop_last() =~= f);
            assert(join_with(g, sep) =~= join_with(f, sep).push(sep));
        } else {
            let g = f.update(f.len() - 1, f.last().push(c));
            if f.len() == 1 {
                assert(join_with(g, sep) == g[0]);
            } else {
                assert(g.drop_last() =~= f.drop_last());
                assert(join_with(g, sep) =~= join_with(f.drop_last(), sep).push(sep) + f.last().push(c));
                assert(join_with(f, sep) == join_with(f.drop_last(), sep).push(sep) + f.last());
            }
            assert(join_with(g, sep) =~= join_with(f, sep).push(c));
        }
        assert(init.push(c) =~= s);
    }
}

/// A single part, concatenated, is itself.
pub proof fn lemma_concat_one(part: Seq<char>)
    ensures
        concat_all(seq![part]) == part,
{
    assert(seq![part].drop_last() =~= Seq::<Seq<char>>::empty());
    assert(concat_all(Seq::<Seq<char>>::empty()) == Seq::<char>::empty());
    assert(concat_all(seq![part]) =~= part);
}

/// Splitting always yields at least one field.
pub proof fn lemma_split_nonempty(s: Seq<char>, sep: char)
    ensures
        split_on(s, sep).len() >= 1,
    decreases s.len(),
{
    if s.len() > 0 {
        lemma_split_nonempty(s.drop_last(), sep);
    }
}

/// The characters of a string slice.
pub fn chars_of(s: &str) -> (r: Vec<char>)
    ensures
        r@ == s@,
{
    let n = s.unicode_len();
    let mut r: Vec<char> = Vec::new();
    let mut i: usize = 0;
    while i < n
        invariant
            n == s@.len(),
            i <= n,
            r@ == s@.take(i as int),
        decreases n - i,
    {
        let c = s.get_char(i);
        r.push(c);
        i = i + 1;
        assert(r@ =~= s@.take(i as int));
    }
    assert(r@ =~= s@);
    r
}

/// A `String` holding exactly the given characters.
#[verifier::external_body]
pub(crate) fn string_of(chars: &[char]) -> (r: String)
    ensures
        r@ == chars@,
{
    String::from_iter(chars.iter())
}

/// Whether two character sequences are equal.
pub fn same_chars(a: &[char], b: &[char]) -> (r: bool)
    ensures
        r == (a@ == b@),
{
    if a.len() != b.len() {
        return false;
    }
    let mut i: usize = 0;
    while i < a.len()
        invariant
            a@.len() == b@.len(),
            i <= a@.len(),
            forall|j: int| 0 <= j < i ==> a@[j] == b@[j],
        decreases a@.len() - i,
    {
        if a[i] != b[i] {
            return false;
        }
        i = i + 1;
    }
    assert(a@ =~= b@);
    true
}

/// `s` with every `"; "` replaced by `";"`.
pub fn squeeze(s: &[char]) -> (r: Vec<char>)
    ensures
        r@ == squeeze_separators(s@),
{
    let n = s.len();
    let mut r: Vec<char> = Vec::new();
    let mut i: usize = 0;
    assert(s@.skip(0) =~= s@);
    while i < n
        invariant
            n == s@.len(),
            i <= n,
            r@ + squeeze_separators(s@.skip(i as int)) == squeeze_separators(s@),
        decreases n - i,
    {
        let ghost rest = s@.skip(i as int);
        if i + 1 < n && s[i] == ';' && s[i + 1] == ' ' {
            assert(rest.skip(2) =~= s@.skip(i + 2));
            r.push(';');
            i = i + 2;
            assert(r@ + squeeze_separators(s@.skip(i as int)) =~= squeeze_separators(s@));
        } else {
            assert(rest.skip(1) =~= s@.skip(i + 1));
            proof {
                if rest.len() < 2 {
                    assert(squeeze_separators(rest.skip(1)) =~= rest.skip(1));
                    assert(rest =~= seq![rest[0]] + rest.skip(1));
                }
            }
            r.push(s[i]);
            i = i + 1;
            assert(r@ + squeeze_separators(s@.skip(i as int)) =~= squeeze_separators(s@));
        }
    }
    assert(s@.skip(n as int) =~= Seq::<char>::empty());
    assert(r@ =~= squeeze_separators(s@));
    r
}

/// The fields of `s` between occurrences of `sep`.
pub fn split_chars(s: &[char], sep: char) -> (r: Vec<Vec<char>>)
    ensures
        views_of(r@) == split_on(s@, sep),
{
    let n = s.len();
    let mut fields: Vec<Vec<char>> = Vec::new();
    let mut cur: Vec<char> = Vec::new();
    let mut i: usize = 0;
    assert(s@.take(0) =~= Seq::<char>::empty());
    assert(views_of(fields@).push(cur@) =~= split_on(s@.take(0), sep));
    while i < n
        invariant
            n == s@.len(),
            i <= n,
            views_of(fields@).push(cur@) == split_on(s@.take(i as int), sep),
        decreases n - i,
    {
        let c = s[i];
        let ghost before = views_of(fields@);
        let ghost cur_before = cur@;
        assert(s@.take(i + 1).drop_last() =~= s@.take(i as int));
        if c == sep {
            fields.push(cur);
            cur = Vec::new();
            assert(views_of(fields@) =~= before.push(cur_before));
        } else {
            cur.push(c);
            assert(views_of(fields@) =~= before);
        }
        i = i + 1;
        assert(views_of(fields@).push(cur@) =~= split_on(s@.take(i as int), sep));
    }
    assert(s@.take(n as int) =~= s@);
    let ghost before = views_of(fields@);
    let ghost last = cur@;
    fields.push(cur);
    assert(views_of(fields@) =~= before.push(last));
    fields
}

} // verus!
