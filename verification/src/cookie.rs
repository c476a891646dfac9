//! The model of a `Cookie` request header and its parsing: the header is
//! cut into `name=value` pieces at `;` (after every `"; "` has become
//! `";"`), a piece's name is the text before its first `=` and its value
//! the text after its last `=`, and the value of a cookie is every value
//! given under its name, one after the other.

use vstd::prelude::*;
use crate::text::{concat_all, lemma_concat_one, lemma_split_nonempty, same_chars, split_chars, split_on, squeeze, squeeze_separators, views_of};

verus! {

/// The `name=value` pieces of a cookie header.
pub open spec fn cookie_pieces(text: Seq<char>) -> Seq<Seq<char>> {
    split_on(squeeze_separators(text), ';')
}

/// The name of a piece: the text before its first `=`.
pub open spec fn field_name(piece: Seq<char>) -> Seq<char> {
    split_on(piece, '=')[0]
}

/// The value of a piece: the text after its last `=` (the whole piece when
/// it holds no `=`).
pub open spec fn field_value(piece: Seq<char>) -> Seq<char> {
    split_on(piece, '=').last()
}

/// The values of the pieces named `name`, in order.
pub open spec fn values_named(pieces: Seq<Seq<char>>, name: Seq<char>) -> Seq<Seq<char>>
    decreases pieces.len(),
{
    if pieces.len() == 0 {
        Seq::empty()
    } else if field_name(pieces.last()) == name {
        values_named(pieces.drop_last(), name).push(field_value(pieces.last()))
    } else {
        values_named(pieces.drop_last(), name)
    }
}

/// The value of the cookie `name` in a cookie header: the values of all
/// pieces with that name, one after the other (empty when there is none).
pub open spec fn cookie_value(name: Seq<char>, text: Seq<char>) -> Seq<char> {
    concat_all(values_named(cookie_pieces(text), name))
}

/// The `name=value` pieces of a cookie header.
pub fn pieces_of(text: &[char]) -> (r: Vec<Vec<char>>)
    ensures
        views_of(r@) == cookie_pieces(text@),
{
    let squeezed = squeeze(text);
    split_chars(squeezed.as_slice(), ';')
}

/// The name of a piece.
pub fn name_of(piece: &[char]) -> (r: Vec<char>)
    ensures
        r@ == field_name(piece@),
{
    let parts = split_chars(piece, '=');
    proof {
        lemma_split_nonempty(piece@, '=');
    }
    assert(parts@[0]@ == views_of(parts@)[0]);
    vstd::slice::slice_to_vec(parts[0].as_slice())
}

/// The value of a piece.
pub fn value_of(piece: &[char]) -> (r: Vec<char>)
    ensures
        r@ == field_value(piece@),
{
    let parts = split_chars(piece, '=');
    proof {
        lemma_split_nonempty(piece@, '=');
    }
    let last = parts.len() - 1;
    assert(parts@[last as int]@ == views_of(parts@)[last as int]);
    vstd::slice::slice_to_vec(parts[last].as_slice())
}

/// The values of the pieces named `name`, in order.
pub fn values_in(pieces: &Vec<Vec<char>>, name: &[char]) -> (r: Vec<Vec<char>>)
    ensures
        views_of(r@) == values_named(views_of(pieces@), name@),
{
    let mut r: Vec<Vec<char>> = Vec::new();
    let mut i: usize = 0;
    assert(views_of(pieces@).take(0) =~= Seq::<Seq<char>>::empty());
    while i < pieces.len()
        invariant
            i <= pieces@.len(),
            views_of(r@) == values_named(views_of(pieces@).take(i as int), name@),
        decreases pieces@.len() - i,
    {
        let ghost before = views_of(r@);
        assert(views_of(pieces@).take(i + 1).drop_last() =~= views_of(pieces@).take(i as int));
        assert(views_of(pieces@).take(i + 1).last() == pieces@[i as int]@);
        let piece_name = name_of(pieces[i].as_slice());
        if same_chars(piece_name.as_slice(), name) {
            let v = value_of(pieces[i].as_slice());
            r.push(v);
            assert(views_of(r@) =~= before.push(field_value(pieces@[i as int]@)));
        }
        i = i + 1;
    }
    assert(views_of(pieces@).take(pieces@.len() as int) =~= views_of(pieces@));
    r
}

/// `dst` followed by `src`.
pub fn append_chars(dst: &mut Vec<char>, src: &[char])
    ensures
        final(dst)@ == old(dst)@ + src@,
{
    let mut i: usize = 0;
    while i < src.len()
        invariant
            i <= src@.len(),
            dst@ == old(dst)@ + src@.take(i as int),
        decreases src@.len() - i,
    {
        dst.push(src[i]);
        i = i + 1;
        assert(dst@ =~= old(dst)@ + src@.take(i as int));
    }
    assert(src@.take(src@.len() as int) =~= src@);
}

/// All the parts one after the other.
pub fn concat(parts: &Vec<Vec<char>>) -> (r: Vec<char>)
    ensures
        r@ == concat_all(views_of(parts@)),
{
    let mut r: Vec<char> = Vec::new();
    let mut i: usize = 0;
    assert(views_of(parts@).take(0) =~= Seq::<Seq<char>>::empty());
    while i < parts.len()
        invariant
            i <= parts@.len(),
            r@ == concat_all(views_of(parts@).take(i as int)),
        decreases parts@.len() - i,
    {
        assert(views_of(parts@).take(i + 1).drop_last() =~= views_of(parts@).take(i as int));
        assert(views_of(parts@).take(i + 1).last() == parts@[i as int]@);
        append_chars(&mut r, parts[i].as_slice());
        i = i + 1;
    }
    assert(views_of(parts@).take(parts@.len() as int) =~= views_of(parts@));
    r
}

/// The value of the cookie `name` in the cookie header `text`.
pub fn value_in(name: &[char], text: &[char]) -> (r: Vec<char>)
    ensures
        r@ == cookie_value(name@, text@),
{
    let pieces = pieces_of(text);
    let values = values_in(&pieces, name);
    concat(&values)
}


/// A `name=value` cookie pair as a client sends it back.
pub open spec fn cookie_pair(name: Seq<char>, value: Seq<char>) -> Seq<char> {
    name + seq!['='] + value
}

/// The `Cookie` header a client sends for the given cookies: the pairs
/// joined by `"; "`.
pub open spec fn cookie_header(cookies: Seq<(Seq<char>, Seq<char>)>) -> Seq<char>
    decreases cookies.len(),
{
    if cookies.len() == 0 {
        Seq::empty()
    } else if cookies.len() == 1 {
        cookie_pair(cookies[0].0, cookies[0].1)
    } else {
        cookie_header(cookies.drop_last()) + seq![';', ' '] + cookie_pair(
            cookies.last().0,
            cookies.last().1,
        )
    }
}

/// The values given under `name`, in order.
pub open spec fn values_given(cookies: Seq<(Seq<char>, Seq<char>)>, name: Seq<char>) -> Seq<
    Seq<char>,
>
    decreases cookies.len(),
{
    if cookies.len() == 0 {
        Seq::empty()
    } else if cookies.last().0 == name {
        values_given(cookies.drop_last(), name).push(cookies.last().1)
    } else {
        values_given(cookies.drop_last(), name)
    }
}

/// Text that can stand as a cookie name or value: no `;` and no `=`.
pub open spec fn plain_token(s: Seq<char>) -> bool {
    forall|i: int| 0 <= i < s.len() ==> s[i] != ';' && s[i] != '='
}

/// Every name and value is plain.
pub open spec fn plain_cookies(cookies: Seq<(Seq<char>, Seq<char>)>) -> bool {
    forall|i: int| 0 <= i < cookies.len() ==> plain_token(#[trigger] cookies[i].0) && plain_token(
        cookies[i].1,
    )
}

proof fn lemma_squeeze_no_semicolon(s: Seq<char>)
    requires
        forall|i: int| 0 <= i < s.len() ==> s[i] != ';',
    ensures
        squeeze_separators(s) == s,
    decreases s.len(),
{
    if s.len() >= 2 {
        lemma_squeeze_no_semicolon(s.skip(1));
        assert(s =~= seq![s[0]] + s.skip(1));
    }
}

proof fn lemma_squeeze_append(x: Seq<char>, y: Seq<char>)
    requires
        x.len() > 0 ==> x.last() != ';',
    ensures
        squeeze_separators(x + y) == squeeze_separators(x) + squeeze_separators(y),
    decreases x.len(),
{
    if x.len() == 0 {
        assert(x + y =~= y);
    } else if x.len() == 1 {
        if y.len() == 0 {
            assert(x + y =~= x);
        } else {
            assert((x + y).skip(1) =~= y);
        }
    } else {
        let s = x + y;
        if x[0] == ';' && x[1] == ' ' {
            assert(s.skip(2) =~= x.skip(2) + y);
            lemma_squeeze_append(x.skip(2), y);
        } else {
            assert(s.skip(1) =~= x.skip(1) + y);
            lemma_squeeze_append(x.skip(1), y);
        }
    }
}

proof fn lemma_split_no_sep(s: Seq<char>, sep: char)
    requires
        forall|i: int| 0 <= i < s.len() ==> s[i] != sep,
    ensures
        split_on(s, sep) == seq![s],
    decreases s.len(),
{
    if s.len() > 0 {
        lemma_split_no_sep(s.drop_last(), sep);
        assert(s[s.len() - 1] != sep);
        let front = split_on(s.drop_last(), sep);
        assert(front == seq![s.drop_last()]);
        assert(split_on(s, sep) == front.update(0, front[0].push(s.last())));
        assert(s.drop_last().push(s.last()) =~= s);
        assert(split_on(s, sep) =~= seq![s]);
    } else {
        assert(s =~= Seq::<char>::empty());
        assert(split_on(s, sep) =~= seq![s]);
    }
}


proof fn lemma_split_around(a: Seq<char>, b: Seq<char>, sep: char)
    ensures
        split_on(a + seq![sep] + b, sep) == split_on(a, sep) + split_on(b, sep),
    decreases b.len(),
{
    let s = a + seq![sep] + b;
    if b.len() == 0 {
        assert(s.drop_last() =~= a);
        assert(split_on(s, sep) =~= split_on(a, sep) + split_on(b, sep));
    } else {
        assert(s.drop_last() =~= a + seq![sep] + b.drop_last());
        lemma_split_around(a, b.drop_last(), sep);
        lemma_split_nonempty(b.drop_last(), sep);
        lemma_split_nonempty(a, sep);
        assert(split_on(s, sep) =~= split_on(a, sep) + split_on(b, sep));
    }
}

proof fn lemma_pair_fields(name: Seq<char>, value: Seq<char>)
    requires
        plain_token(name),
        plain_token(value),
    ensures
        split_on(cookie_pair(name, value), '=') == seq![name, value],
        field_name(cookie_pair(name, value)) == name,
        field_value(cookie_pair(name, value)) == value,
{
    lemma_split_around(name, value, '=');
    lemma_split_no_sep(name, '=');
    lemma_split_no_sep(value, '=');
    assert(seq![name] + seq![value] =~= seq![name, value]);
}

/// The pairs of the cookies.
pub open spec fn pairs_of(cookies: Seq<(Seq<char>, Seq<char>)>) -> Seq<Seq<char>> {
    cookies.map_values(|c: (Seq<char>, Seq<char>)| cookie_pair(c.0, c.1))
}

proof fn lemma_plain_init(cookies: Seq<(Seq<char>, Seq<char>)>)
    requires
        cookies.len() > 0,
        plain_cookies(cookies),
    ensures
        plain_cookies(cookies.drop_last()),
        plain_token(cookies.last().0),
        plain_token(cookies.last().1),
{
    let init = cookies.drop_last();
    assert(plain_token(cookies[cookies.len() - 1].0));
    assert forall|i: int| 0 <= i < init.len() implies plain_token(#[trigger] init[i].0)
        && plain_token(init[i].1) by {
        assert(init[i] == cookies[i]);
    }
}

proof fn lemma_pair_has_no_semicolon(name: Seq<char>, value: Seq<char>)
    requires
        plain_token(name),
        plain_token(value),
    ensures
        forall|i: int|
            0 <= i < cookie_pair(name, value).len() ==> #[trigger] cookie_pair(name, value)[i]
                != ';',
        cookie_pair(name, value).len() > 0,
        cookie_pair(name, value).last() != ';',
{
    let p = cookie_pair(name, value);
    assert forall|i: int| 0 <= i < p.len() implies #[trigger] p[i] != ';' by {
        if i < name.len() {
            assert(p[i] == name[i]);
        } else if i > name.len() {
            assert(p[i] == value[i - name.len() - 1]);
        }
    }
    assert(p[p.len() - 1] != ';');
}

proof fn lemma_header_ends(cookies: Seq<(Seq<char>, Seq<char>)>)
    requires
        cookies.len() > 0,
        plain_cookies(cookies),
    ensures
        cookie_header(cookies).len() > 0,
        cookie_header(cookies).last() != ';',
{
    lemma_plain_init(cookies);
    let p = cookie_pair(cookies.last().0, cookies.last().1);
    lemma_pair_has_no_semicolon(cookies.last().0, cookies.last().1);
    if cookies.len() == 1 {
        assert(cookies.last() == cookies[0]);
    } else {
        let front = cookie_header(cookies.drop_last()) + seq![';', ' '];
        assert(cookie_header(cookies) == front + p);
        assert((front + p).last() == p.last());
    }
}

proof fn lemma_header_pieces(cookies: Seq<(Seq<char>, Seq<char>)>)
    requires
        cookies.len() > 0,
        plain_cookies(cookies),
    ensures
        cookie_pieces(cookie_header(cookies)) == pairs_of(cookies),
    decreases cookies.len(),
{
    lemma_plain_init(cookies);
    let last = cookie_pair(cookies.last().0, cookies.last().1);
    lemma_pair_has_no_semicolon(cookies.last().0, cookies.last().1);
    lemma_squeeze_no_semicolon(last);
    lemma_split_no_sep(last, ';');
    if cookies.len() == 1 {
        assert(cookies.last() == cookies[0]);
        assert(pairs_of(cookies) =~= seq![last]);
    } else {
        let init = cookies.drop_last();
        lemma_header_pieces(init);
        lemma_header_ends(init);
        let front = cookie_header(init);
        let tail = seq![';', ' '] + last;
        assert(cookie_header(cookies) =~= front + tail);
        lemma_squeeze_append(front, tail);
        assert(tail.skip(2) =~= last);
        assert(squeeze_separators(tail) =~= seq![';'] + last);
        assert(squeeze_separators(cookie_header(cookies)) =~= squeeze_separators(front) + seq![';']
            + last);
        lemma_split_around(squeeze_separators(front), last, ';');
        assert(pairs_of(cookies) =~= pairs_of(init) + seq![last]);
    }
}

proof fn lemma_values_of_pairs(cookies: Seq<(Seq<char>, Seq<char>)>, name: Seq<char>)
    requires
        plain_cookies(cookies),
    ensures
        values_named(pairs_of(cookies), name) == values_given(cookies, name),
    decreases cookies.len(),
{
    if cookies.len() > 0 {
        let init = cookies.drop_last();
        lemma_plain_init(cookies);
        lemma_values_of_pairs(init, name);
        assert(pairs_of(cookies).drop_last() =~= pairs_of(init));
        lemma_pair_fields(cookies.last().0, cookies.last().1);
    }
}

/// Reading a cookie back: in the `Cookie` header a client sends for a list
/// of cookies whose names and values hold no `;` and no `=`, the value of
/// cookie `name` is every value given under that name, in order.
pub proof fn law_cookie_round_trip(cookies: Seq<(Seq<char>, Seq<char>)>, name: Seq<char>)
    requires
        plain_cookies(cookies),
    ensures
        cookie_value(name, cookie_header(cookies)) == concat_all(values_given(cookies, name)),
{
    if cookies.len() == 0 {
        let e = Seq::<char>::empty();
        lemma_split_no_sep(e, ';');
        lemma_split_no_sep(e, '=');
        assert(squeeze_separators(e) == e);
        let pieces = cookie_pieces(e);
        assert(pieces == seq![e]);
        assert(field_name(e) == e && field_value(e) == e);
        assert(pieces.drop_last() =~= Seq::<Seq<char>>::empty());
        assert(values_named(Seq::<Seq<char>>::empty(), name) == Seq::<Seq<char>>::empty());
        lemma_concat_one(e);
        if e == name {
            assert(values_named(pieces, name) =~= seq![e]);
        } else {
            assert(values_named(pieces, name) =~= Seq::<Seq<char>>::empty());
            assert(concat_all(Seq::<Seq<char>>::empty()) == Seq::<char>::empty());
        }
    } else {
        lemma_header_pieces(cookies);
        lemma_values_of_pairs(cookies, name);
    }
}

/// A cookie given once: its value reads back exactly.
pub proof fn law_single_cookie_reads_back(
    cookies: Seq<(Seq<char>, Seq<char>)>,
    i: int,
)
    requires
        plain_cookies(cookies),
        0 <= i < cookies.len(),
        forall|j: int| 0 <= j < cookies.len() && j != i ==> cookies[j].0 != cookies[i].0,
    ensures
        cookie_value(cookies[i].0, cookie_header(cookies)) == cookies[i].1,
{
    law_cookie_round_trip(cookies, cookies[i].0);
    lemma_values_given_single(cookies, i);
}

proof fn lemma_values_given_single(cookies: Seq<(Seq<char>, Seq<char>)>, i: int)
    requires
        0 <= i < cookies.len(),
        forall|j: int| 0 <= j < cookies.len() && j != i ==> cookies[j].0 != cookies[i].0,
    ensures
        concat_all(values_given(cookies, cookies[i].0)) == cookies[i].1,
    decreases cookies.len(),
{
    let name = cookies[i].0;
    let init = cookies.drop_last();
    if i == cookies.len() - 1 {
        assert(values_given(init, name) =~= Seq::<Seq<char>>::empty()) by {
            lemma_values_given_absent(init, name);
        }
        let vs = values_given(cookies, name);
        assert(vs =~= seq![cookies[i].1]);
        lemma_concat_one(cookies[i].1);
    } else {
        assert(init[i] == cookies[i]);
        assert forall|j: int| 0 <= j < init.len() && j != i implies init[j].0 != init[i].0 by {
            assert(init[j] == cookies[j]);
        }
        lemma_values_given_single(init, i);
        assert(cookies.last().0 != name);
    }
}

proof fn lemma_values_given_absent(cookies: Seq<(Seq<char>, Seq<char>)>, name: Seq<char>)
    requires
        forall|j: int| 0 <= j < cookies.len() ==> cookies[j].0 != name,
    ensures
        values_given(cookies, name) == Seq::<Seq<char>>::empty(),
    decreases cookies.len(),
{
    if cookies.len() > 0 {
        let init = cookies.drop_last();
        assert forall|j: int| 0 <= j < init.len() implies init[j].0 != name by {
            assert(init[j] == cookies[j]);
        }
        lemma_values_given_absent(init, name);
        assert(cookies[cookies.len() - 1].0 != name);
    }
}


/// The values read back for a name from the header a client sends for
/// plain cookies are the values given under that name, in order.
pub proof fn law_cookie_values(cookies: Seq<(Seq<char>, Seq<char>)>, name: Seq<char>)
    requires
        cookies.len() > 0,
        plain_cookies(cookies),
    ensures
        values_named(cookie_pieces(cookie_header(cookies)), name) == values_given(cookies, name),
{
    lemma_header_pieces(cookies);
    lemma_values_of_pairs(cookies, name);
}

} // verus!
