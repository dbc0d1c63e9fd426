//! Laws that relate segmentation, assembly and rewriting.
use vstd::prelude::*;
use crate::case::{
    CaseFormat, capitalize, capitalize_all, concat, hump_scan, humps, is_humped, join_body,
    join_spec, join_with, lower_all, piece_scan, pieces, separator, split_spec, upper_all,
};
use crate::converter::{CaseConverter, gap_start};
use crate::matching::{bytes_of, chars_between, is_span, spans_wf};
use vstd::utf8::{
    decode_utf8_split, encode_utf8_decode_utf8, encode_utf8_valid_utf8, is_char_boundary,
    is_char_boundary_iff_not_is_continuation_byte, is_char_boundary_start_end_of_seq, valid_utf8,
    valid_utf8_split,
};
use crate::letters::{
    all_ascii, ascii_lower_char, ascii_upper_char, is_ascii_char, is_ascii_digit, is_ascii_lower,
    is_ascii_upper, is_upper, lower, upper,
};

verus! {

/// A lowercase letter or a digit.
pub open spec fn is_lower_alnum(c: char) -> bool {
    is_ascii_lower(c) || is_ascii_digit(c)
}

/// An uppercase letter or a digit.
pub open spec fn is_upper_alnum(c: char) -> bool {
    is_ascii_upper(c) || is_ascii_digit(c)
}

proof fn lemma_case_chars(c: char)
    ensures
        is_ascii_upper(c) ==> ascii_upper_char(ascii_lower_char(c)) == c,
        is_ascii_upper(c) ==> is_ascii_lower(ascii_lower_char(c)),
        is_ascii_lower(c) ==> ascii_lower_char(ascii_upper_char(c)) == c,
        is_ascii_lower(c) ==> is_ascii_upper(ascii_upper_char(c)),
        is_lower_alnum(c) ==> ascii_lower_char(c) == c,
        is_upper_alnum(c) ==> ascii_upper_char(c) == c,
        is_ascii_digit(c) ==> ascii_lower_char(c) == c && ascii_upper_char(c) == c,
        (is_ascii_upper(c) || is_lower_alnum(c)) ==> is_ascii_char(c),
{
}

/// Every character of `s` satisfies `p`.
pub open spec fn all_chars(s: Seq<char>, p: spec_fn(char) -> bool) -> bool {
    forall|i: int| 0 <= i < s.len() ==> p(#[trigger] s[i])
}

/// Every character of every word satisfies `p`.
pub open spec fn all_words_chars(ws: Seq<Seq<char>>, p: spec_fn(char) -> bool) -> bool {
    forall|i: int| 0 <= i < ws.len() ==> all_chars(#[trigger] ws[i], p)
}

pub open spec fn ascii_alnum(c: char) -> bool {
    is_ascii_upper(c) || is_lower_alnum(c)
}

proof fn lemma_lower_same(w: Seq<char>)
    requires
        all_chars(w, |c: char| is_lower_alnum(c)),
    ensures
        lower(w) == w,
{
    assert forall|i: int| 0 <= i < w.len() implies is_ascii_char(#[trigger] w[i]) by {
        lemma_case_chars(w[i]);
    }
    assert forall|i: int| 0 <= i < w.len() implies #[trigger] ascii_lower_char(w[i]) == w[i] by {
        lemma_case_chars(w[i]);
    }
    assert(w.map_values(|c: char| ascii_lower_char(c)) =~= w);
}

proof fn lemma_upper_same(w: Seq<char>)
    requires
        all_chars(w, |c: char| is_upper_alnum(c)),
    ensures
        upper(w) == w,
{
    assert forall|i: int| 0 <= i < w.len() implies is_ascii_char(#[trigger] w[i]) by {
        lemma_case_chars(w[i]);
    }
    assert forall|i: int| 0 <= i < w.len() implies #[trigger] ascii_upper_char(w[i]) == w[i] by {
        lemma_case_chars(w[i]);
    }
    assert(w.map_values(|c: char| ascii_upper_char(c)) =~= w);
}

/// Lowering a word of uppercase letters and digits and raising it again
/// gives it back; the lowered word has lowercase letters and digits.
proof fn lemma_lower_then_upper(w: Seq<char>)
    requires
        all_chars(w, |c: char| is_upper_alnum(c)),
    ensures
        all_chars(lower(w), |c: char| is_lower_alnum(c)),
        upper(lower(w)) == w,
{
    assert forall|i: int| 0 <= i < w.len() implies is_ascii_char(#[trigger] w[i]) by {
        lemma_case_chars(w[i]);
    }
    let l = w.map_values(|c: char| ascii_lower_char(c));
    assert(lower(w) == l);
    assert forall|i: int| 0 <= i < l.len() implies is_lower_alnum(#[trigger] l[i]) && is_ascii_char(l[i])
        && ascii_upper_char(l[i]) == w[i] by {
        lemma_case_chars(w[i]);
    }
    assert(l.map_values(|c: char| ascii_upper_char(c)) =~= w);
}

/// Raising a word of lowercase letters and digits and lowering it again
/// gives it back; the raised word has uppercase letters and digits.
proof fn lemma_upper_then_lower(w: Seq<char>)
    requires
        all_chars(w, |c: char| is_lower_alnum(c)),
    ensures
        all_chars(upper(w), |c: char| is_upper_alnum(c)),
        lower(upper(w)) == w,
{
    assert forall|i: int| 0 <= i < w.len() implies is_ascii_char(#[trigger] w[i]) by {
        lemma_case_chars(w[i]);
    }
    let u = w.map_values(|c: char| ascii_upper_char(c));
    assert(upper(w) == u);
    assert forall|i: int| 0 <= i < u.len() implies is_upper_alnum(#[trigger] u[i]) && is_ascii_char(u[i])
        && ascii_lower_char(u[i]) == w[i] by {
        lemma_case_chars(w[i]);
    }
    assert(u.map_values(|c: char| ascii_lower_char(c)) =~= w);
}

proof fn lemma_upper_one(c: char)
    requires
        is_ascii_char(c),
    ensures
        upper(seq![c]) == seq![ascii_upper_char(c)],
{
    assert(all_ascii(seq![c]));
    assert(seq![c].map_values(|x: char| ascii_upper_char(x)) =~= seq![ascii_upper_char(c)]);
}

/// A word that begins with an uppercase letter, followed by lowercase
/// letters and digits, survives lowering and capitalizing.
proof fn lemma_capitalize_lower(h: Seq<char>)
    requires
        h.len() > 0,
        is_ascii_upper(h[0]),
        forall|j: int| 1 <= j < h.len() ==> is_lower_alnum(#[trigger] h[j]),
    ensures
        capitalize(lower(h)) == h,
{
    assert forall|i: int| 0 <= i < h.len() implies is_ascii_char(#[trigger] h[i]) by {
        lemma_case_chars(h[i]);
    }
    let l = h.map_values(|c: char| ascii_lower_char(c));
    assert(lower(h) == l);
    lemma_case_chars(h[0]);
    lemma_upper_one(l[0]);
    assert forall|j: int| 1 <= j < h.len() implies #[trigger] l[j] == h[j] by {
        lemma_case_chars(h[j]);
    }
    assert(capitalize(l) =~= h);
}

/// A word of lowercase letters and digits that begins with a letter survives
/// capitalizing and lowering; its capital form begins with an uppercase
/// letter.
proof fn lemma_lower_capitalize(w: Seq<char>)
    requires
        w.len() > 0,
        all_chars(w, |c: char| is_lower_alnum(c)),
    ensures
        lower(capitalize(w)) == w,
        capitalize(w).len() == w.len(),
        is_ascii_lower(w[0]) ==> is_ascii_upper(capitalize(w)[0]),
        is_ascii_digit(w[0]) ==> capitalize(w) == w,
        forall|j: int| 1 <= j < w.len() ==> #[trigger] capitalize(w)[j] == w[j],
{
    lemma_case_chars(w[0]);
    lemma_upper_one(w[0]);
    let cw = capitalize(w);
    assert(cw =~= seq![ascii_upper_char(w[0])] + w.drop_first());
    assert forall|i: int| 0 <= i < cw.len() implies is_ascii_char(#[trigger] cw[i]) by {
        if i > 0 {
            lemma_case_chars(w[i]);
        }
    }
    assert forall|i: int| 0 <= i < cw.len() implies #[trigger] ascii_lower_char(cw[i]) == w[i] by {
        lemma_case_chars(w[i]);
    }
    assert(cw.map_values(|c: char| ascii_lower_char(c)) =~= w);
    if is_ascii_digit(w[0]) {
        assert(cw =~= w);
    }
}

// ---------------------------------------------------------------------------
// Scanning humps

proof fn lemma_hump_plain(p: Seq<char>, t: Seq<char>)
    requires
        forall|j: int| 0 <= j < t.len() ==> !is_upper(#[trigger] t[j]),
    ensures
        hump_scan(p + t) == (hump_scan(p).0, hump_scan(p).1 + t),
    decreases t.len(),
{
    if t.len() == 0 {
        assert(p + t =~= p);
        assert(hump_scan(p).1 + t =~= hump_scan(p).1);
    } else {
        lemma_hump_plain(p, t.drop_last());
        assert((p + t).drop_last() =~= p + t.drop_last());
        assert(hump_scan(p).1 + t =~= (hump_scan(p).1 + t.drop_last()).push(t.last()));
    }
}

proof fn lemma_hump_word(p: Seq<char>, h: Seq<char>)
    requires
        h.len() > 0,
        is_upper(h[0]),
        forall|j: int| 1 <= j < h.len() ==> !is_upper(#[trigger] h[j]),
    ensures
        hump_scan(p + h) == (if hump_scan(p).1.len() > 0 {
            hump_scan(p).0.push(hump_scan(p).1)
        } else {
            hump_scan(p).0
        }, h),
{
    let q = p.push(h[0]);
    assert(q.drop_last() =~= p);
    let rest = h.drop_first();
    assert forall|j: int| 0 <= j < rest.len() implies !is_upper(#[trigger] rest[j]) by {
        assert(rest[j] == h[j + 1]);
    }
    lemma_hump_plain(q, rest);
    assert(q + rest =~= p + h);
    assert(seq![h[0]] + rest =~= h);
}

proof fn lemma_concat_push(ws: Seq<Seq<char>>, w: Seq<char>)
    ensures
        concat(ws.push(w)) == concat(ws) + w,
{
    assert(ws.push(w).drop_last() =~= ws);
}

proof fn lemma_concat_first(ws: Seq<Seq<char>>)
    requires
        ws.len() > 0,
    ensures
        concat(ws) == ws[0] + concat(ws.drop_first()),
    decreases ws.len(),
{
    if ws.len() == 1 {
        assert(ws.drop_last() =~= Seq::<Seq<char>>::empty());
        assert(ws.drop_first() =~= Seq::<Seq<char>>::empty());
        assert(concat(ws.drop_last()) == Seq::<char>::empty());
        assert(concat(ws) =~= ws[0]);
        assert(ws[0] + concat(ws.drop_first()) =~= ws[0]);
    } else {
        lemma_concat_first(ws.drop_last());
        assert(ws.drop_last().drop_first() =~= ws.drop_first().drop_last());
        assert(ws.drop_first().last() == ws.last());
        assert(ws[0] + concat(ws.drop_first()) =~= ws[0] + concat(ws.drop_first().drop_last())
            + ws.last());
    }
}

/// A list of words that assembly and segmentation in style `f` keep: at least
/// one word, each non-empty, of lowercase letters and digits; in camel and
/// Pascal case, each word after the first begins with a letter.
pub open spec fn plain_words(f: CaseFormat, ws: Seq<Seq<char>>) -> bool {
    &&& ws.len() > 0
    &&& forall|i: int| 0 <= i < ws.len() ==> (#[trigger] ws[i]).len() > 0
    &&& forall|i: int| 0 <= i < ws.len() ==> all_chars(#[trigger] ws[i], |c: char| is_lower_alnum(c))
    &&& is_humped(f) ==> forall|i: int| 1 <= i < ws.len() ==> is_ascii_lower((#[trigger] ws[i])[0])
}

/// The words of a camel or Pascal identifier assembled from `ws`, as they
/// stand in it.
spec fn written_humps(f: CaseFormat, ws: Seq<Seq<char>>) -> Seq<Seq<char>> {
    Seq::new(ws.len(), |i: int| if i == 0 && f == CaseFormat::CamelCase { ws[0] } else { capitalize(ws[i]) })
}

/// The identifier assembled from the first `k` words in a humped style.
spec fn humped_prefix(f: CaseFormat, ws: Seq<Seq<char>>, k: int) -> Seq<char> {
    if f == CaseFormat::CamelCase {
        lower(ws[0]) + concat(capitalize_all(ws.subrange(1, k)))
    } else {
        concat(capitalize_all(ws.take(k)))
    }
}

proof fn lemma_written_hump(f: CaseFormat, ws: Seq<Seq<char>>, i: int)
    requires
        is_humped(f),
        plain_words(f, ws),
        0 <= i < ws.len(),
    ensures
        written_humps(f, ws)[i].len() > 0,
        lower(written_humps(f, ws)[i]) == ws[i],
        forall|j: int| 1 <= j < ws[i].len() ==> !is_upper(#[trigger] written_humps(f, ws)[i][j]),
        i > 0 ==> is_upper(written_humps(f, ws)[i][0]),
        (i == 0 && (f == CaseFormat::CamelCase || is_ascii_digit(ws[0][0]))) ==> forall|j: int|
            0 <= j < ws[0].len() ==> !is_upper(#[trigger] written_humps(f, ws)[0][j]),
        i == 0 && f == CaseFormat::PascalCase && is_ascii_lower(ws[0][0]) ==> is_upper(written_humps(f, ws)[0][0]),
{
    let w = ws[i];
    assert(all_chars(w, |c: char| is_lower_alnum(c)));
    lemma_lower_capitalize(w);
    assert forall|j: int| 0 <= j < w.len() implies !is_upper(#[trigger] w[j]) by {
        lemma_case_chars(w[j]);
    }
    if i == 0 && f == CaseFormat::CamelCase {
        lemma_lower_same(w);
    } else {
        lemma_case_chars(w[0]);
        lemma_case_chars(capitalize(w)[0]);
    }
}

proof fn lemma_humped_scan(f: CaseFormat, ws: Seq<Seq<char>>, k: int)
    requires
        is_humped(f),
        plain_words(f, ws),
        1 <= k <= ws.len(),
    ensures
        hump_scan(humped_prefix(f, ws, k)) == (written_humps(f, ws).take(k - 1), written_humps(f, ws)[k - 1]),
    decreases k,
{
    let hs = written_humps(f, ws);
    if k == 1 {
        lemma_written_hump(f, ws, 0);
        let e = Seq::<char>::empty();
        assert(hump_scan(e) == (Seq::<Seq<char>>::empty(), e));
        if f == CaseFormat::CamelCase {
            assert(ws.subrange(1, 1) =~= Seq::<Seq<char>>::empty());
            assert(capitalize_all(ws.subrange(1, 1)) =~= Seq::<Seq<char>>::empty());
            assert(concat(capitalize_all(ws.subrange(1, 1))) == e);
            lemma_lower_same(ws[0]);
            assert(humped_prefix(f, ws, 1) =~= e + hs[0]);
            lemma_hump_plain(e, hs[0]);
        } else {
            assert(capitalize_all(ws.take(1)) =~= seq![hs[0]]);
            assert(seq![hs[0]].drop_last() =~= Seq::<Seq<char>>::empty());
            assert(concat(Seq::<Seq<char>>::empty()) == e);
            assert(humped_prefix(f, ws, 1) =~= e + hs[0]);
            if is_ascii_digit(ws[0][0]) {
                lemma_hump_plain(e, hs[0]);
            } else {
                lemma_hump_word(e, hs[0]);
            }
        }
        assert(hs.take(0) =~= Seq::<Seq<char>>::empty());
        assert(e + hs[0] =~= hs[0]);
    } else {
        lemma_humped_scan(f, ws, k - 1);
        lemma_written_hump(f, ws, k - 1);
        lemma_written_hump(f, ws, k - 2);
        let p = humped_prefix(f, ws, k - 1);
        if f == CaseFormat::CamelCase {
            let xs = capitalize_all(ws.subrange(1, k));
            assert(xs.drop_last() =~= capitalize_all(ws.subrange(1, k - 1)));
            assert(humped_prefix(f, ws, k) =~= p + hs[k - 1]);
        } else {
            let xs = capitalize_all(ws.take(k));
            assert(xs.drop_last() =~= capitalize_all(ws.take(k - 1)));
            assert(humped_prefix(f, ws, k) =~= p + hs[k - 1]);
        }
        lemma_hump_word(p, hs[k - 1]);
        assert(hs.take(k - 2).push(hs[k - 2]) =~= hs.take(k - 1));
    }
}

// ---------------------------------------------------------------------------
// Scanning separated pieces

proof fn lemma_piece_plain(p: Seq<char>, t: Seq<char>, sep: char)
    requires
        forall|j: int| 0 <= j < t.len() ==> #[trigger] t[j] != sep,
    ensures
        piece_scan(p + t, sep) == (piece_scan(p, sep).0, piece_scan(p, sep).1 + t),
    decreases t.len(),
{
    if t.len() == 0 {
        assert(p + t =~= p);
        assert(piece_scan(p, sep).1 + t =~= piece_scan(p, sep).1);
    } else {
        lemma_piece_plain(p, t.drop_last(), sep);
        assert((p + t).drop_last() =~= p + t.drop_last());
        assert(piece_scan(p, sep).1 + t =~= (piece_scan(p, sep).1 + t.drop_last()).push(t.last()));
    }
}

/// The words as assembled in a separated style.
spec fn written_pieces(f: CaseFormat, ws: Seq<Seq<char>>) -> Seq<Seq<char>> {
    if f == CaseFormat::ScreamingSnakeCase || f == CaseFormat::ScreamingKebabCase {
        upper_all(ws)
    } else {
        lower_all(ws)
    }
}

proof fn lemma_written_piece(f: CaseFormat, ws: Seq<Seq<char>>, i: int)
    requires
        !is_humped(f),
        plain_words(f, ws),
        0 <= i < ws.len(),
    ensures
        written_pieces(f, ws)[i].len() > 0,
        lower(written_pieces(f, ws)[i]) == ws[i],
        forall|j: int| 0 <= j < written_pieces(f, ws)[i].len() ==> #[trigger] written_pieces(f, ws)[i][j] != separator(f),
{
    let w = ws[i];
    assert(all_chars(w, |c: char| is_lower_alnum(c)));
    if f == CaseFormat::ScreamingSnakeCase || f == CaseFormat::ScreamingKebabCase {
        lemma_upper_then_lower(w);
        assert(upper(w) == w.map_values(|c: char| ascii_upper_char(c))) by {
            assert forall|j: int| 0 <= j < w.len() implies is_ascii_char(#[trigger] w[j]) by {
                lemma_case_chars(w[j]);
            }
        }
        assert(forall|j: int| 0 <= j < upper(w).len() ==> is_upper_alnum(#[trigger] upper(w)[j]));
    } else {
        lemma_lower_same(w);
        lemma_lower_same(w);
    }
}

proof fn lemma_pieces_scan(f: CaseFormat, ws: Seq<Seq<char>>, k: int)
    requires
        !is_humped(f),
        plain_words(f, ws),
        1 <= k <= ws.len(),
    ensures
        piece_scan(join_with(written_pieces(f, ws).take(k), separator(f)), separator(f)) == (
            written_pieces(f, ws).take(k - 1),
            written_pieces(f, ws)[k - 1],
        ),
    decreases k,
{
    let ts = written_pieces(f, ws);
    let sep = separator(f);
    let e = Seq::<char>::empty();
    lemma_written_piece(f, ws, k - 1);
    if k == 1 {
        assert(ts.take(1).len() == 1);
        assert(join_with(ts.take(1), sep) == ts[0]);
        assert(piece_scan(e, sep) == (Seq::<Seq<char>>::empty(), e));
        lemma_piece_plain(e, ts[0], sep);
        assert(e + ts[0] =~= ts[0]);
        assert(ts.take(0) =~= Seq::<Seq<char>>::empty());
    } else {
        lemma_pieces_scan(f, ws, k - 1);
        lemma_written_piece(f, ws, k - 2);
        let p = join_with(ts.take(k - 1), sep);
        assert(ts.take(k).drop_last() =~= ts.take(k - 1));
        assert(join_with(ts.take(k), sep) == p.push(sep) + ts[k - 1]);
        assert(p.push(sep).drop_last() =~= p);
        assert(piece_scan(p.push(sep), sep) == (ts.take(k - 2).push(ts[k - 2]), e));
        lemma_piece_plain(p.push(sep), ts[k - 1], sep);
        assert(ts.take(k - 2).push(ts[k - 2]) =~= ts.take(k - 1));
        assert(e + ts[k - 1] =~= ts[k - 1]);
    }
}

/// Segmentation undoes assembly: in every style, splitting the identifier
/// assembled from a list of lowercase words without affixes gives the list
/// back. The words are non-empty and made of lowercase letters and digits;
/// in camel and Pascal case each word after the first begins with a letter,
/// since a digit there would not start a new word.
pub proof fn lemma_split_join(f: CaseFormat, ws: Seq<Seq<char>>)
    requires
        plain_words(f, ws),
    ensures
        split_spec(f, join_spec(f, ws, Seq::empty(), Seq::empty())) == ws,
{
    let e = Seq::<char>::empty();
    let body = join_body(f, ws);
    assert(join_spec(f, ws, e, e) =~= body);
    if is_humped(f) {
        let hs = written_humps(f, ws);
        let n = ws.len() as int;
        lemma_humped_scan(f, ws, n);
        if f == CaseFormat::CamelCase {
            assert(ws.subrange(1, n) =~= ws.drop_first());
        } else {
            assert(ws.take(n) =~= ws);
        }
        assert(humped_prefix(f, ws, n) == body);
        lemma_written_hump(f, ws, n - 1);
        assert(hs.take(n - 1).push(hs[n - 1]) =~= hs);
        assert(humps(body) == hs);
        assert forall|i: int| 0 <= i < n implies #[trigger] lower_all(hs)[i] == ws[i] by {
            lemma_written_hump(f, ws, i);
        }
        assert(lower_all(hs) =~= ws);
    } else {
        let ts = written_pieces(f, ws);
        let sep = separator(f);
        let n = ws.len() as int;
        lemma_pieces_scan(f, ws, n);
        assert(ts.take(n) =~= ts);
        assert(body == join_with(ts, sep));
        lemma_written_piece(f, ws, n - 1);
        assert(ts.take(n - 1).push(ts[n - 1]) =~= ts);
        assert(pieces(body, sep) == ts);
        assert forall|i: int| 0 <= i < n implies #[trigger] lower_all(ts)[i] == ws[i] by {
            lemma_written_piece(f, ws, i);
        }
        assert(lower_all(ts) =~= ws);
    }
}

// ---------------------------------------------------------------------------
// The shapes that the recognition patterns match

/// The shape of a camel identifier: lowercase letters, then one or more
/// humps, each an uppercase letter followed by lowercase letters and digits.
pub open spec fn camel_shape(s: Seq<char>) -> bool {
    &&& s.len() > 0
    &&& is_ascii_lower(s[0])
    &&& all_chars(s, |c: char| ascii_alnum(c))
    &&& exists|i: int| 0 <= i < s.len() && is_ascii_upper(#[trigger] s[i])
    &&& forall|i: int| 0 <= i < s.len() && is_ascii_digit(#[trigger] s[i])
        ==> exists|j: int| 0 <= j < i && is_ascii_upper(#[trigger] s[j])
}

/// The shape of a Pascal identifier: an uppercase letter, one or more
/// lowercase letters or digits, then one or more humps.
pub open spec fn pascal_shape(s: Seq<char>) -> bool {
    &&& s.len() > 2
    &&& is_ascii_upper(s[0])
    &&& is_lower_alnum(s[1])
    &&& all_chars(s, |c: char| ascii_alnum(c))
    &&& exists|i: int| 2 <= i < s.len() && is_ascii_upper(#[trigger] s[i])
}

/// The shape of a separated identifier: letters of one case, then one or
/// more groups of `sep` followed by letters of that case and digits.
pub open spec fn separated_shape(s: Seq<char>, sep: char, loud: bool) -> bool {
    let letter = |c: char| if loud { is_ascii_upper(c) } else { is_ascii_lower(c) };
    &&& s.len() > 0
    &&& letter(s[0])
    &&& s.last() != sep
    &&& forall|i: int| 0 <= i < s.len() ==> (#[trigger] s[i] == sep || letter(s[i]) || is_ascii_digit(s[i]))
    &&& forall|i: int| 0 <= i < s.len() - 1 && #[trigger] s[i] == sep ==> s[i + 1] != sep
    &&& exists|i: int| 0 <= i < s.len() && #[trigger] s[i] == sep
    &&& forall|i: int| 0 <= i < s.len() && is_ascii_digit(#[trigger] s[i])
        ==> exists|j: int| 0 <= j < i && #[trigger] s[j] == sep
}

/// Whether the whole of `s` has the shape that the recognition pattern of
/// style `f` matches.
pub open spec fn matches_shape(f: CaseFormat, s: Seq<char>) -> bool {
    match f {
        CaseFormat::CamelCase => camel_shape(s),
        CaseFormat::PascalCase => pascal_shape(s),
        CaseFormat::SnakeCase => separated_shape(s, '_', false),
        CaseFormat::ScreamingSnakeCase => separated_shape(s, '_', true),
        CaseFormat::KebabCase => separated_shape(s, '-', false),
        CaseFormat::ScreamingKebabCase => separated_shape(s, '-', true),
    }
}

proof fn lemma_hump_structure(s: Seq<char>)
    ensures
        concat(hump_scan(s).0) + hump_scan(s).1 == s,
        s.len() > 0 ==> hump_scan(s).1.len() > 0,
        forall|i: int| 0 <= i < hump_scan(s).0.len() ==> (#[trigger] hump_scan(s).0[i]).len() > 0,
        forall|i: int| 0 < i < hump_scan(s).0.len() ==> is_upper((#[trigger] hump_scan(s).0[i])[0]),
        hump_scan(s).0.len() > 0 ==> is_upper(hump_scan(s).1[0]),
        forall|i: int, j: int| 0 <= i < hump_scan(s).0.len() && 1 <= j < hump_scan(s).0[i].len()
            ==> !is_upper(#[trigger] hump_scan(s).0[i][j]),
        forall|j: int| 1 <= j < hump_scan(s).1.len() ==> !is_upper(#[trigger] hump_scan(s).1[j]),
        hump_scan(s).0.len() > 0 ==> hump_scan(s).0[0][0] == s[0],
        hump_scan(s).0.len() == 0 && s.len() > 0 ==> hump_scan(s).1[0] == s[0],
        all_chars(s, |c: char| ascii_alnum(c)) ==> all_words_chars(hump_scan(s).0, |c: char| ascii_alnum(c))
            && all_chars(hump_scan(s).1, |c: char| ascii_alnum(c)),
    decreases s.len(),
{
    if s.len() == 0 {
        assert(concat(Seq::<Seq<char>>::empty()) == Seq::<char>::empty());
        assert(Seq::<char>::empty() + Seq::<char>::empty() =~= s);
    } else {
        let t = s.drop_last();
        lemma_hump_structure(t);
        let (d, c) = hump_scan(t);
        let x = s.last();
        assert(t.push(x) =~= s);
        if t.len() > 0 {
            assert(t[0] == s[0]);
        }
        if all_chars(s, |c: char| ascii_alnum(c)) {
            assert(all_chars(t, |c: char| ascii_alnum(c))) by {
                assert forall|i: int| 0 <= i < t.len() implies ascii_alnum(#[trigger] t[i]) by {
                    assert(t[i] == s[i]);
                }
            }
            assert(ascii_alnum(s[s.len() - 1]));
        }
        if is_upper(x) && c.len() > 0 {
            lemma_concat_push(d, c);
            assert(concat(d) + c + seq![x] =~= s);
            assert(d.push(c)[d.len() as int] == c);
        } else {
            assert(concat(d) + c.push(x) =~= s);
        }
    }
}

proof fn lemma_humped_round_trip(f: CaseFormat, s: Seq<char>)
    requires
        f == CaseFormat::CamelCase ==> camel_shape(s),
        f == CaseFormat::PascalCase ==> pascal_shape(s),
        is_humped(f),
    ensures
        join_body(f, split_spec(f, s)) == s,
{
    lemma_hump_structure(s);
    let (d, c) = hump_scan(s);
    let hs = d.push(c);
    assert(humps(s) == hs);
    lemma_concat_push(d, c);
    assert(all_chars(s, |c: char| ascii_alnum(c)));
    let ws = lower_all(hs);
    assert(split_spec(f, s) == ws);
    assert forall|i: int| 0 <= i < hs.len() implies all_chars(#[trigger] hs[i], |c: char| ascii_alnum(c)) by {
        if i < d.len() {
            assert(all_chars(d[i], |c: char| ascii_alnum(c)));
        }
    }
    // every word after the first begins with an uppercase letter, the rest of it plain
    assert forall|i: int| 0 <= i < hs.len() && (i > 0 || f == CaseFormat::PascalCase)
        implies #[trigger] capitalize(ws[i]) == hs[i] by {
        let h = hs[i];
        assert(all_chars(h, |c: char| ascii_alnum(c)));
        assert(h.len() > 0);
        lemma_case_chars(h[0]);
        assert(is_upper(h[0]));
        assert forall|j: int| 1 <= j < h.len() implies is_lower_alnum(#[trigger] h[j]) by {
            assert(ascii_alnum(h[j]));
            lemma_case_chars(h[j]);
            if i < d.len() {
                assert(!is_upper(d[i][j]));
            } else {
                assert(!is_upper(c[j]));
            }
        }
        lemma_capitalize_lower(h);
    }
    if f == CaseFormat::CamelCase {
        let h = hs[0];
        assert(all_chars(h, |c: char| ascii_alnum(c)));
        assert(all_chars(h, |c: char| is_lower_alnum(c))) by {
            assert forall|j: int| 0 <= j < h.len() implies is_lower_alnum(#[trigger] h[j]) by {
                assert(ascii_alnum(h[j]));
                lemma_case_chars(h[j]);
                if j == 0 {
                    assert(h[0] == s[0]);
                } else if 0 < d.len() {
                    assert(!is_upper(d[0][j]));
                } else {
                    assert(!is_upper(c[j]));
                }
            }
        }
        lemma_lower_same(h);
        lemma_lower_same(lower(h));
        assert(capitalize_all(ws.drop_first()) =~= hs.drop_first());
        lemma_concat_first(hs);
    } else {
        assert(capitalize_all(ws) =~= hs);
    }
}

proof fn lemma_piece_structure(s: Seq<char>, sep: char, p: spec_fn(char) -> bool)
    requires
        s.len() > 0 ==> s[0] != sep,
        forall|i: int| 0 <= i < s.len() - 1 && #[trigger] s[i] == sep ==> s[i + 1] != sep,
        forall|i: int| 0 <= i < s.len() ==> #[trigger] s[i] == sep || p(s[i]),
    ensures
        s.len() > 0 && s.last() != sep ==> piece_scan(s, sep).1.len() > 0,
        s.len() > 0 && piece_scan(s, sep).0.len() == 0 ==> piece_scan(s, sep).1 == s,
        s.len() > 0 && piece_scan(s, sep).0.len() > 0 ==> join_with(piece_scan(s, sep).0, sep).push(sep)
            + piece_scan(s, sep).1 == s,
        forall|i: int| 0 <= i < piece_scan(s, sep).0.len() ==> (#[trigger] piece_scan(s, sep).0[i]).len() > 0,
        all_words_chars(piece_scan(s, sep).0, p),
        all_chars(piece_scan(s, sep).1, p),
    decreases s.len(),
{
    if s.len() > 0 {
        let t = s.drop_last();
        assert forall|i: int| 0 <= i < t.len() - 1 && #[trigger] t[i] == sep implies t[i + 1] != sep by {
            assert(s[i] == t[i] && s[i + 1] == t[i + 1]);
        }
        assert forall|i: int| 0 <= i < t.len() implies #[trigger] t[i] == sep || p(t[i]) by {
            assert(s[i] == t[i]);
        }
        if t.len() > 0 {
            assert(t[0] == s[0]);
        }
        lemma_piece_structure(t, sep, p);
        let (d, c) = piece_scan(t, sep);
        let x = s.last();
        assert(t.push(x) =~= s);
        if x == sep {
            assert(t.len() > 0);
            assert(s[t.len() - 1] == t.last());
            assert(t.last() != sep);
            assert(d.push(c).drop_last() =~= d);
            if d.len() == 0 {
                assert(join_with(d.push(c), sep) == c);
            }
        } else {
            assert(p(s[s.len() - 1]));
            if t.len() == 0 {
                assert(c =~= Seq::<char>::empty());
                assert(c.push(x) =~= s);
            } else if d.len() == 0 {
                assert(c.push(x) =~= s);
            } else {
                assert(join_with(d, sep).push(sep) + c.push(x) =~= s);
            }
        }
    }
}

proof fn lemma_separated_round_trip(f: CaseFormat, s: Seq<char>)
    requires
        !is_humped(f),
        matches_shape(f, s),
    ensures
        join_body(f, split_spec(f, s)) == s,
{
    let sep = separator(f);
    let loud = f == CaseFormat::ScreamingSnakeCase || f == CaseFormat::ScreamingKebabCase;
    assert(separated_shape(s, sep, loud));
    let p = if loud {
        |c: char| is_upper_alnum(c)
    } else {
        |c: char| is_lower_alnum(c)
    };
    assert forall|i: int| 0 <= i < s.len() implies #[trigger] s[i] == sep || p(s[i]) by {
        assert(s[i] == sep || (if loud { is_ascii_upper(s[i]) } else { is_ascii_lower(s[i]) }) || is_ascii_digit(s[i]));
    }
    lemma_piece_structure(s, sep, p);
    let (d, c) = piece_scan(s, sep);
    let ps = d.push(c);
    assert(pieces(s, sep) == ps);
    assert(ps.drop_last() =~= d);
    assert(join_with(ps, sep) == s) by {
        if d.len() == 0 {
            assert(join_with(ps, sep) == c);
        }
    }
    assert forall|i: int| 0 <= i < ps.len() implies all_chars(#[trigger] ps[i], p) by {
        if i < d.len() {
            assert(all_chars(d[i], p));
        }
    }
    let ws = lower_all(ps);
    if loud {
        assert forall|i: int| 0 <= i < ps.len() implies #[trigger] upper(ws[i]) == ps[i] by {
            assert(all_chars(ps[i], |c: char| is_upper_alnum(c)));
            lemma_lower_then_upper(ps[i]);
        }
        assert(upper_all(ws) =~= ps);
    } else {
        assert forall|i: int| 0 <= i < ps.len() implies #[trigger] lower(ws[i]) == ps[i] by {
            assert(all_chars(ps[i], |c: char| is_lower_alnum(c)));
            lemma_lower_same(ps[i]);
        }
        assert(lower_all(ws) =~= ps);
    }
}

/// Assembly undoes segmentation: an identifier that has the shape its
/// style's recognition pattern matches is rebuilt exactly when its words are
/// joined again in that style without affixes.
pub proof fn lemma_join_split(f: CaseFormat, s: Seq<char>)
    requires
        matches_shape(f, s),
    ensures
        join_spec(f, split_spec(f, s), Seq::empty(), Seq::empty()) == s,
{
    if is_humped(f) {
        lemma_humped_round_trip(f, s);
        lemma_hump_structure(s);
    } else {
        lemma_separated_round_trip(f, s);
        let sep = separator(f);
        let loud = f == CaseFormat::ScreamingSnakeCase || f == CaseFormat::ScreamingKebabCase;
        assert(separated_shape(s, sep, loud));
        let p = |c: char| c != sep;
        lemma_piece_structure(s, sep, p);
    }
    let ws = split_spec(f, s);
    assert(ws.len() > 0);
    assert(Seq::<char>::empty() + join_body(f, ws) + Seq::<char>::empty() =~= join_body(f, ws));
}

// ---------------------------------------------------------------------------
// Rewriting

proof fn lemma_chars_between_extend(t: Seq<char>, b: int, c: int)
    requires
        is_span(t, b, c),
    ensures
        chars_between(t, 0, b) + chars_between(t, b, c) == chars_between(t, 0, c),
{
    let bs = bytes_of(t);
    encode_utf8_valid_utf8(t);
    valid_utf8_split(bs, c);
    let head = bs.subrange(0, c);
    assert(is_char_boundary(head, b)) by {
        if b == c {
            is_char_boundary_start_end_of_seq(head);
        } else if b > 0 {
            is_char_boundary_iff_not_is_continuation_byte(bs, b);
            is_char_boundary_iff_not_is_continuation_byte(head, b);
            assert(head[b] == bs[b]);
        }
    }
    decode_utf8_split(head, b);
    assert(head.subrange(0, b) =~= bs.subrange(0, b));
    assert(head.subrange(b, head.len() as int) =~= bs.subrange(b, c));
}

proof fn lemma_rewritten_upto_identity(
    conv: CaseConverter,
    text: Seq<char>,
    spans: Seq<(usize, usize)>,
    verdicts: Seq<bool>,
    k: int,
)
    requires
        spans_wf(text, spans),
        verdicts.len() == spans.len(),
        0 <= k <= spans.len(),
        forall|i: int| 0 <= i < spans.len() ==> conv.converted(
            chars_between(text, spans[i].0 as int, spans[i].1 as int),
            #[trigger] verdicts[i],
        ) == chars_between(text, spans[i].0 as int, spans[i].1 as int),
    ensures
        conv.rewritten_upto(text, spans, verdicts, k) == chars_between(text, 0, gap_start(spans, k)),
        is_char_boundary(bytes_of(text), gap_start(spans, k)),
        0 <= gap_start(spans, k) <= bytes_of(text).len(),
    decreases k,
{
    if k == 0 {
        encode_utf8_valid_utf8(text);
        assert(bytes_of(text).subrange(0, 0) =~= Seq::<u8>::empty());
        assert(vstd::utf8::decode_utf8(Seq::<u8>::empty()) =~= Seq::<char>::empty()) by {
            encode_utf8_decode_utf8(Seq::<char>::empty());
            assert(vstd::utf8::encode_utf8(Seq::<char>::empty()) =~= Seq::<u8>::empty());
        }
    } else {
        lemma_rewritten_upto_identity(conv, text, spans, verdicts, k - 1);
        let g = gap_start(spans, k - 1);
        let a = spans[k - 1].0 as int;
        let b = spans[k - 1].1 as int;
        assert(is_span(text, a, b));
        if k > 1 {
            assert(spans[k - 2].1 <= spans[k - 1].0);
        }
        assert(verdicts[k - 1] == verdicts[k - 1]);
        lemma_chars_between_extend(text, g, a);
        lemma_chars_between_extend(text, a, b);
    }
}

proof fn lemma_rewritten_identity(conv: CaseConverter, text: Seq<char>, spans: Seq<(usize, usize)>, verdicts: Seq<bool>)
    requires
        spans_wf(text, spans),
        verdicts.len() == spans.len(),
        forall|i: int| 0 <= i < spans.len() ==> conv.converted(
            chars_between(text, spans[i].0 as int, spans[i].1 as int),
            #[trigger] verdicts[i],
        ) == chars_between(text, spans[i].0 as int, spans[i].1 as int),
    ensures
        conv.rewritten(text, spans, verdicts) == text,
{
    let n = spans.len() as int;
    lemma_rewritten_upto_identity(conv, text, spans, verdicts, n);
    let bs = bytes_of(text);
    encode_utf8_valid_utf8(text);
    is_char_boundary_start_end_of_seq(bs);
    lemma_chars_between_extend(text, gap_start(spans, n), bs.len() as int);
    assert(bs.subrange(0, bs.len() as int) =~= bs);
    encode_utf8_decode_utf8(text);
}

/// A text in which the source style's pattern finds nothing comes out of a
/// rewrite unchanged.
pub proof fn lemma_no_match_unchanged(conv: CaseConverter, text: Seq<char>)
    requires
        conv.found_spans(text).len() == 0,
    ensures
        conv.rewrite_spec(text) == text,
{
    let spans = conv.found_spans(text);
    let verdicts = conv.verdicts_for(text, spans);
    assert(spans =~= Seq::<(usize, usize)>::empty());
    assert(verdicts =~= Seq::<bool>::empty());
    lemma_rewritten_identity(conv, text, Seq::empty(), Seq::empty());
}

/// Whether a converter leaves the words of an identifier as they are: it
/// converts a style into itself, with no affixes to add, strip or replace.
pub open spec fn is_identity_job(conv: CaseConverter) -> bool {
    &&& conv.from_format == conv.to_format
    &&& conv.prefix@.len() == 0
    &&& conv.suffix@.len() == 0
    &&& conv.strip_prefix is None
    &&& conv.strip_suffix is None
    &&& conv.replace_prefix_from is None
    &&& conv.replace_suffix_from is None
}

/// Converting a text into the style it is already written in changes
/// nothing: when every identifier the source pattern finds has the whole
/// shape of the style, each is rebuilt as it was, and so is the text.
pub proof fn lemma_same_style_unchanged(conv: CaseConverter, text: Seq<char>)
    requires
        is_identity_job(conv),
        spans_wf(text, conv.found_spans(text)),
        forall|i: int| 0 <= i < conv.found_spans(text).len() ==> matches_shape(
            conv.from_format,
            chars_between(text, (#[trigger] conv.found_spans(text)[i]).0 as int, conv.found_spans(text)[i].1 as int),
        ),
    ensures
        conv.rewrite_spec(text) == text,
{
    let spans = conv.found_spans(text);
    let verdicts = conv.verdicts_for(text, spans);
    assert forall|i: int| 0 <= i < spans.len() implies conv.converted(
        chars_between(text, spans[i].0 as int, spans[i].1 as int),
        #[trigger] verdicts[i],
    ) == chars_between(text, spans[i].0 as int, spans[i].1 as int) by {
        let tok = chars_between(text, spans[i].0 as int, spans[i].1 as int);
        assert(matches_shape(conv.from_format, tok));
        assert(conv.prepared(tok) == tok);
        assert(conv.prefix@ =~= Seq::<char>::empty());
        assert(conv.suffix@ =~= Seq::<char>::empty());
        lemma_join_split(conv.from_format, tok);
    }
    lemma_rewritten_identity(conv, text, spans, verdicts);
}

/// The word filter is a gate: an identifier whose prepared form the filter
/// rejects is kept exactly as it was found, whatever the prefix and suffix
/// edits would have made of it.
pub proof fn lemma_filter_gate(conv: CaseConverter, name: Seq<char>)
    requires
        conv.word_filter is Some,
    ensures
        conv.converted(name, false) == name,
{
}

/// In a rewritten text, a span whose identifier the word filter rejected
/// contributes the identifier exactly as it stood, right after the text
/// that precedes it.
pub proof fn lemma_rejected_span_kept(
    conv: CaseConverter,
    text: Seq<char>,
    spans: Seq<(usize, usize)>,
    verdicts: Seq<bool>,
    k: int,
)
    requires
        conv.word_filter is Some,
        verdicts.len() == spans.len(),
        0 <= k < spans.len(),
        !verdicts[k],
    ensures
        conv.rewritten_upto(text, spans, verdicts, k + 1) == conv.rewritten_upto(text, spans, verdicts, k)
            + chars_between(text, gap_start(spans, k), spans[k].0 as int)
            + chars_between(text, spans[k].0 as int, spans[k].1 as int),
{
    lemma_filter_gate(conv, chars_between(text, spans[k].0 as int, spans[k].1 as int));
}

} // verus!
