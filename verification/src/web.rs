//! Decisions of the embedded web service: which asset a request path may name, who may
//! call the `/api/*` routes, and which address the service listens on.
use vstd::prelude::*;

use crate::text::{
    chars_eq, chars_of, contains_char, find, find_from, join_chars, join_on, lemma_find_from,
    lemma_split_join, occurs_at, pieces_view, slice_chars, split_chars, split_on,
    string_from_chars, strip_leading, trim, trim_start_char, trimmed,
};

verus! {

broadcast use vstd::string::group_string_axioms;

// ───────────────────────────── asset paths ─────────────────────────────

/// A query or fragment begins at `?` or `#`.
pub open spec fn is_query_start(c: char) -> bool {
    c == '?' || c == '#'
}

/// The index of the first `?` or `#` in `s` at or after `i`, or the length of `s`.
pub open spec fn query_start_from(s: Seq<char>, i: int) -> int
    decreases s.len() - i,
{
    if i < 0 || i >= s.len() {
        s.len() as int
    } else if is_query_start(s[i]) {
        i
    } else {
        query_start_from(s, i + 1)
    }
}

/// `s` up to its first `?` or `#`.
pub open spec fn without_query(s: Seq<char>) -> Seq<char> {
    s.subrange(0, query_start_from(s, 0))
}

/// A path segment that could leave the asset directory or name something else than a
/// file in it: `.`, `..`, or one holding a backslash, a colon (a drive) or a NUL.
pub open spec fn forbidden_segment(seg: Seq<char>) -> bool {
    ||| seg == seq!['.']
    ||| seg == seq!['.', '.']
    ||| seg.contains('\\')
    ||| seg.contains(':')
    ||| seg.contains('\0')
}

/// The non-empty `/`-separated segments of the path part of a request path.
pub open spec fn path_segments(raw: Seq<char>) -> Seq<Seq<char>> {
    split_on(without_query(strip_leading(raw, '/')), '/').filter(|seg: Seq<char>| seg.len() > 0)
}

/// The asset served for the site root.
pub open spec fn index_asset() -> Seq<char> {
    "index.html"@
}

/// The asset a request path names: refused (`None`) when any segment is forbidden;
/// otherwise the non-empty segments joined by `/`, or `index.html` when there are none.
pub open spec fn sanitized(raw: Seq<char>) -> Option<Seq<char>> {
    let segs = path_segments(raw);
    if exists|k: int| 0 <= k < segs.len() && forbidden_segment(#[trigger] segs[k]) {
        None
    } else if segs.len() == 0 {
        Some(index_asset())
    } else {
        Some(join_on(segs, '/'))
    }
}

fn query_start(s: &Vec<char>) -> (r: usize)
    ensures
        r == query_start_from(s@, 0),
        r <= s.len(),
{
    let mut i: usize = 0;
    while i < s.len() && s[i] != '?' && s[i] != '#'
        invariant
            i <= s.len(),
            query_start_from(s@, 0) == query_start_from(s@, i as int),
        decreases s.len() - i,
    {
        i = i + 1;
    }
    i
}

fn is_forbidden(seg: &Vec<char>) -> (r: bool)
    ensures
        r == forbidden_segment(seg@),
{
    let dot: Vec<char> = vec!['.'];
    let dotdot: Vec<char> = vec!['.', '.'];
    assert(dot@ =~= seq!['.']);
    assert(dotdot@ =~= seq!['.', '.']);
    chars_eq(seg, &dot) || chars_eq(seg, &dotdot) || contains_char(seg, '\\') || contains_char(
        seg,
        ':',
    ) || contains_char(seg, '\0')
}

/// Maps a request path to the asset it names, or refuses it (`None`) when it could reach
/// outside the asset directory: any `.` or `..` segment, backslash, drive colon or NUL is
/// refused. A query or fragment is ignored, and the site root names `index.html`.
pub fn sanitize_asset_path(raw_path: &str) -> (r: Option<String>)
    ensures
        match r {
            Some(p) => sanitized(raw_path@) == Some(p@),
            None => sanitized(raw_path@) is None,
        },
{
    let raw = chars_of(raw_path);
    let stripped = trim_start_char(&raw, '/');
    let q = query_start(&stripped);
    let path = slice_chars(&stripped, 0, q);
    let pieces = split_chars(&path, '/');
    let ghost all = pieces_view(pieces@);
    let ghost nonempty = |seg: Seq<char>| seg.len() > 0;
    let mut segs: Vec<Vec<char>> = Vec::new();
    let mut bad = false;
    let mut i: usize = 0;
    assert(all.take(0) =~= Seq::<Seq<char>>::empty());
    while i < pieces.len()
        invariant
            i <= pieces.len(),
            all == pieces_view(pieces@),
            nonempty == (|seg: Seq<char>| seg.len() > 0),
            pieces_view(segs@) == all.take(i as int).filter(nonempty),
            bad == exists|k: int|
                0 <= k < segs.len() && forbidden_segment(#[trigger] pieces_view(segs@)[k]),
        decreases pieces.len() - i,
    {
        let ghost before = pieces_view(segs@);
        proof {
            all.take(i as int).lemma_filter_push(all[i as int], nonempty);
            assert(all.take(i + 1) =~= all.take(i as int).push(all[i as int]));
        }
        if pieces[i].len() > 0 {
            if is_forbidden(&pieces[i]) {
                bad = true;
            }
            let seg = slice_chars(&pieces[i], 0, pieces[i].len());
            assert(seg@ =~= all[i as int]);
            segs.push(seg);
            assert(pieces_view(segs@) =~= before.push(all[i as int]));
            assert(pieces_view(segs@)[segs.len() - 1] == all[i as int]);
            assert(forall|k: int|
                0 <= k < before.len() ==> pieces_view(segs@)[k] == #[trigger] before[k]);
        }
        i = i + 1;
    }
    assert(all.take(pieces.len() as int) =~= all);
    assert(pieces_view(segs@) == path_segments(raw_path@));
    if bad {
        None
    } else if segs.len() == 0 {
        let r = String::from_str("index.html");
        proof {
            reveal_strlit("index.html");
        }
        Some(r)
    } else {
        Some(string_from_chars(&join_chars(&segs, '/')))
    }
}

/// A path segment of a served asset: not empty, holds no `/`, and is not forbidden.
pub open spec fn safe_segment(seg: Seq<char>) -> bool {
    seg.len() > 0 && !seg.contains('/') && !forbidden_segment(seg)
}

/// Every piece of `split_on(s, c)` is a run of `s` without `c`.
proof fn lemma_split_pieces_plain(s: Seq<char>, c: char)
    ensures
        forall|k: int|
            0 <= k < split_on(s, c).len() ==> !(#[trigger] split_on(s, c)[k]).contains(c),
    decreases s.len(),
{
    if s.len() > 0 {
        lemma_split_pieces_plain(s.drop_last(), c);
        crate::text::lemma_split_on_len(s.drop_last(), c);
        let p = split_on(s.drop_last(), c);
        if s.last() != c {
            assert forall|k: int|
                0 <= k < split_on(s, c).len() implies !(#[trigger] split_on(s, c)[k]).contains(
                c,
            ) by {
                if k == p.len() - 1 {
                    let q = p.last().push(s.last());
                    if q.contains(c) {
                        let j = choose|j: int| 0 <= j < q.len() && q[j] == c;
                        if j < p.last().len() {
                            assert(p[k][j] == c);
                        }
                    }
                }
            }
        } else {
            assert forall|k: int|
                0 <= k < split_on(s, c).len() implies !(#[trigger] split_on(s, c)[k]).contains(
                c,
            ) by {
                if k < p.len() {
                    assert(split_on(s, c)[k] == p[k]);
                }
            }
        }
    }
}

/// Whatever the request path, the asset it is mapped to cannot lie outside the asset
/// directory: every `/`-separated segment of it is non-empty, and none is `.` or `..` or
/// holds a backslash, a colon or a NUL.
pub proof fn law_sanitized_path_is_safe(raw: Seq<char>)
    ensures
        sanitized(raw) matches Some(p) ==> forall|k: int|
            0 <= k < split_on(p, '/').len() ==> safe_segment(#[trigger] split_on(p, '/')[k]),
{
    let segs = path_segments(raw);
    let all = split_on(without_query(strip_leading(raw, '/')), '/');
    let nonempty = |seg: Seq<char>| seg.len() > 0;
    if let Some(p) = sanitized(raw) {
        if segs.len() == 0 {
            reveal_strlit("index.html");
            assert(split_on(p, '/') =~= seq![p]) by {
                lemma_split_join(seq![p], '/');
            }
        } else {
            lemma_split_pieces_plain(without_query(strip_leading(raw, '/')), '/');
            assert forall|k: int| 0 <= k < segs.len() implies safe_segment(
                #[trigger] segs[k],
            ) by {
                assert(segs.contains(segs[k]));
                all.lemma_filter_contains_rev(nonempty, segs[k]);
                all.lemma_filter_pred(nonempty, k);
                let j = choose|j: int| 0 <= j < all.len() && all[j] == segs[k];
                assert(!all[j].contains('/'));
            }
            lemma_split_join(segs, '/');
        }
    }
}

/// What `query_start_from` finds: no `?` or `#` before it, and one at it unless it is the end.
proof fn lemma_query_start(s: Seq<char>, i: int)
    requires
        0 <= i <= s.len(),
    ensures
        i <= query_start_from(s, i) <= s.len(),
        forall|j: int| i <= j < query_start_from(s, i) ==> !is_query_start(#[trigger] s[j]),
        query_start_from(s, i) < s.len() ==> is_query_start(s[query_start_from(s, i)]),
    decreases s.len() - i,
{
    if i < s.len() && !is_query_start(s[i]) {
        lemma_query_start(s, i + 1);
    }
}

/// Every character of a piece of `split_on(s, c)` is a character of `s`.
proof fn lemma_split_pieces_chars(s: Seq<char>, c: char)
    ensures
        forall|k: int, j: int|
            0 <= k < split_on(s, c).len() && 0 <= j < split_on(s, c)[k].len() ==> s.contains(
                #[trigger] split_on(s, c)[k][j],
            ),
    decreases s.len(),
{
    if s.len() > 0 {
        let s0 = s.drop_last();
        lemma_split_pieces_chars(s0, c);
        crate::text::lemma_split_on_len(s0, c);
        let p = split_on(s0, c);
        assert forall|k: int, j: int|
            0 <= k < split_on(s, c).len() && 0 <= j < split_on(s, c)[k].len() implies s.contains(
                #[trigger] split_on(s, c)[k][j],
            ) by {
            let x = split_on(s, c)[k][j];
            if k < p.len() && j < p[k].len() && x == p[k][j] {
                let w = choose|w: int| 0 <= w < s0.len() && s0[w] == x;
                assert(s[w] == x);
            } else {
                assert(s[s.len() - 1] == x);
            }
        }
    }
}

/// A join of non-empty pieces begins with its first piece.
proof fn lemma_join_starts_with_first(parts: Seq<Seq<char>>, c: char)
    requires
        parts.len() >= 1,
    ensures
        join_on(parts, c).len() >= parts[0].len(),
        join_on(parts, c).subrange(0, parts[0].len() as int) == parts[0],
    decreases parts.len(),
{
    if parts.len() > 1 {
        lemma_join_starts_with_first(parts.drop_last(), c);
        let a = join_on(parts.drop_last(), c);
        assert((a.push(c) + parts.last()).subrange(0, parts[0].len() as int) =~= a.subrange(
            0,
            parts[0].len() as int,
        ));
    }
}

/// Every character of a join is the separator or a character of one of the pieces.
proof fn lemma_join_chars(parts: Seq<Seq<char>>, c: char)
    ensures
        forall|j: int|
            0 <= j < join_on(parts, c).len() ==> #[trigger] join_on(parts, c)[j] == c || exists|
                k: int,
                i: int,
            | 0 <= k < parts.len() && 0 <= i < parts[k].len() && parts[k][i] == join_on(parts, c)[j],
    decreases parts.len(),
{
    if parts.len() == 1 {
        assert forall|j: int| 0 <= j < join_on(parts, c).len() implies #[trigger] join_on(
            parts,
            c,
        )[j] == c || exists|k: int, i: int|
            0 <= k < parts.len() && 0 <= i < parts[k].len() && parts[k][i] == join_on(
                parts,
                c,
            )[j] by {
            assert(parts[0][j] == join_on(parts, c)[j]);
        }
    } else if parts.len() > 1 {
        let init = parts.drop_last();
        lemma_join_chars(init, c);
        let a = join_on(init, c);
        let r = join_on(parts, c);
        assert forall|j: int| 0 <= j < r.len() implies #[trigger] r[j] == c || exists|
            k: int,
            i: int,
        | 0 <= k < parts.len() && 0 <= i < parts[k].len() && parts[k][i] == r[j] by {
            if j < a.len() {
                assert(r[j] == a[j]);
                if a[j] != c {
                    let (k, i) = choose|k: int, i: int|
                        0 <= k < init.len() && 0 <= i < init[k].len() && init[k][i] == a[j];
                    assert(parts[k] == init[k]);
                }
            } else if j > a.len() {
                let i = j - a.len() - 1;
                assert(r[j] == parts.last()[i]);
                assert(parts[parts.len() - 1] == parts.last());
            }
        }
    }
}

/// Filtering pieces that are all non-empty keeps them all.
proof fn lemma_filter_all_nonempty(parts: Seq<Seq<char>>)
    requires
        forall|k: int| 0 <= k < parts.len() ==> (#[trigger] parts[k]).len() > 0,
    ensures
        parts.filter(|seg: Seq<char>| seg.len() > 0) == parts,
    decreases parts.len(),
{
    let nonempty = |seg: Seq<char>| seg.len() > 0;
    if parts.len() > 0 {
        let init = parts.drop_last();
        lemma_filter_all_nonempty(init);
        init.lemma_filter_push(parts.last(), nonempty);
        assert(init.push(parts.last()) =~= parts);
    } else {
        assert(parts.filter(nonempty) =~= parts);
    }
}

/// The asset a request path maps to is a relative path without query or fragment: it is
/// not empty, does not begin with `/`, and holds no `?` and no `#`.
pub proof fn law_sanitized_path_shape(raw: Seq<char>)
    ensures
        sanitized(raw) matches Some(p) ==> p.len() > 0 && p[0] != '/' && !p.contains('?')
            && !p.contains('#'),
{
    let nonempty = |seg: Seq<char>| seg.len() > 0;
    if let Some(p) = sanitized(raw) {
        let segs = path_segments(raw);
        if segs.len() == 0 {
            reveal_strlit("index.html");
            assert(p.len() == 10);
            assert(!p.contains('?'));
            assert(!p.contains('#'));
        } else {
            let t = without_query(strip_leading(raw, '/'));
            let all = split_on(t, '/');
            lemma_split_pieces_plain(t, '/');
            lemma_split_pieces_chars(t, '/');
            let st = strip_leading(raw, '/');
            lemma_query_start(st, 0);
            assert forall|k: int| 0 <= k < segs.len() implies (#[trigger] segs[k]).len() > 0
                && !segs[k].contains('/') && !segs[k].contains('?') && !segs[k].contains('#') by {
                assert(segs.contains(segs[k]));
                all.lemma_filter_contains_rev(nonempty, segs[k]);
                all.lemma_filter_pred(nonempty, k);
                let w = choose|w: int| 0 <= w < all.len() && all[w] == segs[k];
                assert(!all[w].contains('/'));
                assert forall|i: int| 0 <= i < segs[k].len() implies !is_query_start(
                    #[trigger] segs[k][i],
                ) by {
                    assert(t.contains(all[w][i]));
                    let v = choose|v: int| 0 <= v < t.len() && t[v] == all[w][i];
                    assert(t[v] == st[v]);
                }
                if segs[k].contains('?') {
                    let i = choose|i: int| 0 <= i < segs[k].len() && segs[k][i] == '?';
                    assert(!is_query_start(segs[k][i]));
                }
                if segs[k].contains('#') {
                    let i = choose|i: int| 0 <= i < segs[k].len() && segs[k][i] == '#';
                    assert(!is_query_start(segs[k][i]));
                }
            }
            lemma_join_starts_with_first(segs, '/');
            assert(p[0] == segs[0][0]) by {
                assert(p.subrange(0, segs[0].len() as int)[0] == p[0]);
            }
            assert(segs[0].contains(segs[0][0]));
            lemma_join_chars(segs, '/');
            if p.contains('?') {
                let q = choose|q: int| 0 <= q < p.len() && p[q] == '?';
                let (k, i) = choose|k: int, i: int|
                    0 <= k < segs.len() && 0 <= i < segs[k].len() && segs[k][i] == p[q];
                assert(segs[k].contains(segs[k][i]));
            }
            if p.contains('#') {
                let q = choose|q: int| 0 <= q < p.len() && p[q] == '#';
                let (k, i) = choose|k: int, i: int|
                    0 <= k < segs.len() && 0 <= i < segs[k].len() && segs[k][i] == p[q];
                assert(segs[k].contains(segs[k][i]));
            }
        }
    }
}

/// The path of an asset that is served maps to that same asset: mapping is idempotent.
pub proof fn law_sanitize_idempotent(raw: Seq<char>)
    ensures
        sanitized(raw) matches Some(p) ==> sanitized(p) == Some(p),
{
    let nonempty = |seg: Seq<char>| seg.len() > 0;
    if let Some(p) = sanitized(raw) {
        let segs = path_segments(raw);
        if segs.len() == 0 {
            reveal_strlit("index.html");
            assert(p.len() == 10);
            assert(strip_leading(p, '/') == p);
            lemma_query_start(p, 0);
            assert(query_start_from(p, 0) == p.len()) by {
                if query_start_from(p, 0) < p.len() {
                    let q = query_start_from(p, 0);
                    assert(is_query_start(p[q]));
                }
            }
            assert(without_query(p) =~= p);
            assert(!p.contains('/'));
            crate::text::lemma_split_plain(Seq::<char>::empty(), p, '/');
            assert(Seq::<char>::empty() + p =~= p);
            assert(split_on(Seq::<char>::empty(), '/') =~= seq![Seq::<char>::empty()]);
            assert(split_on(p, '/') =~= seq![p]);
            lemma_filter_all_nonempty(seq![p]);
            assert(path_segments(p) =~= seq![p]);
            assert(!forbidden_segment(p)) by {
                assert(p != seq!['.']);
                assert(p != seq!['.', '.']);
            }
            assert(!exists|k: int|
                0 <= k < path_segments(p).len() && forbidden_segment(#[trigger] path_segments(p)[k]));
        } else {
            let t = without_query(strip_leading(raw, '/'));
            let all = split_on(t, '/');
            lemma_split_pieces_plain(t, '/');
            lemma_split_pieces_chars(t, '/');
            let st = strip_leading(raw, '/');
            lemma_query_start(st, 0);
            // every segment is non-empty, holds no `/`, `?` or `#`, and is not forbidden
            assert forall|k: int| 0 <= k < segs.len() implies (#[trigger] segs[k]).len() > 0
                && !segs[k].contains('/') && !segs[k].contains('?') && !segs[k].contains('#')
                && !forbidden_segment(segs[k]) by {
                assert(segs.contains(segs[k]));
                all.lemma_filter_contains_rev(nonempty, segs[k]);
                all.lemma_filter_pred(nonempty, k);
                let w = choose|w: int| 0 <= w < all.len() && all[w] == segs[k];
                assert(!all[w].contains('/'));
                assert forall|i: int| 0 <= i < segs[k].len() implies !is_query_start(
                    #[trigger] segs[k][i],
                ) by {
                    assert(t.contains(all[w][i]));
                    let v = choose|v: int| 0 <= v < t.len() && t[v] == all[w][i];
                    assert(t[v] == st[v]);
                }
                if segs[k].contains('?') {
                    let i = choose|i: int| 0 <= i < segs[k].len() && segs[k][i] == '?';
                    assert(!is_query_start(segs[k][i]));
                }
                if segs[k].contains('#') {
                    let i = choose|i: int| 0 <= i < segs[k].len() && segs[k][i] == '#';
                    assert(!is_query_start(segs[k][i]));
                }
            }
            lemma_join_starts_with_first(segs, '/');
            assert(p[0] == segs[0][0]) by {
                assert(p.subrange(0, segs[0].len() as int)[0] == p[0]);
            }
            assert(strip_leading(p, '/') == p);
            lemma_join_chars(segs, '/');
            lemma_query_start(p, 0);
            assert(query_start_from(p, 0) == p.len()) by {
                if query_start_from(p, 0) < p.len() {
                    let q = query_start_from(p, 0);
                    assert(is_query_start(p[q]));
                    assert(p[q] != '/');
                    let (k, i) = choose|k: int, i: int|
                        0 <= k < segs.len() && 0 <= i < segs[k].len() && segs[k][i] == p[q];
                    assert(segs[k].contains(segs[k][i]));
                }
            }
            assert(without_query(p) =~= p);
            lemma_split_join(segs, '/');
            lemma_filter_all_nonempty(segs);
            assert(path_segments(p) == segs);
        }
    }
}

/// `strip_leading` removes a prefix: what is left is a suffix of `s`.
proof fn lemma_strip_leading_suffix(s: Seq<char>, c: char)
    ensures
        0 <= s.len() - strip_leading(s, c).len(),
        strip_leading(s, c) == s.subrange(s.len() - strip_leading(s, c).len(), s.len() as int),
    decreases s.len(),
{
    if s.len() > 0 && s[0] == c {
        lemma_strip_leading_suffix(s.drop_first(), c);
        let r = strip_leading(s.drop_first(), c);
        assert(s.drop_first().subrange(s.len() - 1 - r.len(), s.len() - 1) =~= s.subrange(
            s.len() - r.len(),
            s.len() as int,
        ));
    } else {
        assert(s.subrange(0, s.len() as int) =~= s);
    }
}

/// The mapping refuses nothing but forbidden segments: a request path none of whose
/// non-empty segments is `.` or `..` or holds a backslash, colon or NUL is mapped to its
/// segments joined by `/` (to `index.html` when there are none). In particular every path
/// without `.`, `\`, `:` and NUL is accepted, and its segments come back unchanged.
pub proof fn law_sanitize_accepts_plain_paths(raw: Seq<char>)
    ensures
        (forall|k: int|
            0 <= k < path_segments(raw).len() ==> !forbidden_segment(
                #[trigger] path_segments(raw)[k],
            )) ==> sanitized(raw) == Some(
            if path_segments(raw).len() == 0 {
                index_asset()
            } else {
                join_on(path_segments(raw), '/')
            },
        ),
        !raw.contains('.') && !raw.contains('\\') && !raw.contains(':') && !raw.contains('\0')
            ==> sanitized(raw) is Some,
        !raw.contains('.') && !raw.contains('\\') && !raw.contains(':') && !raw.contains('\0')
            && path_segments(raw).len() > 0 ==> split_on(sanitized(raw)->0, '/') == path_segments(
            raw,
        ),
{
    let segs = path_segments(raw);
    let nonempty = |seg: Seq<char>| seg.len() > 0;
    if !raw.contains('.') && !raw.contains('\\') && !raw.contains(':') && !raw.contains('\0') {
        let st = strip_leading(raw, '/');
        let t = without_query(st);
        let all = split_on(t, '/');
        lemma_strip_leading_suffix(raw, '/');
        lemma_query_start(st, 0);
        lemma_split_pieces_chars(t, '/');
        lemma_split_pieces_plain(t, '/');
        let off = raw.len() - st.len();
        assert forall|k: int| 0 <= k < segs.len() implies !forbidden_segment(#[trigger] segs[k])
            && !segs[k].contains('/') by {
            assert(segs.contains(segs[k]));
            all.lemma_filter_contains_rev(nonempty, segs[k]);
            let w = choose|w: int| 0 <= w < all.len() && all[w] == segs[k];
            assert(!all[w].contains('/'));
            assert forall|i: int| 0 <= i < segs[k].len() implies raw.contains(
                #[trigger] segs[k][i],
            ) by {
                assert(t.contains(all[w][i]));
                let v = choose|v: int| 0 <= v < t.len() && t[v] == all[w][i];
                assert(t[v] == st[v]);
                assert(st[v] == raw[off + v]);
            }
            if segs[k] == seq!['.'] {
                assert(raw.contains(segs[k][0]));
            }
            if segs[k] == seq!['.', '.'] {
                assert(raw.contains(segs[k][0]));
            }
            if segs[k].contains('\\') {
                let i = choose|i: int| 0 <= i < segs[k].len() && segs[k][i] == '\\';
                assert(raw.contains(segs[k][i]));
            }
            if segs[k].contains(':') {
                let i = choose|i: int| 0 <= i < segs[k].len() && segs[k][i] == ':';
                assert(raw.contains(segs[k][i]));
            }
            if segs[k].contains('\0') {
                let i = choose|i: int| 0 <= i < segs[k].len() && segs[k][i] == '\0';
                assert(raw.contains(segs[k][i]));
            }
        }
        if segs.len() > 0 {
            lemma_split_join(segs, '/');
        }
    }
}

// ───────────────────────────── access control ─────────────────────────────

/// `s` begins with `prefix`.
pub open spec fn starts_with(s: Seq<char>, prefix: Seq<char>) -> bool {
    prefix.len() <= s.len() && s.subrange(0, prefix.len() as int) == prefix
}

/// The scheme word of an `Authorization` header that carries a token: `"Bearer "`.
pub open spec fn bearer_prefix() -> Seq<char> {
    "Bearer "@
}

/// The token an `Authorization` header value carries: what follows `Bearer `,
/// without surrounding white space.
pub open spec fn header_token(value: Seq<char>) -> Option<Seq<char>> {
    if starts_with(value, bearer_prefix()) {
        Some(trimmed(value.subrange(bearer_prefix().len() as int, value.len() as int)))
    } else {
        None
    }
}

/// The value of a `token=<value>` pair of a query string; `None` for any other pair.
pub open spec fn pair_token(pair: Seq<char>) -> Option<Seq<char>> {
    match find_from(pair, seq!['='], 0) {
        Some(k) => if pair.subrange(0, k) == "token"@ {
            Some(pair.subrange(k + 1, pair.len() as int))
        } else {
            None
        },
        None => None,
    }
}

/// The token of the first `token=` pair of `pairs`.
pub open spec fn first_pair_token(pairs: Seq<Seq<char>>) -> Option<Seq<char>>
    decreases pairs.len(),
{
    if pairs.len() == 0 {
        None
    } else {
        match pair_token(pairs[0]) {
            Some(v) => Some(v),
            None => first_pair_token(pairs.drop_first()),
        }
    }
}

/// The token a query string carries: the value of its first `token=` pair,
/// pairs being separated by `&`.
pub open spec fn query_token(query: Seq<char>) -> Option<Seq<char>> {
    first_pair_token(split_on(query, '&'))
}

/// The token a request carries: the one in its `Authorization: Bearer` header, else the
/// one in its query string. `auth` is the header value when it is text, `query` the
/// query string when there is one.
pub open spec fn provided_token(auth: Option<Seq<char>>, query: Option<Seq<char>>) -> Option<
    Seq<char>,
> {
    let from_header = match auth {
        Some(v) => header_token(v),
        None => None,
    };
    match from_header {
        Some(t) => Some(t),
        None => match query {
            Some(q) => query_token(q),
            None => None,
        },
    }
}

/// An `/api/*` request is let through: it comes from the loopback address, or it
/// carries exactly the expected token.
pub open spec fn api_access_allowed(
    from_loopback: bool,
    auth: Option<Seq<char>>,
    query: Option<Seq<char>>,
    expected: Seq<char>,
) -> bool {
    from_loopback || provided_token(auth, query) == Some(expected)
}

/// The value of an optional string slice.
pub open spec fn opt_str_view(s: Option<&str>) -> Option<Seq<char>> {
    match s {
        Some(x) => Some(x@),
        None => None,
    }
}

fn header_bearer_token(value: &Vec<char>) -> (r: Option<Vec<char>>)
    ensures
        match r {
            Some(t) => header_token(value@) == Some(t@),
            None => header_token(value@) is None,
        },
{
    let prefix = chars_of("Bearer ");
    proof {
        reveal_strlit("Bearer ");
    }
    if prefix.len() > value.len() {
        return None;
    }
    let head = slice_chars(value, 0, prefix.len());
    if !chars_eq(&head, &prefix) {
        return None;
    }
    let rest = slice_chars(value, prefix.len(), value.len());
    Some(trim(&rest))
}

fn pair_value(pair: &Vec<char>) -> (r: Option<Vec<char>>)
    ensures
        match r {
            Some(t) => pair_token(pair@) == Some(t@),
            None => pair_token(pair@) is None,
        },
{
    let eq: Vec<char> = vec!['='];
    assert(eq@ =~= seq!['=']);
    match find(pair, &eq, 0) {
        Some(k) => {
            proof {
                lemma_find_from(pair@, seq!['='], 0);
                assert(occurs_at(pair@, seq!['='], k as int));
                assert(seq!['='].len() == 1);
                assert(k + 1 <= pair.len());
            }
            let name = slice_chars(pair, 0, k);
            let token = chars_of("token");
            proof {
                reveal_strlit("token");
            }
            if chars_eq(&name, &token) {
                Some(slice_chars(pair, k + 1, pair.len()))
            } else {
                None
            }
        },
        None => None,
    }
}

fn query_param_token(query: &Vec<char>) -> (r: Option<Vec<char>>)
    ensures
        match r {
            Some(t) => query_token(query@) == Some(t@),
            None => query_token(query@) is None,
        },
{
    let pairs = split_chars(query, '&');
    let ghost pv = pieces_view(pairs@);
    let mut i: usize = 0;
    assert(pv.subrange(0, pv.len() as int) =~= pv);
    while i < pairs.len()
        invariant
            i <= pairs.len(),
            pv == pieces_view(pairs@),
            pv == split_on(query@, '&'),
            first_pair_token(pv) == first_pair_token(pv.subrange(i as int, pv.len() as int)),
        decreases pairs.len() - i,
    {
        let ghost rest = pv.subrange(i as int, pv.len() as int);
        assert(rest[0] == pairs@[i as int]@);
        assert(rest.drop_first() =~= pv.subrange(i + 1, pv.len() as int));
        match pair_value(&pairs[i]) {
            Some(t) => {
                assert(rest.len() > 0);
                assert(pair_token(rest[0]) == Some(t@));
                return Some(t);
            },
            None => {},
        }
        i = i + 1;
    }
    None
}

/// The token a request carries, from its `Authorization: Bearer` header (`auth`, when the
/// header is there and is text) or else from the `token=` pair of its query string.
pub fn extract_token(auth: Option<&str>, query: Option<&str>) -> (r: Option<String>)
    ensures
        match r {
            Some(t) => provided_token(opt_str_view(auth), opt_str_view(query)) == Some(t@),
            None => provided_token(opt_str_view(auth), opt_str_view(query)) is None,
        },
{
    match auth {
        Some(a) => {
            match header_bearer_token(&chars_of(a)) {
                Some(t) => {
                    return Some(string_from_chars(&t));
                },
                None => {},
            }
        },
        None => {},
    }
    match query {
        Some(q) => match query_param_token(&chars_of(q)) {
            Some(t) => Some(string_from_chars(&t)),
            None => None,
        },
        None => None,
    }
}

/// Whether an `/api/*` request is let through: requests from the loopback address always
/// are; any other must carry exactly the expected token.
pub fn authorize(from_loopback: bool, auth: Option<&str>, query: Option<&str>, expected: &str) -> (r:
    bool)
    ensures
        r == api_access_allowed(from_loopback, opt_str_view(auth), opt_str_view(query), expected@),
{
    if from_loopback {
        return true;
    }
    match extract_token(auth, query) {
        Some(t) => t == String::from_str(expected),
        None => false,
    }
}

/// The message a refused `/api/*` request is answered with.
pub open spec fn unauthorized_message() -> Seq<char> {
    "Unauthorized: provide Authorization: Bearer <token>"@
}

/// The message a refused `/api/*` request is answered with.
pub fn unauthorized_text() -> (r: String)
    ensures
        r@ == unauthorized_message(),
{
    String::from_str("Unauthorized: provide Authorization: Bearer <token>")
}

/// A request from another machine that carries no token, or another one, is refused.
pub proof fn law_foreign_request_needs_token(
    auth: Option<Seq<char>>,
    query: Option<Seq<char>>,
    expected: Seq<char>,
)
    requires
        provided_token(auth, query) != Some(expected),
    ensures
        !api_access_allowed(false, auth, query, expected),
{
}

/// A request that sends the token as `Authorization: Bearer <token>` is let through,
/// whatever its query string, for every token that neither begins nor ends with white
/// space (the generated tokens are hexadecimal digits).
pub proof fn law_bearer_token_accepted(token: Seq<char>, query: Option<Seq<char>>)
    requires
        token.len() > 0,
        !crate::text::is_white_space(token[0]),
        !crate::text::is_white_space(token.last()),
    ensures
        api_access_allowed(false, Some(bearer_prefix() + token), query, token),
{
    reveal_strlit("Bearer ");
    let v = bearer_prefix() + token;
    assert(v.subrange(0, 7) =~= bearer_prefix());
    assert(v.subrange(7, v.len() as int) =~= token);
    assert(crate::text::is_trim_range(token, 0, token.len() as int));
    crate::text::lemma_trim_range_unique(token, 0, token.len() as int);
    assert(token.subrange(0, token.len() as int) =~= token);
}

/// A request without that header that sends `?token=<token>` is let through, for every
/// token without `&`.
pub proof fn law_query_token_accepted(token: Seq<char>)
    requires
        !token.contains('&'),
    ensures
        api_access_allowed(false, None, Some("token="@ + token), token),
{
    reveal_strlit("token=");
    reveal_strlit("token");
    let q = "token="@ + token;
    assert(!q.contains('&')) by {
        if q.contains('&') {
            let j = choose|j: int| 0 <= j < q.len() && q[j] == '&';
            if j >= 6 {
                assert(token[j - 6] == '&');
            }
        }
    }
    crate::text::lemma_split_plain(Seq::<char>::empty(), q, '&');
    assert(Seq::<char>::empty() + q =~= q);
    assert(split_on(Seq::<char>::empty(), '&') =~= seq![Seq::<char>::empty()]);
    assert(split_on(q, '&') =~= seq![q]);
    assert(occurs_at(q, seq!['='], 5)) by {
        assert(q.subrange(5, 6) =~= seq!['=']);
    }
    assert forall|j: int| 0 <= j < 5 implies !occurs_at(q, seq!['='], j) by {
        assert(q[j] != '=');
        if occurs_at(q, seq!['='], j) {
            assert(q.subrange(j, j + 1)[0] == q[j]);
        }
    }
    crate::text::lemma_find_from_is(q, seq!['='], 0, 5);
    assert(q.subrange(0, 5) =~= "token"@);
    assert(q.subrange(6, q.len() as int) =~= token);
    assert(seq![q].drop_first() =~= Seq::<Seq<char>>::empty());
}

// ───────────────────────────── listening ─────────────────────────────

/// The address the web service listens on: every interface when access from the local
/// network is allowed, the loopback address otherwise.
pub open spec fn listen_octets(web_access: bool) -> Seq<u8> {
    if web_access {
        seq![0u8, 0u8, 0u8, 0u8]
    } else {
        seq![127u8, 0u8, 0u8, 1u8]
    }
}

/// The IPv4 address the web service listens on.
pub fn listen_address(web_access: bool) -> (r: [u8; 4])
    ensures
        r@ == listen_octets(web_access),
{
    let r: [u8; 4] = if web_access {
        [0, 0, 0, 0]
    } else {
        [127, 0, 0, 1]
    };
    assert(r@ =~= listen_octets(web_access));
    r
}

/// A request from the loopback address is always let through, token or not.
pub proof fn law_loopback_always_allowed(
    auth: Option<Seq<char>>,
    query: Option<Seq<char>>,
    expected: Seq<char>,
)
    ensures
        api_access_allowed(true, auth, query, expected),
{
}

} // verus!
