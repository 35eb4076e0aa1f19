//! Character-level text operations used by the log, web and token layers.
use vstd::prelude::*;

verus! {

broadcast use vstd::string::group_string_axioms;

// ───────────────────────────── conversions ─────────────────────────────

/// The characters of `s`, in order.
pub fn chars_of(s: &str) -> (v: Vec<char>)
    ensures
        v@ == s@,
{
    let mut v: Vec<char> = Vec::new();
    for c in it: s.chars()
        invariant
            v@ == it.seq().take(it.index() as int),
            it.seq() == s@,
    {
        v.push(c);
    }
    v
}

/// Builds a `String` that holds exactly the characters of `v` (std's `String::from_iter`).
#[verifier::external_body]
pub fn string_from_chars(v: &Vec<char>) -> (s: String)
    ensures
        s@ == v@,
{
    String::from_iter(v.iter())
}

/// Appends all of `src` to the end of `dst`.
pub fn push_all(dst: &mut Vec<char>, src: &Vec<char>)
    ensures
        final(dst)@ == old(dst)@ + src@,
{
    let mut i: usize = 0;
    while i < src.len()
        invariant
            i <= src.len(),
            dst@ == old(dst)@ + src@.take(i as int),
        decreases src.len() - i,
    {
        dst.push(src[i]);
        i = i + 1;
        assert(src@.take(i as int) == src@.take(i - 1) + seq![src@[i - 1]]);
    }
    assert(src@.take(src.len() as int) == src@);
}

/// The characters `v[from..to]`.
pub fn slice_chars(v: &Vec<char>, from: usize, to: usize) -> (r: Vec<char>)
    requires
        from <= to <= v.len(),
    ensures
        r@ == v@.subrange(from as int, to as int),
{
    let mut r: Vec<char> = Vec::new();
    let mut i: usize = from;
    while i < to
        invariant
            from <= i <= to <= v.len(),
            r@ == v@.subrange(from as int, i as int),
        decreases to - i,
    {
        r.push(v[i]);
        i = i + 1;
    }
    r
}

/// Whether two character sequences are equal.
pub fn chars_eq(a: &Vec<char>, b: &Vec<char>) -> (r: bool)
    ensures
        r == (a@ == b@),
{
    if a.len() != b.len() {
        return false;
    }
    let mut i: usize = 0;
    while i < a.len()
        invariant
            a.len() == b.len(),
            i <= a.len(),
            forall|j: int| 0 <= j < i ==> a@[j] == b@[j],
        decreases a.len() - i,
    {
        if a[i] != b[i] {
            return false;
        }
        i = i + 1;
    }
    assert(a@ =~= b@);
    true
}

/// Whether `c` occurs in `v`.
pub fn contains_char(v: &Vec<char>, c: char) -> (r: bool)
    ensures
        r == v@.contains(c),
{
    let mut i: usize = 0;
    while i < v.len()
        invariant
            i <= v.len(),
            forall|j: int| 0 <= j < i ==> v@[j] != c,
        decreases v.len() - i,
    {
        if v[i] == c {
            assert(v@[i as int] == c);
            return true;
        }
        i = i + 1;
    }
    false
}

// ───────────────────────────── searching ─────────────────────────────

/// `pat` occurs in `s` starting at index `i`.
pub open spec fn occurs_at(s: Seq<char>, pat: Seq<char>, i: int) -> bool {
    0 <= i && i + pat.len() <= s.len() && s.subrange(i, i + pat.len()) == pat
}

/// The first index at or after `from` where `pat` occurs in `s`.
pub open spec fn find_from(s: Seq<char>, pat: Seq<char>, from: int) -> Option<int>
    decreases s.len() - from,
{
    if from < 0 || from + pat.len() > s.len() {
        None
    } else if pat.len() == 0 || occurs_at(s, pat, from) {
        Some(from)
    } else {
        find_from(s, pat, from + 1)
    }
}

/// What `find_from` gives: the first occurrence at or after `from`, or none at all.
pub proof fn lemma_find_from(s: Seq<char>, pat: Seq<char>, from: int)
    requires
        0 <= from,
    ensures
        match find_from(s, pat, from) {
            Some(i) => from <= i && occurs_at(s, pat, i) && forall|j: int|
                from <= j < i ==> !occurs_at(s, pat, j),
            None => forall|j: int| from <= j ==> !occurs_at(s, pat, j),
        },
    decreases s.len() - from,
{
    if from + pat.len() > s.len() {
    } else if pat.len() == 0 || occurs_at(s, pat, from) {
        assert(s.subrange(from, from + pat.len()) =~= pat);
    } else {
        lemma_find_from(s, pat, from + 1);
    }
}

/// An occurrence at `i` with none before it, from `from` on, is what `find_from` gives.
pub proof fn lemma_find_from_is(s: Seq<char>, pat: Seq<char>, from: int, i: int)
    requires
        0 <= from <= i,
        occurs_at(s, pat, i),
        forall|j: int| from <= j < i ==> !occurs_at(s, pat, j),
    ensures
        find_from(s, pat, from) == Some(i),
    decreases i - from,
{
    if from < i {
        assert(!occurs_at(s, pat, from));
        assert(pat.len() != 0) by {
            if pat.len() == 0 {
                assert(s.subrange(from, from + pat.len()) =~= pat);
            }
        }
        lemma_find_from_is(s, pat, from + 1, i);
    }
}

/// No occurrence from `from` on means `find_from` gives none.
pub proof fn lemma_find_from_none(s: Seq<char>, pat: Seq<char>, from: int)
    requires
        0 <= from,
        forall|j: int| from <= j ==> !occurs_at(s, pat, j),
    ensures
        find_from(s, pat, from) is None,
    decreases s.len() - from,
{
    if from + pat.len() > s.len() {
    } else {
        assert(!occurs_at(s, pat, from));
        assert(pat.len() != 0) by {
            if pat.len() == 0 {
                assert(s.subrange(from, from + pat.len()) =~= pat);
            }
        }
        lemma_find_from_none(s, pat, from + 1);
    }
}

/// Whether `pat` occurs in `s` at index `i`.
pub fn matches_at(s: &Vec<char>, pat: &Vec<char>, i: usize) -> (r: bool)
    ensures
        r == occurs_at(s@, pat@, i as int),
{
    if i > s.len() || pat.len() > s.len() - i {
        return false;
    }
    let mut k: usize = 0;
    while k < pat.len()
        invariant
            i + pat.len() <= s.len(),
            k <= pat.len(),
            forall|j: int| 0 <= j < k ==> s@[i + j] == pat@[j],
        decreases pat.len() - k,
    {
        if s[i + k] != pat[k] {
            assert(s@.subrange(i as int, i + pat.len())[k as int] != pat@[k as int]);
            return false;
        }
        k = k + 1;
    }
    assert(s@.subrange(i as int, i + pat.len()) =~= pat@);
    true
}

/// The first index at or after `from` where `pat` occurs in `s`.
pub fn find(s: &Vec<char>, pat: &Vec<char>, from: usize) -> (r: Option<usize>)
    ensures
        match r {
            Some(i) => find_from(s@, pat@, from as int) == Some(i as int),
            None => find_from(s@, pat@, from as int) is None,
        },
{
    let mut i: usize = from;
    while i <= s.len() && pat.len() <= s.len() - i
        invariant
            from <= i,
            find_from(s@, pat@, from as int) == find_from(s@, pat@, i as int),
        decreases s.len() + 1 - i,
    {
        if matches_at(s, pat, i) {
            proof {
                if pat.len() == 0 {
                    assert(s@.subrange(i as int, i as int) =~= pat@);
                }
            }
            return Some(i);
        }
        proof {
            if pat.len() == 0 {
                assert(s@.subrange(i as int, i as int) =~= pat@);
            }
        }
        if i == s.len() {
            return None;
        }
        i = i + 1;
    }
    None
}

// ───────────────────────────── trimming ─────────────────────────────

/// `s` with every leading `c` removed.
pub open spec fn strip_leading(s: Seq<char>, c: char) -> Seq<char>
    decreases s.len(),
{
    if s.len() > 0 && s[0] == c {
        strip_leading(s.drop_first(), c)
    } else {
        s
    }
}

/// `s` with every leading `c` removed.
pub fn trim_start_char(s: &Vec<char>, c: char) -> (r: Vec<char>)
    ensures
        r@ == strip_leading(s@, c),
{
    let mut i: usize = 0;
    assert(s@.subrange(0, s.len() as int) =~= s@);
    while i < s.len() && s[i] == c
        invariant
            i <= s.len(),
            strip_leading(s@, c) == strip_leading(s@.subrange(i as int, s.len() as int), c),
        decreases s.len() - i,
    {
        assert(s@.subrange(i as int, s.len() as int).drop_first() =~= s@.subrange(
            i + 1,
            s.len() as int,
        ));
        i = i + 1;
    }
    slice_chars(s, i, s.len())
}

/// The characters that Rust's `char::is_whitespace` accepts (the Unicode `White_Space` set).
pub open spec fn is_white_space(c: char) -> bool {
    let n = c as u32;
    ||| 0x09 <= n <= 0x0D
    ||| n == 0x20
    ||| n == 0x85
    ||| n == 0xA0
    ||| n == 0x1680
    ||| 0x2000 <= n <= 0x200A
    ||| n == 0x2028
    ||| n == 0x2029
    ||| n == 0x202F
    ||| n == 0x205F
    ||| n == 0x3000
}

/// Whether `c` is a Unicode white-space character.
pub fn white_space(c: char) -> (r: bool)
    ensures
        r == is_white_space(c),
{
    let n = c as u32;
    (0x09 <= n && n <= 0x0D) || n == 0x20 || n == 0x85 || n == 0xA0 || n == 0x1680 || (0x2000
        <= n && n <= 0x200A) || n == 0x2028 || n == 0x2029 || n == 0x202F || n == 0x205F || n
        == 0x3000
}

/// The bounds `[lo, hi)` of `s` once leading and trailing white space are cut off.
pub open spec fn is_trim_range(s: Seq<char>, lo: int, hi: int) -> bool {
    &&& 0 <= lo <= hi <= s.len()
    &&& forall|j: int| 0 <= j < lo ==> is_white_space(#[trigger] s[j])
    &&& forall|j: int| hi <= j < s.len() ==> is_white_space(#[trigger] s[j])
    &&& lo < hi ==> !is_white_space(s[lo]) && !is_white_space(s[hi - 1])
}

/// `s` without leading and trailing white space (Rust's `str::trim`).
pub open spec fn trimmed(s: Seq<char>) -> Seq<char> {
    let (lo, hi) = choose|lo: int, hi: int| is_trim_range(s, lo, hi);
    s.subrange(lo, hi)
}

/// The trimmed range is unique, so `trimmed` is the subrange at any trim range.
pub proof fn lemma_trim_range_unique(s: Seq<char>, lo: int, hi: int)
    requires
        is_trim_range(s, lo, hi),
    ensures
        trimmed(s) == s.subrange(lo, hi),
{
    let (lo2, hi2) = choose|lo2: int, hi2: int| is_trim_range(s, lo2, hi2);
    assert(is_trim_range(s, lo2, hi2));
    if lo < hi {
        if lo2 < hi2 {
            assert(lo == lo2) by {
                if lo < lo2 {
                    assert(is_white_space(s[lo]));
                }
                if lo2 < lo {
                    assert(is_white_space(s[lo2]));
                }
            }
            assert(hi == hi2) by {
                if hi < hi2 {
                    assert(is_white_space(s[hi2 - 1]));
                }
                if hi2 < hi {
                    assert(is_white_space(s[hi - 1]));
                }
            }
        } else {
            assert(is_white_space(s[lo]));
        }
    } else if lo2 < hi2 {
        assert(is_white_space(s[lo2]));
    }
}

/// `s` without leading and trailing white space.
pub fn trim(s: &Vec<char>) -> (r: Vec<char>)
    ensures
        r@ == trimmed(s@),
{
    let mut lo: usize = 0;
    while lo < s.len() && white_space(s[lo])
        invariant
            lo <= s.len(),
            forall|j: int| 0 <= j < lo ==> is_white_space(#[trigger] s@[j]),
        decreases s.len() - lo,
    {
        lo = lo + 1;
    }
    let mut hi: usize = s.len();
    while hi > lo && white_space(s[hi - 1])
        invariant
            lo <= hi <= s.len(),
            forall|j: int| hi <= j < s.len() ==> is_white_space(#[trigger] s@[j]),
        decreases hi,
    {
        hi = hi - 1;
    }
    proof {
        assert(is_trim_range(s@, lo as int, hi as int));
        lemma_trim_range_unique(s@, lo as int, hi as int);
    }
    slice_chars(s, lo, hi)
}

// ───────────────────────────── splitting ─────────────────────────────

/// The pieces of `s` between the occurrences of `c` (Rust's `str::split` on a char):
/// always at least one piece, empty pieces included.
pub open spec fn split_on(s: Seq<char>, c: char) -> Seq<Seq<char>>
    decreases s.len(),
{
    if s.len() == 0 {
        seq![Seq::<char>::empty()]
    } else {
        let p = split_on(s.drop_last(), c);
        if s.last() == c {
            p.push(Seq::<char>::empty())
        } else {
            p.update(p.len() - 1, p.last().push(s.last()))
        }
    }
}

/// `split_on` always gives at least one piece.
pub proof fn lemma_split_on_len(s: Seq<char>, c: char)
    ensures
        split_on(s, c).len() >= 1,
    decreases s.len(),
{
    if s.len() > 0 {
        lemma_split_on_len(s.drop_last(), c);
    }
}

/// The character sequences of some character vectors.
pub open spec fn pieces_view(v: Seq<Vec<char>>) -> Seq<Seq<char>> {
    v.map_values(|x: Vec<char>| x@)
}

/// The pieces of `s` between the occurrences of `c`.
pub fn split_chars(s: &Vec<char>, c: char) -> (r: Vec<Vec<char>>)
    ensures
        pieces_view(r@) == split_on(s@, c),
{
    let mut parts: Vec<Vec<char>> = Vec::new();
    let mut cur: Vec<char> = Vec::new();
    let mut i: usize = 0;
    assert(s@.take(0) =~= Seq::<char>::empty());
    assert(pieces_view(parts@).push(cur@) =~= split_on(s@.take(0), c));
    while i < s.len()
        invariant
            i <= s.len(),
            pieces_view(parts@).push(cur@) == split_on(s@.take(i as int), c),
        decreases s.len() - i,
    {
        proof {
            lemma_split_on_len(s@.take(i as int), c);
            assert(s@.take(i + 1).drop_last() =~= s@.take(i as int));
            assert(s@.take(i + 1).last() == s@[i as int]);
        }
        let ghost before = pieces_view(parts@);
        if s[i] == c {
            let done = cur;
            parts.push(done);
            cur = Vec::new();
            assert(pieces_view(parts@) =~= before.push(done@));
            assert(pieces_view(parts@).push(cur@) =~= split_on(s@.take(i + 1), c));
        } else {
            cur.push(s[i]);
            assert(pieces_view(parts@).push(cur@) =~= split_on(s@.take(i + 1), c));
        }
        i = i + 1;
    }
    let ghost before = pieces_view(parts@);
    parts.push(cur);
    assert(pieces_view(parts@) =~= before.push(parts@[parts.len() - 1]@));
    assert(s@.take(s.len() as int) =~= s@);
    parts
}

/// The pieces of `parts` with `c` between each two (Rust's `join`); empty for no pieces.
pub open spec fn join_on(parts: Seq<Seq<char>>, c: char) -> Seq<char>
    decreases parts.len(),
{
    if parts.len() == 0 {
        Seq::empty()
    } else if parts.len() == 1 {
        parts[0]
    } else {
        join_on(parts.drop_last(), c).push(c) + parts.last()
    }
}

/// The pieces of `parts` with `c` between each two.
pub fn join_chars(parts: &Vec<Vec<char>>, c: char) -> (r: Vec<char>)
    ensures
        r@ == join_on(pieces_view(parts@), c),
{
    let ghost pv = pieces_view(parts@);
    let mut out: Vec<char> = Vec::new();
    let mut k: usize = 0;
    assert(pv.take(0) =~= Seq::<Seq<char>>::empty());
    while k < parts.len()
        invariant
            k <= parts.len(),
            pv == pieces_view(parts@),
            out@ == join_on(pv.take(k as int), c),
        decreases parts.len() - k,
    {
        assert(pv.take(k + 1).drop_last() =~= pv.take(k as int));
        assert(pv.take(k + 1).last() == parts@[k as int]@);
        if k > 0 {
            out.push(c);
        } else {
            assert(pv.take(1) =~= seq![pv[0]]);
        }
        push_all(&mut out, &parts[k]);
        k = k + 1;
    }
    assert(pv.take(parts.len() as int) =~= pv);
    out
}

/// Splitting a join of pieces that hold no `c` gives the pieces back.
pub proof fn lemma_split_join(parts: Seq<Seq<char>>, c: char)
    requires
        parts.len() >= 1,
        forall|k: int| 0 <= k < parts.len() ==> !(#[trigger] parts[k]).contains(c),
    ensures
        split_on(join_on(parts, c), c) == parts,
    decreases parts.len(),
{
    if parts.len() == 1 {
        lemma_split_plain(Seq::<char>::empty(), parts[0], c);
        assert(Seq::<char>::empty() + parts[0] =~= parts[0]);
        assert(split_on(Seq::<char>::empty(), c) =~= seq![Seq::<char>::empty()]);
        assert(seq![Seq::<char>::empty()].update(0, Seq::<char>::empty() + parts[0]) =~= parts);
    } else {
        let init = parts.drop_last();
        lemma_split_join(init, c);
        let a = join_on(init, c).push(c);
        assert(a.drop_last() =~= join_on(init, c));
        lemma_split_on_len(join_on(init, c), c);
        assert(split_on(a, c) =~= init.push(Seq::<char>::empty()));
        lemma_split_plain(a, parts.last(), c);
        assert(Seq::<char>::empty() + parts.last() =~= parts.last());
        assert(init.push(Seq::<char>::empty()).update(init.len() as int, parts.last()) =~= parts);
    }
}

/// Appending characters other than `c` extends the last piece.
pub proof fn lemma_split_plain(a: Seq<char>, b: Seq<char>, c: char)
    requires
        !b.contains(c),
    ensures
        split_on(a + b, c) == split_on(a, c).update(
            split_on(a, c).len() - 1,
            split_on(a, c).last() + b,
        ),
    decreases b.len(),
{
    lemma_split_on_len(a, c);
    if b.len() == 0 {
        assert(a + b =~= a);
        assert(split_on(a, c).last() + b =~= split_on(a, c).last());
        assert(split_on(a, c).update(split_on(a, c).len() - 1, split_on(a, c).last())
            =~= split_on(a, c));
    } else {
        let b0 = b.drop_last();
        assert(!b0.contains(c)) by {
            if b0.contains(c) {
                let k = choose|k: int| 0 <= k < b0.len() && b0[k] == c;
                assert(b[k] == c);
            }
        }
        lemma_split_plain(a, b0, c);
        assert((a + b).drop_last() =~= a + b0);
        assert((a + b).last() == b.last());
        assert(b.last() != c) by {
            assert(b[b.len() - 1] == b.last());
        }
        assert(split_on(a, c).last() + b =~= (split_on(a, c).last() + b0).push(b.last()));
    }
}

// ───────────────────────────── numbers ─────────────────────────────

/// The decimal digit character for `d < 10`.
pub open spec fn digit_char(d: nat) -> char {
    (48 + d) as char
}

/// `n` written in decimal, without leading zeros (Rust's `{}` for integers).
pub open spec fn decimal(n: nat) -> Seq<char>
    decreases n,
{
    if n < 10 {
        seq![digit_char(n)]
    } else {
        decimal(n / 10).push(digit_char(n % 10))
    }
}

fn digit(d: u64) -> (c: char)
    requires
        d < 10,
    ensures
        c == digit_char(d as nat),
{
    let b: u8 = 48u8 + (d as u8);
    b as char
}

/// `n` written in decimal.
pub fn decimal_chars(n: u64) -> (r: Vec<char>)
    ensures
        r@ == decimal(n as nat),
    decreases n,
{
    if n < 10 {
        let mut v: Vec<char> = Vec::new();
        v.push(digit(n));
        v
    } else {
        let mut v = decimal_chars(n / 10);
        v.push(digit(n % 10));
        v
    }
}

/// The lower-case hexadecimal digit character for `d < 16`.
pub open spec fn hex_digit_char(d: nat) -> char {
    if d < 10 {
        (48 + d) as char
    } else {
        (87 + d) as char
    }
}

/// The last `width` hexadecimal digits of `n`, lower case, zero-padded
/// (Rust's `{:0width$x}` for `n < 16^width`).
pub open spec fn hex_fixed(n: nat, width: nat) -> Seq<char>
    decreases width,
{
    if width == 0 {
        seq![]
    } else {
        hex_fixed(n / 16, (width - 1) as nat).push(hex_digit_char(n % 16))
    }
}

fn hex_digit(d: u64) -> (c: char)
    requires
        d < 16,
    ensures
        c == hex_digit_char(d as nat),
{
    if d < 10 {
        let b: u8 = 48u8 + (d as u8);
        b as char
    } else {
        let b: u8 = 87u8 + (d as u8);
        b as char
    }
}

/// The last `width` hexadecimal digits of `n`, lower case, zero-padded.
pub fn hex_fixed_chars(n: u64, width: u64) -> (r: Vec<char>)
    ensures
        r@ == hex_fixed(n as nat, width as nat),
    decreases width,
{
    if width == 0 {
        Vec::new()
    } else {
        let mut v = hex_fixed_chars(n / 16, width - 1);
        v.push(hex_digit(n % 16));
        v
    }
}

} // verus!
