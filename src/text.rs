use vstd::prelude::*;

verus! {

/// The characters with Unicode's White_Space property.
pub open spec fn is_white_space(c: char) -> bool {
    ('\u{9}' <= c && c <= '\u{d}') || c == ' ' || c == '\u{85}' || c == '\u{a0}' || c
        == '\u{1680}' || ('\u{2000}' <= c && c <= '\u{200a}') || c == '\u{2028}' || c
        == '\u{2029}' || c == '\u{202f}' || c == '\u{205f}' || c == '\u{3000}'
}

pub fn white_space(c: char) -> (r: bool)
    ensures
        r == is_white_space(c),
{
    ('\u{9}' <= c && c <= '\u{d}') || c == ' ' || c == '\u{85}' || c == '\u{a0}' || c
        == '\u{1680}' || ('\u{2000}' <= c && c <= '\u{200a}') || c == '\u{2028}' || c
        == '\u{2029}' || c == '\u{202f}' || c == '\u{205f}' || c == '\u{3000}'
}

/// The first index from `i` on that holds no white space.
pub open spec fn trim_start_from(s: Seq<char>, i: int) -> int
    decreases s.len() - i,
{
    if 0 <= i < s.len() && is_white_space(s[i]) {
        trim_start_from(s, i + 1)
    } else {
        i
    }
}

/// The end of `s[..j]` once white space is taken off its end, but not
/// below `lo`.
pub open spec fn trim_end_from(s: Seq<char>, lo: int, j: int) -> int
    decreases j,
{
    if 0 <= lo < j && j <= s.len() && is_white_space(s[j - 1]) {
        trim_end_from(s, lo, j - 1)
    } else {
        j
    }
}

/// `s` without leading and trailing white space.
pub open spec fn trimmed(s: Seq<char>) -> Seq<char> {
    let lo = trim_start_from(s, 0);
    s.subrange(lo, trim_end_from(s, lo, s.len() as int))
}

/// Takes leading and trailing white space off `s`.
pub fn trim(s: &str) -> (r: &str)
    ensures
        r@ == trimmed(s@),
{
    let n = s.unicode_len();
    let mut lo: usize = 0;
    while lo < n && white_space(s.get_char(lo))
        invariant
            n == s@.len(),
            lo <= n,
            trim_start_from(s@, lo as int) == trim_start_from(s@, 0),
        decreases n - lo,
    {
        lo = lo + 1;
    }
    let mut hi: usize = n;
    while hi > lo && white_space(s.get_char(hi - 1))
        invariant
            n == s@.len(),
            lo <= hi <= n,
            trim_start_from(s@, 0) == lo,
            trim_end_from(s@, lo as int, hi as int) == trim_end_from(s@, lo as int, n as int),
        decreases hi,
    {
        hi = hi - 1;
    }
    s.substring_char(lo, hi)
}

/// The maximal runs of characters other than white space, in order.
pub open spec fn words(s: Seq<char>) -> Seq<Seq<char>>
    decreases s.len(),
{
    if s.len() == 0 {
        Seq::empty()
    } else {
        let w = words(s.drop_last());
        let c = s.last();
        if is_white_space(c) {
            w
        } else if s.len() >= 2 && !is_white_space(s[s.len() - 2]) {
            w.drop_last().push(w.last().push(c))
        } else {
            w.push(seq![c])
        }
    }
}

/// The pieces of `s` between line feeds; `s` without one is one piece.
pub open spec fn lines(s: Seq<char>) -> Seq<Seq<char>>
    decreases s.len(),
{
    if s.len() == 0 {
        seq![Seq::empty()]
    } else {
        let p = lines(s.drop_last());
        if s.last() == '\n' {
            p.push(Seq::empty())
        } else {
            p.drop_last().push(p.last().push(s.last()))
        }
    }
}

/// Splits `s` into its words, as white space separates them.
pub fn split_words(s: &str) -> (r: Vec<String>)
    ensures
        r.deep_view() == words(s@),
{
    let n = s.unicode_len();
    let mut r: Vec<String> = Vec::new();
    let mut in_word = false;
    let mut k: usize = 0;
    while k < n
        invariant
            n == s@.len(),
            k <= n,
            r.deep_view() == words(s@.take(k as int)),
            in_word == (k > 0 && !is_white_space(s@[k - 1])),
            in_word ==> r@.len() > 0,
        decreases n - k,
    {
        let c = s.get_char(k);
        let ghost pre = s@.take(k as int);
        assert(s@.take(k + 1).drop_last() =~= pre);
        assert(s@.take(k + 1).last() == c);
        if white_space(c) {
            in_word = false;
        } else {
            let piece = s.substring_char(k, k + 1);
            assert(piece@ =~= seq![c]);
            if in_word {
                let last = r.len() - 1;
                let ghost before = r.deep_view();
                let ghost bv = r@;
                r[last].append(piece);
                assert(r@[last as int]@ =~= before.last().push(c));
                assert(forall|j: int| 0 <= j < last ==> r@[j] == bv[j]);
                assert(r.deep_view() =~= before.drop_last().push(before.last().push(c)));
            } else {
                let ghost before = r.deep_view();
                r.push(String::from_str(piece));
                assert(r.deep_view() =~= before.push(seq![c]));
            }
            in_word = true;
        }
        k = k + 1;
    }
    assert(s@.take(n as int) =~= s@);
    r
}

/// Splits `s` at each line feed.
pub fn split_lines(s: &str) -> (r: Vec<String>)
    ensures
        r.deep_view() == lines(s@),
        r@.len() > 0,
{
    let n = s.unicode_len();
    let mut r: Vec<String> = vec![String::new()];
    assert(r.deep_view() =~= lines(s@.take(0)));
    let mut k: usize = 0;
    while k < n
        invariant
            n == s@.len(),
            k <= n,
            r.deep_view() == lines(s@.take(k as int)),
            r@.len() > 0,
        decreases n - k,
    {
        let c = s.get_char(k);
        let ghost pre = s@.take(k as int);
        assert(s@.take(k + 1).drop_last() =~= pre);
        assert(s@.take(k + 1).last() == c);
        let ghost before = r.deep_view();
        if c == '\n' {
            r.push(String::new());
            assert(r.deep_view() =~= before.push(Seq::empty()));
        } else {
            let piece = s.substring_char(k, k + 1);
            assert(piece@ =~= seq![c]);
            let last = r.len() - 1;
            let ghost bv = r@;
            r[last].append(piece);
            assert(r@[last as int]@ =~= before.last().push(c));
            assert(forall|j: int| 0 <= j < last ==> r@[j] == bv[j]);
            assert(r.deep_view() =~= before.drop_last().push(before.last().push(c)));
        }
        k = k + 1;
    }
    assert(s@.take(n as int) =~= s@);
    r
}

} // verus!
