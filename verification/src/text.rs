//! Whitespace trimming, line splitting and tokenisation of the input text.

use vstd::prelude::*;

verus! {

/// The whitespace characters the file format knows: blank, tab,
/// carriage return and newline.
pub open spec fn is_space(c: char) -> bool {
    c == ' ' || c == '\t' || c == '\r' || c == '\n'
}

/// `s` without its leading whitespace.
pub open spec fn trim_start_rec(s: Seq<char>) -> Seq<char>
    decreases s.len(),
{
    if s.len() > 0 && is_space(s[0]) {
        trim_start_rec(s.drop_first())
    } else {
        s
    }
}

/// `s` without its trailing whitespace.
pub open spec fn trim_end_rec(s: Seq<char>) -> Seq<char>
    decreases s.len(),
{
    if s.len() > 0 && is_space(s.last()) {
        trim_end_rec(s.drop_last())
    } else {
        s
    }
}

/// `s` without leading and trailing whitespace.
pub open spec fn trim_spec(s: Seq<char>) -> Seq<char> {
    trim_end_rec(trim_start_rec(s))
}

/// The length of the maximal prefix of `s` that holds no newline.
pub open spec fn line_len(s: Seq<char>) -> nat
    decreases s.len(),
{
    if s.len() > 0 && s[0] != '\n' {
        (1 + line_len(s.drop_first())) as nat
    } else {
        0
    }
}

/// `s` split on newline: the segments between the newlines, in order.
/// An empty `s` gives one empty segment.
pub open spec fn split_lines(s: Seq<char>) -> Seq<Seq<char>>
    decreases s.len(),
{
    let n = line_len(s) as int;
    if n >= s.len() {
        seq![s]
    } else {
        seq![s.take(n)] + split_lines(s.skip(n + 1))
    }
}

/// The length of the maximal prefix of `s` that holds no whitespace.
pub open spec fn token_len(s: Seq<char>) -> nat
    decreases s.len(),
{
    if s.len() > 0 && !is_space(s[0]) {
        (1 + token_len(s.drop_first())) as nat
    } else {
        0
    }
}

/// The whitespace-separated tokens of `s`: the maximal runs of
/// non-whitespace characters, in order.
pub open spec fn tokens_of(s: Seq<char>) -> Seq<Seq<char>>
    decreases s.len(),
{
    if s.len() == 0 {
        Seq::empty()
    } else if is_space(s[0]) {
        tokens_of(s.drop_first())
    } else if token_len(s) >= s.len() {
        seq![s]
    } else {
        seq![s.take(token_len(s) as int)] + tokens_of(s.skip(token_len(s) as int))
    }
}

/// The views of a sequence of string slices.
pub open spec fn views_of(ts: Seq<&str>) -> Seq<Seq<char>> {
    ts.map_values(|t: &str| t@)
}

/// Dropping a whitespace prefix leaves `trim_start_rec` unchanged.
proof fn lemma_trim_start_skip(s: Seq<char>, i: int)
    requires
        0 <= i <= s.len(),
        forall|k: int| 0 <= k < i ==> is_space(s[k]),
    ensures
        trim_start_rec(s) == trim_start_rec(s.skip(i)),
    decreases i,
{
    if i > 0 {
        lemma_trim_start_skip(s.drop_first(), i - 1);
        assert(s.drop_first().skip(i - 1) =~= s.skip(i));
    } else {
        assert(s.skip(0) =~= s);
    }
}

/// `trim_start_rec` leaves a sequence that does not start with whitespace alone.
proof fn lemma_trim_start_noop(s: Seq<char>)
    requires
        s.len() == 0 || !is_space(s[0]),
    ensures
        trim_start_rec(s) == s,
{
}

/// Dropping a whitespace suffix leaves `trim_end_rec` unchanged.
proof fn lemma_trim_end_skip(s: Seq<char>, i: int)
    requires
        0 <= i <= s.len(),
        forall|k: int| i <= k < s.len() ==> is_space(s[k]),
    ensures
        trim_end_rec(s) == trim_end_rec(s.take(i)),
    decreases s.len(),
{
    if i < s.len() {
        lemma_trim_end_skip(s.drop_last(), i);
        assert(s.drop_last().take(i) =~= s.take(i));
    } else {
        assert(s.take(i) =~= s);
    }
}

/// `trim_end_rec` leaves a sequence that does not end with whitespace alone.
proof fn lemma_trim_end_noop(s: Seq<char>)
    requires
        s.len() == 0 || !is_space(s.last()),
    ensures
        trim_end_rec(s) == s,
{
}

/// `line_len` is the index of the first newline, or the length where
/// there is none.
pub(crate) proof fn lemma_line_len_is(s: Seq<char>, k: int)
    requires
        0 <= k <= s.len(),
        forall|j: int| 0 <= j < k ==> s[j] != '\n',
        k < s.len() ==> s[k] == '\n',
    ensures
        line_len(s) == k,
    decreases k,
{
    if k > 0 {
        lemma_line_len_is(s.drop_first(), k - 1);
    }
}

/// `token_len` is the index of the first whitespace character, or the
/// length where there is none.
proof fn lemma_token_len_is(s: Seq<char>, k: int)
    requires
        0 <= k <= s.len(),
        forall|j: int| 0 <= j < k ==> !is_space(s[j]),
        k < s.len() ==> is_space(s[k]),
    ensures
        token_len(s) == k,
    decreases k,
{
    if k > 0 {
        lemma_token_len_is(s.drop_first(), k - 1);
    }
}

/// Whether `c` is one of the file format's whitespace characters.
fn is_space_char(c: char) -> (b: bool)
    ensures
        b == is_space(c),
{
    c == ' ' || c == '\t' || c == '\r' || c == '\n'
}

/// The argument without leading and trailing whitespace.
pub fn trim(s: &str) -> (r: &str)
    ensures
        r@ == trim_spec(s@),
{
    let n = s.unicode_len();
    let mut start: usize = 0;
    while start < n && is_space_char(s.get_char(start))
        invariant
            0 <= start <= n,
            n == s@.len(),
            forall|k: int| 0 <= k < start ==> is_space(s@[k]),
        decreases n - start,
    {
        start = start + 1;
    }
    let mut end: usize = n;
    while end > start && is_space_char(s.get_char(end - 1))
        invariant
            start <= end <= n,
            n == s@.len(),
            forall|k: int| end <= k < n ==> is_space(s@[k]),
        decreases end,
    {
        end = end - 1;
    }
    let r = s.substring_char(start, end);
    proof {
        let t = s@.skip(start as int);
        lemma_trim_start_skip(s@, start as int);
        lemma_trim_start_noop(t);
        lemma_trim_end_skip(t, end - start);
        assert(t.take(end - start) =~= s@.subrange(start as int, end as int));
        lemma_trim_end_noop(t.take(end - start));
    }
    r
}

/// The whitespace-separated tokens of `line`, as slices of it, in order.
pub fn tokenize<'a>(line: &'a str) -> (toks: Vec<&'a str>)
    ensures
        views_of(toks@) == tokens_of(line@),
{
    let n = line.unicode_len();
    let mut toks: Vec<&'a str> = Vec::new();
    let mut pos: usize = 0;
    proof {
        assert(line@.skip(0) =~= line@);
        assert(views_of(toks@) =~= Seq::<Seq<char>>::empty());
        assert(tokens_of(line@) == views_of(toks@) + tokens_of(line@.skip(pos as int)));
    }
    while pos < n
        invariant
            0 <= pos <= n,
            n == line@.len(),
            tokens_of(line@) == views_of(toks@) + tokens_of(line@.skip(pos as int)),
        decreases n - pos,
    {
        let u = Ghost(line@.skip(pos as int));
        if is_space_char(line.get_char(pos)) {
            proof {
                assert(u@.drop_first() =~= line@.skip(pos + 1));
            }
            pos = pos + 1;
        } else {
            let mut j: usize = pos + 1;
            while j < n && !is_space_char(line.get_char(j))
                invariant
                    pos < j <= n,
                    n == line@.len(),
                    forall|k: int| pos <= k < j ==> !is_space(line@[k]),
                decreases n - j,
            {
                j = j + 1;
            }
            let tok = line.substring_char(pos, j);
            proof {
                assert(forall|k: int| 0 <= k < j - pos ==> u@[k] == line@[pos + k]);
                lemma_token_len_is(u@, j - pos);
                assert(u@.take(j - pos) =~= line@.subrange(pos as int, j as int));
                if j < n {
                    assert(u@.skip(j - pos) =~= line@.skip(j as int));
                    assert(tokens_of(u@) == seq![tok@] + tokens_of(line@.skip(j as int)));
                } else {
                    assert(u@ =~= tok@);
                    assert(tokens_of(u@) == seq![tok@]);
                    assert(line@.skip(j as int) =~= Seq::<char>::empty());
                    assert(tokens_of(line@.skip(j as int)) =~= Seq::<Seq<char>>::empty());
                    assert(tokens_of(u@) == seq![tok@] + tokens_of(line@.skip(j as int)));
                }
            }
            let ghost old_toks = toks@;
            toks.push(tok);
            proof {
                assert(views_of(toks@) =~= views_of(old_toks) + seq![tok@]);
                assert(views_of(old_toks) + (seq![tok@] + tokens_of(line@.skip(j as int)))
                    =~= (views_of(old_toks) + seq![tok@]) + tokens_of(line@.skip(j as int)));
            }
            pos = j;
        }
    }
    proof {
        assert(line@.skip(pos as int) =~= Seq::<char>::empty());
        assert(tokens_of(line@.skip(pos as int)) =~= Seq::<Seq<char>>::empty());
        assert(views_of(toks@) + Seq::<Seq<char>>::empty() =~= views_of(toks@));
    }
    toks
}

} // verus!
