//! Character-level text handling shared by the rest of the library:
//! splitting, trimming, joining, searching and decimal rendering, each
//! stated over `Seq<char>`.

use vstd::prelude::*;
use vstd::string::*;

verus! {

// ---------------------------------------------------------------------------
// Models
// ---------------------------------------------------------------------------

/// The Unicode `White_Space` property, the set that `char::is_whitespace`,
/// `str::trim` and `str::split_whitespace` use.
pub open spec fn is_space(c: char) -> bool {
    let u = c as u32;
    ||| 0x9 <= u <= 0xd
    ||| u == 0x20
    ||| u == 0x85
    ||| u == 0xa0
    ||| u == 0x1680
    ||| 0x2000 <= u <= 0x200a
    ||| u == 0x2028
    ||| u == 0x2029
    ||| u == 0x202f
    ||| u == 0x205f
    ||| u == 0x3000
}

/// What separates the pieces of a text when it is split.
#[derive(Clone, Copy, Debug)]
pub enum Separator {
    /// One given character.
    Char(char),
    /// Any white-space character.
    Space,
    /// A path separator: `/` or `\\`.
    PathSep,
}

pub open spec fn separates(sep: Separator, c: char) -> bool {
    match sep {
        Separator::Char(d) => c == d,
        Separator::Space => is_space(c),
        Separator::PathSep => c == '/' || c == '\\',
    }
}

/// The pieces of `s` between separators, empty pieces included, as
/// `str::split` gives them: one piece more than there are separators.
pub open spec fn split_spec(s: Seq<char>, sep: Separator) -> Seq<Seq<char>>
    decreases s.len(),
{
    if s.len() == 0 {
        seq![Seq::<char>::empty()]
    } else {
        let prev = split_spec(s.drop_last(), sep);
        if separates(sep, s.last()) {
            prev.push(Seq::<char>::empty())
        } else {
            prev.update(prev.len() - 1, prev.last().push(s.last()))
        }
    }
}

/// `s` without its leading white space.
pub open spec fn trim_start_spec(s: Seq<char>) -> Seq<char>
    decreases s.len(),
{
    if s.len() > 0 && is_space(s[0]) {
        trim_start_spec(s.drop_first())
    } else {
        s
    }
}

/// `s` without its trailing white space.
pub open spec fn trim_end_spec(s: Seq<char>) -> Seq<char>
    decreases s.len(),
{
    if s.len() > 0 && is_space(s.last()) {
        trim_end_spec(s.drop_last())
    } else {
        s
    }
}

/// `s` without leading and trailing white space, as `str::trim` gives it.
pub open spec fn trim_spec(s: Seq<char>) -> Seq<char> {
    trim_end_spec(trim_start_spec(s))
}

/// Neither the first nor the last character of `s` is white space.
pub open spec fn is_trimmed(s: Seq<char>) -> bool {
    s.len() == 0 || (!is_space(s[0]) && !is_space(s.last()))
}

/// The words of `s`, as `str::split_whitespace` gives them.
pub open spec fn words_spec(s: Seq<char>) -> Seq<Seq<char>> {
    split_spec(s, Separator::Space).filter(nonempty_text())
}

/// The test that keeps the non-empty texts.
pub open spec fn nonempty_text() -> spec_fn(Seq<char>) -> bool {
    |p: Seq<char>| p.len() > 0
}

/// The elements of `list` with `sep` between each two, as `[String]::join`
/// gives them.
pub open spec fn join_spec(list: Seq<Seq<char>>, sep: Seq<char>) -> Seq<char>
    decreases list.len(),
{
    if list.len() == 0 {
        Seq::<char>::empty()
    } else if list.len() == 1 {
        list[0]
    } else {
        join_spec(list.drop_last(), sep) + sep + list.last()
    }
}

/// `p` without one trailing carriage return.
pub open spec fn strip_cr(p: Seq<char>) -> Seq<char> {
    if p.len() > 0 && p.last() == '\r' {
        p.drop_last()
    } else {
        p
    }
}

/// The lines of `s`, as `str::lines` gives them: split at `\n`, a `\r`
/// right before a `\n` removed, and no empty line after a final `\n`.
pub open spec fn lines_spec(s: Seq<char>) -> Seq<Seq<char>> {
    let parts = split_spec(s, Separator::Char('\n'));
    let n: int = if s.len() == 0 || s.last() == '\n' {
        parts.len() - 1
    } else {
        parts.len() as int
    };
    Seq::new(
        n as nat,
        |i: int|
            if i < parts.len() - 1 {
                strip_cr(parts[i])
            } else {
                parts[i]
            },
    )
}

/// The decimal digit for `d`.
pub open spec fn digit_char(d: int) -> char {
    if d == 0 {
        '0'
    } else if d == 1 {
        '1'
    } else if d == 2 {
        '2'
    } else if d == 3 {
        '3'
    } else if d == 4 {
        '4'
    } else if d == 5 {
        '5'
    } else if d == 6 {
        '6'
    } else if d == 7 {
        '7'
    } else if d == 8 {
        '8'
    } else {
        '9'
    }
}

pub open spec fn is_digit(c: char) -> bool {
    '0' <= c <= '9'
}

/// `n` written in decimal, without leading zeros, as `Display` writes it.
pub open spec fn decimal(n: nat) -> Seq<char>
    decreases n,
{
    if n < 10 {
        seq![digit_char(n as int)]
    } else {
        decimal(n / 10).push(digit_char((n % 10) as int))
    }
}

/// `v` written in decimal with a leading `-` when negative.
pub open spec fn signed_decimal(v: int) -> Seq<char> {
    if v < 0 {
        seq!['-'] + decimal((-v) as nat)
    } else {
        decimal(v as nat)
    }
}

/// The texts of `v`.
pub open spec fn texts(v: Seq<String>) -> Seq<Seq<char>> {
    v.map_values(|s: String| s@)
}

/// The character sequences of `v`.
pub open spec fn char_seqs(v: Seq<Vec<char>>) -> Seq<Seq<char>> {
    v.map_values(|s: Vec<char>| s@)
}

// ---------------------------------------------------------------------------
// Lemmas
// ---------------------------------------------------------------------------

pub proof fn lemma_split_nonempty(s: Seq<char>, sep: Separator)
    ensures
        split_spec(s, sep).len() >= 1,
    decreases s.len(),
{
    if s.len() > 0 {
        lemma_split_nonempty(s.drop_last(), sep);
    }
}

/// No piece of a split holds a separator.
pub proof fn lemma_split_pieces_free(s: Seq<char>, sep: Separator)
    ensures
        forall|i: int, j: int|
            0 <= i < split_spec(s, sep).len() && 0 <= j < split_spec(s, sep)[i].len()
                ==> !separates(sep, #[trigger] split_spec(s, sep)[i][j]),
    decreases s.len(),
{
    if s.len() > 0 {
        lemma_split_pieces_free(s.drop_last(), sep);
        lemma_split_nonempty(s.drop_last(), sep);
        let prev = split_spec(s.drop_last(), sep);
        let cur = split_spec(s, sep);
        assert forall|i: int, j: int| 0 <= i < cur.len() && 0 <= j < cur[i].len() implies !separates(
            sep,
            #[trigger] cur[i][j],
        ) by {
            if !separates(sep, s.last()) && i == prev.len() - 1 {
                if j < prev[i].len() {
                    assert(cur[i][j] == prev[i][j]);
                }
            } else if i < prev.len() {
                assert(cur[i] == prev[i]);
            }
        }
    }
}

/// Splitting `a` followed by a text free of separators extends the last
/// piece of `a`.
pub proof fn lemma_split_append_free(a: Seq<char>, b: Seq<char>, sep: Separator)
    requires
        forall|j: int| 0 <= j < b.len() ==> !separates(sep, #[trigger] b[j]),
    ensures
        split_spec(a + b, sep) == split_spec(a, sep).update(
            split_spec(a, sep).len() - 1,
            split_spec(a, sep).last() + b,
        ),
    decreases b.len(),
{
    lemma_split_nonempty(a, sep);
    if b.len() == 0 {
        assert(a + b == a);
        assert(split_spec(a, sep).last() + b == split_spec(a, sep).last());
        assert(split_spec(a, sep).update(split_spec(a, sep).len() - 1, split_spec(a, sep).last())
            == split_spec(a, sep));
    } else {
        let b0 = b.drop_last();
        assert forall|j: int| 0 <= j < b0.len() implies !separates(sep, #[trigger] b0[j]) by {
            assert(b0[j] == b[j]);
        }
        lemma_split_append_free(a, b0, sep);
        assert((a + b).drop_last() == a + b0);
        assert((a + b).last() == b.last());
        assert(!separates(sep, b[b.len() - 1]));
        let sa = split_spec(a, sep);
        let prev = split_spec(a + b0, sep);
        assert(prev.len() == sa.len());
        assert(prev.last() == sa.last() + b0);
        assert(split_spec(a + b, sep) == prev.update(prev.len() - 1, prev.last().push(b.last())));
        assert((sa.last() + b0).push(b.last()) == sa.last() + b);
        assert(prev.update(prev.len() - 1, sa.last() + b) =~= sa.update(sa.len() - 1, sa.last() + b));
        assert((a + b).drop_last() == a + b0);
        assert((a + b).last() == b.last());
        assert(split_spec(a, sep).last() + b0 + seq![b.last()] == split_spec(a, sep).last() + b);
    }
}

/// Splitting `a`, a separator, then a text free of separators.
pub proof fn lemma_split_sep_then_free(a: Seq<char>, c: char, b: Seq<char>, sep: Separator)
    requires
        separates(sep, c),
        forall|j: int| 0 <= j < b.len() ==> !separates(sep, #[trigger] b[j]),
    ensures
        split_spec(a + seq![c] + b, sep) == split_spec(a, sep).push(b),
{
    let ac = a + seq![c];
    assert(ac.drop_last() == a);
    assert(split_spec(ac, sep) == split_spec(a, sep).push(Seq::<char>::empty()));
    lemma_split_append_free(ac, b, sep);
    assert(Seq::<char>::empty() + b == b);
}

/// Joining texts free of separators, then splitting, gives them back.
pub proof fn lemma_split_join(list: Seq<Seq<char>>, c: char, sep: Separator)
    requires
        list.len() >= 1,
        separates(sep, c),
        forall|i: int, j: int|
            0 <= i < list.len() && 0 <= j < list[i].len() ==> !separates(sep, #[trigger] list[i][j]),
    ensures
        split_spec(join_spec(list, seq![c]), sep) == list,
    decreases list.len(),
{
    if list.len() == 1 {
        let x = list[0];
        assert(Seq::<char>::empty() + x == x);
        lemma_split_append_free(Seq::<char>::empty(), x, sep);
        assert(split_spec(Seq::<char>::empty(), sep) == seq![Seq::<char>::empty()]);
        assert(split_spec(x, sep) == seq![x]);
        assert(list == seq![x]);
    } else {
        let init = list.drop_last();
        assert forall|i: int, j: int| 0 <= i < init.len() && 0 <= j < init[i].len() implies !separates(
            sep,
            #[trigger] init[i][j],
        ) by {
            assert(init[i] == list[i]);
        }
        lemma_split_join(init, c, sep);
        let last = list.last();
        assert forall|j: int| 0 <= j < last.len() implies !separates(sep, #[trigger] last[j]) by {
            assert(list[list.len() - 1][j] == last[j]);
        }
        lemma_split_sep_then_free(join_spec(init, seq![c]), c, last, sep);
        assert(init.push(last) == list);
    }
}

pub proof fn lemma_join_ends_with_last(list: Seq<Seq<char>>, sep: Seq<char>)
    requires
        list.len() >= 1,
    ensures
        join_spec(list, sep).len() >= list.last().len(),
        list.last().len() > 0 ==> join_spec(list, sep).last() == list.last().last(),
{
    if list.len() > 1 {
        let j = join_spec(list.drop_last(), sep) + sep + list.last();
        assert(join_spec(list, sep) == j);
        if list.last().len() > 0 {
            assert(j.last() == list.last().last());
        }
    }
}

/// The lines of joined lines are those lines, when no line holds a line
/// break, no line but the last ends in `\r`, and the last is not empty.
pub proof fn lemma_lines_of_join(list: Seq<Seq<char>>)
    requires
        forall|i: int, j: int| 0 <= i < list.len() && 0 <= j < list[i].len() ==> #[trigger] list[i][j] != '\n',
        forall|i: int| 0 <= i < list.len() - 1 ==> #[trigger] strip_cr(list[i]) == list[i],
        list.len() > 0 ==> list.last().len() > 0,
    ensures
        lines_spec(join_spec(list, seq!['\n'])) == list,
{
    let sep = Separator::Char('\n');
    let s = join_spec(list, seq!['\n']);
    if list.len() == 0 {
        assert(s.len() == 0);
        assert(lines_spec(s) =~= list);
    } else {
        lemma_split_join(list, '\n', sep);
        lemma_join_ends_with_last(list, seq!['\n']);
        let parts = split_spec(s, sep);
        assert(parts == list);
        assert(s.len() > 0);
        assert(s.last() != '\n') by {
            assert(list[list.len() - 1][list.last().len() - 1] != '\n');
        }
        assert(lines_spec(s) =~= list);
    }
}

/// Trimming ignores white space put in front.
pub proof fn lemma_trim_start_skips_space(w: Seq<char>, x: Seq<char>)
    requires
        forall|j: int| 0 <= j < w.len() ==> is_space(#[trigger] w[j]),
    ensures
        trim_start_spec(w + x) == trim_start_spec(x),
    decreases w.len(),
{
    if w.len() > 0 {
        assert((w + x).drop_first() == w.drop_first() + x);
        assert((w + x)[0] == w[0]);
        lemma_trim_start_skips_space(w.drop_first(), x);
    } else {
        assert(w + x == x);
    }
}

/// Trimming the end ignores white space put behind.
pub proof fn lemma_trim_end_skips_space(x: Seq<char>, w: Seq<char>)
    requires
        forall|j: int| 0 <= j < w.len() ==> is_space(#[trigger] w[j]),
    ensures
        trim_end_spec(x + w) == trim_end_spec(x),
    decreases w.len(),
{
    if w.len() > 0 {
        assert((x + w).drop_last() == x + w.drop_last());
        assert((x + w).last() == w.last());
        lemma_trim_end_skips_space(x, w.drop_last());
    } else {
        assert(x + w == x);
    }
}

/// A text padded with white space trims to itself when it is already
/// trimmed.
pub proof fn lemma_trim_padded(w1: Seq<char>, x: Seq<char>, w2: Seq<char>)
    requires
        forall|j: int| 0 <= j < w1.len() ==> is_space(#[trigger] w1[j]),
        forall|j: int| 0 <= j < w2.len() ==> is_space(#[trigger] w2[j]),
        is_trimmed(x),
    ensures
        trim_spec(w1 + x + w2) == x,
{
    assert(w1 + x + w2 == w1 + (x + w2));
    lemma_trim_start_skips_space(w1, x + w2);
    if x.len() > 0 {
        assert((x + w2)[0] == x[0]);
        assert(trim_start_spec(x + w2) == x + w2);
        lemma_trim_end_skips_space(x, w2);
    } else {
        assert(x + w2 == w2);
        assert(Seq::<char>::empty() + w2 == w2);
        lemma_trim_start_skips_space(w2, Seq::<char>::empty());
        assert(w2 + Seq::<char>::empty() == w2);
    }
}

/// Trimming the start drops a prefix and leaves no white space in front.
pub proof fn lemma_trim_start_shape(s: Seq<char>) -> (k: int)
    ensures
        0 <= k <= s.len(),
        trim_start_spec(s) == s.subrange(k, s.len() as int),
        trim_start_spec(s).len() > 0 ==> !is_space(trim_start_spec(s)[0]),
    decreases s.len(),
{
    if s.len() > 0 && is_space(s[0]) {
        let k0 = lemma_trim_start_shape(s.drop_first());
        assert(s.drop_first().subrange(k0, s.drop_first().len() as int) == s.subrange(
            k0 + 1,
            s.len() as int,
        ));
        k0 + 1
    } else {
        assert(s.subrange(0, s.len() as int) == s);
        0
    }
}

/// Trimming the end drops a suffix and leaves no white space behind.
pub proof fn lemma_trim_end_shape(s: Seq<char>) -> (k: int)
    ensures
        0 <= k <= s.len(),
        trim_end_spec(s) == s.subrange(0, k),
        trim_end_spec(s).len() > 0 ==> !is_space(trim_end_spec(s).last()),
    decreases s.len(),
{
    if s.len() > 0 && is_space(s.last()) {
        let k0 = lemma_trim_end_shape(s.drop_last());
        assert(s.drop_last().subrange(0, k0) == s.subrange(0, k0));
        k0
    } else {
        assert(s.subrange(0, s.len() as int) == s);
        s.len() as int
    }
}

/// A trimmed text is a stretch of the original with no white space at
/// either end.
pub proof fn lemma_trim_shape(s: Seq<char>) -> (ab: (int, int))
    ensures
        0 <= ab.0 <= ab.1 <= s.len(),
        trim_spec(s) == s.subrange(ab.0, ab.1),
        is_trimmed(trim_spec(s)),
{
    let a = lemma_trim_start_shape(s);
    let t = trim_start_spec(s);
    let k = lemma_trim_end_shape(t);
    assert(t.subrange(0, k) == s.subrange(a, a + k));
    let r = trim_spec(s);
    if r.len() > 0 {
        assert(r[0] == t[0]);
    }
    (a, a + k)
}

/// What holds of every element of a sequence holds of every element kept by
/// a filter.
pub proof fn lemma_filter_keeps_all<A>(s: Seq<A>, pred: spec_fn(A) -> bool, p: spec_fn(A) -> bool)
    requires
        forall|i: int| 0 <= i < s.len() ==> p(#[trigger] s[i]),
    ensures
        forall|i: int| 0 <= i < s.filter(pred).len() ==> p(#[trigger] s.filter(pred)[i]),
    decreases s.len(),
{
    reveal_with_fuel(Seq::filter, 1);
    if s.len() > 0 {
        let init = s.drop_last();
        assert forall|i: int| 0 <= i < init.len() implies p(#[trigger] init[i]) by {
            assert(init[i] == s[i]);
        }
        lemma_filter_keeps_all(init, pred, p);
        let f = s.filter(pred);
        let fi = init.filter(pred);
        assert forall|i: int| 0 <= i < f.len() implies p(#[trigger] f[i]) by {
            if i < fi.len() {
                assert(f[i] == fi[i]);
            } else {
                assert(f[i] == s.last());
            }
        }
    }
}

/// Trimming the start of `x` followed by `y`: what is left of `x`, then
/// `y`; or, when nothing of `x` is left, `y` trimmed at the start.
pub proof fn lemma_trim_start_concat(x: Seq<char>, y: Seq<char>)
    ensures
        trim_start_spec(x + y) == (if trim_start_spec(x).len() > 0 {
            trim_start_spec(x) + y
        } else {
            trim_start_spec(y)
        }),
    decreases x.len(),
{
    if x.len() == 0 {
        assert(x + y == y);
    } else if is_space(x[0]) {
        assert((x + y)[0] == x[0]);
        assert((x + y).drop_first() == x.drop_first() + y);
        lemma_trim_start_concat(x.drop_first(), y);
    } else {
        assert((x + y)[0] == x[0]);
    }
}

/// White space around a text does not change how it trims.
pub proof fn lemma_trim_ignores_padding(w1: Seq<char>, x: Seq<char>, w2: Seq<char>)
    requires
        forall|j: int| 0 <= j < w1.len() ==> is_space(#[trigger] w1[j]),
        forall|j: int| 0 <= j < w2.len() ==> is_space(#[trigger] w2[j]),
    ensures
        trim_spec(w1 + x + w2) == trim_spec(x),
{
    assert(w1 + x + w2 == w1 + (x + w2));
    lemma_trim_start_skips_space(w1, x + w2);
    lemma_trim_start_concat(x, w2);
    if trim_start_spec(x).len() > 0 {
        lemma_trim_end_skips_space(trim_start_spec(x), w2);
    } else {
        assert(w2 + Seq::<char>::empty() == w2);
        lemma_trim_start_skips_space(w2, Seq::<char>::empty());
    }
}

// ---------------------------------------------------------------------------
// Executable functions
// ---------------------------------------------------------------------------

/// Appends `c` to `s` (`String::push`).
#[verifier::external_body]
fn push_char(s: &mut String, c: char)
    ensures
        final(s)@ == old(s)@.push(c),
{
    s.push(c);
}

/// Whether `c` is white space.
pub fn char_is_space(c: char) -> (r: bool)
    ensures
        r == is_space(c),
{
    let u = c as u32;
    (0x9 <= u && u <= 0xd) || u == 0x20 || u == 0x85 || u == 0xa0 || u == 0x1680 || (0x2000 <= u
        && u <= 0x200a) || u == 0x2028 || u == 0x2029 || u == 0x202f || u == 0x205f || u == 0x3000
}

fn is_separator(sep: Separator, c: char) -> (r: bool)
    ensures
        r == separates(sep, c),
{
    match sep {
        Separator::Char(d) => c == d,
        Separator::Space => char_is_space(c),
        Separator::PathSep => c == '/' || c == '\\',
    }
}

/// The characters of `s`, in order.
pub fn chars_of(s: &str) -> (v: Vec<char>)
    ensures
        v@ == s@,
{
    let mut v: Vec<char> = Vec::new();
    for c in it: s.chars()
        invariant
            v@ == it.seq().take(it.index() as int),
            it.seq() == s@,
    {
        v.push(c);
    }
    v
}

/// The text made of the characters of `v`.
pub fn string_of(v: &Vec<char>) -> (s: String)
    ensures
        s@ == v@,
{
    let mut s = String::new();
    let mut i: usize = 0;
    while i < v.len()
        invariant
            i <= v.len(),
            s@ == v@.take(i as int),
        decreases v.len() - i,
    {
        push_char(&mut s, v[i]);
        assert(v@.take(i as int).push(v@[i as int]) == v@.take(i + 1));
        i += 1;
    }
    assert(v@.take(v.len() as int) == v@);
    s
}

/// The texts made of each element of `v`.
pub fn strings_of(v: &Vec<Vec<char>>) -> (r: Vec<String>)
    ensures
        texts(r@) == char_seqs(v@),
{
    let mut r: Vec<String> = Vec::new();
    let mut i: usize = 0;
    while i < v.len()
        invariant
            i <= v.len(),
            texts(r@) == char_seqs(v@).take(i as int),
        decreases v.len() - i,
    {
        let s = string_of(&v[i]);
        let ghost before = r@;
        r.push(s);
        assert(texts(r@) =~= texts(before).push(v@[i as int]@));
        assert(texts(r@) =~= char_seqs(v@).take(i + 1));
        i += 1;
    }
    assert(char_seqs(v@).take(v.len() as int) == char_seqs(v@));
    r
}

/// The characters of `v` from `start` up to `end`.
pub fn sub_chars(v: &Vec<char>, start: usize, end: usize) -> (r: Vec<char>)
    requires
        start <= end <= v.len(),
    ensures
        r@ == v@.subrange(start as int, end as int),
{
    let mut r: Vec<char> = Vec::new();
    let mut i = start;
    while i < end
        invariant
            start <= i <= end <= v.len(),
            r@ == v@.subrange(start as int, i as int),
        decreases end - i,
    {
        r.push(v[i]);
        assert(v@.subrange(start as int, i as int).push(v@[i as int]) == v@.subrange(
            start as int,
            i + 1,
        ));
        i += 1;
    }
    r
}

/// The pieces of `s` between separators, empty pieces included.
pub fn split_chars(s: &Vec<char>, sep: Separator) -> (parts: Vec<Vec<char>>)
    ensures
        char_seqs(parts@) == split_spec(s@, sep),
{
    let mut parts: Vec<Vec<char>> = Vec::new();
    let mut cur: Vec<char> = Vec::new();
    let mut i: usize = 0;
    assert(s@.take(0) == Seq::<char>::empty());
    assert(char_seqs(parts@).push(cur@) == split_spec(s@.take(0), sep));
    while i < s.len()
        invariant
            i <= s.len(),
            char_seqs(parts@).push(cur@) == split_spec(s@.take(i as int), sep),
        decreases s.len() - i,
    {
        let c = s[i];
        let ghost prev = split_spec(s@.take(i as int), sep);
        assert(s@.take(i + 1).drop_last() == s@.take(i as int));
        assert(s@.take(i + 1).last() == c);
        if is_separator(sep, c) {
            parts.push(cur);
            cur = Vec::new();
            assert(char_seqs(parts@).push(cur@) == prev.push(Seq::<char>::empty()));
        } else {
            cur.push(c);
            assert(char_seqs(parts@).push(cur@) == prev.update(
                prev.len() - 1,
                prev.last().push(c),
            ));
        }
        i += 1;
    }
    assert(s@.take(s.len() as int) == s@);
    parts.push(cur);
    parts
}

/// `v` without leading and trailing white space.
pub fn trim_chars(v: &Vec<char>) -> (r: Vec<char>)
    ensures
        r@ == trim_spec(v@),
{
    let n = v.len();
    let mut a: usize = 0;
    assert(v@.subrange(0, n as int) == v@);
    while a < n && char_is_space(v[a])
        invariant
            a <= n == v.len(),
            trim_start_spec(v@) == trim_start_spec(v@.subrange(a as int, n as int)),
        decreases n - a,
    {
        assert(v@.subrange(a as int, n as int).drop_first() == v@.subrange(a + 1, n as int));
        a += 1;
    }
    let mut b: usize = n;
    assert(trim_start_spec(v@) == v@.subrange(a as int, n as int));
    while b > a && char_is_space(v[b - 1])
        invariant
            a <= b <= n == v.len(),
            trim_spec(v@) == trim_end_spec(v@.subrange(a as int, b as int)),
        decreases b - a,
    {
        assert(v@.subrange(a as int, b as int).drop_last() == v@.subrange(a as int, b - 1));
        b -= 1;
    }
    sub_chars(v, a, b)
}

/// `s` without leading and trailing white space (`str::trim`).
pub fn trim_text(s: &str) -> (r: String)
    ensures
        r@ == trim_spec(s@),
{
    let v = chars_of(s);
    let t = trim_chars(&v);
    string_of(&t)
}

/// Whether `a` and `b` hold the same characters.
pub fn same_chars(a: &Vec<char>, b: &Vec<char>) -> (r: bool)
    ensures
        r == (a@ == b@),
{
    if a.len() != b.len() {
        return false;
    }
    let mut i: usize = 0;
    while i < a.len()
        invariant
            i <= a.len() == b.len(),
            forall|k: int| 0 <= k < i ==> a@[k] == b@[k],
        decreases a.len() - i,
    {
        if a[i] != b[i] {
            return false;
        }
        i += 1;
    }
    assert(a@ =~= b@);
    true
}

/// The texts of `list` with `sep` between each two (`[String]::join`).
pub fn join_strings(list: &Vec<String>, sep: &str) -> (r: String)
    ensures
        r@ == join_spec(texts(list@), sep@),
{
    let mut r = String::new();
    let ghost all = texts(list@);
    let mut i: usize = 0;
    while i < list.len()
        invariant
            i <= list.len(),
            all == texts(list@),
            r@ == join_spec(all.take(i as int), sep@),
        decreases list.len() - i,
    {
        if i == 0 {
            r.append(list[i].as_str());
            assert(all.take(1) =~= seq![list@[0]@]);
        } else {
            r.append(sep);
            r.append(list[i].as_str());
            assert(all.take(i + 1).drop_last() =~= all.take(i as int));
        }
        i += 1;
    }
    assert(all.take(list.len() as int) =~= all);
    r
}

fn digit_of(d: u128) -> (c: char)
    requires
        d < 10,
    ensures
        c == digit_char(d as int),
{
    if d == 0 {
        '0'
    } else if d == 1 {
        '1'
    } else if d == 2 {
        '2'
    } else if d == 3 {
        '3'
    } else if d == 4 {
        '4'
    } else if d == 5 {
        '5'
    } else if d == 6 {
        '6'
    } else if d == 7 {
        '7'
    } else if d == 8 {
        '8'
    } else {
        '9'
    }
}

/// `n` in decimal.
pub fn decimal_u128(n: u128) -> (r: String)
    ensures
        r@ == decimal(n as nat),
{
    let mut m = n;
    let mut digits: Vec<char> = Vec::new();
    assert(decimal(n as nat) == decimal(m as nat) + digits@);
    while m >= 10
        invariant
            decimal(n as nat) == decimal(m as nat) + digits@,
        decreases m,
    {
        let d = digit_of(m % 10);
        let ghost old_digits = digits@;
        digits.insert(0, d);
        assert(digits@ == seq![d] + old_digits);
        assert(decimal(m as nat) == decimal((m / 10) as nat).push(d));
        assert(decimal((m / 10) as nat).push(d) + old_digits == decimal((m / 10) as nat) + (seq![d]
            + old_digits));
        m = m / 10;
    }
    let d = digit_of(m);
    let ghost old_digits = digits@;
    digits.insert(0, d);
    assert(digits@ == seq![d] + old_digits);
    assert(decimal(m as nat) == seq![d]);
    string_of(&digits)
}

/// `v` in decimal, with a leading `-` when negative.
pub fn decimal_i32(v: i32) -> (r: String)
    ensures
        r@ == signed_decimal(v as int),
{
    if v < 0 {
        let magnitude: i64 = -(v as i64);
        let digits = decimal_u128(magnitude as u128);
        let mut r = String::new();
        push_char(&mut r, '-');
        r.append(digits.as_str());
        r
    } else {
        decimal_u128(v as u128)
    }
}

/// The words of `s` (`str::split_whitespace`).
pub fn words_of(s: &str) -> (r: Vec<String>)
    ensures
        texts(r@) == words_spec(s@),
{
    let v = chars_of(s);
    let parts = split_chars(&v, Separator::Space);
    let mut kept: Vec<Vec<char>> = Vec::new();
    let ghost all = split_spec(s@, Separator::Space);
    let ghost pred = nonempty_text();
    let mut i: usize = 0;
    while i < parts.len()
        invariant
            i <= parts.len(),
            all == char_seqs(parts@),
            pred == nonempty_text(),
            char_seqs(kept@) == all.take(i as int).filter(pred),
        decreases parts.len() - i,
    {
        assert(all.take(i + 1).drop_last() == all.take(i as int));
        assert(all.take(i + 1).last() == all[i as int]);
        assert(parts@[i as int]@ == all[i as int]);
        let ghost before = char_seqs(kept@);
        if parts[i].len() > 0 {
            let piece = sub_chars(&parts[i], 0, parts[i].len());
            assert(piece@ == all[i as int]);
            kept.push(piece);
            assert(char_seqs(kept@) =~= before.push(all[i as int]));
        }
        proof {
            reveal_with_fuel(Seq::filter, 1);
            let t = all.take(i + 1);
            assert(pred(t.last()) == (t.last().len() > 0));
            assert(t.filter(pred) == (if pred(t.last()) {
                t.drop_last().filter(pred).push(t.last())
            } else {
                t.drop_last().filter(pred)
            }));
            assert(char_seqs(kept@) == all.take(i + 1).filter(pred));
        }
        i += 1;
    }
    assert(all.take(parts.len() as int) == all);
    strings_of(&kept)
}

/// The lines of `s` (`str::lines`).
pub fn lines_of(s: &str) -> (r: Vec<String>)
    ensures
        texts(r@) == lines_spec(s@),
{
    let v = chars_of(s);
    let parts = split_chars(&v, Separator::Char('\n'));
    proof {
        lemma_split_nonempty(s@, Separator::Char('\n'));
    }
    let n = if v.len() == 0 || v[v.len() - 1] == '\n' {
        parts.len() - 1
    } else {
        parts.len()
    };
    let mut out: Vec<Vec<char>> = Vec::new();
    let mut i: usize = 0;
    while i < n
        invariant
            i <= n <= parts.len(),
            n == lines_spec(s@).len(),
            char_seqs(parts@) == split_spec(s@, Separator::Char('\n')),
            char_seqs(out@) == lines_spec(s@).take(i as int),
        decreases n - i,
    {
        let p = &parts[i];
        let ghost sp = split_spec(s@, Separator::Char('\n'));
        assert(p@ == sp[i as int]);
        assert(p@.subrange(0, p@.len() as int) == p@);
        let piece = if i < parts.len() - 1 && p.len() > 0 && p[p.len() - 1] == '\r' {
            sub_chars(p, 0, p.len() - 1)
        } else {
            sub_chars(p, 0, p.len())
        };
        assert(piece@ == lines_spec(s@)[i as int]);
        let ghost before = char_seqs(out@);
        out.push(piece);
        assert(char_seqs(out@) =~= before.push(piece@));
        assert(char_seqs(out@) =~= lines_spec(s@).take(i + 1));
        i += 1;
    }
    assert(lines_spec(s@).take(n as int) == lines_spec(s@));
    strings_of(&out)
}

} // verus!
