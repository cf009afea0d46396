//! Which changed paths the watcher leaves alone: the names that are always
//! ignored, and the glob patterns that the user adds.

use vstd::prelude::*;
use crate::text::{
    chars_of, is_trimmed, same_chars, lemma_filter_keeps_all, lemma_split_append_free,
    lemma_split_pieces_free, lemma_trim_shape, separates, split_chars, split_spec, string_of,
    trim_chars, trim_spec, char_seqs, Separator,
};

verus! {

// ---------------------------------------------------------------------------
// The glob crate
// ---------------------------------------------------------------------------

/// Whether `glob::Pattern::new` accepts the pattern text `pattern`.
pub uninterp spec fn glob_compiles(pattern: Seq<char>) -> bool;

/// Whether the pattern that `glob::Pattern::new` compiles from `pattern`
/// matches `path` under `glob::Pattern::matches` (default match options).
pub uninterp spec fn glob_matches(pattern: Seq<char>, path: Seq<char>) -> bool;

/// Calls `glob::Pattern::new` and tells whether it returned `Ok`.
/// Claimed: the answer is `glob_compiles` of the text; and, as the source
/// of `Pattern::new` shows (it only fails in its `*` and `[` branches), a
/// text without `*` and `[` always compiles.
#[verifier::external_body]
fn pattern_compiles(pattern: &str) -> (r: bool)
    ensures
        r == glob_compiles(pattern@),
        (forall|i: int| 0 <= i < pattern@.len() ==> #[trigger] pattern@[i] != '*' && pattern@[i] != '[')
            ==> r,
{
    glob::Pattern::new(pattern).is_ok()
}

/// Compiles `pattern` with `glob::Pattern::new` and asks
/// `glob::Pattern::matches` whether it matches `path`.
/// Claimed: the answer is `glob_matches(pattern, path)`; the pattern is
/// known to compile, so the `Err` arm is never taken.
#[verifier::external_body]
fn pattern_matches(pattern: &str, path: &str) -> (r: bool)
    requires
        glob_compiles(pattern@),
    ensures
        r == glob_matches(pattern@, path@),
{
    match glob::Pattern::new(pattern) {
        Ok(compiled) => compiled.matches(path),
        Err(_) => false,
    }
}

// ---------------------------------------------------------------------------
// Ignore patterns
// ---------------------------------------------------------------------------

/// A user-supplied glob pattern that is known to compile.
pub struct IgnorePattern {
    source: String,
}

impl View for IgnorePattern {
    type V = Seq<char>;

    closed spec fn view(&self) -> Seq<char> {
        self.source@
    }
}

impl IgnorePattern {
    #[verifier::type_invariant]
    spec fn compiles(self) -> bool {
        glob_compiles(self.source@)
    }

    /// Compiles `pattern`; `None` when glob rejects it.
    pub fn new(pattern: &str) -> (r: Option<IgnorePattern>)
        ensures
            r is Some <==> glob_compiles(pattern@),
            r matches Some(p) ==> p@ == pattern@,
    {
        if pattern_compiles(pattern) {
            Some(IgnorePattern { source: string_of(&chars_of(pattern)) })
        } else {
            None
        }
    }

    /// The pattern text.
    pub fn as_str(&self) -> (r: &str)
        ensures
            r@ == self@,
    {
        self.source.as_str()
    }

    /// Whether this pattern matches `path`.
    pub fn matches(&self, path: &str) -> (r: bool)
        ensures
            r == glob_matches(self@, path@),
    {
        proof {
            use_type_invariant(self);
        }
        pattern_matches(self.source.as_str(), path)
    }
}

/// The pattern texts of `patterns`.
pub open spec fn pattern_texts(patterns: Seq<IgnorePattern>) -> Seq<Seq<char>> {
    patterns.map_values(|p: IgnorePattern| p@)
}

// ---------------------------------------------------------------------------
// What is ignored
// ---------------------------------------------------------------------------

/// The names that are always ignored: the directories `.git`, `target`,
/// `node_modules`, `.next`, `dist`, `build`, `__pycache__`, and the file
/// `.DS_Store`.
pub open spec fn default_ignores_spec() -> Seq<Seq<char>> {
    seq![
        ".git"@,
        "target"@,
        "node_modules"@,
        ".next"@,
        "dist"@,
        "build"@,
        "__pycache__"@,
        ".DS_Store"@,
    ]
}

/// The names that are always ignored.
pub fn default_ignores() -> (r: Vec<&'static str>)
    ensures
        r@.map_values(|s: &str| s@) == default_ignores_spec(),
{
    let r = vec![
        ".git",
        "target",
        "node_modules",
        ".next",
        "dist",
        "build",
        "__pycache__",
        ".DS_Store",
    ];
    assert(r@.map_values(|s: &str| s@) =~= default_ignores_spec());
    r
}

/// The components of the path text `path`: the pieces between the
/// separators `/` and `\\`.
pub open spec fn path_components(path: Seq<char>) -> Seq<Seq<char>> {
    split_spec(path, Separator::PathSep)
}

/// One component of `path` is one of the always-ignored names.
pub open spec fn ignored_by_default(path: Seq<char>) -> bool {
    exists|j: int|
        0 <= j < path_components(path).len() && default_ignores_spec().contains(
            #[trigger] path_components(path)[j],
        )
}

/// One of the pattern texts matches `path`.
pub open spec fn ignored_by_patterns(path: Seq<char>, patterns: Seq<Seq<char>>) -> bool {
    exists|i: int| 0 <= i < patterns.len() && glob_matches(#[trigger] patterns[i], path)
}

/// A change at `path` is left alone.
pub open spec fn ignored(path: Seq<char>, patterns: Seq<Seq<char>>) -> bool {
    ignored_by_default(path) || ignored_by_patterns(path, patterns)
}

/// Whether a change at the path whose text is `path` is left alone: when
/// one of its components is one of the always-ignored names, or one of
/// `patterns` matches it.
pub fn should_ignore(path: &str, patterns: &[IgnorePattern]) -> (r: bool)
    ensures
        r == ignored(path@, pattern_texts(patterns@)),
{
    let path_chars = chars_of(path);
    let comps = split_chars(&path_chars, Separator::PathSep);
    let defaults = default_ignores();
    let ghost defs = default_ignores_spec();
    let mut names: Vec<Vec<char>> = Vec::new();
    let mut i: usize = 0;
    while i < defaults.len()
        invariant
            i <= defaults.len(),
            defaults@.map_values(|s: &str| s@) == defs,
            char_seqs(names@) == defs.take(i as int),
        decreases defaults.len() - i,
    {
        let name = chars_of(defaults[i]);
        assert(name@ == defs[i as int]);
        let ghost before = char_seqs(names@);
        let ghost nm = name@;
        names.push(name);
        assert(char_seqs(names@) =~= before.push(nm));
        assert(char_seqs(names@) =~= defs.take(i + 1));
        i += 1;
    }
    assert(defs.take(defaults.len() as int) == defs);
    let mut j: usize = 0;
    while j < comps.len()
        invariant
            j <= comps.len(),
            char_seqs(comps@) == path_components(path@),
            char_seqs(names@) == defs,
            defs == default_ignores_spec(),
            forall|k: int| 0 <= k < j ==> !defs.contains(#[trigger] char_seqs(comps@)[k]),
        decreases comps.len() - j,
    {
        let mut m: usize = 0;
        while m < names.len()
            invariant
                m <= names.len(),
                j < comps.len(),
                char_seqs(names@) == defs,
                char_seqs(comps@) == path_components(path@),
                defs == default_ignores_spec(),
                forall|k: int| 0 <= k < m ==> #[trigger] defs[k] != comps@[j as int]@,
            decreases names.len() - m,
        {
            if same_chars(&comps[j], &names[m]) {
                assert(defs[m as int] == char_seqs(comps@)[j as int]);
                assert(defs.contains(char_seqs(comps@)[j as int]));
                assert(path_components(path@)[j as int] == char_seqs(comps@)[j as int]);
                return true;
            }
            m += 1;
        }
        assert(!defs.contains(char_seqs(comps@)[j as int])) by {
            if defs.contains(char_seqs(comps@)[j as int]) {
                let k = choose|k: int| 0 <= k < defs.len() && defs[k] == char_seqs(comps@)[j as int];
                assert(defs[k] != comps@[j as int]@);
            }
        }
        j += 1;
    }
    assert(!ignored_by_default(path@)) by {
        if ignored_by_default(path@) {
            let k = choose|k: int|
                0 <= k < path_components(path@).len() && default_ignores_spec().contains(
                    #[trigger] path_components(path@)[k],
                );
            assert(!defs.contains(char_seqs(comps@)[k]));
        }
    }
    let ghost texts = pattern_texts(patterns@);
    let mut j: usize = 0;
    while j < patterns.len()
        invariant
            j <= patterns.len(),
            texts == pattern_texts(patterns@),
            !ignored_by_default(path@),
            forall|k: int| 0 <= k < j ==> !glob_matches(#[trigger] texts[k], path@),
        decreases patterns.len() - j,
    {
        if patterns[j].matches(path) {
            assert(glob_matches(texts[j as int], path@));
            return true;
        }
        j += 1;
    }
    false
}

// ---------------------------------------------------------------------------
// Parsing the --ignore list
// ---------------------------------------------------------------------------

/// The test that keeps a pattern text: not empty, and accepted by glob.
pub open spec fn usable_pattern() -> spec_fn(Seq<char>) -> bool {
    |p: Seq<char>| p.len() > 0 && glob_compiles(p)
}

/// The pattern texts that a comma-separated list yields: each piece
/// trimmed, empty pieces and pieces that glob rejects dropped.
pub open spec fn ignore_list_spec(list: Seq<char>) -> Seq<Seq<char>> {
    split_spec(list, Separator::Char(',')).map_values(|p: Seq<char>| trim_spec(p)).filter(
        usable_pattern(),
    )
}

/// The glob patterns of a comma-separated list such as `"*.log, *.tmp"`:
/// each piece trimmed, empty pieces and pieces that glob rejects dropped.
pub fn parse_ignore_patterns(ignore_str: &str) -> (r: Vec<IgnorePattern>)
    ensures
        pattern_texts(r@) == ignore_list_spec(ignore_str@),
{
    let v = chars_of(ignore_str);
    let pieces = split_chars(&v, Separator::Char(','));
    let ghost trimmed = split_spec(ignore_str@, Separator::Char(',')).map_values(
        |p: Seq<char>| trim_spec(p),
    );
    let ghost pred = usable_pattern();
    let mut out: Vec<IgnorePattern> = Vec::new();
    let mut i: usize = 0;
    while i < pieces.len()
        invariant
            i <= pieces.len(),
            char_seqs(pieces@) == split_spec(ignore_str@, Separator::Char(',')),
            trimmed == split_spec(ignore_str@, Separator::Char(',')).map_values(
                |p: Seq<char>| trim_spec(p),
            ),
            pred == usable_pattern(),
            pattern_texts(out@) == trimmed.take(i as int).filter(pred),
        decreases pieces.len() - i,
    {
        let t = trim_chars(&pieces[i]);
        assert(t@ == trimmed[i as int]);
        let ghost before = pattern_texts(out@);
        if t.len() > 0 {
            let text = string_of(&t);
            match IgnorePattern::new(text.as_str()) {
                Some(p) => {
                    out.push(p);
                    assert(pattern_texts(out@) =~= before.push(t@));
                },
                None => {},
            }
        }
        proof {
            reveal_with_fuel(Seq::filter, 1);
            let tk = trimmed.take(i + 1);
            assert(tk.drop_last() == trimmed.take(i as int));
            assert(tk.last() == t@);
            assert(pred(tk.last()) == (t@.len() > 0 && glob_compiles(t@)));
            assert(tk.filter(pred) == (if pred(tk.last()) {
                tk.drop_last().filter(pred).push(tk.last())
            } else {
                tk.drop_last().filter(pred)
            }));
        }
        i += 1;
    }
    assert(trimmed.take(pieces.len() as int) == trimmed);
    out
}

/// A pattern text that can stand in the list: not empty, no white space
/// at either end, no comma, and accepted by glob.
pub open spec fn clean_pattern(p: Seq<char>) -> bool {
    &&& p.len() > 0
    &&& is_trimmed(p)
    &&& forall|j: int| 0 <= j < p.len() ==> #[trigger] p[j] != ','
    &&& glob_compiles(p)
}

/// Every pattern that a comma-separated list yields is clean: not empty,
/// no white space at either end, no comma inside, and accepted by glob.
pub proof fn lemma_parsed_patterns_are_clean(list: Seq<char>)
    ensures
        forall|i: int|
            0 <= i < ignore_list_spec(list).len() ==> clean_pattern(
                #[trigger] ignore_list_spec(list)[i],
            ),
{
    let sep = Separator::Char(',');
    let pieces = split_spec(list, sep);
    let trimmed = pieces.map_values(|p: Seq<char>| trim_spec(p));
    let shape = |p: Seq<char>|
        is_trimmed(p) && forall|j: int| 0 <= j < p.len() ==> #[trigger] p[j] != ',';
    lemma_split_pieces_free(list, sep);
    assert forall|i: int| 0 <= i < trimmed.len() implies #[trigger] shape(trimmed[i]) by {
        let ab = lemma_trim_shape(pieces[i]);
        let t = trimmed[i];
        assert forall|j: int| 0 <= j < t.len() implies #[trigger] t[j] != ',' by {
            assert(t[j] == pieces[i][ab.0 + j]);
            assert(!separates(sep, pieces[i][ab.0 + j]));
        }
    }
    lemma_filter_keeps_all(trimmed, usable_pattern(), shape);
    assert forall|i: int| 0 <= i < ignore_list_spec(list).len() implies clean_pattern(
        #[trigger] ignore_list_spec(list)[i],
    ) by {
        let p = ignore_list_spec(list)[i];
        trimmed.lemma_filter_pred(usable_pattern(), i);
        assert(shape(p));
    }
}

/// A path with one of the always-ignored names as a component is ignored,
/// whatever patterns the user gave.
pub proof fn lemma_default_names_always_ignored(
    path: Seq<char>,
    patterns: Seq<Seq<char>>,
    j: int,
    i: int,
)
    requires
        0 <= j < path_components(path).len(),
        0 <= i < default_ignores_spec().len(),
        path_components(path)[j] == default_ignores_spec()[i],
    ensures
        ignored(path, patterns),
{
    assert(default_ignores_spec().contains(path_components(path)[j]));
}

/// A path none of whose components is an always-ignored name is ignored
/// only when a user pattern matches it: holding such a name inside a longer
/// component, as `src/distance.rs` holds `dist`, does not count.
pub proof fn lemma_only_whole_components_count(path: Seq<char>, patterns: Seq<Seq<char>>)
    requires
        forall|j: int|
            0 <= j < path_components(path).len() ==> !default_ignores_spec().contains(
                #[trigger] path_components(path)[j],
            ),
    ensures
        ignored(path, patterns) == ignored_by_patterns(path, patterns),
{
}

/// Every piece of the list that is not empty once trimmed and that glob
/// accepts is kept, whatever characters it holds (`**/*.log` included);
/// and every kept pattern is the trimmed text of one of the pieces.
pub proof fn lemma_every_usable_piece_kept(list: Seq<char>, k: int)
    requires
        0 <= k < split_spec(list, Separator::Char(',')).len(),
        trim_spec(split_spec(list, Separator::Char(','))[k]).len() > 0,
        glob_compiles(trim_spec(split_spec(list, Separator::Char(','))[k])),
    ensures
        ignore_list_spec(list).contains(trim_spec(split_spec(list, Separator::Char(','))[k])),
        forall|i: int|
            0 <= i < ignore_list_spec(list).len() ==> exists|m: int|
                0 <= m < split_spec(list, Separator::Char(',')).len() && #[trigger] ignore_list_spec(
                    list,
                )[i] == trim_spec(split_spec(list, Separator::Char(','))[m]),
{
    let pieces = split_spec(list, Separator::Char(','));
    let trimmed = pieces.map_values(|p: Seq<char>| trim_spec(p));
    assert(trimmed[k] == trim_spec(pieces[k]));
    trimmed.lemma_filter_contains(usable_pattern(), k);
    let from_piece = |x: Seq<char>|
        exists|m: int| 0 <= m < pieces.len() && x == trim_spec(#[trigger] pieces[m]);
    assert forall|j: int| 0 <= j < trimmed.len() implies #[trigger] from_piece(trimmed[j]) by {
        assert(trimmed[j] == trim_spec(pieces[j]));
    }
    lemma_filter_keeps_all(trimmed, usable_pattern(), from_piece);
    assert forall|i: int| 0 <= i < ignore_list_spec(list).len() implies exists|m: int|
        0 <= m < pieces.len() && #[trigger] ignore_list_spec(list)[i] == trim_spec(pieces[m]) by {
        assert(from_piece(ignore_list_spec(list)[i]));
    }
}

/// A list without commas whose text, trimmed, is not empty and is accepted
/// by glob yields exactly that one pattern.
pub proof fn lemma_single_pattern_kept(list: Seq<char>)
    requires
        forall|j: int| 0 <= j < list.len() ==> #[trigger] list[j] != ',',
        trim_spec(list).len() > 0,
        glob_compiles(trim_spec(list)),
    ensures
        ignore_list_spec(list) == seq![trim_spec(list)],
{
    let sep = Separator::Char(',');
    let e = Seq::<char>::empty();
    assert(forall|j: int| 0 <= j < list.len() ==> !separates(sep, #[trigger] list[j]));
    lemma_split_append_free(e, list, sep);
    assert(e + list == list);
    assert(split_spec(e, sep) == seq![e]);
    assert(split_spec(list, sep) =~= seq![list]);
    let trimmed = split_spec(list, sep).map_values(|p: Seq<char>| trim_spec(p));
    assert(trimmed =~= seq![trim_spec(list)]);
    reveal_with_fuel(Seq::filter, 2);
    assert(trimmed.drop_last() =~= Seq::<Seq<char>>::empty());
    assert(trimmed.filter(usable_pattern()) =~= seq![trim_spec(list)]);
}

} // verus!
