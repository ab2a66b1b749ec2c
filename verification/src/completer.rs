//! File-path autocompletion: the `@` trigger scan in the input area, the
//! `@path` references in a finished prompt, and fuzzy suggestions over the
//! cached project file list.
//!
//! Loading the file list runs a subprocess and stays with the driver, which
//! hands the list in; the fuzzy scorer is an outside matcher behind a
//! trusted wrapper.

use vstd::prelude::*;
use vstd::string::StrSliceExecFns;

use crate::text::{is_space, is_space_char, str_eq, str_to_chars};

verus! {

/// A fuzzy file path suggestion with its match score.
#[derive(Debug, Clone)]
pub struct FileSuggestion {
    pub path: String,
    pub score: u32,
}

/// An active `@` trigger in the input area.
#[derive(Debug, Clone)]
pub struct AtContext {
    pub row: usize,
    pub at_col: usize,
    pub cursor_col: usize,
    pub query: String,
}

// ===== the @ trigger =====

/// The backward scan for an `@` trigger: from column `i` of the line, an `@`
/// at the start or after whitespace begins a trigger whose query (the text
/// up to `end`) must hold no whitespace; hitting whitespace first means no
/// trigger.
pub open spec fn spec_at_scan(line: Seq<char>, end: int, i: int) -> Option<(int, Seq<char>)>
    decreases i + 1,
{
    if i < 0 || i >= line.len() {
        None
    } else if line[i] == '@' {
        if i > 0 && !is_space_char(line[i - 1]) {
            None
        } else {
            let q = line.subrange(i + 1, end);
            if exists|j: int| i + 1 <= j < end && is_space_char(#[trigger] line[j]) {
                None
            } else {
                Some((i, q))
            }
        }
    } else if is_space_char(line[i]) {
        None
    } else {
        spec_at_scan(line, end, i - 1)
    }
}

/// Whether `find_at_trigger` fires, and with what: scanning backward from
/// the cursor on its line.
pub open spec fn spec_find_at_trigger(lines: Seq<String>, row: int, col: int) -> Option<
    (int, Seq<char>),
> {
    if row < 0 || row >= lines.len() || col == 0 {
        None
    } else {
        let line = lines[row]@;
        let end = if col < line.len() {
            col
        } else {
            line.len() as int
        };
        spec_at_scan(line, end, end - 1)
    }
}

/// Scan backward from the cursor on the current line for an `@` trigger: the
/// `@` must sit at column 0 or after whitespace, and the query between it
/// and the cursor must hold no whitespace.
#[verifier::loop_isolation(false)]
pub fn find_at_trigger(lines: &Vec<String>, cursor_row: usize, cursor_col: usize) -> (r: Option<
    AtContext,
>)
    ensures
        (match r {
            Some(ctx) => spec_find_at_trigger(lines@, cursor_row as int, cursor_col as int)
                == Some((ctx.at_col as int, ctx.query@)) && ctx.row == cursor_row
                && ctx.cursor_col as int == (if cursor_col < lines@[cursor_row as int]@.len() {
                cursor_col as int
            } else {
                lines@[cursor_row as int]@.len() as int
            }),
            None => spec_find_at_trigger(lines@, cursor_row as int, cursor_col as int) is None,
        }),
{
    if cursor_row >= lines.len() {
        return None;
    }
    if cursor_col == 0 {
        return None;
    }
    let line = &lines[cursor_row];
    let chars = str_to_chars(line.as_str());
    let ghost lv = line@;
    let end: usize = if cursor_col < chars.len() {
        cursor_col
    } else {
        chars.len()
    };
    let mut i: usize = end;
    while i > 0
        invariant
            lv == line@,
            chars@ == lv,
            end <= lv.len(),
            i <= end,
            spec_at_scan(lv, end as int, end as int - 1) == spec_at_scan(lv, end as int, i as int
                - 1),
        decreases i,
    {
        let k = i - 1;
        let c = chars[k];
        if c == '@' {
            if k > 0 && !is_space(chars[k - 1]) {
                proof {
                    assert(spec_at_scan(lv, end as int, k as int) is None);
                }
                return None;
            }
            // collect the query and reject embedded whitespace
            let mut q: Vec<char> = Vec::new();
            let mut j: usize = k + 1;
            while j < end
                invariant
                    lv == line@,
                    chars@ == lv,
                    end <= lv.len(),
                    k + 1 <= j <= end,
                    q@ == lv.subrange(k as int + 1, j as int),
                    forall|m: int| k + 1 <= m < j ==> !is_space_char(#[trigger] lv[m]),
                decreases end - j,
            {
                let c2 = chars[j];
                if is_space(c2) {
                    proof {
                        assert(is_space_char(lv[j as int]));
                        assert(spec_at_scan(lv, end as int, k as int) is None);
                    }
                    return None;
                }
                q.push(c2);
                j += 1;
                proof {
                    assert(q@ =~= lv.subrange(k as int + 1, j as int));
                }
            }
            proof {
                assert(q@ =~= lv.subrange(k as int + 1, end as int));
                assert(spec_at_scan(lv, end as int, k as int) == Some(
                    (k as int, lv.subrange(k as int + 1, end as int)),
                ));
            }
            let query = crate::text::chars_to_string(&q);
            return Some(AtContext { row: cursor_row, at_col: k, cursor_col: end, query });
        }
        if is_space(c) {
            proof {
                assert(spec_at_scan(lv, end as int, k as int) is None);
            }
            return None;
        }
        i = k;
    }
    None
}

// ===== prompt file references =====

/// Whether the cached file list holds this path.
pub open spec fn spec_file_known(files: Seq<String>, path: Seq<char>) -> bool {
    exists|i: int| 0 <= i < files.len() && (#[trigger] files[i])@ == path
}

/// The end of the token starting at `i`: the first whitespace at or after
/// it, or the end of the text.
pub open spec fn spec_token_end(t: Seq<char>, i: int) -> int
    decreases t.len() - i,
{
    if i < 0 {
        0
    } else if i >= t.len() {
        t.len() as int
    } else if is_space_char(t[i]) {
        i
    } else {
        spec_token_end(t, i + 1)
    }
}

/// The forward scan for `@path` references: an `@` at the start or after
/// whitespace begins a token running to the next whitespace; tokens that
/// name known files are collected once each, in order of first appearance.
pub open spec fn spec_scan_refs(
    t: Seq<char>,
    i: int,
    acc: Seq<Seq<char>>,
    files: Seq<String>,
) -> Seq<Seq<char>>
    decreases t.len() - i,
{
    if i < 0 || i >= t.len() {
        acc
    } else if t[i] == '@' && (i == 0 || is_space_char(t[i - 1])) {
        let e = spec_token_end(t, i + 1);
        let tok = t.subrange(i + 1, e);
        if e <= i || e > t.len() {
            acc  // unreachable: the token end stays between its start and the text's end
        } else if tok.len() > 0 && spec_file_known(files, tok) && !acc.contains(tok) {
            spec_scan_refs(t, e, acc.push(tok), files)
        } else {
            spec_scan_refs(t, e, acc, files)
        }
    } else {
        spec_scan_refs(t, i + 1, acc, files)
    }
}

fn refs_contains(refs: &Vec<String>, tok: &str) -> (r: bool)
    ensures
        r == refs.deep_view().contains(tok@),
{
    let mut i: usize = 0;
    while i < refs.len()
        invariant
            i <= refs@.len(),
            forall|j: int| 0 <= j < i ==> (#[trigger] refs@[j])@ != tok@,
        decreases refs@.len() - i,
    {
        if str_eq(refs[i].as_str(), tok) {
            proof {
                assert(refs.deep_view()[i as int] == tok@);
            }
            return true;
        }
        i += 1;
    }
    proof {
        if refs.deep_view().contains(tok@) {
            let j = choose|j: int| 0 <= j < refs.deep_view().len() && refs.deep_view()[j] == tok@;
            assert(refs@[j]@ == tok@);
        }
    }
    false
}

fn file_list_contains(files: &Vec<String>, tok: &str) -> (r: bool)
    ensures
        r == spec_file_known(files@, tok@),
{
    let mut i: usize = 0;
    while i < files.len()
        invariant
            i <= files@.len(),
            forall|j: int| 0 <= j < i ==> (#[trigger] files@[j])@ != tok@,
        decreases files@.len() - i,
    {
        if str_eq(files[i].as_str(), tok) {
            proof {
                assert(files@[i as int]@ == tok@);
            }
            return true;
        }
        i += 1;
    }
    false
}

/// Scan the full prompt text for `@filepath` tokens, keep those that name
/// known files, first appearance only, in order.
#[verifier::loop_isolation(false)]
pub fn parse_file_references(text: &str, files: &Vec<String>) -> (r: Vec<String>)
    ensures
        r.deep_view() == spec_scan_refs(text@, 0, Seq::<Seq<char>>::empty(), files@),
{
    let chars = str_to_chars(text);
    let n = chars.len();
    let mut refs: Vec<String> = Vec::new();
    let mut i: usize = 0;
    proof {
        assert(refs.deep_view() =~= Seq::<Seq<char>>::empty());
    }
    while i < n
        invariant
            chars@ == text@,
            n == text@.len(),
            i <= n,
            spec_scan_refs(text@, 0, Seq::<Seq<char>>::empty(), files@) == spec_scan_refs(
                text@,
                i as int,
                refs.deep_view(),
                files@,
            ),
        decreases n - i,
    {
        let ghost t = text@;
        let ghost i0 = i as int;
        let ghost acc0 = refs.deep_view();
        let c = chars[i];
        let at_start = i == 0 || {
            let p = chars[i - 1];
            is_space(p)
        };
        if c == '@' && at_start {
            // find the token end
            let mut e: usize = i + 1;
            while e < n && !is_space(chars[e])
                invariant
                    chars@ == t,
                    n == t.len(),
                    i0 + 1 <= e <= n,
                    spec_token_end(t, i0 + 1) == spec_token_end(t, e as int),
                    forall|m: int| i0 + 1 <= m < e ==> !is_space_char(#[trigger] t[m]),
                decreases n - e,
            {
                e += 1;
            }
            proof {
                assert(spec_token_end(t, e as int) == e as int);
            }
            // build the token
            let mut tokv: Vec<char> = Vec::new();
            let mut j: usize = i + 1;
            while j < e
                invariant
                    chars@ == t,
                    n == t.len(),
                    e <= n,
                    i0 + 1 <= j <= e,
                    tokv@ == t.subrange(i0 + 1, j as int),
                decreases e - j,
            {
                tokv.push(chars[j]);
                j += 1;
                proof {
                    assert(tokv@ =~= t.subrange(i0 + 1, j as int));
                }
            }
            proof {
                assert(tokv@ =~= t.subrange(i0 + 1, e as int));
            }
            let tok = crate::text::chars_to_string(&tokv);
            if tokv.len() > 0 && file_list_contains(files, tok.as_str()) && !refs_contains(
                &refs,
                tok.as_str(),
            ) {
                refs.push(tok);
                proof {
                    assert(refs.deep_view() =~= acc0.push(t.subrange(i0 + 1, e as int)));
                }
            }
            i = e;
        } else {
            i += 1;
        }
    }
    refs
}

// ===== the completer =====

/// What the fuzzy matcher returns for a file list and query: each matching
/// path with its score, best first; a function of the list and the query
/// alone.
pub uninterp spec fn fuzzy_ranking(files: Seq<Seq<char>>, query: Seq<char>) -> Seq<
    (Seq<char>, u32),
>;

/// Relies on nucleo-matcher's `Pattern::parse` and `Pattern::match_list`
/// with the path-matching configuration: the scored, sorted match list is a
/// function of the file list and the query alone.
#[verifier::external_body]
fn fuzzy_rank(files: &Vec<String>, query: &str) -> (r: Vec<(String, u32)>)
    ensures
        r.deep_view() == fuzzy_ranking(files.deep_view(), query@),
{
    let mut matcher = nucleo_matcher::Matcher::new(nucleo_matcher::Config::DEFAULT.match_paths());
    let pattern = nucleo_matcher::pattern::Pattern::parse(
        query,
        nucleo_matcher::pattern::CaseMatching::Ignore,
        nucleo_matcher::pattern::Normalization::Smart,
    );
    let matches = pattern.match_list(files, &mut matcher);
    matches.into_iter().map(|(path, score)| (path.clone(), score)).collect()
}

/// The suggestions serve the best-ranked matches, at most `max` of them;
/// none for an empty query or an empty file list.
pub open spec fn spec_suggestions(files: Seq<Seq<char>>, query: Seq<char>, max: int) -> Seq<
    (Seq<char>, u32),
> {
    if query.len() == 0 || files.len() == 0 {
        Seq::empty()
    } else if fuzzy_ranking(files, query).len() <= max {
        fuzzy_ranking(files, query)
    } else {
        fuzzy_ranking(files, query).take(max)
    }
}

/// Owns the cached project file list for `@file` autocomplete.  The driver
/// fills the list (it comes from a subprocess); matching is pure.
#[derive(Debug)]
pub struct FileCompleter {
    pub project_root: String,
    pub files: Vec<String>,
}

impl FileCompleter {
    pub fn new(project_root: String) -> (r: FileCompleter)
        ensures
            r.project_root@ == project_root@,
            r.files@.len() == 0,
    {
        FileCompleter { project_root, files: Vec::new() }
    }

    /// Install the project file list the driver loaded.
    pub fn set_files(&mut self, files: Vec<String>)
        ensures
            final(self).files == files,
            final(self).project_root == old(self).project_root,
    {
        self.files = files;
    }

    /// Whether a path is in the cached file list.
    pub fn file_exists(&self, path: &str) -> (r: bool)
        ensures
            r == spec_file_known(self.files@, path@),
    {
        file_list_contains(&self.files, path)
    }

    /// Fuzzy-match `query` against the cached files, returning up to `max`
    /// results, best first.
    #[verifier::loop_isolation(false)]
    pub fn suggestions(&self, query: &str, max: usize) -> (r: Vec<FileSuggestion>)
        ensures
            r@.map_values(|f: FileSuggestion| (f.path@, f.score)) == spec_suggestions(
                self.files.deep_view(),
                query@,
                max as int,
            ),
    {
        let mut r: Vec<FileSuggestion> = Vec::new();
        if query.unicode_len() == 0 || self.files.len() == 0 {
            proof {
                assert(self.files@.len() == self.files.deep_view().len());
                assert(r@.map_values(|f: FileSuggestion| (f.path@, f.score))
                    =~= Seq::<(Seq<char>, u32)>::empty());
            }
            return r;
        }
        let ranked = fuzzy_rank(&self.files, query);
        let ghost full = fuzzy_ranking(self.files.deep_view(), query@);
        let mut i: usize = 0;
        while i < ranked.len() && i < max
            invariant
                ranked.deep_view() == full,
                i <= ranked@.len(),
                i <= max,
                r@.map_values(|f: FileSuggestion| (f.path@, f.score)) =~= full.take(i as int),
            decreases ranked@.len() - i,
        {
            let ghost before = r@.map_values(|f: FileSuggestion| (f.path@, f.score));
            let entry = &ranked[i];
            r.push(FileSuggestion { path: entry.0.clone(), score: entry.1 });
            i += 1;
            proof {
                assert(ranked.deep_view()[i - 1] == (ranked@[i - 1].0@, ranked@[i - 1].1));
                assert(r@.map_values(|f: FileSuggestion| (f.path@, f.score)) =~= before.push(
                    full[i - 1],
                ));
                assert(before.push(full[i - 1]) =~= full.take(i as int));
            }
        }
        proof {
            assert(full.len() == ranked@.len());
            if i == max {
                if full.len() <= max as int {
                    assert(i as int == full.len());
                    assert(full.take(i as int) =~= full);
                }
            } else {
                assert(i as int == full.len());
                assert(full.take(i as int) =~= full);
            }
        }
        r
    }
}

} // verus!
