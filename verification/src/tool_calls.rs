//! Display helpers for tool calls: the line-diff summary shown beside an
//! edit, and the shortened path used in labels.

use vstd::prelude::*;
use vstd::string::StrSliceExecFns;

use crate::text::{chars_extend, chars_to_string, str_to_chars};

verus! {

// ===== diff summaries =====

/// One line of a line-by-line diff between two texts.
#[derive(Debug, Clone, Copy, PartialEq, Eq, Structural)]
pub enum LineChange {
    Inserted,
    Removed,
    Unchanged,
}

/// What the line differ returns for two texts: the change tag of each diff
/// line, in order; a function of the two texts alone.
pub uninterp spec fn line_diff(old_text: Seq<char>, new_text: Seq<char>) -> Seq<LineChange>;

/// Relies on similar's `TextDiff::from_lines` and `iter_all_changes`: the
/// line-by-line change sequence is a function of the two texts alone.
#[verifier::external_body]
fn diff_line_changes(old_text: &str, new_text: &str) -> (r: Vec<LineChange>)
    ensures
        r@ == line_diff(old_text@, new_text@),
{
    let diff = similar::TextDiff::from_lines(old_text, new_text);
    let mut out = Vec::new();
    for change in diff.iter_all_changes() {
        out.push(
            match change.tag() {
                similar::ChangeTag::Insert => LineChange::Inserted,
                similar::ChangeTag::Delete => LineChange::Removed,
                similar::ChangeTag::Equal => LineChange::Unchanged,
            },
        );
    }
    out
}

pub open spec fn spec_count_inserted(cs: Seq<LineChange>) -> int
    decreases cs.len(),
{
    if cs.len() == 0 {
        0
    } else {
        spec_count_inserted(cs.drop_last()) + if cs.last() is Inserted {
            1int
        } else {
            0int
        }
    }
}

pub open spec fn spec_count_removed(cs: Seq<LineChange>) -> int
    decreases cs.len(),
{
    if cs.len() == 0 {
        0
    } else {
        spec_count_removed(cs.drop_last()) + if cs.last() is Removed {
            1int
        } else {
            0int
        }
    }
}

/// A line-diff summary for a tool call: how many lines an edit adds and
/// removes.
#[derive(Debug, Clone, Copy, PartialEq, Eq, Structural)]
pub struct DiffSummary {
    pub added: usize,
    pub removed: usize,
}

/// Count the added and removed lines between two texts; `None` when nothing
/// changed.
#[verifier::loop_isolation(false)]
pub fn diff_summary(old_text: &str, new_text: &str) -> (r: Option<DiffSummary>)
    ensures
        (r is Some <==> spec_count_inserted(line_diff(old_text@, new_text@)) > 0
            || spec_count_removed(line_diff(old_text@, new_text@)) > 0),
        (r is Some ==> r->0.added as int == spec_count_inserted(line_diff(old_text@, new_text@))),
        (r is Some ==> r->0.removed as int == spec_count_removed(
            line_diff(old_text@, new_text@),
        )),
{
    let changes = diff_line_changes(old_text, new_text);
    let ghost cs = changes@;
    let mut added: usize = 0;
    let mut removed: usize = 0;
    let mut i: usize = 0;
    proof {
        assert(cs.subrange(0, 0) =~= Seq::<LineChange>::empty());
    }
    while i < changes.len()
        invariant
            i <= cs.len(),
            added <= i,
            removed <= i,
            added as int == spec_count_inserted(cs.subrange(0, i as int)),
            removed as int == spec_count_removed(cs.subrange(0, i as int)),
        decreases cs.len() - i,
    {
        match changes[i] {
            LineChange::Inserted => {
                added += 1;
            },
            LineChange::Removed => {
                removed += 1;
            },
            LineChange::Unchanged => {
            },
        }
        i += 1;
        proof {
            assert(cs.subrange(0, i as int).drop_last() =~= cs.subrange(0, i as int - 1));
            assert(cs.subrange(0, i as int).last() == cs[i as int - 1]);
        }
    }
    proof {
        assert(cs.subrange(0, cs.len() as int) =~= cs);
    }
    if added > 0 || removed > 0 {
        Some(DiffSummary { added, removed })
    } else {
        None
    }
}

// ===== shortened paths =====

/// The index of the first slash, or the length when there is none.
pub open spec fn spec_first_slash(s: Seq<char>) -> int
    decreases s.len(),
{
    if s.len() == 0 {
        0
    } else if s[0] == '/' {
        0
    } else {
        1 + spec_first_slash(s.skip(1))
    }
}

/// The nonempty slash-separated components of a path.
pub open spec fn spec_split_slash(s: Seq<char>) -> Seq<Seq<char>>
    decreases s.len(),
{
    if s.len() == 0 {
        Seq::empty()
    } else if s[0] == '/' {
        spec_split_slash(s.skip(1))
    } else {
        let e = spec_first_slash(s);
        if 1 <= e <= s.len() {
            seq![s.subrange(0, e)] + spec_split_slash(s.skip(e))
        } else {
            seq![s]  // unreachable: the first slash index stays within the text
        }
    }
}

/// Components joined back with single slashes.
pub open spec fn spec_join_slash(parts: Seq<Seq<char>>) -> Seq<char>
    decreases parts.len(),
{
    if parts.len() == 0 {
        Seq::empty()
    } else if parts.len() == 1 {
        parts[0]
    } else {
        parts[0] + seq!['/'] + spec_join_slash(parts.drop_first())
    }
}

/// The last two components of a path, for brevity; fewer components are
/// joined as they are.
pub open spec fn spec_short_path(s: Seq<char>) -> Seq<char> {
    let parts = spec_split_slash(s);
    if parts.len() <= 2 {
        spec_join_slash(parts)
    } else {
        spec_join_slash(parts.skip(parts.len() as int - 2))
    }
}

/// Show the last two components of a path.
#[verifier::loop_isolation(false)]
pub fn short_path(path: &str) -> (r: String)
    ensures
        r@ == spec_short_path(path@),
{
    let cs = str_to_chars(path);
    let n = cs.len();
    let ghost t = path@;
    let mut parts: Vec<Vec<char>> = Vec::new();
    let mut i: usize = 0;
    proof {
        assert(t.skip(0) =~= t);
        assert(parts.deep_view() =~= Seq::<Seq<char>>::empty());
    }
    while i < n
        invariant
            i <= n,
            spec_split_slash(t) == parts.deep_view() + spec_split_slash(t.skip(i as int)),
        decreases n - i,
    {
        let ghost i0 = i as int;
        if cs[i] == '/' {
            i += 1;
            proof {
                assert(t.skip(i0)[0] == t[i0]);
                assert(t.skip(i0).skip(1) =~= t.skip(i0 + 1));
            }
        } else {
            // find the component's end
            let mut e: usize = i;
            proof {
                assert(t.skip(i0).skip(0) =~= t.skip(i0));
            }
            while e < n && cs[e] != '/'
                invariant
                    i0 <= e <= n,
                    spec_first_slash(t.skip(i0)) == (e - i0) + spec_first_slash(t.skip(e as int)),
                    forall|m: int| i0 <= m < e ==> t[m] != '/',
                decreases n - e,
            {
                proof {
                    assert(t.skip(e as int)[0] == t[e as int]);
                    assert(t.skip(e as int).skip(1) =~= t.skip(e as int + 1));
                }
                e += 1;
            }
            proof {
                if e < n {
                    assert(t.skip(e as int)[0] == t[e as int]);
                    assert(spec_first_slash(t.skip(e as int)) == 0);
                } else {
                    assert(t.skip(e as int).len() == 0);
                }
                assert(spec_first_slash(t.skip(i0)) == e - i0);
            }
            // collect the component
            let mut tok: Vec<char> = Vec::new();
            let mut j: usize = i;
            while j < e
                invariant
                    i0 <= j <= e,
                    e <= n,
                    tok@ == t.subrange(i0, j as int),
                decreases e - j,
            {
                tok.push(cs[j]);
                j += 1;
                proof {
                    assert(tok@ =~= t.subrange(i0, j as int));
                }
            }
            proof {
                assert(tok@ =~= t.subrange(i0, e as int));
            }
            let ghost before = parts.deep_view();
            parts.push(tok);
            proof {
                let rem = t.skip(i0);
                assert(rem.subrange(0, e as int - i0) =~= t.subrange(i0, e as int));
                assert(rem.skip(e as int - i0) =~= t.skip(e as int));
                assert(spec_split_slash(rem) == seq![t.subrange(i0, e as int)] + spec_split_slash(
                    t.skip(e as int),
                ));
                assert(parts.deep_view() =~~= before.push(t.subrange(i0, e as int)));
                assert(parts.deep_view() + spec_split_slash(t.skip(e as int)) =~= before
                    + spec_split_slash(rem));
            }
            i = e;
        }
    }
    proof {
        assert(t.skip(n as int).len() == 0);
        assert(spec_split_slash(t.skip(n as int)) =~= Seq::<Seq<char>>::empty());
        assert(parts.deep_view() =~= spec_split_slash(t));
    }
    let count = parts.len();
    if count == 0 {
        proof {
            assert(spec_short_path(t) =~= Seq::<char>::empty());
        }
        String::new()
    } else if count == 1 {
        proof {
            assert(parts.deep_view()[0] == parts@[0]@);
        }
        chars_to_string(&parts[0])
    } else {
        let a = count - 2;
        let b = count - 1;
        let mut out: Vec<char> = Vec::new();
        chars_extend(&mut out, &parts[a]);
        out.push('/');
        chars_extend(&mut out, &parts[b]);
        proof {
            let pv = parts.deep_view();
            assert(pv[a as int] == parts@[a as int]@);
            assert(pv[b as int] == parts@[b as int]@);
            if count == 2 {
                assert(pv.drop_first() =~= seq![pv[1]]);
                assert(spec_join_slash(pv.drop_first()) == pv[1]);
                assert(out@ =~= spec_join_slash(pv));
            } else {
                let tail = pv.skip(a as int);
                assert(tail.len() == 2);
                assert(tail[0] == pv[a as int]);
                assert(tail[1] == pv[b as int]);
                assert(tail.drop_first() =~= seq![pv[b as int]]);
                assert(spec_join_slash(tail.drop_first()) == pv[b as int]);
                assert(out@ =~= spec_join_slash(tail));
            }
        }
        chars_to_string(&out)
    }
}

} // verus!
