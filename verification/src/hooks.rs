//! Declarative before/after policy hooks.
//!
//! A hook is keyed by a (timing, target) pair, may be scoped to a glob
//! pattern, and either decides immediately (a built-in check) or asks the
//! driver to run a shell command and hands back a verdict for its outcome.
//! Dispatch over a registry is a step machine: the driver executes one
//! command at a time and resumes with its outcome, so that everything except
//! the process execution itself is verified.

use vstd::prelude::*;
use vstd::string::StrSliceExecFns;
use vstd::string::StringExecFns;

use crate::text::{
    chars_extend, chars_to_string, spec_i32_string, spec_trim, str_eq, str_starts_with,
    str_to_chars, starts_with_spec, i32_to_string, trim,
};

verus! {

// ===== vocabulary =====

/// When the hook runs relative to the operation.
#[derive(Debug, Clone, Copy, PartialEq, Eq, Structural)]
pub enum HookTiming {
    Before,
    After,
}

/// What kind of operation the hook targets.
#[derive(Debug, Clone, Copy, PartialEq, Eq, Structural)]
pub enum HookTarget {
    FsRead,
    FsWrite,
    Terminal,
    TurnEnd,
}

/// Context passed to hooks, built fresh per capability call.
#[derive(Debug, Clone)]
pub struct HookContext {
    pub target: HookTarget,
    pub timing: HookTiming,
    /// The file path involved (for filesystem operations).
    pub path: Option<String>,
    /// The content involved (for write operations).
    pub content: Option<String>,
    /// The command involved (for terminal operations).
    pub command: Option<String>,
}

pub ghost struct HookContextView {
    pub target: HookTarget,
    pub timing: HookTiming,
    pub path: Option<Seq<char>>,
    pub content: Option<Seq<char>>,
    pub command: Option<Seq<char>>,
}

impl View for HookContext {
    type V = HookContextView;

    open spec fn view(&self) -> HookContextView {
        HookContextView {
            target: self.target,
            timing: self.timing,
            path: self.path.deep_view(),
            content: self.content.deep_view(),
            command: self.command.deep_view(),
        }
    }
}

/// Result of running a hook: exactly one per invocation.
#[derive(Debug, Clone)]
pub enum HookResult {
    /// Continue with the operation unchanged.
    Continue,
    /// Continue with modified arguments (e.g. reformatted content).
    ModifiedArgs { content: Option<String> },
    /// Block the operation with a reason.
    Blocked { reason: String },
    /// Inject feedback as a follow-up prompt to the agent.
    FeedbackPrompt { text: String },
}

pub ghost enum HookResultView {
    Continue,
    ModifiedArgs { content: Option<Seq<char>> },
    Blocked { reason: Seq<char> },
    FeedbackPrompt { text: Seq<char> },
}

impl View for HookResult {
    type V = HookResultView;

    open spec fn view(&self) -> HookResultView {
        match self {
            HookResult::Continue => HookResultView::Continue,
            HookResult::ModifiedArgs { content } => HookResultView::ModifiedArgs {
                content: content.deep_view(),
            },
            HookResult::Blocked { reason } => HookResultView::Blocked { reason: reason@ },
            HookResult::FeedbackPrompt { text } => HookResultView::FeedbackPrompt { text: text@ },
        }
    }
}

/// The outcome of executing a hook's shell command, as the driver observed
/// it.  `output` is the captured standard output followed by the captured
/// standard error.
#[derive(Debug, Clone)]
pub enum ExecOutcome {
    /// The command could not be spawned at all.
    SpawnFailed { error: String },
    /// The command ran to completion.
    Exited { success: bool, code: i32, output: String },
}

pub ghost enum ExecOutcomeView {
    SpawnFailed { error: Seq<char> },
    Exited { success: bool, code: int, output: Seq<char> },
}

impl View for ExecOutcome {
    type V = ExecOutcomeView;

    open spec fn view(&self) -> ExecOutcomeView {
        match self {
            ExecOutcome::SpawnFailed { error } => ExecOutcomeView::SpawnFailed { error: error@ },
            ExecOutcome::Exited { success, code, output } => ExecOutcomeView::Exited {
                success: *success,
                code: *code as int,
                output: output@,
            },
        }
    }
}

// ===== configuration =====

/// Top-level hooks configuration.
#[derive(Debug)]
pub struct HooksConfig {
    pub hooks: Vec<ShellHookDef>,
}

/// A single hook definition from the configuration.
#[derive(Debug, Clone)]
pub struct ShellHookDef {
    /// Human-readable name.
    pub name: String,
    /// When the hook fires: "beforeRead", "afterWrite", "beforeTerminal", ...
    pub event: String,
    /// Optional glob pattern to filter by file path (e.g. "**/*.rs").
    pub pattern: Option<String>,
    /// Shell command to execute; a `${file}` placeholder is substituted.
    pub command: String,
    /// If true, command output is sent back to the agent as a follow-up
    /// prompt.
    pub feedback: bool,
}

/// The fixed event vocabulary: which (timing, target) pair an event name
/// denotes, or nothing for an unrecognized name.
pub open spec fn spec_parse_event(e: Seq<char>) -> Option<(HookTiming, HookTarget)> {
    if e == "beforeRead"@ {
        Some((HookTiming::Before, HookTarget::FsRead))
    } else if e == "afterRead"@ {
        Some((HookTiming::After, HookTarget::FsRead))
    } else if e == "beforeWrite"@ {
        Some((HookTiming::Before, HookTarget::FsWrite))
    } else if e == "afterWrite"@ {
        Some((HookTiming::After, HookTarget::FsWrite))
    } else if e == "beforeTerminal"@ {
        Some((HookTiming::Before, HookTarget::Terminal))
    } else if e == "afterTerminal"@ {
        Some((HookTiming::After, HookTarget::Terminal))
    } else if e == "turnEnd"@ {
        Some((HookTiming::After, HookTarget::TurnEnd))
    } else {
        None
    }
}

impl ShellHookDef {
    /// Map the event name to its (timing, target) pair; `None` for an
    /// unrecognized event name, which skips the definition.
    pub fn parse_event(&self) -> (r: Option<(HookTiming, HookTarget)>)
        ensures
            r == spec_parse_event(self.event@),
    {
        let e = self.event.as_str();
        if str_eq(e, "beforeRead") {
            Some((HookTiming::Before, HookTarget::FsRead))
        } else if str_eq(e, "afterRead") {
            Some((HookTiming::After, HookTarget::FsRead))
        } else if str_eq(e, "beforeWrite") {
            Some((HookTiming::Before, HookTarget::FsWrite))
        } else if str_eq(e, "afterWrite") {
            Some((HookTiming::After, HookTarget::FsWrite))
        } else if str_eq(e, "beforeTerminal") {
            Some((HookTiming::Before, HookTarget::Terminal))
        } else if str_eq(e, "afterTerminal") {
            Some((HookTiming::After, HookTarget::Terminal))
        } else if str_eq(e, "turnEnd") {
            Some((HookTiming::After, HookTarget::TurnEnd))
        } else {
            None
        }
    }
}

// ===== glob filtering =====

/// Whether `glob::Pattern::new` accepts the pattern text.
pub uninterp spec fn glob_compiles(p: Seq<char>) -> bool;

/// What `glob::Pattern::matches` returns for a compiled pattern and a text;
/// a function of the two strings alone.
pub uninterp spec fn glob_matches(p: Seq<char>, text: Seq<char>) -> bool;

/// Relies on glob's `Pattern::new`: whether the pattern text compiles,
/// deciding deterministically from the text alone.
#[verifier::external_body]
fn glob_compile_check(pattern: &str) -> (r: bool)
    ensures
        r == glob_compiles(pattern@),
{
    glob::Pattern::new(pattern).is_ok()
}

/// Relies on glob's `Pattern::new` and `Pattern::matches`: compiles the
/// pattern and tests `text` against it; both depend on the two strings
/// alone, and an uncompilable pattern matches nothing.
#[verifier::external_body]
fn glob_match_text(pattern: &str, text: &str) -> (r: bool)
    ensures
        glob_compiles(pattern@) ==> r == glob_matches(pattern@, text@),
        !glob_compiles(pattern@) ==> !r,
{
    match glob::Pattern::new(pattern) {
        Ok(p) => p.matches(text),
        Err(_) => false,
    }
}

/// Tracks whether a hook has a glob filter and whether it compiled.
#[derive(Debug)]
pub enum GlobFilter {
    /// No pattern configured: the hook matches all files.
    MatchAll,
    /// The pattern text, which compiled successfully.
    Pattern(String),
    /// The pattern failed to compile: the hook matches no files
    /// (fail closed).
    Invalid,
}

/// The filter state a configured pattern must produce: no pattern matches
/// everything; a compiling pattern is kept; a failing one is fail-closed.
pub open spec fn filter_for(pattern: Option<Seq<char>>, g: GlobFilter) -> bool {
    match pattern {
        Option::None => g is MatchAll,
        Option::Some(p) => if glob_compiles(p) {
            match g {
                GlobFilter::Pattern(t) => t@ == p,
                _ => false,
            }
        } else {
            g is Invalid
        },
    }
}

pub open spec fn is_sep_char(c: char) -> bool {
    c == '/' || c == '\\'
}

/// The characters after the last path separator; the whole string when it
/// has none.
pub open spec fn after_last_sep(s: Seq<char>) -> Seq<char>
    decreases s.len(),
{
    if s.len() == 0 {
        s
    } else if is_sep_char(s[s.len() - 1]) {
        Seq::empty()
    } else {
        after_last_sep(s.take(s.len() - 1)).push(s[s.len() - 1])
    }
}

proof fn lemma_after_no_sep(s: Seq<char>)
    requires
        forall|k: int| 0 <= k < s.len() ==> !is_sep_char(s[k]),
    ensures
        after_last_sep(s) == s,
    decreases s.len(),
{
    if s.len() > 0 {
        let t = s.take(s.len() - 1);
        assert(forall|k: int| 0 <= k < t.len() ==> t[k] == s[k]);
        lemma_after_no_sep(t);
        assert(t.push(s[s.len() - 1]) =~= s);
    }
}

proof fn lemma_after_with_sep(s: Seq<char>, j: int)
    requires
        0 <= j < s.len(),
        is_sep_char(s[j]),
        forall|k: int| j < k < s.len() ==> !is_sep_char(s[k]),
    ensures
        after_last_sep(s) == s.skip(j + 1),
    decreases s.len(),
{
    if j == s.len() - 1 {
        assert(s.skip(j + 1) =~= Seq::<char>::empty());
    } else {
        let t = s.take(s.len() - 1);
        assert(forall|k: int| 0 <= k < t.len() ==> t[k] == s[k]);
        lemma_after_with_sep(t, j);
        assert(t.skip(j + 1).push(s[s.len() - 1]) =~= s.skip(j + 1));
    }
}

/// The filename component used for glob matching: what follows the last
/// separator of the path.
pub fn file_name_part<'a>(path: &'a str) -> (r: &'a str)
    ensures
        r@ == after_last_sep(path@),
{
    let n = path.unicode_len();
    let mut j: usize = n;
    loop
        invariant
            n == path@.len(),
            j <= n,
            forall|k: int| j <= k < n ==> !is_sep_char(path@[k]),
        decreases j,
    {
        if j == 0 {
            proof {
                lemma_after_no_sep(path@);
                assert(path@.subrange(0, n as int) =~= path@);
            }
            return path.substring_char(0, n);
        }
        let c = path.get_char(j - 1);
        if c == '/' || c == '\\' {
            proof {
                lemma_after_with_sep(path@, j - 1);
                assert(path@.subrange(j as int, n as int) =~= path@.skip(j as int));
            }
            return path.substring_char(j, n);
        }
        j -= 1;
    }
}

/// Whether the filter lets a path through: everything for `MatchAll`,
/// nothing for `Invalid`, and for a pattern a match against the full path
/// or the filename alone.
pub open spec fn spec_filter_matches(g: GlobFilter, path: Seq<char>) -> bool {
    match g {
        GlobFilter::MatchAll => true,
        GlobFilter::Invalid => false,
        GlobFilter::Pattern(t) => glob_compiles(t@) && (glob_matches(t@, path) || glob_matches(
            t@,
            after_last_sep(path),
        )),
    }
}

// ===== command expansion =====

/// `s` with the leftmost-first, non-overlapping occurrences of `pat`
/// replaced by `rep`, as `str::replace` does for a nonempty pattern.
pub open spec fn spec_replace(s: Seq<char>, pat: Seq<char>, rep: Seq<char>) -> Seq<char>
    decreases s.len(),
{
    if pat.len() == 0 || s.len() < pat.len() {
        s
    } else if s.subrange(0, pat.len() as int) == pat {
        rep + spec_replace(s.skip(pat.len() as int), pat, rep)
    } else {
        seq![s[0]] + spec_replace(s.skip(1), pat, rep)
    }
}

fn matches_at(cs: &Vec<char>, pat: &Vec<char>, i: usize) -> (r: bool)
    requires
        i <= cs@.len(),
    ensures
        r == (i + pat@.len() <= cs@.len() && cs@.subrange(
            i as int,
            i as int + pat@.len() as int,
        ) == pat@),
{
    if pat.len() > cs.len() - i {
        return false;
    }
    let mut k: usize = 0;
    while k < pat.len()
        invariant
            i + pat@.len() <= cs@.len(),
            cs@.len() <= usize::MAX,
            k <= pat@.len(),
            forall|j: int| 0 <= j < k ==> cs@[i + j] == pat@[j],
        decreases pat@.len() - k,
    {
        if cs[i + k] != pat[k] {
            proof {
                let sub = cs@.subrange(i as int, i as int + pat@.len() as int);
                if sub == pat@ {
                    assert(sub[k as int] == pat@[k as int]);
                }
            }
            return false;
        }
        k += 1;
    }
    proof {
        assert(cs@.subrange(i as int, i as int + pat@.len() as int) =~= pat@);
    }
    true
}

fn replace_all(s: &str, pat: &str, rep: &str) -> (r: String)
    requires
        pat@.len() >= 1,
    ensures
        r@ == spec_replace(s@, pat@, rep@),
{
    let cs = str_to_chars(s);
    let pcs = str_to_chars(pat);
    let rcs = str_to_chars(rep);
    let mut out: Vec<char> = Vec::new();
    let mut i: usize = 0;
    proof {
        assert(s@.skip(0) =~= s@);
    }
    while i < cs.len()
        invariant
            cs@ == s@,
            pcs@ == pat@,
            rcs@ == rep@,
            pat@.len() >= 1,
            i <= cs@.len(),
            spec_replace(s@, pat@, rep@) == out@ + spec_replace(s@.skip(i as int), pat@, rep@),
        decreases cs@.len() - i,
    {
        let ghost i0 = i as int;
        let ghost rem = s@.skip(i0);
        let ghost out0 = out@;
        if matches_at(&cs, &pcs, i) {
            chars_extend(&mut out, &rcs);
            i += pcs.len();
            proof {
                let plen = pat@.len() as int;
                assert(rem.subrange(0, plen) =~= cs@.subrange(i0, i0 + plen));
                assert(rem.skip(plen) =~= s@.skip(i as int));
                assert(spec_replace(rem, pat@, rep@) == rep@ + spec_replace(
                    s@.skip(i as int),
                    pat@,
                    rep@,
                ));
                assert(out0 + (rep@ + spec_replace(s@.skip(i as int), pat@, rep@)) =~= out@
                    + spec_replace(s@.skip(i as int), pat@, rep@));
            }
        } else {
            let c = cs[i];
            out.push(c);
            i += 1;
            proof {
                let plen = pat@.len() as int;
                assert(rem[0] == s@[i0]);
                assert(rem.skip(1) =~= s@.skip(i as int));
                if rem.len() >= plen {
                    assert(rem.subrange(0, plen) =~= cs@.subrange(i0, i0 + plen));
                    assert(rem.subrange(0, plen) != pat@);
                    assert(spec_replace(rem, pat@, rep@) == seq![rem[0]] + spec_replace(
                        s@.skip(i as int),
                        pat@,
                        rep@,
                    ));
                    assert(out0 + (seq![rem[0]] + spec_replace(s@.skip(i as int), pat@, rep@))
                        =~= out@ + spec_replace(s@.skip(i as int), pat@, rep@));
                } else {
                    assert(spec_replace(rem, pat@, rep@) == rem);
                    assert(spec_replace(s@.skip(i as int), pat@, rep@) == s@.skip(i as int));
                    assert(out0 + rem =~= out@ + s@.skip(i as int));
                }
            }
        }
    }
    proof {
        assert(s@.skip(s@.len() as int) =~= Seq::<char>::empty());
        assert(spec_replace(Seq::<char>::empty(), pat@, rep@) == Seq::<char>::empty());
        assert(out@ =~= spec_replace(s@, pat@, rep@));
    }
    chars_to_string(&out)
}

/// The command template with the `${file}` placeholder substituted when a
/// path is present, left verbatim otherwise.
pub open spec fn spec_expand(cmd: Seq<char>, path: Option<Seq<char>>) -> Seq<char> {
    match path {
        Option::Some(p) => spec_replace(cmd, "${file}"@, p),
        Option::None => cmd,
    }
}

// ===== messages =====

pub open spec fn spec_fail_message(name: Seq<char>, code: int, output: Seq<char>) -> Seq<char> {
    "Hook '"@ + name + "' failed (exit "@ + spec_i32_string(code) + "):\n"@ + output
}

pub open spec fn spec_output_message(name: Seq<char>, output: Seq<char>) -> Seq<char> {
    "Hook '"@ + name + "' output:\n"@ + output
}

pub open spec fn spec_spawn_fail_message(name: Seq<char>, error: Seq<char>) -> Seq<char> {
    "Hook '"@ + name + "' failed to execute: "@ + error
}

fn fail_message(name: &str, code: i32, output: &str) -> (r: String)
    ensures
        r@ == spec_fail_message(name@, code as int, output@),
{
    let mut m = "Hook '".to_owned();
    m.append(name);
    m.append("' failed (exit ");
    let code_text = i32_to_string(code);
    m.append(code_text.as_str());
    m.append("):\n");
    m.append(output);
    proof {
        assert(m@ =~= spec_fail_message(name@, code as int, output@));
    }
    m
}

fn output_message(name: &str, output: &str) -> (r: String)
    ensures
        r@ == spec_output_message(name@, output@),
{
    let mut m = "Hook '".to_owned();
    m.append(name);
    m.append("' output:\n");
    m.append(output);
    proof {
        assert(m@ =~= spec_output_message(name@, output@));
    }
    m
}

fn spawn_fail_message(name: &str, error: &str) -> (r: String)
    ensures
        r@ == spec_spawn_fail_message(name@, error@),
{
    let mut m = "Hook '".to_owned();
    m.append(name);
    m.append("' failed to execute: ");
    m.append(error);
    proof {
        assert(m@ =~= spec_spawn_fail_message(name@, error@));
    }
    m
}

// ===== the configured shell hook =====

/// A configured shell hook: fires on its (timing, target) pair, is scoped by
/// an optional glob, runs one shell command and interprets its outcome.
#[derive(Debug)]
pub struct ShellHook {
    pub def: ShellHookDef,
    pub timing: HookTiming,
    pub target: HookTarget,
    pub glob: GlobFilter,
}

/// The verdict a shell hook reaches for a command outcome: a spawn failure
/// blocks a Before hook and is ignored After; a failing command gives
/// feedback when enabled, blocks Before and is logged After otherwise; a
/// succeeding command gives feedback only when enabled and its output is
/// nonempty after trimming.
pub open spec fn spec_shell_verdict(
    timing: HookTiming,
    feedback: bool,
    name: Seq<char>,
    o: ExecOutcomeView,
) -> HookResultView {
    match o {
        ExecOutcomeView::SpawnFailed { error } => if timing is Before {
            HookResultView::Blocked { reason: spec_spawn_fail_message(name, error) }
        } else {
            HookResultView::Continue
        },
        ExecOutcomeView::Exited { success, code, output } => if !success {
            let msg = spec_fail_message(name, code, output);
            if feedback {
                HookResultView::FeedbackPrompt { text: msg }
            } else if timing is Before {
                HookResultView::Blocked { reason: msg }
            } else {
                HookResultView::Continue
            }
        } else if feedback && spec_trim(output).len() > 0 {
            HookResultView::FeedbackPrompt { text: spec_output_message(name, output) }
        } else {
            HookResultView::Continue
        },
    }
}

impl ShellHook {
    /// Build a hook from its definition: `None` exactly for an unrecognized
    /// event name; a configured glob pattern is compiled once, fail-closed.
    pub fn from_def(def: ShellHookDef) -> (r: Option<ShellHook>)
        ensures
            r is Some <==> spec_parse_event(def.event@) is Some,
            r is Some ==> {
                let h = r->0;
                &&& h.def == def
                &&& Some((h.timing, h.target)) == spec_parse_event(def.event@)
                &&& filter_for(def.pattern.deep_view(), h.glob)
            },
    {
        match def.parse_event() {
            None => None,
            Some((timing, target)) => {
                let glob = match &def.pattern {
                    None => GlobFilter::MatchAll,
                    Some(p) => {
                        if glob_compile_check(p.as_str()) {
                            GlobFilter::Pattern(p.clone())
                        } else {
                            GlobFilter::Invalid
                        }
                    },
                };
                Some(ShellHook { def, timing, target, glob })
            },
        }
    }

    /// Whether the hook's glob filter lets this path through, matching the
    /// full path or the filename alone.
    pub fn matches_path(&self, path: &str) -> (r: bool)
        ensures
            r == spec_filter_matches(self.glob, path@),
    {
        match &self.glob {
            GlobFilter::MatchAll => true,
            GlobFilter::Invalid => false,
            GlobFilter::Pattern(t) => {
                if glob_match_text(t.as_str(), path) {
                    true
                } else {
                    let name = file_name_part(path);
                    glob_match_text(t.as_str(), name)
                }
            },
        }
    }

    /// The hook's command with `${file}` substituted by the context path,
    /// left verbatim when the context has none.
    pub fn expand_command(&self, ctx: &HookContext) -> (r: String)
        ensures
            r@ == spec_expand(self.def.command@, ctx@.path),
    {
        match &ctx.path {
            Some(p) => {
                proof {
                    reveal_strlit("${file}");
                }
                replace_all(self.def.command.as_str(), "${file}", p.as_str())
            },
            None => self.def.command.clone(),
        }
    }

    /// Interpret the outcome of the hook's shell command.
    pub fn conclude(&self, outcome: &ExecOutcome) -> (r: HookResult)
        ensures
            r@ == spec_shell_verdict(self.timing, self.def.feedback, self.def.name@, outcome@),
    {
        match outcome {
            ExecOutcome::SpawnFailed { error } => {
                if self.timing == HookTiming::Before {
                    HookResult::Blocked {
                        reason: spawn_fail_message(self.def.name.as_str(), error.as_str()),
                    }
                } else {
                    HookResult::Continue
                }
            },
            ExecOutcome::Exited { success, code, output } => {
                if !*success {
                    let msg = fail_message(self.def.name.as_str(), *code, output.as_str());
                    if self.def.feedback {
                        HookResult::FeedbackPrompt { text: msg }
                    } else if self.timing == HookTiming::Before {
                        HookResult::Blocked { reason: msg }
                    } else {
                        HookResult::Continue
                    }
                } else if self.def.feedback {
                    let trimmed = trim(output.as_str());
                    if !trimmed.is_empty() {
                        HookResult::FeedbackPrompt {
                            text: output_message(self.def.name.as_str(), output.as_str()),
                        }
                    } else {
                        HookResult::Continue
                    }
                } else {
                    HookResult::Continue
                }
            },
        }
    }
}

// ===== the built-in path containment hook =====

/// A built-in Before hook on writes that blocks paths outside a project
/// root.
#[derive(Debug)]
pub struct PathValidationHook {
    pub allowed_root: String,
}

/// Containment rule: the path equals the root, or extends it at a separator
/// boundary (either the root ends with a separator or the next character of
/// the path is one).
pub open spec fn spec_within_root(p: Seq<char>, root: Seq<char>) -> bool {
    p == root || (starts_with_spec(p, root) && p.len() > root.len() && ((root.len() > 0
        && is_sep_char(root[root.len() - 1])) || is_sep_char(p[root.len() as int])))
}

pub open spec fn spec_outside_root_message(p: Seq<char>, root: Seq<char>) -> Seq<char> {
    "Write blocked: "@ + p + " is outside project root "@ + root
}

/// The verdict of the path containment check: block with a message when a
/// path is present and outside the root, continue otherwise.
pub open spec fn spec_path_validation_verdict(
    root: Seq<char>,
    path: Option<Seq<char>>,
) -> HookResultView {
    match path {
        Option::Some(p) => if spec_within_root(p, root) {
            HookResultView::Continue
        } else {
            HookResultView::Blocked { reason: spec_outside_root_message(p, root) }
        },
        Option::None => HookResultView::Continue,
    }
}

fn within_root(p: &str, root: &str) -> (r: bool)
    ensures
        r == spec_within_root(p@, root@),
{
    if str_eq(p, root) {
        return true;
    }
    if !str_starts_with(p, root) {
        return false;
    }
    let plen = p.unicode_len();
    let rlen = root.unicode_len();
    if plen <= rlen {
        return false;
    }
    if rlen > 0 {
        let last = root.get_char(rlen - 1);
        if last == '/' || last == '\\' {
            return true;
        }
    }
    let c = p.get_char(rlen);
    c == '/' || c == '\\'
}

impl PathValidationHook {
    pub fn run(&self, ctx: &HookContext) -> (r: HookResult)
        ensures
            r@ == spec_path_validation_verdict(self.allowed_root@, ctx@.path),
    {
        match &ctx.path {
            Some(p) => {
                if within_root(p.as_str(), self.allowed_root.as_str()) {
                    HookResult::Continue
                } else {
                    let mut m = "Write blocked: ".to_owned();
                    m.append(p.as_str());
                    m.append(" is outside project root ");
                    m.append(self.allowed_root.as_str());
                    proof {
                        assert(m@ =~= spec_outside_root_message(p@, self.allowed_root@));
                    }
                    HookResult::Blocked { reason: m }
                }
            },
            None => HookResult::Continue,
        }
    }
}

// ===== the closed hook type =====

/// A hook: the config-driven shell variant or the built-in path containment
/// check.
#[derive(Debug)]
pub enum Hook {
    Shell(ShellHook),
    PathValidation(PathValidationHook),
}

/// What a hook asks of the dispatch driver: nothing (filtered out), an
/// immediate verdict, or one shell command to execute.
#[derive(Debug)]
pub enum HookPlan {
    Skip,
    Immediate(HookResult),
    RunCommand(String),
}

pub ghost enum HookPlanView {
    Skip,
    Immediate(HookResultView),
    RunCommand(Seq<char>),
}

impl View for HookPlan {
    type V = HookPlanView;

    open spec fn view(&self) -> HookPlanView {
        match self {
            HookPlan::Skip => HookPlanView::Skip,
            HookPlan::Immediate(r) => HookPlanView::Immediate(r@),
            HookPlan::RunCommand(c) => HookPlanView::RunCommand(c@),
        }
    }
}

pub open spec fn spec_hook_timing(h: Hook) -> HookTiming {
    match h {
        Hook::Shell(s) => s.timing,
        Hook::PathValidation(_) => HookTiming::Before,
    }
}

pub open spec fn spec_hook_target(h: Hook) -> HookTarget {
    match h {
        Hook::Shell(s) => s.target,
        Hook::PathValidation(_) => HookTarget::FsWrite,
    }
}

pub open spec fn spec_hook_name(h: Hook) -> Seq<char> {
    match h {
        Hook::Shell(s) => s.def.name@,
        Hook::PathValidation(_) => "path-validation"@,
    }
}

/// The plan a hook makes for a context: a shell hook is skipped when a path
/// is present and its filter rejects it, and otherwise asks for its expanded
/// command; with no path the filter step is skipped entirely.  The built-in
/// check decides immediately.
pub open spec fn spec_hook_plan(h: Hook, path: Option<Seq<char>>) -> HookPlanView {
    match h {
        Hook::Shell(s) => match path {
            Option::Some(p) => if !spec_filter_matches(s.glob, p) {
                HookPlanView::Skip
            } else {
                HookPlanView::RunCommand(spec_expand(s.def.command@, Some(p)))
            },
            Option::None => HookPlanView::RunCommand(spec_expand(s.def.command@, None)),
        },
        Hook::PathValidation(v) => HookPlanView::Immediate(
            spec_path_validation_verdict(v.allowed_root@, path),
        ),
    }
}

/// The verdict a hook reaches for a command outcome; the built-in check runs
/// no command, so its verdict for any outcome is Continue.
pub open spec fn spec_hook_conclude(h: Hook, o: ExecOutcomeView) -> HookResultView {
    match h {
        Hook::Shell(s) => spec_shell_verdict(s.timing, s.def.feedback, s.def.name@, o),
        Hook::PathValidation(_) => HookResultView::Continue,
    }
}

impl Hook {
    pub fn timing(&self) -> (r: HookTiming)
        ensures
            r == spec_hook_timing(*self),
    {
        match self {
            Hook::Shell(s) => s.timing,
            Hook::PathValidation(_) => HookTiming::Before,
        }
    }

    pub fn target(&self) -> (r: HookTarget)
        ensures
            r == spec_hook_target(*self),
    {
        match self {
            Hook::Shell(s) => s.target,
            Hook::PathValidation(_) => HookTarget::FsWrite,
        }
    }

    pub fn name<'a>(&'a self) -> (r: &'a str)
        ensures
            r@ == spec_hook_name(*self),
    {
        match self {
            Hook::Shell(s) => s.def.name.as_str(),
            Hook::PathValidation(_) => "path-validation",
        }
    }

    /// Decide what this hook needs for the given context.
    pub fn plan(&self, ctx: &HookContext) -> (r: HookPlan)
        ensures
            r@ == spec_hook_plan(*self, ctx@.path),
    {
        match self {
            Hook::Shell(s) => {
                match &ctx.path {
                    Some(p) => {
                        if !s.matches_path(p.as_str()) {
                            HookPlan::Skip
                        } else {
                            HookPlan::RunCommand(s.expand_command(ctx))
                        }
                    },
                    None => HookPlan::RunCommand(s.expand_command(ctx)),
                }
            },
            Hook::PathValidation(v) => HookPlan::Immediate(v.run(ctx)),
        }
    }

    /// Interpret a command outcome for this hook.
    pub fn conclude(&self, outcome: &ExecOutcome) -> (r: HookResult)
        ensures
            r@ == spec_hook_conclude(*self, outcome@),
    {
        match self {
            Hook::Shell(s) => s.conclude(outcome),
            Hook::PathValidation(_) => HookResult::Continue,
        }
    }
}

// ===== the registry and its dispatch machine =====

/// Whether a hook fires for this (timing, target) pair.
pub open spec fn hook_applicable(h: Hook, target: HookTarget, timing: HookTiming) -> bool {
    spec_hook_timing(h) == timing && spec_hook_target(h) == target
}

/// Holds hooks and dispatches them in registration order.  Executing a shell
/// command suspends, so dispatch is a step machine: each step either
/// finishes or names one command for the driver to run, and the driver
/// resumes with the outcome.
#[derive(Debug)]
pub struct HookRegistry {
    pub hooks: Vec<Hook>,
}

/// One step of Before-dispatch: run a command for the hook at `index`, or
/// finish with a result.
#[derive(Debug)]
pub enum BeforeStep {
    Run { index: usize, command: String },
    Done(HookResult),
}

pub ghost enum BeforeStepView {
    Run { index: int, command: Seq<char> },
    Done(HookResultView),
}

impl View for BeforeStep {
    type V = BeforeStepView;

    open spec fn view(&self) -> BeforeStepView {
        match self {
            BeforeStep::Run { index, command } => BeforeStepView::Run {
                index: *index as int,
                command: command@,
            },
            BeforeStep::Done(r) => BeforeStepView::Done(r@),
        }
    }
}

/// Before-dispatch from index `from`: skip hooks that do not fire, stop at
/// the first immediate non-Continue verdict, pause at the first hook that
/// needs a command, and finish with Continue when no hook is left.
pub open spec fn spec_next_before(
    hooks: Seq<Hook>,
    ctx: HookContextView,
    from: int,
) -> BeforeStepView
    decreases hooks.len() - from,
{
    if from < 0 || from >= hooks.len() {
        BeforeStepView::Done(HookResultView::Continue)
    } else {
        let h = hooks[from];
        if !hook_applicable(h, ctx.target, HookTiming::Before) {
            spec_next_before(hooks, ctx, from + 1)
        } else {
            match spec_hook_plan(h, ctx.path) {
                HookPlanView::Skip => spec_next_before(hooks, ctx, from + 1),
                HookPlanView::Immediate(r) => if r is Continue {
                    spec_next_before(hooks, ctx, from + 1)
                } else {
                    BeforeStepView::Done(r)
                },
                HookPlanView::RunCommand(c) => BeforeStepView::Run { index: from, command: c },
            }
        }
    }
}

/// What resuming Before-dispatch after an outcome yields: a non-Continue
/// verdict ends dispatch at once; Continue moves on to the next hook.
pub open spec fn spec_resume_before(
    hooks: Seq<Hook>,
    ctx: HookContextView,
    index: int,
    o: ExecOutcomeView,
) -> BeforeStepView {
    let v = spec_hook_conclude(hooks[index], o);
    if v is Continue {
        spec_next_before(hooks, ctx, index + 1)
    } else {
        BeforeStepView::Done(v)
    }
}

/// One step of After-dispatch: run a command for the hook at `index`, record
/// an immediate non-Continue result, or finish.  After-dispatch never stops
/// early: every firing hook is visited.
#[derive(Debug)]
pub enum AfterStep {
    Run { index: usize, command: String },
    Note { index: usize, result: HookResult },
    Done,
}

pub ghost enum AfterStepView {
    Run { index: int, command: Seq<char> },
    Note { index: int, result: HookResultView },
    Done,
}

impl View for AfterStep {
    type V = AfterStepView;

    open spec fn view(&self) -> AfterStepView {
        match self {
            AfterStep::Run { index, command } => AfterStepView::Run {
                index: *index as int,
                command: command@,
            },
            AfterStep::Note { index, result } => AfterStepView::Note {
                index: *index as int,
                result: result@,
            },
            AfterStep::Done => AfterStepView::Done,
        }
    }
}

/// After-dispatch from index `from`: skip hooks that do not fire, surface
/// immediate non-Continue verdicts, pause at each hook that needs a command,
/// and finish when no hook is left.
pub open spec fn spec_next_after(
    hooks: Seq<Hook>,
    ctx: HookContextView,
    from: int,
) -> AfterStepView
    decreases hooks.len() - from,
{
    if from < 0 || from >= hooks.len() {
        AfterStepView::Done
    } else {
        let h = hooks[from];
        if !hook_applicable(h, ctx.target, HookTiming::After) {
            spec_next_after(hooks, ctx, from + 1)
        } else {
            match spec_hook_plan(h, ctx.path) {
                HookPlanView::Skip => spec_next_after(hooks, ctx, from + 1),
                HookPlanView::Immediate(r) => if r is Continue {
                    spec_next_after(hooks, ctx, from + 1)
                } else {
                    AfterStepView::Note { index: from, result: r }
                },
                HookPlanView::RunCommand(c) => AfterStepView::Run { index: from, command: c },
            }
        }
    }
}

impl HookRegistry {
    pub fn new() -> (r: HookRegistry)
        ensures
            r.hooks@ == Seq::<Hook>::empty(),
    {
        HookRegistry { hooks: Vec::new() }
    }

    /// Append a hook; registration order is dispatch order.
    pub fn register(&mut self, hook: Hook)
        ensures
            final(self).hooks@ == old(self).hooks@.push(hook),
    {
        self.hooks.push(hook);
    }

    /// Begin Before-dispatch for a context.
    pub fn start_before(&self, ctx: &HookContext) -> (r: BeforeStep)
        ensures
            r@ == spec_next_before(self.hooks@, ctx@, 0),
    {
        self.next_before(ctx, 0)
    }

    /// Continue Before-dispatch from index `from`.
    pub fn next_before(&self, ctx: &HookContext, from: usize) -> (r: BeforeStep)
        ensures
            r@ == spec_next_before(self.hooks@, ctx@, from as int),
    {
        let mut i: usize = from;
        while i < self.hooks.len()
            invariant
                from <= i,
                spec_next_before(self.hooks@, ctx@, from as int) == spec_next_before(
                    self.hooks@,
                    ctx@,
                    i as int,
                ),
            decreases self.hooks@.len() - i,
        {
            let h = &self.hooks[i];
            let t = h.timing();
            let g = h.target();
            if t == HookTiming::Before && g == ctx.target {
                match h.plan(ctx) {
                    HookPlan::Skip => {
                        i += 1;
                    },
                    HookPlan::Immediate(r) => {
                        match r {
                            HookResult::Continue => {
                                i += 1;
                            },
                            other => {
                                return BeforeStep::Done(other);
                            },
                        }
                    },
                    HookPlan::RunCommand(c) => {
                        return BeforeStep::Run { index: i, command: c };
                    },
                }
            } else {
                i += 1;
            }
        }
        BeforeStep::Done(HookResult::Continue)
    }

    /// Resume Before-dispatch with the outcome of the command that the hook
    /// at `index` asked for.
    pub fn resume_before(&self, ctx: &HookContext, index: usize, outcome: &ExecOutcome) -> (r:
        BeforeStep)
        requires
            index < self.hooks@.len(),
        ensures
            r@ == spec_resume_before(self.hooks@, ctx@, index as int, outcome@),
    {
        let n = self.hooks.len();
        let h = &self.hooks[index];
        let verdict = h.conclude(outcome);
        match verdict {
            HookResult::Continue => {
                proof {
                    assert(index < n);
                }
                self.next_before(ctx, index + 1)
            },
            other => BeforeStep::Done(other),
        }
    }

    /// Begin After-dispatch for a context.
    pub fn start_after(&self, ctx: &HookContext) -> (r: AfterStep)
        ensures
            r@ == spec_next_after(self.hooks@, ctx@, 0),
    {
        self.next_after(ctx, 0)
    }

    /// Continue After-dispatch from index `from`.
    pub fn next_after(&self, ctx: &HookContext, from: usize) -> (r: AfterStep)
        ensures
            r@ == spec_next_after(self.hooks@, ctx@, from as int),
    {
        let mut i: usize = from;
        while i < self.hooks.len()
            invariant
                from <= i,
                spec_next_after(self.hooks@, ctx@, from as int) == spec_next_after(
                    self.hooks@,
                    ctx@,
                    i as int,
                ),
            decreases self.hooks@.len() - i,
        {
            let h = &self.hooks[i];
            let t = h.timing();
            let g = h.target();
            if t == HookTiming::After && g == ctx.target {
                match h.plan(ctx) {
                    HookPlan::Skip => {
                        i += 1;
                    },
                    HookPlan::Immediate(r) => {
                        match r {
                            HookResult::Continue => {
                                i += 1;
                            },
                            other => {
                                return AfterStep::Note { index: i, result: other };
                            },
                        }
                    },
                    HookPlan::RunCommand(c) => {
                        return AfterStep::Run { index: i, command: c };
                    },
                }
            } else {
                i += 1;
            }
        }
        AfterStep::Done
    }

    /// The verdict of the hook at `index` for a command outcome; After-
    /// dispatch records it and moves on regardless of what it is.
    pub fn conclude_at(&self, index: usize, outcome: &ExecOutcome) -> (r: HookResult)
        requires
            index < self.hooks@.len(),
        ensures
            r@ == spec_hook_conclude(self.hooks@[index as int], outcome@),
    {
        self.hooks[index].conclude(outcome)
    }
}

// ===== the mediation gate =====

/// How a capability call proceeds after Before-dispatch.
#[derive(Debug)]
pub enum BeforeGate {
    /// Perform the effect, substituting the content when one is given.
    Proceed { content: Option<String> },
    /// Fail the call with this message as a protocol error.
    Fail { message: String },
}

pub ghost enum BeforeGateView {
    Proceed { content: Option<Seq<char>> },
    Fail { message: Seq<char> },
}

impl View for BeforeGate {
    type V = BeforeGateView;

    open spec fn view(&self) -> BeforeGateView {
        match self {
            BeforeGate::Proceed { content } => BeforeGateView::Proceed {
                content: content.deep_view(),
            },
            BeforeGate::Fail { message } => BeforeGateView::Fail { message: message@ },
        }
    }
}

/// How a final Before result gates the call: Blocked fails it with the
/// reason, FeedbackPrompt fails it with the prompt text (no permit-and-
/// notify path exists before the effect), ModifiedArgs substitutes, Continue
/// proceeds.
pub open spec fn spec_gate_before(r: HookResultView) -> BeforeGateView {
    match r {
        HookResultView::Continue => BeforeGateView::Proceed { content: None },
        HookResultView::ModifiedArgs { content } => BeforeGateView::Proceed { content },
        HookResultView::Blocked { reason } => BeforeGateView::Fail { message: reason },
        HookResultView::FeedbackPrompt { text } => BeforeGateView::Fail { message: text },
    }
}

pub fn gate_before(result: HookResult) -> (r: BeforeGate)
    ensures
        r@ == spec_gate_before(result@),
{
    match result {
        HookResult::Continue => BeforeGate::Proceed { content: None },
        HookResult::ModifiedArgs { content } => BeforeGate::Proceed { content },
        HookResult::Blocked { reason } => BeforeGate::Fail { message: reason },
        HookResult::FeedbackPrompt { text } => BeforeGate::Fail { message: text },
    }
}

/// The feedback texts among collected After results, in order.
pub open spec fn spec_feedback_texts(rs: Seq<HookResult>) -> Seq<Seq<char>>
    decreases rs.len(),
{
    if rs.len() == 0 {
        Seq::empty()
    } else {
        let head = match rs[0] {
            HookResult::FeedbackPrompt { text } => seq![text@],
            _ => Seq::empty(),
        };
        head + spec_feedback_texts(rs.drop_first())
    }
}

/// Collect the FeedbackPrompt texts of After results, keeping their order;
/// these are forwarded to the consumer asynchronously.
pub fn feedback_texts(results: &Vec<HookResult>) -> (r: Vec<String>)
    ensures
        r.deep_view() == spec_feedback_texts(results@),
{
    let mut r: Vec<String> = Vec::new();
    let mut i: usize = 0;
    proof {
        assert(results@.skip(0) =~= results@);
        assert(r.deep_view() =~= Seq::<Seq<char>>::empty());
    }
    while i < results.len()
        invariant
            i <= results@.len(),
            spec_feedback_texts(results@) == r.deep_view() + spec_feedback_texts(
                results@.skip(i as int),
            ),
        decreases results@.len() - i,
    {
        let ghost r0 = r.deep_view();
        let ghost rem = results@.skip(i as int);
        match &results[i] {
            HookResult::FeedbackPrompt { text } => {
                r.push(text.clone());
                proof {
                    assert(r.deep_view() =~= r0.push(text@));
                }
            },
            _ => {
            },
        }
        i += 1;
        proof {
            assert(rem[0] == results@[i - 1]);
            assert(rem.drop_first() =~= results@.skip(i as int));
            assert(r.deep_view() + spec_feedback_texts(results@.skip(i as int)) =~= r0
                + spec_feedback_texts(rem));
        }
    }
    proof {
        assert(results@.skip(results@.len() as int) =~= Seq::<HookResult>::empty());
        assert(r.deep_view() =~= spec_feedback_texts(results@));
    }
    r
}

// ===== laws =====

/// During Before-dispatch a hook whose command outcome yields any
/// non-Continue verdict halts further evaluation at once with that verdict;
/// a Continue verdict moves dispatch to the hooks after it.
pub proof fn lemma_before_short_circuit(
    hooks: Seq<Hook>,
    ctx: HookContextView,
    index: int,
    o: ExecOutcomeView,
)
    requires
        0 <= index < hooks.len(),
    ensures
        !(spec_hook_conclude(hooks[index], o) is Continue) ==> spec_resume_before(
            hooks,
            ctx,
            index,
            o,
        ) == BeforeStepView::Done(spec_hook_conclude(hooks[index], o)),
        spec_hook_conclude(hooks[index], o) is Continue ==> spec_resume_before(
            hooks,
            ctx,
            index,
            o,
        ) == spec_next_before(hooks, ctx, index + 1),
{
}

/// A failing Before hook is fail-closed: without feedback it blocks with the
/// failure message; with feedback enabled the identical failure yields a
/// feedback prompt instead.
pub proof fn lemma_before_failure_blocks(
    feedback: bool,
    name: Seq<char>,
    code: int,
    output: Seq<char>,
)
    ensures
        spec_shell_verdict(
            HookTiming::Before,
            feedback,
            name,
            ExecOutcomeView::Exited { success: false, code, output },
        ) == (if feedback {
            HookResultView::FeedbackPrompt { text: spec_fail_message(name, code, output) }
        } else {
            HookResultView::Blocked { reason: spec_fail_message(name, code, output) }
        }),
{
}

/// An After hook never blocks, whatever its command did: its verdict is
/// Continue or a feedback prompt.
pub proof fn lemma_after_never_blocks(feedback: bool, name: Seq<char>, o: ExecOutcomeView)
    ensures
        spec_shell_verdict(HookTiming::After, feedback, name, o) is Continue || spec_shell_verdict(
            HookTiming::After,
            feedback,
            name,
            o,
        ) is FeedbackPrompt,
{
}

/// The After verdicts in detail: a failure is Continue when feedback is
/// disabled and a feedback prompt when enabled; a success with feedback
/// enabled prompts exactly when the trimmed output is nonempty.
pub proof fn lemma_after_verdicts(name: Seq<char>, code: int, output: Seq<char>)
    ensures
        (spec_shell_verdict(
            HookTiming::After,
            false,
            name,
            ExecOutcomeView::Exited { success: false, code, output },
        ) is Continue),
        (spec_shell_verdict(
            HookTiming::After,
            true,
            name,
            ExecOutcomeView::Exited { success: false, code, output },
        ) == HookResultView::FeedbackPrompt { text: spec_fail_message(name, code, output) }),
        (spec_trim(output).len() == 0 ==> spec_shell_verdict(
            HookTiming::After,
            true,
            name,
            ExecOutcomeView::Exited { success: true, code, output },
        ) is Continue),
        (spec_trim(output).len() > 0 ==> spec_shell_verdict(
            HookTiming::After,
            true,
            name,
            ExecOutcomeView::Exited { success: true, code, output },
        ) == HookResultView::FeedbackPrompt { text: spec_output_message(name, output) }),
{
}

/// An uncompilable glob pattern is fail-closed: the filter it produces
/// matches no path at all, so the hook is skipped for every path.
pub proof fn lemma_uncompilable_pattern_fail_closed(p: Seq<char>, g: GlobFilter, path: Seq<char>)
    requires
        !glob_compiles(p),
        filter_for(Some(p), g),
    ensures
        !spec_filter_matches(g, path),
{
}

/// A glob-scoped hook given a context without a path skips the filter step
/// entirely and always asks for its command.
pub proof fn lemma_no_path_always_fires(h: ShellHook)
    ensures
        spec_hook_plan(Hook::Shell(h), None) == HookPlanView::RunCommand(
            spec_expand(h.def.command@, None),
        ),
{
}

} // verus!
