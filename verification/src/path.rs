//! Path-namespace translation between the host's drive-rooted paths and the
//! mount-rooted paths the agent expects.
//!
//! `win_to_wsl` maps `C:\Users\foo` to `/mnt/c/Users/foo`; `wsl_to_win` maps
//! it back.  An extended-length prefix `\\?\` is stripped before drive
//! detection; UNC paths (`\\server\...`) are never rewritten to a mount form.

use vstd::prelude::*;

use crate::text::{
    char_is_ascii, char_is_ascii_letter, chars_extend, chars_to_string, is_ascii_char,
    is_ascii_letter, lower_char, str_to_chars, starts_with_spec, to_lower_char, to_upper_char,
    upper_char,
};

verus! {

/// Direction of path translation.
#[derive(Debug, Clone, Copy, PartialEq, Eq, Structural)]
pub enum Direction {
    WinToWsl,
    WslToWin,
}

// ===== spec-level model =====

/// The agent-side mount prefix, `/mnt/`.
pub open spec fn mount_prefix() -> Seq<char> {
    seq!['/', 'm', 'n', 't', '/']
}

/// Whether the path carries the extended-length prefix `\\?\`.
pub open spec fn has_ext_prefix(s: Seq<char>) -> bool {
    s.len() >= 4 && s[0] == '\\' && s[1] == '\\' && s[2] == '?' && s[3] == '\\'
}

pub open spec fn strip_ext_prefix(s: Seq<char>) -> Seq<char> {
    if has_ext_prefix(s) {
        s.skip(4)
    } else {
        s
    }
}

/// Every backslash replaced by a forward slash.
pub open spec fn norm_slashes(s: Seq<char>) -> Seq<char> {
    s.map_values(|c: char| if c == '\\' { '/' } else { c })
}

/// Every forward slash replaced by a backslash.
pub open spec fn back_slashes(s: Seq<char>) -> Seq<char> {
    s.map_values(|c: char| if c == '/' { '\\' } else { c })
}

pub open spec fn skip_leading_slashes(s: Seq<char>) -> Seq<char>
    decreases s.len(),
{
    if s.len() > 0 && s[0] == '/' {
        skip_leading_slashes(s.skip(1))
    } else {
        s
    }
}

/// A path beginning with a single-byte character and a colon, the shape the
/// host-to-agent translation treats as drive-rooted.
pub open spec fn is_drive_rooted(s: Seq<char>) -> bool {
    s.len() >= 2 && is_ascii_char(s[0]) && s[1] == ':'
}

/// What `win_to_wsl` returns.
pub open spec fn spec_win_to_wsl(s: Seq<char>) -> Seq<char> {
    let t = strip_ext_prefix(s);
    if is_drive_rooted(t) {
        let drive = lower_char(t[0]);
        let rest = skip_leading_slashes(norm_slashes(t.skip(2)));
        if rest.len() == 0 {
            mount_prefix() + seq![drive]
        } else {
            mount_prefix() + seq![drive] + seq!['/'] + rest
        }
    } else {
        norm_slashes(t)
    }
}

/// What `wsl_to_win` returns.
pub open spec fn spec_wsl_to_win(s: Seq<char>) -> Seq<char> {
    if s.len() >= 5 && s.subrange(0, 5) == mount_prefix() {
        let rest = s.skip(5);
        if rest.len() >= 1 && is_ascii_char(rest[0]) {
            let drive = upper_char(rest[0]);
            let after = rest.skip(1);
            if after.len() == 0 {
                seq![drive, ':', '\\']
            } else if after[0] == '/' {
                let suffix = after.skip(1);
                if suffix.len() == 0 {
                    seq![drive, ':', '\\']
                } else {
                    seq![drive, ':', '\\'] + back_slashes(suffix)
                }
            } else {
                s
            }
        } else {
            s
        }
    } else {
        s
    }
}

/// The detector for host-style paths inside opaque payloads: drive letter,
/// colon, separator (after stripping an extended-length prefix).
pub open spec fn looks_like_windows_path_spec(s: Seq<char>) -> bool {
    let t = strip_ext_prefix(s);
    t.len() >= 3 && is_ascii_letter(t[0]) && t[1] == ':' && (t[2] == '\\' || t[2] == '/')
}

/// The detector for agent-style paths inside opaque payloads: `/mnt/` plus a
/// drive letter.
pub open spec fn looks_like_wsl_mount_path_spec(s: Seq<char>) -> bool {
    s.len() >= 6 && s.subrange(0, 5) == mount_prefix() && is_ascii_letter(s[5])
}

/// What a string leaf becomes under payload translation: rewritten when the
/// relevant detector fires, untouched otherwise.
pub open spec fn spec_translate_string(s: Seq<char>, direction: Direction) -> Seq<char> {
    match direction {
        Direction::WinToWsl => if looks_like_windows_path_spec(s) {
            spec_win_to_wsl(s)
        } else {
            s
        },
        Direction::WslToWin => if looks_like_wsl_mount_path_spec(s) {
            spec_wsl_to_win(s)
        } else {
            s
        },
    }
}

// ===== exec helpers on character vectors =====

fn chars_skip(v: &Vec<char>, k: usize) -> (r: Vec<char>)
    requires
        k <= v@.len(),
    ensures
        r@ == v@.skip(k as int),
{
    let mut r: Vec<char> = Vec::new();
    let mut i: usize = k;
    while i < v.len()
        invariant
            k <= i <= v@.len(),
            r@ == v@.subrange(k as int, i as int),
        decreases v@.len() - i,
    {
        r.push(v[i]);
        i += 1;
        proof {
            assert(r@ =~= v@.subrange(k as int, i as int));
        }
    }
    proof {
        assert(r@ =~= v@.skip(k as int));
    }
    r
}

/// Replace `from` by `to`, character by character.
fn chars_replace(v: &Vec<char>, from: char, to: char) -> (r: Vec<char>)
    ensures
        r@.len() == v@.len(),
        forall|j: int| 0 <= j < v@.len() ==> r@[j] == (if v@[j] == from {
            to
        } else {
            v@[j]
        }),
{
    let mut r: Vec<char> = Vec::new();
    let mut i: usize = 0;
    while i < v.len()
        invariant
            i <= v@.len(),
            r@.len() == i,
            forall|j: int| 0 <= j < i ==> r@[j] == (if v@[j] == from {
                to
            } else {
                v@[j]
            }),
        decreases v@.len() - i,
    {
        let c = v[i];
        if c == from {
            r.push(to);
        } else {
            r.push(c);
        }
        i += 1;
    }
    r
}

fn chars_skip_leading_slashes(v: &Vec<char>) -> (r: Vec<char>)
    ensures
        r@ == skip_leading_slashes(v@),
{
    let mut i: usize = 0;
    proof {
        assert(v@.skip(0) =~= v@);
    }
    while i < v.len() && v[i] == '/'
        invariant
            i <= v@.len(),
            skip_leading_slashes(v@.skip(i as int)) == skip_leading_slashes(v@),
        decreases v@.len() - i,
    {
        proof {
            assert(v@.skip(i as int)[0] == v@[i as int]);
            assert(v@.skip(i as int).skip(1) =~= v@.skip(i as int + 1));
        }
        i += 1;
    }
    proof {
        if i < v@.len() {
            assert(v@.skip(i as int)[0] == v@[i as int]);
        }
        assert(skip_leading_slashes(v@.skip(i as int)) == v@.skip(i as int));
    }
    chars_skip(v, i)
}

fn strip_extended_prefix(cs: Vec<char>) -> (r: Vec<char>)
    ensures
        r@ == strip_ext_prefix(cs@),
{
    if cs.len() >= 4 && cs[0] == '\\' && cs[1] == '\\' && cs[2] == '?' && cs[3] == '\\' {
        chars_skip(&cs, 4)
    } else {
        cs
    }
}

// ===== the translation functions =====

/// Convert a host drive-rooted path to the agent's mount form:
/// `C:\Users\foo` becomes `/mnt/c/Users/foo`, `\\?\C:\` becomes `/mnt/c`;
/// anything else is passed through with separators normalized.
pub fn win_to_wsl(path: &str) -> (r: String)
    ensures
        r@ == spec_win_to_wsl(path@),
{
    let cs = str_to_chars(path);
    let ghost orig = path@;
    let t = strip_extended_prefix(cs);
    if t.len() >= 2 && char_is_ascii(t[0]) && t[1] == ':' {
        let drive = to_lower_char(t[0]);
        let rest0 = chars_skip(&t, 2);
        let rest1 = chars_replace(&rest0, '\\', '/');
        proof {
            assert(rest1@ =~= norm_slashes(t@.skip(2)));
        }
        let rest = chars_skip_leading_slashes(&rest1);
        let mut out: Vec<char> = Vec::new();
        out.push('/');
        out.push('m');
        out.push('n');
        out.push('t');
        out.push('/');
        out.push(drive);
        if rest.len() == 0 {
            proof {
                assert(out@ =~= mount_prefix() + seq![lower_char(t@[0])]);
            }
        } else {
            out.push('/');
            chars_extend(&mut out, &rest);
            proof {
                assert(out@ =~= mount_prefix() + seq![lower_char(t@[0])] + seq!['/'] + rest@);
            }
        }
        chars_to_string(&out)
    } else {
        let mapped = chars_replace(&t, '\\', '/');
        proof {
            assert(mapped@ =~= norm_slashes(t@));
        }
        chars_to_string(&mapped)
    }
}

/// Convert an agent mount-rooted path back to the host's drive form:
/// `/mnt/c/Users/foo` becomes `C:\Users\foo`, `/mnt/c` becomes `C:\`;
/// anything else is passed through unchanged.
pub fn wsl_to_win(path: &str) -> (r: String)
    ensures
        r@ == spec_wsl_to_win(path@),
{
    let cs = str_to_chars(path);
    if cs.len() >= 5 && cs[0] == '/' && cs[1] == 'm' && cs[2] == 'n' && cs[3] == 't' && cs[4]
        == '/' {
        proof {
            assert(cs@.subrange(0, 5) =~= mount_prefix());
        }
        if cs.len() >= 6 && char_is_ascii(cs[5]) {
            let drive = to_upper_char(cs[5]);
            proof {
                assert(cs@.skip(5)[0] == cs@[5]);
                assert(cs@.skip(5).skip(1) =~= cs@.skip(6));
            }
            if cs.len() == 6 {
                let mut out: Vec<char> = Vec::new();
                out.push(drive);
                out.push(':');
                out.push('\\');
                proof {
                    assert(cs@.skip(6).len() == 0);
                    assert(out@ =~= seq![upper_char(cs@[5]), ':', '\\']);
                }
                chars_to_string(&out)
            } else if cs[6] == '/' {
                let suffix = chars_skip(&cs, 7);
                proof {
                    assert(cs@.skip(6)[0] == cs@[6]);
                    assert(cs@.skip(6).skip(1) =~= cs@.skip(7));
                }
                let back = chars_replace(&suffix, '/', '\\');
                proof {
                    assert(back@ =~= back_slashes(cs@.skip(7)));
                }
                let mut out: Vec<char> = Vec::new();
                out.push(drive);
                out.push(':');
                out.push('\\');
                if suffix.len() == 0 {
                    proof {
                        assert(out@ =~= seq![upper_char(cs@[5]), ':', '\\']);
                    }
                    chars_to_string(&out)
                } else {
                    chars_extend(&mut out, &back);
                    proof {
                        assert(out@ =~= seq![upper_char(cs@[5]), ':', '\\'] + back_slashes(
                            cs@.skip(7),
                        ));
                    }
                    chars_to_string(&out)
                }
            } else {
                proof {
                    assert(cs@.skip(6)[0] == cs@[6]);
                }
                path.to_owned()
            }
        } else {
            path.to_owned()
        }
    } else {
        proof {
            if path@.len() >= 5 && path@.subrange(0, 5) == mount_prefix() {
                assert(path@.subrange(0, 5)[0] == path@[0]);
                assert(path@.subrange(0, 5)[1] == path@[1]);
                assert(path@.subrange(0, 5)[2] == path@[2]);
                assert(path@.subrange(0, 5)[3] == path@[3]);
                assert(path@.subrange(0, 5)[4] == path@[4]);
            }
        }
        path.to_owned()
    }
}

/// Does the string look like a host drive-rooted path (extended-length
/// prefix stripped first)?
pub fn looks_like_windows_path(s: &str) -> (r: bool)
    ensures
        r == looks_like_windows_path_spec(s@),
{
    let cs = str_to_chars(s);
    let t = strip_extended_prefix(cs);
    t.len() >= 3 && char_is_ascii_letter(t[0]) && t[1] == ':' && (t[2] == '\\' || t[2] == '/')
}

/// Does the string look like an agent mount-rooted path?
pub fn looks_like_wsl_mount_path(s: &str) -> (r: bool)
    ensures
        r == looks_like_wsl_mount_path_spec(s@),
{
    let cs = str_to_chars(s);
    let r = cs.len() >= 6 && cs[0] == '/' && cs[1] == 'm' && cs[2] == 'n' && cs[3] == 't' && cs[4]
        == '/' && char_is_ascii_letter(cs[5]);
    proof {
        if r {
            assert(s@.subrange(0, 5) =~= mount_prefix());
        } else if s@.len() >= 6 && s@.subrange(0, 5) == mount_prefix() {
            assert(s@.subrange(0, 5)[0] == s@[0]);
            assert(s@.subrange(0, 5)[1] == s@[1]);
            assert(s@.subrange(0, 5)[2] == s@[2]);
            assert(s@.subrange(0, 5)[3] == s@[3]);
            assert(s@.subrange(0, 5)[4] == s@[4]);
        }
    }
    r
}

/// Rewrite one string leaf if the detector for `direction` fires; return it
/// unchanged otherwise.
pub fn translate_string(s: &str, direction: Direction) -> (r: String)
    ensures
        r@ == spec_translate_string(s@, direction),
{
    match direction {
        Direction::WinToWsl => {
            if looks_like_windows_path(s) {
                win_to_wsl(s)
            } else {
                s.to_owned()
            }
        },
        Direction::WslToWin => {
            if looks_like_wsl_mount_path(s) {
                wsl_to_win(s)
            } else {
                s.to_owned()
            }
        },
    }
}

// ===== round-trip laws =====

/// A host path rooted at a drive letter: `C:...`.
pub open spec fn drive_rooted(s: Seq<char>) -> bool {
    s.len() >= 2 && is_ascii_letter(s[0]) && s[1] == ':'
}

/// The canonical host form of a drive-rooted path: uppercase drive letter,
/// backslash separators, a single separator after the drive.
pub open spec fn canonical_host(s: Seq<char>) -> Seq<char> {
    let rest = skip_leading_slashes(norm_slashes(s.skip(2)));
    if rest.len() == 0 {
        seq![upper_char(s[0]), ':', '\\']
    } else {
        seq![upper_char(s[0]), ':', '\\'] + back_slashes(rest)
    }
}

/// A mount-rooted agent path in the form the agent-to-host translation
/// emits: `/mnt/` plus a lowercase drive letter, either alone or followed by
/// `/` and a nonempty, slash-normalized remainder.
pub open spec fn mount_rooted_canonical(s: Seq<char>) -> bool {
    s.len() >= 6 && s.subrange(0, 5) == mount_prefix() && is_ascii_letter(s[5]) && lower_char(
        s[5],
    ) == s[5] && (s.len() == 6 || (s[6] == '/' && s.len() >= 8 && s[7] != '/' && forall|i: int|
        7 <= i < s.len() ==> s[i] != '\\'))
}

proof fn lemma_upper_of_lower(c: char)
    requires
        is_ascii_letter(c),
    ensures
        is_ascii_char(lower_char(c)),
        is_ascii_letter(lower_char(c)),
        upper_char(lower_char(c)) == upper_char(c),
{
    if 65 <= (c as u32) && (c as u32) <= 90 {
        assert((c as u32 + 32) as char as u32 == c as u32 + 32);
    }
}

proof fn lemma_lower_of_upper(c: char)
    requires
        is_ascii_letter(c),
        lower_char(c) == c,
    ensures
        is_ascii_char(upper_char(c)),
        is_ascii_letter(upper_char(c)),
        lower_char(upper_char(c)) == c,
{
    assert(97 <= (c as u32) && (c as u32) <= 122);
    assert((c as u32 - 32) as char as u32 == c as u32 - 32);
    assert(((c as u32 - 32) as char as u32 + 32) as char == c);
}

/// Translating a drive-rooted host path to the agent namespace and back
/// yields the canonical form of the original path.
pub proof fn lemma_roundtrip_host(s: Seq<char>)
    requires
        drive_rooted(s),
    ensures
        spec_wsl_to_win(spec_win_to_wsl(s)) == canonical_host(s),
{
    assert(!has_ext_prefix(s));
    assert(is_drive_rooted(s));
    lemma_upper_of_lower(s[0]);
    let d = lower_char(s[0]);
    let rest = skip_leading_slashes(norm_slashes(s.skip(2)));
    let w = spec_win_to_wsl(s);
    if rest.len() == 0 {
        assert(w == mount_prefix() + seq![d]);
        assert(w.subrange(0, 5) =~= mount_prefix());
        assert(w.skip(5) =~= seq![d]);
        assert(w.skip(5).skip(1) =~= Seq::<char>::empty());
        assert(spec_wsl_to_win(w) == seq![upper_char(d), ':', '\\']);
        assert(spec_wsl_to_win(w) == canonical_host(s));
    } else {
        assert(w == mount_prefix() + seq![d] + seq!['/'] + rest);
        assert(w.subrange(0, 5) =~= mount_prefix());
        assert(w.skip(5) =~= seq![d] + seq!['/'] + rest);
        assert(w.skip(5)[0] == d);
        assert(w.skip(5).skip(1) =~= seq!['/'] + rest);
        assert((seq!['/'] + rest)[0] == '/');
        assert((seq!['/'] + rest).skip(1) =~= rest);
        assert(spec_wsl_to_win(w) == seq![upper_char(d), ':', '\\'] + back_slashes(rest));
        assert(spec_wsl_to_win(w) == canonical_host(s));
    }
}

/// Translating a canonical mount-rooted agent path to the host namespace and
/// back yields the original path unchanged.
pub proof fn lemma_roundtrip_agent(s: Seq<char>)
    requires
        mount_rooted_canonical(s),
    ensures
        spec_win_to_wsl(spec_wsl_to_win(s)) == s,
{
    let rest = s.skip(5);
    assert(rest[0] == s[5]);
    lemma_lower_of_upper(s[5]);
    let u = upper_char(s[5]);
    assert(rest.skip(1) =~= s.skip(6));
    if s.len() == 6 {
        assert(s.skip(6).len() == 0);
        let w = spec_wsl_to_win(s);
        assert(w == seq![u, ':', '\\']);
        assert(!has_ext_prefix(w));
        assert(is_drive_rooted(w));
        assert(w.skip(2) =~= seq!['\\']);
        assert(norm_slashes(w.skip(2)) =~= seq!['/']);
        assert(seq!['/'][0] == '/');
        assert(seq!['/'].skip(1) =~= Seq::<char>::empty());
        assert(skip_leading_slashes(Seq::<char>::empty()) =~= Seq::<char>::empty());
        assert(skip_leading_slashes(seq!['/']) =~= Seq::<char>::empty());
        assert(spec_win_to_wsl(w) == mount_prefix() + seq![s[5]]);
        assert(spec_win_to_wsl(w) =~= s);
    } else {
        assert(s.skip(6)[0] == s[6]);
        let suffix = s.skip(7);
        assert(s.skip(6).skip(1) =~= suffix);
        assert(suffix.len() >= 1);
        assert(suffix[0] == s[7]);
        assert(forall|i: int| 0 <= i < suffix.len() ==> suffix[i] == s[i + 7]);
        let w = spec_wsl_to_win(s);
        assert(w == seq![u, ':', '\\'] + back_slashes(suffix));
        assert(!has_ext_prefix(w));
        assert(is_drive_rooted(w));
        assert(w.skip(2) =~= seq!['\\'] + back_slashes(suffix));
        assert(norm_slashes(w.skip(2)) =~= seq!['/'] + suffix) by {
            let n = norm_slashes(w.skip(2));
            assert(n.len() == 1 + suffix.len());
            assert(n[0] == '/');
            assert forall|j: int| 0 <= j < suffix.len() implies n[j + 1] == suffix[j] by {
                assert(w.skip(2)[j + 1] == back_slashes(suffix)[j]);
                assert(suffix[j] != '\\');
            }
        }
        assert((seq!['/'] + suffix)[0] == '/');
        assert((seq!['/'] + suffix).skip(1) =~= suffix);
        assert(suffix[0] != '/');
        assert(skip_leading_slashes(suffix) == suffix);
        assert(skip_leading_slashes(seq!['/'] + suffix) == suffix);
        assert(skip_leading_slashes(norm_slashes(w.skip(2))) == suffix);
        assert(spec_win_to_wsl(w) == mount_prefix() + seq![s[5]] + seq!['/'] + suffix);
        assert(spec_win_to_wsl(w) =~= s);
    }
}

/// A UNC path (`\\server\...`, without the extended-length prefix) is only
/// separator-normalized, never rewritten to a mount form.
pub proof fn lemma_unc_path_not_mounted(s: Seq<char>)
    requires
        s.len() >= 2,
        s[0] == '\\',
        s[1] == '\\',
        !has_ext_prefix(s),
    ensures
        spec_win_to_wsl(s) == norm_slashes(s),
        !starts_with_spec(spec_win_to_wsl(s), mount_prefix()),
{
    assert(!is_drive_rooted(s));
    let n = norm_slashes(s);
    assert(n[1] == '/');
    if starts_with_spec(n, mount_prefix()) {
        assert(n.subrange(0, 5)[1] == n[1]);
    }
}

/// Translate an agent-provided path to the native filesystem namespace.
/// When the mediator bridges namespaces, this converts `/mnt/c/...` to
/// `C:\...`; otherwise the path is returned unchanged.  The bridging choice
/// is made once at startup, by platform, not per call.
pub fn to_native(path: &str, bridged: bool) -> (r: String)
    ensures
        bridged ==> r@ == spec_wsl_to_win(path@),
        !bridged ==> r@ == path@,
{
    if bridged {
        wsl_to_win(path)
    } else {
        path.to_owned()
    }
}

/// Translate a native filesystem path to the agent's namespace.
/// When the mediator bridges namespaces, this converts `C:\...` to
/// `/mnt/c/...`; otherwise the path is returned unchanged.
pub fn to_agent(path: &str, bridged: bool) -> (r: String)
    ensures
        bridged ==> r@ == spec_win_to_wsl(path@),
        !bridged ==> r@ == path@,
{
    if bridged {
        win_to_wsl(path)
    } else {
        path.to_owned()
    }
}

} // verus!
