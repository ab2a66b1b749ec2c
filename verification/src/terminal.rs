//! Terminal bookkeeping: sequential never-reused ids, per-terminal
//! accumulated output with a bounded buffer, and the spawn requests handed
//! to the process driver.
//!
//! Spawning, waiting for and killing child processes suspends, so those
//! effects live with the driver; it feeds captured output chunks back in
//! through `append_output` and asks the manager for spawn requests and id
//! validation, keeping every decision here verified.

use vstd::prelude::*;
use vstd::string::StrSliceExecFns;
use vstd::string::StringExecFns;
use vstd::string::StringSliceAdditionalSpecFns;
use vstd::utf8::{
    decode_utf8, encode_utf8, encode_utf8_decode_utf8, encode_utf8_valid_utf8, is_char_boundary,
    is_char_boundary_start_end_of_seq, decode_utf8_split, decode_utf8_encode_utf8, valid_utf8,
    valid_utf8_split,
};

use crate::text::{lemma_u64_digits_injective, spec_u64_digits, str_eq, u64_to_string};

verus! {

// ===== terminal ids =====

/// Identifies a managed terminal: `term-<n>`, with `n` allocated
/// sequentially by one manager and never reused.
#[derive(Debug, Clone, PartialEq, Eq, Hash)]
pub struct TerminalId(pub String);

/// The text of the id minted for counter value `n`.
pub open spec fn spec_term_text(n: int) -> Seq<char> {
    "term-"@ + spec_u64_digits(n)
}

impl View for TerminalId {
    type V = Seq<char>;

    open spec fn view(&self) -> Seq<char> {
        self.0@
    }
}

impl TerminalId {
    pub fn new(id: u64) -> (r: TerminalId)
        ensures
            r@ == spec_term_text(id as int),
    {
        let mut s = "term-".to_owned();
        let digits = u64_to_string(id);
        s.append(digits.as_str());
        proof {
            assert(s@ =~= spec_term_text(id as int));
        }
        TerminalId(s)
    }

    pub fn as_str<'a>(&'a self) -> (r: &'a str)
        ensures
            r@ == self@,
    {
        self.0.as_str()
    }
}

impl core::str::FromStr for TerminalId {
    type Err = core::convert::Infallible;

    fn from_str(s: &str) -> Result<TerminalId, core::convert::Infallible> {
        Ok(TerminalId(s.to_owned()))
    }
}

/// Ids minted for different counter values are different strings: an id,
/// once released, can never denote a later terminal.
pub proof fn lemma_term_ids_distinct(a: int, b: int)
    requires
        0 <= a,
        0 <= b,
        a != b,
    ensures
        spec_term_text(a) != spec_term_text(b),
{
    if spec_term_text(a) == spec_term_text(b) {
        let p = "term-"@;
        let da = spec_u64_digits(a);
        let db = spec_u64_digits(b);
        assert((p + da).len() == (p + db).len());
        assert forall|i: int| 0 <= i < da.len() implies da[i] == db[i] by {
            assert((p + da)[p.len() + i] == da[i]);
            assert((p + db)[p.len() + i] == db[i]);
        }
        assert(da =~= db);
        lemma_u64_digits_injective(a, b);
    }
}

// ===== shells =====

/// Which interactive command interpreter runs terminal commands, resolved
/// once per manager, most capable first.
#[derive(Debug, Clone, Copy, PartialEq, Eq, Structural)]
pub enum Shell {
    Pwsh,
    PowerShell,
    Cmd,
}

pub open spec fn spec_shell_program(s: Shell) -> Seq<char> {
    match s {
        Shell::Pwsh => "pwsh"@,
        Shell::PowerShell => "powershell"@,
        Shell::Cmd => "cmd.exe"@,
    }
}

pub open spec fn spec_shell_flag(s: Shell) -> Seq<char> {
    match s {
        Shell::Pwsh => "-Command"@,
        Shell::PowerShell => "-Command"@,
        Shell::Cmd => "/C"@,
    }
}

impl Shell {
    /// The interpreter's program name.
    pub fn program<'a>(&'a self) -> (r: &'a str)
        ensures
            r@ == spec_shell_program(*self),
    {
        match self {
            Shell::Pwsh => "pwsh",
            Shell::PowerShell => "powershell",
            Shell::Cmd => "cmd.exe",
        }
    }

    /// The flag that makes the interpreter run one command string.
    pub fn command_flag<'a>(&'a self) -> (r: &'a str)
        ensures
            r@ == spec_shell_flag(*self),
    {
        match self {
            Shell::Pwsh => "-Command",
            Shell::PowerShell => "-Command",
            Shell::Cmd => "/C",
        }
    }
}

// ===== the bounded output buffer =====

/// Maximum accumulated output per terminal; older output is truncated.
pub const MAX_ACCUMULATED_OUTPUT: usize = 1024 * 1024;

/// The marker that replaces discarded output.
pub open spec fn marker_view() -> Seq<char> {
    "[output truncated]\n"@
}

pub open spec fn marker_bytes() -> Seq<u8> {
    encode_utf8(marker_view())
}

/// The smallest character boundary at or after `i`.
pub open spec fn ceil_char_boundary_spec(bytes: Seq<u8>, i: int) -> int
    decreases bytes.len() - i,
{
    if i < 0 {
        0
    } else if i >= bytes.len() {
        bytes.len() as int
    } else if is_char_boundary(bytes, i) {
        i
    } else {
        ceil_char_boundary_spec(bytes, i + 1)
    }
}

/// What capping does to the buffer's bytes: nothing while within `max`;
/// otherwise the marker followed by the most recent bytes that fit beside
/// it, the cut advanced to the next character boundary.
pub open spec fn spec_cap_output(b: Seq<u8>, max: int) -> Seq<u8> {
    if b.len() <= max {
        b
    } else {
        let mlen = marker_bytes().len() as int;
        let tail = if max >= mlen {
            max - mlen
        } else {
            0
        };
        let cut = ceil_char_boundary_spec(b, b.len() - tail);
        marker_bytes() + b.skip(cut)
    }
}

proof fn lemma_encode_utf8_concat(a: Seq<char>, b: Seq<char>)
    ensures
        encode_utf8(a + b) == encode_utf8(a) + encode_utf8(b),
    decreases a.len(),
{
    if a.len() == 0 {
        assert(a + b =~= b);
        assert(encode_utf8(a) + encode_utf8(b) =~= encode_utf8(b));
    } else {
        assert((a + b)[0] == a[0]);
        assert((a + b).drop_first() =~= a.drop_first() + b);
        lemma_encode_utf8_concat(a.drop_first(), b);
        assert(encode_utf8(a + b) =~= encode_utf8(a) + encode_utf8(b));
    }
}

/// Cap a buffer to `max_len` bytes, keeping the most recent content and
/// prepending the truncation marker when content is trimmed.  The cut point
/// is advanced to a character boundary, so the result is always valid text;
/// when `max_len` is at least the marker's length the result fits in
/// `max_len` bytes.
pub fn cap_output(buf: &mut String, max_len: usize)
    ensures
        encode_utf8(final(buf)@) == spec_cap_output(encode_utf8(old(buf)@), max_len as int),
        encode_utf8(old(buf)@).len() <= max_len ==> final(buf)@ == old(buf)@,
        (encode_utf8(old(buf)@).len() > max_len && marker_bytes().len() <= max_len)
            ==> encode_utf8(final(buf)@).len() <= max_len,
        encode_utf8(old(buf)@).len() > max_len ==> (exists|k: int|
            0 <= k <= old(buf)@.len() && final(buf)@ == marker_view() + old(buf)@.skip(k)),
{
    proof {
        encode_utf8_valid_utf8(old(buf)@);
    }
    let s0 = buf.as_str();
    let blen = s0.as_bytes().len();
    proof {
        assert(s0.spec_bytes() == encode_utf8(buf@));
    }
    if blen <= max_len {
        return;
    }
    let marker = "[output truncated]\n";
    proof {
        assert(marker@ == marker_view());
    }
    let mlen = marker.as_bytes().len();
    proof {
        assert(mlen == marker_bytes().len());
    }
    let tail: usize = if max_len >= mlen {
        max_len - mlen
    } else {
        0
    };
    let start: usize = blen - tail;
    let ghost bytes = encode_utf8(old(buf)@);
    let mut cut: usize = start;
    proof {
        is_char_boundary_start_end_of_seq(bytes);
    }
    while !buf.as_str().is_char_boundary(cut)
        invariant
            buf == old(buf),
            bytes == encode_utf8(buf@),
            valid_utf8(bytes),
            blen == bytes.len(),
            start <= cut <= blen,
            is_char_boundary(bytes, blen as int),
            ceil_char_boundary_spec(bytes, cut as int) == ceil_char_boundary_spec(
                bytes,
                start as int,
            ),
        decreases blen - cut,
    {
        proof {
            if cut == blen {
                assert(is_char_boundary(bytes, cut as int));
            }
        }
        cut += 1;
    }
    proof {
        assert(ceil_char_boundary_spec(bytes, cut as int) == cut as int);
        assert(ceil_char_boundary_spec(bytes, start as int) == cut as int);
    }
    let pieces = buf.as_str().split_at(cut);
    let post = pieces.1;
    let mut out = marker.to_owned();
    out.append(post);
    proof {
        valid_utf8_split(bytes, cut as int);
        decode_utf8_split(bytes, cut as int);
        encode_utf8_decode_utf8(old(buf)@);
        let pre_bytes = bytes.subrange(0, cut as int);
        let post_bytes = bytes.subrange(cut as int, bytes.len() as int);
        // the characters of the suffix piece
        decode_utf8_encode_utf8(post_bytes);
        assert(encode_utf8(post@) == post_bytes);
        encode_utf8_decode_utf8(post@);
        assert(post@ == decode_utf8(post_bytes));
        // byte-level shape of the result
        lemma_encode_utf8_concat(marker@, post@);
        assert(encode_utf8(out@) == marker_bytes() + encode_utf8(post@));
        assert(bytes.skip(cut as int) =~= post_bytes);
        // character-level shape: the suffix of the old characters
        let k = decode_utf8(pre_bytes).len() as int;
        assert(old(buf)@ == decode_utf8(pre_bytes) + decode_utf8(post_bytes));
        assert(0 <= k <= old(buf)@.len());
        assert(old(buf)@.skip(k) =~= decode_utf8(post_bytes));
        assert(out@ == marker_view() + old(buf)@.skip(k));
        assert(encode_utf8(out@) == spec_cap_output(bytes, max_len as int));
    }
    *buf = out;
}

// ===== the manager =====

/// Failure of a terminal operation.
#[derive(Debug, Clone)]
pub enum TerminalError {
    /// The id names no live terminal: never created, or already released.
    UnknownId { id: String },
}

impl TerminalError {
    /// A human-readable description of the failure.
    pub fn message(&self) -> (r: String)
        ensures
            (match self {
                TerminalError::UnknownId { id } => r@ == "Unknown terminal: "@ + id@,
            }),
    {
        match self {
            TerminalError::UnknownId { id } => {
                let mut m = "Unknown terminal: ".to_owned();
                m.append(id.as_str());
                m
            },
        }
    }
}

/// What the process driver must spawn for a new terminal: the resolved
/// shell's program, its one-command flag, and the command string, with stdin
/// closed and both output streams captured.
#[derive(Debug, Clone)]
pub struct SpawnRequest {
    pub program: String,
    pub flag: String,
    pub command: String,
}

/// One live terminal's bookkeeping: its id and the accumulated output that
/// has not been served yet.
#[derive(Debug)]
pub struct TerminalEntry {
    pub id: TerminalId,
    pub buffer: String,
}

/// Whether some live entry carries this id.
pub open spec fn spec_has_id(entries: Seq<TerminalEntry>, id: Seq<char>) -> bool {
    exists|i: int| 0 <= i < entries.len() && (#[trigger] entries[i]).id@ == id
}

/// Tracks live terminals.  Ids are `term-<n>` with `n` counted up from zero
/// and never reused, even after a release; operations on an unknown or
/// released id always fail.
#[derive(Debug)]
pub struct TerminalManager {
    pub shell: Shell,
    pub terminals: Vec<TerminalEntry>,
    pub next_id: u64,
}

impl TerminalManager {
    /// Every live id was minted from an earlier counter value, and live ids
    /// are pairwise distinct.
    pub open spec fn wf(&self) -> bool {
        &&& (forall|i: int|
            0 <= i < self.terminals@.len() ==> exists|k: int|
                0 <= k < self.next_id && (#[trigger] self.terminals@[i]).id@ == spec_term_text(k))
        &&& (forall|i: int, j: int|
            0 <= i < j < self.terminals@.len() ==> (#[trigger] self.terminals@[i]).id@ != (
            #[trigger] self.terminals@[j]).id@)
    }

    /// A manager for the given resolved shell, with no terminals yet.
    pub fn new(shell: Shell) -> (r: TerminalManager)
        ensures
            r.wf(),
            r.shell == shell,
            r.terminals@.len() == 0,
            r.next_id == 0,
    {
        TerminalManager { shell, terminals: Vec::new(), next_id: 0 }
    }

    fn find(&self, id: &TerminalId) -> (r: Option<usize>)
        ensures
            (match r {
                Some(i) => i < self.terminals@.len() && self.terminals@[i as int].id@ == id@,
                None => !spec_has_id(self.terminals@, id@),
            }),
    {
        let mut i: usize = 0;
        while i < self.terminals.len()
            invariant
                i <= self.terminals@.len(),
                forall|j: int| 0 <= j < i ==> (#[trigger] self.terminals@[j]).id@ != id@,
            decreases self.terminals@.len() - i,
        {
            if str_eq(self.terminals[i].id.as_str(), id.as_str()) {
                return Some(i);
            }
            i += 1;
        }
        None
    }

    /// Whether this id names a live terminal; the driver checks it before
    /// waiting on or killing a process.
    pub fn contains(&self, id: &TerminalId) -> (r: bool)
        ensures
            r == spec_has_id(self.terminals@, id@),
    {
        match self.find(id) {
            Some(i) => {
                proof {
                    assert(spec_has_id(self.terminals@, id@)) by {
                        assert(self.terminals@[i as int].id@ == id@);
                    }
                }
                true
            },
            None => false,
        }
    }

    /// Allocate the next sequential id, register the terminal with an empty
    /// buffer, and return the spawn request for the driver.  The id is fresh:
    /// no live terminal carries it, and no released terminal ever did.
    pub fn create_terminal(&mut self, command: &str) -> (r: (TerminalId, SpawnRequest))
        requires
            old(self).wf(),
            old(self).next_id < u64::MAX,
        ensures
            final(self).wf(),
            final(self).shell == old(self).shell,
            final(self).next_id == old(self).next_id + 1,
            r.0@ == spec_term_text(old(self).next_id as int),
            !spec_has_id(old(self).terminals@, r.0@),
            final(self).terminals@.len() == old(self).terminals@.len() + 1,
            forall|i: int|
                0 <= i < old(self).terminals@.len() ==> final(self).terminals@[i] == old(self).terminals@[i],
            final(self).terminals@[old(self).terminals@.len() as int].id@ == r.0@,
            final(self).terminals@[old(self).terminals@.len() as int].buffer@
                == Seq::<char>::empty(),
            r.1.program@ == spec_shell_program(old(self).shell),
            r.1.flag@ == spec_shell_flag(old(self).shell),
            r.1.command@ == command@,
    {
        let id = TerminalId::new(self.next_id);
        let ghost n0 = self.next_id as int;
        proof {
            assert forall|i: int|
                0 <= i < self.terminals@.len() implies (#[trigger] self.terminals@[i]).id@
                != id@ by {
                let k = choose|k: int|
                    0 <= k < self.next_id && self.terminals@[i].id@ == spec_term_text(k);
                lemma_term_ids_distinct(k, n0);
            }
        }
        self.next_id = self.next_id + 1;
        let entry_id = TerminalId(id.0.clone());
        self.terminals.push(TerminalEntry { id: entry_id, buffer: String::new() });
        let program = self.shell.program().to_owned();
        let flag = self.shell.command_flag().to_owned();
        let cmd = command.to_owned();
        (id, SpawnRequest { program, flag, command: cmd })
    }

    /// Append a captured output chunk to a terminal's accumulated buffer;
    /// fails on an unknown id and changes nothing then.
    pub fn append_output(&mut self, id: &TerminalId, chunk: &str) -> (r: Result<
        (),
        TerminalError,
    >)
        requires
            old(self).wf(),
        ensures
            final(self).wf(),
            final(self).shell == old(self).shell,
            final(self).next_id == old(self).next_id,
            r is Ok <==> spec_has_id(old(self).terminals@, id@),
            r is Err ==> *final(self) == *old(self),
            r is Err ==> (match r {
                Result::Err(TerminalError::UnknownId { id: eid }) => eid@ == id@,
                _ => false,
            }),
            r is Ok ==> (exists|i: int|
                0 <= i < old(self).terminals@.len() && (#[trigger] old(self).terminals@[i]).id@ == id@ && final(self).terminals@.len() == old(self).terminals@.len() && final(self).terminals@[i].id == old(self).terminals@[i].id
                    && final(self).terminals@[i].buffer@ == old(self).terminals@[i].buffer@
                    + chunk@ && (forall|j: int|
                    0 <= j < old(self).terminals@.len() && j != i ==> final(self).terminals@[j]
                        == old(self).terminals@[j])),
    {
        match self.find(id) {
            None => Err(TerminalError::UnknownId { id: id.0.clone() }),
            Some(i) => {
                let ghost entries0 = self.terminals@;
                let mut entry = self.terminals.remove(i);
                entry.buffer.append(chunk);
                self.terminals.insert(i, entry);
                proof {
                    assert forall|j: int|
                        0 <= j < entries0.len() && j != i implies self.terminals@[j] == entries0[j]
                    by {
                        if j < i {
                            assert(self.terminals@[j] == entries0[j]);
                        } else {
                            assert(self.terminals@[j] == entries0[j]);
                        }
                    }
                    assert(self.terminals@[i as int].id == entries0[i as int].id);
                    assert(self.terminals@[i as int].buffer@ == entries0[i as int].buffer@
                        + chunk@);
                    assert(self.terminals@.len() == entries0.len());
                }
                Ok(())
            },
        }
    }

    /// Serve and clear a terminal's accumulated output: the buffer, capped
    /// to the bounded size, is returned and the stored buffer becomes empty.
    /// Each call yields only what arrived since the previous one.  Fails on
    /// an unknown id and changes nothing then.
    pub fn get_output(&mut self, id: &TerminalId) -> (r: Result<String, TerminalError>)
        requires
            old(self).wf(),
        ensures
            final(self).wf(),
            final(self).shell == old(self).shell,
            final(self).next_id == old(self).next_id,
            r is Ok <==> spec_has_id(old(self).terminals@, id@),
            r is Err ==> *final(self) == *old(self),
            r is Err ==> (match r {
                Result::Err(TerminalError::UnknownId { id: eid }) => eid@ == id@,
                _ => false,
            }),
            r is Ok ==> (exists|i: int|
                0 <= i < old(self).terminals@.len() && (#[trigger] old(self).terminals@[i]).id@ == id@ && final(self).terminals@.len() == old(self).terminals@.len() && final(self).terminals@[i].id == old(self).terminals@[i].id
                    && final(self).terminals@[i].buffer@ == Seq::<char>::empty() && encode_utf8(
                    (match r {
                        Result::Ok(out) => out@,
                        _ => Seq::<char>::empty(),
                    }),
                ) == spec_cap_output(
                    encode_utf8(old(self).terminals@[i].buffer@),
                    MAX_ACCUMULATED_OUTPUT as int,
                ) && (forall|j: int|
                    0 <= j < old(self).terminals@.len() && j != i ==> final(self).terminals@[j]
                        == old(self).terminals@[j])),
    {
        match self.find(id) {
            None => Err(TerminalError::UnknownId { id: id.0.clone() }),
            Some(i) => {
                let ghost entries0 = self.terminals@;
                let entry = self.terminals.remove(i);
                let TerminalEntry { id: eid, buffer: mut served } = entry;
                cap_output(&mut served, MAX_ACCUMULATED_OUTPUT);
                self.terminals.insert(i, TerminalEntry { id: eid, buffer: String::new() });
                proof {
                    assert forall|j: int|
                        0 <= j < entries0.len() && j != i implies self.terminals@[j] == entries0[j]
                    by {
                        if j < i {
                            assert(self.terminals@[j] == entries0[j]);
                        } else {
                            assert(self.terminals@[j] == entries0[j]);
                        }
                    }
                    assert(self.terminals@[i as int].id == entries0[i as int].id);
                    assert(self.terminals@.len() == entries0.len());
                }
                Ok(served)
            },
        }
    }

    /// Remove a terminal's bookkeeping; its id never comes back.  Fails on
    /// an unknown id and changes nothing then.
    pub fn release(&mut self, id: &TerminalId) -> (r: Result<(), TerminalError>)
        requires
            old(self).wf(),
        ensures
            final(self).wf(),
            final(self).shell == old(self).shell,
            final(self).next_id == old(self).next_id,
            r is Ok <==> spec_has_id(old(self).terminals@, id@),
            r is Err ==> *final(self) == *old(self),
            r is Err ==> (match r {
                Result::Err(TerminalError::UnknownId { id: eid }) => eid@ == id@,
                _ => false,
            }),
            r is Ok ==> (exists|i: int|
                0 <= i < old(self).terminals@.len() && (#[trigger] old(self).terminals@[i]).id@ == id@ && final(self).terminals@ == old(self).terminals@.remove(i)),
            r is Ok ==> !spec_has_id(final(self).terminals@, id@),
    {
        match self.find(id) {
            None => Err(TerminalError::UnknownId { id: id.0.clone() }),
            Some(i) => {
                let ghost entries0 = self.terminals@;
                self.terminals.remove(i);
                proof {
                    assert forall|j: int|
                        0 <= j < self.terminals@.len() implies (#[trigger] self.terminals@[j]).id@
                        != id@ by {
                        if j < i {
                            assert(self.terminals@[j] == entries0[j]);
                            assert(entries0[j].id@ != entries0[i as int].id@);
                        } else {
                            assert(self.terminals@[j] == entries0[j + 1]);
                            assert(entries0[i as int].id@ != entries0[j + 1].id@);
                        }
                    }
                }
                Ok(())
            },
        }
    }
}

} // verus!
