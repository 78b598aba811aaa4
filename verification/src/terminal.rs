//! The interactive-session table: one entry per live shell session, each
//! with its descriptor and its private append-only output buffer.
//!
//! Every structural decision of the session manager — lookup, creation,
//! descriptor updates, removal, output accumulation — is verified here over
//! plain values.  The runtime around it owns the pseudo-terminals and shell
//! processes: it allocates a PTY when an entry is created, pumps the shell's
//! output into [`TerminalManager::append_output`], writes the bytes returned
//! by [`TerminalManager::write`] to the input sink, and releases the OS
//! resources when an entry is removed.

use crate::hostenv::env_view;
use crate::strutil::{
    bytes_le, lemma_lex_le_antisymm, lemma_lex_le_refl, lemma_lex_le_total, lemma_lex_le_trans,
    lex_le, str_eq,
};
use vstd::prelude::*;
use vstd::string::StringSliceAdditionalSpecFns;

verus! {

/// The descriptor of one interactive session, as handed to the UI.
pub struct TerminalSession {
    /// The session's unique identifier.
    pub id: String,
    /// The working directory the shell was started in.
    pub cwd: String,
    /// The environment overlay the shell was started with.
    pub env: Vec<(String, String)>,
    /// Terminal width in columns.
    pub cols: u16,
    /// Terminal height in rows.
    pub rows: u16,
}

/// The mathematical value of a [`TerminalSession`].
pub struct TerminalSessionView {
    pub id: Seq<char>,
    pub cwd: Seq<char>,
    pub env: Seq<(Seq<char>, Seq<char>)>,
    pub cols: u16,
    pub rows: u16,
}

impl View for TerminalSession {
    type V = TerminalSessionView;

    open spec fn view(&self) -> TerminalSessionView {
        TerminalSessionView {
            id: self.id@,
            cwd: self.cwd@,
            env: crate::hostenv::env_view(self.env@),
            cols: self.cols,
            rows: self.rows,
        }
    }
}

/// The bytes a pair's key is ordered by.
pub open spec fn env_key_bytes(p: (Seq<char>, Seq<char>)) -> Seq<u8> {
    vstd::utf8::encode_utf8(p.0)
}

/// A sorted mapping: keys strictly ascending, so in particular unique.
pub open spec fn sorted_env(pairs: Seq<(Seq<char>, Seq<char>)>) -> bool {
    forall|i: int, j: int|
        #![trigger pairs[i], pairs[j]]
        0 <= i < j < pairs.len() ==> lex_le(env_key_bytes(pairs[i]), env_key_bytes(pairs[j]))
            && pairs[i].0 != pairs[j].0
}

/// Whether the mapping holds `k`.
pub open spec fn env_has(pairs: Seq<(Seq<char>, Seq<char>)>, k: Seq<char>) -> bool {
    exists|i: int| 0 <= i < pairs.len() && (#[trigger] pairs[i]).0 == k
}

/// The index of the pair with key `k`.
pub open spec fn env_idx(pairs: Seq<(Seq<char>, Seq<char>)>, k: Seq<char>) -> int {
    choose|i: int| 0 <= i < pairs.len() && (#[trigger] pairs[i]).0 == k
}

/// The value held under `k`.
pub open spec fn env_val(pairs: Seq<(Seq<char>, Seq<char>)>, k: Seq<char>) -> Seq<char> {
    pairs[env_idx(pairs, k)].1
}

/// The value of the last pair with key `k` — what building a mapping from
/// the pairs in order leaves behind.
pub open spec fn env_last(pairs: Seq<(Seq<char>, Seq<char>)>, k: Seq<char>) -> Option<Seq<char>>
    decreases pairs.len(),
{
    if pairs.len() == 0 {
        None
    } else if pairs.last().0 == k {
        Some(pairs.last().1)
    } else {
        env_last(pairs.drop_last(), k)
    }
}

/// In a sorted mapping, each pair's key designates exactly that pair.
proof fn lemma_env_at(pairs: Seq<(Seq<char>, Seq<char>)>, i: int)
    requires
        sorted_env(pairs),
        0 <= i < pairs.len(),
    ensures
        env_has(pairs, pairs[i].0),
        env_idx(pairs, pairs[i].0) == i,
        env_val(pairs, pairs[i].0) == pairs[i].1,
{
    let k = pairs[i].0;
    assert(env_has(pairs, k));
    let j = env_idx(pairs, k);
    assert(0 <= j < pairs.len() && pairs[j].0 == k);
    if j != i {
        assert(false);
    }
}

/// Copies an environment overlay.
fn clone_env(env: &Vec<(String, String)>) -> (r: Vec<(String, String)>)
    ensures
        r@ == env@,
{
    let mut r: Vec<(String, String)> = Vec::new();
    let mut i: usize = 0;
    while i < env.len()
        invariant
            0 <= i <= env@.len(),
            r@ == env@.subrange(0, i as int),
        decreases env@.len() - i,
    {
        let (k, v) = &env[i];
        r.push((k.clone(), v.clone()));
        proof {
            assert(r@ =~= env@.subrange(0, i + 1));
        }
        i += 1;
    }
    proof {
        assert(env@.subrange(0, env@.len() as int) =~= env@);
    }
    r
}

impl Clone for TerminalSession {
    fn clone(&self) -> (r: Self)
        ensures
            r@ == self@,
    {
        TerminalSession {
            id: self.id.clone(),
            cwd: self.cwd.clone(),
            env: clone_env(&self.env),
            cols: self.cols,
            rows: self.rows,
        }
    }
}

/// The error of every session operation on an identifier the table does not
/// hold.
#[derive(Debug)]
pub enum TerminalError {
    /// There is no session with this identifier.
    SessionNotFound { id: String },
}

impl TerminalError {
    /// The operator-facing description of the error.
    pub fn message(&self) -> (r: String)
        ensures
            self matches TerminalError::SessionNotFound { id } ==> r@ == "unknown terminal session "@
                + id@,
    {
        match self {
            TerminalError::SessionNotFound { id } => {
                let mut r = String::from_str("unknown terminal session ");
                r.append(id.as_str());
                r
            },
        }
    }
}

/// What `attach` hands back: the descriptor and the entire output captured
/// so far — not a delta; every consumer sees the same accumulated history.
pub struct AttachOutput {
    pub session: TerminalSession,
    pub output: Vec<u8>,
    pub byte_length: usize,
}

struct RunningSession {
    meta: TerminalSession,
    output: Vec<u8>,
}

/// The table of live interactive sessions, keyed by session identifier.
///
/// Identifiers are unique for the table's lifetime; removal is the only way
/// an entry leaves, and it leaves exactly once.
pub struct TerminalManager {
    sessions: Vec<RunningSession>,
}

impl TerminalManager {
    /// Whether the table holds a session with this identifier.
    pub closed spec fn has_session(self, id: Seq<char>) -> bool {
        exists|i: int| 0 <= i < self.sessions@.len() && self.sessions@[i].meta.id@ == id
    }

    /// The index of the entry with this identifier.
    closed spec fn idx_of(self, id: Seq<char>) -> int {
        choose|i: int| 0 <= i < self.sessions@.len() && self.sessions@[i].meta.id@ == id
    }

    /// The stored descriptor of the session with this identifier.
    pub closed spec fn meta_of(self, id: Seq<char>) -> TerminalSessionView {
        self.sessions@[self.idx_of(id)].meta@
    }

    /// The output captured so far for the session with this identifier.
    pub closed spec fn output_of(self, id: Seq<char>) -> Seq<u8> {
        self.sessions@[self.idx_of(id)].output@
    }

    /// How many sessions are live.
    pub closed spec fn session_count(self) -> nat {
        self.sessions@.len()
    }

    /// Internal invariant: identifiers are unique.
    pub closed spec fn wf(self) -> bool {
        forall|i: int, j: int|
            0 <= i < j < self.sessions@.len() ==> self.sessions@[i].meta.id@ != self.sessions@[
                j
            ].meta.id@
    }

    /// An empty table.
    pub fn new() -> (m: Self)
        ensures
            m.wf(),
            m.session_count() == 0,
            forall|id: Seq<char>| !m.has_session(id),
    {
        TerminalManager { sessions: Vec::new() }
    }

    /// The index of the entry with identifier `id`, if present.
    fn find(&self, id: &str) -> (r: Option<usize>)
        ensures
            match r {
                Some(i) => i < self.sessions@.len() && self.sessions@[i as int].meta.id@ == id@,
                None => !self.has_session(id@),
            },
    {
        let mut i: usize = 0;
        while i < self.sessions.len()
            invariant
                0 <= i <= self.sessions@.len(),
                forall|j: int| 0 <= j < i ==> self.sessions@[j].meta.id@ != id@,
            decreases self.sessions@.len() - i,
        {
            if crate::strutil::str_eq(self.sessions[i].meta.id.as_str(), id) {
                return Some(i);
            }
            i += 1;
        }
        None
    }

    /// Each entry's identifier designates exactly that entry.
    proof fn lemma_at_idx(self, i: int)
        requires
            self.wf(),
            0 <= i < self.sessions@.len(),
        ensures
            self.has_session(self.sessions@[i].meta.id@),
            self.idx_of(self.sessions@[i].meta.id@) == i,
            self.meta_of(self.sessions@[i].meta.id@) == self.sessions@[i].meta@,
            self.output_of(self.sessions@[i].meta.id@) == self.sessions@[i].output@,
    {
        let id = self.sessions@[i].meta.id@;
        assert(self.has_session(id));
        let j = self.idx_of(id);
        assert(0 <= j < self.sessions@.len() && self.sessions@[j].meta.id@ == id);
        if j != i {
            assert(false);
        }
    }

    /// Creates a session: assigns a fresh identifier, records the descriptor
    /// built from the given working directory, environment overlay — kept as
    /// a sorted mapping — and size, and starts its output buffer empty.  Every other session is untouched.
    /// The caller allocates the pseudo-terminal and shell for the returned
    /// descriptor.
    pub fn create(&mut self, cwd: String, env: Vec<(String, String)>, cols: u16, rows: u16) -> (s:
        TerminalSession)
        requires
            old(self).wf(),
        ensures
            final(self).wf(),
            s@.id.len() == 36,
            s@.cwd == cwd@,
            sorted_env(s@.env),
            forall|k: Seq<char>|
                env_has(s@.env, k) == (#[trigger] env_last(env_view(env@), k) is Some),
            forall|k: Seq<char>|
                env_has(s@.env, k) ==> #[trigger] env_last(env_view(env@), k) == Some(
                    env_val(s@.env, k),
                ),
            s@.cols == cols,
            s@.rows == rows,
            final(self).has_session(s@.id),
            final(self).meta_of(s@.id) == s@,
            final(self).output_of(s@.id) == Seq::<u8>::empty(),
            forall|x: Seq<char>|
                x != s@.id ==> final(self).has_session(x) == old(self).has_session(x),
            forall|x: Seq<char>|
                x != s@.id && old(self).has_session(x) ==> final(self).meta_of(x) == old(self).meta_of(x) && final(self).output_of(x) == old(self).output_of(x),
    {
        let id = new_session_id();
        let env = env_normalize(&env);
        let meta = TerminalSession { id, cwd, env, cols, rows };
        let s = meta.clone();
        let entry = RunningSession { meta, output: Vec::new() };
        let found = self.find(s.id.as_str());
        let ghost pre = *self;
        match found {
            Some(i) => {
                self.sessions.remove(i);
                self.sessions.insert(i, entry);
                proof {
                    assert(self.sessions@ =~= pre.sessions@.update(i as int, self.sessions@[
                        i as int
                    ]));
                    self.frame_after_update(pre, i as int);
                    self.lemma_at_idx(i as int);
                }
            },
            None => {
                self.sessions.push(entry);
                proof {
                    let n = pre.sessions@.len() as int;
                    assert forall|x: Seq<char>| x != s@.id implies self.has_session(x)
                        == pre.has_session(x) by {
                        if self.has_session(x) {
                            let j = choose|j: int|
                                0 <= j < self.sessions@.len() && self.sessions@[j].meta.id@ == x;
                            assert(j < n);
                            assert(pre.has_session(x));
                        }
                        if pre.has_session(x) {
                            let j = choose|j: int|
                                0 <= j < pre.sessions@.len() && pre.sessions@[j].meta.id@ == x;
                            assert(self.sessions@[j].meta.id@ == x);
                        }
                    }
                    assert forall|x: Seq<char>| x != s@.id && pre.has_session(x) implies self
                        .meta_of(x) == pre.meta_of(x) && self.output_of(x) == pre.output_of(x) by {
                        let j = self.idx_of(x);
                        let jp = pre.idx_of(x);
                        assert(pre.sessions@[jp].meta.id@ == x);
                        assert(self.sessions@[jp].meta.id@ == x);
                        assert(0 <= j < self.sessions@.len() && self.sessions@[j].meta.id@ == x);
                        assert(j < n);
                        if j != jp {
                            assert(false);
                        }
                    }
                    self.lemma_at_idx(n);
                }
            },
        }
        s
    }

    /// Two tables that differ in one entry, with the identifier kept, agree
    /// on every session but that one, and on which sessions exist at all.
    proof fn frame_after_update(self, pre: Self, i: int)
        requires
            pre.wf(),
            0 <= i < pre.sessions@.len(),
            self.sessions@ == pre.sessions@.update(i, self.sessions@[i]),
            self.sessions@[i].meta.id@ == pre.sessions@[i].meta.id@,
        ensures
            self.wf(),
            forall|x: Seq<char>| self.has_session(x) == pre.has_session(x),
            forall|x: Seq<char>|
                x != pre.sessions@[i].meta.id@ && pre.has_session(x) ==> self.meta_of(x)
                    == pre.meta_of(x) && self.output_of(x) == pre.output_of(x),
    {
        let id = pre.sessions@[i].meta.id@;
        assert forall|x: Seq<char>| self.has_session(x) == pre.has_session(x) by {
            if self.has_session(x) {
                let j = choose|j: int|
                    0 <= j < self.sessions@.len() && self.sessions@[j].meta.id@ == x;
                assert(pre.sessions@[j].meta.id@ == x);
            }
            if pre.has_session(x) {
                let j = choose|j: int|
                    0 <= j < pre.sessions@.len() && pre.sessions@[j].meta.id@ == x;
                assert(self.sessions@[j].meta.id@ == x);
            }
        }
        assert forall|x: Seq<char>|
            x != id && pre.has_session(x) implies self.meta_of(x) == pre.meta_of(x)
            && self.output_of(x) == pre.output_of(x) by {
            let j = self.idx_of(x);
            let jp = pre.idx_of(x);
            assert(pre.sessions@[jp].meta.id@ == x);
            assert(jp != i);
            assert(self.sessions@[jp].meta.id@ == x);
            assert(0 <= j < self.sessions@.len() && self.sessions@[j].meta.id@ == x);
            if j != jp {
                if j == i {
                    assert(self.sessions@[i].meta.id@ == id);
                    assert(false);
                }
                assert(pre.sessions@[j].meta.id@ == x);
                assert(false);
            }
        }
    }

    /// Returns the session's descriptor and the entire output captured so
    /// far, with its length; fails with session-not-found when the
    /// identifier is absent.
    pub fn attach(&self, id: &str) -> (r: Result<AttachOutput, TerminalError>)
        requires
            self.wf(),
        ensures
            r is Ok <==> self.has_session(id@),
            match r {
                Ok(a) => a.session@ == self.meta_of(id@) && a.output@ == self.output_of(id@)
                    && a.byte_length == self.output_of(id@).len(),
                Err(e) => e matches TerminalError::SessionNotFound { id: e_id } && e_id@ == id@,
            },
    {
        match self.find(id) {
            Some(i) => {
                proof {
                    self.lemma_at_idx(i as int);
                }
                let entry = &self.sessions[i];
                Ok(
                    AttachOutput {
                        session: entry.meta.clone(),
                        output: vstd::slice::slice_to_vec(entry.output.as_slice()),
                        byte_length: entry.output.len(),
                    },
                )
            },
            None => Err(TerminalError::SessionNotFound { id: id.to_owned() }),
        }
    }

    /// Resolves a write to the session's input sink: hands back the raw
    /// bytes of `text` for the caller to send, or fails with
    /// session-not-found.  The table itself is unchanged.
    pub fn write(&self, id: &str, text: &str) -> (r: Result<Vec<u8>, TerminalError>)
        requires
            self.wf(),
        ensures
            r is Ok <==> self.has_session(id@),
            match r {
                Ok(b) => b@ == text.spec_bytes(),
                Err(e) => e matches TerminalError::SessionNotFound { id: e_id } && e_id@ == id@,
            },
    {
        match self.find(id) {
            Some(_) => {
                proof {
                    let i = choose|i: int|
                        0 <= i < self.sessions@.len() && self.sessions@[i].meta.id@ == id@;
                }
                Ok(text.as_bytes_vec())
            },
            None => Err(TerminalError::SessionNotFound { id: id.to_owned() }),
        }
    }

    /// Updates the stored descriptor to the new size, so that a subsequent
    /// `attach` reports it; the caller applies the same size to the live
    /// pseudo-terminal.  Fails with session-not-found when the identifier is
    /// absent, and then changes nothing.
    pub fn resize(&mut self, id: &str, cols: u16, rows: u16) -> (r: Result<(), TerminalError>)
        requires
            old(self).wf(),
        ensures
            final(self).wf(),
            r is Ok <==> old(self).has_session(id@),
            forall|x: Seq<char>| final(self).has_session(x) == old(self).has_session(x),
            r is Ok ==> final(self).meta_of(id@) == (TerminalSessionView {
                cols,
                rows,
                ..old(self).meta_of(id@)
            }) && final(self).output_of(id@) == old(self).output_of(id@),
            forall|x: Seq<char>|
                x != id@ && old(self).has_session(x) ==> final(self).meta_of(x) == old(self).meta_of(x) && final(self).output_of(x) == old(self).output_of(x),
            r matches Err(e) ==> (e matches TerminalError::SessionNotFound { id: e_id } && e_id@
                == id@) && *final(self) == *old(self),
    {
        let found = self.find(id);
        let ghost pre = *self;
        match found {
            Some(i) => {
                proof {
                    pre.lemma_at_idx(i as int);
                }
                let mut entry = self.sessions.remove(i);
                entry.meta.cols = cols;
                entry.meta.rows = rows;
                self.sessions.insert(i, entry);
                proof {
                    assert(self.sessions@ =~= pre.sessions@.update(i as int, self.sessions@[
                        i as int
                    ]));
                    self.frame_after_update(pre, i as int);
                    self.lemma_at_idx(i as int);
                }
                Ok(())
            },
            None => Err(TerminalError::SessionNotFound { id: id.to_owned() }),
        }
    }

    /// Appends one chunk of the shell's output to the session's buffer, in
    /// arrival order; the buffer only ever grows.  When the session is gone
    /// the chunk is dropped and `false` comes back — the reader simply
    /// stops; it does not close the session.
    pub fn append_output(&mut self, id: &str, chunk: &[u8]) -> (appended: bool)
        requires
            old(self).wf(),
        ensures
            final(self).wf(),
            appended == old(self).has_session(id@),
            forall|x: Seq<char>| final(self).has_session(x) == old(self).has_session(x),
            appended ==> final(self).output_of(id@) == old(self).output_of(id@) + chunk@ && final(self).meta_of(id@) == old(self).meta_of(id@),
            forall|x: Seq<char>|
                x != id@ && old(self).has_session(x) ==> final(self).meta_of(x) == old(self).meta_of(x) && final(self).output_of(x) == old(self).output_of(x),
            !appended ==> *final(self) == *old(self),
    {
        let found = self.find(id);
        let ghost pre = *self;
        match found {
            Some(i) => {
                proof {
                    pre.lemma_at_idx(i as int);
                }
                let mut entry = self.sessions.remove(i);
                entry.output.extend_from_slice(chunk);
                self.sessions.insert(i, entry);
                proof {
                    assert(self.sessions@ =~= pre.sessions@.update(i as int, self.sessions@[
                        i as int
                    ]));
                    self.frame_after_update(pre, i as int);
                    self.lemma_at_idx(i as int);
                }
                true
            },
            None => false,
        }
    }

    /// Removes the session from the table; the caller then terminates its
    /// shell process.  Removal happens exactly once: a second close of the
    /// same identifier, like every operation on a closed session, fails with
    /// session-not-found.
    pub fn close(&mut self, id: &str) -> (r: Result<(), TerminalError>)
        requires
            old(self).wf(),
        ensures
            final(self).wf(),
            r is Ok <==> old(self).has_session(id@),
            !final(self).has_session(id@),
            forall|x: Seq<char>|
                x != id@ ==> final(self).has_session(x) == old(self).has_session(x),
            forall|x: Seq<char>|
                x != id@ && old(self).has_session(x) ==> final(self).meta_of(x) == old(self).meta_of(x) && final(self).output_of(x) == old(self).output_of(x),
            r is Ok ==> final(self).session_count() == old(self).session_count() - 1,
            r matches Err(e) ==> (e matches TerminalError::SessionNotFound { id: e_id } && e_id@
                == id@) && *final(self) == *old(self),
    {
        let found = self.find(id);
        let ghost pre = *self;
        match found {
            Some(i) => {
                self.sessions.remove(i);
                proof {
                    let n = self.sessions@.len() as int;
                    assert forall|x: Seq<char>| self.has_session(x) implies x != id@
                        && pre.has_session(x) by {
                        let j = choose|j: int|
                            0 <= j < self.sessions@.len() && self.sessions@[j].meta.id@ == x;
                        if j < i {
                            assert(pre.sessions@[j].meta.id@ == x);
                        } else {
                            assert(self.sessions@[j] == pre.sessions@[j + 1]);
                            assert(pre.sessions@[j + 1].meta.id@ == x);
                        }
                    }
                    assert forall|x: Seq<char>| x != id@ && pre.has_session(x) implies self
                        .has_session(x) by {
                        let j = choose|j: int|
                            0 <= j < pre.sessions@.len() && pre.sessions@[j].meta.id@ == x;
                        assert(pre.sessions@[i as int].meta.id@ == id@);
                        if j < i {
                            assert(self.sessions@[j].meta.id@ == x);
                        } else {
                            assert(j > i);
                            assert(self.sessions@[j - 1] == pre.sessions@[j]);
                            assert(self.sessions@[j - 1].meta.id@ == x);
                        }
                    }
                    assert forall|x: Seq<char>| x != id@ && pre.has_session(x) implies self.meta_of(
                        x,
                    ) == pre.meta_of(x) && self.output_of(x) == pre.output_of(x) by {
                        let j = self.idx_of(x);
                        let jp = pre.idx_of(x);
                        assert(pre.sessions@[jp].meta.id@ == x);
                        assert(0 <= j < self.sessions@.len() && self.sessions@[j].meta.id@ == x);
                        if j < i {
                            assert(self.sessions@[j] == pre.sessions@[j]);
                            if j != jp {
                                assert(false);
                            }
                        } else {
                            assert(self.sessions@[j] == pre.sessions@[j + 1]);
                            if j + 1 != jp {
                                assert(false);
                            }
                        }
                    }
                }
                Ok(())
            },
            None => Err(TerminalError::SessionNotFound { id: id.to_owned() }),
        }
    }
}

/// Places one pair into a sorted mapping: a pair with the same key is
/// replaced — the later value wins — and otherwise the pair enters at its
/// ordered position.
#[verifier::loop_isolation(false)]
fn insert_sorted(out: &mut Vec<(String, String)>, k: String, v: String)
    requires
        sorted_env(env_view(old(out)@)),
    ensures
        sorted_env(env_view(final(out)@)),
        env_has(env_view(final(out)@), k@),
        env_val(env_view(final(out)@), k@) == v@,
        forall|x: Seq<char>|
            x != k@ ==> env_has(env_view(final(out)@), x) == env_has(env_view(old(out)@), x),
        forall|x: Seq<char>|
            x != k@ && env_has(env_view(old(out)@), x) ==> env_val(env_view(final(out)@), x)
                == env_val(env_view(old(out)@), x),
{
    let ghost pre = env_view(out@);
    let ghost kb = vstd::utf8::encode_utf8(k@);
    let mut p: usize = 0;
    let mut found = false;
    while !found && p < out.len()
        invariant
            0 <= p <= out@.len(),
            forall|j: int| 0 <= j < p ==> !lex_le(kb, env_key_bytes(#[trigger] pre[j])),
            found ==> p < out@.len() && lex_le(kb, env_key_bytes(pre[p as int])),
        decreases out@.len() - p + (if found {
            0int
        } else {
            1int
        }),
    {
        proof {
            assert(pre[p as int] == (out@[p as int].0@, out@[p as int].1@));
        }
        if bytes_le(k.as_str().as_bytes(), out[p].0.as_str().as_bytes()) {
            found = true;
        } else {
            p += 1;
        }
    }
    proof {
        // Everything left of the insertion point orders strictly before `k`.
        assert forall|j: int| 0 <= j < p implies lex_le(env_key_bytes(pre[j]), kb) && pre[j].0
            != k@ by {
            lemma_lex_le_total(kb, env_key_bytes(pre[j]));
            if pre[j].0 == k@ {
                assert(env_key_bytes(pre[j]) == kb);
                lemma_lex_le_refl(kb);
            }
        }
    }
    let replace = if found {
        proof {
            assert(pre[p as int] == (out@[p as int].0@, out@[p as int].1@));
        }
        str_eq(out[p].0.as_str(), k.as_str())
    } else {
        false
    };
    if replace {
        out.remove(p);
        out.insert(p, (k, v));
        proof {
            let post = env_view(out@);
            assert(post =~= pre.update(p as int, (k@, v@)));
            assert(env_key_bytes(post[p as int]) == env_key_bytes(pre[p as int]));
            assert forall|i: int, j: int|
                #![trigger post[i], post[j]]
                0 <= i < j < post.len() implies lex_le(env_key_bytes(post[i]), env_key_bytes(
                post[j],
            )) && post[i].0 != post[j].0 by {
                assert(pre[i].0 != pre[j].0);
                if i == p {
                    assert(post[i].0 == pre[i].0);
                } else if j == p {
                    assert(post[j].0 == pre[j].0);
                }
            }
            lemma_env_at(post, p as int);
            assert forall|x: Seq<char>|
                x != k@ implies env_has(post, x) == env_has(pre, x) by {
                if env_has(post, x) {
                    let i = env_idx(post, x);
                    assert(pre[i].0 == x);
                }
                if env_has(pre, x) {
                    let i = env_idx(pre, x);
                    assert(0 <= i < pre.len() && pre[i].0 == x);
                    assert(i != p);
                    assert(post[i].0 == x);
                }
            }
            assert forall|x: Seq<char>|
                x != k@ && env_has(pre, x) implies env_val(post, x) == env_val(pre, x) by {
                let i = env_idx(pre, x);
                assert(0 <= i < pre.len() && pre[i].0 == x);
                assert(i != p);
                assert(post[i] == pre[i]);
                lemma_env_at(post, i);
                if env_idx(pre, x) != i {
                    assert(false);
                }
            }
        }
    } else {
        out.insert(p, (k, v));
        proof {
            let post = env_view(out@);
            assert(post =~= pre.insert(p as int, (k@, v@)));
            assert(post[p as int] == (k@, v@));
            assert forall|j: int| 0 <= j < post.len() && j != p implies post[j] == (if j < p {
                pre[j]
            } else {
                pre[j - 1]
            }) by {}
            // No pair to the right shares the key either.
            assert forall|j: int| p <= j < pre.len() implies pre[j].0 != k@ && lex_le(
                kb,
                env_key_bytes(pre[j]),
            ) by {
                assert(found ==> lex_le(kb, env_key_bytes(pre[p as int])));
                assert(p < pre.len() ==> found);
                if j > p {
                    lemma_lex_le_trans(kb, env_key_bytes(pre[p as int]), env_key_bytes(pre[j]));
                }
                if pre[j].0 == k@ {
                    assert(env_key_bytes(pre[j]) == kb);
                    lemma_lex_le_refl(kb);
                    lemma_lex_le_antisymm(kb, env_key_bytes(pre[p as int]));
                    assert(env_key_bytes(pre[p as int]) == kb);
                    vstd::utf8::encode_utf8_decode_utf8(pre[p as int].0);
                    vstd::utf8::encode_utf8_decode_utf8(k@);
                    assert(pre[p as int].0 == k@);
                    assert(false);
                }
            }
            assert forall|i: int, j: int|
                #![trigger post[i], post[j]]
                0 <= i < j < post.len() implies lex_le(env_key_bytes(post[i]), env_key_bytes(
                post[j],
            )) && post[i].0 != post[j].0 by {
                if i == p {
                    assert(post[j] == pre[j - 1]);
                } else if j == p {
                    assert(post[i] == pre[i]);
                } else if i < p && j > p {
                    assert(post[i] == pre[i]);
                    assert(post[j] == pre[j - 1]);
                    if i == j - 1 {
                        lemma_lex_le_trans(env_key_bytes(pre[i]), kb, env_key_bytes(pre[j - 1]));
                        if post[i].0 == post[j].0 {
                            assert(env_key_bytes(pre[i]) == env_key_bytes(pre[j - 1]));
                            lemma_lex_le_antisymm(kb, env_key_bytes(pre[i]));
                            assert(false);
                        }
                    }
                }
            }
            lemma_env_at(post, p as int);
            assert forall|x: Seq<char>|
                x != k@ implies env_has(post, x) == env_has(pre, x) by {
                if env_has(post, x) {
                    let i = env_idx(post, x);
                    if i < p {
                        assert(pre[i].0 == x);
                    } else {
                        assert(i > p);
                        assert(pre[i - 1].0 == x);
                    }
                }
                if env_has(pre, x) {
                    let i = env_idx(pre, x);
                    assert(0 <= i < pre.len() && pre[i].0 == x);
                    if i < p {
                        assert(post[i].0 == x);
                    } else {
                        assert(post[i + 1].0 == x);
                    }
                }
            }
            assert forall|x: Seq<char>|
                x != k@ && env_has(pre, x) implies env_val(post, x) == env_val(pre, x) by {
                let i = env_idx(pre, x);
                assert(0 <= i < pre.len() && pre[i].0 == x);
                if i < p {
                    assert(post[i] == pre[i]);
                    lemma_env_at(post, i);
                } else {
                    assert(post[i + 1] == pre[i]);
                    lemma_env_at(post, i + 1);
                }
            }
        }
    }
}

/// Builds the sorted mapping a list of pairs denotes: keys ascending and
/// unique, the last value of a repeated key winning.
#[verifier::loop_isolation(false)]
pub fn env_normalize(pairs: &Vec<(String, String)>) -> (r: Vec<(String, String)>)
    ensures
        sorted_env(env_view(r@)),
        forall|k: Seq<char>|
            env_has(env_view(r@), k) == (#[trigger] env_last(env_view(pairs@), k) is Some),
        forall|k: Seq<char>|
            env_has(env_view(r@), k) ==> #[trigger] env_last(env_view(pairs@), k) == Some(
                env_val(env_view(r@), k),
            ),
{
    let ghost full = env_view(pairs@);
    let mut r: Vec<(String, String)> = Vec::new();
    let mut i: usize = 0;
    proof {
        assert(env_view(r@) =~= Seq::<(Seq<char>, Seq<char>)>::empty());
        assert(full.subrange(0, 0) =~= Seq::<(Seq<char>, Seq<char>)>::empty());
    }
    while i < pairs.len()
        invariant
            0 <= i <= pairs@.len(),
            full == env_view(pairs@),
            sorted_env(env_view(r@)),
            forall|k: Seq<char>|
                env_has(env_view(r@), k) == (#[trigger] env_last(full.subrange(0, i as int), k)
                    is Some),
            forall|k: Seq<char>|
                env_has(env_view(r@), k) ==> #[trigger] env_last(full.subrange(0, i as int), k)
                    == Some(env_val(env_view(r@), k)),
        decreases pairs@.len() - i,
    {
        let (k, v) = &pairs[i];
        proof {
            assert(full[i as int] == (pairs@[i as int].0@, pairs@[i as int].1@));
        }
        insert_sorted(&mut r, k.clone(), v.clone());
        proof {
            let sub = full.subrange(0, i as int);
            let sub1 = full.subrange(0, i + 1);
            assert(sub1 =~= sub.push(full[i as int]));
            assert(sub1.drop_last() =~= sub);
            assert(sub1.last() == full[i as int]);
            assert forall|k2: Seq<char>| #[trigger]
                env_last(sub1, k2) == (if k2 == full[i as int].0 {
                    Some(full[i as int].1)
                } else {
                    env_last(sub, k2)
                }) by {}
        }
        i += 1;
    }
    proof {
        assert(full.subrange(0, full.len() as int) =~= full);
    }
    r
}

/// Relies on `uuid::Uuid::new_v4` and its `Display` rendering: a fresh
/// random version-4 UUID in the 36-character hyphenated lower-case form.
/// Nothing more is promised of a random value; in particular the table must
/// itself cope with an identifier it already holds.
#[verifier::external_body]
fn new_session_id() -> (r: String)
    ensures
        r@.len() == 36,
{
    uuid::Uuid::new_v4().to_string()
}

} // verus!
