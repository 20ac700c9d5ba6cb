//! Sessions and the session table.
//!
//! A session is one open file together with the port and process of the
//! backend that serves it. The table owns all sessions; the lifecycle
//! manager is its only client and touches it under one exclusion domain, so
//! the operations here are sequential and fully specified. The table's
//! invariant is that an identifier names at most one session.

use vstd::prelude::*;

verus! {

/// The mathematical content of a tracked session: identifier, served path
/// and bound port. The process handle is exec-only and carries no
/// specification; it is an exclusively owned capability that the table
/// stores and hands back exactly once, on removal.
pub ghost struct SessionModel {
    pub id: Seq<char>,
    pub path: Seq<char>,
    pub port: u16,
}

/// One open file and its backing backend process.
///
/// All fields are write-once: a session is built after a successful spawn
/// and never mutated; it leaves the table only to be killed. `handle` is
/// whatever capability the host uses to terminate the process.
pub struct Session<H> {
    pub id: String,
    pub path: String,
    pub port: u16,
    pub handle: H,
}

impl<H> View for Session<H> {
    type V = SessionModel;

    open spec fn view(&self) -> SessionModel {
        SessionModel { id: self.id@, path: self.path@, port: self.port }
    }
}

/// The lifecycle failure taxonomy.
///
/// `KillFailure` is deliberately never surfaced by the manager: a process
/// that cannot be killed (usually because it already exited) must not block
/// removal or the rest of a drain. `DuplicateId` is an internal-invariant
/// violation; the open protocol draws identifiers from a monotone counter,
/// which makes it provably unreachable there.
#[derive(Clone, Copy, Debug, PartialEq, Eq, Structural)]
pub enum LifecycleError {
    /// Port allocation failed at the OS level; the one open attempt aborts.
    ResourceExhaustion,
    /// The backend executable could not be spawned; no session is created.
    SpawnFailure,
    /// `close` named an identifier that no live session bears.
    NotFound,
    /// A termination request failed; logged by the host, never surfaced.
    KillFailure,
    /// An insert found its identifier already present.
    DuplicateId,
}

/// Some tracked session bears identifier `id`.
pub open spec fn has_id(m: Seq<SessionModel>, id: Seq<char>) -> bool {
    exists|i: int| 0 <= i < m.len() && m[i].id == id
}

/// Some tracked session serves `path`.
pub open spec fn has_path(m: Seq<SessionModel>, path: Seq<char>) -> bool {
    exists|i: int| 0 <= i < m.len() && m[i].path == path
}

/// `i` is the position of the first tracked session serving `path`.
pub open spec fn is_first_path_match(m: Seq<SessionModel>, path: Seq<char>, i: int) -> bool {
    &&& 0 <= i < m.len()
    &&& m[i].path == path
    &&& forall|j: int| 0 <= j < i ==> m[j].path != path
}

/// No two tracked sessions share an identifier.
pub open spec fn distinct_ids(m: Seq<SessionModel>) -> bool {
    forall|i: int, j: int| 0 <= i < j < m.len() ==> m[i].id != m[j].id
}

/// No two tracked sessions share a port.
pub open spec fn distinct_ports(m: Seq<SessionModel>) -> bool {
    forall|i: int, j: int| 0 <= i < j < m.len() ==> m[i].port != m[j].port
}

/// Some tracked session's backend is bound to `port`.
pub open spec fn uses_port(m: Seq<SessionModel>, port: u16) -> bool {
    exists|i: int| 0 <= i < m.len() && m[i].port == port
}

/// The table that owns all live sessions.
pub struct SessionTable<H> {
    entries: Vec<Session<H>>,
}

impl<H> SessionTable<H> {
    /// The table's contents, in table order.
    pub closed spec fn model(&self) -> Seq<SessionModel> {
        self.entries@.map_values(|s: Session<H>| s@)
    }

    /// Well-formed: an identifier names at most one session.
    pub open spec fn wf(&self) -> bool {
        distinct_ids(self.model())
    }

    pub fn new() -> (t: Self)
        ensures
            t.wf(),
            t.model() == Seq::<SessionModel>::empty(),
    {
        let t = SessionTable { entries: Vec::new() };
        proof {
            assert(t.model() =~= Seq::<SessionModel>::empty());
        }
        t
    }

    pub fn len(&self) -> (n: usize)
        ensures
            n == self.model().len(),
    {
        self.entries.len()
    }

    /// The session at position `i`.
    pub fn get(&self, i: usize) -> (s: &Session<H>)
        requires
            i < self.model().len(),
        ensures
            s@ == self.model()[i as int],
    {
        &self.entries[i]
    }

    /// The position of the first session serving `path`, if any.
    pub fn find_by_path(&self, path: &String) -> (r: Option<usize>)
        ensures
            match r {
                Some(i) => is_first_path_match(self.model(), path@, i as int),
                None => !has_path(self.model(), path@),
            },
    {
        let n = self.entries.len();
        let mut i: usize = 0;
        while i < n
            invariant
                n == self.entries.len(),
                i <= n,
                forall|j: int| 0 <= j < i ==> self.model()[j].path != path@,
            decreases n - i,
        {
            if self.entries[i].path == *path {
                return Some(i);
            }
            i = i + 1;
        }
        None
    }

    /// The position of the first session bearing `id`, if any.
    pub fn find_by_id(&self, id: &String) -> (r: Option<usize>)
        ensures
            match r {
                Some(i) => 0 <= i < self.model().len() && self.model()[i as int].id == id@,
                None => !has_id(self.model(), id@),
            },
    {
        let n = self.entries.len();
        let mut i: usize = 0;
        while i < n
            invariant
                n == self.entries.len(),
                i <= n,
                forall|j: int| 0 <= j < i ==> self.model()[j].id != id@,
            decreases n - i,
        {
            if self.entries[i].id == *id {
                return Some(i);
            }
            i = i + 1;
        }
        None
    }

    /// Inserts a session. Fails with `DuplicateId`, leaving the table
    /// unchanged, exactly when some tracked session already bears the same
    /// identifier.
    pub fn insert(&mut self, s: Session<H>) -> (r: Result<(), LifecycleError>)
        requires
            old(self).wf(),
        ensures
            final(self).wf(),
            match r {
                Ok(()) => !has_id(old(self).model(), s@.id) && final(self).model() == old(
                    self,
                ).model().push(s@),
                Err(e) => {
                    &&& e == LifecycleError::DuplicateId
                    &&& has_id(old(self).model(), s@.id)
                    &&& final(self).model() == old(self).model()
                },
            },
    {
        match self.find_by_id(&s.id) {
            Some(_) => Err(LifecycleError::DuplicateId),
            None => {
                let ghost m0 = self.model();
                let ghost sm = s@;
                self.entries.push(s);
                proof {
                    assert(self.model() =~= m0.push(sm));
                    assert forall|i: int, j: int|
                        0 <= i < j < self.model().len() implies self.model()[i].id
                        != self.model()[j].id by {
                        if j < m0.len() {
                        } else {
                            assert(self.model()[j] == sm);
                            assert(!has_id(m0, sm.id));
                            assert(self.model()[i] == m0[i]);
                        }
                    }
                }
                Ok(())
            },
        }
    }

    /// Removes and returns the session bearing `id`; `None`, with the table
    /// unchanged, exactly when no session bears it. Since identifiers are
    /// unique, a successful removal leaves no session with that identifier.
    pub fn remove_by_id(&mut self, id: &String) -> (r: Option<Session<H>>)
        requires
            old(self).wf(),
        ensures
            final(self).wf(),
            match r {
                Some(s) => {
                    &&& s@.id == id@
                    &&& exists|i: int|
                        {
                            &&& 0 <= i < old(self).model().len()
                            &&& old(self).model()[i] == s@
                            &&& final(self).model() == old(self).model().remove(i)
                        }
                    &&& !has_id(final(self).model(), id@)
                },
                None => !has_id(old(self).model(), id@) && final(self).model() == old(
                    self,
                ).model(),
            },
    {
        match self.find_by_id(id) {
            None => None,
            Some(i) => {
                let ghost m0 = self.model();
                let s = self.entries.remove(i);
                proof {
                    assert(self.model() =~= m0.remove(i as int));
                    assert forall|k: int|
                        0 <= k < self.model().len() implies self.model()[k].id != id@ by {
                        if k < i {
                            assert(self.model()[k] == m0[k]);
                        } else {
                            assert(self.model()[k] == m0[k + 1]);
                        }
                    }
                    assert(!has_id(self.model(), id@));
                    assert(0 <= i < m0.len() && m0[i as int] == s@ && self.model() == m0.remove(
                        i as int,
                    ));
                }
                Some(s)
            },
        }
    }

    /// Empties the table and returns all former entries, in table order,
    /// for cleanup outside the lock.
    pub fn drain(&mut self) -> (r: Vec<Session<H>>)
        ensures
            final(self).wf(),
            final(self).model() == Seq::<SessionModel>::empty(),
            r@.map_values(|s: Session<H>| s@) == old(self).model(),
    {
        let mut out: Vec<Session<H>> = Vec::new();
        core::mem::swap(&mut self.entries, &mut out);
        proof {
            assert(self.model() =~= Seq::<SessionModel>::empty());
            assert(out@.map_values(|s: Session<H>| s@) =~= old(self).model());
        }
        out
    }
}

/// Removing any entry preserves port distinctness.
pub proof fn lemma_distinct_ports_remove(m: Seq<SessionModel>, i: int)
    requires
        distinct_ports(m),
        0 <= i < m.len(),
    ensures
        distinct_ports(m.remove(i)),
{
    let m2 = m.remove(i);
    assert forall|a: int, b: int| 0 <= a < b < m2.len() implies m2[a].port != m2[b].port by {
        let oa: int = if a < i {
            a
        } else {
            a + 1
        };
        let ob: int = if b < i {
            b
        } else {
            b + 1
        };
        assert(m2[a] == m[oa]);
        assert(m2[b] == m[ob]);
    }
}

/// Appending a session whose port no tracked session uses preserves port
/// distinctness.
pub proof fn lemma_distinct_ports_push(m: Seq<SessionModel>, s: SessionModel)
    requires
        distinct_ports(m),
        !uses_port(m, s.port),
    ensures
        distinct_ports(m.push(s)),
{
    let m2 = m.push(s);
    assert forall|a: int, b: int| 0 <= a < b < m2.len() implies m2[a].port != m2[b].port by {
        if b < m.len() {
        } else {
            assert(m2[b] == s);
            assert(m2[a] == m[a]);
        }
    }
}

} // verus!
