//! The lifecycle manager: open, close, list and shutdown-all.
//!
//! The manager owns the session table and an identifier counter, and is
//! meant to live behind one exclusion domain of the host (a mutex): every
//! operation here is sequential and short, and the blocking work — port
//! binding, process spawn, process kill — happens outside it, in the host.
//!
//! Opening a file is a two-step protocol, so that the lock need not be held
//! across process startup:
//!
//! 1. [`Manager::open_existing`] looks the path up under the lock. A hit
//!    answers the open from the table (`already_open: true`) and nothing is
//!    spawned.
//! 2. On a miss the host releases the lock, allocates a port, spawns the
//!    backend, reacquires the lock and calls [`Manager::open_complete`]
//!    with the port and the process handle.
//!
//! Between the two steps another open of the same path may slip in; two
//! near-simultaneous opens of one path can then both spawn. That window is
//! accepted here, as a bounded and documented trade against serializing all
//! opens behind slow spawns; it never violates identifier uniqueness, which
//! is the table's invariant.

use crate::render::display_name;
use crate::render::display_name_of;
use crate::render::lemma_tab_id_injective;
use crate::render::tab_id_chars;
use crate::render::tab_id_string;
use crate::render::url_chars;
use crate::render::url_string;
use crate::session::LifecycleError;
use crate::session::Session;
use crate::session::SessionModel;
use crate::session::SessionTable;
use crate::session::distinct_ids;
use crate::session::distinct_ports;
use crate::session::has_id;
use crate::session::has_path;
use crate::session::is_first_path_match;
use crate::session::lemma_distinct_ports_push;
use crate::session::lemma_distinct_ports_remove;
use crate::session::uses_port;
use vstd::pervasive::unreached;
use vstd::prelude::*;

verus! {

/// A session model from its three plain parts.
pub open spec fn session_model(id: Seq<char>, path: Seq<char>, port: u16) -> SessionModel {
    SessionModel { id, path, port }
}

/// What an open returns to the UI: the identifier, the URL the view embeds,
/// the path, and whether the file was already open.
pub struct OpenOutcome {
    pub id: String,
    pub url: String,
    pub path: String,
    pub already_open: bool,
}

pub ghost struct OutcomeModel {
    pub id: Seq<char>,
    pub url: Seq<char>,
    pub path: Seq<char>,
    pub already_open: bool,
}

impl View for OpenOutcome {
    type V = OutcomeModel;

    open spec fn view(&self) -> OutcomeModel {
        OutcomeModel {
            id: self.id@,
            url: self.url@,
            path: self.path@,
            already_open: self.already_open,
        }
    }
}

/// The outcome that answers an open from session `s`.
pub open spec fn outcome_for(s: SessionModel, already_open: bool) -> OutcomeModel {
    OutcomeModel { id: s.id, url: url_chars(s.port), path: s.path, already_open }
}

/// One line of the tab list shown by the UI.
pub struct ListEntry {
    pub id: String,
    pub url: String,
    pub path: String,
    pub name: String,
}

pub ghost struct EntryModel {
    pub id: Seq<char>,
    pub url: Seq<char>,
    pub path: Seq<char>,
    pub name: Seq<char>,
}

impl View for ListEntry {
    type V = EntryModel;

    open spec fn view(&self) -> EntryModel {
        EntryModel { id: self.id@, url: self.url@, path: self.path@, name: self.name@ }
    }
}

/// The list entry for session `s`; the name is the path's final component.
pub open spec fn entry_for(s: SessionModel) -> EntryModel {
    EntryModel { id: s.id, url: url_chars(s.port), path: s.path, name: display_name_of(s.path) }
}

/// The session's identifier was produced by a counter value below `next`.
pub open spec fn id_from_counter(s: SessionModel, next: nat) -> bool {
    exists|k: nat| k < next && s.id == tab_id_chars(k)
}

/// Every tracked identifier was produced by a counter value below `next`.
pub open spec fn ids_from_counter(m: Seq<SessionModel>, next: nat) -> bool {
    forall|i: int| 0 <= i < m.len() ==> id_from_counter(#[trigger] m[i], next)
}

/// A bound that admits earlier identifiers admits later ones.
pub proof fn lemma_id_from_counter_widen(s: SessionModel, next: nat, wider: nat)
    requires
        id_from_counter(s, next),
        next <= wider,
    ensures
        id_from_counter(s, wider),
{
    let k = choose|k: nat| k < next && s.id == tab_id_chars(k);
    assert(k < wider && s.id == tab_id_chars(k));
}

/// The identifier for counter value `next` is fresh: no session whose
/// identifier came from an earlier counter value bears it.
pub proof fn lemma_fresh_id(m: Seq<SessionModel>, next: nat)
    requires
        ids_from_counter(m, next),
    ensures
        !has_id(m, tab_id_chars(next)),
{
    assert forall|i: int| 0 <= i < m.len() implies (#[trigger] m[i]).id != tab_id_chars(next) by {
        assert(id_from_counter(m[i], next));
        let k = choose|k: nat| k < next && m[i].id == tab_id_chars(k);
        if m[i].id == tab_id_chars(next) {
            lemma_tab_id_injective(k, next);
        }
    }
}

proof fn lemma_ids_from_counter_remove(m: Seq<SessionModel>, i: int, next: nat)
    requires
        ids_from_counter(m, next),
        0 <= i < m.len(),
    ensures
        ids_from_counter(m.remove(i), next),
{
    let m2 = m.remove(i);
    assert forall|a: int| 0 <= a < m2.len() implies id_from_counter(#[trigger] m2[a], next) by {
        let o: int = if a < i {
            a
        } else {
            a + 1
        };
        assert(m2[a] == m[o]);
        assert(id_from_counter(m[o], next));
    }
}

/// The lifecycle manager: the session table and the identifier counter,
/// composed under one exclusion domain of the host.
pub struct Manager<H> {
    table: SessionTable<H>,
    next_id: u32,
}

impl<H> Manager<H> {
    /// The tracked sessions, in table order.
    pub closed spec fn model(&self) -> Seq<SessionModel> {
        self.table.model()
    }

    /// The counter the next identifier will be drawn from.
    pub closed spec fn next_counter(&self) -> u32 {
        self.next_id
    }

    /// Well-formed: identifiers are unique and all were drawn from counter
    /// values below the current one, so the next identifier is fresh.
    pub open spec fn wf(&self) -> bool {
        &&& distinct_ids(self.model())
        &&& ids_from_counter(self.model(), self.next_counter() as nat)
    }

    /// A fresh manager: no sessions, counter at one, so the first session
    /// opened is `tab_1`.
    pub fn new() -> (m: Self)
        ensures
            m.wf(),
            m.model() == Seq::<SessionModel>::empty(),
            m.next_counter() == 1u32,
    {
        Manager { table: SessionTable::new(), next_id: 1 }
    }

    /// How many sessions are open.
    pub fn session_count(&self) -> (n: usize)
        ensures
            n == self.model().len(),
    {
        self.table.len()
    }

    /// Whether the identifier counter is exhausted; until it is,
    /// [`Manager::open_complete`] may be called.
    pub fn at_id_limit(&self) -> (b: bool)
        ensures
            b == (self.next_counter() == u32::MAX),
    {
        self.next_id == u32::MAX
    }

    /// First step of an open: answer from the table when `path` is already
    /// open. Returns the stored identifier and URL of the first session
    /// serving `path`, marked `already_open`; `None` exactly when no session
    /// serves `path`, in which case the host allocates a port, spawns the
    /// backend and calls [`Manager::open_complete`]. Never mutates state and
    /// never spawns a second process for an open path.
    pub fn open_existing(&self, path: &String) -> (r: Option<OpenOutcome>)
        ensures
            match r {
                Some(o) => has_path(self.model(), path@) && exists|i: int|
                    is_first_path_match(self.model(), path@, i) && o@ == outcome_for(
                        self.model()[i],
                        true,
                    ),
                None => !has_path(self.model(), path@),
            },
    {
        match self.table.find_by_path(path) {
            None => None,
            Some(i) => {
                let s = self.table.get(i);
                let o = OpenOutcome {
                    id: s.id.clone(),
                    url: url_string(s.port),
                    path: s.path.clone(),
                    already_open: true,
                };
                proof {
                    assert(is_first_path_match(self.model(), path@, i as int) && o@
                        == outcome_for(self.model()[i as int], true));
                }
                Some(o)
            },
        }
    }

    /// Second step of an open, after a successful spawn: draw a fresh
    /// identifier, record the session, and answer with `already_open:
    /// false`. Exactly one session is appended; its identifier comes from
    /// the old counter value, and the counter advances, so the identifier
    /// differs from that of every session ever tracked and is never reused.
    /// When the given port is not in use by a tracked session, port
    /// distinctness is preserved.
    ///
    /// Spawn and allocation failures are the host's: on those, this is
    /// never called and no session is created.
    pub fn open_complete(&mut self, path: String, port: u16, handle: H) -> (r: OpenOutcome)
        requires
            old(self).wf(),
            old(self).next_counter() < u32::MAX,
        ensures
            final(self).wf(),
            final(self).model() == old(self).model().push(
                session_model(tab_id_chars(old(self).next_counter() as nat), path@, port),
            ),
            final(self).next_counter() == old(self).next_counter() + 1,
            r@ == outcome_for(
                session_model(tab_id_chars(old(self).next_counter() as nat), path@, port),
                false,
            ),
            distinct_ports(old(self).model()) && !uses_port(old(self).model(), port)
                ==> distinct_ports(final(self).model()),
    {
        let ghost m0 = self.model();
        let ghost next0 = self.next_id as nat;
        let id = tab_id_string(self.next_id);
        let url = url_string(port);
        let sess = Session { id: id.clone(), path: path.clone(), port, handle };
        proof {
            lemma_fresh_id(m0, next0);
        }
        match self.table.insert(sess) {
            Err(_) => unreached(),
            Ok(()) => {
                self.next_id = self.next_id + 1;
                proof {
                    let m1 = self.model();
                    assert forall|i: int|
                        0 <= i < m1.len() implies id_from_counter(
                        #[trigger] m1[i],
                        self.next_id as nat,
                    ) by {
                        if i < m0.len() {
                            assert(m1[i] == m0[i]);
                            assert(id_from_counter(m0[i], next0));
                            lemma_id_from_counter_widen(m0[i], next0, self.next_id as nat);
                        } else {
                            assert(m1[i].id == tab_id_chars(next0));
                            assert(next0 < self.next_id as nat && m1[i].id == tab_id_chars(next0));
                        }
                    }
                    if distinct_ports(m0) && !uses_port(m0, port) {
                        lemma_distinct_ports_push(
                            m0,
                            session_model(tab_id_chars(next0), path@, port),
                        );
                    }
                }
                OpenOutcome { id, url, path, already_open: false }
            },
        }
    }

    /// Closes the session bearing `id` and hands it back so that the host
    /// can send its process a termination request; removal and kill form
    /// one logical step under the host's lock, and the kill outcome never
    /// affects the result (best effort). Fails with `NotFound`, leaving the
    /// state unchanged, exactly when no session bears `id`. A successful
    /// close leaves no session with that identifier, so an immediately
    /// repeated close of the same identifier fails with `NotFound`.
    pub fn close(&mut self, id: &String) -> (r: Result<Session<H>, LifecycleError>)
        requires
            old(self).wf(),
        ensures
            final(self).wf(),
            final(self).next_counter() == old(self).next_counter(),
            r is Ok <==> has_id(old(self).model(), id@),
            match r {
                Ok(s) => {
                    &&& s@.id == id@
                    &&& exists|i: int|
                        {
                            &&& 0 <= i < old(self).model().len()
                            &&& old(self).model()[i] == s@
                            &&& final(self).model() == old(self).model().remove(i)
                        }
                    &&& !has_id(final(self).model(), id@)
                },
                Err(e) => e == LifecycleError::NotFound && final(self).model() == old(
                    self,
                ).model(),
            },
            distinct_ports(old(self).model()) ==> distinct_ports(final(self).model()),
    {
        let ghost m0 = self.model();
        match self.table.remove_by_id(id) {
            None => Err(LifecycleError::NotFound),
            Some(s) => {
                proof {
                    let i = choose|i: int|
                        0 <= i < m0.len() && m0[i] == s@ && self.model() == m0.remove(i);
                    lemma_ids_from_counter_remove(m0, i, self.next_id as nat);
                    if distinct_ports(m0) {
                        lemma_distinct_ports_remove(m0, i);
                    }
                }
                Ok(s)
            },
        }
    }

    /// A snapshot of the open sessions for display: identifier, URL, path
    /// and display name, one entry per session, in table order. Read-only,
    /// and total: with zero open sessions it returns the empty list, never
    /// a failure.
    pub fn list(&self) -> (r: Vec<ListEntry>)
        ensures
            r@.len() == self.model().len(),
            forall|i: int| 0 <= i < r@.len() ==> r@[i]@ == entry_for(self.model()[i]),
    {
        let n = self.table.len();
        let mut out: Vec<ListEntry> = Vec::new();
        let mut i: usize = 0;
        while i < n
            invariant
                n == self.model().len(),
                i <= n,
                out@.len() == i,
                forall|k: int| 0 <= k < i ==> out@[k]@ == entry_for(self.model()[k]),
            decreases n - i,
        {
            let s = self.table.get(i);
            let e = ListEntry {
                id: s.id.clone(),
                url: url_string(s.port),
                path: s.path.clone(),
                name: display_name(&s.path),
            };
            out.push(e);
            i = i + 1;
        }
        out
    }

    /// Application teardown: empties the table and returns every tracked
    /// session, in table order, so that the host can send each process a
    /// termination request — best effort, one failed kill must not stop the
    /// rest. Safe with zero open sessions; afterwards the table is empty
    /// and [`Manager::list`] returns the empty list.
    pub fn shutdown_all(&mut self) -> (r: Vec<Session<H>>)
        requires
            old(self).wf(),
        ensures
            final(self).wf(),
            final(self).model() == Seq::<SessionModel>::empty(),
            final(self).next_counter() == old(self).next_counter(),
            r@.map_values(|s: Session<H>| s@) == old(self).model(),
    {
        self.table.drain()
    }
}

/// Law: the first-match lookup that answers a re-open is deterministic —
/// on one table state it can name only one session.
pub proof fn lemma_first_path_match_unique(m: Seq<SessionModel>, path: Seq<char>, i: int, j: int)
    requires
        is_first_path_match(m, path, i),
        is_first_path_match(m, path, j),
    ensures
        i == j,
{
}

/// Law: opening a path creates exactly one session for it, and every later
/// open of the same path is answered from the table with that session's
/// identifier and URL. Completing an open of a path that was not open
/// appends one session; any first-match lookup of the path in the new state
/// names precisely the appended session, so every open after the first
/// returns `already_open: true` with the identical identifier and URL, and
/// spawns nothing.
pub proof fn lemma_reopen_finds_created_session(m: Seq<SessionModel>, s: SessionModel)
    requires
        !has_path(m, s.path),
    ensures
        has_path(m.push(s), s.path),
        forall|i: int|
            is_first_path_match(m.push(s), s.path, i) ==> i == m.len() && m.push(s)[i] == s,
{
    let m2 = m.push(s);
    assert(m2[m.len() as int] == s);
    assert forall|j: int| 0 <= j < m.len() implies m2[j].path != s.path by {
        assert(m2[j] == m[j]);
    }
    assert(is_first_path_match(m2, s.path, m.len() as int));
    assert forall|i: int|
        is_first_path_match(m2, s.path, i) implies i == m.len() && m2[i] == s by {
        if i < m.len() {
            assert(m2[i] == m[i]);
            assert(has_path(m, s.path));
        }
    }
}

/// Law: two different live sessions never share an identifier, and — as
/// long as every port was unused when its open completed — never share a
/// port. Identifier distinctness is the manager's invariant; port
/// distinctness is preserved by every operation under that freshness
/// condition on the allocator.
pub proof fn lemma_no_shared_id_or_port(m: Seq<SessionModel>, i: int, j: int)
    requires
        distinct_ids(m),
        distinct_ports(m),
        0 <= i < m.len(),
        0 <= j < m.len(),
        i != j,
    ensures
        m[i].id != m[j].id,
        m[i].port != m[j].port,
{
}

/// Law: identifiers are never reused. Every identifier ever issued came
/// from a counter value below the current one, every later identifier
/// comes from the current value or above, and the counter never moves
/// backwards — so once a session is removed, its identifier can never be
/// assigned to a different session.
pub proof fn lemma_ids_never_reused(earlier: nat, later: nat)
    requires
        earlier < later,
    ensures
        tab_id_chars(earlier) != tab_id_chars(later),
{
    if tab_id_chars(earlier) == tab_id_chars(later) {
        lemma_tab_id_injective(earlier, later);
    }
}

/// Law: a close followed immediately by a close of the same identifier
/// cannot succeed twice. The first successful close removes the only
/// session bearing the identifier — identifiers are unique — so the second
/// close finds nothing and fails with `NotFound`.
pub proof fn lemma_close_twice(m: Seq<SessionModel>, id: Seq<char>, i: int)
    requires
        distinct_ids(m),
        0 <= i < m.len(),
        m[i].id == id,
    ensures
        !has_id(m.remove(i), id),
{
    let m2 = m.remove(i);
    assert forall|k: int| 0 <= k < m2.len() implies m2[k].id != id by {
        if k < i {
            assert(m2[k] == m[k]);
            assert(m[k].id != m[i].id);
        } else {
            assert(m2[k] == m[k + 1]);
            assert(m[i].id != m[k + 1].id);
        }
    }
}

} // verus!
