//! The table of open sessions.  Each session stands under its own id, at most
//! once, and only sessions whose GDB has shown its prompt are let in; a session
//! registered under an id that is already taken replaces the one there.
use vstd::prelude::*;

use crate::error::GdbError;
use crate::path::normalized_path;
use crate::session::{opt_view, SessionState};

verus! {

/// The id an entry stands under: the id of its session.
pub open spec fn key_of<T>(e: (SessionState, T)) -> Seq<char> {
    e.0.id@
}

/// Whether some entry of `es` stands under the id `k`.
pub open spec fn has_id<T>(es: Seq<(SessionState, T)>, k: Seq<char>) -> bool {
    exists|i: int| 0 <= i < es.len() && key_of(#[trigger] es[i]) == k
}

/// No two entries of `es` share an id.
pub open spec fn distinct_ids<T>(es: Seq<(SessionState, T)>) -> bool {
    forall|i: int, j: int|
        0 <= i < es.len() && 0 <= j < es.len() && i != j ==> key_of(#[trigger] es[i]) != key_of(
            #[trigger] es[j],
        )
}

/// The entries as a map from id to entry.
pub open spec fn map_of<T>(es: Seq<(SessionState, T)>) -> Map<Seq<char>, (SessionState, T)> {
    Map::new(
        |k: Seq<char>| has_id(es, k),
        |k: Seq<char>| es[choose|i: int| 0 <= i < es.len() && key_of(#[trigger] es[i]) == k],
    )
}

/// Every session in `sessions` stands under its own id and is ready.
pub open spec fn registered_ready<T>(sessions: Map<Seq<char>, (SessionState, T)>) -> bool {
    forall|k: Seq<char>| #[trigger]
        sessions.contains_key(k) ==> sessions[k].0.id@ == k && sessions[k].0.ready
}

proof fn lemma_map_of_at<T>(es: Seq<(SessionState, T)>, i: int)
    requires
        distinct_ids(es),
        0 <= i < es.len(),
    ensures
        map_of(es).contains_key(key_of(es[i])),
        map_of(es)[key_of(es[i])] == es[i],
{
    let k = key_of(es[i]);
    assert(has_id(es, k));
    let j = choose|j: int| 0 <= j < es.len() && key_of(#[trigger] es[j]) == k;
    assert(j == i);
}

proof fn lemma_registered_ready<T>(es: Seq<(SessionState, T)>)
    requires
        distinct_ids(es),
        forall|i: int| 0 <= i < es.len() ==> (#[trigger] es[i]).0.ready,
    ensures
        registered_ready(map_of(es)),
{
    assert forall|k: Seq<char>| #[trigger] map_of(es).contains_key(k) implies map_of(es)[k].0.id@
        == k && map_of(es)[k].0.ready by {
        let i = choose|i: int| 0 <= i < es.len() && key_of(#[trigger] es[i]) == k;
        lemma_map_of_at(es, i);
    }
}

/// Replacing the entry at `i` by one under the same id.
proof fn lemma_update_same_key<T>(es: Seq<(SessionState, T)>, i: int, e: (SessionState, T))
    requires
        distinct_ids(es),
        0 <= i < es.len(),
        key_of(e) == key_of(es[i]),
    ensures
        distinct_ids(es.update(i, e)),
        map_of(es.update(i, e)) == map_of(es).insert(key_of(e), e),
{
    let es2 = es.update(i, e);
    let k = key_of(e);
    assert forall|a: int, b: int|
        0 <= a < es2.len() && 0 <= b < es2.len() && a != b implies key_of(#[trigger] es2[a])
        != key_of(#[trigger] es2[b]) by {
        assert(key_of(es[a]) != key_of(es[b]));
    }
    lemma_map_of_at(es2, i);
    assert forall|q: Seq<char>| has_id(es2, q) <==> (has_id(es, q) || q == k) by {
        if has_id(es2, q) {
            let j = choose|j: int| 0 <= j < es2.len() && key_of(#[trigger] es2[j]) == q;
            if j != i {
                assert(es[j] == es2[j]);
            }
        }
        if has_id(es, q) {
            let j = choose|j: int| 0 <= j < es.len() && key_of(#[trigger] es[j]) == q;
            assert(key_of(es2[j]) == q);
        }
    }
    assert forall|q: Seq<char>| has_id(es2, q) && q != k implies map_of(es2)[q] == map_of(es)[q] by {
        let j = choose|j: int| 0 <= j < es2.len() && key_of(#[trigger] es2[j]) == q;
        assert(j != i);
        assert(es[j] == es2[j]);
        lemma_map_of_at(es2, j);
        lemma_map_of_at(es, j);
    }
    assert(map_of(es2) =~= map_of(es).insert(k, e));
}

/// Adding an entry under a new id.
proof fn lemma_push_new<T>(es: Seq<(SessionState, T)>, e: (SessionState, T))
    requires
        distinct_ids(es),
        !has_id(es, key_of(e)),
    ensures
        distinct_ids(es.push(e)),
        map_of(es.push(e)) == map_of(es).insert(key_of(e), e),
{
    let es2 = es.push(e);
    let k = key_of(e);
    let last = es.len() as int;
    assert forall|a: int, b: int|
        0 <= a < es2.len() && 0 <= b < es2.len() && a != b implies key_of(#[trigger] es2[a])
        != key_of(#[trigger] es2[b]) by {
        if a < last && b < last {
            assert(es[a] == es2[a] && es[b] == es2[b]);
        } else if a < last {
            assert(es[a] == es2[a]);
        } else {
            assert(es[b] == es2[b]);
        }
    }
    lemma_map_of_at(es2, last);
    assert forall|q: Seq<char>| has_id(es2, q) <==> (has_id(es, q) || q == k) by {
        if has_id(es2, q) {
            let j = choose|j: int| 0 <= j < es2.len() && key_of(#[trigger] es2[j]) == q;
            if j != last {
                assert(es[j] == es2[j]);
            }
        }
        if has_id(es, q) {
            let j = choose|j: int| 0 <= j < es.len() && key_of(#[trigger] es[j]) == q;
            assert(key_of(es2[j]) == q);
        }
    }
    assert forall|q: Seq<char>| has_id(es2, q) && q != k implies map_of(es2)[q] == map_of(es)[q] by {
        let j = choose|j: int| 0 <= j < es2.len() && key_of(#[trigger] es2[j]) == q;
        assert(j != last);
        assert(es[j] == es2[j]);
        lemma_map_of_at(es2, j);
        lemma_map_of_at(es, j);
    }
    assert(map_of(es2) =~= map_of(es).insert(k, e));
}

/// Taking out the entry at `i`.
proof fn lemma_remove_at<T>(es: Seq<(SessionState, T)>, i: int)
    requires
        distinct_ids(es),
        0 <= i < es.len(),
    ensures
        distinct_ids(es.remove(i)),
        map_of(es.remove(i)) == map_of(es).remove(key_of(es[i])),
{
    let es2 = es.remove(i);
    let k = key_of(es[i]);
    assert forall|a: int, b: int|
        0 <= a < es2.len() && 0 <= b < es2.len() && a != b implies key_of(#[trigger] es2[a])
        != key_of(#[trigger] es2[b]) by {
        let a0 = if a < i {
            a
        } else {
            a + 1
        };
        let b0 = if b < i {
            b
        } else {
            b + 1
        };
        assert(es2[a] == es[a0] && es2[b] == es[b0]);
    }
    assert forall|q: Seq<char>| has_id(es2, q) <==> (has_id(es, q) && q != k) by {
        if has_id(es2, q) {
            let j = choose|j: int| 0 <= j < es2.len() && key_of(#[trigger] es2[j]) == q;
            let j0 = if j < i {
                j
            } else {
                j + 1
            };
            assert(es2[j] == es[j0]);
            assert(j0 != i);
        }
        if has_id(es, q) && q != k {
            let j = choose|j: int| 0 <= j < es.len() && key_of(#[trigger] es[j]) == q;
            assert(j != i);
            let j2 = if j < i {
                j
            } else {
                j - 1
            };
            assert(es2[j2] == es[j]);
        }
    }
    assert forall|q: Seq<char>| has_id(es2, q) implies map_of(es2)[q] == map_of(es)[q] by {
        let j = choose|j: int| 0 <= j < es2.len() && key_of(#[trigger] es2[j]) == q;
        let j0 = if j < i {
            j
        } else {
            j + 1
        };
        assert(es2[j] == es[j0]);
        lemma_map_of_at(es2, j);
        lemma_map_of_at(es, j0);
    }
    assert(map_of(es2) =~= map_of(es).remove(k));
}

/// The open sessions, each under its own id, in the order they were
/// registered.  Besides the state of a session, the table holds a handle `T`
/// to its GDB process.
pub struct SessionRegistry<T> {
    entries: Vec<(SessionState, T)>,
}

impl<T> View for SessionRegistry<T> {
    type V = Map<Seq<char>, (SessionState, T)>;

    /// The sessions by id: the state and the handle of each.
    closed spec fn view(&self) -> Map<Seq<char>, (SessionState, T)> {
        map_of(self.entries@)
    }
}

impl<T> SessionRegistry<T> {
    #[verifier::type_invariant]
    spec fn ids_distinct_and_ready(&self) -> bool {
        &&& distinct_ids(self.entries@)
        &&& forall|i: int| 0 <= i < self.entries@.len() ==> (#[trigger] self.entries@[i]).0.ready
    }

    /// The ids, in the order the sessions were registered.
    pub closed spec fn ids(&self) -> Seq<Seq<char>> {
        self.entries@.map_values(|e: (SessionState, T)| key_of(e))
    }

    /// No session is open.
    pub fn new() -> (r: SessionRegistry<T>)
        ensures
            r.view() == Map::<Seq<char>, (SessionState, T)>::empty(),
            r.ids() == Seq::<Seq<char>>::empty(),
            registered_ready(r.view()),
    {
        let r = SessionRegistry { entries: Vec::new() };
        assert(r.view() =~= Map::<Seq<char>, (SessionState, T)>::empty());
        assert(r.ids() =~= Seq::<Seq<char>>::empty());
        r
    }

    /// The number of open sessions.  The ids and the sessions correspond one
    /// to one, and every session stands under its own id and is ready.
    pub fn len(&self) -> (n: usize)
        ensures
            n == self.ids().len(),
            forall|i: int, j: int|
                0 <= i < self.ids().len() && 0 <= j < self.ids().len() && i != j
                    ==> #[trigger] self.ids()[i] != #[trigger] self.ids()[j],
            forall|k: Seq<char>| #[trigger] self.view().contains_key(k) <==> self.ids().contains(k),
            registered_ready(self.view()),
    {
        proof {
            use_type_invariant(self);
            lemma_registered_ready(self.entries@);
            let es = self.entries@;
            assert forall|i: int, j: int|
                0 <= i < self.ids().len() && 0 <= j < self.ids().len() && i != j
                    implies #[trigger] self.ids()[i] != #[trigger] self.ids()[j] by {
                assert(key_of(es[i]) != key_of(es[j]));
            }
            assert forall|k: Seq<char>| #[trigger] self.view().contains_key(k) <==> self.ids().contains(k) by {
                if self.view().contains_key(k) {
                    let i = choose|i: int| 0 <= i < es.len() && key_of(#[trigger] es[i]) == k;
                    assert(self.ids()[i] == k);
                }
                if self.ids().contains(k) {
                    let i = choose|i: int| 0 <= i < self.ids().len() && self.ids()[i] == k;
                    assert(key_of(es[i]) == k);
                    assert(has_id(es, k));
                }
            }
        }
        self.entries.len()
    }

    /// Where `id` stands among the entries.
    fn position(&self, id: &String) -> (r: Option<usize>)
        ensures
            match r {
                Some(i) => i < self.entries@.len() && key_of(self.entries@[i as int]) == id@,
                None => !has_id(self.entries@, id@),
            },
    {
        let mut i: usize = 0;
        while i < self.entries.len()
            invariant
                i <= self.entries@.len(),
                forall|j: int| 0 <= j < i ==> key_of(#[trigger] self.entries@[j]) != id@,
            decreases self.entries@.len() - i,
        {
            if self.entries[i].0.id == *id {
                return Some(i);
            }
            i = i + 1;
        }
        None
    }

    /// Registers a session under its id; a session already registered under
    /// that id is dropped.  A session that is not ready is refused, and the
    /// table stays as it was.
    pub fn register(&mut self, state: SessionState, session: T) -> (r: Result<(), GdbError>)
        ensures
            registered_ready(final(self).view()),
            state.ready ==> r is Ok && final(self).view() == old(self).view().insert(
                state.id@,
                (state, session),
            ),
            state.ready && old(self).view().contains_key(state.id@) ==> final(self).ids()
                == old(self).ids(),
            state.ready && !old(self).view().contains_key(state.id@) ==> final(self).ids()
                == old(self).ids().push(state.id@),
            !state.ready ==> r == Err::<(), GdbError>(GdbError::GdbNotReady) && final(self).view()
                == old(self).view() && final(self).ids() == old(self).ids(),
    {
        proof {
            use_type_invariant(&*self);
            lemma_registered_ready(self.entries@);
        }
        if !state.ready {
            return Err(GdbError::GdbNotReady);
        }
        let ghost es = self.entries@;
        let ghost e = (state, session);
        let pos = self.position(&state.id);
        let mut entries: Vec<(SessionState, T)> = Vec::new();
        std::mem::swap(&mut entries, &mut self.entries);
        match pos {
            Some(i) => {
                proof {
                    lemma_update_same_key(es, i as int, e);
                }
                entries.set(i, (state, session));
                assert(entries@ == es.update(i as int, e));
                self.entries = entries;
                assert(self.ids() =~= old(self).ids());
            },
            None => {
                proof {
                    lemma_push_new(es, e);
                }
                entries.push((state, session));
                assert(entries@ == es.push(e));
                self.entries = entries;
                assert(self.ids() =~= old(self).ids().push(key_of(e)));
            },
        }
        proof {
            lemma_registered_ready(self.entries@);
        }
        Ok(())
    }

    /// The session registered under `id`, if any.
    pub fn get(&self, id: &String) -> (r: Option<(&SessionState, &T)>)
        ensures
            match r {
                Some((s, h)) => self.view().contains_key(id@) && (*s, *h) == self.view()[id@]
                    && s.id@ == id@ && s.ready,
                None => !self.view().contains_key(id@),
            },
    {
        proof {
            use_type_invariant(self);
        }
        match self.position(id) {
            Some(i) => {
                proof {
                    lemma_map_of_at(self.entries@, i as int);
                }
                let e = &self.entries[i];
                Some((&e.0, &e.1))
            },
            None => None,
        }
    }

    /// The session registered under `id`, or the error that no such session
    /// is open.
    pub fn lookup(&self, id: &String) -> (r: Result<(&SessionState, &T), GdbError>)
        ensures
            match r {
                Ok((s, h)) => self.view().contains_key(id@) && (*s, *h) == self.view()[id@]
                    && s.id@ == id@ && s.ready,
                Err(e) => !self.view().contains_key(id@) && (e matches GdbError::SessionNotFound(
                    missing,
                ) && missing@ == id@),
            },
    {
        match self.get(id) {
            Some(found) => Ok(found),
            None => Err(GdbError::SessionNotFound(id.clone())),
        }
    }

    /// Takes the session registered under `id` out of the table.
    pub fn remove(&mut self, id: &String) -> (r: Option<(SessionState, T)>)
        ensures
            final(self).view() == old(self).view().remove(id@),
            registered_ready(final(self).view()),
            match r {
                Some(e) => old(self).view().contains_key(id@) && e == old(self).view()[id@],
                None => !old(self).view().contains_key(id@),
            },
    {
        proof {
            use_type_invariant(&*self);
        }
        let ghost es = self.entries@;
        match self.position(id) {
            Some(i) => {
                proof {
                    lemma_map_of_at(es, i as int);
                    lemma_remove_at(es, i as int);
                }
                let mut entries: Vec<(SessionState, T)> = Vec::new();
                std::mem::swap(&mut entries, &mut self.entries);
                let e = entries.remove(i);
                assert(entries@ == es.remove(i as int));
                self.entries = entries;
                proof {
                    lemma_registered_ready(self.entries@);
                }
                Some(e)
            },
            None => {
                assert(map_of(es) =~= map_of(es).remove(id@));
                proof {
                    lemma_registered_ready(self.entries@);
                }
                None
            },
        }
    }

    /// Records `program` as the target of the session `id`, by its path
    /// normalized against the session's working directory, and returns that
    /// path; the error when no such session is open.
    pub fn load_program(&mut self, id: &String, program: &str) -> (r: Result<String, GdbError>)
        ensures
            registered_ready(final(self).view()),
            final(self).ids() == old(self).ids(),
            match r {
                Ok(p) => {
                    &&& old(self).view().contains_key(id@)
                    &&& p@ == normalized_path(program@, opt_view(old(self).view()[id@].0.working_dir))
                    &&& final(self).view() == old(self).view().insert(id@, final(self).view()[id@])
                    &&& opt_view(final(self).view()[id@].0.target) == Some(p@)
                    &&& final(self).view()[id@].0.id == old(self).view()[id@].0.id
                    &&& final(self).view()[id@].0.ready == old(self).view()[id@].0.ready
                    &&& final(self).view()[id@].0.working_dir == old(self).view()[id@].0.working_dir
                    &&& final(self).view()[id@].1 == old(self).view()[id@].1
                },
                Err(e) => !old(self).view().contains_key(id@) && final(self).view() == old(
                    self,
                ).view() && (e matches GdbError::SessionNotFound(missing) && missing@ == id@),
            },
    {
        proof {
            use_type_invariant(&*self);
            lemma_registered_ready(self.entries@);
        }
        let ghost es = self.entries@;
        match self.position(id) {
            Some(i) => {
                proof {
                    lemma_map_of_at(es, i as int);
                }
                let mut entries: Vec<(SessionState, T)> = Vec::new();
                std::mem::swap(&mut entries, &mut self.entries);
                let (mut state, session) = entries.remove(i);
                let p = state.load_program(program);
                let ghost e = (state, session);
                proof {
                    lemma_update_same_key(es, i as int, e);
                }
                entries.insert(i, (state, session));
                assert(entries@ =~= es.update(i as int, e));
                self.entries = entries;
                proof {
                    lemma_map_of_at(self.entries@, i as int);
                    lemma_registered_ready(self.entries@);
                }
                assert(self.ids() =~= old(self).ids());
                Ok(p)
            },
            None => Err(GdbError::SessionNotFound(id.clone())),
        }
    }

    /// The session at `index`, in the order of registration.
    pub fn entry(&self, index: usize) -> (r: (&SessionState, &T))
        requires
            index < self.ids().len(),
        ensures
            r.0.id@ == self.ids()[index as int],
            self.view().contains_key(r.0.id@),
            (*r.0, *r.1) == self.view()[r.0.id@],
            r.0.ready,
    {
        proof {
            use_type_invariant(self);
            lemma_map_of_at(self.entries@, index as int);
        }
        let e = &self.entries[index];
        (&e.0, &e.1)
    }
}

/// Looking up a session finds what was last registered under its id, and
/// registering under one id leaves the sessions under the other ids as they
/// were.
pub proof fn law_lookup_after_insert<V>(sessions: Map<Seq<char>, V>, id: Seq<char>, session: V, other: Seq<char>)
    requires
        other != id,
    ensures
        sessions.insert(id, session).contains_key(id),
        sessions.insert(id, session)[id] == session,
        sessions.insert(id, session).contains_key(other) == sessions.contains_key(other),
        sessions.contains_key(other) ==> sessions.insert(id, session)[other] == sessions[other],
{
}

/// Once a session is removed, it can no longer be looked up, and the other
/// sessions stay.
pub proof fn law_lookup_after_remove<V>(sessions: Map<Seq<char>, V>, id: Seq<char>, other: Seq<char>)
    requires
        other != id,
    ensures
        !sessions.remove(id).contains_key(id),
        sessions.remove(id).contains_key(other) == sessions.contains_key(other),
        sessions.contains_key(other) ==> sessions.remove(id)[other] == sessions[other],
{
}

/// Registering a ready session keeps every session under its own id and
/// ready, and so does taking one out; an empty table holds none.
pub proof fn law_registered_sessions_ready<T>(
    sessions: Map<Seq<char>, (SessionState, T)>,
    state: SessionState,
    session: T,
    id: Seq<char>,
)
    requires
        registered_ready(sessions),
        state.ready,
    ensures
        registered_ready(Map::<Seq<char>, (SessionState, T)>::empty()),
        registered_ready(sessions.insert(state.id@, (state, session))),
        registered_ready(sessions.remove(id)),
{
}

} // verus!
