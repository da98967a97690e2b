//! The shared directory of live sessions: admission bounded by
//! `max_connections`, removal at teardown. Each session id is held at most
//! once, and the registry never grows past its bound.

use vstd::prelude::*;

verus! {

/// Why an admission attempt was refused.
#[derive(Debug, Clone, PartialEq, Eq)]
pub enum AdmissionError {
    /// The registry already holds `max_connections` sessions.
    AtCapacity,
    /// The id is already registered; ids are never reused.
    DuplicateId,
}

/// Relies on `uuid::Uuid::new_v4`: draws a fresh random version-4 UUID.
/// Nothing is promised of the value; callers treat it as arbitrary.
#[verifier::external_body]
fn mint_session_id() -> u128 {
    uuid::Uuid::new_v4().as_u128()
}

/// The registry of live session ids, bounded by `max_connections`.
pub struct SessionManager {
    session_ids: Vec<u128>,
    max_connections: usize,
}

impl SessionManager {
    /// The ids of the registered sessions, in admission order.
    pub closed spec fn ids(&self) -> Seq<u128> {
        self.session_ids@
    }

    /// The configured bound on concurrent sessions.
    pub closed spec fn max(&self) -> nat {
        self.max_connections as nat
    }

    /// The registry invariant: no id twice, and never more sessions than the
    /// configured maximum.
    pub open spec fn wf(&self) -> bool {
        &&& forall|i: int, j: int|
            0 <= i < j < self.ids().len() ==> self.ids()[i] != self.ids()[j]
        &&& self.ids().len() <= self.max()
    }

    /// An empty registry with the given bound.
    pub fn new(max_connections: usize) -> (r: Self)
        ensures
            r.wf(),
            r.ids() =~= Seq::<u128>::empty(),
            r.max() == max_connections,
    {
        SessionManager { session_ids: Vec::new(), max_connections }
    }

    /// How many sessions are registered.
    pub fn size(&self) -> (r: usize)
        ensures
            r == self.ids().len(),
    {
        self.session_ids.len()
    }

    /// The configured bound, as given at construction.
    pub fn max_connections(&self) -> (r: usize)
        ensures
            r == self.max(),
    {
        self.max_connections
    }

    /// Whether `id` is registered.
    pub fn contains(&self, id: u128) -> (r: bool)
        ensures
            r == self.ids().contains(id),
    {
        let mut i: usize = 0;
        while i < self.session_ids.len()
            invariant
                i <= self.session_ids.len(),
                forall|k: int| 0 <= k < i ==> self.session_ids@[k] != id,
            decreases self.session_ids.len() - i,
        {
            if self.session_ids[i] == id {
                return true;
            }
            i = i + 1;
        }
        assert(!self.ids().contains(id));
        false
    }

    /// Admits `id` unless the registry is full or the id is already present.
    /// A refused admission leaves the registry exactly as it was; the caller
    /// must then tear the connection down.
    pub fn add_session(&mut self, id: u128) -> (r: Result<(), AdmissionError>)
        requires
            old(self).wf(),
        ensures
            final(self).wf(),
            final(self).max() == old(self).max(),
            r matches Err(e) ==> final(self).ids() == old(self).ids() && (e
                == AdmissionError::AtCapacity <==> old(self).ids().len() >= old(self).max()),
            r is Ok ==> final(self).ids() == old(self).ids().push(id) && old(self).ids().len()
                < old(self).max() && !old(self).ids().contains(id),
            r is Ok <==> old(self).ids().len() < old(self).max() && !old(self).ids().contains(id),
    {
        if self.session_ids.len() >= self.max_connections {
            return Err(AdmissionError::AtCapacity);
        }
        if self.contains(id) {
            return Err(AdmissionError::DuplicateId);
        }
        let ghost olds = self.session_ids@;
        self.session_ids.push(id);
        assert forall|i: int, j: int|
            0 <= i < j < self.ids().len() implies self.ids()[i] != self.ids()[j] by {
            if j == olds.len() {
                assert(self.ids()[j] == id);
                assert(self.ids()[i] == olds[i]);
                assert(olds[i] != id);
            } else {
                assert(self.ids()[i] == olds[i] && self.ids()[j] == olds[j]);
            }
        }
        Ok(())
    }

    /// Mints a fresh random session id and admits it. Whatever id the draw
    /// produced, the registry invariant holds afterwards; on refusal the
    /// registry is unchanged.
    pub fn open_session(&mut self) -> (r: Result<u128, AdmissionError>)
        requires
            old(self).wf(),
        ensures
            final(self).wf(),
            final(self).max() == old(self).max(),
            r matches Ok(id) ==> final(self).ids() == old(self).ids().push(id) && old(
                self,
            ).ids().len() < old(self).max(),
            r is Err ==> final(self).ids() == old(self).ids(),
            old(self).ids().len() >= old(self).max() ==> r == Result::<
                u128,
                AdmissionError,
            >::Err(AdmissionError::AtCapacity),
    {
        let id = mint_session_id();
        match self.add_session(id) {
            Ok(()) => Ok(id),
            Err(e) => Err(e),
        }
    }

    /// Removes `id` if it is registered; the other sessions keep their order.
    #[verifier::loop_isolation(false)]
    pub fn remove_session(&mut self, id: u128)
        requires
            old(self).wf(),
        ensures
            final(self).wf(),
            final(self).max() == old(self).max(),
            !final(self).ids().contains(id),
            old(self).ids().contains(id) ==> final(self).ids().len() == old(self).ids().len() - 1,
            !old(self).ids().contains(id) ==> final(self).ids() == old(self).ids(),
            forall|x: u128| x != id ==> final(self).ids().contains(x) == old(self).ids().contains(x),
    {
        let ghost olds = self.session_ids@;
        let mut i: usize = 0;
        while i < self.session_ids.len()
            invariant
                self.session_ids@ == olds,
                self.max_connections == old(self).max_connections,
                i <= self.session_ids.len(),
                forall|k: int| 0 <= k < i ==> self.session_ids@[k] != id,
            decreases self.session_ids.len() - i,
        {
            if self.session_ids[i] == id {
                self.session_ids.remove(i);
                assert(!self.ids().contains(id)) by {
                    assert forall|k: int| 0 <= k < self.ids().len() implies self.ids()[k] != id by {
                        if k < i {
                            assert(self.ids()[k] == olds[k]);
                        } else {
                            assert(self.ids()[k] == olds[k + 1]);
                        }
                    }
                }
                assert forall|x: u128|
                    x != id implies self.ids().contains(x) == olds.contains(x) by {
                    if self.ids().contains(x) {
                        let k = choose|k: int| 0 <= k < self.ids().len() && self.ids()[k] == x;
                        if k < i {
                            assert(olds[k] == x);
                        } else {
                            assert(olds[k + 1] == x);
                        }
                    }
                    if olds.contains(x) {
                        let k = choose|k: int| 0 <= k < olds.len() && olds[k] == x;
                        if k < i {
                            assert(self.ids()[k] == x);
                        } else {
                            assert(k != i);
                            assert(self.ids()[k - 1] == x);
                        }
                    }
                }
                return ;
            }
            i = i + 1;
        }
        assert(!olds.contains(id));
    }

    /// The capacity law: a well-formed registry never holds more sessions
    /// than `max_connections`. Every constructor and method of this type
    /// preserves `wf`, so this bound holds at every observable instant.
    pub proof fn lemma_capacity_bound(&self)
        requires
            self.wf(),
        ensures
            self.ids().len() <= self.max(),
    {
    }
}

} // verus!
