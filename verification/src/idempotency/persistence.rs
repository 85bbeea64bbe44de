//! The idempotency store and the claim protocol.
//!
//! The store is the persistent table keyed by the pair (user id,
//! idempotency key). A record moves through three stages: absent, claimed
//! (a caller won the right to process and has not finished), and completed
//! (the response of the winning caller is recorded and replayed verbatim to
//! everyone else). The protocol functions `try_processing`, `save_response`
//! and `rollback` drive that lifecycle; mutual exclusion rests on the
//! store's uniqueness of the composite key.
//!
//! Responses are captured whole — status code, the ordered header list with
//! repeated names kept, and the body bytes — so replay is byte-identical.
//! Bodies are buffered in memory; the store is not meant for responses
//! whose bodies cannot be held in one buffer.

use crate::idempotency::IdempotencyKey;
use vstd::prelude::*;

verus! {

/// Mathematical model of one response header: name and raw byte value.
pub struct HeaderModel {
    pub name: Seq<char>,
    pub value: Seq<u8>,
}

/// Mathematical model of a captured response.
pub struct ResponseModel {
    pub status: int,
    pub headers: Seq<HeaderModel>,
    pub body: Seq<u8>,
}

/// Model of the lifecycle stage of one (user id, key) record.
pub enum RecordStatus {
    /// No record exists for the composite key.
    Absent,
    /// A claim is held; the response fields are still unset.
    Claimed { created_at: int },
    /// The response has been recorded and is replayed to every caller.
    Completed { created_at: int, response: ResponseModel },
}

/// One response header as stored: the name, and the value as raw bytes,
/// because header values are not guaranteed to be valid text.
#[derive(Debug)]
pub struct HeaderPairRecord {
    pub name: String,
    pub value: Vec<u8>,
}

impl View for HeaderPairRecord {
    type V = HeaderModel;

    open spec fn view(&self) -> HeaderModel {
        HeaderModel { name: self.name@, value: self.value@ }
    }
}

impl Clone for HeaderPairRecord {
    fn clone(&self) -> (r: Self)
        ensures
            r@ == self@,
    {
        let mut value: Vec<u8> = Vec::new();
        let mut i: usize = 0;
        while i < self.value.len()
            invariant
                i <= self.value@.len(),
                value@ == self.value@.subrange(0, i as int),
            decreases self.value@.len() - i,
        {
            value.push(self.value[i]);
            i += 1;
        }
        proof {
            assert(value@ =~= self.value@);
        }
        HeaderPairRecord { name: self.name.clone(), value }
    }
}

/// A captured response, ready to be stored or replayed: the exact status
/// code, every header in original order (repeated names kept), and the
/// body drained into one contiguous byte buffer.
#[derive(Debug)]
pub struct SavedResponse {
    pub status_code: u16,
    pub headers: Vec<HeaderPairRecord>,
    pub body: Vec<u8>,
}

impl View for SavedResponse {
    type V = ResponseModel;

    open spec fn view(&self) -> ResponseModel {
        ResponseModel {
            status: self.status_code as int,
            headers: self.headers@.map_values(|h: HeaderPairRecord| h@),
            body: self.body@,
        }
    }
}

impl Clone for SavedResponse {
    fn clone(&self) -> (r: Self)
        ensures
            r@ == self@,
    {
        let mut headers: Vec<HeaderPairRecord> = Vec::new();
        let mut i: usize = 0;
        while i < self.headers.len()
            invariant
                i <= self.headers@.len(),
                headers@.len() == i,
                forall|j: int| 0 <= j < i ==> headers@[j]@ == self.headers@[j]@,
            decreases self.headers@.len() - i,
        {
            headers.push(self.headers[i].clone());
            i += 1;
        }
        let mut body: Vec<u8> = Vec::new();
        let mut i: usize = 0;
        while i < self.body.len()
            invariant
                i <= self.body@.len(),
                body@ == self.body@.subrange(0, i as int),
            decreases self.body@.len() - i,
        {
            body.push(self.body[i]);
            i += 1;
        }
        proof {
            assert(body@ =~= self.body@);
            assert(headers@.map_values(|h: HeaderPairRecord| h@) =~= self.headers@.map_values(
                |h: HeaderPairRecord| h@,
            ));
        }
        SavedResponse { status_code: self.status_code, headers, body }
    }
}

/// The effect of one claim attempt on a record: an absent record becomes
/// claimed with the attempt's timestamp; any other record is left as it is.
pub open spec fn claim_step(st: RecordStatus, now: int) -> RecordStatus {
    if st is Absent {
        RecordStatus::Claimed { created_at: now }
    } else {
        st
    }
}

/// What a claim attempt reports, depending on the record it found.
pub enum ClaimOutcome {
    /// The attempt won the claim: the caller must process.
    Inserted,
    /// The record is completed: the stored response is replayed verbatim.
    Replay(ResponseModel),
    /// The record is claimed but not finalized: a concurrent attempt is
    /// still in flight, surfaced as an error rather than blocking.
    InFlight,
}

/// The outcome a claim attempt observes on a record in the given stage.
pub open spec fn claim_outcome(st: RecordStatus) -> ClaimOutcome {
    match st {
        RecordStatus::Absent => ClaimOutcome::Inserted,
        RecordStatus::Claimed { .. } => ClaimOutcome::InFlight,
        RecordStatus::Completed { response, .. } => ClaimOutcome::Replay(response),
    }
}

/// The effect of finalizing with a captured response: a claimed record
/// becomes completed, keeping its claim timestamp; any other record is
/// left as it is.
pub open spec fn finalize_step(st: RecordStatus, response: ResponseModel) -> RecordStatus {
    match st {
        RecordStatus::Claimed { created_at } => (RecordStatus::Completed { created_at, response }),
        _ => st,
    }
}

/// The effect of rolling a claim back: a claimed record is discarded, so
/// the key becomes reusable; a completed record is never discarded.
pub open spec fn rollback_step(st: RecordStatus) -> RecordStatus {
    if st is Claimed {
        RecordStatus::Absent
    } else {
        st
    }
}

/// Failures of the store and of the claim protocol.
#[derive(Clone, Copy, Debug, PartialEq, Eq, Structural)]
pub enum IdempotencyError {
    /// A record was already present but no completed response was found:
    /// a concurrent claim is still in flight.
    InvariantViolation,
    /// Finalizing was asked for a record that is not in the claimed stage.
    ClaimNotHeld,
}

impl IdempotencyError {
    /// A description of the failure.
    pub fn message(&self) -> (r: &'static str)
        ensures
            self is InvariantViolation ==> r@
                == "We expected a saved response, we didn't find it"@,
            self is ClaimNotHeld ==> r@ == "no claim is held for this idempotency key"@,
    {
        match self {
            IdempotencyError::InvariantViolation => "We expected a saved response, we didn't find it",
            IdempotencyError::ClaimNotHeld => "no claim is held for this idempotency key",
        }
    }
}

/// What `insert_claim_if_absent` reports.
#[derive(Clone, Copy, Debug, PartialEq, Eq, Structural)]
pub enum InsertOutcome {
    /// The claim row was inserted: the caller owns the claim.
    Inserted,
    /// A row with the same composite key already exists.
    AlreadyPresent,
}

/// One row of the store.
struct IdempotencyRecord {
    user_id: u128,
    key: IdempotencyKey,
    created_at: u64,
    response: Option<SavedResponse>,
}

impl IdempotencyRecord {
    spec fn status(self) -> RecordStatus {
        match self.response {
            Option::None => RecordStatus::Claimed { created_at: self.created_at as int },
            Option::Some(r) => RecordStatus::Completed {
                created_at: self.created_at as int,
                response: r@,
            },
        }
    }
}

/// The idempotency table: rows keyed by (user id, idempotency key), the
/// composite key unique across the store.
pub struct IdempotencyStore {
    rows: Vec<IdempotencyRecord>,
}

impl IdempotencyStore {
    spec fn matches_at(self, i: int, user_id: u128, key: Seq<char>) -> bool {
        &&& self.rows@[i].user_id == user_id
        &&& self.rows@[i].key@ == key
    }

    /// The uniqueness invariant: no two rows share the composite key.
    pub closed spec fn wf(self) -> bool {
        forall|i: int, j: int|
            0 <= i < j < self.rows@.len() ==> !(self.rows@[i].user_id == self.rows@[j].user_id
                && self.rows@[i].key@ == self.rows@[j].key@)
    }

    spec fn contains_record(self, user_id: u128, key: Seq<char>) -> bool {
        exists|i: int| 0 <= i < self.rows@.len() && self.matches_at(i, user_id, key)
    }

    spec fn record_index(self, user_id: u128, key: Seq<char>) -> int {
        choose|i: int| 0 <= i < self.rows@.len() && self.matches_at(i, user_id, key)
    }

    /// The lifecycle stage of the record for (user_id, key).
    pub closed spec fn status_of(self, user_id: u128, key: Seq<char>) -> RecordStatus {
        if self.contains_record(user_id, key) {
            self.rows@[self.record_index(user_id, key)].status()
        } else {
            RecordStatus::Absent
        }
    }

    proof fn lemma_status_at(self, i: int, user_id: u128, key: Seq<char>)
        requires
            self.wf(),
            0 <= i < self.rows@.len(),
            self.matches_at(i, user_id, key),
        ensures
            self.contains_record(user_id, key),
            self.record_index(user_id, key) == i,
            self.status_of(user_id, key) == self.rows@[i].status(),
    {
        assert(self.contains_record(user_id, key));
        let j = self.record_index(user_id, key);
        assert(0 <= j < self.rows@.len() && self.matches_at(j, user_id, key));
        if i < j {
            assert(!(self.rows@[i].user_id == self.rows@[j].user_id && self.rows@[i].key@
                == self.rows@[j].key@));
        } else if j < i {
            assert(!(self.rows@[j].user_id == self.rows@[i].user_id && self.rows@[j].key@
                == self.rows@[i].key@));
        }
    }

    proof fn lemma_status_absent(self, user_id: u128, key: Seq<char>)
        requires
            forall|i: int| 0 <= i < self.rows@.len() ==> !self.matches_at(i, user_id, key),
        ensures
            self.status_of(user_id, key) is Absent,
    {
    }

    /// An empty store: every record absent.
    pub fn new() -> (s: Self)
        ensures
            s.wf(),
            forall|user_id: u128, key: Seq<char>| s.status_of(user_id, key) is Absent,
    {
        let s = IdempotencyStore { rows: Vec::new() };
        proof {
            assert forall|user_id: u128, key: Seq<char>| s.status_of(user_id, key) is Absent by {
                s.lemma_status_absent(user_id, key);
            }
        }
        s
    }

    /// Index of the row for (user_id, key), if one exists.
    fn find_index(&self, user_id: u128, idempotency_key: &IdempotencyKey) -> (r: Option<usize>)
        ensures
            r matches Some(i) ==> i < self.rows@.len() && self.matches_at(
                i as int,
                user_id,
                idempotency_key@,
            ),
            r is None ==> forall|i: int|
                0 <= i < self.rows@.len() ==> !self.matches_at(i, user_id, idempotency_key@),
    {
        let n = self.rows.len();
        let mut i: usize = 0;
        while i < n
            invariant
                i <= n,
                n == self.rows@.len(),
                forall|j: int| 0 <= j < i ==> !self.matches_at(j, user_id, idempotency_key@),
            decreases n - i,
        {
            if self.rows[i].user_id == user_id && self.rows[i].key == *idempotency_key {
                return Some(i);
            }
            i += 1;
        }
        None
    }

    proof fn lemma_push_status(pre: Self, post: Self, rec: IdempotencyRecord)
        requires
            pre.wf(),
            post.rows@ == pre.rows@.push(rec),
            forall|i: int| 0 <= i < pre.rows@.len() ==> !pre.matches_at(i, rec.user_id, rec.key@),
        ensures
            post.wf(),
            post.status_of(rec.user_id, rec.key@) == rec.status(),
            forall|u2: u128, k2: Seq<char>|
                !(u2 == rec.user_id && k2 == rec.key@) ==> post.status_of(u2, k2)
                    == pre.status_of(u2, k2),
    {
        let n = pre.rows@.len() as int;
        assert forall|i: int, j: int| 0 <= i < j < post.rows@.len() implies !(post.rows@[i].user_id
            == post.rows@[j].user_id && post.rows@[i].key@ == post.rows@[j].key@) by {
            if j < n {
                assert(!(pre.rows@[i].user_id == pre.rows@[j].user_id && pre.rows@[i].key@
                    == pre.rows@[j].key@));
            } else {
                assert(!pre.matches_at(i, rec.user_id, rec.key@));
            }
        }
        post.lemma_status_at(n, rec.user_id, rec.key@);
        assert forall|u2: u128, k2: Seq<char>| !(u2 == rec.user_id && k2 == rec.key@) implies post.status_of(
            u2,
            k2,
        ) == pre.status_of(u2, k2) by {
            if pre.contains_record(u2, k2) {
                let i = pre.record_index(u2, k2);
                assert(0 <= i < n && pre.matches_at(i, u2, k2));
                pre.lemma_status_at(i, u2, k2);
                post.lemma_status_at(i, u2, k2);
            } else {
                assert forall|i: int| 0 <= i < post.rows@.len() implies !post.matches_at(
                    i,
                    u2,
                    k2,
                ) by {
                    if i < n {
                        assert(!pre.matches_at(i, u2, k2));
                    }
                }
                pre.lemma_status_absent(u2, k2);
                post.lemma_status_absent(u2, k2);
            }
        }
    }

    proof fn lemma_update_status(pre: Self, post: Self, i: int, rec: IdempotencyRecord)
        requires
            pre.wf(),
            0 <= i < pre.rows@.len(),
            post.rows@ == pre.rows@.update(i, rec),
            rec.user_id == pre.rows@[i].user_id,
            rec.key@ == pre.rows@[i].key@,
        ensures
            post.wf(),
            post.status_of(rec.user_id, rec.key@) == rec.status(),
            forall|u2: u128, k2: Seq<char>|
                !(u2 == rec.user_id && k2 == rec.key@) ==> post.status_of(u2, k2)
                    == pre.status_of(u2, k2),
    {
        assert forall|i2: int, j2: int|
            0 <= i2 < j2 < post.rows@.len() implies !(post.rows@[i2].user_id
            == post.rows@[j2].user_id && post.rows@[i2].key@ == post.rows@[j2].key@) by {
            assert(!(pre.rows@[i2].user_id == pre.rows@[j2].user_id && pre.rows@[i2].key@
                == pre.rows@[j2].key@));
        }
        post.lemma_status_at(i, rec.user_id, rec.key@);
        assert forall|u2: u128, k2: Seq<char>| !(u2 == rec.user_id && k2 == rec.key@) implies post.status_of(
            u2,
            k2,
        ) == pre.status_of(u2, k2) by {
            if pre.contains_record(u2, k2) {
                let p = pre.record_index(u2, k2);
                assert(0 <= p < pre.rows@.len() && pre.matches_at(p, u2, k2));
                assert(p != i);
                pre.lemma_status_at(p, u2, k2);
                post.lemma_status_at(p, u2, k2);
            } else {
                assert forall|j: int| 0 <= j < post.rows@.len() implies !post.matches_at(
                    j,
                    u2,
                    k2,
                ) by {
                    if j != i {
                        assert(!pre.matches_at(j, u2, k2));
                    }
                }
                pre.lemma_status_absent(u2, k2);
                post.lemma_status_absent(u2, k2);
            }
        }
    }

    proof fn lemma_remove_status(pre: Self, post: Self, i: int)
        requires
            pre.wf(),
            0 <= i < pre.rows@.len(),
            post.rows@ == pre.rows@.remove(i),
        ensures
            post.wf(),
            post.status_of(pre.rows@[i].user_id, pre.rows@[i].key@) is Absent,
            forall|u2: u128, k2: Seq<char>|
                !(u2 == pre.rows@[i].user_id && k2 == pre.rows@[i].key@) ==> post.status_of(u2, k2)
                    == pre.status_of(u2, k2),
    {
        let target_user = pre.rows@[i].user_id;
        let target_key = pre.rows@[i].key@;
        // each index of the shortened sequence maps to its source row
        assert(post.rows@.len() == pre.rows@.len() - 1);
        assert forall|j: int| 0 <= j < post.rows@.len() implies post.rows@[j] == (if j < i {
            pre.rows@[j]
        } else {
            pre.rows@[j + 1]
        }) by {}
        assert forall|i2: int, j2: int|
            0 <= i2 < j2 < post.rows@.len() implies !(post.rows@[i2].user_id
            == post.rows@[j2].user_id && post.rows@[i2].key@ == post.rows@[j2].key@) by {
            let i3 = if i2 < i { i2 } else { i2 + 1 };
            let j3 = if j2 < i { j2 } else { j2 + 1 };
            assert(!(pre.rows@[i3].user_id == pre.rows@[j3].user_id && pre.rows@[i3].key@
                == pre.rows@[j3].key@));
        }
        assert forall|j: int| 0 <= j < post.rows@.len() implies !post.matches_at(
            j,
            target_user,
            target_key,
        ) by {
            let j3 = if j < i { j } else { j + 1 };
            if pre.matches_at(j3, target_user, target_key) {
                if j3 < i {
                    assert(!(pre.rows@[j3].user_id == pre.rows@[i].user_id && pre.rows@[j3].key@
                        == pre.rows@[i].key@));
                } else {
                    assert(!(pre.rows@[i].user_id == pre.rows@[j3].user_id && pre.rows@[i].key@
                        == pre.rows@[j3].key@));
                }
            }
        }
        post.lemma_status_absent(target_user, target_key);
        assert forall|u2: u128, k2: Seq<char>| !(u2 == target_user && k2 == target_key) implies post.status_of(
            u2,
            k2,
        ) == pre.status_of(u2, k2) by {
            if pre.contains_record(u2, k2) {
                let p = pre.record_index(u2, k2);
                assert(0 <= p < pre.rows@.len() && pre.matches_at(p, u2, k2));
                assert(p != i);
                pre.lemma_status_at(p, u2, k2);
                let p2 = if p < i {
                    p
                } else {
                    p - 1
                };
                assert(post.rows@[p2] == pre.rows@[p]);
                post.lemma_status_at(p2, u2, k2);
            } else {
                assert forall|j: int| 0 <= j < post.rows@.len() implies !post.matches_at(
                    j,
                    u2,
                    k2,
                ) by {
                    let j3 = if j < i { j } else { j + 1 };
                    assert(!pre.matches_at(j3, u2, k2));
                }
                pre.lemma_status_absent(u2, k2);
                post.lemma_status_absent(u2, k2);
            }
        }
    }

    /// The mutual-exclusion primitive: insert a claim row for (user_id,
    /// idempotency_key), doing nothing if a row with that composite key
    /// already exists. Exactly the callers that find the record absent
    /// observe `Inserted`.
    pub fn insert_claim_if_absent(
        &mut self,
        user_id: u128,
        idempotency_key: &IdempotencyKey,
        now: u64,
    ) -> (r: InsertOutcome)
        requires
            old(self).wf(),
        ensures
            final(self).wf(),
            r is Inserted <==> old(self).status_of(user_id, idempotency_key@) is Absent,
            final(self).status_of(user_id, idempotency_key@) == claim_step(
                old(self).status_of(user_id, idempotency_key@),
                now as int,
            ),
            forall|u2: u128, k2: Seq<char>|
                !(u2 == user_id && k2 == idempotency_key@) ==> final(self).status_of(u2, k2) == old(
                    self,
                ).status_of(u2, k2),
    {
        match self.find_index(user_id, idempotency_key) {
            Option::Some(i) => {
                proof {
                    self.lemma_status_at(i as int, user_id, idempotency_key@);
                }
                InsertOutcome::AlreadyPresent
            },
            Option::None => {
                let ghost pre = *self;
                let rec = IdempotencyRecord {
                    user_id,
                    key: idempotency_key.clone(),
                    created_at: now,
                    response: Option::None,
                };
                let ghost rec_model = rec;
                self.rows.push(rec);
                proof {
                    Self::lemma_push_status(pre, *self, rec_model);
                }
                InsertOutcome::Inserted
            },
        }
    }

    /// Record the captured response on the previously claimed row. Succeeds
    /// exactly when the record is in the claimed stage; a completed record
    /// is never overwritten and an absent record is never invented.
    pub fn finalize(
        &mut self,
        user_id: u128,
        idempotency_key: &IdempotencyKey,
        response: &SavedResponse,
    ) -> (r: Result<(), IdempotencyError>)
        requires
            old(self).wf(),
        ensures
            final(self).wf(),
            r is Ok <==> old(self).status_of(user_id, idempotency_key@) is Claimed,
            final(self).status_of(user_id, idempotency_key@) == finalize_step(
                old(self).status_of(user_id, idempotency_key@),
                response@,
            ),
            forall|u2: u128, k2: Seq<char>|
                !(u2 == user_id && k2 == idempotency_key@) ==> final(self).status_of(u2, k2) == old(
                    self,
                ).status_of(u2, k2),
            r matches Err(e) ==> e is ClaimNotHeld,
    {
        match self.find_index(user_id, idempotency_key) {
            Option::Some(i) => {
                proof {
                    self.lemma_status_at(i as int, user_id, idempotency_key@);
                }
                if self.rows[i].response.is_none() {
                    let ghost pre = *self;
                    let created_at = self.rows[i].created_at;
                    let rec = IdempotencyRecord {
                        user_id,
                        key: idempotency_key.clone(),
                        created_at,
                        response: Option::Some(response.clone()),
                    };
                    let ghost rec_model = rec;
                    self.rows.set(i, rec);
                    proof {
                        Self::lemma_update_status(pre, *self, i as int, rec_model);
                    }
                    Ok(())
                } else {
                    Err(IdempotencyError::ClaimNotHeld)
                }
            },
            Option::None => {
                proof {
                    self.lemma_status_absent(user_id, idempotency_key@);
                }
                Err(IdempotencyError::ClaimNotHeld)
            },
        }
    }

    /// Discard the claim row for (user_id, idempotency_key) if it is still
    /// in the claimed stage, making the key reusable; a completed record is
    /// left untouched.
    fn discard_claim(&mut self, user_id: u128, idempotency_key: &IdempotencyKey)
        requires
            old(self).wf(),
        ensures
            final(self).wf(),
            final(self).status_of(user_id, idempotency_key@) == rollback_step(
                old(self).status_of(user_id, idempotency_key@),
            ),
            forall|u2: u128, k2: Seq<char>|
                !(u2 == user_id && k2 == idempotency_key@) ==> final(self).status_of(u2, k2) == old(
                    self,
                ).status_of(u2, k2),
    {
        match self.find_index(user_id, idempotency_key) {
            Option::Some(i) => {
                proof {
                    self.lemma_status_at(i as int, user_id, idempotency_key@);
                }
                if self.rows[i].response.is_none() {
                    let ghost pre = *self;
                    self.rows.remove(i);
                    proof {
                        Self::lemma_remove_status(pre, *self, i as int);
                    }
                }
            },
            Option::None => {
                proof {
                    self.lemma_status_absent(user_id, idempotency_key@);
                }
            },
        }
    }

    /// The standalone read of the protocol: the stored response, only if
    /// the record has been finalized; a missing record and a record still
    /// being processed are indistinguishable to this read.
    pub fn fetch_completed(&self, user_id: u128, idempotency_key: &IdempotencyKey) -> (r: Option<
        SavedResponse,
    >)
        requires
            self.wf(),
        ensures
            r is Some <==> self.status_of(user_id, idempotency_key@) is Completed,
            r matches Some(resp) ==> (self.status_of(user_id, idempotency_key@) matches
                RecordStatus::Completed { response, .. } && resp@ == response),
    {
        match self.find_index(user_id, idempotency_key) {
            Option::Some(i) => {
                proof {
                    self.lemma_status_at(i as int, user_id, idempotency_key@);
                }
                match &self.rows[i].response {
                    Option::Some(resp) => Option::Some(resp.clone()),
                    Option::None => Option::None,
                }
            },
            Option::None => {
                proof {
                    self.lemma_status_absent(user_id, idempotency_key@);
                }
                Option::None
            },
        }
    }
}

/// The single-owner token a winning claim hands to its caller. It stands
/// for the open transaction of the claim: the caller must either finalize
/// through `save_response` or abandon through `rollback`, each of which
/// consumes the token, so it is used exactly once. It cannot be cloned or
/// constructed outside this module.
#[derive(Debug)]
pub struct Transaction {
    user_id: u128,
    key: IdempotencyKey,
}

impl Transaction {
    /// The user id whose claim this transaction owns.
    pub closed spec fn spec_user_id(self) -> u128 {
        self.user_id
    }

    /// The idempotency key whose claim this transaction owns.
    pub closed spec fn spec_key(self) -> Seq<char> {
        self.key@
    }
}

/// What `try_processing` tells its caller to do.
#[derive(Debug)]
pub enum NextAction {
    /// The caller won the claim: it must process, capture its response and
    /// hand it to `save_response` together with this transaction.
    StartProcessing(Transaction),
    /// Another caller already finalized: return this recorded response
    /// verbatim, without processing.
    ReturnSavedResponse(SavedResponse),
}

/// Claim the (user id, key) pair, or learn what to do instead: process on a
/// won claim, replay the recorded response on a completed record, and fail
/// with `InvariantViolation` when the record is claimed but not finalized
/// (a concurrent attempt still in flight). The caller supplies the clock
/// reading `now`, recorded as the claim's creation time.
pub fn try_processing(
    store: &mut IdempotencyStore,
    idempotency_key: &IdempotencyKey,
    user_id: u128,
    now: u64,
) -> (r: Result<NextAction, IdempotencyError>)
    requires
        old(store).wf(),
    ensures
        final(store).wf(),
        final(store).status_of(user_id, idempotency_key@) == claim_step(
            old(store).status_of(user_id, idempotency_key@),
            now as int,
        ),
        forall|u2: u128, k2: Seq<char>|
            !(u2 == user_id && k2 == idempotency_key@)
                ==> final(store).status_of(u2, k2) == old(store).status_of(u2, k2),
        r is Err <==> old(store).status_of(user_id, idempotency_key@) is Claimed,
        r matches Err(e) ==> e is InvariantViolation,
        r matches Ok(NextAction::StartProcessing(t)) ==> old(store).status_of(
            user_id,
            idempotency_key@,
        ) is Absent && t.spec_user_id() == user_id && t.spec_key() == idempotency_key@,
        r matches Ok(NextAction::ReturnSavedResponse(resp)) ==> old(store).status_of(
            user_id,
            idempotency_key@,
        ) is Completed && ClaimOutcome::Replay(resp@) == claim_outcome(
            old(store).status_of(user_id, idempotency_key@),
        ),
{
    match store.insert_claim_if_absent(user_id, idempotency_key, now) {
        InsertOutcome::Inserted => Ok(
            NextAction::StartProcessing(
                Transaction { user_id, key: idempotency_key.clone() },
            ),
        ),
        InsertOutcome::AlreadyPresent => {
            match store.fetch_completed(user_id, idempotency_key) {
                Option::Some(resp) => Ok(NextAction::ReturnSavedResponse(resp)),
                Option::None => Err(IdempotencyError::InvariantViolation),
            }
        },
    }
}

/// Finalize the claim owned by `transaction` with the captured response,
/// making the side effect's outcome and the cached response visible
/// atomically, and hand the response back unchanged for the caller to
/// return. Succeeds exactly when the claim is still held.
pub fn save_response(
    store: &mut IdempotencyStore,
    transaction: Transaction,
    http_response: SavedResponse,
) -> (r: Result<SavedResponse, IdempotencyError>)
    requires
        old(store).wf(),
    ensures
        final(store).wf(),
        final(store).status_of(transaction.spec_user_id(), transaction.spec_key())
            == finalize_step(
            old(store).status_of(transaction.spec_user_id(), transaction.spec_key()),
            http_response@,
        ),
        forall|u2: u128, k2: Seq<char>|
            !(u2 == transaction.spec_user_id() && k2 == transaction.spec_key())
                ==> final(store).status_of(u2, k2) == old(store).status_of(u2, k2),
        r is Ok <==> old(store).status_of(
            transaction.spec_user_id(),
            transaction.spec_key(),
        ) is Claimed,
        r matches Ok(resp) ==> resp == http_response,
        r matches Err(e) ==> e is ClaimNotHeld,
{
    let Transaction { user_id, key } = transaction;
    match store.finalize(user_id, &key, &http_response) {
        Ok(()) => Ok(http_response),
        Err(e) => Err(e),
    }
}

/// Abandon the claim owned by `transaction`: the claim row is discarded and
/// the key becomes reusable, as if the claim had never happened. A record
/// already completed is left untouched.
pub fn rollback(store: &mut IdempotencyStore, transaction: Transaction)
    requires
        old(store).wf(),
    ensures
        final(store).wf(),
        final(store).status_of(transaction.spec_user_id(), transaction.spec_key())
            == rollback_step(
            old(store).status_of(transaction.spec_user_id(), transaction.spec_key()),
        ),
        forall|u2: u128, k2: Seq<char>|
            !(u2 == transaction.spec_user_id() && k2 == transaction.spec_key())
                ==> final(store).status_of(u2, k2) == old(store).status_of(u2, k2),
{
    let Transaction { user_id, key } = transaction;
    store.discard_claim(user_id, &key);
}

/// The saved response for (user id, key), only if it has been finalized; a
/// record that is absent and one that is claimed but not finalized both
/// yield nothing.
pub fn get_saved_response(
    store: &IdempotencyStore,
    idempotency_key: &IdempotencyKey,
    user_id: u128,
) -> (r: Option<SavedResponse>)
    requires
        store.wf(),
    ensures
        r is Some <==> store.status_of(user_id, idempotency_key@) is Completed,
        r matches Some(resp) ==> ClaimOutcome::Replay(resp@) == claim_outcome(
            store.status_of(user_id, idempotency_key@),
        ),
{
    store.fetch_completed(user_id, idempotency_key)
}

/// How many of a run of claim attempts win, when they hit one (user id,
/// key) record in the given stage one after the other; `times` holds each
/// attempt's clock reading.
pub open spec fn inserted_count(st: RecordStatus, times: Seq<int>) -> nat
    decreases times.len(),
{
    if times.len() == 0 {
        0nat
    } else {
        (if claim_outcome(st) is Inserted {
            1nat
        } else {
            0nat
        }) + inserted_count(claim_step(st, times[0]), times.drop_first())
    }
}

proof fn lemma_no_insert_while_present(st: RecordStatus, times: Seq<int>)
    requires
        !(st is Absent),
    ensures
        inserted_count(st, times) == 0,
    decreases times.len(),
{
    if times.len() > 0 {
        lemma_no_insert_while_present(claim_step(st, times[0]), times.drop_first());
    }
}

/// Exclusivity: however many claim attempts are issued for one (user id,
/// key) pair starting from an absent record, exactly one observes
/// `Inserted` — the rest find the record present.
pub proof fn lemma_claim_exclusivity(times: Seq<int>)
    requires
        times.len() >= 1,
    ensures
        inserted_count(RecordStatus::Absent, times) == 1,
{
    lemma_no_insert_while_present(
        claim_step(RecordStatus::Absent, times[0]),
        times.drop_first(),
    );
}

/// Replay fidelity: a winning claim followed by finalizing with a response
/// completes the record with exactly that response, and every later claim
/// attempt replays it unchanged — status, headers in order, and body — while
/// the record never moves again.
pub proof fn lemma_replay_fidelity(response: ResponseModel, t1: int, t2: int)
    ensures
        claim_outcome(RecordStatus::Absent) is Inserted,
        finalize_step(claim_step(RecordStatus::Absent, t1), response) == (RecordStatus::Completed {
            created_at: t1,
            response,
        }),
        claim_outcome(finalize_step(claim_step(RecordStatus::Absent, t1), response))
            == ClaimOutcome::Replay(response),
        claim_step(finalize_step(claim_step(RecordStatus::Absent, t1), response), t2)
            == finalize_step(claim_step(RecordStatus::Absent, t1), response),
{
}

/// Header order and multiplicity: the response a later caller replays
/// carries the captured header sequence itself, so order and repeated
/// names survive the round trip through the store.
pub proof fn lemma_replay_preserves_headers(response: ResponseModel, t1: int)
    ensures
        claim_outcome(finalize_step(claim_step(RecordStatus::Absent, t1), response)) matches
            ClaimOutcome::Replay(r) && r.headers == response.headers,
{
}

/// Rollback reusability: a claim that is rolled back leaves the record
/// absent, so a later claim attempt for the same pair wins again.
pub proof fn lemma_rollback_reusability(t1: int, t2: int)
    ensures
        rollback_step(claim_step(RecordStatus::Absent, t1)) is Absent,
        claim_outcome(rollback_step(claim_step(RecordStatus::Absent, t1))) is Inserted,
        claim_step(rollback_step(claim_step(RecordStatus::Absent, t1)), t2)
            == (RecordStatus::Claimed { created_at: t2 }),
{
}

/// Race surfacing: a claim attempt that finds the record claimed but not
/// finalized observes the in-flight outcome — surfaced to the caller as the
/// `InvariantViolation` error — rather than winning or blocking.
pub proof fn lemma_race_surfacing(t1: int)
    ensures
        claim_outcome(claim_step(RecordStatus::Absent, t1)) is InFlight,
{
}

} // verus!
