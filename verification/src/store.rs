//! The subscriber store: durably records validated submissions.
//!
//! The store owns record creation: it draws a fresh identifier and a
//! current timestamp, and an insert either appends exactly one record or
//! leaves the records untouched. Identifiers are unique across all records,
//! and timestamps never decrease along the insertion order: the drawn clock
//! value is clamped so a clock stepping back cannot break the order.
//! Repeated submissions of one address are deliberately kept as independent
//! records. An unavailable store (storage unreachable) refuses every insert
//! and changes nothing.

use vstd::prelude::*;
use crate::validation::ValidSubmission;

verus! {

/// A persisted subscriber: the durable form of an accepted submission.
#[derive(Debug)]
pub struct SubscriberRecord {
    /// Identifier unique among all records, drawn at insert time.
    pub id: u128,
    /// The accepted email address.
    pub email: String,
    /// The accepted name.
    pub name: String,
    /// Insertion instant, in milliseconds since the Unix epoch (UTC).
    pub subscribed_at: i64,
}

/// Why an insert failed. Either way, nothing was recorded.
#[derive(PartialEq, Eq, Structural, Clone, Copy, Debug)]
pub enum StoreError {
    /// The storage cannot be reached.
    Unavailable,
    /// The freshly drawn identifier collides with an existing record.
    IdCollision,
}

/// No two records share an identifier.
pub open spec fn unique_ids(records: Seq<SubscriberRecord>) -> bool {
    forall|p: int, q: int| 0 <= p < q < records.len() ==> records[p].id != records[q].id
}

/// Timestamps never decrease along the insertion order.
pub open spec fn timestamps_ordered(records: Seq<SubscriberRecord>) -> bool {
    forall|p: int, q: int|
        0 <= p < q < records.len() ==> records[p].subscribed_at <= records[q].subscribed_at
}

/// The timestamp an insert records: the drawn clock value, clamped so it
/// never falls below the newest record's timestamp.
pub open spec fn clamped_timestamp(records: Seq<SubscriberRecord>, now: i64) -> i64 {
    if records.len() > 0 && records.last().subscribed_at > now {
        records.last().subscribed_at
    } else {
        now
    }
}

/// Some record carries the identifier.
pub open spec fn contains_id(records: Seq<SubscriberRecord>, id: u128) -> bool {
    exists|k: int| 0 <= k < records.len() && records[k].id == id
}

/// How many records carry the identifier.
pub open spec fn count_with_id(records: Seq<SubscriberRecord>, id: u128) -> nat
    decreases records.len(),
{
    if records.len() == 0 {
        0
    } else {
        count_with_id(records.drop_last(), id) + (if records.last().id == id {
            1nat
        } else {
            0nat
        })
    }
}

/// The subscriber storage, viewed as the sequence of records inserted so
/// far, oldest first.
pub struct SubscriberStore {
    records: Vec<SubscriberRecord>,
    available: bool,
}

impl View for SubscriberStore {
    type V = Seq<SubscriberRecord>;

    closed spec fn view(&self) -> Seq<SubscriberRecord> {
        self.records@
    }
}

impl SubscriberStore {
    /// Whether the backing storage can currently be reached.
    pub closed spec fn is_available(&self) -> bool {
        self.available
    }

    /// The store's invariant: record identifiers never repeat, and
    /// timestamps never decrease along the insertion order.
    pub open spec fn inv(&self) -> bool {
        unique_ids(self@) && timestamps_ordered(self@)
    }

    /// An empty, reachable store.
    pub fn new() -> (s: SubscriberStore)
        ensures
            s@ == Seq::<SubscriberRecord>::empty(),
            s.inv(),
            s.is_available(),
    {
        SubscriberStore { records: Vec::new(), available: true }
    }

    /// Marks the backing storage reachable or unreachable, leaving the
    /// records as they are.
    pub fn set_available(&mut self, available: bool)
        ensures
            final(self)@ == old(self)@,
            final(self).is_available() == available,
    {
        self.available = available;
    }

    /// How many records the store holds.
    pub fn len(&self) -> (n: usize)
        ensures
            n == self@.len(),
    {
        self.records.len()
    }

    /// Reads the records inserted so far.
    pub fn records(&self) -> (r: &Vec<SubscriberRecord>)
        ensures
            r@ == self@,
    {
        &self.records
    }

    /// Whether some record already carries `id`.
    fn holds_id(&self, id: u128) -> (b: bool)
        ensures
            b == contains_id(self@, id),
    {
        let n = self.records.len();
        let mut k: usize = 0;
        while k < n
            invariant
                n == self@.len(),
                0 <= k <= n,
                forall|p: int| 0 <= p < k ==> self@[p].id != id,
            decreases n - k,
        {
            if self.records[k].id == id {
                return true;
            }
            k = k + 1;
        }
        false
    }

    /// The single atomic insert step, taking the drawn identifier and
    /// timestamp as arguments: it succeeds exactly when the storage is
    /// reachable and `id` is fresh, and then appends exactly one record,
    /// whose fields are the submission's and whose timestamp is the drawn
    /// value clamped against the newest record's; otherwise it changes
    /// nothing.
    pub fn insert_subscriber_record(
        &mut self,
        submission: &ValidSubmission,
        id: u128,
        subscribed_at: i64,
    ) -> (r: Result<SubscriberRecord, StoreError>)
        requires
            old(self).inv(),
        ensures
            final(self).inv(),
            final(self).is_available() == old(self).is_available(),
            r is Ok <==> old(self).is_available() && !contains_id(old(self)@, id),
            r is Ok ==> final(self)@ == old(self)@.push(r->Ok_0),
            r is Ok ==> r->Ok_0.id == id && r->Ok_0.subscribed_at == clamped_timestamp(
                old(self)@,
                subscribed_at,
            ) && r->Ok_0.email@ == submission.spec_email() && r->Ok_0.name@
                == submission.spec_name(),
            r is Err ==> final(self)@ == old(self)@,
            r is Err ==> r->Err_0 == (if old(self).is_available() {
                StoreError::IdCollision
            } else {
                StoreError::Unavailable
            }),
    {
        if !self.available {
            return Err(StoreError::Unavailable);
        }
        if self.holds_id(id) {
            return Err(StoreError::IdCollision);
        }
        let n = self.records.len();
        let ts = if n > 0 {
            let newest = self.records[n - 1].subscribed_at;
            if newest > subscribed_at {
                newest
            } else {
                subscribed_at
            }
        } else {
            subscribed_at
        };
        let email = submission.email();
        let name = submission.name();
        let record = SubscriberRecord { id, email: email.clone(), name: name.clone(), subscribed_at: ts };
        let returned = SubscriberRecord { id, email: email.clone(), name: name.clone(), subscribed_at: ts };
        proof {
            assert(record == returned);
        }
        self.records.push(record);
        proof {
            assert forall|p: int, q: int|
                0 <= p < q < self@.len() implies self@[p].id != self@[q].id by {
                if q < self@.len() - 1 {
                    assert(old(self)@[p].id != old(self)@[q].id);
                } else {
                    assert(!contains_id(old(self)@, id));
                }
            }
            assert forall|p: int, q: int|
                0 <= p < q < self@.len() implies self@[p].subscribed_at
                <= self@[q].subscribed_at by {
                if q < self@.len() - 1 {
                    assert(old(self)@[p].subscribed_at <= old(self)@[q].subscribed_at);
                } else if p < self@.len() - 2 {
                    assert(old(self)@[p].subscribed_at <= old(self)@.last().subscribed_at);
                }
            }
        }
        Ok(returned)
    }

    /// Inserts a validated submission: draws a fresh identifier and the
    /// current UTC timestamp, then performs the single atomic insert step.
    /// On success exactly one record was appended, its fields are the
    /// submission's, and its timestamp does not precede the newest record's;
    /// on failure nothing changed. An unreachable storage is reported as
    /// [`StoreError::Unavailable`]; a reachable one fails only when the
    /// drawn identifier collides with a stored record, so an insert into an
    /// empty reachable store always succeeds.
    pub fn insert_subscriber(&mut self, submission: &ValidSubmission) -> (r: Result<
        SubscriberRecord,
        StoreError,
    >)
        requires
            old(self).inv(),
        ensures
            final(self).inv(),
            final(self).is_available() == old(self).is_available(),
            r is Ok ==> final(self)@ == old(self)@.push(r->Ok_0) && !contains_id(
                old(self)@,
                r->Ok_0.id,
            ),
            r is Ok ==> r->Ok_0.email@ == submission.spec_email() && r->Ok_0.name@
                == submission.spec_name(),
            r is Err ==> final(self)@ == old(self)@,
            !old(self).is_available() ==> r is Err && r->Err_0 == StoreError::Unavailable,
            r is Err && old(self).is_available() ==> r->Err_0 == StoreError::IdCollision && old(
                self,
            )@.len() > 0,
            r is Ok ==> old(self).is_available(),
            r is Ok && old(self)@.len() > 0 ==> r->Ok_0.subscribed_at >= old(
                self,
            )@.last().subscribed_at,
    {
        let id = fresh_id();
        let subscribed_at = now_millis();
        self.insert_subscriber_record(submission, id, subscribed_at)
    }
}

/// After a successful insert, the store holds exactly one record with the
/// new identifier: the appended one. Its identifier appears nowhere in the
/// records that were already there.
pub proof fn lemma_inserted_record_unique(before: Seq<SubscriberRecord>, rec: SubscriberRecord)
    requires
        unique_ids(before.push(rec)),
    ensures
        !contains_id(before, rec.id),
        count_with_id(before.push(rec), rec.id) == 1,
{
    let after = before.push(rec);
    assert forall|k: int| 0 <= k < before.len() implies before[k].id != rec.id by {
        assert(after[k] == before[k]);
        assert(after[before.len() as int] == rec);
    }
    assert(after.drop_last() =~= before);
    lemma_absent_id_not_counted(before, rec.id);
}

/// An identifier carried by no record is counted zero times.
pub proof fn lemma_absent_id_not_counted(records: Seq<SubscriberRecord>, id: u128)
    requires
        !contains_id(records, id),
    ensures
        count_with_id(records, id) == 0,
    decreases records.len(),
{
    if records.len() > 0 {
        assert(!contains_id(records.drop_last(), id)) by {
            if contains_id(records.drop_last(), id) {
                let k = choose|k: int|
                    0 <= k < records.drop_last().len() && records.drop_last()[k].id == id;
                assert(records[k].id == id);
            }
        }
        lemma_absent_id_not_counted(records.drop_last(), id);
        assert(records.last().id != id);
    }
}

/// Relies on `uuid::Uuid::new_v4`: a freshly drawn random identifier,
/// returned as its 128-bit value. The draw is random, so nothing is
/// promised of the result.
#[verifier::external_body]
pub(crate) fn fresh_id() -> u128 {
    uuid::Uuid::new_v4().as_u128()
}

/// Relies on `chrono::Utc::now`: the current UTC instant, converted to
/// milliseconds since the Unix epoch. The clock decides the value, so
/// nothing is promised of it.
#[verifier::external_body]
fn now_millis() -> i64 {
    chrono::Utc::now().timestamp_millis()
}

} // verus!
