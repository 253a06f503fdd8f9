//! The notification store model and the submission path: a keyed map of
//! records with exactly one record per id, and `send`, which routes a fresh
//! notification through validation and routing into the queue.

use vstd::prelude::*;

use crate::errors::{NotificationError, NotificationResult};
use crate::identity::{NotificationId, NotificationIdentity};
use crate::content::NotificationContent;
use crate::lifecycle::{NotificationLifecycle, NotificationState, TransitionReason};
use crate::manager::NotificationRecord;
use crate::platform::{Platform, PlatformIntegration};
use crate::time_wrapper::DefaultableInstant;

verus! {

/// A notification ready for submission.
#[derive(Debug, Clone)]
pub struct Notification {
    pub identity: NotificationIdentity,
    pub content: NotificationContent,
    pub platform_integration: PlatformIntegration,
    pub lifecycle: NotificationLifecycle,
}

/// A point-in-time answer to a status query.
#[derive(Debug, Clone)]
pub struct NotificationStatus {
    pub id: NotificationId,
    pub state: NotificationState,
    pub platforms: Vec<Platform>,
    pub created_at: DefaultableInstant,
}

/// The first record under `id` in a store list.
pub open spec fn store_get(
    m: Seq<(NotificationId, NotificationRecord)>,
    id: NotificationId,
) -> Option<NotificationRecord>
    decreases m.len(),
{
    if m.len() == 0 {
        None
    } else if m[0].0 == id {
        Some(m[0].1)
    } else {
        store_get(m.drop_first(), id)
    }
}

/// The keyed store of notification records.  The surrounding application
/// shares it between the workers; this model holds the bookkeeping every
/// access must respect: one record per id, every record well formed with at
/// least one target platform.
#[derive(Debug)]
pub struct NotificationStore {
    pub entries: Vec<(NotificationId, NotificationRecord)>,
}

impl NotificationStore {
    /// One record per id, every record well formed.
    pub open spec fn wf(self) -> bool {
        &&& (forall|i: int, j: int|
            0 <= i < j < self.entries@.len() ==> (#[trigger] self.entries@[i]).0 != (
            #[trigger] self.entries@[j]).0)
        &&& (forall|i: int|
            0 <= i < self.entries@.len() ==> (#[trigger] self.entries@[i]).1.wf())
    }

    /// An empty store.
    pub fn new() -> (r: NotificationStore)
        ensures
            r.entries@.len() == 0,
            r.wf(),
    {
        NotificationStore { entries: Vec::new() }
    }

    /// How many records the store holds.
    pub fn len(&self) -> (r: usize)
        ensures
            r == self.entries@.len(),
    {
        self.entries.len()
    }

    /// The record stored under `id`, if any.
    pub fn get(&self, id: NotificationId) -> (r: Option<&NotificationRecord>)
        ensures
            match r {
                Some(record) => store_get(self.entries@, id) == Some(*record),
                None => store_get(self.entries@, id) is None,
            },
    {
        let n: usize = self.entries.len();
        let mut i: usize = 0;
        proof {
            assert(self.entries@.skip(0) =~= self.entries@);
        }
        while i < n
            invariant
                n == self.entries@.len(),
                i <= n,
                store_get(self.entries@, id) == store_get(self.entries@.skip(i as int), id),
            decreases n - i,
        {
            proof {
                assert(self.entries@.skip(i as int)[0] == self.entries@[i as int]);
                assert(self.entries@.skip(i as int).drop_first() =~= self.entries@.skip(
                    i as int + 1,
                ));
            }
            if self.entries[i].0 == id {
                return Some(&self.entries[i].1);
            }
            i = i + 1;
        }
        None
    }

    /// A mutable handle to the record stored under `id`, if any.
    pub fn get_mut(&mut self, id: NotificationId) -> (r: Option<&mut NotificationRecord>)
        requires
            old(self).wf(),
    {
        let n: usize = self.entries.len();
        let mut i: usize = 0;
        while i < n
            invariant
                n == self.entries@.len(),
                i <= n,
            decreases n - i,
        {
            if self.entries[i].0 == id {
                return Some(&mut self.entries[i].1);
            }
            i = i + 1;
        }
        None
    }

    /// Insert a record under an id not yet present.  Every other record is
    /// untouched, so two submissions with distinct ids both end up in the
    /// store, each under its own id.
    pub fn insert_new(&mut self, id: NotificationId, record: NotificationRecord)
        requires
            old(self).wf(),
            store_get(old(self).entries@, id) is None,
            record.wf(),
        ensures
            final(self).wf(),
            store_get(final(self).entries@, id) == Some(record),
            forall|id2: NotificationId|
                id2 != id ==> store_get(final(self).entries@, id2) == store_get(
                    old(self).entries@,
                    id2,
                ),
            final(self).entries@.len() == old(self).entries@.len() + 1,
    {
        let ghost before = self.entries@;
        proof {
            lemma_store_get_none_keys(before, id);
        }
        self.entries.push((id, record));
        proof {
            assert forall|id2: NotificationId| #[trigger] store_get(self.entries@, id2) == (
            if id2 == id && store_get(before, id2) is None {
                Some(record)
            } else {
                store_get(before, id2)
            }) by {
                lemma_store_get_push(before, id, record, id2);
            }
            assert forall|i1: int, j1: int|
                0 <= i1 < j1 < self.entries@.len() implies (#[trigger] self.entries@[i1]).0
                != (#[trigger] self.entries@[j1]).0 by {
                if j1 == self.entries@.len() - 1 {
                    assert(self.entries@[i1] == before[i1]);
                    assert(before[i1].0 != id) by {
                        lemma_store_key_absent(before, id, i1);
                    }
                } else {
                    assert(self.entries@[i1] == before[i1]);
                    assert(self.entries@[j1] == before[j1]);
                }
            }
            assert forall|i1: int|
                0 <= i1 < self.entries@.len() implies (#[trigger] self.entries@[i1]).1.wf()
                by {
                if i1 < self.entries@.len() - 1 {
                    assert(self.entries@[i1] == before[i1]);
                }
            }
        }
    }

    /// A snapshot of all entries, for the workers' collect phases.
    pub fn snapshot(&self) -> &Vec<(NotificationId, NotificationRecord)> {
        &self.entries
    }
}

/// A lookup that misses means no entry carries the key.
proof fn lemma_store_get_none_keys(m: Seq<(NotificationId, NotificationRecord)>, id:
    NotificationId)
    requires
        store_get(m, id) is None,
    ensures
        forall|j: int| 0 <= j < m.len() ==> (#[trigger] m[j]).0 != id,
    decreases m.len(),
{
    if m.len() > 0 {
        lemma_store_get_none_keys(m.drop_first(), id);
        assert forall|j: int| 0 <= j < m.len() implies (#[trigger] m[j]).0 != id by {
            if j > 0 {
                assert(m.drop_first()[j - 1] == m[j]);
            }
        }
    }
}

proof fn lemma_store_key_absent(
    m: Seq<(NotificationId, NotificationRecord)>,
    id: NotificationId,
    j: int,
)
    requires
        store_get(m, id) is None,
        0 <= j < m.len(),
    ensures
        m[j].0 != id,
{
    lemma_store_get_none_keys(m, id);
}

/// Appending an entry only affects lookups of its key, and only when the
/// key was absent.
proof fn lemma_store_get_push(
    m: Seq<(NotificationId, NotificationRecord)>,
    id: NotificationId,
    record: NotificationRecord,
    id2: NotificationId,
)
    ensures
        store_get(m.push((id, record)), id2) == (if id2 == id && store_get(m, id2) is None {
            Some(record)
        } else {
            store_get(m, id2)
        }),
    decreases m.len(),
{
    let pushed = m.push((id, record));
    if m.len() == 0 {
        assert(pushed[0] == (id, record));
        assert(pushed.drop_first() =~= Seq::<(NotificationId, NotificationRecord)>::empty());
        if id2 == id {
            assert(store_get(pushed, id2) == Some(record));
        } else {
            assert(store_get(pushed, id2) == store_get(pushed.drop_first(), id2));
        }
    } else {
        assert(pushed[0] == m[0]);
        assert(pushed.drop_first() =~= m.drop_first().push((id, record)));
        lemma_store_get_push(m.drop_first(), id, record, id2);
        if m[0].0 == id2 {
            assert(store_get(pushed, id2) == Some(m[0].1));
            assert(store_get(m, id2) == Some(m[0].1));
        } else {
            assert(store_get(pushed, id2) == store_get(m.drop_first().push((id, record)), id2));
            assert(store_get(m, id2) == store_get(m.drop_first(), id2));
        }
    }
}

/// Submit a notification: route its lifecycle from `Created` through
/// `Validating` and `PlatformRouting` into `Queued` with reason
/// `QueuedByAttentionManager`, and store the record under its id.  Succeeds
/// exactly when the lifecycle starts in `Created` and the id is not taken;
/// on success the stored record is queued and every other record is left
/// untouched.
pub fn send_to_store(store: &mut NotificationStore, notification: Notification) -> (r:
    NotificationResult<NotificationId>)
    requires
        old(store).wf(),
        notification.lifecycle.wf(),
        notification.platform_integration.wf(),
    ensures
        final(store).wf(),
        r is Ok <==> (notification.lifecycle.state is Created && store_get(
            old(store).entries@,
            notification.identity.id,
        ) is None),
        r matches Ok(id) ==> {
            &&& id == notification.identity.id
            &&& (store_get(final(store).entries@, id) matches Some(record)
                && record.lifecycle.state is Queued && record.identity == notification.identity)
            &&& (forall|id2: NotificationId|
                id2 != id ==> store_get(final(store).entries@, id2) == store_get(
                    old(store).entries@,
                    id2,
                ))
        },
        r is Err ==> final(store).entries@ == old(store).entries@,
{
    let id: NotificationId = notification.identity.id;
    let taken: bool = match store.get(id) {
        Some(_) => true,
        None => false,
    };
    if taken {
        return Err(
            NotificationError::ValidationError {
                field: "id".to_owned(),
                message: "A record with this id already exists".to_owned(),
            },
        );
    }
    let created: bool = match &notification.lifecycle.state {
        NotificationState::Created => true,
        _ => false,
    };
    if !created {
        return Err(
            NotificationError::ValidationError {
                field: "lifecycle".to_owned(),
                message: "Only a freshly created notification can be sent".to_owned(),
            },
        );
    }
    let mut lifecycle: NotificationLifecycle = notification.lifecycle;
    let step1 = lifecycle.transition_to(
        NotificationState::Validating,
        TransitionReason::QueuedByAttentionManager,
        Some(notification.identity.correlation_id.clone()),
    );
    proof {
        assert(step1 is Ok);
    }
    let step2 = lifecycle.transition_to(
        NotificationState::PlatformRouting,
        TransitionReason::QueuedByAttentionManager,
        Some(notification.identity.correlation_id.clone()),
    );
    proof {
        assert(step2 is Ok);
    }
    let step3 = lifecycle.transition_to(
        NotificationState::Queued,
        TransitionReason::QueuedByAttentionManager,
        Some(notification.identity.correlation_id.clone()),
    );
    proof {
        assert(step3 is Ok);
    }
    let record: NotificationRecord = NotificationRecord {
        identity: notification.identity,
        content: notification.content,
        lifecycle,
        platform_integration: notification.platform_integration,
    };
    store.insert_new(id, record);
    Ok(id)
}

} // verus!
