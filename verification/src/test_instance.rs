use vstd::prelude::*;
use vstd::string::StringExecFns;

use crate::cache::CacheEntry;

verus! {

broadcast use vstd::string::group_string_axioms;

/// How long a fallback instance lives, in seconds.
pub const TEST_INSTANCE_TTL_SECS: u64 = 172800;

/// Lifecycle state of the fallback instance slot.
#[derive(Debug, Clone, Copy, PartialEq, Eq, Structural)]
pub enum TestInstanceState {
    NotCreated,
    Created,
    Expired,
}

/// The record of one fallback instance: a temporary backend stood up
/// when no configured backend is reachable.
#[derive(Debug)]
pub struct TestInstanceConfig {
    pub id: String,
    pub url: String,
    pub db_prefix: String,
    /// Creation time, seconds since the Unix epoch.
    pub created_at: u64,
    /// Expiry time, seconds since the Unix epoch.
    pub expired_at: u64,
    pub state: TestInstanceState,
}

impl Clone for TestInstanceConfig {
    fn clone(&self) -> (r: Self)
        ensures
            r == *self,
    {
        TestInstanceConfig {
            id: self.id.clone(),
            url: self.url.clone(),
            db_prefix: self.db_prefix.clone(),
            created_at: self.created_at,
            expired_at: self.expired_at,
            state: self.state,
        }
    }
}

/// The slot holds a record that can be reused as it stands: created,
/// and not yet past its expiry time.
pub open spec fn reusable(slot: Option<TestInstanceConfig>, now: u64) -> bool {
    match slot {
        Some(inst) => inst.state == TestInstanceState::Created && now < inst.expired_at,
        None => false,
    }
}

/// The fields of a record freshly created at `now`.
pub open spec fn fresh_record(inst: TestInstanceConfig, now: u64) -> bool {
    &&& inst.id@ == "test-instance-01"@
    &&& inst.url@ == "http://localhost:8001"@
    &&& inst.db_prefix@ == "test_"@
    &&& inst.created_at == now
    &&& inst.expired_at == now + TEST_INSTANCE_TTL_SECS
    &&& inst.state == TestInstanceState::Created
}

/// Manages the single fallback instance slot: at most one live fallback
/// exists at a time; an expired record is never resurrected, a later
/// outage installs a brand-new one.
#[derive(Debug)]
pub struct TestInstanceManager {
    test_instance: Option<TestInstanceConfig>,
    wechat_webhook_url: String,
}

impl TestInstanceManager {
    pub closed spec fn spec_slot(self) -> Option<TestInstanceConfig> {
        self.test_instance
    }

    pub closed spec fn spec_webhook_url(self) -> Seq<char> {
        self.wechat_webhook_url@
    }

    /// A manager with an empty slot. The notification target may be
    /// empty, in which case notifications are silently skipped.
    pub fn new(wechat_webhook_url: String) -> (r: Self)
        ensures
            r.spec_slot() is None,
            r.spec_webhook_url() == wechat_webhook_url@,
    {
        TestInstanceManager { test_instance: None, wechat_webhook_url }
    }

    /// A copy of the record currently in the slot, if any.
    pub fn current_instance(&self) -> (r: Option<TestInstanceConfig>)
        ensures
            r == self.spec_slot(),
    {
        match &self.test_instance {
            Some(inst) => Some(inst.clone()),
            None => None,
        }
    }

    /// The configured notification target.
    pub fn webhook_url(&self) -> (r: String)
        ensures
            r@ == self.spec_webhook_url(),
    {
        self.wechat_webhook_url.clone()
    }

    /// Whether an external notification target is configured; when it is
    /// not, skipping the notification is a silent no-op, not an error.
    pub fn notification_configured(&self) -> (r: bool)
        ensures
            r == (self.spec_webhook_url().len() != 0),
    {
        !self.wechat_webhook_url.as_str().is_empty()
    }

    /// Returns the fallback record to use at time `now`: a created and
    /// unexpired record is returned unchanged (idempotent reuse); any
    /// other slot content is replaced by a brand-new record created at
    /// `now`.
    pub fn create_test_instance(&mut self, now: u64) -> (r: TestInstanceConfig)
        requires
            now + TEST_INSTANCE_TTL_SECS <= u64::MAX,
        ensures
            reusable(old(self).spec_slot(), now) ==> r == old(self).spec_slot()->Some_0
                && final(self).spec_slot() == old(self).spec_slot(),
            !reusable(old(self).spec_slot(), now) ==> fresh_record(r, now)
                && final(self).spec_slot() == Some(r),
            final(self).spec_webhook_url() == old(self).spec_webhook_url(),
    {
        match &self.test_instance {
            Some(inst) => {
                if inst.state == TestInstanceState::Created && now < inst.expired_at {
                    return inst.clone();
                }
            },
            None => {},
        }
        let record = TestInstanceConfig {
            id: String::from_str("test-instance-01"),
            url: String::from_str("http://localhost:8001"),
            db_prefix: String::from_str("test_"),
            created_at: now,
            expired_at: now + TEST_INSTANCE_TTL_SECS,
            state: TestInstanceState::Created,
        };
        self.test_instance = Some(record.clone());
        record
    }

    /// Prepares a cache import: picks the fallback target — an existing
    /// created record as it stands, else a brand-new one — and returns
    /// it with the batch of entries to replay against it. The caller
    /// replays each entry independently; one failed replay must not
    /// abort the batch.
    pub fn import_cache_data(&mut self, now: u64, entries: Vec<CacheEntry>) -> (r: (
        TestInstanceConfig,
        Vec<CacheEntry>,
    ))
        requires
            now + TEST_INSTANCE_TTL_SECS <= u64::MAX,
        ensures
            (match old(self).spec_slot() {
                Some(inst) => inst.state == TestInstanceState::Created,
                None => false,
            }) ==> r.0 == old(self).spec_slot()->Some_0 && final(self).spec_slot() == old(self).spec_slot(),
            (match old(self).spec_slot() {
                Some(inst) => inst.state != TestInstanceState::Created,
                None => true,
            }) ==> fresh_record(r.0, now) && final(self).spec_slot() == Some(r.0),
            r.1 == entries,
            final(self).spec_webhook_url() == old(self).spec_webhook_url(),
    {
        let has_created = match &self.test_instance {
            Some(inst) => inst.state == TestInstanceState::Created,
            None => false,
        };
        let target = if has_created {
            match &self.test_instance {
                Some(inst) => inst.clone(),
                None => {
                    // unreachable: the slot was just seen to hold a created record
                    proof {
                        assert(false);
                    }
                    self.create_test_instance(now)
                },
            }
        } else {
            // not reusable: the slot is empty or its record left the
            // created state, so a fresh record is installed
            self.create_test_instance(now)
        };
        (target, entries)
    }

    /// One tick of the periodic check at time `now`: a created record
    /// whose expiry time has passed is marked `Expired`, and the caller
    /// is told to send the external notification (best-effort). Any
    /// other slot content is left untouched.
    pub fn periodic_check(&mut self, now: u64) -> (notify: bool)
        ensures
            (match old(self).spec_slot() {
                Some(inst) => now > inst.expired_at && inst.state != TestInstanceState::Expired,
                None => false,
            }) ==> {
                &&& notify
                &&& final(self).spec_slot() matches Some(u) && u == TestInstanceConfig {
                    state: TestInstanceState::Expired,
                    ..old(self).spec_slot()->Some_0
                }
            },
            !(match old(self).spec_slot() {
                Some(inst) => now > inst.expired_at && inst.state != TestInstanceState::Expired,
                None => false,
            }) ==> !notify && *final(self) == *old(self),
            final(self).spec_webhook_url() == old(self).spec_webhook_url(),
    {
        let expired_now = match &self.test_instance {
            Some(inst) => now > inst.expired_at && inst.state != TestInstanceState::Expired,
            None => false,
        };
        if expired_now {
            match &self.test_instance {
                Some(inst) => {
                    let mut u = inst.clone();
                    u.state = TestInstanceState::Expired;
                    self.test_instance = Some(u);
                },
                None => {},
            }
            true
        } else {
            false
        }
    }
}

/// Law: within the TTL a second `create_test_instance` finds the first
/// call's record reusable, so it returns that identical record (same id
/// and creation time) and leaves the slot unchanged; once the expiry
/// time has passed the record is no longer reusable, so a later call
/// installs a brand-new record with a fresh creation time.
pub proof fn lemma_fallback_lifecycle(rec: TestInstanceConfig, now2: u64, now3: u64)
    requires
        fresh_record(rec, rec.created_at),
        now2 < rec.expired_at,
        now3 >= rec.expired_at,
    ensures
        reusable(Some(rec), now2),
        !reusable(Some(rec), now3),
{
}

/// Law: marking a record expired makes it permanently unusable for
/// reuse — the manager never resurrects an expired record in place.
pub proof fn lemma_expired_never_reused(rec: TestInstanceConfig, now: u64)
    requires
        rec.state == TestInstanceState::Expired,
    ensures
        !reusable(Some(rec), now),
{
}

} // verus!
