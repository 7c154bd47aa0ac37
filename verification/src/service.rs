use vstd::prelude::*;
use vstd::string::StringExecFns;
use vstd::utf8::encode_utf8;

use crate::cache::{
    CacheDataType, CacheDataView, CacheEntry, CacheEntryView, CacheManager, CacheWritePlan,
    DecryptCacheData, DecryptRecordView, EncryptCacheData, EncryptRecordView,
};
use crate::config::AppConfig;
use crate::config::CrudApiInstance;
use crate::config::SchedulerStrategy;
use crate::config::config_valid;
use crate::crypto::EncryptionUtils;
use crate::errors::ServiceError;
use crate::scheduler::{CrudApiScheduler, InstanceHealthStatus, counter_next};
use crate::test_instance::{TestInstanceConfig, TestInstanceManager};

verus! {

broadcast use vstd::string::group_string_axioms;

/// One encrypt request as the boundary layer hands it in.
#[derive(Debug)]
pub struct EncryptRequest {
    pub data: String,
    pub password: String,
    pub resource_type: String,
}

/// One decrypt request; `encrypted_data` is used directly when no
/// resource id is given or the backend cannot be reached.
#[derive(Debug)]
pub struct DecryptRequest {
    pub encrypted_data: String,
    pub password: String,
    pub resource_type: String,
    pub resource_id: Option<String>,
}

#[derive(Debug)]
pub struct EncryptResponse {
    pub encrypted_data: String,
    pub resource_id: Option<String>,
}

#[derive(Debug)]
pub struct DecryptResponse {
    pub data: String,
    pub resource_id: Option<String>,
}

/// The uniform envelope the boundary layer wraps results in.
#[derive(Debug)]
pub struct GenericResponse<T> {
    pub success: bool,
    pub message: String,
    pub data: Option<T>,
}

/// What the backend write call came back with: saved (with the id the
/// backend assigned, if its envelope held one) or failed in any way.
#[derive(Debug)]
pub enum BackendWriteResult {
    Saved { resource_id: Option<String> },
    Failed,
}

/// The verified half of one encrypt flow: the ciphertext, the audit
/// cache record that must be persisted in every outcome, and the
/// instance selected for the backend write — none when no healthy
/// write instance exists, which is the caller's cue to trigger the
/// fallback path.
#[derive(Debug)]
pub struct EncryptAttempt {
    pub encrypted_data: String,
    pub cache_entry: CacheEntry,
    pub cache_plan: CacheWritePlan,
    pub instance: Option<CrudApiInstance>,
}

/// The configured service role admits encryption.
pub open spec fn role_allows_encrypt(role: Seq<char>) -> bool {
    role == "encrypt"@ || role == "mixed"@
}

/// The configured service role admits decryption.
pub open spec fn role_allows_decrypt(role: Seq<char>) -> bool {
    role == "decrypt"@ || role == "mixed"@
}

pub open spec fn opt_string_view(o: Option<String>) -> Option<Seq<char>> {
    match o {
        Some(s) => Some(s@),
        None => None,
    }
}

/// The ciphertext a decrypt flow works on: what the backend returned
/// when it did, else what the request carried.
pub open spec fn used_ciphertext(request: DecryptRequest, fetched: Option<String>) -> Seq<char> {
    match fetched {
        Some(s) => s@,
        None => request.encrypted_data@,
    }
}

/// The request-level coordinator: computes ciphertext locally, asks the
/// scheduler for a backend instance, and prepares the cache record and
/// fallback decisions; the caller performs the network and disk steps
/// between the prepare and complete halves of each flow.
#[derive(Debug)]
pub struct EncryptionService {
    config: AppConfig,
    crypto_utils: EncryptionUtils,
    scheduler: CrudApiScheduler,
    cache_manager: CacheManager,
    test_instance_manager: TestInstanceManager,
}

impl EncryptionService {
    pub closed spec fn spec_config(self) -> AppConfig {
        self.config
    }

    pub closed spec fn spec_crypto(self) -> EncryptionUtils {
        self.crypto_utils
    }

    pub closed spec fn spec_scheduler(self) -> CrudApiScheduler {
        self.scheduler
    }

    pub closed spec fn spec_cache_manager(self) -> CacheManager {
        self.cache_manager
    }

    pub closed spec fn spec_fallback(self) -> TestInstanceManager {
        self.test_instance_manager
    }

    pub open spec fn wf(self) -> bool {
        &&& self.spec_scheduler().wf()
        &&& self.spec_cache_manager().wf()
    }

    /// Builds the service over a configuration: the cipher from the
    /// encryption settings, a scheduler over the configured instances
    /// (all initially unknown), the default cache layout, and an empty
    /// fallback slot with the given notification target.
    pub fn new(config: AppConfig, wechat_webhook_url: String) -> (r: Self)
        ensures
            r.wf(),
            r.spec_config() == config,
            r.spec_crypto().spec_algorithm() == config.encryption.algorithm@,
            r.spec_crypto().spec_key_length() == config.encryption.key_length,
            r.spec_crypto().spec_salt() == encode_utf8(config.encryption.salt@),
            r.spec_scheduler().spec_instances() == config.crud_api.instances@,
            forall|i: int|
                0 <= i < r.spec_scheduler().spec_health().len() ==> r.spec_scheduler().spec_health()[i]
                    == InstanceHealthStatus::Unknown,
            r.spec_scheduler().spec_strategy() == config.crud_api.strategy,
            r.spec_scheduler().spec_counter() == 0,
            r.spec_cache_manager().spec_update_interval() == 3600,
            r.spec_cache_manager().spec_retention_time() == 86400,
            r.spec_fallback().spec_slot() is None,
            r.spec_fallback().spec_webhook_url() == wechat_webhook_url@,
    {
        let crypto_utils = EncryptionUtils::new(
            config.encryption.algorithm.clone(),
            config.encryption.key_length,
            config.encryption.iterations,
            config.encryption.salt.clone(),
        );
        let scheduler = CrudApiScheduler::new(&config);
        let cache_manager = CacheManager::new();
        let test_instance_manager = TestInstanceManager::new(wechat_webhook_url);
        EncryptionService { config, crypto_utils, scheduler, cache_manager, test_instance_manager }
    }

    pub fn get_service_id(&self) -> (r: String)
        ensures
            r@ == self.spec_config().service.id@,
    {
        self.config.service.id.clone()
    }

    pub fn get_service_role(&self) -> (r: String)
        ensures
            r@ == self.spec_config().service.role@,
    {
        self.config.service.role.clone()
    }

    pub fn get_scheduler(&self) -> (r: &CrudApiScheduler)
        ensures
            *r == self.spec_scheduler(),
    {
        &self.scheduler
    }

    pub fn get_test_instance_manager(&self) -> (r: &TestInstanceManager)
        ensures
            *r == self.spec_fallback(),
    {
        &self.test_instance_manager
    }

    pub fn get_cache_manager(&self) -> (r: &CacheManager)
        ensures
            *r == self.spec_cache_manager(),
    {
        &self.cache_manager
    }

    /// Applies one health-probe batch to the scheduler; see
    /// `CrudApiScheduler::apply_health_batch`. Nothing else changes.
    pub fn apply_health_statuses(&mut self, new_statuses: &Vec<InstanceHealthStatus>) -> (changed:
        Vec<bool>)
        requires
            old(self).wf(),
            new_statuses@.len() == old(self).spec_scheduler().spec_instances().len(),
        ensures
            final(self).wf(),
            final(self).spec_config() == old(self).spec_config(),
            final(self).spec_crypto() == old(self).spec_crypto(),
            final(self).spec_cache_manager() == old(self).spec_cache_manager(),
            final(self).spec_fallback() == old(self).spec_fallback(),
            final(self).spec_scheduler().spec_instances() == old(
                self,
            ).spec_scheduler().spec_instances(),
            final(self).spec_scheduler().spec_strategy() == old(
                self,
            ).spec_scheduler().spec_strategy(),
            final(self).spec_scheduler().spec_counter() == old(self).spec_scheduler().spec_counter(),
            final(self).spec_scheduler().spec_health() == new_statuses@,
            changed@.len() == new_statuses@.len(),
            forall|i: int|
                0 <= i < changed@.len() ==> changed@[i] == (old(
                    self,
                ).spec_scheduler().spec_health()[i] != new_statuses@[i]),
    {
        self.scheduler.apply_health_batch(new_statuses)
    }

    /// One tick of the fallback expiry check; see
    /// `TestInstanceManager::periodic_check`. Nothing else changes.
    pub fn fallback_periodic_check(&mut self, now: u64) -> (notify: bool)
        ensures
            final(self).spec_config() == old(self).spec_config(),
            final(self).spec_crypto() == old(self).spec_crypto(),
            final(self).spec_cache_manager() == old(self).spec_cache_manager(),
            final(self).spec_scheduler() == old(self).spec_scheduler(),
            (match old(self).spec_fallback().spec_slot() {
                Some(inst) => now > inst.expired_at && inst.state
                    != crate::test_instance::TestInstanceState::Expired,
                None => false,
            }) ==> notify && (final(self).spec_fallback().spec_slot() matches Some(u) && u
                == TestInstanceConfig {
                state: crate::test_instance::TestInstanceState::Expired,
                ..old(self).spec_fallback().spec_slot()->Some_0
            }),
            !(match old(self).spec_fallback().spec_slot() {
                Some(inst) => now > inst.expired_at && inst.state
                    != crate::test_instance::TestInstanceState::Expired,
                None => false,
            }) ==> !notify && final(self).spec_fallback() == old(self).spec_fallback(),
    {
        self.test_instance_manager.periodic_check(now)
    }

    /// Ensures a fallback instance exists and hands back the cached
    /// entries to replay into it; see
    /// `TestInstanceManager::import_cache_data`. Nothing else changes.
    pub fn fallback_import(&mut self, now: u64, entries: Vec<CacheEntry>) -> (r: (
        TestInstanceConfig,
        Vec<CacheEntry>,
    ))
        requires
            now + crate::test_instance::TEST_INSTANCE_TTL_SECS <= u64::MAX,
        ensures
            final(self).spec_config() == old(self).spec_config(),
            final(self).spec_crypto() == old(self).spec_crypto(),
            final(self).spec_cache_manager() == old(self).spec_cache_manager(),
            final(self).spec_scheduler() == old(self).spec_scheduler(),
            (match old(self).spec_fallback().spec_slot() {
                Some(inst) => inst.state == crate::test_instance::TestInstanceState::Created,
                None => false,
            }) ==> r.0 == old(self).spec_fallback().spec_slot()->Some_0
                && final(self).spec_fallback().spec_slot() == old(self).spec_fallback().spec_slot(),
            (match old(self).spec_fallback().spec_slot() {
                Some(inst) => inst.state != crate::test_instance::TestInstanceState::Created,
                None => true,
            }) ==> crate::test_instance::fresh_record(r.0, now)
                && final(self).spec_fallback().spec_slot() == Some(r.0),
            r.1 == entries,
    {
        self.test_instance_manager.import_cache_data(now, entries)
    }

    /// The prepared half of one encrypt flow at time `now`.
    ///
    /// The role must admit encryption, else `RoleNotPermitted`; the
    /// ciphertext is computed locally whatever the backends' health; a
    /// cache record of the operation is prepared in every outcome; and
    /// a write instance is selected per the scheduler's policy — `None`
    /// exactly when no healthy write candidate exists, in which case
    /// the caller persists the record and triggers the fallback path.
    pub fn encrypt_prepare(&mut self, request: &EncryptRequest, now: u64) -> (r: Result<
        EncryptAttempt,
        ServiceError,
    >)
        requires
            old(self).wf(),
        ensures
            final(self).wf(),
            final(self).spec_config() == old(self).spec_config(),
            final(self).spec_crypto() == old(self).spec_crypto(),
            final(self).spec_cache_manager() == old(self).spec_cache_manager(),
            final(self).spec_fallback() == old(self).spec_fallback(),
            final(self).spec_scheduler().spec_instances() == old(
                self,
            ).spec_scheduler().spec_instances(),
            final(self).spec_scheduler().spec_health() == old(self).spec_scheduler().spec_health(),
            final(self).spec_scheduler().spec_strategy() == old(
                self,
            ).spec_scheduler().spec_strategy(),
            !role_allows_encrypt(old(self).spec_config().service.role@) ==> r == Err::<
                EncryptAttempt,
                ServiceError,
            >(ServiceError::RoleNotPermitted) && *final(self) == *old(self),
            r matches Err(e) ==> ((e == ServiceError::RoleNotPermitted && !role_allows_encrypt(
                old(self).spec_config().service.role@,
            )) || (e == ServiceError::CipherFailure && role_allows_encrypt(
                old(self).spec_config().service.role@,
            ))),
            r is Err ==> final(self).spec_scheduler() == old(self).spec_scheduler(),
            r matches Ok(a) ==> {
                &&& role_allows_encrypt(old(self).spec_config().service.role@)
                &&& old(self).spec_crypto().spec_encrypt_ok(
                    request.data@,
                    request.password@,
                    a.encrypted_data@,
                )
                &&& a.cache_entry@ == (CacheEntryView {
                    timestamp: now,
                    data_type: CacheDataView::Encrypt(
                        EncryptRecordView {
                            data: request.data@,
                            password: request.password@,
                            resource_type: request.resource_type@,
                            encrypted_data: a.encrypted_data@,
                        },
                    ),
                })
                &&& a.cache_plan.file_path@ == old(self).spec_cache_manager().spec_file_name(
                    old(self).spec_cache_manager().spec_bucket(now),
                )
                &&& a.cache_plan.record@ == crate::codec::enc_entry(a.cache_entry@)
                &&& (a.instance is None <==> old(self).spec_scheduler().candidates(true).len()
                    == 0)
                &&& (a.instance is None ==> final(self).spec_scheduler() == old(
                    self,
                ).spec_scheduler())
                &&& (a.instance matches Some(inst) ==> old(
                    self,
                ).spec_scheduler().is_selectable_instance(true, inst))
                &&& (old(self).spec_scheduler().spec_strategy() != SchedulerStrategy::LoadBalance
                    ==> final(self).spec_scheduler().spec_counter() == old(
                    self,
                ).spec_scheduler().spec_counter() && (a.instance matches Some(inst) ==> inst == old(
                    self,
                ).spec_scheduler().candidates(true)[0]))
                &&& (old(self).spec_scheduler().spec_strategy() == SchedulerStrategy::LoadBalance
                    ==> (a.instance matches Some(inst) ==> {
                    let c = old(self).spec_scheduler().candidates(true);
                    &&& inst == c[old(self).spec_scheduler().spec_counter() as int % c.len() as int]
                    &&& final(self).spec_scheduler().spec_counter() == counter_next(
                        old(self).spec_scheduler().spec_counter(),
                    )
                }))
            },
    {
        let role_ok = self.config.service.role == String::from_str("encrypt")
            || self.config.service.role == String::from_str("mixed");
        if !role_ok {
            return Err(ServiceError::RoleNotPermitted);
        }
        let encrypted_data = match self.crypto_utils.encrypt(
            request.data.as_str(),
            request.password.as_str(),
        ) {
            Ok(ct) => ct,
            Err(_) => {
                return Err(ServiceError::CipherFailure);
            },
        };
        let payload = EncryptCacheData {
            data: request.data.clone(),
            password: request.password.clone(),
            resource_type: request.resource_type.clone(),
            encrypted_data: encrypted_data.clone(),
        };
        let (cache_entry, cache_plan) = self.cache_manager.write_cache(
            CacheDataType::Encrypt(payload),
            now,
        );
        let instance = match self.scheduler.select_instance(true) {
            Ok(inst) => Some(inst),
            Err(_) => None,
        };
        proof {
            assert(old(self).spec_crypto() == self.crypto_utils);
        }
        Ok(EncryptAttempt { encrypted_data, cache_entry, cache_plan, instance })
    }

    /// The completed half of one encrypt flow: the response carries the
    /// locally computed ciphertext in every outcome, and the backend's
    /// resource id exactly when the backend write was confirmed.
    pub fn encrypt_complete(&self, encrypted_data: String, backend: BackendWriteResult) -> (r:
        EncryptResponse)
        ensures
            r.encrypted_data@ == encrypted_data@,
            (backend matches BackendWriteResult::Saved { resource_id } ==> opt_string_view(
                r.resource_id,
            ) == opt_string_view(resource_id)),
            (backend is Failed ==> r.resource_id is None),
    {
        match backend {
            BackendWriteResult::Saved { resource_id } => EncryptResponse {
                encrypted_data,
                resource_id,
            },
            BackendWriteResult::Failed => EncryptResponse { encrypted_data, resource_id: None },
        }
    }

    /// The prepared half of one decrypt flow: checks the role, and when
    /// the request names a resource id, selects a read instance for the
    /// fetch. A selection failure is absorbed — the flow falls back to
    /// the ciphertext supplied in the request — so the result is `Ok`
    /// whenever the role admits decryption.
    pub fn decrypt_prepare(&mut self, request: &DecryptRequest) -> (r: Result<
        Option<CrudApiInstance>,
        ServiceError,
    >)
        requires
            old(self).wf(),
        ensures
            final(self).wf(),
            final(self).spec_config() == old(self).spec_config(),
            final(self).spec_crypto() == old(self).spec_crypto(),
            final(self).spec_cache_manager() == old(self).spec_cache_manager(),
            final(self).spec_fallback() == old(self).spec_fallback(),
            final(self).spec_scheduler().spec_instances() == old(
                self,
            ).spec_scheduler().spec_instances(),
            final(self).spec_scheduler().spec_health() == old(self).spec_scheduler().spec_health(),
            final(self).spec_scheduler().spec_strategy() == old(
                self,
            ).spec_scheduler().spec_strategy(),
            r is Ok <==> role_allows_decrypt(old(self).spec_config().service.role@),
            r matches Err(e) ==> e == ServiceError::RoleNotPermitted && *final(self) == *old(self),
            r matches Ok(sel) ==> {
                &&& (request.resource_id is None ==> sel is None && final(self).spec_scheduler()
                    == old(self).spec_scheduler())
                &&& (request.resource_id is Some ==> {
                    &&& (sel is None <==> old(self).spec_scheduler().candidates(false).len() == 0)
                    &&& (sel is None ==> final(self).spec_scheduler() == old(
                        self,
                    ).spec_scheduler())
                    &&& (sel matches Some(inst) ==> old(
                        self,
                    ).spec_scheduler().is_selectable_instance(false, inst))
                    &&& (old(self).spec_scheduler().spec_strategy()
                        != SchedulerStrategy::LoadBalance ==> final(self).spec_scheduler().spec_counter() == old(self).spec_scheduler().spec_counter()
                        && (sel matches Some(inst) ==> inst == old(
                        self,
                    ).spec_scheduler().candidates(false)[0]))
                    &&& (old(self).spec_scheduler().spec_strategy()
                        == SchedulerStrategy::LoadBalance ==> (sel matches Some(inst) ==> {
                        let c = old(self).spec_scheduler().candidates(false);
                        &&& inst == c[old(self).spec_scheduler().spec_counter() as int % c.len() as int]
                        &&& final(self).spec_scheduler().spec_counter() == counter_next(
                            old(self).spec_scheduler().spec_counter(),
                        )
                    }))
                })
            },
    {
        let role_ok = self.config.service.role == String::from_str("decrypt")
            || self.config.service.role == String::from_str("mixed");
        if !role_ok {
            return Err(ServiceError::RoleNotPermitted);
        }
        match &request.resource_id {
            Some(_) => {
                match self.scheduler.select_instance(false) {
                    Ok(inst) => Ok(Some(inst)),
                    Err(_) => Ok(None),
                }
            },
            None => Ok(None),
        }
    }

    /// The completed half of one decrypt flow at time `now`: decrypts
    /// the fetched ciphertext — or, when the backend fetch failed or no
    /// resource id was given, the ciphertext supplied in the request —
    /// and prepares the audit cache record. Only a cipher failure is
    /// surfaced; it is exactly a failure of local decryption on the
    /// ciphertext used.
    pub fn decrypt_complete(&self, request: &DecryptRequest, fetched: Option<String>, now: u64) -> (r:
        Result<(DecryptResponse, CacheEntry, CacheWritePlan), ServiceError>)
        requires
            self.wf(),
        ensures
            r is Ok <==> self.spec_crypto().spec_decrypt_ok(
                used_ciphertext(*request, fetched),
                request.password@,
            ),
            r matches Err(e) ==> e == ServiceError::CipherFailure,
            r matches Ok(p) ==> {
                &&& self.spec_crypto().spec_opened(
                    used_ciphertext(*request, fetched),
                    request.password@,
                ) == Some(encode_utf8(p.0.data@))
                &&& opt_string_view(p.0.resource_id) == opt_string_view(request.resource_id)
                &&& p.1@ == (CacheEntryView {
                    timestamp: now,
                    data_type: CacheDataView::Decrypt(
                        DecryptRecordView {
                            encrypted_data: used_ciphertext(*request, fetched),
                            password: request.password@,
                            resource_type: request.resource_type@,
                            resource_id: opt_string_view(request.resource_id),
                            decrypted_data: p.0.data@,
                        },
                    ),
                })
                &&& p.2.file_path@ == self.spec_cache_manager().spec_file_name(
                    self.spec_cache_manager().spec_bucket(now),
                )
                &&& p.2.record@ == crate::codec::enc_entry(p.1@)
            },
    {
        let ciphertext: String = match fetched {
            Some(s) => s,
            None => request.encrypted_data.clone(),
        };
        let data = match self.crypto_utils.decrypt(
            ciphertext.as_str(),
            request.password.as_str(),
        ) {
            Ok(d) => d,
            Err(_) => {
                return Err(ServiceError::CipherFailure);
            },
        };
        let resource_id = match &request.resource_id {
            Some(s) => Some(s.clone()),
            None => None,
        };
        let payload = DecryptCacheData {
            encrypted_data: ciphertext,
            password: request.password.clone(),
            resource_type: request.resource_type.clone(),
            resource_id: resource_id.clone(),
            decrypted_data: data.clone(),
        };
        let (cache_entry, cache_plan) = self.cache_manager.write_cache(
            CacheDataType::Decrypt(payload),
            now,
        );
        let response = DecryptResponse { data, resource_id };
        Ok((response, cache_entry, cache_plan))
    }

    /// The service health check: the configuration must validate and at
    /// least one registered instance must currently be recorded healthy.
    pub fn health_check(&self) -> (r: Result<(), ServiceError>)
        requires
            self.wf(),
        ensures
            r is Ok <==> config_valid(self.spec_config()) && exists|i: int|
                0 <= i < self.spec_scheduler().spec_health().len()
                    && self.spec_scheduler().spec_health()[i] == InstanceHealthStatus::Healthy,
            !config_valid(self.spec_config()) ==> r == Err::<(), ServiceError>(
                ServiceError::ConfigInvalid,
            ),
            r matches Err(e) ==> e == ServiceError::ConfigInvalid || e
                == ServiceError::NoHealthyInstance,
    {
        match self.config.validate() {
            Ok(()) => {},
            Err(e) => {
                return Err(e);
            },
        }
        if !self.scheduler.has_healthy_instance() {
            return Err(ServiceError::NoHealthyInstance);
        }
        Ok(())
    }
}

} // verus!
