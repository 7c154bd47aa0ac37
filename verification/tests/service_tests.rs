use encryption_service::cache::CacheDataType;
use encryption_service::codec::parse_entry;
use encryption_service::config::{
    AppConfig, CrudApiConfig, CrudApiInstance, EncryptionConfig, JwtConfig, SchedulerStrategy,
    ServerConfig, ServiceRoleConfig,
};
use encryption_service::errors::ServiceError;
use encryption_service::scheduler::InstanceHealthStatus;
use encryption_service::service::{
    BackendWriteResult, DecryptRequest, EncryptRequest, EncryptionService,
};
use encryption_service::test_instance::TestInstanceState;

fn instance(id: &str, url: &str, instance_type: &str) -> CrudApiInstance {
    CrudApiInstance {
        id: id.to_string(),
        url: url.to_string(),
        instance_type: instance_type.to_string(),
        timeout: 5000,
        retries: 3,
    }
}

fn config(role: &str) -> AppConfig {
    AppConfig {
        server: ServerConfig { host: "0.0.0.0".to_string(), port: 9999, https: false },
        jwt: JwtConfig {
            secret: "12345678901234567890".to_string(),
            expires_in: 3600,
            refresh_in: 86400,
        },
        encryption: EncryptionConfig {
            algorithm: "aes-256-gcm".to_string(),
            key_length: 32,
            iterations: 100000,
            salt: "default_salt".to_string(),
        },
        service: ServiceRoleConfig { role: role.to_string(), id: "encryption-01".to_string() },
        crud_api: CrudApiConfig {
            instances: vec![
                instance("w1", "http://w1", "write"),
                instance("r1", "http://r1", "read"),
            ],
            strategy: SchedulerStrategy::ReadWriteSplit,
            health_check_interval: 30,
            timeout: 5000,
            retries: 3,
        },
    }
}

#[test]
fn encrypt_with_all_backends_unhealthy_caches_and_falls_back() {
    let mut service = EncryptionService::new(config("mixed"), String::new());
    let request = EncryptRequest {
        data: "secret".to_string(),
        password: "pw1234567890".to_string(),
        resource_type: "notes".to_string(),
    };
    // every instance is still Unknown: nothing is selectable
    let attempt = service.encrypt_prepare(&request, 42).unwrap();
    assert!(!attempt.encrypted_data.is_empty());
    assert!(attempt.instance.is_none());
    // exactly one cache record, of the encrypt kind, carrying the request
    assert_eq!(attempt.cache_entry.timestamp, 42);
    match &attempt.cache_entry.data_type {
        CacheDataType::Encrypt(e) => {
            assert_eq!(e.data, "secret".to_string());
            assert_eq!(e.password, "pw1234567890".to_string());
            assert_eq!(e.resource_type, "notes".to_string());
            assert_eq!(e.encrypted_data, attempt.encrypted_data);
        },
        CacheDataType::Decrypt(_) => panic!("wrong record kind"),
    }
    // the prepared record is durable and parses back to the same entry
    let parsed = parse_entry(&attempt.cache_plan.record.chars().collect()).unwrap();
    assert_eq!(parsed.timestamp, 42);
    // the fallback path stands up a created instance and replays the cache
    let (fallback, replay) = service.fallback_import(42, vec![attempt.cache_entry]);
    assert_eq!(fallback.state, TestInstanceState::Created);
    assert_eq!(replay.len(), 1);
    // the response still carries the ciphertext, with no resource id
    let response = service.encrypt_complete(attempt.encrypted_data, BackendWriteResult::Failed);
    assert!(!response.encrypted_data.is_empty());
    assert_eq!(response.resource_id, None);
}

#[test]
fn decrypt_falls_back_to_request_ciphertext_when_backend_unreachable() {
    let mut service = EncryptionService::new(config("mixed"), String::new());
    let encrypt_request = EncryptRequest {
        data: "round trip".to_string(),
        password: "pw1234567890".to_string(),
        resource_type: "notes".to_string(),
    };
    let attempt = service.encrypt_prepare(&encrypt_request, 1).unwrap();
    let decrypt_request = DecryptRequest {
        encrypted_data: attempt.encrypted_data.clone(),
        password: "pw1234567890".to_string(),
        resource_type: "notes".to_string(),
        resource_id: Some("res-9".to_string()),
    };
    // a resource id was supplied but no read instance is healthy
    let selection = service.decrypt_prepare(&decrypt_request).unwrap();
    assert!(selection.is_none());
    // the flow falls back to the ciphertext carried in the request
    let (response, entry, _plan) = service.decrypt_complete(&decrypt_request, None, 2).unwrap();
    assert_eq!(response.data, "round trip".to_string());
    assert_eq!(response.resource_id, Some("res-9".to_string()));
    match &entry.data_type {
        CacheDataType::Decrypt(d) => {
            assert_eq!(d.decrypted_data, "round trip".to_string());
            assert_eq!(d.resource_id, Some("res-9".to_string()));
            assert_eq!(d.encrypted_data, attempt.encrypted_data);
        },
        CacheDataType::Encrypt(_) => panic!("wrong record kind"),
    }
}

#[test]
fn decrypt_uses_fetched_ciphertext_when_the_backend_answered() {
    let mut service = EncryptionService::new(config("mixed"), String::new());
    let attempt = service
        .encrypt_prepare(
            &EncryptRequest {
                data: "stored remotely".to_string(),
                password: "pw".to_string(),
                resource_type: "notes".to_string(),
            },
            1,
        )
        .unwrap();
    let decrypt_request = DecryptRequest {
        encrypted_data: "ignored".to_string(),
        password: "pw".to_string(),
        resource_type: "notes".to_string(),
        resource_id: Some("res-1".to_string()),
    };
    let (response, _entry, _plan) = service
        .decrypt_complete(&decrypt_request, Some(attempt.encrypted_data), 2)
        .unwrap();
    assert_eq!(response.data, "stored remotely".to_string());
}

#[test]
fn roles_gate_the_two_directions() {
    let mut enc_only = EncryptionService::new(config("encrypt"), String::new());
    let enc_req = EncryptRequest {
        data: "x".to_string(),
        password: "pw".to_string(),
        resource_type: "notes".to_string(),
    };
    let dec_req = DecryptRequest {
        encrypted_data: "x".to_string(),
        password: "pw".to_string(),
        resource_type: "notes".to_string(),
        resource_id: None,
    };
    assert!(enc_only.encrypt_prepare(&enc_req, 1).is_ok());
    assert_eq!(
        enc_only.decrypt_prepare(&dec_req).unwrap_err(),
        ServiceError::RoleNotPermitted
    );
    let mut dec_only = EncryptionService::new(config("decrypt"), String::new());
    assert_eq!(
        dec_only.encrypt_prepare(&enc_req, 1).unwrap_err(),
        ServiceError::RoleNotPermitted
    );
    assert!(dec_only.decrypt_prepare(&dec_req).is_ok());
}

#[test]
fn cipher_failure_is_surfaced_not_absorbed() {
    let service = EncryptionService::new(config("mixed"), String::new());
    let bad = DecryptRequest {
        encrypted_data: "@@@".to_string(),
        password: "pw".to_string(),
        resource_type: "notes".to_string(),
        resource_id: None,
    };
    assert_eq!(
        service.decrypt_complete(&bad, None, 1).unwrap_err(),
        ServiceError::CipherFailure
    );
}

#[test]
fn backend_confirmation_carries_the_assigned_resource_id() {
    let service = EncryptionService::new(config("mixed"), String::new());
    let saved = service.encrypt_complete(
        "ct".to_string(),
        BackendWriteResult::Saved { resource_id: Some("id-5".to_string()) },
    );
    assert_eq!(saved.resource_id, Some("id-5".to_string()));
    assert_eq!(saved.encrypted_data, "ct".to_string());
    let saved_without_id = service.encrypt_complete(
        "ct".to_string(),
        BackendWriteResult::Saved { resource_id: None },
    );
    assert_eq!(saved_without_id.resource_id, None);
}

#[test]
fn health_check_requires_a_healthy_instance_and_a_valid_config() {
    let mut service = EncryptionService::new(config("mixed"), String::new());
    assert_eq!(service.health_check().unwrap_err(), ServiceError::NoHealthyInstance);
    service.apply_health_statuses(&vec![
        InstanceHealthStatus::Healthy,
        InstanceHealthStatus::Unhealthy,
    ]);
    assert!(service.health_check().is_ok());
    let mut bad = EncryptionService::new(config("observer"), String::new());
    bad.apply_health_statuses(&vec![
        InstanceHealthStatus::Healthy,
        InstanceHealthStatus::Healthy,
    ]);
    assert_eq!(bad.health_check().unwrap_err(), ServiceError::ConfigInvalid);
}

#[test]
fn selection_is_attempted_once_backends_are_healthy() {
    let mut service = EncryptionService::new(config("mixed"), String::new());
    service.apply_health_statuses(&vec![
        InstanceHealthStatus::Healthy,
        InstanceHealthStatus::Healthy,
    ]);
    let attempt = service
        .encrypt_prepare(
            &EncryptRequest {
                data: "d".to_string(),
                password: "pw".to_string(),
                resource_type: "notes".to_string(),
            },
            1,
        )
        .unwrap();
    assert_eq!(attempt.instance.unwrap().id, "w1".to_string());
    let sel = service
        .decrypt_prepare(&DecryptRequest {
            encrypted_data: "x".to_string(),
            password: "pw".to_string(),
            resource_type: "notes".to_string(),
            resource_id: Some("r".to_string()),
        })
        .unwrap();
    assert_eq!(sel.unwrap().id, "r1".to_string());
}

#[test]
fn fallback_expiry_notification_decision() {
    let mut service = EncryptionService::new(config("mixed"), "http://hook".to_string());
    let (rec, _replay) = service.fallback_import(100, vec![]);
    assert!(!service.fallback_periodic_check(rec.expired_at));
    assert!(service.fallback_periodic_check(rec.expired_at + 1));
    assert!(service.get_test_instance_manager().notification_configured());
    assert!(!service.fallback_periodic_check(rec.expired_at + 2));
}
