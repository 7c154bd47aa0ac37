use encryption_service::config::{
    plan_backend_instances, AppConfig, CrudApiConfig, CrudApiInstance, EncryptionConfig,
    JwtConfig, SchedulerStrategy, ServerConfig, ServiceRoleConfig,
};
use encryption_service::errors::ServiceError;

fn instance(id: &str, url: &str, instance_type: &str) -> CrudApiInstance {
    CrudApiInstance {
        id: id.to_string(),
        url: url.to_string(),
        instance_type: instance_type.to_string(),
        timeout: 5000,
        retries: 3,
    }
}

fn base_config(instances: Vec<CrudApiInstance>, strategy: SchedulerStrategy) -> AppConfig {
    AppConfig {
        server: ServerConfig { host: "0.0.0.0".to_string(), port: 9999, https: false },
        jwt: JwtConfig {
            secret: "12345678901234567890".to_string(),
            expires_in: 3600,
            refresh_in: 86400,
        },
        encryption: EncryptionConfig {
            algorithm: "aes-256-gcm".to_string(),
            key_length: 32,
            iterations: 100000,
            salt: "default_salt".to_string(),
        },
        service: ServiceRoleConfig { role: "mixed".to_string(), id: "encryption-01".to_string() },
        crud_api: CrudApiConfig {
            instances,
            strategy,
            health_check_interval: 30,
            timeout: 5000,
            retries: 3,
        },
    }
}

#[test]
fn valid_configurations_pass() {
    let c = base_config(
        vec![instance("w", "http://w", "write"), instance("r", "http://r", "read")],
        SchedulerStrategy::ReadWriteSplit,
    );
    assert!(c.validate().is_ok());
    let c = base_config(vec![instance("m", "http://m", "mixed")], SchedulerStrategy::Single);
    assert!(c.validate().is_ok());
    let c = base_config(
        vec![instance("a", "http://a", "write")],
        SchedulerStrategy::LoadBalance,
    );
    assert!(c.validate().is_ok());
}

#[test]
fn invalid_service_role_is_rejected() {
    let mut c = base_config(vec![instance("m", "http://m", "mixed")], SchedulerStrategy::Single);
    c.service.role = "observer".to_string();
    assert_eq!(c.validate().unwrap_err(), ServiceError::ConfigInvalid);
}

#[test]
fn short_jwt_secret_is_rejected() {
    let mut c = base_config(vec![instance("m", "http://m", "mixed")], SchedulerStrategy::Single);
    c.jwt.secret = "short".to_string();
    assert_eq!(c.validate().unwrap_err(), ServiceError::ConfigInvalid);
}

#[test]
fn jwt_secret_length_is_counted_in_bytes() {
    let mut c = base_config(vec![instance("m", "http://m", "mixed")], SchedulerStrategy::Single);
    // eight two-byte characters: 8 characters, but 16 UTF-8 bytes
    c.jwt.secret = "éééééééé".to_string();
    assert_eq!(c.jwt.secret.len(), 16);
    assert!(c.validate().is_ok());
    // fifteen bytes is one short, however many characters it spans
    c.jwt.secret = "ééééééé-".to_string();
    assert_eq!(c.jwt.secret.len(), 15);
    assert_eq!(c.validate().unwrap_err(), ServiceError::ConfigInvalid);
}

#[test]
fn empty_instance_list_is_rejected() {
    let c = base_config(vec![], SchedulerStrategy::LoadBalance);
    assert_eq!(c.validate().unwrap_err(), ServiceError::ConfigInvalid);
}

#[test]
fn bad_instance_fields_are_rejected() {
    let c = base_config(vec![instance("", "http://m", "mixed")], SchedulerStrategy::Single);
    assert_eq!(c.validate().unwrap_err(), ServiceError::ConfigInvalid);
    let c = base_config(vec![instance("m", "", "mixed")], SchedulerStrategy::Single);
    assert_eq!(c.validate().unwrap_err(), ServiceError::ConfigInvalid);
    let c = base_config(vec![instance("m", "http://m", "primary")], SchedulerStrategy::Single);
    assert_eq!(c.validate().unwrap_err(), ServiceError::ConfigInvalid);
}

#[test]
fn single_needs_exactly_one_instance() {
    let c = base_config(
        vec![instance("a", "http://a", "mixed"), instance("b", "http://b", "mixed")],
        SchedulerStrategy::Single,
    );
    assert_eq!(c.validate().unwrap_err(), ServiceError::ConfigInvalid);
}

#[test]
fn read_write_split_needs_both_directions() {
    let c = base_config(
        vec![instance("w", "http://w", "write")],
        SchedulerStrategy::ReadWriteSplit,
    );
    assert_eq!(c.validate().unwrap_err(), ServiceError::ConfigInvalid);
    let c = base_config(
        vec![instance("r", "http://r", "read")],
        SchedulerStrategy::ReadWriteSplit,
    );
    assert_eq!(c.validate().unwrap_err(), ServiceError::ConfigInvalid);
    // a mixed instance satisfies both directions
    let c = base_config(
        vec![instance("m", "http://m", "mixed")],
        SchedulerStrategy::ReadWriteSplit,
    );
    assert!(c.validate().is_ok());
}

#[test]
fn planner_single_layout() {
    let (instances, strategy) = plan_backend_instances(
        &"single".to_string(),
        &"http://w".to_string(),
        5000,
        3,
        &"http://r".to_string(),
        4000,
        2,
        vec![],
    );
    assert_eq!(strategy, SchedulerStrategy::Single);
    // exactly one mixed instance on the write URL: the Single strategy
    // requires exactly one configured instance and selects only mixed
    // roles, so anything else could never validate or serve
    assert_eq!(instances.len(), 1);
    assert_eq!(instances[0].id, "crud-01".to_string());
    assert_eq!(instances[0].url, "http://w".to_string());
    assert_eq!(instances[0].instance_type, "mixed".to_string());
    assert_eq!(instances[0].timeout, 5000);
    assert_eq!(instances[0].retries, 3);
}

#[test]
fn planner_single_layout_validates_and_serves() {
    let (instances, strategy) = plan_backend_instances(
        &"single".to_string(),
        &"http://w".to_string(),
        5000,
        3,
        &"http://r".to_string(),
        4000,
        2,
        vec![],
    );
    let config = base_config(instances, strategy);
    assert!(config.validate().is_ok());
    let mut scheduler = encryption_service::scheduler::CrudApiScheduler::new(&config);
    scheduler.apply_health_batch(&vec![
        encryption_service::scheduler::InstanceHealthStatus::Healthy,
    ]);
    assert_eq!(scheduler.select_instance(true).unwrap().id, "crud-01".to_string());
    assert_eq!(scheduler.select_instance(false).unwrap().id, "crud-01".to_string());
}

#[test]
fn planner_read_write_split_layout() {
    let (instances, strategy) = plan_backend_instances(
        &"read_write_split".to_string(),
        &"http://w".to_string(),
        5000,
        3,
        &"http://r".to_string(),
        4000,
        2,
        vec![],
    );
    assert_eq!(strategy, SchedulerStrategy::ReadWriteSplit);
    assert_eq!(instances.len(), 2);
    assert_eq!(instances[0].url, "http://w".to_string());
    assert_eq!(instances[1].url, "http://r".to_string());
}

#[test]
fn planner_unknown_layout_defaults_to_read_write_split() {
    let (instances, strategy) = plan_backend_instances(
        &"whatever".to_string(),
        &"http://w".to_string(),
        5000,
        3,
        &"http://r".to_string(),
        4000,
        2,
        vec![],
    );
    assert_eq!(strategy, SchedulerStrategy::ReadWriteSplit);
    assert_eq!(instances.len(), 2);
}

#[test]
fn planner_load_balance_keeps_configured_instances() {
    let lb = vec![
        instance("c1", "http://c1", "mixed"),
        instance("c2", "http://c2", "mixed"),
    ];
    let (instances, strategy) = plan_backend_instances(
        &"load_balance".to_string(),
        &"http://w".to_string(),
        5000,
        3,
        &"http://r".to_string(),
        4000,
        2,
        lb,
    );
    assert_eq!(strategy, SchedulerStrategy::LoadBalance);
    assert_eq!(instances.len(), 2);
    assert_eq!(instances[0].id, "c1".to_string());
    assert_eq!(instances[1].id, "c2".to_string());
}

#[test]
fn planner_load_balance_defaults_to_one_mixed_instance() {
    let (instances, strategy) = plan_backend_instances(
        &"load_balance".to_string(),
        &"http://w".to_string(),
        5000,
        3,
        &"http://r".to_string(),
        4000,
        2,
        vec![],
    );
    assert_eq!(strategy, SchedulerStrategy::LoadBalance);
    assert_eq!(instances.len(), 1);
    assert_eq!(instances[0].id, "crud-01".to_string());
    assert_eq!(instances[0].url, "http://w".to_string());
    assert_eq!(instances[0].instance_type, "mixed".to_string());
}
