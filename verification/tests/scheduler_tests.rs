use encryption_service::config::{
    AppConfig, CrudApiConfig, CrudApiInstance, EncryptionConfig, JwtConfig, SchedulerStrategy,
    ServerConfig, ServiceRoleConfig,
};
use encryption_service::errors::ServiceError;
use encryption_service::scheduler::{classify_probe, classify_probe_response, CrudApiScheduler, InstanceHealthStatus};

fn instance(id: &str, url: &str, instance_type: &str) -> CrudApiInstance {
    CrudApiInstance {
        id: id.to_string(),
        url: url.to_string(),
        instance_type: instance_type.to_string(),
        timeout: 5000,
        retries: 3,
    }
}

fn config_with(instances: Vec<CrudApiInstance>, strategy: SchedulerStrategy) -> AppConfig {
    AppConfig {
        server: ServerConfig { host: "0.0.0.0".to_string(), port: 9999, https: false },
        jwt: JwtConfig {
            secret: "12345678901234567890".to_string(),
            expires_in: 3600,
            refresh_in: 86400,
        },
        encryption: EncryptionConfig {
            algorithm: "aes-256-gcm".to_string(),
            key_length: 32,
            iterations: 100000,
            salt: "default_salt".to_string(),
        },
        service: ServiceRoleConfig { role: "mixed".to_string(), id: "encryption-01".to_string() },
        crud_api: CrudApiConfig {
            instances,
            strategy,
            health_check_interval: 30,
            timeout: 5000,
            retries: 3,
        },
    }
}

#[test]
fn all_unhealthy_is_rejected_under_every_strategy() {
    for strategy in [
        SchedulerStrategy::Single,
        SchedulerStrategy::ReadWriteSplit,
        SchedulerStrategy::LoadBalance,
    ] {
        let config = config_with(
            vec![
                instance("a", "http://a", "mixed"),
                instance("b", "http://b", "write"),
                instance("c", "http://c", "read"),
            ],
            strategy,
        );
        let mut scheduler = CrudApiScheduler::new(&config);
        // never probed: everything still Unknown
        assert_eq!(
            scheduler.select_instance(true).unwrap_err(),
            ServiceError::NoHealthyInstance
        );
        assert_eq!(
            scheduler.select_instance(false).unwrap_err(),
            ServiceError::NoHealthyInstance
        );
        // explicitly unhealthy: still rejected
        let statuses = vec![
            InstanceHealthStatus::Unhealthy,
            InstanceHealthStatus::Unhealthy,
            InstanceHealthStatus::Unknown,
        ];
        scheduler.apply_health_batch(&statuses);
        assert_eq!(
            scheduler.select_instance(true).unwrap_err(),
            ServiceError::NoHealthyInstance
        );
    }
}

#[test]
fn load_balance_visits_each_candidate_once_per_cycle() {
    let config = config_with(
        vec![
            instance("w1", "http://w1", "write"),
            instance("w2", "http://w2", "write"),
            instance("w3", "http://w3", "write"),
        ],
        SchedulerStrategy::LoadBalance,
    );
    let mut scheduler = CrudApiScheduler::new(&config);
    let statuses = vec![InstanceHealthStatus::Healthy; 3];
    scheduler.apply_health_batch(&statuses);
    let mut seen = Vec::new();
    for _ in 0..3 {
        seen.push(scheduler.select_instance(true).unwrap().id);
    }
    assert_eq!(seen, vec!["w1".to_string(), "w2".to_string(), "w3".to_string()]);
    // the counter wraps modulo the candidate count: the cycle repeats
    assert_eq!(scheduler.select_instance(true).unwrap().id, "w1".to_string());
}

#[test]
fn load_balance_does_not_use_mixed_instances() {
    let config = config_with(
        vec![instance("m1", "http://m1", "mixed")],
        SchedulerStrategy::LoadBalance,
    );
    let mut scheduler = CrudApiScheduler::new(&config);
    let statuses = vec![InstanceHealthStatus::Healthy];
    scheduler.apply_health_batch(&statuses);
    assert_eq!(
        scheduler.select_instance(true).unwrap_err(),
        ServiceError::NoHealthyInstance
    );
    assert_eq!(
        scheduler.select_instance(false).unwrap_err(),
        ServiceError::NoHealthyInstance
    );
}

#[test]
fn read_write_split_isolates_directions() {
    let config = config_with(
        vec![
            instance("w1", "http://w1", "write"),
            instance("r1", "http://r1", "read"),
        ],
        SchedulerStrategy::ReadWriteSplit,
    );
    let mut scheduler = CrudApiScheduler::new(&config);
    let statuses = vec![InstanceHealthStatus::Healthy, InstanceHealthStatus::Healthy];
    scheduler.apply_health_batch(&statuses);
    for _ in 0..3 {
        assert_eq!(scheduler.select_instance(true).unwrap().id, "w1".to_string());
        assert_eq!(scheduler.select_instance(false).unwrap().id, "r1".to_string());
    }
}

#[test]
fn mixed_instance_serves_both_directions_under_read_write_split() {
    let config = config_with(
        vec![instance("m1", "http://m1", "mixed")],
        SchedulerStrategy::ReadWriteSplit,
    );
    let mut scheduler = CrudApiScheduler::new(&config);
    let statuses = vec![InstanceHealthStatus::Healthy];
    scheduler.apply_health_batch(&statuses);
    assert_eq!(scheduler.select_instance(true).unwrap().id, "m1".to_string());
    assert_eq!(scheduler.select_instance(false).unwrap().id, "m1".to_string());
}

#[test]
fn single_strategy_uses_first_healthy_mixed_instance() {
    let config = config_with(
        vec![instance("m1", "http://m1", "mixed")],
        SchedulerStrategy::Single,
    );
    let mut scheduler = CrudApiScheduler::new(&config);
    let statuses = vec![InstanceHealthStatus::Healthy];
    scheduler.apply_health_batch(&statuses);
    assert_eq!(scheduler.select_instance(true).unwrap().id, "m1".to_string());
}

#[test]
fn probe_classification() {
    // HTTP 200 with {"status":"ok"} is healthy
    assert_eq!(
        classify_probe(true, "{\"status\":\"ok\"}"),
        InstanceHealthStatus::Healthy
    );
    // any other status value, body, or transport failure is unhealthy
    assert_eq!(
        classify_probe(true, "{\"status\":\"degraded\"}"),
        InstanceHealthStatus::Unhealthy
    );
    assert_eq!(classify_probe(true, "not json"), InstanceHealthStatus::Unhealthy);
    assert_eq!(classify_probe(true, "{}"), InstanceHealthStatus::Unhealthy);
    assert_eq!(
        classify_probe(false, "{\"status\":\"ok\"}"),
        InstanceHealthStatus::Unhealthy
    );
    assert_eq!(
        classify_probe_response(true, &Some("ok".to_string())),
        InstanceHealthStatus::Healthy
    );
    assert_eq!(classify_probe_response(true, &None), InstanceHealthStatus::Unhealthy);
    assert_eq!(
        classify_probe_response(false, &Some("ok".to_string())),
        InstanceHealthStatus::Unhealthy
    );
}

#[test]
fn health_batch_reports_exactly_the_transitions() {
    let config = config_with(
        vec![
            instance("a", "http://a", "write"),
            instance("b", "http://b", "read"),
        ],
        SchedulerStrategy::ReadWriteSplit,
    );
    let mut scheduler = CrudApiScheduler::new(&config);
    let first = vec![InstanceHealthStatus::Healthy, InstanceHealthStatus::Unknown];
    let changed = scheduler.apply_health_batch(&first);
    assert_eq!(changed, vec![true, false]);
    let second = vec![InstanceHealthStatus::Healthy, InstanceHealthStatus::Unhealthy];
    let changed = scheduler.apply_health_batch(&second);
    assert_eq!(changed, vec![false, true]);
    let status = scheduler.get_all_instance_status();
    assert_eq!(status.len(), 2);
    assert_eq!(status[0].0, "a".to_string());
    assert_eq!(status[0].1, "http://a".to_string());
    assert_eq!(status[0].2, InstanceHealthStatus::Healthy);
    assert_eq!(status[1].2, InstanceHealthStatus::Unhealthy);
}

#[test]
fn single_failed_probe_flips_health_both_ways() {
    let config = config_with(
        vec![instance("a", "http://a", "mixed")],
        SchedulerStrategy::Single,
    );
    let mut scheduler = CrudApiScheduler::new(&config);
    scheduler.apply_health_batch(&vec![InstanceHealthStatus::Healthy]);
    assert!(scheduler.select_instance(true).is_ok());
    scheduler.apply_health_batch(&vec![InstanceHealthStatus::Unhealthy]);
    assert!(scheduler.select_instance(true).is_err());
    scheduler.apply_health_batch(&vec![InstanceHealthStatus::Healthy]);
    assert!(scheduler.select_instance(true).is_ok());
}
