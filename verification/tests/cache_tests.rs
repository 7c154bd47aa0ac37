use encryption_service::cache::{
    CacheDataType, CacheEntry, CacheFileInfo, CacheManager, DecryptCacheData, EncryptCacheData,
};
use encryption_service::codec::{encode_entry, parse_entry};

fn encrypt_payload(data: &str, password: &str, rt: &str, ed: &str) -> CacheDataType {
    CacheDataType::Encrypt(EncryptCacheData {
        data: data.to_string(),
        password: password.to_string(),
        resource_type: rt.to_string(),
        encrypted_data: ed.to_string(),
    })
}

#[test]
fn record_has_the_expected_shape() {
    let entry = CacheEntry {
        timestamp: 5,
        data_type: encrypt_payload("a", "b", "c", "d"),
    };
    let chars = encode_entry(&entry);
    let line: String = chars.iter().collect();
    assert_eq!(
        line,
        "{\"timestamp\":5,\"data_type\":{\"Encrypt\":{\"data\":\"a\",\"password\":\"b\",\"resource_type\":\"c\",\"encrypted_data\":\"d\"}}}"
    );
}

#[test]
fn record_is_valid_json() {
    let entry = CacheEntry {
        timestamp: 77,
        data_type: CacheDataType::Decrypt(DecryptCacheData {
            encrypted_data: "zz\"tricky\\".to_string(),
            password: "pw".to_string(),
            resource_type: "notes".to_string(),
            resource_id: Some("id-1".to_string()),
            decrypted_data: "line1\nline2".to_string(),
        }),
    };
    let chars = encode_entry(&entry);
    let line: String = chars.iter().collect();
    let v: serde_json::Value = serde_json::from_str(&line).unwrap();
    assert_eq!(v["timestamp"], 77);
    assert_eq!(v["data_type"]["Decrypt"]["encrypted_data"], "zz\"tricky\\");
    assert_eq!(v["data_type"]["Decrypt"]["resource_id"], "id-1");
    assert_eq!(v["data_type"]["Decrypt"]["decrypted_data"], "line1\nline2");
}

#[test]
fn record_round_trip_with_escapes() {
    let entry = CacheEntry {
        timestamp: 1234567890,
        data_type: CacheDataType::Decrypt(DecryptCacheData {
            encrypted_data: "with \"quotes\" and \\slashes\\".to_string(),
            password: "tab\there".to_string(),
            resource_type: "line\nbreak\rreturn".to_string(),
            resource_id: None,
            decrypted_data: "plain".to_string(),
        }),
    };
    let chars = encode_entry(&entry);
    let parsed = parse_entry(&chars).unwrap();
    assert_eq!(parsed.timestamp, 1234567890);
    match parsed.data_type {
        CacheDataType::Decrypt(d) => {
            assert_eq!(d.encrypted_data, "with \"quotes\" and \\slashes\\".to_string());
            assert_eq!(d.password, "tab\there".to_string());
            assert_eq!(d.resource_type, "line\nbreak\rreturn".to_string());
            assert_eq!(d.resource_id, None);
            assert_eq!(d.decrypted_data, "plain".to_string());
        },
        CacheDataType::Encrypt(_) => panic!("wrong variant"),
    }
}

#[test]
fn garbage_lines_do_not_parse() {
    assert!(parse_entry(&"".chars().collect()).is_none());
    assert!(parse_entry(&"not a record".chars().collect()).is_none());
    assert!(parse_entry(&"{\"timestamp\":}".chars().collect()).is_none());
    // trailing garbage is rejected: a record is the whole line
    let entry = CacheEntry { timestamp: 1, data_type: encrypt_payload("a", "b", "c", "d") };
    let mut chars = encode_entry(&entry);
    chars.push('x');
    assert!(parse_entry(&chars).is_none());
}

#[test]
fn writes_across_two_buckets_produce_exactly_two_files() {
    let manager = CacheManager::new();
    // hourly buckets: timestamps 3500..3700 step 50 cross one boundary
    let mut paths: Vec<String> = Vec::new();
    let mut lines: Vec<String> = Vec::new();
    let mut t = 3500u64;
    let mut n = 0u64;
    while t < 3700 {
        let payload = encrypt_payload(&format!("d{}", n), "pw", "notes", "ct");
        let (_entry, plan) = manager.write_cache(payload, t);
        if !paths.contains(&plan.file_path) {
            paths.push(plan.file_path.clone());
        }
        lines.push(plan.record);
        t += 50;
        n += 1;
    }
    assert_eq!(paths.len(), 2);
    assert_eq!(paths[0], "data/cache/crud_api_cache_0.jsonl".to_string());
    assert_eq!(paths[1], "data/cache/crud_api_cache_1.jsonl".to_string());
    // read_all returns all entries regardless of how many files they sat in
    let entries = manager.read_all_cache(&lines);
    assert_eq!(entries.len(), 4);
    assert_eq!(entries[0].timestamp, 3500);
    assert_eq!(entries[3].timestamp, 3650);
}

#[test]
fn same_bucket_appends_to_the_same_file() {
    let manager = CacheManager::new();
    let (_e1, p1) = manager.write_cache(encrypt_payload("a", "p", "t", "c"), 7200);
    let (_e2, p2) = manager.write_cache(encrypt_payload("b", "p", "t", "c"), 10799);
    assert_eq!(p1.file_path, p2.file_path);
    assert_eq!(p1.file_path, "data/cache/crud_api_cache_2.jsonl".to_string());
}

#[test]
fn unparseable_line_is_skipped_not_fatal() {
    let manager = CacheManager::new();
    let (_e1, p1) = manager.write_cache(encrypt_payload("one", "p", "t", "c"), 100);
    let (_e2, p2) = manager.write_cache(encrypt_payload("two", "p", "t", "c"), 200);
    let lines = vec![p1.record, "corrupted {{{".to_string(), "".to_string(), p2.record];
    let entries = manager.read_all_cache(&lines);
    assert_eq!(entries.len(), 2);
    match (&entries[0].data_type, &entries[1].data_type) {
        (CacheDataType::Encrypt(a), CacheDataType::Encrypt(b)) => {
            assert_eq!(a.data, "one".to_string());
            assert_eq!(b.data, "two".to_string());
        },
        _ => panic!("wrong variants"),
    }
}

#[test]
fn expiry_sweep_deletes_old_files_and_keeps_new_ones() {
    let manager = CacheManager::new();
    let now = 200000u64;
    let files = vec![
        // 190000 seconds old: far beyond the 86400-second window
        CacheFileInfo { path: "data/cache/crud_api_cache_0.jsonl".to_string(), modified: 10000 },
        // exactly at the window boundary: kept
        CacheFileInfo {
            path: "data/cache/crud_api_cache_1.jsonl".to_string(),
            modified: now - 86400,
        },
        // one second beyond the window: deleted
        CacheFileInfo {
            path: "data/cache/crud_api_cache_2.jsonl".to_string(),
            modified: now - 86401,
        },
        // fresh: kept
        CacheFileInfo { path: "data/cache/crud_api_cache_3.jsonl".to_string(), modified: now },
        // clock skew, modified in the future: kept
        CacheFileInfo {
            path: "data/cache/crud_api_cache_4.jsonl".to_string(),
            modified: now + 50,
        },
    ];
    let doomed = manager.clean_expired_cache(now, &files);
    assert_eq!(
        doomed,
        vec![
            "data/cache/crud_api_cache_0.jsonl".to_string(),
            "data/cache/crud_api_cache_2.jsonl".to_string(),
        ]
    );
}

#[test]
fn bucket_file_name_matches_timestamp_bucket() {
    let manager = CacheManager::new();
    assert_eq!(manager.cache_file_for(0), "data/cache/crud_api_cache_0.jsonl".to_string());
    assert_eq!(manager.cache_file_for(3599), "data/cache/crud_api_cache_0.jsonl".to_string());
    assert_eq!(manager.cache_file_for(3600), "data/cache/crud_api_cache_1.jsonl".to_string());
    assert_eq!(
        manager.cache_file_for(1700000000),
        "data/cache/crud_api_cache_472222.jsonl".to_string()
    );
}
