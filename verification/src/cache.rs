use vstd::prelude::*;
use vstd::string::StrSliceExecFns;
use vstd::string::StringExecFns;

use crate::clock;
use crate::codec::{
    chars_to_string, dec_of, enc_entry, encode_entry, parse_entry, sp_entry, str_to_chars,
    to_dec_chars,
};

verus! {

broadcast use vstd::string::group_string_axioms;

// ---------------------------------------------------------------------
// Cache entries
// ---------------------------------------------------------------------
/// An encrypt operation recorded for audit or replay.
#[derive(Debug)]
pub struct EncryptCacheData {
    pub data: String,
    pub password: String,
    pub resource_type: String,
    pub encrypted_data: String,
}

/// A decrypt operation recorded for audit or replay.
#[derive(Debug)]
pub struct DecryptCacheData {
    pub encrypted_data: String,
    pub password: String,
    pub resource_type: String,
    pub resource_id: Option<String>,
    pub decrypted_data: String,
}

/// The tagged payload of one cache entry.
#[derive(Debug)]
pub enum CacheDataType {
    Encrypt(EncryptCacheData),
    Decrypt(DecryptCacheData),
}

/// One record of the write-behind cache: a timestamp and a tagged
/// payload. Entries are immutable once written and their identity is
/// positional.
#[derive(Debug)]
pub struct CacheEntry {
    pub timestamp: u64,
    pub data_type: CacheDataType,
}

pub ghost struct EncryptRecordView {
    pub data: Seq<char>,
    pub password: Seq<char>,
    pub resource_type: Seq<char>,
    pub encrypted_data: Seq<char>,
}

pub ghost struct DecryptRecordView {
    pub encrypted_data: Seq<char>,
    pub password: Seq<char>,
    pub resource_type: Seq<char>,
    pub resource_id: Option<Seq<char>>,
    pub decrypted_data: Seq<char>,
}

pub ghost enum CacheDataView {
    Encrypt(EncryptRecordView),
    Decrypt(DecryptRecordView),
}

pub ghost struct CacheEntryView {
    pub timestamp: u64,
    pub data_type: CacheDataView,
}

impl View for EncryptCacheData {
    type V = EncryptRecordView;

    open spec fn view(&self) -> EncryptRecordView {
        EncryptRecordView {
            data: self.data@,
            password: self.password@,
            resource_type: self.resource_type@,
            encrypted_data: self.encrypted_data@,
        }
    }
}

impl View for DecryptCacheData {
    type V = DecryptRecordView;

    open spec fn view(&self) -> DecryptRecordView {
        DecryptRecordView {
            encrypted_data: self.encrypted_data@,
            password: self.password@,
            resource_type: self.resource_type@,
            resource_id: match self.resource_id {
                Some(s) => Some(s@),
                None => None,
            },
            decrypted_data: self.decrypted_data@,
        }
    }
}

impl View for CacheDataType {
    type V = CacheDataView;

    open spec fn view(&self) -> CacheDataView {
        match self {
            CacheDataType::Encrypt(e) => CacheDataView::Encrypt(e@),
            CacheDataType::Decrypt(d) => CacheDataView::Decrypt(d@),
        }
    }
}

impl View for CacheEntry {
    type V = CacheEntryView;

    open spec fn view(&self) -> CacheEntryView {
        CacheEntryView { timestamp: self.timestamp, data_type: self.data_type@ }
    }
}

// ---------------------------------------------------------------------
// Cache manager
// ---------------------------------------------------------------------
/// What one cache write must persist: the bucket file to append to and
/// the serialized record (one line, newline not included). The caller
/// appends the record durably before reporting the entry as cached.
#[derive(Debug)]
pub struct CacheWritePlan {
    pub file_path: String,
    pub record: String,
}

/// Modification data of one bucket file, for the expiry sweep.
#[derive(Debug)]
pub struct CacheFileInfo {
    pub path: String,
    pub modified: u64,
}

/// The write-behind cache: an append-only log of operations, grouped
/// into time-bucketed files, expired whole files at a time.
#[derive(Debug, Clone)]
pub struct CacheManager {
    cache_dir: String,
    temp_file_prefix: String,
    /// Width of one time bucket, in seconds.
    update_interval: u64,
    /// Retention window, in seconds.
    retention_time: u64,
}

impl CacheManager {
    pub closed spec fn spec_cache_dir(self) -> Seq<char> {
        self.cache_dir@
    }

    pub closed spec fn spec_prefix(self) -> Seq<char> {
        self.temp_file_prefix@
    }

    pub closed spec fn spec_update_interval(self) -> u64 {
        self.update_interval
    }

    pub closed spec fn spec_retention_time(self) -> u64 {
        self.retention_time
    }

    pub open spec fn wf(self) -> bool {
        self.spec_update_interval() > 0
    }

    /// The bucket a timestamp falls in.
    pub open spec fn spec_bucket(self, t: u64) -> nat {
        t as nat / self.spec_update_interval() as nat
    }

    /// The bucket file name: deterministic in the bucket alone, so all
    /// writes within one bucket append to the same file.
    pub open spec fn spec_file_name(self, bucket: nat) -> Seq<char> {
        self.spec_cache_dir() + "/"@ + self.spec_prefix() + "_"@ + dec_of(bucket) + ".jsonl"@
    }

    /// A cache manager with the default layout: hourly buckets under
    /// "data/cache", kept for 24 hours. The caller is responsible for
    /// creating the directory before the first write.
    pub fn new() -> (r: Self)
        ensures
            r.wf(),
            r.spec_cache_dir() == "data/cache"@,
            r.spec_prefix() == "crud_api_cache"@,
            r.spec_update_interval() == 3600,
            r.spec_retention_time() == 86400,
    {
        CacheManager {
            cache_dir: String::from_str("data/cache"),
            temp_file_prefix: String::from_str("crud_api_cache"),
            update_interval: 3600,
            retention_time: 86400,
        }
    }

    /// The current time in whole seconds since the Unix epoch, from the
    /// system clock.
    pub fn get_current_timestamp(&self) -> u64 {
        clock::current_unix_secs()
    }

    /// The retention window in seconds; the expiry sweep also runs on
    /// this interval.
    pub fn retention_seconds(&self) -> (r: u64)
        ensures
            r == self.spec_retention_time(),
    {
        self.retention_time
    }

    /// The bucket file that a write at time `timestamp` appends to.
    pub fn cache_file_for(&self, timestamp: u64) -> (r: String)
        requires
            self.wf(),
        ensures
            r@ == self.spec_file_name(self.spec_bucket(timestamp)),
    {
        let bucket = timestamp / self.update_interval;
        let digits = to_dec_chars(bucket);
        let num = chars_to_string(&digits);
        let mut r = self.cache_dir.clone();
        r.append("/");
        r.append(self.temp_file_prefix.as_str());
        r.append("_");
        r.append(num.as_str());
        r.append(".jsonl");
        r
    }

    /// Plans one cache write: the entry carries the given payload
    /// stamped at `now`, and the plan names the bucket file the record
    /// belongs to together with its serialized form (one line, newline
    /// not included). The caller appends the record durably to the file
    /// before treating the entry as cached.
    pub fn write_cache(&self, data_type: CacheDataType, now: u64) -> (r: (
        CacheEntry,
        CacheWritePlan,
    ))
        requires
            self.wf(),
        ensures
            r.0.timestamp == now,
            r.0.data_type == data_type,
            r.1.file_path@ == self.spec_file_name(self.spec_bucket(now)),
            r.1.record@ == enc_entry(r.0@),
    {
        let entry = CacheEntry { timestamp: now, data_type };
        let chars = encode_entry(&entry);
        let record = chars_to_string(&chars);
        let file_path = self.cache_file_for(now);
        (entry, CacheWritePlan { file_path, record })
    }

    /// Reads every parseable record out of the given lines, in order. A
    /// line that does not parse is skipped; it aborts neither the rest
    /// of its file nor the other files, whose lines the caller passes
    /// concatenated here.
    pub fn read_all_cache(&self, lines: &Vec<String>) -> (r: Vec<CacheEntry>)
        ensures
            entry_views(r@) == parsed_entries(lines.deep_view()),
    {
        let n = lines.len();
        let mut out: Vec<CacheEntry> = Vec::new();
        let mut i: usize = 0;
        while i < n
            invariant
                n == lines@.len(),
                0 <= i <= n,
                entry_views(out@) == parsed_entries(lines.deep_view().take(i as int)),
            decreases n - i,
        {
            let chars = str_to_chars(lines[i].as_str());
            proof {
                assert(chars@ == lines.deep_view()[i as int]);
                assert(lines.deep_view().take(i + 1 as int).drop_last() =~= lines.deep_view().take(
                    i as int,
                ));
                assert(lines.deep_view().take(i + 1 as int).last() == lines.deep_view()[i as int]);
            }
            let ghost prev = out@;
            match parse_entry(&chars) {
                Some(e) => {
                    out.push(e);
                    proof {
                        assert(entry_views(out@) =~= entry_views(prev).push(e@));
                        assert(entry_views(out@) =~= parsed_entries(
                            lines.deep_view().take(i + 1 as int),
                        ));
                    }
                },
                None => {
                    proof {
                        assert(entry_views(out@) =~= parsed_entries(
                            lines.deep_view().take(i + 1 as int),
                        ));
                    }
                },
            }
            i += 1;
        }
        proof {
            assert(lines.deep_view().take(n as int) =~= lines.deep_view());
        }
        out
    }

    /// Decides the expiry sweep: returns the paths of exactly those
    /// bucket files whose modification time is older than the retention
    /// window. The caller deletes them best-effort; a failed deletion is
    /// logged and does not stop the sweep.
    pub fn clean_expired_cache(&self, now: u64, files: &Vec<CacheFileInfo>) -> (r: Vec<String>)
        ensures
            r.deep_view() == expired_paths(files@, now, self.spec_retention_time()),
    {
        let n = files.len();
        let mut out: Vec<String> = Vec::new();
        let mut i: usize = 0;
        while i < n
            invariant
                n == files@.len(),
                0 <= i <= n,
                out.deep_view() == expired_paths(
                    files@.take(i as int),
                    now,
                    self.spec_retention_time(),
                ),
            decreases n - i,
        {
            let f = &files[i];
            proof {
                assert(files@.take(i + 1 as int).drop_last() =~= files@.take(i as int));
                assert(files@.take(i + 1 as int).last() == files@[i as int]);
            }
            let ghost prev = out.deep_view();
            if f.modified < now && now - f.modified > self.retention_time {
                out.push(f.path.clone());
                proof {
                    assert(out.deep_view() =~= prev.push(f.path@));
                    assert(out.deep_view() =~= expired_paths(
                        files@.take(i + 1 as int),
                        now,
                        self.spec_retention_time(),
                    ));
                }
            } else {
                proof {
                    assert(out.deep_view() =~= expired_paths(
                        files@.take(i + 1 as int),
                        now,
                        self.spec_retention_time(),
                    ));
                }
            }
            i += 1;
        }
        proof {
            assert(files@.take(n as int) =~= files@);
        }
        out
    }

    /// The bucket file for the current time.
    pub fn get_current_cache_file(&self) -> (r: String)
        requires
            self.wf(),
        ensures
            exists|t: u64| r@ == self.spec_file_name(#[trigger] self.spec_bucket(t)),
    {
        let t = self.get_current_timestamp();
        let r = self.cache_file_for(t);
        proof {
            assert(r@ == self.spec_file_name(self.spec_bucket(t)));
        }
        r
    }
}

/// The views of a sequence of entries.
pub open spec fn entry_views(es: Seq<CacheEntry>) -> Seq<CacheEntryView> {
    es.map_values(|e: CacheEntry| e@)
}

/// The entries held by a sequence of record lines, in order; lines that
/// do not parse contribute nothing.
pub open spec fn parsed_entries(lines: Seq<Seq<char>>) -> Seq<CacheEntryView>
    decreases lines.len(),
{
    if lines.len() == 0 {
        Seq::empty()
    } else {
        parsed_entries(lines.drop_last()) + (match sp_entry(lines.last()) {
            Some(m) => seq![m],
            None => Seq::empty(),
        })
    }
}

/// A bucket file is expired when its modification time lies further in
/// the past than the retention window.
pub open spec fn spec_expired(now: u64, modified: u64, retention: u64) -> bool {
    now - modified > retention
}

/// The paths the expiry sweep removes, in order.
pub open spec fn expired_paths(files: Seq<CacheFileInfo>, now: u64, retention: u64) -> Seq<
    Seq<char>,
>
    decreases files.len(),
{
    if files.len() == 0 {
        Seq::empty()
    } else {
        expired_paths(files.drop_last(), now, retention) + (if spec_expired(
            now,
            files.last().modified,
            retention,
        ) {
            seq![files.last().path@]
        } else {
            Seq::empty()
        })
    }
}

/// `p` is the path of some expired file in `files`.
pub open spec fn is_expired_file_path(
    files: Seq<CacheFileInfo>,
    now: u64,
    retention: u64,
    p: Seq<char>,
) -> bool {
    exists|k: int|
        0 <= k < files.len() && spec_expired(now, (#[trigger] files[k]).modified, retention) && p
            == files[k].path@
}

/// Law: the expiry sweep removes a bucket file exactly when its
/// modification time is older than the retention window — every expired
/// file's path is listed, and every listed path belongs to an expired
/// file; newer files are retained.
pub proof fn lemma_expiry_sweep_exact(files: Seq<CacheFileInfo>, now: u64, retention: u64)
    ensures
        forall|k: int|
            0 <= k < files.len() && spec_expired(now, (#[trigger] files[k]).modified, retention)
                ==> expired_paths(files, now, retention).contains(files[k].path@),
        forall|j: int|
            0 <= j < expired_paths(files, now, retention).len() ==> is_expired_file_path(
                files,
                now,
                retention,
                #[trigger] expired_paths(files, now, retention)[j],
            ),
    decreases files.len(),
{
    if files.len() > 0 {
        lemma_expiry_sweep_exact(files.drop_last(), now, retention);
        let pre = expired_paths(files.drop_last(), now, retention);
        let whole = expired_paths(files, now, retention);
        assert forall|k: int|
            0 <= k < files.len() && spec_expired(
                now,
                (#[trigger] files[k]).modified,
                retention,
            ) implies whole.contains(files[k].path@) by {
            if k < files.len() - 1 {
                assert(files.drop_last()[k] == files[k]);
                assert(pre.contains(files[k].path@));
                let j = choose|j: int| 0 <= j < pre.len() && pre[j] == files[k].path@;
                assert(whole[j] == files[k].path@);
            } else {
                assert(whole[pre.len() as int] == files[k].path@);
            }
        }
        assert forall|j: int| 0 <= j < whole.len() implies is_expired_file_path(
            files,
            now,
            retention,
            #[trigger] whole[j],
        ) by {
            if j < pre.len() {
                assert(whole[j] == pre[j]);
                let k = choose|k: int|
                    0 <= k < files.drop_last().len() && spec_expired(
                        now,
                        (#[trigger] files.drop_last()[k]).modified,
                        retention,
                    ) && pre[j] == files.drop_last()[k].path@;
                assert(files.drop_last()[k] == files[k]);
                assert(0 <= k < files.len() && spec_expired(now, files[k].modified, retention)
                    && whole[j] == files[k].path@);
            } else {
                let k = files.len() - 1;
                assert(spec_expired(now, files[k].modified, retention));
                assert(whole[j] == files[k].path@);
            }
        }
    }
}

/// Law: reading back lines that each hold one serialized record yields
/// exactly the entries that were written, in order — however the lines
/// were distributed over bucket files.
#[verifier::rlimit(100)]
pub proof fn lemma_read_back_all(lines: Seq<Seq<char>>, entries: Seq<CacheEntryView>)
    requires
        lines.len() == entries.len(),
        forall|k: int| 0 <= k < lines.len() ==> lines[k] == enc_entry(#[trigger] entries[k]),
    ensures
        parsed_entries(lines) == entries,
    decreases lines.len(),
{
    if lines.len() == 0 {
        assert(parsed_entries(lines) =~= entries);
    } else {
        assert forall|k: int| 0 <= k < lines.drop_last().len() implies lines.drop_last()[k]
            == enc_entry(#[trigger] entries.drop_last()[k]) by {
            assert(lines.drop_last()[k] == lines[k]);
            assert(entries.drop_last()[k] == entries[k]);
        }
        lemma_read_back_all(lines.drop_last(), entries.drop_last());
        assert(lines.last() == enc_entry(entries.last()));
        crate::codec::lemma_record_roundtrip(entries.last());
        assert(parsed_entries(lines) == entries.drop_last() + seq![entries.last()]);
        assert(entries.drop_last() + seq![entries.last()] =~= entries);
    }
}

/// Two file names built around distinct numerals are distinct: the frame
/// around the numeral cannot mask a different bucket.
proof fn lemma_framed_digits_injective(p: Seq<char>, s: Seq<char>, d1: Seq<char>, d2: Seq<char>)
    requires
        p + d1 + s == p + d2 + s,
    ensures
        d1 == d2,
{
    assert((p + d1 + s).len() == (p + d2 + s).len());
    assert((p + d1 + s).len() == (p + d1).len() + s.len());
    assert((p + d1).len() == p.len() + d1.len());
    assert((p + d2 + s).len() == (p + d2).len() + s.len());
    assert((p + d2).len() == p.len() + d2.len());
    assert(d1.len() == d2.len());
    assert forall|k: int| 0 <= k < d1.len() implies d1[k] == d2[k] by {
        assert((p + d1 + s)[p.len() + k] == d1[k]);
        assert((p + d2 + s)[p.len() + k] == d2[k]);
    }
    assert(d1 =~= d2);
}

/// Law: writes whose timestamps fall in the same bucket go to the same
/// file, and writes in different buckets go to different files — so a
/// span of writes crossing two bucket boundaries produces exactly as
/// many files as buckets touched.
pub proof fn lemma_bucket_file_names(c: CacheManager, t1: u64, t2: u64)
    requires
        c.wf(),
    ensures
        c.spec_bucket(t1) == c.spec_bucket(t2) ==> c.spec_file_name(c.spec_bucket(t1))
            == c.spec_file_name(c.spec_bucket(t2)),
        c.spec_bucket(t1) != c.spec_bucket(t2) ==> c.spec_file_name(c.spec_bucket(t1))
            != c.spec_file_name(c.spec_bucket(t2)),
{
    let b1 = c.spec_bucket(t1);
    let b2 = c.spec_bucket(t2);
    if b1 != b2 {
        if c.spec_file_name(b1) == c.spec_file_name(b2) {
            let p = c.spec_cache_dir() + "/"@ + c.spec_prefix() + "_"@;
            let s = ".jsonl"@;
            assert(c.spec_file_name(b1) =~= p + dec_of(b1) + s);
            assert(c.spec_file_name(b2) =~= p + dec_of(b2) + s);
            lemma_framed_digits_injective(p, s, dec_of(b1), dec_of(b2));
            crate::codec::lemma_dec_injective(b1, b2);
        }
    }
}

} // verus!
