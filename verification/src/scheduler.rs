use vstd::prelude::*;
use vstd::string::StringExecFns;

use crate::config::{AppConfig, CrudApiInstance, SchedulerStrategy, role_read_or_mixed, role_write_or_mixed};
use crate::errors::ServiceError;

verus! {

broadcast use vstd::string::group_string_axioms;

/// Health state of one backend instance, as recorded by the health monitor.
///
/// `Unknown` is the initial state of every instance before its first probe
/// completes; a probe result overwrites the prior state unconditionally.
#[derive(Debug, Clone, Copy, PartialEq, Eq, Structural)]
pub enum InstanceHealthStatus {
    Healthy,
    Unhealthy,
    Unknown,
}

/// The role filter each strategy applies to an instance, by operation
/// direction. Unlike the other two strategies, `LoadBalance` does not fall
/// back to "mixed" instances.
pub open spec fn eligible_role(
    strategy: SchedulerStrategy,
    is_write: bool,
    t: Seq<char>,
) -> bool {
    match strategy {
        SchedulerStrategy::Single => t == "mixed"@,
        SchedulerStrategy::ReadWriteSplit => if is_write {
            role_write_or_mixed(t)
        } else {
            role_read_or_mixed(t)
        },
        SchedulerStrategy::LoadBalance => if is_write {
            t == "write"@
        } else {
            t == "read"@
        },
    }
}

/// The next value of the round-robin counter.
pub open spec fn counter_next(c: u64) -> u64 {
    if c == u64::MAX {
        0
    } else {
        (c + 1) as u64
    }
}

/// Selects a usable backend instance per operation, according to the active
/// strategy and the latest health snapshot.
#[derive(Debug)]
pub struct CrudApiScheduler {
    instances: Vec<CrudApiInstance>,
    health: Vec<InstanceHealthStatus>,
    strategy: SchedulerStrategy,
    load_balance_counter: u64,
}

impl CrudApiScheduler {
    /// The registered instances, in registry order.
    pub closed spec fn spec_instances(self) -> Seq<CrudApiInstance> {
        self.instances@
    }

    /// The recorded health state, parallel to `spec_instances`.
    pub closed spec fn spec_health(self) -> Seq<InstanceHealthStatus> {
        self.health@
    }

    pub closed spec fn spec_strategy(self) -> SchedulerStrategy {
        self.strategy
    }

    pub closed spec fn spec_counter(self) -> u64 {
        self.load_balance_counter
    }

    pub open spec fn wf(self) -> bool {
        self.spec_health().len() == self.spec_instances().len()
    }

    /// Instance `i` can serve the given direction: it is recorded healthy
    /// and its role passes the strategy's filter.
    pub open spec fn selectable(self, is_write: bool, i: int) -> bool {
        &&& self.spec_health()[i] == InstanceHealthStatus::Healthy
        &&& eligible_role(self.spec_strategy(), is_write, self.spec_instances()[i].instance_type@)
    }

    /// The selectable instances among the first `n`, in registry order.
    pub open spec fn candidates_upto(self, is_write: bool, n: int) -> Seq<CrudApiInstance>
        decreases n,
    {
        if n <= 0 {
            Seq::empty()
        } else if self.selectable(is_write, n - 1) {
            self.candidates_upto(is_write, n - 1).push(self.spec_instances()[n - 1])
        } else {
            self.candidates_upto(is_write, n - 1)
        }
    }

    /// All selectable instances for the given direction, in registry order.
    pub open spec fn candidates(self, is_write: bool) -> Seq<CrudApiInstance> {
        self.candidates_upto(is_write, self.spec_instances().len() as int)
    }

    /// `inst` is one of the registered instances and is selectable for the
    /// given direction.
    pub open spec fn is_selectable_instance(self, is_write: bool, inst: CrudApiInstance) -> bool {
        exists|i: int|
            0 <= i < self.spec_instances().len() && self.selectable(is_write, i) && inst
                == #[trigger] self.spec_instances()[i]
    }

    /// Builds a scheduler over the configured instance list, with every
    /// instance initially in the `Unknown` state and the round-robin
    /// counter at zero.
    pub fn new(config: &AppConfig) -> (r: Self)
        ensures
            r.wf(),
            r.spec_instances() == config.crud_api.instances@,
            r.spec_health().len() == config.crud_api.instances@.len(),
            forall|i: int|
                0 <= i < r.spec_health().len() ==> r.spec_health()[i]
                    == InstanceHealthStatus::Unknown,
            r.spec_strategy() == config.crud_api.strategy,
            r.spec_counter() == 0,
    {
        let n = config.crud_api.instances.len();
        let mut instances: Vec<CrudApiInstance> = Vec::new();
        let mut health: Vec<InstanceHealthStatus> = Vec::new();
        let mut i: usize = 0;
        while i < n
            invariant
                n == config.crud_api.instances@.len(),
                0 <= i <= n,
                instances@ == config.crud_api.instances@.subrange(0, i as int),
                health@.len() == i,
                forall|k: int| 0 <= k < i ==> health@[k] == InstanceHealthStatus::Unknown,
            decreases n - i,
        {
            instances.push(config.crud_api.instances[i].clone());
            health.push(InstanceHealthStatus::Unknown);
            proof {
                assert(instances@ =~= config.crud_api.instances@.subrange(0, i + 1 as int));
            }
            i += 1;
        }
        proof {
            assert(instances@ =~= config.crud_api.instances@);
        }
        CrudApiScheduler {
            instances,
            health,
            strategy: config.crud_api.strategy,
            load_balance_counter: 0,
        }
    }

    /// A copy of the registered instance list, taken so the health monitor
    /// can probe without holding any shared access during network calls.
    pub fn instances_snapshot(&self) -> (r: Vec<CrudApiInstance>)
        ensures
            r@ == self.spec_instances(),
    {
        let n = self.instances.len();
        let mut v: Vec<CrudApiInstance> = Vec::new();
        let mut i: usize = 0;
        while i < n
            invariant
                n == self.instances@.len(),
                0 <= i <= n,
                v@ == self.instances@.subrange(0, i as int),
            decreases n - i,
        {
            v.push(self.instances[i].clone());
            proof {
                assert(v@ =~= self.instances@.subrange(0, i + 1 as int));
            }
            i += 1;
        }
        proof {
            assert(v@ =~= self.instances@);
        }
        v
    }

    /// Applies one tick's probe results as a single atomic batch: the new
    /// state overwrites the old one unconditionally, one result per
    /// instance. Returns, per instance, whether the recorded state changed
    /// (the health monitor logs exactly those transitions).
    pub fn apply_health_batch(&mut self, new_statuses: &Vec<InstanceHealthStatus>) -> (changed:
        Vec<bool>)
        requires
            old(self).wf(),
            new_statuses@.len() == old(self).spec_instances().len(),
        ensures
            final(self).wf(),
            final(self).spec_instances() == old(self).spec_instances(),
            final(self).spec_strategy() == old(self).spec_strategy(),
            final(self).spec_counter() == old(self).spec_counter(),
            final(self).spec_health() == new_statuses@,
            changed@.len() == new_statuses@.len(),
            forall|i: int|
                0 <= i < changed@.len() ==> changed@[i] == (old(self).spec_health()[i]
                    != new_statuses@[i]),
    {
        let n = self.health.len();
        let mut nh: Vec<InstanceHealthStatus> = Vec::new();
        let mut changed: Vec<bool> = Vec::new();
        let mut i: usize = 0;
        while i < n
            invariant
                n == self.health@.len(),
                n == new_statuses@.len(),
                0 <= i <= n,
                nh@ == new_statuses@.subrange(0, i as int),
                changed@.len() == i,
                forall|k: int|
                    0 <= k < i ==> changed@[k] == (self.health@[k] != new_statuses@[k]),
            decreases n - i,
        {
            nh.push(new_statuses[i]);
            changed.push(self.health[i] != new_statuses[i]);
            proof {
                assert(nh@ =~= new_statuses@.subrange(0, i + 1 as int));
            }
            i += 1;
        }
        proof {
            assert(nh@ =~= new_statuses@);
        }
        self.health = nh;
        changed
    }

    /// Whether instance `idx` passes the strategy's role filter for the
    /// given direction.
    fn role_eligible(&self, is_write: bool, idx: usize) -> (r: bool)
        requires
            idx < self.spec_instances().len(),
        ensures
            r == eligible_role(
                self.spec_strategy(),
                is_write,
                self.spec_instances()[idx as int].instance_type@,
            ),
    {
        let t = &self.instances[idx].instance_type;
        match self.strategy {
            SchedulerStrategy::Single => *t == String::from_str("mixed"),
            SchedulerStrategy::ReadWriteSplit => {
                if is_write {
                    *t == String::from_str("write") || *t == String::from_str("mixed")
                } else {
                    *t == String::from_str("read") || *t == String::from_str("mixed")
                }
            },
            SchedulerStrategy::LoadBalance => {
                if is_write {
                    *t == String::from_str("write")
                } else {
                    *t == String::from_str("read")
                }
            },
        }
    }

    /// The healthy instances that pass the strategy's role filter, in
    /// registry order.
    fn healthy_candidates(&self, is_write: bool) -> (r: Vec<CrudApiInstance>)
        requires
            self.wf(),
        ensures
            r@ == self.candidates(is_write),
    {
        let n = self.instances.len();
        let mut v: Vec<CrudApiInstance> = Vec::new();
        let mut i: usize = 0;
        while i < n
            invariant
                self.wf(),
                n == self.spec_instances().len(),
                0 <= i <= n,
                v@ == self.candidates_upto(is_write, i as int),
            decreases n - i,
        {
            let healthy = self.health[i] == InstanceHealthStatus::Healthy;
            if healthy && self.role_eligible(is_write, i) {
                v.push(self.instances[i].clone());
            }
            i += 1;
        }
        v
    }

    /// Selects an instance for the given operation direction.
    ///
    /// Selection fails with `NoHealthyInstance` exactly when no registered
    /// instance is both healthy and role-eligible; otherwise `Single` and
    /// `ReadWriteSplit` return the first candidate in registry order, and
    /// `LoadBalance` picks by round robin over the candidate list,
    /// advancing the counter. Only the counter is ever modified, and only
    /// on a successful load-balanced selection.
    pub fn select_instance(&mut self, is_write_operation: bool) -> (r: Result<
        CrudApiInstance,
        ServiceError,
    >)
        requires
            old(self).wf(),
        ensures
            final(self).wf(),
            final(self).spec_instances() == old(self).spec_instances(),
            final(self).spec_health() == old(self).spec_health(),
            final(self).spec_strategy() == old(self).spec_strategy(),
            final(self).candidates(is_write_operation) == old(self).candidates(
                is_write_operation,
            ),
            r is Err <==> old(self).candidates(is_write_operation).len() == 0,
            r matches Err(e) ==> e == ServiceError::NoHealthyInstance && *final(self) == *old(
                self,
            ),
            r matches Ok(inst) ==> old(self).is_selectable_instance(is_write_operation, inst),
            old(self).spec_strategy() != SchedulerStrategy::LoadBalance ==> final(self).spec_counter() == old(self).spec_counter(),
            old(self).spec_strategy() != SchedulerStrategy::LoadBalance ==> (r matches Ok(inst)
                ==> inst == old(self).candidates(is_write_operation)[0]),
            old(self).spec_strategy() == SchedulerStrategy::LoadBalance ==> (r matches Ok(inst)
                ==> {
                let c = old(self).candidates(is_write_operation);
                &&& inst == c[old(self).spec_counter() as int % c.len() as int]
                &&& final(self).spec_counter() == counter_next(old(self).spec_counter())
            }),
    {
        let candidates = self.healthy_candidates(is_write_operation);
        let len = candidates.len();
        if len == 0 {
            return Err(ServiceError::NoHealthyInstance);
        }
        proof {
            lemma_candidates_from_selectable(*self, is_write_operation, self.spec_instances().len() as int);
        }
        match self.strategy {
            SchedulerStrategy::Single | SchedulerStrategy::ReadWriteSplit => {
                Ok(candidates[0].clone())
            },
            SchedulerStrategy::LoadBalance => {
                let idx = (self.load_balance_counter % (len as u64)) as usize;
                let picked = candidates[idx].clone();
                self.load_balance_counter = if self.load_balance_counter == u64::MAX {
                    0
                } else {
                    self.load_balance_counter + 1
                };
                proof {
                    lemma_candidates_ignore_counter(
                        *old(self),
                        *self,
                        is_write_operation,
                        self.spec_instances().len() as int,
                    );
                }
                Ok(picked)
            },
        }
    }

    /// A read-only diagnostic snapshot: id, URL and health state of every
    /// registered instance, in registry order.
    pub fn get_all_instance_status(&self) -> (r: Vec<(String, String, InstanceHealthStatus)>)
        requires
            self.wf(),
        ensures
            r@.len() == self.spec_instances().len(),
            forall|i: int|
                0 <= i < r@.len() ==> {
                    &&& (#[trigger] r@[i]).0@ == self.spec_instances()[i].id@
                    &&& r@[i].1@ == self.spec_instances()[i].url@
                    &&& r@[i].2 == self.spec_health()[i]
                },
    {
        let n = self.instances.len();
        let mut v: Vec<(String, String, InstanceHealthStatus)> = Vec::new();
        let mut i: usize = 0;
        while i < n
            invariant
                self.wf(),
                n == self.spec_instances().len(),
                0 <= i <= n,
                v@.len() == i,
                forall|k: int|
                    0 <= k < i ==> {
                        &&& (#[trigger] v@[k]).0@ == self.spec_instances()[k].id@
                        &&& v@[k].1@ == self.spec_instances()[k].url@
                        &&& v@[k].2 == self.spec_health()[k]
                    },
            decreases n - i,
        {
            v.push((self.instances[i].id.clone(), self.instances[i].url.clone(), self.health[i]));
            i += 1;
        }
        v
    }

    /// Whether any registered instance is currently recorded healthy.
    pub fn has_healthy_instance(&self) -> (r: bool)
        requires
            self.wf(),
        ensures
            r == exists|i: int|
                0 <= i < self.spec_health().len() && self.spec_health()[i]
                    == InstanceHealthStatus::Healthy,
    {
        let n = self.health.len();
        let mut i: usize = 0;
        while i < n
            invariant
                n == self.spec_health().len(),
                0 <= i <= n,
                forall|k: int| 0 <= k < i ==> self.spec_health()[k] != InstanceHealthStatus::Healthy,
            decreases n - i,
        {
            if self.health[i] == InstanceHealthStatus::Healthy {
                return true;
            }
            i += 1;
        }
        false
    }
}

/// View of an optional string.
pub open spec fn opt_view(o: Option<String>) -> Option<Seq<char>> {
    match o {
        Some(s) => Some(s@),
        None => None,
    }
}

/// How one probe outcome is recorded: healthy exactly when the HTTP call
/// succeeded and the body's status field equals "ok"; anything else —
/// transport error, non-success status, parse failure, or a mismatched
/// status value — is unhealthy. A probe never records `Unknown`.
pub open spec fn spec_probe_status(
    http_success: bool,
    status_field: Option<Seq<char>>,
) -> InstanceHealthStatus {
    if http_success && status_field == Some("ok"@) {
        InstanceHealthStatus::Healthy
    } else {
        InstanceHealthStatus::Unhealthy
    }
}

/// The string value of a named field of a JSON document, when the document
/// parses and holds one.
pub uninterp spec fn json_string_field_of(body: Seq<char>, field: Seq<char>) -> Option<Seq<char>>;

/// Relies on serde_json::from_str, serde_json::Value::get and
/// serde_json::Value::as_str: the named string field extracted from a JSON
/// document depends on the document text and the field name alone.
#[verifier::external_body]
fn parse_string_field(body: &str, field: &str) -> (r: Option<String>)
    ensures
        r matches Some(s) ==> json_string_field_of(body@, field@) == Some(s@),
        r is None ==> json_string_field_of(body@, field@) is None,
{
    match serde_json::from_str::<serde_json::Value>(body) {
        Ok(v) => v.get(field).and_then(|s| s.as_str()).map(|s| s.to_string()),
        Err(_) => None,
    }
}

/// Classifies a probe from the HTTP outcome and the already-extracted
/// status field.
pub fn classify_probe_response(http_success: bool, status_field: &Option<String>) -> (r:
    InstanceHealthStatus)
    ensures
        r == spec_probe_status(http_success, opt_view(*status_field)),
        r != InstanceHealthStatus::Unknown,
{
    let healthy = match status_field {
        Some(s) => http_success && *s == String::from_str("ok"),
        None => false,
    };
    if healthy {
        InstanceHealthStatus::Healthy
    } else {
        InstanceHealthStatus::Unhealthy
    }
}

/// Classifies a probe from the HTTP outcome and the raw response body: the
/// probe is successful exactly when the call succeeded and the body's
/// "status" field equals "ok".
pub fn classify_probe(http_success: bool, body: &str) -> (r: InstanceHealthStatus)
    ensures
        r == spec_probe_status(http_success, json_string_field_of(body@, "status"@)),
        r != InstanceHealthStatus::Unknown,
{
    let field = parse_string_field(body, "status");
    classify_probe_response(http_success, &field)
}

/// Every candidate is one of the selectable registered instances.
proof fn lemma_candidates_from_selectable(s: CrudApiScheduler, is_write: bool, n: int)
    requires
        n <= s.spec_instances().len(),
    ensures
        forall|k: int|
            0 <= k < s.candidates_upto(is_write, n).len() ==> s.is_selectable_instance(
                is_write,
                #[trigger] s.candidates_upto(is_write, n)[k],
            ),
    decreases n,
{
    if n > 0 {
        lemma_candidates_from_selectable(s, is_write, n - 1);
        assert forall|k: int|
            0 <= k < s.candidates_upto(is_write, n).len() implies s.is_selectable_instance(
            is_write,
            #[trigger] s.candidates_upto(is_write, n)[k],
        ) by {
            if s.selectable(is_write, n - 1) && k == s.candidates_upto(is_write, n - 1).len() {
                assert(s.candidates_upto(is_write, n)[k] == s.spec_instances()[n - 1]);
            } else {
                assert(s.candidates_upto(is_write, n)[k] == s.candidates_upto(is_write, n - 1)[k]);
            }
        }
    }
}

proof fn lemma_no_healthy_upto(s: CrudApiScheduler, is_write: bool, n: int)
    requires
        s.wf(),
        n <= s.spec_instances().len(),
        forall|i: int|
            0 <= i < s.spec_health().len() ==> s.spec_health()[i]
                != InstanceHealthStatus::Healthy,
    ensures
        s.candidates_upto(is_write, n).len() == 0,
    decreases n,
{
    if n > 0 {
        lemma_no_healthy_upto(s, is_write, n - 1);
    }
}

/// Law: under every strategy, when no registered instance is recorded
/// healthy the candidate list is empty, so `select_instance` rejects with
/// `NoHealthyInstance`.
pub proof fn lemma_no_healthy_instance_rejected(s: CrudApiScheduler, is_write: bool)
    requires
        s.wf(),
        forall|i: int|
            0 <= i < s.spec_health().len() ==> s.spec_health()[i]
                != InstanceHealthStatus::Healthy,
    ensures
        s.candidates(is_write).len() == 0,
{
    lemma_no_healthy_upto(s, is_write, s.spec_instances().len() as int);
}

/// Law: an instance whose recorded state is not `Healthy` — in particular
/// one never probed, which still holds its initial `Unknown` state — is
/// never selectable, in either direction and under every strategy.
pub proof fn lemma_not_healthy_never_selectable(s: CrudApiScheduler, is_write: bool, i: int)
    requires
        s.wf(),
        0 <= i < s.spec_health().len(),
        s.spec_health()[i] != InstanceHealthStatus::Healthy,
    ensures
        !s.selectable(is_write, i),
{
}

/// The candidate index a load-balanced selection picks when the counter
/// holds `c + k` and there are `n` candidates.
pub open spec fn round_robin_index(c: int, k: int, n: int) -> int {
    (c + k) % n
}

/// Some step among the first `n`, starting from counter `c`, picks
/// candidate index `j`.
pub open spec fn round_robin_hits(c: int, n: int, j: int) -> bool {
    exists|k: int| 0 <= k < n && #[trigger] round_robin_index(c, k, n) == j
}

/// Law: under load balancing with `n` healthy candidates, `n` consecutive
/// same-direction selections — which use the counter values
/// `c, c+1, ..., c+n-1` — visit every candidate index exactly once: each
/// index below `n` is picked by some step, and no two steps pick the same
/// index.
pub proof fn lemma_round_robin_visits_each_once(c: int, n: int)
    requires
        0 <= c,
        1 <= n,
    ensures
        forall|j: int| 0 <= j < n ==> #[trigger] round_robin_hits(c, n, j),
        forall|k1: int, k2: int|
            0 <= k1 < k2 < n ==> round_robin_index(c, k1, n) != round_robin_index(c, k2, n),
{
    vstd::arithmetic::div_mod::lemma_fundamental_div_mod(c, n);
    vstd::arithmetic::div_mod::lemma_mod_bound(c, n);
    let q = c / n;
    let r = c % n;
    assert forall|j: int| 0 <= j < n implies #[trigger] round_robin_hits(c, n, j) by {
        let k = if j >= r {
            j - r
        } else {
            j - r + n
        };
        assert(0 <= k < n);
        if j >= r {
            assert(c + k == n * q + j);
            vstd::arithmetic::div_mod::lemma_mod_multiples_vanish(q, j, n);
            vstd::arithmetic::div_mod::lemma_small_mod(j as nat, n as nat);
            assert(round_robin_index(c, k, n) == j);
        } else {
            assert(c + k == n * (q + 1) + j) by {
                assert(n * (q + 1) == n * q + n) by (nonlinear_arith);
            }
            vstd::arithmetic::div_mod::lemma_mod_multiples_vanish(q + 1, j, n);
            vstd::arithmetic::div_mod::lemma_small_mod(j as nat, n as nat);
            assert(round_robin_index(c, k, n) == j);
        }
    }
    assert forall|k1: int, k2: int| 0 <= k1 < k2 < n implies round_robin_index(c, k1, n)
        != round_robin_index(c, k2, n) by {
        if round_robin_index(c, k1, n) == round_robin_index(c, k2, n) {
            vstd::arithmetic::div_mod::lemma_fundamental_div_mod(c + k1, n);
            vstd::arithmetic::div_mod::lemma_fundamental_div_mod(c + k2, n);
            let q1 = (c + k1) / n;
            let q2 = (c + k2) / n;
            let m = (c + k1) % n;
            assert(k2 - k1 == n * (q2 - q1)) by (nonlinear_arith)
                requires
                    c + k1 == n * q1 + m,
                    c + k2 == n * q2 + m,
            ;
            assert(false) by (nonlinear_arith)
                requires
                    n >= 1,
                    k2 - k1 == n * (q2 - q1),
                    0 < k2 - k1 < n,
            ;
        }
    }
}

/// Law: under read/write splitting, a write selection never yields an
/// instance whose role is "read", a read selection never yields one whose
/// role is "write", and a healthy instance whose role is "mixed" is
/// selectable in both directions.
pub proof fn lemma_read_write_split_isolation(s: CrudApiScheduler, inst: CrudApiInstance)
    requires
        s.wf(),
        s.spec_strategy() == SchedulerStrategy::ReadWriteSplit,
    ensures
        s.is_selectable_instance(true, inst) ==> inst.instance_type@ != "read"@,
        s.is_selectable_instance(false, inst) ==> inst.instance_type@ != "write"@,
        forall|i: int|
            0 <= i < s.spec_instances().len() && s.spec_health()[i]
                == InstanceHealthStatus::Healthy && (#[trigger] s.spec_instances()[i].instance_type@)
                == "mixed"@ ==> s.selectable(true, i) && s.selectable(false, i),
{
    reveal_strlit("read");
    reveal_strlit("write");
    reveal_strlit("mixed");
    assert("read"@.len() == 4);
    assert("write"@.len() == 5);
    assert("mixed"@.len() == 5);
    assert("write"@[0] == 'w' && "mixed"@[0] == 'm');
}

/// The candidate list depends only on the instance list, the health table
/// and the strategy; in particular the round-robin counter does not affect
/// it.
proof fn lemma_candidates_ignore_counter(
    a: CrudApiScheduler,
    b: CrudApiScheduler,
    is_write: bool,
    n: int,
)
    requires
        a.spec_instances() == b.spec_instances(),
        a.spec_health() == b.spec_health(),
        a.spec_strategy() == b.spec_strategy(),
    ensures
        a.candidates_upto(is_write, n) == b.candidates_upto(is_write, n),
    decreases n,
{
    if n > 0 {
        lemma_candidates_ignore_counter(a, b, is_write, n - 1);
    }
}

} // verus!
