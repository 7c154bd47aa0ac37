use vstd::prelude::*;
use vstd::string::StringExecFns;
use vstd::utf8::encode_utf8;

use crate::errors::ServiceError;

verus! {

broadcast use vstd::string::group_string_axioms;

/// Strategy that governs which backend instance class serves an operation.
#[derive(Debug, Clone, Copy, PartialEq, Eq, Structural)]
pub enum SchedulerStrategy {
    Single,
    ReadWriteSplit,
    LoadBalance,
}

/// One configured backend storage instance.
#[derive(Debug)]
pub struct CrudApiInstance {
    pub id: String,
    pub url: String,
    /// Declared role: "read", "write" or "mixed".
    pub instance_type: String,
    /// Connection timeout in milliseconds.
    pub timeout: u64,
    pub retries: u32,
}

impl Clone for CrudApiInstance {
    fn clone(&self) -> (r: Self)
        ensures
            r == *self,
    {
        CrudApiInstance {
            id: self.id.clone(),
            url: self.url.clone(),
            instance_type: self.instance_type.clone(),
            timeout: self.timeout,
            retries: self.retries,
        }
    }
}

#[derive(Debug, Clone)]
pub struct ServerConfig {
    pub host: String,
    pub port: u16,
    pub https: bool,
}

#[derive(Debug, Clone)]
pub struct JwtConfig {
    pub secret: String,
    pub expires_in: i64,
    pub refresh_in: i64,
}

#[derive(Debug, Clone)]
pub struct EncryptionConfig {
    pub algorithm: String,
    pub key_length: u32,
    pub iterations: u32,
    pub salt: String,
}

#[derive(Debug, Clone)]
pub struct ServiceRoleConfig {
    /// Service role: "encrypt", "decrypt" or "mixed".
    pub role: String,
    pub id: String,
}

#[derive(Debug, Clone)]
pub struct CrudApiConfig {
    pub instances: Vec<CrudApiInstance>,
    pub strategy: SchedulerStrategy,
    /// Health check interval in seconds.
    pub health_check_interval: u64,
    /// Connection timeout in milliseconds.
    pub timeout: u64,
    pub retries: u32,
}

#[derive(Debug, Clone)]
pub struct AppConfig {
    pub server: ServerConfig,
    pub jwt: JwtConfig,
    pub encryption: EncryptionConfig,
    pub service: ServiceRoleConfig,
    pub crud_api: CrudApiConfig,
}

/// The service roles that the configuration accepts.
pub open spec fn valid_service_role(r: Seq<char>) -> bool {
    r == "encrypt"@ || r == "decrypt"@ || r == "mixed"@
}

/// The instance roles that the configuration accepts.
pub open spec fn valid_instance_type(t: Seq<char>) -> bool {
    t == "read"@ || t == "write"@ || t == "mixed"@
}

pub open spec fn instance_ok(i: CrudApiInstance) -> bool {
    &&& i.id@.len() > 0
    &&& i.url@.len() > 0
    &&& valid_instance_type(i.instance_type@)
}

pub open spec fn role_write_or_mixed(t: Seq<char>) -> bool {
    t == "write"@ || t == "mixed"@
}

pub open spec fn role_read_or_mixed(t: Seq<char>) -> bool {
    t == "read"@ || t == "mixed"@
}

/// The per-strategy constraint on the configured instance set.
pub open spec fn strategy_ok(c: CrudApiConfig) -> bool {
    match c.strategy {
        SchedulerStrategy::Single => c.instances@.len() == 1,
        SchedulerStrategy::ReadWriteSplit => {
            &&& exists|k: int|
                0 <= k < c.instances@.len() && role_write_or_mixed(
                    #[trigger] c.instances@[k].instance_type@,
                )
            &&& exists|k: int|
                0 <= k < c.instances@.len() && role_read_or_mixed(
                    #[trigger] c.instances@[k].instance_type@,
                )
        },
        SchedulerStrategy::LoadBalance => c.instances@.len() >= 1,
    }
}

/// Validity of the whole configuration: what `validate` accepts.
pub open spec fn config_valid(c: AppConfig) -> bool {
    &&& valid_service_role(c.service.role@)
    &&& encode_utf8(c.jwt.secret@).len() >= 16
    &&& c.crud_api.instances@.len() > 0
    &&& forall|k: int| 0 <= k < c.crud_api.instances@.len() ==> instance_ok(#[trigger] c.crud_api.instances@[k])
    &&& strategy_ok(c.crud_api)
}

/// Shape of the write/read instance pair that the planner builds for the
/// single and read-write-split backend layouts.
pub open spec fn planned_pair(
    r: Seq<CrudApiInstance>,
    wurl: Seq<char>,
    wt: u64,
    wr: u32,
    rurl: Seq<char>,
    rt: u64,
    rr: u32,
) -> bool {
    &&& r.len() == 2
    &&& r[0].id@ == "write-01"@
    &&& r[0].url@ == wurl
    &&& r[0].instance_type@ == "write"@
    &&& r[0].timeout == wt
    &&& r[0].retries == wr
    &&& r[1].id@ == "read-01"@
    &&& r[1].url@ == rurl
    &&& r[1].instance_type@ == "read"@
    &&& r[1].timeout == rt
    &&& r[1].retries == rr
}

/// Turns the configured backend layout into the instance list and strategy.
///
/// "single" yields exactly one mixed instance on the write URL under the
/// `Single` strategy — the strategy requires exactly one configured
/// instance and selects only mixed roles, so any other layout could never
/// validate or serve; "load_balance" keeps the explicitly configured
/// instances (or one default mixed instance on the write URL when none
/// were given); any other value yields a write/read pair under
/// `ReadWriteSplit`.
pub fn plan_backend_instances(
    backend_type: &String,
    write_url: &String,
    write_timeout: u64,
    write_retries: u32,
    read_url: &String,
    read_timeout: u64,
    read_retries: u32,
    lb_instances: Vec<CrudApiInstance>,
) -> (r: (Vec<CrudApiInstance>, SchedulerStrategy))
    ensures
        backend_type@ == "single"@ ==> {
            &&& r.1 == SchedulerStrategy::Single
            &&& r.0@.len() == 1
            &&& r.0@[0].id@ == "crud-01"@
            &&& r.0@[0].url@ == write_url@
            &&& r.0@[0].instance_type@ == "mixed"@
            &&& r.0@[0].timeout == write_timeout
            &&& r.0@[0].retries == write_retries
        },
        backend_type@ == "load_balance"@ ==> {
            &&& r.1 == SchedulerStrategy::LoadBalance
            &&& lb_instances@.len() > 0 ==> r.0@ == lb_instances@
            &&& lb_instances@.len() == 0 ==> {
                &&& r.0@.len() == 1
                &&& r.0@[0].id@ == "crud-01"@
                &&& r.0@[0].url@ == write_url@
                &&& r.0@[0].instance_type@ == "mixed"@
                &&& r.0@[0].timeout == write_timeout
                &&& r.0@[0].retries == write_retries
            }
        },
        backend_type@ != "single"@ && backend_type@ != "load_balance"@ ==> r.1
            == SchedulerStrategy::ReadWriteSplit && planned_pair(
            r.0@,
            write_url@,
            write_timeout,
            write_retries,
            read_url@,
            read_timeout,
            read_retries,
        ),
{
    proof {
        reveal_strlit("single");
        reveal_strlit("load_balance");
        assert("single"@.len() == 6);
        assert("load_balance"@.len() == 12);
    }
    if *backend_type == String::from_str("single") {
        let mut v: Vec<CrudApiInstance> = Vec::new();
        v.push(CrudApiInstance {
            id: String::from_str("crud-01"),
            url: write_url.clone(),
            instance_type: String::from_str("mixed"),
            timeout: write_timeout,
            retries: write_retries,
        });
        (v, SchedulerStrategy::Single)
    } else if *backend_type == String::from_str("load_balance") {
        if lb_instances.len() > 0 {
            (lb_instances, SchedulerStrategy::LoadBalance)
        } else {
            let mut v: Vec<CrudApiInstance> = Vec::new();
            v.push(CrudApiInstance {
                id: String::from_str("crud-01"),
                url: write_url.clone(),
                instance_type: String::from_str("mixed"),
                timeout: write_timeout,
                retries: write_retries,
            });
            (v, SchedulerStrategy::LoadBalance)
        }
    } else {
        let mut v: Vec<CrudApiInstance> = Vec::new();
        v.push(CrudApiInstance {
            id: String::from_str("write-01"),
            url: write_url.clone(),
            instance_type: String::from_str("write"),
            timeout: write_timeout,
            retries: write_retries,
        });
        v.push(CrudApiInstance {
            id: String::from_str("read-01"),
            url: read_url.clone(),
            instance_type: String::from_str("read"),
            timeout: read_timeout,
            retries: read_retries,
        });
        (v, SchedulerStrategy::ReadWriteSplit)
    }
}

impl AppConfig {
    /// Checks the configuration before the core starts serving traffic:
    /// the service role, the JWT secret length, and the instance set
    /// against the chosen scheduling strategy.
    pub fn validate(&self) -> (r: Result<(), ServiceError>)
        ensures
            r is Ok <==> config_valid(*self),
            r matches Err(e) ==> e == ServiceError::ConfigInvalid,
    {
        let role_ok = self.service.role == String::from_str("encrypt")
            || self.service.role == String::from_str("decrypt")
            || self.service.role == String::from_str("mixed");
        if !role_ok {
            return Err(ServiceError::ConfigInvalid);
        }
        if self.jwt.secret.as_str().as_bytes().len() < 16 {
            return Err(ServiceError::ConfigInvalid);
        }
        let n = self.crud_api.instances.len();
        if n == 0 {
            return Err(ServiceError::ConfigInvalid);
        }
        let t_read = String::from_str("read");
        let t_write = String::from_str("write");
        let t_mixed = String::from_str("mixed");
        let mut i: usize = 0;
        while i < n
            invariant
                n == self.crud_api.instances@.len(),
                0 <= i <= n,
                t_read@ == "read"@,
                t_write@ == "write"@,
                t_mixed@ == "mixed"@,
                forall|k: int| 0 <= k < i ==> instance_ok(#[trigger] self.crud_api.instances@[k]),
            decreases n - i,
        {
            let inst = &self.crud_api.instances[i];
            if inst.id.as_str().is_empty() {
                return Err(ServiceError::ConfigInvalid);
            }
            if inst.url.as_str().is_empty() {
                return Err(ServiceError::ConfigInvalid);
            }
            let type_ok = inst.instance_type == t_read || inst.instance_type == t_write
                || inst.instance_type == t_mixed;
            if !type_ok {
                return Err(ServiceError::ConfigInvalid);
            }
            i += 1;
        }
        match self.crud_api.strategy {
            SchedulerStrategy::Single => {
                if n != 1 {
                    return Err(ServiceError::ConfigInvalid);
                }
            },
            SchedulerStrategy::ReadWriteSplit => {
                let mut has_write = false;
                let mut has_read = false;
                let mut j: usize = 0;
                while j < n
                    invariant
                        n == self.crud_api.instances@.len(),
                        0 <= j <= n,
                        t_read@ == "read"@,
                        t_write@ == "write"@,
                        t_mixed@ == "mixed"@,
                        has_write == exists|k: int|
                            0 <= k < j && role_write_or_mixed(
                                #[trigger] self.crud_api.instances@[k].instance_type@,
                            ),
                        has_read == exists|k: int|
                            0 <= k < j && role_read_or_mixed(
                                #[trigger] self.crud_api.instances@[k].instance_type@,
                            ),
                    decreases n - j,
                {
                    let t = &self.crud_api.instances[j].instance_type;
                    if *t == t_write || *t == t_mixed {
                        has_write = true;
                    }
                    if *t == t_read || *t == t_mixed {
                        has_read = true;
                    }
                    j += 1;
                }
                if !has_write || !has_read {
                    return Err(ServiceError::ConfigInvalid);
                }
            },
            SchedulerStrategy::LoadBalance => {
                // n > 0 was already established above.
            },
        }
        Ok(())
    }
}

} // verus!
