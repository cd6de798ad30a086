//! The node's role and its replication information.
use vstd::prelude::*;
use rand::Rng;
use crate::text::{chars_of, eq_keyword};

verus! {

/// Whether a node is the master or one of its replicas.
#[derive(Debug, Clone, Copy, PartialEq, Eq, Structural)]
pub enum RedisRole {
    Master,
    Slave,
}

/// The lowercase name of a role.
pub open spec fn role_name(r: RedisRole) -> Seq<char> {
    match r {
        RedisRole::Master => seq!['m', 'a', 's', 't', 'e', 'r'],
        RedisRole::Slave => seq!['s', 'l', 'a', 'v', 'e'],
    }
}

pub open spec fn is_alphanumeric(c: char) -> bool {
    ('a' <= c && c <= 'z') || ('A' <= c && c <= 'Z') || ('0' <= c && c <= '9')
}

/// The length of the replication identifier.
pub const REPLID_LEN: usize = 40;

impl RedisRole {
    /// The lowercase name of the role.
    pub fn as_str(&self) -> (r: &'static str)
        ensures
            r@ == role_name(*self),
    {
        match self {
            RedisRole::Master => {
                let s = "master";
                proof {
                    reveal_strlit("master");
                }
                assert(s@ =~= role_name(*self));
                s
            },
            RedisRole::Slave => {
                let s = "slave";
                proof {
                    reveal_strlit("slave");
                }
                assert(s@ =~= role_name(*self));
                s
            },
        }
    }

    /// The role that `s` names, ignoring ASCII case.
    pub fn from_name(s: &str) -> (r: Option<RedisRole>)
        ensures
            r == (if crate::text::matches_keyword(s@, role_name(RedisRole::Master)) {
                Some(RedisRole::Master)
            } else if crate::text::matches_keyword(s@, role_name(RedisRole::Slave)) {
                Some(RedisRole::Slave)
            } else {
                None
            }),
    {
        let c = chars_of(s);
        if eq_keyword(&c, &vec!['m', 'a', 's', 't', 'e', 'r']) {
            Some(RedisRole::Master)
        } else if eq_keyword(&c, &vec!['s', 'l', 'a', 'v', 'e']) {
            Some(RedisRole::Slave)
        } else {
            None
        }
    }
}

/// Relies on rand's `Alphanumeric` distribution, sampled `n` times from the
/// thread-local generator: each sample is an ASCII letter or digit.
#[verifier::external_body]
fn random_alphanumeric(n: usize) -> (r: String)
    ensures
        r@.len() == n,
        forall|i: int| 0 <= i < n ==> is_alphanumeric(#[trigger] r@[i]),
{
    rand::thread_rng().sample_iter(&rand::distributions::Alphanumeric).take(n).map(char::from).collect()
}

/// What a node knows of its place in replication.
#[derive(Debug, Clone)]
pub struct RedisInfo {
    pub role: RedisRole,
    pub master_host: String,
    pub master_port: String,
    /// A random identifier, fixed for the life of the process.
    pub master_replid: String,
    pub master_repl_offset: u64,
}

impl RedisInfo {
    /// The information of a fresh node, with a new random identifier.
    pub fn new(role: RedisRole, master_host: &str, master_port: &str) -> (r: Self)
        ensures
            r.role == role,
            r.master_host@ == master_host@,
            r.master_port@ == master_port@,
            r.master_replid@.len() == REPLID_LEN,
            forall|i: int| 0 <= i < REPLID_LEN ==> is_alphanumeric(#[trigger] r.master_replid@[i]),
            r.master_repl_offset == 0,
    {
        RedisInfo {
            role,
            master_host: master_host.to_owned(),
            master_port: master_port.to_owned(),
            master_replid: random_alphanumeric(REPLID_LEN),
            master_repl_offset: 0,
        }
    }
}

} // verus!
