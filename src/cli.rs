//! The command-line settings that decide a node's role and its master.
use vstd::prelude::*;
use crate::text::{chars_of, string_of};
use crate::types::RedisRole;

verus! {

/// The settings a node starts with.
#[derive(Debug, Clone)]
pub struct Cli {
    pub host: String,
    pub port: String,
    pub role: RedisRole,
    /// `"<host> <port>"` of the master, for a replica.
    pub replicaof: Option<String>,
}

/// Why the settings are unusable.
#[derive(Debug, Clone, Copy, PartialEq, Eq, Structural)]
pub enum CliError {
    /// `replicaof` is not of the form `"<host> <port>"`.
    InvalidReplicaOf,
}

pub open spec fn no_space(s: Seq<char>) -> bool {
    forall|i: int| 0 <= i < s.len() ==> #[trigger] s[i] != ' '
}

/// Whether `s` is `h`, one space and `p`, with no other space.
pub open spec fn splits_at_space(s: Seq<char>, h: Seq<char>, p: Seq<char>) -> bool {
    s == h + seq![' '] + p && no_space(h) && no_space(p)
}

impl Cli {
    /// A node with a master to follow is a replica; otherwise the configured
    /// role holds.
    pub fn determine_role(&self) -> (r: RedisRole)
        ensures
            r == (if self.replicaof is Some {
                RedisRole::Slave
            } else {
                self.role
            }),
    {
        match self.replicaof {
            Some(_) => RedisRole::Slave,
            None => self.role,
        }
    }

    /// The master's host and port: from `replicaof` where it is given, else
    /// the node's own.
    pub fn get_master_info(&self) -> (r: Result<(String, String), CliError>)
        ensures
            self.replicaof is None ==> (r matches Ok((h, p)) && h@ == self.host@ && p@
                == self.port@),
            self.replicaof matches Some(s) ==> match r {
                Ok((h, p)) => splits_at_space(s@, h@, p@),
                Err(_) => forall|h: Seq<char>, p: Seq<char>| !splits_at_space(s@, h, p),
            },
    {
        match &self.replicaof {
            None => Ok((self.host.clone(), self.port.clone())),
            Some(s) => {
                let c = chars_of(s.as_str());
                let mut i: usize = 0;
                while i < c.len() && c[i] != ' '
                    invariant
                        i <= c@.len(),
                        forall|j: int| 0 <= j < i ==> c@[j] != ' ',
                    decreases c@.len() - i,
                {
                    i = i + 1;
                }
                if i == c.len() {
                    proof {
                        assert forall|h: Seq<char>, p: Seq<char>| !splits_at_space(s@, h, p) by {
                            if s@ == h + seq![' '] + p {
                                assert(c@[h.len() as int] == ' ');
                            }
                        }
                    }
                    return Err(CliError::InvalidReplicaOf);
                }
                let mut j: usize = i + 1;
                while j < c.len() && c[j] != ' '
                    invariant
                        i < j <= c@.len(),
                        forall|k: int| i < k < j ==> c@[k] != ' ',
                    decreases c@.len() - j,
                {
                    j = j + 1;
                }
                if j < c.len() {
                    proof {
                        assert forall|h: Seq<char>, p: Seq<char>| !splits_at_space(s@, h, p) by {
                            if splits_at_space(s@, h, p) {
                                let n = h.len() as int;
                                if i < n {
                                    assert(h[i as int] == c@[i as int]);
                                }
                                assert(c@[n] == ' ');
                                assert(p[j - n - 1] == c@[j as int]);
                            }
                        }
                    }
                    return Err(CliError::InvalidReplicaOf);
                }
                let mut hv: Vec<char> = Vec::new();
                let mut pv: Vec<char> = Vec::new();
                let mut k: usize = 0;
                while k < c.len()
                    invariant
                        i < c@.len(),
                        k <= c@.len(),
                        k <= i ==> hv@ == c@.subrange(0, k as int) && pv@.len() == 0,
                        k > i ==> hv@ == c@.subrange(0, i as int) && pv@ == c@.subrange(
                            i + 1,
                            k as int,
                        ),
                    decreases c@.len() - k,
                {
                    if k < i {
                        hv.push(c[k]);
                    } else if k > i {
                        pv.push(c[k]);
                    }
                    k = k + 1;
                }
                assert(c@ =~= hv@ + seq![' '] + pv@);
                Ok((string_of(&hv), string_of(&pv)))
            },
        }
    }
}

} // verus!
