//! What master and replica share: the node's state and the commands that
//! both answer alike.
use vstd::prelude::*;
use crate::command::{
    CommandModel, RedisCommand, RedisCommandResponse, error_reply, null_reply, text_reply,
};
use crate::store::{RedisStore, StoreModel, after_get, get_result};
use crate::text::{dec, push_dec, push_str, same_text, string_of};
use crate::types::{RedisInfo, RedisRole, role_name};

verus! {

/// A frame to send to another node.
#[derive(Debug, Clone)]
pub struct Forward {
    pub address: String,
    pub frame: String,
}

/// The outcome of one request: the reply for the client, and the frames to
/// send to other nodes, in order.
#[derive(Debug)]
pub struct Reply {
    pub response: RedisCommandResponse,
    pub forwards: Vec<Forward>,
}

pub open spec fn forward_views(v: Seq<Forward>) -> Seq<(Seq<char>, Seq<char>)> {
    v.map_values(|f: Forward| (f.address@, f.frame@))
}

/// The text of `INFO replication`.
pub open spec fn info_text(i: RedisInfo) -> Seq<char> {
    "role:"@ + role_name(i.role) + "\r\nmaster_host:"@ + i.master_host@ + "\r\nmaster_port:"@
        + i.master_port@ + "\r\nmaster_replid:"@ + i.master_replid@ + "\r\nmaster_repl_offset:"@
        + dec(i.master_repl_offset as nat)
}

/// The reply to `INFO` with an optional section: only `replication` is known.
pub open spec fn info_reply(i: RedisInfo, section: Option<Seq<char>>) -> Seq<char> {
    if section == Some("replication"@) {
        text_reply(info_text(i))
    } else {
        error_reply("Unsupported INFO section"@)
    }
}

/// The reply that master and replica both give, for the commands they answer
/// alike; `None` for the others.
pub open spec fn common_reply(c: CommandModel, m: StoreModel, i: RedisInfo, now: u64) -> Option<
    Seq<char>,
> {
    match c {
        CommandModel::Ping => Some(text_reply("PONG"@)),
        CommandModel::Pong => Some(text_reply("PING"@)),
        CommandModel::Echo(s) => Some(text_reply(s)),
        CommandModel::Get(k) => Some(
            match get_result(m, k, now) {
                Some(v) => text_reply(v),
                None => null_reply(),
            },
        ),
        CommandModel::SetKey(_, _, _) => Some(text_reply("OK"@)),
        CommandModel::Info(s) => Some(info_reply(i, s)),
        _ => None,
    }
}

/// The store after a command at time `now`.
pub open spec fn store_after(c: CommandModel, m: StoreModel, now: u64) -> StoreModel {
    match c {
        CommandModel::Get(k) => after_get(m, k, now),
        CommandModel::SetKey(k, v, e) => m.insert(k, (v, e)),
        _ => m,
    }
}

/// The address `host:port`.
pub open spec fn address_of(host: Seq<char>, port: Seq<char>) -> Seq<char> {
    host + seq![':'] + port
}

/// The address `host:port`.
pub fn join_address(host: &str, port: &str) -> (r: String)
    ensures
        r@ == address_of(host@, port@),
{
    let mut v: Vec<char> = Vec::new();
    push_str(&mut v, host);
    v.push(':');
    push_str(&mut v, port);
    assert(v@ =~= address_of(host@, port@));
    string_of(&v)
}

/// Command handling, with one implementation for each role.
pub trait RedisServer {
    /// The state is well formed.
    spec fn inv(&self) -> bool;

    /// Executes one command at time `now`.
    fn handle_command(&mut self, command: RedisCommand, now: u64) -> (r: Reply)
        requires
            old(self).inv(),
        ensures
            final(self).inv(),
    ;
}

/// The state that master and replica share.
pub struct BaseServer {
    pub info: RedisInfo,
    pub address: String,
    pub store: RedisStore,
}

impl BaseServer {
    /// A node with an empty store.
    pub fn new(role: RedisRole, host: &str, port: &str, master_host: &str, master_port: &str) -> (r:
        Self)
        ensures
            r.store.wf(),
            r.store@ == StoreModel::empty(),
            r.address@ == address_of(host@, port@),
            r.info.role == role,
            r.info.master_host@ == master_host@,
            r.info.master_port@ == master_port@,
            r.info.master_repl_offset == 0,
    {
        BaseServer {
            info: RedisInfo::new(role, master_host, master_port),
            address: join_address(host, port),
            store: RedisStore::new(),
        }
    }

    /// Whether this node is a replica.
    pub fn is_slave(&self) -> (r: bool)
        ensures
            r == (self.info.role == RedisRole::Slave),
    {
        self.info.role == RedisRole::Slave
    }

    /// The reply to `INFO`.
    pub fn info(&self, section: &Option<String>) -> (r: RedisCommandResponse)
        ensures
            r.message@ == info_reply(
                self.info,
                match section {
                    Some(s) => Some(s@),
                    None => None,
                },
            ),
    {
        match section {
            Some(s) => {
                if same_text(s.as_str(), "replication") {
                    let mut v: Vec<char> = Vec::new();
                    push_str(&mut v, "role:");
                    push_str(&mut v, self.info.role.as_str());
                    push_str(&mut v, "\r\nmaster_host:");
                    push_str(&mut v, self.info.master_host.as_str());
                    push_str(&mut v, "\r\nmaster_port:");
                    push_str(&mut v, self.info.master_port.as_str());
                    push_str(&mut v, "\r\nmaster_replid:");
                    push_str(&mut v, self.info.master_replid.as_str());
                    push_str(&mut v, "\r\nmaster_repl_offset:");
                    push_dec(&mut v, self.info.master_repl_offset);
                    assert(v@ =~= info_text(self.info));
                    return RedisCommandResponse::new(string_of(&v));
                }
            },
            None => {},
        }
        RedisCommandResponse::error("Unsupported INFO section".to_owned())
    }

    /// Answers the commands that master and replica answer alike; `None`,
    /// with nothing changed, for the others.
    pub fn handle_common(&mut self, command: &RedisCommand, now: u64) -> (r: Option<
        RedisCommandResponse,
    >)
        requires
            old(self).store.wf(),
        ensures
            final(self).store.wf(),
            final(self).info == old(self).info,
            final(self).address == old(self).address,
            final(self).store@ == store_after(command@, old(self).store@, now),
            match r {
                Some(resp) => common_reply(command@, old(self).store@, old(self).info, now) == Some(
                    resp.message@,
                ),
                None => common_reply(command@, old(self).store@, old(self).info, now) is None,
            },
    {
        match command {
            RedisCommand::Ping => Some(RedisCommandResponse::new("PONG".to_owned())),
            RedisCommand::Pong => Some(RedisCommandResponse::new("PING".to_owned())),
            RedisCommand::Echo(s) => Some(RedisCommandResponse::new(s.clone())),
            RedisCommand::Get(key) => match self.store.get_at(key.as_str(), now) {
                Some(value) => Some(RedisCommandResponse::new(value)),
                None => Some(RedisCommandResponse::null()),
            },
            RedisCommand::SetKey(key, value, expiry) => {
                self.store.set(key.as_str(), value.as_str(), *expiry);
                Some(RedisCommandResponse::new("OK".to_owned()))
            },
            RedisCommand::Info(section) => Some(self.info(section)),
            _ => None,
        }
    }
}

/// A key that the store does not hold reads as the null reply.
pub proof fn lemma_get_missing_is_null(m: StoreModel, k: Seq<char>, i: RedisInfo, now: u64)
    requires
        !m.contains_key(k),
    ensures
        common_reply(CommandModel::Get(k), m, i, now) == Some(null_reply()),
        null_reply() == seq!['$', '-', '1', '\r', '\n'],
{
}

} // verus!
