//! The replica role: answers clients, refuses what only a master may do, and
//! applies the writes that its master forwards.
//!
//! The master forwards each accepted write as the frame the client sent,
//! unchanged: a frame holds CRLFs, so it cannot travel as the payload token
//! of a `REPLICATE` command, whose tokens are single lines. The replica tells
//! the master's feed from its clients by the connection's origin: frames from
//! a peer whose address equals the configured master host, as text, go to
//! `apply_replicated`, which applies writes only; all others go to
//! `handle_request`. A client running on the master's host is therefore
//! taken for the master, and a master given by host name (`localhost`)
//! rather than by address is never recognised.
use vstd::prelude::*;
use crate::base::{BaseServer, RedisServer, Reply, address_of, common_reply, store_after};
use crate::command::{CommandModel, RedisCommand, RedisCommandResponse, error_reply, text_reply};
use crate::parser::{RedisCommandParser, parse_error_text, parse_spec};
use crate::store::StoreModel;
use crate::types::{RedisInfo, RedisRole};

verus! {

/// The reply of a replica to a command from a client: administrative and
/// `REPLCONF` commands are refused.
pub open spec fn slave_reply(c: CommandModel, m: StoreModel, i: RedisInfo, now: u64) -> Seq<char> {
    match common_reply(c, m, i, now) {
        Some(r) => r,
        None => match c {
            CommandModel::Replicate(_) => error_reply(
                "Replication command not supported on slave"@,
            ),
            CommandModel::AddSlave(_) => error_reply("AddSlave command not supported on slave"@),
            _ => error_reply("REPLCONF command not supported on slave"@),
        },
    }
}

/// What a replica does with a frame from its master: a write is applied and
/// acknowledged; anything else is refused and changes nothing.
pub open spec fn replicated_outcome(input: Seq<char>, m: StoreModel, now: u64) -> (
    Seq<char>,
    StoreModel,
) {
    match parse_spec(input, now) {
        Err(e) => (error_reply(parse_error_text(e)), m),
        Ok(CommandModel::SetKey(k, v, t)) => (text_reply("OK"@), m.insert(k, (v, t))),
        Ok(_) => (error_reply("Only writes are replicated"@), m),
    }
}

/// A replica node.
pub struct Slave {
    pub base: BaseServer,
}

impl Slave {
    /// The well-formedness of the replica's state.
    pub open spec fn wf(&self) -> bool {
        self.base.store.wf()
    }

    /// A replica listening on `host:port` whose master is at
    /// `master_host:master_port`, with an empty store.
    pub fn new(host: &str, port: &str, master_host: &str, master_port: &str) -> (r: Self)
        ensures
            r.wf(),
            r.base.store@ == StoreModel::empty(),
            r.base.address@ == address_of(host@, port@),
            r.base.info.role == RedisRole::Slave,
            r.base.info.master_host@ == master_host@,
            r.base.info.master_port@ == master_port@,
    {
        Slave { base: BaseServer::new(RedisRole::Slave, host, port, master_host, master_port) }
    }

    /// Executes one command from a client at time `now`.
    pub fn execute(&mut self, command: RedisCommand, now: u64) -> (r: RedisCommandResponse)
        requires
            old(self).wf(),
        ensures
            final(self).wf(),
            r.message@ == slave_reply(command@, old(self).base.store@, old(self).base.info, now),
            final(self).base.store@ == store_after(command@, old(self).base.store@, now),
            final(self).base.info == old(self).base.info,
    {
        match self.base.handle_common(&command, now) {
            Some(response) => response,
            None => match command {
                RedisCommand::Admin(crate::command::AdminCommand::Replicate(_)) => {
                    RedisCommandResponse::error(
                        "Replication command not supported on slave".to_owned(),
                    )
                },
                RedisCommand::Admin(crate::command::AdminCommand::AddSlave(_)) => {
                    RedisCommandResponse::error("AddSlave command not supported on slave".to_owned())
                },
                _ => RedisCommandResponse::error("REPLCONF command not supported on slave".to_owned()),
            },
        }
    }

    /// Serves one request frame from a client at time `now`; a frame that
    /// does not decode gets an error reply and changes nothing.
    pub fn handle_request(&mut self, buffer: &str, now: u64) -> (r: RedisCommandResponse)
        requires
            old(self).wf(),
        ensures
            final(self).wf(),
            match parse_spec(buffer@, now) {
                Err(e) => r.message@ == error_reply(parse_error_text(e)) && final(self).base.store@
                    == old(self).base.store@,
                Ok(c) => r.message@ == slave_reply(
                    c,
                    old(self).base.store@,
                    old(self).base.info,
                    now,
                ) && final(self).base.store@ == store_after(c, old(self).base.store@, now),
            },
    {
        match RedisCommandParser::parse_at(buffer, now) {
            Err(e) => RedisCommandResponse::error(e.message().to_owned()),
            Ok(command) => self.execute(command, now),
        }
    }

    /// Whether a connection from `peer_host` comes from this replica's master;
    /// its frames are then the master's feed.
    pub fn is_master_peer(&self, peer_host: &str) -> (r: bool)
        ensures
            r == (peer_host@ == self.base.info.master_host@),
    {
        crate::text::same_text(peer_host, self.base.info.master_host.as_str())
    }

    /// Applies a frame that the master forwarded, without forwarding it
    /// further.
    pub fn apply_replicated(&mut self, buffer: &str, now: u64) -> (r: RedisCommandResponse)
        requires
            old(self).wf(),
        ensures
            final(self).wf(),
            (r.message@, final(self).base.store@) == replicated_outcome(
                buffer@,
                old(self).base.store@,
                now,
            ),
            final(self).base.info == old(self).base.info,
    {
        match RedisCommandParser::parse_at(buffer, now) {
            Err(e) => RedisCommandResponse::error(e.message().to_owned()),
            Ok(RedisCommand::SetKey(key, value, expiry)) => {
                self.base.store.set(key.as_str(), value.as_str(), expiry);
                RedisCommandResponse::new("OK".to_owned())
            },
            Ok(_) => RedisCommandResponse::error("Only writes are replicated".to_owned()),
        }
    }
}

impl RedisServer for Slave {
    open spec fn inv(&self) -> bool {
        self.wf()
    }

    fn handle_command(&mut self, command: RedisCommand, now: u64) -> (r: Reply)
        ensures
            r.response.message@ == slave_reply(
                command@,
                old(self).base.store@,
                old(self).base.info,
                now,
            ),
            final(self).base.store@ == store_after(command@, old(self).base.store@, now),
            final(self).base.info == old(self).base.info,
            r.forwards@.len() == 0,
    {
        let response = self.execute(command, now);
        Reply { response, forwards: Vec::new() }
    }
}

} // verus!
