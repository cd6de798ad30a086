//! The master role: answers clients and fans accepted writes out to its
//! replicas.
use vstd::prelude::*;
use crate::base::{
    BaseServer, Forward, RedisServer, Reply, address_of, common_reply, forward_views, store_after,
};
use crate::command::{
    AdminCommand, CommandModel, RedisCommand, RedisCommandResponse, error_reply, status_reply,
    text_reply, views_of,
};
use crate::parser::{RedisCommandParser, parse_error_text, parse_spec};
use crate::store::StoreModel;
use crate::types::{RedisInfo, RedisRole};

verus! {

/// The reply of a master to a command.
pub open spec fn master_reply(c: CommandModel, m: StoreModel, i: RedisInfo, now: u64) -> Seq<char> {
    match common_reply(c, m, i, now) {
        Some(r) => r,
        None => match c {
            CommandModel::Replconf(_) => status_reply("OK"@),
            _ => text_reply("OK"@),
        },
    }
}

/// The registry after a command: `ADDSLAVE` appends its address.
pub open spec fn slaves_after(c: CommandModel, slaves: Seq<Seq<char>>) -> Seq<Seq<char>> {
    match c {
        CommandModel::AddSlave(a) => slaves.push(a),
        _ => slaves,
    }
}

/// One frame for each registered replica, in the order of registration.
pub open spec fn fan_out(slaves: Seq<Seq<char>>, frame: Seq<char>) -> Seq<(Seq<char>, Seq<char>)> {
    slaves.map_values(|a: Seq<char>| (a, frame))
}

/// The frames that a command sends to the replicas: `REPLICATE` forwards its
/// payload to each of them.
pub open spec fn master_forwards(c: CommandModel, slaves: Seq<Seq<char>>) -> Seq<
    (Seq<char>, Seq<char>),
> {
    match c {
        CommandModel::Replicate(d) => fan_out(slaves, d),
        _ => Seq::empty(),
    }
}

/// A master node.
pub struct Master {
    pub base: BaseServer,
    /// The replica addresses, in the order they were registered.
    pub slaves: Vec<String>,
}

impl Master {
    /// The well-formedness of the master's state.
    pub open spec fn wf(&self) -> bool {
        self.base.store.wf()
    }

    /// A master listening on `host:port`, with an empty store and no replicas.
    pub fn new(host: &str, port: &str) -> (r: Self)
        ensures
            r.wf(),
            r.base.store@ == StoreModel::empty(),
            r.base.address@ == address_of(host@, port@),
            r.base.info.role == RedisRole::Master,
            r.base.info.master_host@.len() == 0,
            r.base.info.master_port@.len() == 0,
            r.slaves@.len() == 0,
    {
        let empty = "";
        proof {
            reveal_strlit("");
        }
        Master { base: BaseServer::new(RedisRole::Master, host, port, empty, empty), slaves: Vec::new() }
    }

    /// Registers a replica address; no check for duplicates.
    pub fn add_slave(&mut self, slave_address: String)
        ensures
            final(self).slaves@ == old(self).slaves@.push(slave_address),
            final(self).base == old(self).base,
    {
        self.slaves.push(slave_address);
    }

    /// The frames that carry `command` to every registered replica, in the
    /// order of registration.
    pub fn replicate_to_slaves(&self, command: &str) -> (r: Vec<Forward>)
        ensures
            forward_views(r@) == fan_out(views_of(self.slaves@), command@),
    {
        let mut out: Vec<Forward> = Vec::new();
        let mut i: usize = 0;
        while i < self.slaves.len()
            invariant
                i <= self.slaves@.len(),
                forward_views(out@) == fan_out(views_of(self.slaves@).take(i as int), command@),
            decreases self.slaves@.len() - i,
        {
            let ghost before = out@;
            out.push(Forward { address: self.slaves[i].clone(), frame: command.to_owned() });
            proof {
                assert(views_of(self.slaves@).take(i + 1) =~= views_of(self.slaves@).take(
                    i as int,
                ).push(self.slaves@[i as int]@));
                assert(forward_views(out@) =~= forward_views(before).push(
                    (self.slaves@[i as int]@, command@),
                ));
                assert(fan_out(views_of(self.slaves@).take(i + 1), command@) =~= fan_out(
                    views_of(self.slaves@).take(i as int),
                    command@,
                ).push((self.slaves@[i as int]@, command@)));
            }
            i = i + 1;
        }
        assert(views_of(self.slaves@).take(i as int) =~= views_of(self.slaves@));
        out
    }

    /// Executes one command at time `now`.
    pub fn execute(&mut self, command: RedisCommand, now: u64) -> (r: Reply)
        requires
            old(self).wf(),
        ensures
            final(self).wf(),
            r.response.message@ == master_reply(
                command@,
                old(self).base.store@,
                old(self).base.info,
                now,
            ),
            final(self).base.store@ == store_after(command@, old(self).base.store@, now),
            final(self).base.info == old(self).base.info,
            views_of(final(self).slaves@) == slaves_after(command@, views_of(old(self).slaves@)),
            forward_views(r.forwards@) == master_forwards(command@, views_of(old(self).slaves@)),
    {
        match self.base.handle_common(&command, now) {
            Some(response) => {
                assert(forward_views(Seq::<Forward>::empty()) =~= Seq::empty());
                return Reply { response, forwards: Vec::new() };
            },
            None => {},
        }
        let ok = RedisCommandResponse::new("OK".to_owned());
        match command {
            RedisCommand::Admin(AdminCommand::Replicate(data)) => {
                let forwards = self.replicate_to_slaves(data.as_str());
                Reply { response: ok, forwards }
            },
            RedisCommand::Admin(AdminCommand::AddSlave(address)) => {
                let ghost before = self.slaves@;
                self.add_slave(address);
                assert(views_of(self.slaves@) =~= views_of(before).push(address@));
                assert(forward_views(Seq::<Forward>::empty()) =~= Seq::empty());
                Reply { response: ok, forwards: Vec::new() }
            },
            _ => {
                assert(forward_views(Seq::<Forward>::empty()) =~= Seq::empty());
                Reply { response: RedisCommandResponse::status("OK".to_owned()), forwards: Vec::new() }
            },
        }
    }

    /// Serves one request frame from a client at time `now`. A frame that does
    /// not decode gets an error reply and changes nothing. A write is applied
    /// first, then its frame, as received, goes to every replica.
    pub fn handle_request(&mut self, buffer: &str, now: u64) -> (r: Reply)
        requires
            old(self).wf(),
        ensures
            final(self).wf(),
            match parse_spec(buffer@, now) {
                Err(e) => {
                    &&& r.response.message@ == error_reply(parse_error_text(e))
                    &&& r.forwards@.len() == 0
                    &&& final(self).base.store@ == old(self).base.store@
                    &&& final(self).slaves@ == old(self).slaves@
                },
                Ok(c) => {
                    &&& r.response.message@ == master_reply(
                        c,
                        old(self).base.store@,
                        old(self).base.info,
                        now,
                    )
                    &&& final(self).base.store@ == store_after(c, old(self).base.store@, now)
                    &&& views_of(final(self).slaves@) == slaves_after(c, views_of(old(self).slaves@))
                    &&& forward_views(r.forwards@) == if c is SetKey {
                        fan_out(views_of(old(self).slaves@), buffer@)
                    } else {
                        master_forwards(c, views_of(old(self).slaves@))
                    }
                },
            },
    {
        match RedisCommandParser::parse_at(buffer, now) {
            Err(e) => Reply {
                response: RedisCommandResponse::error(e.message().to_owned()),
                forwards: Vec::new(),
            },
            Ok(command) => {
                let write = command.is_write_operation();
                let mut reply = self.execute(command, now);
                if write {
                    reply.forwards = self.replicate_to_slaves(buffer);
                }
                reply
            },
        }
    }
}

impl RedisServer for Master {
    open spec fn inv(&self) -> bool {
        self.wf()
    }

    fn handle_command(&mut self, command: RedisCommand, now: u64) -> (r: Reply)
        ensures
            r.response.message@ == master_reply(
                command@,
                old(self).base.store@,
                old(self).base.info,
                now,
            ),
            final(self).base.store@ == store_after(command@, old(self).base.store@, now),
            final(self).base.info == old(self).base.info,
            views_of(final(self).slaves@) == slaves_after(command@, views_of(old(self).slaves@)),
            forward_views(r.forwards@) == master_forwards(command@, views_of(old(self).slaves@)),
    {
        self.execute(command, now)
    }
}

} // verus!
