//! The command model and its wire encoding.
use vstd::prelude::*;
use crate::text::{dec, dec_chars, push_dec, push_str, string_of, wire_len};

verus! {

/// Administrative commands exchanged between nodes.
#[derive(Debug, Clone, PartialEq, Eq)]
pub enum AdminCommand {
    Replicate(String),
    AddSlave(String),
}

/// The commands that the server understands.
#[derive(Debug, Clone, PartialEq, Eq)]
pub enum RedisCommand {
    Ping,
    Pong,
    Echo(String),
    Get(String),
    /// Key, value and an optional absolute expiry in milliseconds since the epoch.
    SetKey(String, String, Option<u64>),
    Info(Option<String>),
    Admin(AdminCommand),
    Replconf(Vec<String>),
}

/// The mathematical value of a command: its strings as character sequences.
pub enum CommandModel {
    Ping,
    Pong,
    Echo(Seq<char>),
    Get(Seq<char>),
    SetKey(Seq<char>, Seq<char>, Option<u64>),
    Info(Option<Seq<char>>),
    Replicate(Seq<char>),
    AddSlave(Seq<char>),
    Replconf(Seq<Seq<char>>),
}

pub open spec fn views_of(v: Seq<String>) -> Seq<Seq<char>> {
    v.map_values(|s: String| s@)
}

impl View for RedisCommand {
    type V = CommandModel;

    open spec fn view(&self) -> CommandModel {
        match self {
            RedisCommand::Ping => CommandModel::Ping,
            RedisCommand::Pong => CommandModel::Pong,
            RedisCommand::Echo(s) => CommandModel::Echo(s@),
            RedisCommand::Get(k) => CommandModel::Get(k@),
            RedisCommand::SetKey(k, v, e) => CommandModel::SetKey(k@, v@, *e),
            RedisCommand::Info(None) => CommandModel::Info(None),
            RedisCommand::Info(Some(s)) => CommandModel::Info(Some(s@)),
            RedisCommand::Admin(AdminCommand::Replicate(d)) => CommandModel::Replicate(d@),
            RedisCommand::Admin(AdminCommand::AddSlave(a)) => CommandModel::AddSlave(a@),
            RedisCommand::Replconf(args) => CommandModel::Replconf(views_of(args@)),
        }
    }
}

pub open spec fn crlf() -> Seq<char> {
    seq!['\r', '\n']
}

pub open spec fn verb_ping() -> Seq<char> {
    seq!['P', 'I', 'N', 'G']
}

pub open spec fn verb_pong() -> Seq<char> {
    seq!['P', 'O', 'N', 'G']
}

pub open spec fn verb_echo() -> Seq<char> {
    seq!['E', 'C', 'H', 'O']
}

pub open spec fn verb_get() -> Seq<char> {
    seq!['G', 'E', 'T']
}

pub open spec fn verb_set() -> Seq<char> {
    seq!['S', 'E', 'T']
}

pub open spec fn verb_px() -> Seq<char> {
    seq!['P', 'X']
}

pub open spec fn verb_info() -> Seq<char> {
    seq!['I', 'N', 'F', 'O']
}

pub open spec fn verb_replconf() -> Seq<char> {
    seq!['R', 'E', 'P', 'L', 'C', 'O', 'N', 'F']
}

pub open spec fn verb_replicate() -> Seq<char> {
    seq!['R', 'E', 'P', 'L', 'I', 'C', 'A', 'T', 'E']
}

pub open spec fn verb_addslave() -> Seq<char> {
    seq!['A', 'D', 'D', 'S', 'L', 'A', 'V', 'E']
}

/// The sub-verb that selects a replication payload.
pub open spec fn sub_replicate() -> Seq<char> {
    seq!['r', 'e', 'p', 'l', 'i', 'c', 'a', 't', 'e']
}

/// The sub-verb that registers a replica address.
pub open spec fn sub_addslave() -> Seq<char> {
    seq!['a', 'd', 'd', 's', 'l', 'a', 'v', 'e']
}

/// The tokens that stand for a command on the wire, verb first.
pub open spec fn tokens(c: CommandModel) -> Seq<Seq<char>> {
    match c {
        CommandModel::Ping => seq![verb_ping()],
        CommandModel::Pong => seq![verb_pong()],
        CommandModel::Echo(s) => seq![verb_echo(), s],
        CommandModel::Get(k) => seq![verb_get(), k],
        CommandModel::SetKey(k, v, None) => seq![verb_set(), k, v],
        CommandModel::SetKey(k, v, Some(t)) => seq![verb_set(), k, v, verb_px(), dec(t as nat)],
        CommandModel::Info(None) => seq![verb_info()],
        CommandModel::Info(Some(s)) => seq![verb_info(), s],
        CommandModel::Replicate(d) => seq![verb_replicate(), sub_replicate(), d],
        CommandModel::AddSlave(a) => seq![verb_addslave(), sub_addslave(), a],
        CommandModel::Replconf(args) => seq![verb_replconf()] + args,
    }
}

/// One bulk string: `$<byte length>\r\n<token>\r\n`.
pub open spec fn bulk(t: Seq<char>) -> Seq<char> {
    seq!['$'] + dec(wire_len(t)) + crlf() + t + crlf()
}

pub open spec fn bulks(ts: Seq<Seq<char>>) -> Seq<char>
    decreases ts.len(),
{
    if ts.len() == 0 {
        Seq::empty()
    } else {
        bulks(ts.drop_last()) + bulk(ts.last())
    }
}

/// An array frame: `*<count>\r\n` followed by one bulk string per token.
pub open spec fn array_frame(ts: Seq<Seq<char>>) -> Seq<char> {
    seq!['*'] + dec(ts.len()) + crlf() + bulks(ts)
}

/// The wire form of a command.
pub open spec fn encode(c: CommandModel) -> Seq<char> {
    array_frame(tokens(c))
}

/// Tokens joined by single spaces.
pub open spec fn join_spaces(ts: Seq<Seq<char>>) -> Seq<char>
    decreases ts.len(),
{
    if ts.len() == 0 {
        Seq::empty()
    } else if ts.len() == 1 {
        ts[0]
    } else {
        join_spaces(ts.drop_last()) + seq![' '] + ts.last()
    }
}

/// The command as text, for people: verb and arguments separated by spaces.
/// `REPLCONF` keeps its space even without arguments.
pub open spec fn text_form(c: CommandModel) -> Seq<char> {
    match c {
        CommandModel::Replicate(d) => verb_replicate() + seq![' '] + d,
        CommandModel::AddSlave(a) => verb_addslave() + seq![' '] + a,
        CommandModel::Replconf(args) => verb_replconf() + seq![' '] + join_spaces(args),
        _ => join_spaces(tokens(c)),
    }
}

/// The reply for an absent value.
pub open spec fn null_reply() -> Seq<char> {
    seq!['$', '-', '1', '\r', '\n']
}

/// The reply that carries a text: a bulk string, also for an empty text.
pub open spec fn text_reply(m: Seq<char>) -> Seq<char> {
    bulk(m)
}

/// The reply that reports an error: `-<message>\r\n`.
pub open spec fn error_reply(m: Seq<char>) -> Seq<char> {
    seq!['-'] + m + crlf()
}

/// The reply that acknowledges a step: `+<message>\r\n`.
pub open spec fn status_reply(m: Seq<char>) -> Seq<char> {
    seq!['+'] + m + crlf()
}

fn push_crlf(out: &mut Vec<char>)
    ensures
        final(out)@ == old(out)@ + crlf(),
{
    out.push('\r');
    out.push('\n');
    assert(final(out)@ =~= old(out)@ + crlf());
}

/// Appends `$<byte length>\r\n<token>\r\n` to `out`.
fn push_bulk(out: &mut Vec<char>, t: &str)
    ensures
        final(out)@ == old(out)@ + bulk(t@),
{
    let ghost o = out@;
    out.push('$');
    push_dec(out, t.len() as u64);
    push_crlf(out);
    push_str(out, t);
    push_crlf(out);
    assert(out@ =~= o + bulk(t@));
}

/// Appends the strings of `ts`, separated by single spaces, to `out`.
fn push_joined(out: &mut Vec<char>, ts: &Vec<String>)
    ensures
        final(out)@ == old(out)@ + join_spaces(views_of(ts@)),
{
    let ghost head = out@;
    let mut i: usize = 0;
    assert(join_spaces(views_of(ts@).take(0)) =~= Seq::<char>::empty());
    assert(out@ =~= head + join_spaces(views_of(ts@).take(0)));
    while i < ts.len()
        invariant
            i <= ts@.len(),
            out@ == head + join_spaces(views_of(ts@).take(i as int)),
        decreases ts@.len() - i,
    {
        let ghost before = out@;
        if i > 0 {
            out.push(' ');
        }
        push_str(out, ts[i].as_str());
        proof {
            let t = views_of(ts@).take(i + 1);
            assert(t.drop_last() =~= views_of(ts@).take(i as int));
            assert(t.last() == ts@[i as int]@);
            if i == 0 {
                assert(out@ =~= head + join_spaces(t));
            } else {
                assert(out@ =~= head + join_spaces(t));
            }
        }
        i = i + 1;
    }
    assert(views_of(ts@).take(i as int) =~= views_of(ts@));
}

impl RedisCommand {
    /// Whether the command changes the store; only `SET` does.
    pub fn is_write_operation(&self) -> (r: bool)
        ensures
            r == (self@ is SetKey),
    {
        match self {
            RedisCommand::SetKey(_, _, _) => true,
            _ => false,
        }
    }

    /// The tokens of the command, verb first.
    fn token_strings(&self) -> (r: Vec<String>)
        ensures
            views_of(r@) == tokens(self@),
    {
        let mut r: Vec<String> = Vec::new();
        match self {
            RedisCommand::Ping => {
                r.push(string_of(&vec!['P', 'I', 'N', 'G']));
            },
            RedisCommand::Pong => {
                r.push(string_of(&vec!['P', 'O', 'N', 'G']));
            },
            RedisCommand::Echo(s) => {
                r.push(string_of(&vec!['E', 'C', 'H', 'O']));
                r.push(s.clone());
            },
            RedisCommand::Get(k) => {
                r.push(string_of(&vec!['G', 'E', 'T']));
                r.push(k.clone());
            },
            RedisCommand::SetKey(k, v, e) => {
                r.push(string_of(&vec!['S', 'E', 'T']));
                r.push(k.clone());
                r.push(v.clone());
                if let Some(t) = e {
                    r.push(string_of(&vec!['P', 'X']));
                    r.push(string_of(&dec_chars(*t)));
                }
            },
            RedisCommand::Info(section) => {
                r.push(string_of(&vec!['I', 'N', 'F', 'O']));
                if let Some(s) = section {
                    r.push(s.clone());
                }
            },
            RedisCommand::Admin(AdminCommand::Replicate(d)) => {
                r.push(string_of(&vec!['R', 'E', 'P', 'L', 'I', 'C', 'A', 'T', 'E']));
                r.push(string_of(&vec!['r', 'e', 'p', 'l', 'i', 'c', 'a', 't', 'e']));
                r.push(d.clone());
            },
            RedisCommand::Admin(AdminCommand::AddSlave(a)) => {
                r.push(string_of(&vec!['A', 'D', 'D', 'S', 'L', 'A', 'V', 'E']));
                r.push(string_of(&vec!['a', 'd', 'd', 's', 'l', 'a', 'v', 'e']));
                r.push(a.clone());
            },
            RedisCommand::Replconf(args) => {
                r.push(string_of(&vec!['R', 'E', 'P', 'L', 'C', 'O', 'N', 'F']));
                let mut i: usize = 0;
                while i < args.len()
                    invariant
                        i <= args@.len(),
                        r@.len() == i + 1,
                        views_of(r@) == seq![verb_replconf()] + views_of(args@).take(i as int),
                    decreases args@.len() - i,
                {
                    let ghost old_r = r@;
                    r.push(args[i].clone());
                    proof {
                        assert(views_of(r@) =~= views_of(old_r).push(args@[i as int]@));
                        assert(views_of(args@).take(i + 1) =~= views_of(args@).take(i as int).push(
                            args@[i as int]@,
                        ));
                    }
                    i = i + 1;
                    assert(views_of(r@) =~= seq![verb_replconf()] + views_of(args@).take(i as int));
                }
                assert(views_of(args@).take(i as int) =~= views_of(args@));
            },
        }
        assert(views_of(r@) =~= tokens(self@));
        r
    }

    /// The command as text, for people.
    pub fn to_text(&self) -> (r: String)
        ensures
            r@ == text_form(self@),
    {
        let mut out: Vec<char> = Vec::new();
        match self {
            RedisCommand::Admin(AdminCommand::Replicate(d)) => {
                out.append(&mut vec!['R', 'E', 'P', 'L', 'I', 'C', 'A', 'T', 'E', ' ']);
                push_str(&mut out, d.as_str());
                assert(out@ =~= text_form(self@));
            },
            RedisCommand::Admin(AdminCommand::AddSlave(a)) => {
                out.append(&mut vec!['A', 'D', 'D', 'S', 'L', 'A', 'V', 'E', ' ']);
                push_str(&mut out, a.as_str());
                assert(out@ =~= text_form(self@));
            },
            RedisCommand::Replconf(args) => {
                out.append(&mut vec!['R', 'E', 'P', 'L', 'C', 'O', 'N', 'F', ' ']);
                push_joined(&mut out, args);
                assert(out@ =~= text_form(self@));
            },
            _ => {
                let toks = self.token_strings();
                push_joined(&mut out, &toks);
                assert(out@ =~= text_form(self@));
            },
        }
        string_of(&out)
    }

    /// The command as an array frame, verb first.
    pub fn to_resp2(&self) -> (r: String)
        ensures
            r@ == encode(self@),
    {
        let toks = self.token_strings();
        let mut out: Vec<char> = Vec::new();
        out.push('*');
        push_dec(&mut out, toks.len() as u64);
        push_crlf(&mut out);
        let ghost head = out@;
        let mut i: usize = 0;
        while i < toks.len()
            invariant
                i <= toks@.len(),
                out@ == head + bulks(views_of(toks@).take(i as int)),
            decreases toks@.len() - i,
        {
            push_bulk(&mut out, toks[i].as_str());
            proof {
                let ts = views_of(toks@).take(i + 1);
                assert(ts.drop_last() =~= views_of(toks@).take(i as int));
            }
            i = i + 1;
        }
        assert(views_of(toks@).take(i as int) =~= views_of(toks@));
        assert(out@ =~= encode(self@));
        string_of(&out)
    }
}

/// A reply ready to be written to the client.
#[derive(Debug, Clone)]
pub struct RedisCommandResponse {
    pub message: String,
}

impl RedisCommandResponse {
    /// A bulk string carrying `message`.
    pub fn new(message: String) -> (r: Self)
        ensures
            r.message@ == text_reply(message@),
    {
        let mut out: Vec<char> = Vec::new();
        push_bulk(&mut out, message.as_str());
        assert(out@ =~= bulk(message@));
        RedisCommandResponse { message: string_of(&out) }
    }

    /// The reply for an absent value.
    pub fn null() -> (r: Self)
        ensures
            r.message@ == null_reply(),
    {
        RedisCommandResponse { message: string_of(&vec!['$', '-', '1', '\r', '\n']) }
    }

    /// An error reply carrying `message`.
    pub fn error(message: String) -> (r: Self)
        ensures
            r.message@ == error_reply(message@),
    {
        let mut out: Vec<char> = vec!['-'];
        push_str(&mut out, message.as_str());
        push_crlf(&mut out);
        assert(out@ =~= error_reply(message@));
        RedisCommandResponse { message: string_of(&out) }
    }

    /// A status reply carrying `message`.
    pub fn status(message: String) -> (r: Self)
        ensures
            r.message@ == status_reply(message@),
    {
        let mut out: Vec<char> = vec!['+'];
        push_str(&mut out, message.as_str());
        push_crlf(&mut out);
        assert(out@ =~= status_reply(message@));
        RedisCommandResponse { message: string_of(&out) }
    }
}

} // verus!
