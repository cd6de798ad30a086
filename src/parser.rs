//! Decoding of one request frame into a command.
//!
//! NUL characters are dropped, the text is split at CRLF and empty lines are
//! skipped. A frame is either an array (`*N`, then a `$len` header before each
//! token) or a single bulk string (`$len`, then a bare verb, with no
//! arguments). The value of a `$len` header before a token is not checked.
use vstd::prelude::*;
use crate::command::{
    AdminCommand, CommandModel, RedisCommand, sub_addslave, sub_replicate, views_of,
};
use crate::text::{chars_of, eq_keyword, same_chars, matches_keyword, parse_u64, parse_u64_spec, string_of};
use crate::utils::now_millis;

verus! {

/// Why a frame could not be decoded.
#[derive(Debug, Clone, Copy, PartialEq, Eq, Structural)]
pub enum ParseError {
    /// The frame holds no non-empty line.
    EmptyBuffer,
    /// The frame starts with neither `*` nor `$`, or ends where a header was due.
    InvalidFormat,
    /// A line does not start with the character that its position calls for.
    ExpectedPrefix(char),
    /// The count after `*` is not a number.
    InvalidArrayLength,
    /// The count after `*` is zero.
    EmptyArray,
    /// The length after `$` in a single bulk string is not a number.
    InvalidBulkLength,
    /// The frame ends before the verb.
    CommandNotFound,
    /// The verb is none of the known ones.
    UnknownCommand,
    /// A `$` header is not followed by its token.
    MissingArgument,
    /// The frame declares fewer tokens than the verb needs.
    NotEnoughArguments,
    /// `SET` with other than 2 or 4 arguments.
    WrongArity,
    /// The option after the value of `SET` is not `PX`.
    UnknownOption,
    /// The `PX` value is not a number, or the expiry does not fit in 64 bits.
    InvalidExpiry,
    /// The sub-verb of an administrative command is unknown.
    UnknownAdminCommand,
}

/// The text that describes each error.
pub open spec fn parse_error_text(e: ParseError) -> Seq<char> {
    match e {
        ParseError::EmptyBuffer => "Empty buffer"@,
        ParseError::InvalidFormat => "Invalid protocol format"@,
        ParseError::ExpectedPrefix(_) => "Line does not start with the expected prefix"@,
        ParseError::InvalidArrayLength => "Invalid array length"@,
        ParseError::EmptyArray => "Command array must have at least one element"@,
        ParseError::InvalidBulkLength => "Invalid bulk string length"@,
        ParseError::CommandNotFound => "Command not found"@,
        ParseError::UnknownCommand => "Unknown Redis command"@,
        ParseError::MissingArgument => "Argument not found"@,
        ParseError::NotEnoughArguments => "Not enough arguments for command"@,
        ParseError::WrongArity => "Wrong number of arguments for command"@,
        ParseError::UnknownOption => "Unknown option"@,
        ParseError::InvalidExpiry => "Invalid expiry format"@,
        ParseError::UnknownAdminCommand => "Unknown admin command"@,
    }
}

impl ParseError {
    /// A short description of the error.
    pub fn message(&self) -> (r: &'static str)
        ensures
            r@ == parse_error_text(*self),
    {
        match self {
            ParseError::EmptyBuffer => "Empty buffer",
            ParseError::InvalidFormat => "Invalid protocol format",
            ParseError::ExpectedPrefix(_) => "Line does not start with the expected prefix",
            ParseError::InvalidArrayLength => "Invalid array length",
            ParseError::EmptyArray => "Command array must have at least one element",
            ParseError::InvalidBulkLength => "Invalid bulk string length",
            ParseError::CommandNotFound => "Command not found",
            ParseError::UnknownCommand => "Unknown Redis command",
            ParseError::MissingArgument => "Argument not found",
            ParseError::NotEnoughArguments => "Not enough arguments for command",
            ParseError::WrongArity => "Wrong number of arguments for command",
            ParseError::UnknownOption => "Unknown option",
            ParseError::InvalidExpiry => "Invalid expiry format",
            ParseError::UnknownAdminCommand => "Unknown admin command",
        }
    }
}

pub open spec fn kw_ping() -> Seq<char> {
    seq!['p', 'i', 'n', 'g']
}

pub open spec fn kw_pong() -> Seq<char> {
    seq!['p', 'o', 'n', 'g']
}

pub open spec fn kw_echo() -> Seq<char> {
    seq!['e', 'c', 'h', 'o']
}

pub open spec fn kw_set() -> Seq<char> {
    seq!['s', 'e', 't']
}

pub open spec fn kw_get() -> Seq<char> {
    seq!['g', 'e', 't']
}

pub open spec fn kw_info() -> Seq<char> {
    seq!['i', 'n', 'f', 'o']
}

pub open spec fn kw_replconf() -> Seq<char> {
    seq!['r', 'e', 'p', 'l', 'c', 'o', 'n', 'f']
}

pub open spec fn kw_px() -> Seq<char> {
    seq!['p', 'x']
}

/// `s` without its NUL characters.
pub open spec fn strip_nul(s: Seq<char>) -> Seq<char>
    decreases s.len(),
{
    if s.len() == 0 {
        s
    } else if s.last() == '\0' {
        strip_nul(s.drop_last())
    } else {
        strip_nul(s.drop_last()).push(s.last())
    }
}

/// `cur` as a list of lines: none if it is empty.
pub open spec fn keep_line(cur: Seq<char>) -> Seq<Seq<char>> {
    if cur.len() == 0 {
        Seq::empty()
    } else {
        seq![cur]
    }
}

/// The non-empty CRLF-separated lines of `cur + s`, where `cur` is a line
/// under way.
pub open spec fn lines_from(s: Seq<char>, cur: Seq<char>) -> Seq<Seq<char>>
    decreases s.len(),
{
    if s.len() == 0 {
        keep_line(cur)
    } else if s.len() >= 2 && s[0] == '\r' && s[1] == '\n' {
        keep_line(cur) + lines_from(s.subrange(2, s.len() as int), Seq::empty())
    } else {
        lines_from(s.subrange(1, s.len() as int), cur.push(s[0]))
    }
}

/// The lines that a frame is read from.
pub open spec fn frame_lines(input: Seq<char>) -> Seq<Seq<char>> {
    lines_from(strip_nul(input), Seq::empty())
}

pub open spec fn starts_with(l: Seq<char>, c: char) -> bool {
    l.len() > 0 && l[0] == c
}

/// A header line that starts with `c` at position `p`.
pub open spec fn header_spec(lines: Seq<Seq<char>>, p: int, c: char) -> Result<(), ParseError> {
    if p >= lines.len() {
        Err(ParseError::InvalidFormat)
    } else if !starts_with(lines[p], c) {
        Err(ParseError::ExpectedPrefix(c))
    } else {
        Ok(())
    }
}

/// A `$` header at position `p` and the token after it.
pub open spec fn argument_spec(lines: Seq<Seq<char>>, p: int) -> Result<Seq<char>, ParseError> {
    match header_spec(lines, p, '$') {
        Err(e) => Err(e),
        Ok(_) => if lines.len() - p < 2 {
            Err(ParseError::MissingArgument)
        } else {
            Ok(lines[p + 1])
        },
    }
}

/// `k` arguments from position `p` on.
pub open spec fn args_spec(lines: Seq<Seq<char>>, p: int, k: nat) -> Result<
    Seq<Seq<char>>,
    ParseError,
>
    decreases k,
{
    if k == 0 {
        Ok(Seq::empty())
    } else {
        match args_spec(lines, p, (k - 1) as nat) {
            Err(e) => Err(e),
            Ok(prev) => match argument_spec(lines, p + 2 * (k - 1)) {
                Err(e) => Err(e),
                Ok(a) => Ok(prev.push(a)),
            },
        }
    }
}

pub open spec fn expiry_spec(lines: Seq<Seq<char>>, p: int, now: u64) -> Result<u64, ParseError> {
    match argument_spec(lines, p) {
        Err(e) => Err(e),
        Ok(m) => match parse_u64_spec(m) {
            None => Err(ParseError::InvalidExpiry),
            Some(ms) => if now + ms > u64::MAX {
                Err(ParseError::InvalidExpiry)
            } else {
                Ok((now + ms) as u64)
            },
        },
    }
}

pub open spec fn set_spec(lines: Seq<Seq<char>>, p: int, n: nat, now: u64) -> Result<
    CommandModel,
    ParseError,
> {
    if n < 3 {
        Err(ParseError::NotEnoughArguments)
    } else if n != 3 && n != 5 {
        Err(ParseError::WrongArity)
    } else {
        match argument_spec(lines, p) {
            Err(e) => Err(e),
            Ok(k) => match argument_spec(lines, p + 2) {
                Err(e) => Err(e),
                Ok(v) => if n == 3 {
                    Ok(CommandModel::SetKey(k, v, None))
                } else {
                    match argument_spec(lines, p + 4) {
                        Err(e) => Err(e),
                        Ok(x) => if !matches_keyword(x, kw_px()) {
                            Err(ParseError::UnknownOption)
                        } else {
                            match expiry_spec(lines, p + 6, now) {
                                Err(e) => Err(e),
                                Ok(t) => Ok(CommandModel::SetKey(k, v, Some(t))),
                            }
                        },
                    }
                },
            },
        }
    }
}

pub open spec fn admin_spec(lines: Seq<Seq<char>>, p: int, n: nat) -> Result<
    CommandModel,
    ParseError,
> {
    if n < 3 {
        Err(ParseError::NotEnoughArguments)
    } else {
        match argument_spec(lines, p) {
            Err(e) => Err(e),
            Ok(t) => match argument_spec(lines, p + 2) {
                Err(e) => Err(e),
                Ok(d) => if t == sub_replicate() {
                    Ok(CommandModel::Replicate(d))
                } else if t == sub_addslave() {
                    Ok(CommandModel::AddSlave(d))
                } else {
                    Err(ParseError::UnknownAdminCommand)
                },
            },
        }
    }
}

/// The command for `verb`, whose arguments start at position `p`, in a frame
/// that declares `n` tokens, `now` being the time of decoding.
pub open spec fn command_spec(
    verb: Seq<char>,
    lines: Seq<Seq<char>>,
    p: int,
    n: nat,
    now: u64,
) -> Result<CommandModel, ParseError> {
    if matches_keyword(verb, kw_ping()) {
        Ok(CommandModel::Ping)
    } else if matches_keyword(verb, kw_pong()) {
        Ok(CommandModel::Pong)
    } else if matches_keyword(verb, kw_echo()) {
        if n < 2 {
            Err(ParseError::NotEnoughArguments)
        } else {
            match argument_spec(lines, p) {
                Err(e) => Err(e),
                Ok(a) => Ok(CommandModel::Echo(a)),
            }
        }
    } else if matches_keyword(verb, kw_set()) {
        set_spec(lines, p, n, now)
    } else if matches_keyword(verb, kw_get()) {
        if n < 2 {
            Err(ParseError::NotEnoughArguments)
        } else {
            match argument_spec(lines, p) {
                Err(e) => Err(e),
                Ok(k) => Ok(CommandModel::Get(k)),
            }
        }
    } else if matches_keyword(verb, kw_info()) {
        if n > 1 {
            match argument_spec(lines, p) {
                Err(e) => Err(e),
                Ok(s) => Ok(CommandModel::Info(Some(s))),
            }
        } else {
            Ok(CommandModel::Info(None))
        }
    } else if matches_keyword(verb, kw_replconf()) {
        match args_spec(lines, p, (n - 1) as nat) {
            Err(e) => Err(e),
            Ok(args) => Ok(CommandModel::Replconf(args)),
        }
    } else if matches_keyword(verb, sub_replicate()) || matches_keyword(verb, sub_addslave()) {
        admin_spec(lines, p, n)
    } else {
        Err(ParseError::UnknownCommand)
    }
}

/// The command that the lines of a frame stand for.
pub open spec fn parse_lines_spec(lines: Seq<Seq<char>>, now: u64) -> Result<
    CommandModel,
    ParseError,
> {
    if lines.len() == 0 {
        Err(ParseError::EmptyBuffer)
    } else if starts_with(lines[0], '*') {
        match parse_u64_spec(lines[0].drop_first()) {
            None => Err(ParseError::InvalidArrayLength),
            Some(n) => if n == 0 {
                Err(ParseError::EmptyArray)
            } else {
                match header_spec(lines, 1, '$') {
                    Err(e) => Err(e),
                    Ok(_) => if lines.len() <= 2 {
                        Err(ParseError::CommandNotFound)
                    } else {
                        command_spec(lines[2], lines, 3, n as nat, now)
                    },
                }
            },
        }
    } else if starts_with(lines[0], '$') {
        match parse_u64_spec(lines[0].drop_first()) {
            None => Err(ParseError::InvalidBulkLength),
            Some(_) => if lines.len() <= 1 {
                Err(ParseError::CommandNotFound)
            } else {
                command_spec(lines[1], lines, 2, 1, now)
            },
        }
    } else {
        Err(ParseError::InvalidFormat)
    }
}

/// The command that `input` decodes to, `now` being the time of decoding.
pub open spec fn parse_spec(input: Seq<char>, now: u64) -> Result<CommandModel, ParseError> {
    parse_lines_spec(frame_lines(input), now)
}

pub open spec fn line_views(v: Seq<Vec<char>>) -> Seq<Seq<char>> {
    v.map_values(|l: Vec<char>| l@)
}

pub open spec fn text_result(r: Result<String, ParseError>) -> Result<Seq<char>, ParseError> {
    match r {
        Ok(s) => Ok(s@),
        Err(e) => Err(e),
    }
}

pub open spec fn command_result(r: Result<RedisCommand, ParseError>) -> Result<
    CommandModel,
    ParseError,
> {
    match r {
        Ok(c) => Ok(c@),
        Err(e) => Err(e),
    }
}

/// Decoder of request frames.
pub struct RedisCommandParser;

impl RedisCommandParser {
    /// Decodes one frame; a `PX` expiry is made absolute against the clock.
    pub fn parse(buffer_str: &str) -> (r: Result<RedisCommand, ParseError>)
        ensures
            exists|now: u64| command_result(r) == #[trigger] parse_spec(buffer_str@, now),
    {
        let now = now_millis();
        let r = Self::parse_at(buffer_str, now);
        assert(command_result(r) == parse_spec(buffer_str@, now));
        r
    }

    /// Decodes one frame; a `PX` expiry is made absolute against `now`.
    pub fn parse_at(buffer_str: &str, now: u64) -> (r: Result<RedisCommand, ParseError>)
        ensures
            command_result(r) == parse_spec(buffer_str@, now),
    {
        let chars = chars_of(buffer_str);
        let clean = strip_nul_chars(&chars);
        let lines = split_lines(&clean);
        parse_lines(&lines, now)
    }
}

fn strip_nul_chars(s: &Vec<char>) -> (r: Vec<char>)
    ensures
        r@ == strip_nul(s@),
{
    let mut r: Vec<char> = Vec::new();
    let mut i: usize = 0;
    while i < s.len()
        invariant
            i <= s@.len(),
            r@ == strip_nul(s@.subrange(0, i as int)),
        decreases s@.len() - i,
    {
        let ghost p = s@.subrange(0, i + 1);
        assert(p.drop_last() =~= s@.subrange(0, i as int));
        if s[i] != '\0' {
            r.push(s[i]);
        }
        i = i + 1;
    }
    assert(s@.subrange(0, i as int) =~= s@);
    r
}

fn split_lines(s: &Vec<char>) -> (r: Vec<Vec<char>>)
    ensures
        line_views(r@) == lines_from(s@, Seq::empty()),
{
    let mut out: Vec<Vec<char>> = Vec::new();
    let mut cur: Vec<char> = Vec::new();
    let mut i: usize = 0;
    assert(s@.subrange(0, s@.len() as int) =~= s@);
    while i < s.len()
        invariant
            i <= s@.len(),
            line_views(out@) + lines_from(s@.subrange(i as int, s@.len() as int), cur@)
                == lines_from(s@, Seq::empty()),
        decreases s@.len() - i,
    {
        let ghost rest = s@.subrange(i as int, s@.len() as int);
        if i + 1 < s.len() && s[i] == '\r' && s[i + 1] == '\n' {
            assert(rest.subrange(2, rest.len() as int) =~= s@.subrange(i + 2, s@.len() as int));
            let ghost before = line_views(out@);
            if cur.len() > 0 {
                out.push(cur);
                assert(line_views(out@) =~= before + keep_line(cur@));
            } else {
                assert(line_views(out@) =~= before + keep_line(cur@));
            }
            cur = Vec::new();
            i = i + 2;
        } else {
            assert(rest.subrange(1, rest.len() as int) =~= s@.subrange(i + 1, s@.len() as int));
            cur.push(s[i]);
            i = i + 1;
        }
    }
    let ghost before = line_views(out@);
    if cur.len() > 0 {
        out.push(cur);
    }
    assert(line_views(out@) =~= before + keep_line(cur@));
    out
}

fn header(lines: &Vec<Vec<char>>, p: usize, c: char) -> (r: Result<(), ParseError>)
    ensures
        r == header_spec(line_views(lines@), p as int, c),
        r is Ok ==> p < lines.len(),
{
    if p >= lines.len() {
        Err(ParseError::InvalidFormat)
    } else if !(lines[p].len() > 0 && lines[p][0] == c) {
        Err(ParseError::ExpectedPrefix(c))
    } else {
        Ok(())
    }
}

fn argument(lines: &Vec<Vec<char>>, p: usize) -> (r: Result<String, ParseError>)
    ensures
        text_result(r) == argument_spec(line_views(lines@), p as int),
        r is Ok ==> p + 1 < lines.len(),
{
    match header(lines, p, '$') {
        Err(e) => Err(e),
        Ok(_) => if lines.len() - p < 2 {
            Err(ParseError::MissingArgument)
        } else {
            Ok(string_of(&lines[p + 1]))
        },
    }
}

fn arguments(lines: &Vec<Vec<char>>, p: usize, k: u64) -> (r: Result<Vec<String>, ParseError>)
    requires
        p <= lines@.len(),
    ensures
        match r {
            Ok(v) => args_spec(line_views(lines@), p as int, k as nat) == Ok::<
                Seq<Seq<char>>,
                ParseError,
            >(views_of(v@)),
            Err(e) => args_spec(line_views(lines@), p as int, k as nat) == Err::<
                Seq<Seq<char>>,
                ParseError,
            >(e),
        },
{
    let ghost ls = line_views(lines@);
    let mut out: Vec<String> = Vec::new();
    let mut i: u64 = 0;
    let mut pos: usize = p;
    assert(views_of(out@) =~= Seq::<Seq<char>>::empty());
    while i < k
        invariant
            ls == line_views(lines@),
            i <= k,
            pos == p + 2 * i,
            pos <= lines.len(),
            args_spec(ls, p as int, i as nat) == Ok::<Seq<Seq<char>>, ParseError>(views_of(out@)),
        decreases k - i,
    {
        match argument(lines, pos) {
            Err(e) => {
                proof {
                    lemma_args_stop(ls, p as int, i as nat, k as nat, e);
                }
                return Err(e);
            },
            Ok(a) => {
                let ghost before = out@;
                out.push(a);
                assert(views_of(out@) =~= views_of(before).push(a@));
                i = i + 1;
                pos = pos + 2;
            },
        }
    }
    Ok(out)
}

/// Once an argument fails, every longer run of arguments fails with it.
proof fn lemma_args_stop(ls: Seq<Seq<char>>, p: int, i: nat, k: nat, e: ParseError)
    requires
        i < k,
        args_spec(ls, p, i) is Ok,
        argument_spec(ls, p + 2 * i) == Err::<Seq<char>, ParseError>(e),
    ensures
        args_spec(ls, p, k) == Err::<Seq<Seq<char>>, ParseError>(e),
    decreases k - i,
{
    if k == i + 1 {
    } else {
        lemma_args_stop(ls, p, i, (k - 1) as nat, e);
    }
}

fn expiry(lines: &Vec<Vec<char>>, p: usize, now: u64) -> (r: Result<u64, ParseError>)
    ensures
        r == expiry_spec(line_views(lines@), p as int, now),
{
    match header(lines, p, '$') {
        Err(e) => Err(e),
        Ok(_) => {
            if lines.len() - p < 2 {
                return Err(ParseError::MissingArgument);
            }
            let m = &lines[p + 1];
            assert(m@.subrange(0, m@.len() as int) =~= m@);
            match parse_u64(m, 0, m.len()) {
                None => Err(ParseError::InvalidExpiry),
                Some(ms) => match now.checked_add(ms) {
                    None => Err(ParseError::InvalidExpiry),
                    Some(t) => Ok(t),
                },
            }
        },
    }
}

fn set_command(lines: &Vec<Vec<char>>, p: usize, n: u64, now: u64) -> (r: Result<
    RedisCommand,
    ParseError,
>)
    requires
        p <= lines@.len(),
    ensures
        command_result(r) == set_spec(line_views(lines@), p as int, n as nat, now),
{
    if n < 3 {
        return Err(ParseError::NotEnoughArguments);
    }
    if n != 3 && n != 5 {
        return Err(ParseError::WrongArity);
    }
    let key = match argument(lines, p) {
        Err(e) => return Err(e),
        Ok(k) => k,
    };
    let value = match argument(lines, p + 2) {
        Err(e) => return Err(e),
        Ok(v) => v,
    };
    if n == 3 {
        return Ok(RedisCommand::SetKey(key, value, None));
    }
    let px = match argument(lines, p + 4) {
        Err(e) => return Err(e),
        Ok(x) => x,
    };
    let px_chars = chars_of(px.as_str());
    if !eq_keyword(&px_chars, &vec!['p', 'x']) {
        return Err(ParseError::UnknownOption);
    }
    match expiry(lines, p + 6, now) {
        Err(e) => Err(e),
        Ok(t) => Ok(RedisCommand::SetKey(key, value, Some(t))),
    }
}

fn admin_command(lines: &Vec<Vec<char>>, p: usize, n: u64) -> (r: Result<RedisCommand, ParseError>)
    requires
        p <= lines@.len(),
    ensures
        command_result(r) == admin_spec(line_views(lines@), p as int, n as nat),
{
    if n < 3 {
        return Err(ParseError::NotEnoughArguments);
    }
    let kind = match argument(lines, p) {
        Err(e) => return Err(e),
        Ok(t) => t,
    };
    let data = match argument(lines, p + 2) {
        Err(e) => return Err(e),
        Ok(d) => d,
    };
    let kind_chars = chars_of(kind.as_str());
    let replicate = vec!['r', 'e', 'p', 'l', 'i', 'c', 'a', 't', 'e'];
    let addslave = vec!['a', 'd', 'd', 's', 'l', 'a', 'v', 'e'];
    if same_chars(&kind_chars, &replicate) {
        Ok(RedisCommand::Admin(AdminCommand::Replicate(data)))
    } else if same_chars(&kind_chars, &addslave) {
        Ok(RedisCommand::Admin(AdminCommand::AddSlave(data)))
    } else {
        Err(ParseError::UnknownAdminCommand)
    }
}

/// The command for the verb at position `v`, with `n` declared tokens.
fn command(lines: &Vec<Vec<char>>, v: usize, n: u64, now: u64) -> (r: Result<
    RedisCommand,
    ParseError,
>)
    requires
        v < lines.len(),
        n >= 1,
    ensures
        command_result(r) == command_spec(
            line_views(lines@)[v as int],
            line_views(lines@),
            v + 1,
            n as nat,
            now,
        ),
{
    let verb = &lines[v];
    let p = v + 1;
    if eq_keyword(verb, &vec!['p', 'i', 'n', 'g']) {
        Ok(RedisCommand::Ping)
    } else if eq_keyword(verb, &vec!['p', 'o', 'n', 'g']) {
        Ok(RedisCommand::Pong)
    } else if eq_keyword(verb, &vec!['e', 'c', 'h', 'o']) {
        if n < 2 {
            return Err(ParseError::NotEnoughArguments);
        }
        match argument(lines, p) {
            Err(e) => Err(e),
            Ok(a) => Ok(RedisCommand::Echo(a)),
        }
    } else if eq_keyword(verb, &vec!['s', 'e', 't']) {
        set_command(lines, p, n, now)
    } else if eq_keyword(verb, &vec!['g', 'e', 't']) {
        if n < 2 {
            return Err(ParseError::NotEnoughArguments);
        }
        match argument(lines, p) {
            Err(e) => Err(e),
            Ok(k) => Ok(RedisCommand::Get(k)),
        }
    } else if eq_keyword(verb, &vec!['i', 'n', 'f', 'o']) {
        if n > 1 {
            match argument(lines, p) {
                Err(e) => Err(e),
                Ok(s) => Ok(RedisCommand::Info(Some(s))),
            }
        } else {
            Ok(RedisCommand::Info(None))
        }
    } else if eq_keyword(verb, &vec!['r', 'e', 'p', 'l', 'c', 'o', 'n', 'f']) {
        match arguments(lines, p, n - 1) {
            Err(e) => Err(e),
            Ok(args) => Ok(RedisCommand::Replconf(args)),
        }
    } else if eq_keyword(verb, &vec!['r', 'e', 'p', 'l', 'i', 'c', 'a', 't', 'e']) || eq_keyword(
        verb,
        &vec!['a', 'd', 'd', 's', 'l', 'a', 'v', 'e'],
    ) {
        admin_command(lines, p, n)
    } else {
        Err(ParseError::UnknownCommand)
    }
}

fn parse_lines(lines: &Vec<Vec<char>>, now: u64) -> (r: Result<RedisCommand, ParseError>)
    ensures
        command_result(r) == parse_lines_spec(line_views(lines@), now),
{
    if lines.len() == 0 {
        return Err(ParseError::EmptyBuffer);
    }
    let first = &lines[0];
    let ghost f = first@;
    assert(first@.subrange(1, first@.len() as int) =~= f.drop_first());
    if first.len() > 0 && first[0] == '*' {
        match parse_u64(first, 1, first.len()) {
            None => Err(ParseError::InvalidArrayLength),
            Some(n) => {
                if n == 0 {
                    return Err(ParseError::EmptyArray);
                }
                match header(lines, 1, '$') {
                    Err(e) => Err(e),
                    Ok(_) => if lines.len() <= 2 {
                        Err(ParseError::CommandNotFound)
                    } else {
                        command(lines, 2, n, now)
                    },
                }
            },
        }
    } else if first.len() > 0 && first[0] == '$' {
        match parse_u64(first, 1, first.len()) {
            None => Err(ParseError::InvalidBulkLength),
            Some(_) => if lines.len() <= 1 {
                Err(ParseError::CommandNotFound)
            } else {
                command(lines, 1, 1, now)
            },
        }
    } else {
        Err(ParseError::InvalidFormat)
    }
}

} // verus!
