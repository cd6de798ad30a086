//! Re-encoding a command and decoding the frame gives the command back.
use vstd::prelude::*;
use crate::command::{
    CommandModel, array_frame, bulk, bulks, crlf, encode, sub_addslave, sub_replicate, tokens,
    verb_addslave, verb_echo, verb_get, verb_info, verb_ping, verb_pong, verb_px, verb_replconf,
    verb_replicate, verb_set,
};
use crate::parser::{
    argument_spec, args_spec, frame_lines, header_spec, keep_line, kw_echo, kw_get,
    kw_info, kw_ping, kw_pong, kw_px, kw_replconf, kw_set, lines_from, parse_lines_spec, parse_spec,
    starts_with, strip_nul,
};
use crate::text::{ascii_lower, dec, is_digit, lemma_dec_digits, lemma_parse_dec, wire_len};

verus! {

pub open spec fn no_nul(s: Seq<char>) -> bool {
    forall|i: int| 0 <= i < s.len() ==> #[trigger] s[i] != '\0'
}

pub open spec fn no_crlf(s: Seq<char>) -> bool {
    forall|i: int| 0 <= i < s.len() - 1 ==> !(#[trigger] s[i] == '\r' && s[i + 1] == '\n')
}

/// A token that survives framing: not empty, with no NUL and no CRLF.
pub open spec fn valid_token(t: Seq<char>) -> bool {
    t.len() > 0 && no_nul(t) && no_crlf(t)
}

pub open spec fn all_valid(ts: Seq<Seq<char>>) -> bool {
    forall|i: int| 0 <= i < ts.len() ==> valid_token(#[trigger] ts[i])
}

/// Every string that the command carries is a valid token.
pub open spec fn encodable(c: CommandModel) -> bool {
    match c {
        CommandModel::Ping | CommandModel::Pong | CommandModel::Info(None) => true,
        CommandModel::Echo(s) | CommandModel::Get(s) | CommandModel::Info(Some(s)) => valid_token(s),
        CommandModel::SetKey(k, v, _) => valid_token(k) && valid_token(v),
        CommandModel::Replicate(d) | CommandModel::AddSlave(d) => valid_token(d),
        CommandModel::Replconf(args) => all_valid(args) && args.len() < u64::MAX,
    }
}

pub open spec fn has_expiry(c: CommandModel) -> bool {
    c matches CommandModel::SetKey(_, _, Some(_))
}

/// The header line before a token.
pub open spec fn hdr(t: Seq<char>) -> Seq<char> {
    seq!['$'] + dec(wire_len(t))
}

/// The lines that `bulks(ts)` splits into: a header and a token for each.
pub open spec fn bulk_lines(ts: Seq<Seq<char>>) -> Seq<Seq<char>>
    decreases ts.len(),
{
    if ts.len() == 0 {
        Seq::empty()
    } else {
        bulk_lines(ts.drop_last()) + seq![hdr(ts.last()), ts.last()]
    }
}

proof fn lemma_keywords()
    ensures
        ascii_lower(verb_ping()) == kw_ping(),
        ascii_lower(verb_pong()) == kw_pong(),
        ascii_lower(verb_echo()) == kw_echo(),
        ascii_lower(verb_set()) == kw_set(),
        ascii_lower(verb_get()) == kw_get(),
        ascii_lower(verb_info()) == kw_info(),
        ascii_lower(verb_replconf()) == kw_replconf(),
        ascii_lower(verb_replicate()) == sub_replicate(),
        ascii_lower(verb_addslave()) == sub_addslave(),
        ascii_lower(verb_px()) == kw_px(),
        kw_ping() != kw_pong(),
        kw_ping() != kw_echo(),
        kw_ping() != kw_set(),
        kw_ping() != kw_get(),
        kw_ping() != kw_info(),
        kw_ping() != kw_replconf(),
        kw_ping() != sub_replicate(),
        kw_ping() != sub_addslave(),
        kw_pong() != kw_echo(),
        kw_pong() != kw_set(),
        kw_pong() != kw_get(),
        kw_pong() != kw_info(),
        kw_pong() != kw_replconf(),
        kw_pong() != sub_replicate(),
        kw_pong() != sub_addslave(),
        kw_echo() != kw_set(),
        kw_echo() != kw_get(),
        kw_echo() != kw_info(),
        kw_echo() != kw_replconf(),
        kw_echo() != sub_replicate(),
        kw_echo() != sub_addslave(),
        kw_set() != kw_get(),
        kw_set() != kw_info(),
        kw_set() != kw_replconf(),
        kw_set() != sub_replicate(),
        kw_set() != sub_addslave(),
        kw_get() != kw_info(),
        kw_get() != kw_replconf(),
        kw_get() != sub_replicate(),
        kw_get() != sub_addslave(),
        kw_info() != kw_replconf(),
        kw_info() != sub_replicate(),
        kw_info() != sub_addslave(),
        kw_replconf() != sub_replicate(),
        kw_replconf() != sub_addslave(),
        sub_replicate() != sub_addslave(),
{
    assert(ascii_lower(verb_ping()) =~= kw_ping());
    assert(ascii_lower(verb_pong()) =~= kw_pong());
    assert(ascii_lower(verb_echo()) =~= kw_echo());
    assert(ascii_lower(verb_set()) =~= kw_set());
    assert(ascii_lower(verb_get()) =~= kw_get());
    assert(ascii_lower(verb_info()) =~= kw_info());
    assert(ascii_lower(verb_replconf()) =~= kw_replconf());
    assert(ascii_lower(verb_replicate()) =~= sub_replicate());
    assert(ascii_lower(verb_addslave()) =~= sub_addslave());
    assert(ascii_lower(verb_px()) =~= kw_px());
    assert(kw_ping()[1] != kw_pong()[1]);
    assert(kw_ping()[0] != kw_echo()[0]);
    assert(kw_ping().len() != kw_set().len());
    assert(kw_ping().len() != kw_get().len());
    assert(kw_ping()[0] != kw_info()[0]);
    assert(kw_ping().len() != kw_replconf().len());
    assert(kw_ping().len() != sub_replicate().len());
    assert(kw_ping().len() != sub_addslave().len());
    assert(kw_pong()[0] != kw_echo()[0]);
    assert(kw_pong().len() != kw_set().len());
    assert(kw_pong().len() != kw_get().len());
    assert(kw_pong()[0] != kw_info()[0]);
    assert(kw_pong().len() != kw_replconf().len());
    assert(kw_pong().len() != sub_replicate().len());
    assert(kw_pong().len() != sub_addslave().len());
    assert(kw_echo().len() != kw_set().len());
    assert(kw_echo().len() != kw_get().len());
    assert(kw_echo()[0] != kw_info()[0]);
    assert(kw_echo().len() != kw_replconf().len());
    assert(kw_echo().len() != sub_replicate().len());
    assert(kw_echo().len() != sub_addslave().len());
    assert(kw_set()[0] != kw_get()[0]);
    assert(kw_set().len() != kw_info().len());
    assert(kw_set().len() != kw_replconf().len());
    assert(kw_set().len() != sub_replicate().len());
    assert(kw_set().len() != sub_addslave().len());
    assert(kw_get().len() != kw_info().len());
    assert(kw_get().len() != kw_replconf().len());
    assert(kw_get().len() != sub_replicate().len());
    assert(kw_get().len() != sub_addslave().len());
    assert(kw_info().len() != kw_replconf().len());
    assert(kw_info().len() != sub_replicate().len());
    assert(kw_info().len() != sub_addslave().len());
    assert(kw_replconf().len() != sub_replicate().len());
    assert(kw_replconf()[0] != sub_addslave()[0]);
    assert(sub_replicate().len() != sub_addslave().len());
}

proof fn lemma_plain_token(t: Seq<char>)
    requires
        t.len() > 0,
        forall|i: int| 0 <= i < t.len() ==> #[trigger] t[i] != '\0' && t[i] != '\r',
    ensures
        valid_token(t),
{
}

proof fn lemma_dec_plain(n: nat)
    ensures
        valid_token(dec(n)),
        forall|i: int| 0 <= i < dec(n).len() ==> #[trigger] dec(n)[i] != '\0' && dec(n)[i] != '\r',
{
    lemma_dec_digits(n);
    assert forall|i: int| 0 <= i < dec(n).len() implies #[trigger] dec(n)[i] != '\0' && dec(n)[i]
        != '\r' by {
        assert(is_digit(dec(n)[i]));
    }
}

proof fn lemma_tokens_valid(c: CommandModel)
    requires
        encodable(c),
    ensures
        all_valid(tokens(c)),
        tokens(c).len() <= u64::MAX,
        tokens(c).len() >= 1,
{
    lemma_plain_token(verb_ping());
    lemma_plain_token(verb_pong());
    lemma_plain_token(verb_echo());
    lemma_plain_token(verb_set());
    lemma_plain_token(verb_get());
    lemma_plain_token(verb_info());
    lemma_plain_token(verb_replconf());
    lemma_plain_token(verb_replicate());
    lemma_plain_token(verb_addslave());
    lemma_plain_token(sub_replicate());
    lemma_plain_token(sub_addslave());
    lemma_plain_token(verb_px());
    let ts = tokens(c);
    match c {
        CommandModel::SetKey(_, _, Some(t)) => {
            lemma_dec_plain(t as nat);
        },
        CommandModel::Replconf(args) => {
            assert forall|i: int| 0 <= i < ts.len() implies valid_token(#[trigger] ts[i]) by {
                if i > 0 {
                    assert(ts[i] == args[i - 1]);
                }
            }
        },
        _ => {},
    }
}

proof fn lemma_strip_nul_id(s: Seq<char>)
    requires
        no_nul(s),
    ensures
        strip_nul(s) == s,
    decreases s.len(),
{
    if s.len() > 0 {
        assert(no_nul(s.drop_last()));
        lemma_strip_nul_id(s.drop_last());
        assert(s.drop_last().push(s.last()) =~= s);
    }
}

proof fn lemma_no_nul_concat(a: Seq<char>, b: Seq<char>)
    requires
        no_nul(a),
        no_nul(b),
    ensures
        no_nul(a + b),
{
    assert forall|i: int| 0 <= i < (a + b).len() implies #[trigger] (a + b)[i] != '\0' by {
        if i < a.len() {
            assert((a + b)[i] == a[i]);
        } else {
            assert((a + b)[i] == b[i - a.len()]);
        }
    }
}

proof fn lemma_bulks_no_nul(ts: Seq<Seq<char>>)
    requires
        all_valid(ts),
    ensures
        no_nul(bulks(ts)),
    decreases ts.len(),
{
    if ts.len() > 0 {
        let t = ts.last();
        assert(all_valid(ts.drop_last())) by {
            assert forall|i: int| 0 <= i < ts.drop_last().len() implies valid_token(
                #[trigger] ts.drop_last()[i],
            ) by {
                assert(ts.drop_last()[i] == ts[i]);
            }
        }
        lemma_bulks_no_nul(ts.drop_last());
        assert(valid_token(ts[ts.len() - 1]));
        lemma_dec_plain(wire_len(t));
        lemma_no_nul_concat(seq!['$'], dec(wire_len(t)));
        lemma_no_nul_concat(seq!['$'] + dec(wire_len(t)), crlf());
        lemma_no_nul_concat(seq!['$'] + dec(wire_len(t)) + crlf(), t);
        lemma_no_nul_concat(seq!['$'] + dec(wire_len(t)) + crlf() + t, crlf());
        lemma_no_nul_concat(bulks(ts.drop_last()), bulk(t));
    }
}

/// A line without CRLF, followed by CRLF, is one line of its own.
proof fn lemma_segment(a: Seq<char>, rest: Seq<char>, cur: Seq<char>)
    requires
        no_crlf(a),
    ensures
        lines_from(a + crlf() + rest, cur) == keep_line(cur + a) + lines_from(rest, Seq::empty()),
    decreases a.len(),
{
    let s = a + crlf() + rest;
    if a.len() == 0 {
        assert(s.subrange(2, s.len() as int) =~= rest);
        assert(cur + a =~= cur);
        assert(s[0] == '\r' && s[1] == '\n');
    } else {
        let a2 = a.drop_first();
        assert(s.subrange(1, s.len() as int) =~= a2 + crlf() + rest);
        assert(s[0] == a[0]);
        if a.len() >= 2 {
            assert(s[1] == a[1]);
            assert(!(a[0] == '\r' && a[1] == '\n'));
        } else {
            assert(s[1] == '\r');
        }
        assert(no_crlf(a2)) by {
            assert forall|i: int| 0 <= i < a2.len() - 1 implies !(#[trigger] a2[i] == '\r' && a2[i
                + 1] == '\n') by {
                assert(a2[i] == a[i + 1]);
                assert(a2[i + 1] == a[i + 2]);
            }
        }
        lemma_segment(a2, rest, cur.push(a[0]));
        assert(cur.push(a[0]) + a2 =~= cur + a);
    }
}

proof fn lemma_hdr_plain(t: Seq<char>)
    ensures
        valid_token(hdr(t)),
        starts_with(hdr(t), '$'),
{
    lemma_dec_plain(wire_len(t));
    let h = hdr(t);
    assert forall|i: int| 0 <= i < h.len() implies #[trigger] h[i] != '\0' && h[i] != '\r' by {
        if i > 0 {
            assert(h[i] == dec(wire_len(t))[i - 1]);
        }
    }
    lemma_plain_token(h);
}

proof fn lemma_lines_bulks(ts: Seq<Seq<char>>, rest: Seq<char>)
    requires
        all_valid(ts),
    ensures
        lines_from(bulks(ts) + rest, Seq::empty()) == bulk_lines(ts) + lines_from(
            rest,
            Seq::empty(),
        ),
    decreases ts.len(),
{
    let e = Seq::<char>::empty();
    if ts.len() == 0 {
        assert(bulks(ts) + rest =~= rest);
        assert(bulk_lines(ts) + lines_from(rest, e) =~= lines_from(rest, e));
    } else {
        let t = ts.last();
        let ts2 = ts.drop_last();
        assert(all_valid(ts2)) by {
            assert forall|i: int| 0 <= i < ts2.len() implies valid_token(#[trigger] ts2[i]) by {
                assert(ts2[i] == ts[i]);
            }
        }
        assert(valid_token(ts[ts.len() - 1]));
        let r2 = bulk(t) + rest;
        assert(bulks(ts) + rest =~= bulks(ts2) + r2);
        lemma_lines_bulks(ts2, r2);
        assert(r2 =~= hdr(t) + crlf() + (t + crlf() + rest));
        lemma_hdr_plain(t);
        lemma_segment(hdr(t), t + crlf() + rest, e);
        lemma_segment(t, rest, e);
        assert(e + hdr(t) =~= hdr(t));
        assert(e + t =~= t);
        assert(bulk_lines(ts2) + (seq![hdr(t)] + (seq![t] + lines_from(rest, e))) =~= bulk_lines(ts)
            + lines_from(rest, e));
    }
}

proof fn lemma_bulk_lines_index(ts: Seq<Seq<char>>)
    ensures
        bulk_lines(ts).len() == 2 * ts.len(),
        forall|i: int|
            0 <= i < ts.len() ==> bulk_lines(ts)[2 * i] == hdr(#[trigger] ts[i]) && bulk_lines(
                ts,
            )[2 * i + 1] == ts[i],
    decreases ts.len(),
{
    if ts.len() > 0 {
        let ts2 = ts.drop_last();
        lemma_bulk_lines_index(ts2);
        assert forall|i: int| 0 <= i < ts.len() implies bulk_lines(ts)[2 * i] == hdr(
            #[trigger] ts[i],
        ) && bulk_lines(ts)[2 * i + 1] == ts[i] by {
            if i < ts.len() - 1 {
                assert(ts2[i] == ts[i]);
            }
        }
    }
}

/// The lines of an array frame: the count, then a header and a token for each
/// token.
proof fn lemma_frame_lines(ts: Seq<Seq<char>>)
    requires
        all_valid(ts),
    ensures
        frame_lines(array_frame(ts)) == seq![seq!['*'] + dec(ts.len())] + bulk_lines(ts),
{
    let e = Seq::<char>::empty();
    let head = seq!['*'] + dec(ts.len());
    lemma_dec_plain(ts.len());
    lemma_no_nul_concat(seq!['*'], dec(ts.len()));
    lemma_no_nul_concat(head, crlf());
    lemma_bulks_no_nul(ts);
    lemma_no_nul_concat(head + crlf(), bulks(ts));
    lemma_strip_nul_id(array_frame(ts));
    assert forall|i: int| 0 <= i < head.len() implies #[trigger] head[i] != '\0' && head[i] != '\r' by {
        if i > 0 {
            assert(head[i] == dec(ts.len())[i - 1]);
        }
    }
    lemma_plain_token(head);
    assert(array_frame(ts) =~= head + crlf() + (bulks(ts) + e));
    lemma_segment(head, bulks(ts) + e, e);
    lemma_lines_bulks(ts, e);
    assert(e + head =~= head);
    assert(lines_from(e, e) =~= Seq::<Seq<char>>::empty());
    assert(bulk_lines(ts) + lines_from(e, e) =~= bulk_lines(ts));
}

/// In the lines of a frame, the argument at position `1 + 2 * i` is token `i`.
proof fn lemma_argument_at(ts: Seq<Seq<char>>, i: int)
    requires
        all_valid(ts),
        0 <= i < ts.len(),
    ensures
        argument_spec(seq![seq!['*'] + dec(ts.len())] + bulk_lines(ts), 1 + 2 * i) == Ok::<
            Seq<char>,
            crate::parser::ParseError,
        >(ts[i]),
{
    let l = seq![seq!['*'] + dec(ts.len())] + bulk_lines(ts);
    lemma_bulk_lines_index(ts);
    lemma_hdr_plain(ts[i]);
    assert(l[1 + 2 * i] == bulk_lines(ts)[2 * i]);
    assert(l[2 + 2 * i] == bulk_lines(ts)[2 * i + 1]);
}

proof fn lemma_args_at(ts: Seq<Seq<char>>, k: nat)
    requires
        all_valid(ts),
        k < ts.len(),
    ensures
        args_spec(seq![seq!['*'] + dec(ts.len())] + bulk_lines(ts), 3, k) == Ok::<
            Seq<Seq<char>>,
            crate::parser::ParseError,
        >(ts.subrange(1, 1 + k as int)),
    decreases k,
{
    if k > 0 {
        lemma_args_at(ts, (k - 1) as nat);
        lemma_argument_at(ts, k as int);
        assert(ts.subrange(1, k as int).push(ts[k as int]) =~= ts.subrange(1, 1 + k as int));
    } else {
        assert(ts.subrange(1, 1) =~= Seq::<Seq<char>>::empty());
    }
}

/// Encoding a command and decoding the frame gives the command back, for every
/// command whose strings are valid tokens. A `PX` expiry is decoded relative to
/// the time of decoding, so a command with an expiry comes back unchanged when
/// decoded at time zero.
pub proof fn lemma_encode_then_parse(c: CommandModel, now: u64)
    requires
        encodable(c),
        !has_expiry(c) || now == 0,
    ensures
        parse_spec(encode(c), now) == Ok::<CommandModel, crate::parser::ParseError>(c),
{
    let ts = tokens(c);
    lemma_tokens_valid(c);
    lemma_frame_lines(ts);
    lemma_bulk_lines_index(ts);
    lemma_keywords();
    let l = seq![seq!['*'] + dec(ts.len())] + bulk_lines(ts);
    lemma_parse_dec(ts.len() as u64);
    assert(l[0].drop_first() =~= dec(ts.len()));
    lemma_hdr_plain(ts[0]);
    assert(l[1] == hdr(ts[0]));
    assert(l[2] == ts[0]);
    assert(header_spec(l, 1, '$') is Ok);
    match c {
        CommandModel::Echo(s) => {
            lemma_argument_at(ts, 1);
        },
        CommandModel::Get(s) => {
            lemma_argument_at(ts, 1);
        },
        CommandModel::Info(Some(s)) => {
            lemma_argument_at(ts, 1);
        },
        CommandModel::SetKey(k, v, e) => {
            lemma_argument_at(ts, 1);
            lemma_argument_at(ts, 2);
            match e {
                Some(t) => {
                    lemma_argument_at(ts, 3);
                    lemma_argument_at(ts, 4);
                    lemma_parse_dec(t);
                },
                None => {},
            }
        },
        CommandModel::Replicate(d) => {
            lemma_argument_at(ts, 1);
            lemma_argument_at(ts, 2);
        },
        CommandModel::AddSlave(d) => {
            lemma_argument_at(ts, 1);
            lemma_argument_at(ts, 2);
        },
        CommandModel::Replconf(args) => {
            lemma_args_at(ts, args.len());
            assert(ts.subrange(1, 1 + args.len() as int) =~= args);
        },
        _ => {},
    }
}

proof fn lemma_strip_nul_clean(s: Seq<char>)
    ensures
        no_nul(strip_nul(s)),
    decreases s.len(),
{
    if s.len() > 0 {
        lemma_strip_nul_clean(s.drop_last());
        let p = strip_nul(s.drop_last());
        if s.last() != '\0' {
            assert forall|i: int| 0 <= i < p.push(s.last()).len() implies #[trigger] p.push(
                s.last(),
            )[i] != '\0' by {
                if i < p.len() {
                    assert(p.push(s.last())[i] == p[i]);
                }
            }
        }
    }
}

proof fn lemma_all_valid_concat(a: Seq<Seq<char>>, b: Seq<Seq<char>>)
    requires
        all_valid(a),
        all_valid(b),
    ensures
        all_valid(a + b),
{
    assert forall|i: int| 0 <= i < (a + b).len() implies valid_token(#[trigger] (a + b)[i]) by {
        if i < a.len() {
            assert((a + b)[i] == a[i]);
        } else {
            assert((a + b)[i] == b[i - a.len()]);
        }
    }
}

/// Every line that splitting yields is a valid token.
proof fn lemma_lines_valid(t: Seq<char>, cur: Seq<char>)
    requires
        no_nul(t),
        no_nul(cur),
        no_crlf(cur),
        cur.len() > 0 && cur.last() == '\r' ==> !(t.len() > 0 && t[0] == '\n'),
    ensures
        all_valid(lines_from(t, cur)),
    decreases t.len(),
{
    let e = Seq::<char>::empty();
    if t.len() == 0 {
    } else if t.len() >= 2 && t[0] == '\r' && t[1] == '\n' {
        let rest = t.subrange(2, t.len() as int);
        assert(no_nul(rest)) by {
            assert forall|i: int| 0 <= i < rest.len() implies #[trigger] rest[i] != '\0' by {
                assert(rest[i] == t[i + 2]);
            }
        }
        lemma_lines_valid(rest, e);
        lemma_all_valid_concat(keep_line(cur), lines_from(rest, e));
    } else {
        let rest = t.subrange(1, t.len() as int);
        let c2 = cur.push(t[0]);
        assert(no_nul(rest)) by {
            assert forall|i: int| 0 <= i < rest.len() implies #[trigger] rest[i] != '\0' by {
                assert(rest[i] == t[i + 1]);
            }
        }
        assert(no_nul(c2)) by {
            assert forall|i: int| 0 <= i < c2.len() implies #[trigger] c2[i] != '\0' by {
                if i < cur.len() {
                    assert(c2[i] == cur[i]);
                }
            }
        }
        assert(no_crlf(c2)) by {
            assert forall|i: int| 0 <= i < c2.len() - 1 implies !(#[trigger] c2[i] == '\r' && c2[i
                + 1] == '\n') by {
                assert(c2[i] == cur[i]);
                if i + 1 < cur.len() {
                    assert(c2[i + 1] == cur[i + 1]);
                } else {
                    assert(c2[i + 1] == t[0]);
                }
            }
        }
        if t.len() >= 2 {
            assert(rest[0] == t[1]);
        }
        lemma_lines_valid(rest, c2);
    }
}

proof fn lemma_args_valid(lines: Seq<Seq<char>>, p: int, k: nat)
    requires
        p >= 0,
        all_valid(lines),
        args_spec(lines, p, k) is Ok,
    ensures
        all_valid(args_spec(lines, p, k)->Ok_0),
        args_spec(lines, p, k)->Ok_0.len() == k,
    decreases k,
{
    if k > 0 {
        lemma_args_valid(lines, p, (k - 1) as nat);
        let prev = args_spec(lines, p, (k - 1) as nat)->Ok_0;
        let a = argument_spec(lines, p + 2 * (k - 1))->Ok_0;
        assert(valid_token(lines[p + 2 * (k - 1) + 1]));
        assert forall|i: int| 0 <= i < prev.push(a).len() implies valid_token(
            #[trigger] prev.push(a)[i],
        ) by {
            if i < prev.len() {
                assert(prev.push(a)[i] == prev[i]);
            }
        }
    }
}

proof fn lemma_argument_valid(lines: Seq<Seq<char>>, p: int)
    requires
        p >= 0,
        all_valid(lines),
        argument_spec(lines, p) is Ok,
    ensures
        valid_token(argument_spec(lines, p)->Ok_0),
{
    assert(valid_token(lines[p + 1]));
}

/// Whatever the decoder yields can be encoded: its strings are valid tokens.
pub proof fn lemma_parsed_is_encodable(input: Seq<char>, now: u64)
    requires
        parse_spec(input, now) is Ok,
    ensures
        encodable(parse_spec(input, now)->Ok_0),
{
    let lines = frame_lines(input);
    lemma_strip_nul_clean(input);
    lemma_lines_valid(strip_nul(input), Seq::empty());
    let r = parse_lines_spec(lines, now);
    let v: int = if starts_with(lines[0], '*') { 2 } else { 1 };
    let p = v + 1;
    let c = r->Ok_0;
    match c {
        CommandModel::Replconf(args) => {
            let n: nat = if v == 2 {
                crate::text::parse_u64_spec(lines[0].drop_first())->0 as nat
            } else {
                1
            };
            lemma_args_valid(lines, p, (n - 1) as nat);
        },
        CommandModel::SetKey(_, _, _) => {
            lemma_argument_valid(lines, p);
            lemma_argument_valid(lines, p + 2);
        },
        CommandModel::Replicate(_) | CommandModel::AddSlave(_) => {
            lemma_argument_valid(lines, p + 2);
        },
        CommandModel::Echo(_) | CommandModel::Get(_) | CommandModel::Info(Some(_)) => {
            lemma_argument_valid(lines, p);
        },
        _ => {},
    }
}

/// Decoding a frame, encoding the command and decoding again gives the same
/// command, for every frame that decodes. A command with an expiry holds an
/// absolute time, which the wire carries as `PX`, a relative one: it comes
/// back unchanged when the second decoding happens at time zero.
pub proof fn lemma_parse_encode_parse(input: Seq<char>, now: u64, later: u64)
    requires
        parse_spec(input, now) is Ok,
        !has_expiry(parse_spec(input, now)->Ok_0) || later == 0,
    ensures
        parse_spec(encode(parse_spec(input, now)->Ok_0), later) == parse_spec(input, now),
{
    lemma_parsed_is_encodable(input, now);
    lemma_encode_then_parse(parse_spec(input, now)->Ok_0, later);
}

} // verus!
