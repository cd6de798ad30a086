use redis_lite::base::RedisServer;
use redis_lite::command::RedisCommand;
use redis_lite::handshake::{parse_port, Handshake, HandshakeAction, HandshakeEvent, HandshakeState};
use redis_lite::master::Master;
use redis_lite::slave::Slave;

const SET_FOO_BAR: &str = "*3\r\n$3\r\nSET\r\n$3\r\nfoo\r\n$3\r\nbar\r\n";
const GET_FOO: &str = "*2\r\n$3\r\nGET\r\n$3\r\nfoo\r\n";

#[test]
fn ping_gets_pong() {
    let mut m = Master::new("127.0.0.1", "6379");
    assert_eq!(m.handle_request("*1\r\n$4\r\nPING\r\n", 0).response.message, "$4\r\nPONG\r\n");
    let mut s = Slave::new("127.0.0.1", "6380", "127.0.0.1", "6379");
    assert_eq!(s.handle_request("*1\r\n$4\r\nPING\r\n", 0).message, "$4\r\nPONG\r\n");
}

#[test]
fn set_then_get_on_master() {
    let mut m = Master::new("127.0.0.1", "6379");
    assert_eq!(m.handle_request(SET_FOO_BAR, 0).response.message, "$2\r\nOK\r\n");
    assert_eq!(m.handle_request(GET_FOO, 0).response.message, "$3\r\nbar\r\n");
}

#[test]
fn get_of_never_set_key_is_null() {
    let mut m = Master::new("127.0.0.1", "6379");
    assert_eq!(m.handle_request("*2\r\n$3\r\nGET\r\n$4\r\nnope\r\n", 0).response.message, "$-1\r\n");
}

#[test]
fn set_with_px_expires() {
    let mut m = Master::new("127.0.0.1", "6379");
    let set = "*5\r\n$3\r\nSET\r\n$3\r\nfoo\r\n$3\r\nbar\r\n$2\r\nPX\r\n$2\r\n10\r\n";
    let t0: u64 = 1_000_000;
    m.handle_request(set, t0);
    assert_eq!(m.handle_request(GET_FOO, t0).response.message, "$3\r\nbar\r\n");
    assert_eq!(m.handle_request(GET_FOO, t0 + 50).response.message, "$-1\r\n");
}

#[test]
fn echo_and_info() {
    let mut m = Master::new("127.0.0.1", "6379");
    assert_eq!(m.handle_request("*2\r\n$4\r\nECHO\r\n$2\r\nhi\r\n", 0).response.message, "$2\r\nhi\r\n");
    let info = m.handle_request("*2\r\n$4\r\nINFO\r\n$11\r\nreplication\r\n", 0).response.message;
    assert!(info.contains("role:master\r\nmaster_host:\r\nmaster_port:\r\nmaster_replid:"));
    assert!(info.ends_with("master_repl_offset:0\r\n"));
    assert_eq!(
        m.handle_request("*2\r\n$4\r\nINFO\r\n$6\r\nserver\r\n", 0).response.message,
        "-Unsupported INFO section\r\n"
    );
    assert_eq!(m.handle_request("*1\r\n$4\r\nINFO\r\n", 0).response.message, "-Unsupported INFO section\r\n");
}

#[test]
fn replication_id_is_forty_alphanumerics() {
    let m = Master::new("h", "1");
    let id = &m.base.info.master_replid;
    assert_eq!(id.chars().count(), 40);
    assert!(id.chars().all(|c| c.is_ascii_alphanumeric()));
    let other = Master::new("h", "1");
    assert_ne!(id, &other.base.info.master_replid);
}

#[test]
fn bad_frame_gets_error_and_changes_nothing() {
    let mut m = Master::new("127.0.0.1", "6379");
    m.add_slave("r:1".to_string());
    let reply = m.handle_request("*1\r\n$4\r\nNOPE\r\n", 0);
    assert_eq!(reply.response.message, "-Unknown Redis command\r\n");
    assert!(reply.forwards.is_empty());
}

#[test]
fn master_forwards_writes_in_order_to_every_replica() {
    let mut m = Master::new("127.0.0.1", "6379");
    let add = "*3\r\n$8\r\nADDSLAVE\r\n$8\r\naddslave\r\n$6\r\nr1:100\r\n";
    assert_eq!(m.handle_request(add, 0).response.message, "$2\r\nOK\r\n");
    m.add_slave("r2:200".to_string());
    let first = m.handle_request(SET_FOO_BAR, 0);
    assert_eq!(first.forwards.len(), 2);
    assert_eq!(first.forwards[0].address, "r1:100");
    assert_eq!(first.forwards[1].address, "r2:200");
    assert_eq!(first.forwards[0].frame, SET_FOO_BAR);
    assert_eq!(first.forwards[1].frame, SET_FOO_BAR);
    let read = m.handle_request(GET_FOO, 0);
    assert!(read.forwards.is_empty());
}

#[test]
fn replicate_command_fans_out_its_payload() {
    let mut m = Master::new("127.0.0.1", "6379");
    m.add_slave("r1:100".to_string());
    let frame = "*3\r\n$9\r\nREPLICATE\r\n$9\r\nreplicate\r\n$7\r\npayload\r\n";
    let reply = m.handle_request(frame, 0);
    assert_eq!(reply.response.message, "$2\r\nOK\r\n");
    assert_eq!(reply.forwards.len(), 1);
    assert_eq!(reply.forwards[0].address, "r1:100");
    assert_eq!(reply.forwards[0].frame, "payload");
}

#[test]
fn master_acknowledges_replconf() {
    let mut m = Master::new("127.0.0.1", "6379");
    let frame = RedisCommand::Replconf(vec!["capa".to_string(), "psync2".to_string()]).to_resp2();
    assert_eq!(m.handle_request(&frame, 0).response.message, "+OK\r\n");
}

#[test]
fn write_reaches_replica() {
    let mut m = Master::new("127.0.0.1", "6379");
    let mut s = Slave::new("127.0.0.1", "6380", "127.0.0.1", "6379");
    m.add_slave("127.0.0.1:6380".to_string());
    let set = "*3\r\n$3\r\nSET\r\n$1\r\nk\r\n$1\r\nv\r\n";
    let reply = m.handle_request(set, 0);
    assert_eq!(reply.forwards.len(), 1);
    assert_eq!(reply.forwards[0].address, "127.0.0.1:6380");
    assert_eq!(s.apply_replicated(&reply.forwards[0].frame, 0).message, "$2\r\nOK\r\n");
    assert_eq!(s.handle_request("*2\r\n$3\r\nGET\r\n$1\r\nk\r\n", 0).message, "$1\r\nv\r\n");
}

#[test]
fn replica_feed_applies_only_writes() {
    let mut s = Slave::new("127.0.0.1", "6380", "127.0.0.1", "6379");
    assert_eq!(s.apply_replicated(GET_FOO, 0).message, "-Only writes are replicated\r\n");
    assert_eq!(s.apply_replicated("garbage", 0).message, "-Invalid protocol format\r\n");
}

#[test]
fn replica_refuses_admin_and_replconf_from_clients() {
    let mut s = Slave::new("127.0.0.1", "6380", "127.0.0.1", "6379");
    let replicate = format!("*3\r\n$9\r\nREPLICATE\r\n$9\r\nreplicate\r\n${}\r\n{}\r\n", 3, "abc");
    assert_eq!(s.handle_request(&replicate, 0).message, "-Replication command not supported on slave\r\n");
    let add = "*3\r\n$8\r\nADDSLAVE\r\n$8\r\naddslave\r\n$6\r\nr1:100\r\n";
    assert_eq!(s.handle_request(add, 0).message, "-AddSlave command not supported on slave\r\n");
    let replconf = "*3\r\n$8\r\nREPLCONF\r\n$4\r\ncapa\r\n$6\r\npsync2\r\n";
    assert_eq!(s.handle_request(replconf, 0).message, "-REPLCONF command not supported on slave\r\n");
    assert_eq!(s.handle_request(GET_FOO, 0).message, "$-1\r\n");
}

#[test]
fn replica_info_names_its_master() {
    let mut s = Slave::new("127.0.0.1", "6380", "10.0.0.1", "6379");
    let info = s.handle_request("*2\r\n$4\r\nINFO\r\n$11\r\nreplication\r\n", 0).message;
    assert!(info.contains("role:slave\r\nmaster_host:10.0.0.1\r\nmaster_port:6379\r\n"));
    assert_eq!(s.base.address, "127.0.0.1:6380");
}

fn sent(a: &HandshakeAction) -> String {
    match a {
        HandshakeAction::Send(f) => f.clone(),
        other => panic!("expected a frame, got {:?}", other),
    }
}

#[test]
fn handshake_reaches_synced() {
    let mut h = Handshake::new("127.0.0.1", "6379", 6380);
    match h.start() {
        HandshakeAction::Connect(a) => assert_eq!(a, "127.0.0.1:6379"),
        other => panic!("unexpected {:?}", other),
    }
    let a = h.step(HandshakeEvent::Connected);
    assert_eq!(h.state, HandshakeState::Connected);
    assert_eq!(sent(&a), "*1\r\n$4\r\nPING\r\n");
    assert!(matches!(h.step(HandshakeEvent::Sent), HandshakeAction::AwaitReply));
    assert_eq!(h.state, HandshakeState::AwaitingPong);
    let a = h.step(HandshakeEvent::Reply("$4\r\nPONG\r\n".to_string()));
    assert_eq!(h.state, HandshakeState::NegotiatingPort);
    assert_eq!(sent(&a), "*3\r\n$8\r\nREPLCONF\r\n$14\r\nlistening-port\r\n$4\r\n6380\r\n");
    assert!(matches!(h.step(HandshakeEvent::Sent), HandshakeAction::AwaitReply));
    let a = h.step(HandshakeEvent::Reply("+OK\r\n".to_string()));
    assert_eq!(h.state, HandshakeState::NegotiatingCapa);
    assert_eq!(sent(&a), "*3\r\n$8\r\nREPLCONF\r\n$4\r\ncapa\r\n$6\r\npsync2\r\n");
    assert!(matches!(h.step(HandshakeEvent::Sent), HandshakeAction::AwaitReply));
    assert!(matches!(h.step(HandshakeEvent::Reply("+OK\r\n".to_string())), HandshakeAction::Done));
    assert_eq!(h.state, HandshakeState::Synced);
}

#[test]
fn handshake_fails_on_unexpected_reply_or_loss() {
    let mut h = Handshake::new("m", "1", 2);
    h.step(HandshakeEvent::Connected);
    h.step(HandshakeEvent::Sent);
    assert!(matches!(h.step(HandshakeEvent::Reply("$4\r\nPING\r\n".to_string())), HandshakeAction::Abort));
    assert_eq!(h.state, HandshakeState::Failed);

    let mut h = Handshake::new("m", "1", 2);
    h.step(HandshakeEvent::Connected);
    h.step(HandshakeEvent::Sent);
    h.step(HandshakeEvent::Reply("$4\r\nPONG\r\n".to_string()));
    h.step(HandshakeEvent::Sent);
    assert!(matches!(h.step(HandshakeEvent::Reply("-ERR\r\n".to_string())), HandshakeAction::Abort));
    assert_eq!(h.state, HandshakeState::Failed);

    let mut h = Handshake::new("m", "1", 2);
    h.step(HandshakeEvent::Connected);
    assert!(matches!(h.step(HandshakeEvent::Lost), HandshakeAction::Abort));
    assert_eq!(h.state, HandshakeState::Failed);

    let mut h = Handshake::new("m", "1", 2);
    assert!(matches!(h.step(HandshakeEvent::Sent), HandshakeAction::Abort));
}

#[test]
fn ports() {
    assert_eq!(parse_port("6379"), Some(6379));
    assert_eq!(parse_port("+80"), Some(80));
    assert_eq!(parse_port("65536"), None);
    assert_eq!(parse_port("x"), None);
    assert_eq!(parse_port(""), None);
}

#[test]
fn roles_of_nodes() {
    assert!(!Master::new("h", "1").base.is_slave());
    assert!(Slave::new("h", "2", "h", "1").base.is_slave());
    let s = Slave::new("h", "2", "10.0.0.1", "1");
    assert!(s.is_master_peer("10.0.0.1"));
    assert!(!s.is_master_peer("10.0.0.2"));
}

fn ping<S: RedisServer>(node: &mut S) -> String {
    node.handle_command(RedisCommand::Ping, 0).response.message
}

#[test]
fn both_roles_serve_through_one_interface() {
    let mut m = Master::new("h", "1");
    let mut s = Slave::new("h", "2", "h", "1");
    assert_eq!(ping(&mut m), "$4\r\nPONG\r\n");
    assert_eq!(ping(&mut s), "$4\r\nPONG\r\n");
    let add = RedisCommand::Admin(redis_lite::command::AdminCommand::AddSlave("r:1".to_string()));
    assert_eq!(m.handle_command(add.clone(), 0).response.message, "$2\r\nOK\r\n");
    assert_eq!(m.slaves, vec!["r:1".to_string()]);
    assert_eq!(s.handle_command(add, 0).response.message, "-AddSlave command not supported on slave\r\n");
}
