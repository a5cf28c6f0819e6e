use sylk_bot::utils::chatbridge::{setup_error, Mcd, McdConf, McdSetupFailure, Server, Servers};
use sylk_bot::utils::error::ConnectionError;
use sylk_bot::utils::mc::bridge::Bridge;
use sylk_bot::utils::mc::taurus::{parse_chat_frame, Taurus};

fn server(name: &str, channel: u64) -> Server {
    Server { name: name.to_string(), channel }
}

#[test]
fn connection_error_carries_its_reason() {
    let e = ConnectionError::from("no link");
    assert_eq!(format!("{:?}", e), "ConnectionError { reason: \"no link\" }");
}

#[test]
fn each_setup_failure_has_its_message() {
    let cases = [
        (McdSetupFailure::ConfigMissing, "Failed to find config.toml from mc-docker"),
        (McdSetupFailure::ConfigUnparsable, "Failed to parse mc-docker toml file"),
        (McdSetupFailure::ServersMissing, "Failed to find servers.json file"),
        (McdSetupFailure::ServersUnparsable, "Failed to parse servers.json file"),
    ];
    for (f, msg) in cases {
        assert_eq!(format!("{:?}", setup_error(f)), format!("ConnectionError {{ reason: {:?} }}", msg));
    }
}

#[test]
fn taurus_connects_to_the_local_socket() {
    let t = Taurus::new().expect("Taurus::new never fails");
    assert_eq!(t.address(), "ws://127.0.0.1:7500");
    assert_eq!(t.password(), "");
    assert_eq!(t.message_frames("hi".to_string()), vec!["".to_string(), "hi".to_string()]);
    assert_eq!(t.subscribe_frames(), vec!["".to_string(), "PING".to_string()]);
}

#[test]
fn chat_lines_are_read_after_the_tag() {
    assert_eq!(parse_chat_frame("MSG hello there"), Some("hello there".to_string()));
    assert_eq!(parse_chat_frame("MSG "), Some(String::new()));
    assert_eq!(parse_chat_frame("MSG:é!"), Some("é!".to_string()));
    assert_eq!(parse_chat_frame("PNG pong"), None);
    assert_eq!(parse_chat_frame("msg lower"), None);
    assert_eq!(parse_chat_frame("abc"), None);
}

#[test]
fn bridge_knows_its_channel() {
    let b = Bridge::taurus(77).expect("a Taurus bridge is always made");
    assert_eq!(b.channel, 77);
    assert_eq!(b.channel(), 77);
    assert!(b.is_channel(77));
    assert!(!b.is_channel(78));
    assert_eq!(b.interface().address(), "ws://127.0.0.1:7500");
}

#[test]
fn exec_request_names_the_server_and_lists_the_command() {
    let mcd = Mcd::assemble(
        McdConf { ws_port: 8080 },
        Servers { servers: vec![server("survival", 1), server("creative", 2)] },
    );
    let cmd = vec!["a".to_string(), "b".to_string(), "c".to_string()];
    let (url, body) = mcd.exec_request(&"creative".to_string(), &cmd);
    assert_eq!(url, "https://localhost:8080/exec/creative");
    assert_eq!(body, r#"{"args":["a","b","c"]}"#);
    let (_, one) = mcd.exec_request(&"survival".to_string(), &vec!["stop".to_string()]);
    assert_eq!(one, "{\"args\":[\"stop\"]}");
}

#[test]
fn exec_request_for_say_hi() {
    let mcd = Mcd::assemble(
        McdConf { ws_port: 8080 },
        Servers { servers: vec![server("s1", 1)] },
    );
    let (url, body) = mcd.exec_request(&"s1".to_string(), &vec!["say".to_string(), "hi".to_string()]);
    assert_eq!(url, "https://localhost:8080/exec/s1");
    assert_eq!(body, r#"{"args":["say","hi"]}"#);
    assert!(mcd.has_server(&"s1".to_string()));
    assert!(!mcd.has_server(&"s2".to_string()));
}

#[test]
fn of_two_servers_with_one_name_the_later_is_kept() {
    let mcd = Mcd::assemble(
        McdConf { ws_port: 1 },
        Servers { servers: vec![server("s", 1), server("t", 2), server("s", 3)] },
    );
    let (url, _) = mcd.exec_request(&"s".to_string(), &vec!["x".to_string()]);
    assert_eq!(url, "https://localhost:1/exec/s");
}

#[test]
fn tellraw_tags_the_message_with_the_server() {
    let cmd = Mcd::tellraw_command("survival", "hello");
    assert_eq!(cmd.len(), 3);
    assert_eq!(cmd[0], "tellraw");
    assert_eq!(cmd[1], "@a");
    assert_eq!(cmd[2], r#"{\"text\":\"[survival] hello\"}"#);
}
