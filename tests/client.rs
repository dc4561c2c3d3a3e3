use rcon_client::action::Action;
use rcon_client::client::{Client, ClientError, Effect, FileRun, DEFAULT_STATUS_RATE};
use rcon_client::command::status::ParseError;

fn connected_client() -> Client {
    let mut c = Client::new("1.2.3.4", "pw");
    assert_eq!(c.connect(), Ok(Effect::Open("1.2.3.4".to_string(), "pw".to_string())));
    assert_eq!(c.connect_result(Ok(())), Ok(()));
    assert_eq!(c.take_actions(), vec![Action::Connected(true)]);
    c
}

#[test]
fn ticks_probe_only_on_multiples_while_connected() {
    let mut c = Client::new("a", "b");
    for _ in 0..(2 * DEFAULT_STATUS_RATE) {
        assert!(!c.on_tick());
    }
    assert_eq!(c.ticks(), 40);
    let mut c = connected_client();
    let mut probes = Vec::new();
    for i in 1..=45usize {
        if c.on_tick() {
            probes.push(i);
        }
    }
    assert_eq!(probes, vec![20, 40]);
    assert_eq!(c.ticks(), 45);
}

#[test]
fn tick_action_asks_for_status_probe() {
    let mut c = connected_client();
    for _ in 1..20 {
        assert_eq!(c.async_update(Action::Tick), Effect::Nothing);
    }
    assert_eq!(c.async_update(Action::Tick), Effect::Probe("status".to_string()));
    assert_eq!(c.async_update(Action::Render), Effect::Nothing);
}

#[test]
fn connect_without_address_opens_nothing() {
    let mut c = Client::default();
    c.set_address("");
    c.set_password("x");
    assert_eq!(c.connect(), Err(ClientError::Auth("No address specified".to_string())));
    assert!(!c.is_connected());
    assert_eq!(
        c.send_command("status"),
        Err(ClientError::Auth("No address specified".to_string()))
    );
    assert_eq!(
        c.take_actions(),
        vec![
            Action::Error("No address specified".to_string()),
            Action::Error("No address specified".to_string())
        ]
    );
}

#[test]
fn connect_without_password_opens_nothing() {
    let mut c = Client::default();
    assert_eq!(
        c.run_command("connect 1.2.3.4"),
        Err(ClientError::Auth("No password specified".to_string()))
    );
    assert!(!c.is_connected());
    assert_eq!(
        c.send_command("users"),
        Err(ClientError::Auth("No password specified".to_string()))
    );
}

#[test]
fn send_without_connection_and_password() {
    let mut c = Client::new("1.2.3.4", "");
    assert_eq!(
        c.send_command("status"),
        Err(ClientError::Auth("No password specified".to_string()))
    );
    let mut c = Client::new("1.2.3.4", "pw");
    assert_eq!(c.send_command("status"), Err(ClientError::Transport("Not connected".to_string())));
    assert_eq!(c.take_actions(), vec![Action::Error("Not connected".to_string())]);
}

#[test]
fn reply_is_shown_and_returned() {
    let mut c = connected_client();
    assert_eq!(c.run_command("users"), Ok(Effect::Send("users".to_string())));
    assert_eq!(c.command_result(Ok("none".to_string())), Ok("none".to_string()));
    let e = ClientError::Transport("broken pipe".to_string());
    assert_eq!(c.command_result(Err(e.clone_for_test())), Err(e));
    assert_eq!(
        c.take_actions(),
        vec![Action::Insert("none".to_string()), Action::Error("broken pipe".to_string())]
    );
}

trait CloneForTest {
    fn clone_for_test(&self) -> Self;
}

impl CloneForTest for ClientError {
    fn clone_for_test(&self) -> Self {
        match self {
            ClientError::Auth(m) => ClientError::Auth(m.clone()),
            ClientError::Transport(m) => ClientError::Transport(m.clone()),
        }
    }
}

#[test]
fn failed_connect_is_reported() {
    let mut c = Client::new("1.2.3.4", "pw");
    let r = c.connect_result(Err(ClientError::Auth("authentication failed".to_string())));
    assert!(r.is_err());
    assert!(!c.is_connected());
    assert_eq!(
        c.take_actions(),
        vec![Action::Error("Failed to connect: authentication failed".to_string())]
    );
}

#[test]
fn failed_probe_disconnects_once() {
    let mut c = connected_client();
    assert_eq!(c.probe_result(None), Ok(()));
    assert!(!c.is_connected());
    assert_eq!(c.take_actions(), vec![Action::Connected(false)]);
    for _ in 0..40 {
        assert_eq!(c.async_update(Action::Tick), Effect::Nothing);
    }
    assert_eq!(c.take_actions(), vec![]);
}

#[test]
fn probe_reply_updates_status() {
    let mut c = connected_client();
    let blob = "---\nhostname: Box\n---\n---\nhdr\n1 0:01 5 0 active Me\n#end\n";
    assert_eq!(c.probe_result(Some(blob.to_string())), Ok(()));
    assert_eq!(c.status().servername, "Box");
    assert_eq!(c.status().players[0].name, "Me");
    assert_eq!(c.probe_result(Some("---\n---\n---\nh\nbad\n".to_string())), Err(ParseError::Malformed));
    assert!(c.is_connected());
}

#[test]
fn local_commands() {
    let mut c = connected_client();
    assert_eq!(c.run_command("exec server"), Ok(Effect::ReadFile("cfg/server.cfg".to_string())));
    assert_eq!(c.run_command("connect a b c"), Ok(Effect::Nothing));
    assert_eq!(c.run_command("disconnect"), Ok(Effect::Close));
    assert!(!c.is_connected());
    assert_eq!(
        c.take_actions(),
        vec![Action::Error("Too many arguments".to_string()), Action::Connected(false)]
    );
    assert_eq!(c.async_update(Action::Command("disconnect".to_string())), Effect::Close);
}

#[test]
fn file_run_stops_at_first_failure() {
    let mut run = FileRun::new("one\ntwo\nthree");
    let mut sent = Vec::new();
    while let Some(line) = run.next_line() {
        sent.push(line.clone());
        if line == "two" {
            run.record(Err(ClientError::Transport("lost".to_string())));
        } else {
            run.record(Ok(format!("ok {}", line)));
        }
    }
    assert_eq!(sent, vec!["one".to_string(), "two".to_string()]);
    assert_eq!(run.finish(), Err(ClientError::Transport("lost".to_string())));
}

#[test]
fn file_run_collects_every_reply() {
    let mut run = FileRun::new("a\nb\n");
    let mut sent = Vec::new();
    while let Some(line) = run.next_line() {
        sent.push(line.clone());
        run.record(Ok(line.to_uppercase()));
    }
    assert_eq!(sent, vec!["a".to_string(), "b".to_string(), String::new()]);
    assert_eq!(run.finish(), Ok(vec!["A".to_string(), "B".to_string(), String::new()]));
}
