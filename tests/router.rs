use rcon_client::router::{route, Request};

#[test]
fn connect_with_address_only() {
    assert_eq!(route("connect 1.2.3.4"), Request::Connect("1.2.3.4".to_string(), String::new()));
}

#[test]
fn connect_with_password() {
    assert_eq!(
        route("connect 1.2.3.4:27015 pw"),
        Request::Connect("1.2.3.4:27015".to_string(), "pw".to_string())
    );
}

#[test]
fn connect_arity_errors() {
    assert_eq!(route("connect"), Request::Invalid("Not enough arguments".to_string()));
    assert_eq!(route("connect a b c"), Request::Invalid("Too many arguments".to_string()));
}

#[test]
fn disconnect_ignores_arguments() {
    assert_eq!(route("disconnect"), Request::Disconnect);
    assert_eq!(route("disconnect now please"), Request::Disconnect);
}

#[test]
fn exec_rules() {
    assert_eq!(route("exec server"), Request::Exec("server".to_string()));
    assert_eq!(route("exec"), Request::Invalid("Not enough arguments".to_string()));
    assert_eq!(route("exec a b"), Request::PassThrough("exec a b".to_string()));
}

#[test]
fn other_text_passes_through() {
    assert_eq!(route("say hello"), Request::PassThrough("say hello".to_string()));
    assert_eq!(route(""), Request::PassThrough(String::new()));
    assert_eq!(route("connected x"), Request::PassThrough("connected x".to_string()));
}
