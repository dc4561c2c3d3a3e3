use rcon_client::command::autocompleter::AutoCompleter;
use rcon_client::command::history::History;
use rcon_client::command::Command;

fn completer() -> AutoCompleter {
    let mut a = AutoCompleter::new();
    a.add_command(Command::new("status", "server status", Vec::new()));
    a.add_command(Command::new("say", "send chat", vec!["text".to_string()]));
    a.add_command(Command::new("sv_cheats", "cheats", Vec::new()));
    a.add_command(Command::new("stats", "stats", Vec::new()));
    a
}

#[test]
fn suggestions_in_order_up_to_count() {
    let a = completer();
    assert_eq!(a.get_suggestions("s", 10), vec!["status", "say", "sv_cheats", "stats"]);
    assert_eq!(a.get_suggestions("st", 1), vec!["status"]);
    assert_eq!(a.get_suggestions("s", 0), Vec::<String>::new());
    assert_eq!(a.get_suggestions("x", 3), Vec::<String>::new());
}

#[test]
fn single_suggestion() {
    let a = completer();
    assert_eq!(a.get_suggestion("sv", None), Some("sv_cheats".to_string()));
    assert_eq!(a.get_suggestion("sta", Some("status")), Some("status".to_string()));
    assert_eq!(a.get_suggestion("q", None), None);
}

#[test]
fn command_lookup_by_exact_name() {
    let a = completer();
    let c = a.get_command("say").unwrap();
    assert_eq!(c.description, "send chat");
    assert_eq!(c.flags, vec!["text".to_string()]);
    assert!(a.get_command("sa").is_none());
}

#[test]
fn command_file_lines() {
    let c = Command::parse_line("kick$Kick a player$ name reason ").unwrap();
    assert_eq!(c.name, "kick");
    assert_eq!(c.description, "Kick a player");
    assert_eq!(c.flags, vec!["name".to_string(), "reason".to_string()]);
    let c = Command::parse_line("quit$Stop the server").unwrap();
    assert!(c.flags.is_empty());
    assert!(Command::parse_line("nodollar").is_none());
}

#[test]
fn history_steps() {
    let mut h = History::new();
    assert_eq!(h.forwards(), None);
    h.push("a".to_string());
    h.push("b".to_string());
    assert_eq!(h.get(0), Some("a".to_string()));
    assert_eq!(h.get(2), None);
    assert_eq!(h.backwards(), None);
    assert_eq!(h.forwards(), Some("b".to_string()));
    assert_eq!(h.forwards(), Some("a".to_string()));
    assert_eq!(h.forwards(), None);
    assert_eq!(h.backwards(), Some("b".to_string()));
}
