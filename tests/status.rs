use rcon_client::command::status::{parse_player, ParseError, Status};

fn chars(s: &str) -> Vec<char> {
    s.chars().collect()
}

const BLOB: &str = "Server:  Running\n\
----- Status -----\n\
hostname : Test Server\n\
spawn    : 5\n\
version  : 1.0\n\
----- Map -----\n\
loaded spawngroup(  1)  : SV:  [1: de_nuke | main lump | mapload]\n\
loaded spawngroup(  5)  : SV:  [5: de_dust2 at: 0 x]\n\
---------players--------\n\
  id     time ping loss      state   rate adr name\n\
5 10:23 34 0 active 1.0.0.1:27005 3000 PlayerName\n\
7 01:02 12 1 spawning 9.9.9.9:1 2000 Other\n\
#end\n";

#[test]
fn map_name_follows_the_spawn_marker() {
    let mut st = Status::new();
    assert_eq!(st.update(BLOB.to_string()), Ok(()));
    assert_eq!(st.servername, "Test Server");
    assert_eq!(st.map, "de_dust2");
    assert_eq!(st.players.len(), 2);
    assert_eq!(st.players[1].name, "Other");
    assert_eq!(st.players[1].state, "spawning");
}

#[test]
fn player_row_with_address_and_rate() {
    let p = parse_player(&chars("5 10:23 34 0 active 1.0.0.1:27005 3000 PlayerName")).unwrap();
    assert_eq!(p.id, 5);
    assert_eq!(p.time, "10:23");
    assert_eq!(p.ping, 34);
    assert_eq!(p.loss, 0);
    assert_eq!(p.state, "active");
    assert_eq!(p.adr, "1.0.0.1:27005");
    assert_eq!(p.rate, 3000);
    assert_eq!(p.name, "PlayerName");
}

#[test]
fn player_row_with_one_middle_token_drops_its_first_char() {
    let p = parse_player(&chars("3 00:01 0 0 active [loopback] Bot")).unwrap();
    assert_eq!(p.adr, "loopback]");
    assert_eq!(p.rate, 0);
    assert_eq!(p.name, "Bot");
}

#[test]
fn player_row_without_address() {
    let p = parse_player(&chars("  65535\t1:00   2 3 active   Solo ")).unwrap();
    assert_eq!(p.id, 65535);
    assert_eq!(p.adr, "");
    assert_eq!(p.rate, 0);
    assert_eq!(p.name, "Solo");
}

#[test]
fn player_row_rejects_bad_numbers() {
    assert!(parse_player(&chars("x 10:23 34 0 active a 3000 P")).is_none());
    assert!(parse_player(&chars("65536 10:23 34 0 active a 3000 P")).is_none());
    assert!(parse_player(&chars("1 10:23 -4 0 active a 3000 P")).is_none());
    assert!(parse_player(&chars("1 10:23 4 0 active a 4294967296 P")).is_none());
    assert!(parse_player(&chars("1 10:23 4 0 active")).is_none());
    let p = parse_player(&chars("+1 10:23 4 0 active a 4294967295 P")).unwrap();
    assert_eq!(p.id, 1);
    assert_eq!(p.rate, 4294967295);
}

#[test]
fn malformed_reply_changes_nothing() {
    let mut st = Status::new();
    st.update(BLOB.to_string()).unwrap();
    let bad = "----\nhostname : Other\n-\n-\nheader\nnot a row\n#end\n";
    assert_eq!(st.update(bad.to_string()), Err(ParseError::Malformed));
    assert_eq!(st.servername, "Test Server");
    assert_eq!(st.players.len(), 2);
}

#[test]
fn players_are_replaced_on_each_update() {
    let mut st = Status::new();
    st.update(BLOB.to_string()).unwrap();
    st.update(BLOB.to_string()).unwrap();
    assert_eq!(st.players.len(), 2);
}

#[test]
fn reply_without_names_keeps_old_ones() {
    let mut st = Status::new();
    st.update(BLOB.to_string()).unwrap();
    assert_eq!(st.update("nothing here\n".to_string()), Ok(()));
    assert_eq!(st.servername, "Test Server");
    assert_eq!(st.map, "de_dust2");
    assert_eq!(st.players.len(), 0);
}

#[test]
fn hostname_without_colon_is_malformed() {
    let mut st = Status::new();
    assert_eq!(st.update("---\nhostname Test\n".to_string()), Err(ParseError::Malformed));
}

#[test]
fn hostname_keeps_text_after_first_colon() {
    let mut st = Status::new();
    assert_eq!(st.update("---\nhostname:  a:b  \n".to_string()), Ok(()));
    assert_eq!(st.servername, "a:b");
}
