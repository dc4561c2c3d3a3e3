//! Reading the reply to the `status` probe into server and player state.
use crate::text::{
    after_first, after_first_chars, chars_of, contains, contains_chars, first_word,
    first_word_chars, has_prefix, lemma_words_items_nonempty, copy_range, lemma_split_on_nonempty, parse_unsigned, parse_unsigned_chars,
    split_chars, split_on, starts_with_str, string_of, trim, trim_chars, views, words,
    words_chars,
};
use vstd::prelude::*;

verus! {

/// One row of the player table.
pub struct Player {
    pub id: u16,
    pub time: String,
    pub ping: u16,
    pub loss: u16,
    pub state: String,
    pub rate: u32,
    pub adr: String,
    pub name: String,
}

/// What a `Player` holds, as plain values.
pub struct PlayerModel {
    pub id: u16,
    pub time: Seq<char>,
    pub ping: u16,
    pub loss: u16,
    pub state: Seq<char>,
    pub rate: u32,
    pub adr: Seq<char>,
    pub name: Seq<char>,
}

impl View for Player {
    type V = PlayerModel;

    open spec fn view(&self) -> PlayerModel {
        PlayerModel {
            id: self.id,
            time: self.time@,
            ping: self.ping,
            loss: self.loss,
            state: self.state@,
            rate: self.rate,
            adr: self.adr@,
            name: self.name@,
        }
    }
}

/// The server's state as last read from a status reply.
pub struct Status {
    pub servername: String,
    pub map: String,
    pub players: Vec<Player>,
}

pub struct StatusModel {
    pub servername: Seq<char>,
    pub map: Seq<char>,
    pub players: Seq<PlayerModel>,
}

pub open spec fn player_models(v: Seq<Player>) -> Seq<PlayerModel> {
    v.map_values(|p: Player| p@)
}

impl View for Status {
    type V = StatusModel;

    open spec fn view(&self) -> StatusModel {
        StatusModel {
            servername: self.servername@,
            map: self.map@,
            players: player_models(self.players@),
        }
    }
}

/// A status reply that does not have the expected layout.
#[derive(Debug, Clone, Copy, PartialEq, Eq, Structural)]
pub enum ParseError {
    Malformed,
}

/// Where the reader stands in the reply.
#[derive(Debug, Clone, Copy, PartialEq, Eq, Structural)]
pub enum ParsingMode {
    Seeking,
    ServerInfo,
    MapInfo,
    Header,
    PlayerList,
}

/// The reader's state between two lines.
pub struct ParseModel {
    pub mode: ParsingMode,
    pub spawn: Seq<char>,
    pub servername: Seq<char>,
    pub map: Seq<char>,
    pub players: Seq<PlayerModel>,
}

/// One player row: id, connect time, ping, loss and state first; the name last; between
/// them an address and a rate, or an address behind one character, or nothing.
pub open spec fn parse_row(line: Seq<char>) -> Option<PlayerModel> {
    let t = words(line);
    if t.len() < 6 {
        None
    } else {
        let id = parse_unsigned(t[0], 0xffff);
        let ping = parse_unsigned(t[2], 0xffff);
        let loss = parse_unsigned(t[3], 0xffff);
        let mid = t.subrange(5, t.len() - 1);
        let adr = if mid.len() == 2 {
            mid[0]
        } else if mid.len() == 1 {
            mid[0].drop_first()
        } else {
            Seq::<char>::empty()
        };
        let rate = if mid.len() == 2 {
            parse_unsigned(mid[1], 0xffff_ffff)
        } else {
            Some(0)
        };
        if id is Some && ping is Some && loss is Some && rate is Some {
            Some(
                PlayerModel {
                    id: id->0 as u16,
                    time: t[1],
                    ping: ping->0 as u16,
                    loss: loss->0 as u16,
                    state: t[4],
                    rate: rate->0 as u32,
                    adr,
                    name: t.last(),
                },
            )
        } else {
            None
        }
    }
}

/// The reader's move on one line; `None` where the line breaks the layout.
pub open spec fn step(p: ParseModel, line: Seq<char>) -> Option<ParseModel> {
    match p.mode {
        ParsingMode::Seeking => {
            if has_prefix(line, "-"@) {
                Some(ParseModel { mode: ParsingMode::ServerInfo, ..p })
            } else {
                Some(p)
            }
        },
        ParsingMode::ServerInfo => {
            if has_prefix(line, "hostname"@) {
                match after_first(line, ':') {
                    Some(rest) => Some(ParseModel { servername: trim(rest), ..p }),
                    None => None,
                }
            } else if has_prefix(line, "spawn"@) {
                match after_first(line, ':') {
                    Some(rest) => Some(ParseModel { spawn: seq!['['] + trim(rest), ..p }),
                    None => None,
                }
            } else if has_prefix(line, "-"@) {
                Some(ParseModel { mode: ParsingMode::MapInfo, ..p })
            } else {
                Some(p)
            }
        },
        ParsingMode::MapInfo => {
            if contains(line, p.spawn) {
                let f = split_on(line, ':');
                if f.len() >= 4 {
                    Some(ParseModel { map: first_word(trim(f[3])), ..p })
                } else {
                    None
                }
            } else if has_prefix(line, "-"@) {
                Some(ParseModel { mode: ParsingMode::Header, ..p })
            } else {
                Some(p)
            }
        },
        ParsingMode::Header => Some(ParseModel { mode: ParsingMode::PlayerList, ..p }),
        ParsingMode::PlayerList => {
            if has_prefix(line, "#end"@) {
                Some(ParseModel { mode: ParsingMode::Seeking, ..p })
            } else {
                match parse_row(line) {
                    Some(pl) => Some(ParseModel { players: p.players.push(pl), ..p }),
                    None => None,
                }
            }
        },
    }
}

/// The reader's state after the given lines, top to bottom.
pub open spec fn run(p: ParseModel, lines: Seq<Seq<char>>) -> Option<ParseModel>
    decreases lines.len(),
{
    if lines.len() == 0 {
        Some(p)
    } else {
        match run(p, lines.drop_last()) {
            Some(q) => step(q, lines.last()),
            None => None,
        }
    }
}

/// The state before the first line: the names are kept, the player list starts empty.
pub open spec fn start(s: StatusModel) -> ParseModel {
    ParseModel {
        mode: ParsingMode::Seeking,
        spawn: "[0"@,
        servername: s.servername,
        map: s.map,
        players: Seq::<PlayerModel>::empty(),
    }
}

/// The state that a status reply `text` leaves, or `None` if it is malformed.
pub open spec fn updated(s: StatusModel, text: Seq<char>) -> Option<StatusModel> {
    match run(start(s), split_on(text, '\n')) {
        Some(q) => Some(StatusModel { servername: q.servername, map: q.map, players: q.players }),
        None => None,
    }
}


proof fn lemma_run_failed(p: ParseModel, lines: Seq<Seq<char>>, k: int)
    requires
        0 <= k <= lines.len(),
        run(p, lines.subrange(0, k)) is None,
    ensures
        run(p, lines) is None,
    decreases lines.len() - k,
{
    if k < lines.len() {
        assert(lines.subrange(0, k + 1).drop_last() =~= lines.subrange(0, k));
        lemma_run_failed(p, lines, k + 1);
    } else {
        assert(lines.subrange(0, k) =~= lines);
    }
}

/// Reads one player row.
pub fn parse_player(line: &[char]) -> (r: Option<Player>)
    ensures
        match r {
            Some(pl) => parse_row(line@) == Some(pl@),
            None => parse_row(line@) is None,
        },
{
    let t = words_chars(line);
    proof {
        lemma_words_items_nonempty(line@);
    }
    let n = t.len();
    if n < 6 {
        return None;
    }
    assert(views(t@)[0] == t@[0]@);
    assert(views(t@)[2] == t@[2]@);
    assert(views(t@)[3] == t@[3]@);
    let id = parse_unsigned_chars(t[0].as_slice(), 0xffff);
    let ping = parse_unsigned_chars(t[2].as_slice(), 0xffff);
    let loss = parse_unsigned_chars(t[3].as_slice(), 0xffff);
    let ghost mid = words(line@).subrange(5, n - 1);
    let mut adr: Vec<char> = Vec::new();
    let mut rate: Option<u32> = Some(0);
    if n == 8 {
        assert(mid[0] == t@[5]@ && mid[1] == t@[6]@);
        adr = copy_range(t[5].as_slice(), 0, t[5].len());
        rate = parse_unsigned_chars(t[6].as_slice(), 0xffff_ffff);
    } else if n == 7 {
        assert(mid[0] == t@[5]@);
        assert(t@[5]@.len() > 0);
        adr = copy_range(t[5].as_slice(), 1, t[5].len());
    }
    assert(adr@ =~= (if mid.len() == 2 {
        mid[0]
    } else if mid.len() == 1 {
        mid[0].drop_first()
    } else {
        Seq::<char>::empty()
    }));
    match (id, ping, loss, rate) {
        (Some(id), Some(ping), Some(loss), Some(rate)) => {
            assert(views(t@)[1] == t@[1]@);
            assert(views(t@)[4] == t@[4]@);
            assert(views(t@)[n - 1] == t@[n - 1]@);
            Some(
                Player {
                    id: id as u16,
                    time: string_of(t[1].as_slice()),
                    ping: ping as u16,
                    loss: loss as u16,
                    state: string_of(t[4].as_slice()),
                    rate,
                    adr: string_of(adr.as_slice()),
                    name: string_of(t[n - 1].as_slice()),
                },
            )
        },
        _ => None,
    }
}

/// The reader's state, held in executable form.
struct Reader {
    mode: ParsingMode,
    spawn: Vec<char>,
    servername: Vec<char>,
    map: Vec<char>,
    players: Vec<Player>,
}

impl Reader {
    spec fn model(&self) -> ParseModel {
        ParseModel {
            mode: self.mode,
            spawn: self.spawn@,
            servername: self.servername@,
            map: self.map@,
            players: player_models(self.players@),
        }
    }

    /// Takes one line; `false` where it breaks the layout, and the state is then spent.
    fn read_line(&mut self, line: &[char]) -> (ok: bool)
        ensures
            ok ==> step(old(self).model(), line@) == Some(final(self).model()),
            !ok ==> step(old(self).model(), line@) is None,
    {
        match self.mode {
            ParsingMode::Seeking => {
                if starts_with_str(line, "-") {
                    self.mode = ParsingMode::ServerInfo;
                }
                true
            },
            ParsingMode::ServerInfo => {
                if starts_with_str(line, "hostname") {
                    match after_first_chars(line, ':') {
                        Some(rest) => {
                            self.servername = trim_chars(rest.as_slice());
                            true
                        },
                        None => false,
                    }
                } else if starts_with_str(line, "spawn") {
                    match after_first_chars(line, ':') {
                        Some(rest) => {
                            let mut t = trim_chars(rest.as_slice());
                            let mut m: Vec<char> = Vec::new();
                            m.push('[');
                            m.append(&mut t);
                            assert(m@ =~= seq!['['] + trim(rest@));
                            self.spawn = m;
                            true
                        },
                        None => false,
                    }
                } else {
                    if starts_with_str(line, "-") {
                        self.mode = ParsingMode::MapInfo;
                    }
                    true
                }
            },
            ParsingMode::MapInfo => {
                if contains_chars(line, self.spawn.as_slice()) {
                    let f = split_chars(line, ':');
                    if f.len() >= 4 {
                        assert(views(f@)[3] == f@[3]@);
                        let t = trim_chars(f[3].as_slice());
                        self.map = first_word_chars(t.as_slice());
                        true
                    } else {
                        false
                    }
                } else {
                    if starts_with_str(line, "-") {
                        self.mode = ParsingMode::Header;
                    }
                    true
                }
            },
            ParsingMode::Header => {
                self.mode = ParsingMode::PlayerList;
                true
            },
            ParsingMode::PlayerList => {
                if starts_with_str(line, "#end") {
                    self.mode = ParsingMode::Seeking;
                    true
                } else {
                    match parse_player(line) {
                        Some(pl) => {
                            let ghost before = self.players@;
                            self.players.push(pl);
                            assert(player_models(self.players@) =~= player_models(before).push(
                                pl@,
                            ));
                            true
                        },
                        None => false,
                    }
                }
            },
        }
    }
}

impl Status {
    /// A status with no names and no players.
    pub fn new() -> (r: Status)
        ensures
            r@.servername.len() == 0,
            r@.map.len() == 0,
            r@.players.len() == 0,
    {
        Status { servername: String::new(), map: String::new(), players: Vec::new() }
    }

    /// Reads a status reply. On success the server and map names are those the reply gives
    /// (or kept where it gives none) and the players are exactly its rows; a malformed reply
    /// changes nothing.
    pub fn update(&mut self, st: String) -> (r: Result<(), ParseError>)
        ensures
            match updated(old(self)@, st@) {
                Some(m) => r is Ok && final(self)@ == m,
                None => r is Err && final(self)@ == old(self)@,
            },
    {
        let text = chars_of(st.as_str());
        let lines = split_chars(text.as_slice(), '\n');
        let ghost ls = views(lines@);
        let mut rd = Reader {
            mode: ParsingMode::Seeking,
            spawn: chars_of("[0"),
            servername: chars_of(self.servername.as_str()),
            map: chars_of(self.map.as_str()),
            players: Vec::new(),
        };
        assert(rd.model().players =~= Seq::<PlayerModel>::empty());
        assert(ls.subrange(0, 0) =~= Seq::<Seq<char>>::empty());
        let mut i: usize = 0;
        while i < lines.len()
            invariant
                i <= lines@.len(),
                ls == views(lines@),
                ls == split_on(text@, '\n'),
                text@ == st@,
                run(start(old(self)@), ls.subrange(0, i as int)) == Some(rd.model()),
                *self == *old(self),
            decreases lines@.len() - i,
        {
            assert(ls.subrange(0, i + 1).drop_last() =~= ls.subrange(0, i as int));
            assert(ls[i as int] == lines@[i as int]@);
            if !rd.read_line(lines[i].as_slice()) {
                proof {
                    lemma_run_failed(start(old(self)@), ls, i + 1);
                }
                return Err(ParseError::Malformed);
            }
            i = i + 1;
        }
        assert(ls.subrange(0, lines@.len() as int) =~= ls);
        self.servername = string_of(rd.servername.as_slice());
        self.map = string_of(rd.map.as_slice());
        self.players = rd.players;
        Ok(())
    }
}

impl Default for Status {
    fn default() -> (r: Status)
        ensures
            r@.servername.len() == 0,
            r@.map.len() == 0,
            r@.players.len() == 0,
    {
        Status::new()
    }
}

} // verus!
