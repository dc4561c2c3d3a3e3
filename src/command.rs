//! Commands the server knows, as listed in a command file, with completion and history.
pub mod autocompleter;
pub mod history;
pub mod status;

use crate::text::{chars_of, split_chars, split_on, string_of, trim, trim_chars, views};
use vstd::prelude::*;

verus! {

/// A server command: its name, what it does, and the flags it takes.
#[derive(Debug)]
pub struct Command {
    pub name: String,
    pub description: String,
    pub flags: Vec<String>,
}

pub struct CommandModel {
    pub name: Seq<char>,
    pub description: Seq<char>,
    pub flags: Seq<Seq<char>>,
}

pub open spec fn string_views(v: Seq<String>) -> Seq<Seq<char>> {
    v.map_values(|s: String| s@)
}

impl View for Command {
    type V = CommandModel;

    open spec fn view(&self) -> CommandModel {
        CommandModel {
            name: self.name@,
            description: self.description@,
            flags: string_views(self.flags@),
        }
    }
}

/// A line of a command file: name, description and, optionally, space-separated flags,
/// the three parts separated by `$`. `None` where the line holds no `$`.
pub open spec fn command_of_line(line: Seq<char>) -> Option<CommandModel> {
    let p = split_on(line, '$');
    if p.len() < 2 {
        None
    } else {
        Some(
            CommandModel {
                name: p[0],
                description: p[1],
                flags: if p.len() < 3 {
                    Seq::<Seq<char>>::empty()
                } else {
                    split_on(trim(p[2]), ' ')
                },
            },
        )
    }
}

/// The strings of these characters.
fn strings_of(v: &Vec<Vec<char>>) -> (r: Vec<String>)
    ensures
        string_views(r@) == views(v@),
{
    let mut r: Vec<String> = Vec::new();
    let mut i: usize = 0;
    while i < v.len()
        invariant
            i <= v@.len(),
            string_views(r@) == views(v@).subrange(0, i as int),
        decreases v@.len() - i,
    {
        let ghost before = r@;
        let s = string_of(v[i].as_slice());
        r.push(s);
        assert(string_views(r@) =~= string_views(before).push(s@));
        assert(views(v@)[i as int] == v@[i as int]@);
        assert(string_views(r@) =~= views(v@).subrange(0, i + 1));
        i = i + 1;
    }
    assert(views(v@).subrange(0, i as int) =~= views(v@));
    r
}

impl Command {
    pub fn new(name: &str, description: &str, flags: Vec<String>) -> (r: Command)
        ensures
            r@ == (CommandModel {
                name: name@,
                description: description@,
                flags: string_views(flags@),
            }),
    {
        Command { name: name.to_owned(), description: description.to_owned(), flags }
    }

    /// A command with the same name, description and flags.
    pub fn duplicate(&self) -> (r: Command)
        ensures
            r@ == self@,
    {
        let mut flags: Vec<String> = Vec::new();
        let mut i: usize = 0;
        while i < self.flags.len()
            invariant
                i <= self.flags@.len(),
                string_views(flags@) == string_views(self.flags@).subrange(0, i as int),
            decreases self.flags@.len() - i,
        {
            let ghost before = flags@;
            let f = self.flags[i].clone();
            flags.push(f);
            assert(string_views(flags@) =~= string_views(before).push(f@));
            assert(string_views(flags@) =~= string_views(self.flags@).subrange(0, i + 1));
            i = i + 1;
        }
        assert(string_views(self.flags@).subrange(0, i as int) =~= string_views(self.flags@));
        Command { name: self.name.clone(), description: self.description.clone(), flags }
    }

    /// Reads one line of a command file.
    pub fn parse_line(line: &str) -> (r: Option<Command>)
        ensures
            match r {
                Some(c) => command_of_line(line@) == Some(c@),
                None => command_of_line(line@) is None,
            },
    {
        let cs = chars_of(line);
        let p = split_chars(cs.as_slice(), '$');
        if p.len() < 2 {
            return None;
        }
        assert(views(p@)[0] == p@[0]@);
        assert(views(p@)[1] == p@[1]@);
        let flags = if p.len() < 3 {
            let v: Vec<String> = Vec::new();
            assert(string_views(v@) =~= Seq::<Seq<char>>::empty());
            v
        } else {
            assert(views(p@)[2] == p@[2]@);
            let t = trim_chars(p[2].as_slice());
            let parts = split_chars(t.as_slice(), ' ');
            strings_of(&parts)
        };
        Some(
            Command {
                name: string_of(p[0].as_slice()),
                description: string_of(p[1].as_slice()),
                flags,
            },
        )
    }
}

impl Default for Command {
    fn default() -> (r: Command)
        ensures
            r@.name.len() == 0,
            r@.description.len() == 0,
            r@.flags.len() == 0,
    {
        Command { name: String::new(), description: String::new(), flags: Vec::new() }
    }
}

} // verus!
