//! Sorting a line of user input into local commands and commands for the server.
use crate::text::{chars_of, split_chars, split_on, starts_with_str, string_of, views};
use vstd::prelude::*;

verus! {

/// What a line of user input asks for.
#[derive(Debug, PartialEq, Eq)]
pub enum Request {
    /// Connect with this address and password (empty where none was given).
    Connect(String, String),
    Disconnect,
    /// Run the commands of this configuration file.
    Exec(String),
    /// Send the text to the server unchanged.
    PassThrough(String),
    /// A local command with the wrong number of arguments; the message says which.
    Invalid(String),
}

pub enum RequestModel {
    Connect(Seq<char>, Seq<char>),
    Disconnect,
    Exec(Seq<char>),
    PassThrough(Seq<char>),
    Invalid(Seq<char>),
}

impl View for Request {
    type V = RequestModel;

    open spec fn view(&self) -> RequestModel {
        match self {
            Request::Connect(a, p) => RequestModel::Connect(a@, p@),
            Request::Disconnect => RequestModel::Disconnect,
            Request::Exec(f) => RequestModel::Exec(f@),
            Request::PassThrough(t) => RequestModel::PassThrough(t@),
            Request::Invalid(m) => RequestModel::Invalid(m@),
        }
    }
}

/// The request that `s` makes; its arguments are separated by single spaces.
pub open spec fn classify(s: Seq<char>) -> RequestModel {
    let t = split_on(s, ' ');
    if t[0] == "connect"@ {
        if t.len() < 2 {
            RequestModel::Invalid("Not enough arguments"@)
        } else if t.len() == 2 {
            RequestModel::Connect(t[1], Seq::<char>::empty())
        } else if t.len() == 3 {
            RequestModel::Connect(t[1], t[2])
        } else {
            RequestModel::Invalid("Too many arguments"@)
        }
    } else if t[0] == "disconnect"@ {
        RequestModel::Disconnect
    } else if t[0] == "exec"@ && t.len() < 3 {
        if t.len() < 2 {
            RequestModel::Invalid("Not enough arguments"@)
        } else {
            RequestModel::Exec(t[1])
        }
    } else {
        RequestModel::PassThrough(s)
    }
}

/// Whether `v` is exactly the word `w`.
fn is_word(v: &[char], w: &str) -> (r: bool)
    ensures
        r == (v@ == w@),
{
    let same = starts_with_str(v, w) && v.len() == w.unicode_len();
    proof {
        if same {
            assert(v@ =~= v@.subrange(0, w@.len() as int));
        }
        if v@ == w@ {
            assert(v@.subrange(0, w@.len() as int) =~= v@);
        }
    }
    same
}

/// Sorts a line of user input.
pub fn route(command: &str) -> (r: Request)
    ensures
        r@ == classify(command@),
{
    let cs = chars_of(command);
    let t = split_chars(cs.as_slice(), ' ');
    proof {
        crate::text::lemma_split_on_nonempty(cs@, ' ');
    }
    let n = t.len();
    assert(views(t@)[0] == t@[0]@);
    if n >= 2 {
        assert(views(t@)[1] == t@[1]@);
    }
    if n >= 3 {
        assert(views(t@)[2] == t@[2]@);
    }
    if is_word(t[0].as_slice(), "connect") {
        if n < 2 {
            Request::Invalid("Not enough arguments".to_owned())
        } else if n == 2 {
            Request::Connect(string_of(t[1].as_slice()), String::new())
        } else if n == 3 {
            Request::Connect(string_of(t[1].as_slice()), string_of(t[2].as_slice()))
        } else {
            Request::Invalid("Too many arguments".to_owned())
        }
    } else if is_word(t[0].as_slice(), "disconnect") {
        Request::Disconnect
    } else if is_word(t[0].as_slice(), "exec") && n < 3 {
        if n < 2 {
            Request::Invalid("Not enough arguments".to_owned())
        } else {
            Request::Exec(string_of(t[1].as_slice()))
        }
    } else {
        Request::PassThrough(command.to_owned())
    }
}

} // verus!
