//! Completing a partly typed command from the known command names.
use crate::command::{Command, CommandModel};
use crate::text::{chars_of, has_prefix};
use vstd::prelude::*;

verus! {

pub struct AutoCompleter {
    commands: Vec<Command>,
}

pub open spec fn command_models(v: Seq<Command>) -> Seq<CommandModel> {
    v.map_values(|c: Command| c@)
}

impl View for AutoCompleter {
    type V = Seq<CommandModel>;

    closed spec fn view(&self) -> Seq<CommandModel> {
        command_models(self.commands@)
    }
}

/// The names among `cmds` that start with `partial`, in order.
pub open spec fn matching(cmds: Seq<CommandModel>, partial: Seq<char>) -> Seq<Seq<char>>
    decreases cmds.len(),
{
    if cmds.len() == 0 {
        Seq::<Seq<char>>::empty()
    } else {
        let rest = matching(cmds.drop_last(), partial);
        if has_prefix(cmds.last().name, partial) {
            rest.push(cmds.last().name)
        } else {
            rest
        }
    }
}

/// The index of the first command named `name`, if any.
pub open spec fn first_named(cmds: Seq<CommandModel>, name: Seq<char>) -> Option<int>
    decreases cmds.len(),
{
    if cmds.len() == 0 {
        None
    } else if cmds[0].name == name {
        Some(0)
    } else {
        match first_named(cmds.drop_first(), name) {
            Some(i) => Some(i + 1),
            None => None,
        }
    }
}

proof fn lemma_matching_prefix(cmds: Seq<CommandModel>, partial: Seq<char>, i: int)
    requires
        0 <= i <= cmds.len(),
    ensures
        matching(cmds.subrange(0, i), partial).len() <= matching(cmds, partial).len(),
        matching(cmds, partial).subrange(0, matching(cmds.subrange(0, i), partial).len() as int)
            == matching(cmds.subrange(0, i), partial),
    decreases cmds.len() - i,
{
    if i == cmds.len() {
        assert(cmds.subrange(0, i) =~= cmds);
        assert(matching(cmds, partial).subrange(0, matching(cmds, partial).len() as int)
            =~= matching(cmds, partial));
    } else {
        lemma_matching_prefix(cmds, partial, i + 1);
        let a = cmds.subrange(0, i);
        let b = cmds.subrange(0, i + 1);
        assert(b.drop_last() =~= a);
        let ma = matching(a, partial);
        let mb = matching(b, partial);
        let m = matching(cmds, partial);
        assert(mb.subrange(0, ma.len() as int) =~= ma);
        assert(m.subrange(0, ma.len() as int) =~= m.subrange(0, mb.len() as int).subrange(
            0,
            ma.len() as int,
        ));
    }
}

impl AutoCompleter {
    pub fn new() -> (r: AutoCompleter)
        ensures
            r@.len() == 0,
    {
        AutoCompleter { commands: Vec::new() }
    }

    pub fn add_command(&mut self, command: Command)
        ensures
            final(self)@ == old(self)@.push(command@),
    {
        let ghost before = self.commands@;
        self.commands.push(command);
        assert(command_models(self.commands@) =~= command_models(before).push(command@));
    }

    /// At most `count` names that start with `partial_command`, in the order the commands
    /// were added.
    pub fn get_suggestions(&self, partial_command: &str, count: usize) -> (r: Vec<String>)
        ensures
            r@.map_values(|s: String| s@) == matching(self@, partial_command@).take(
                vstd::math::min(count as int, matching(self@, partial_command@).len() as int),
            ),
    {
        let p = chars_of(partial_command);
        let mut completions: Vec<String> = Vec::new();
        let mut i: usize = 0;
        let ghost cm = self@;
        assert(cm.subrange(0, 0) =~= Seq::<CommandModel>::empty());
        while i < self.commands.len()
            invariant
                cm == self@,
                cm == command_models(self.commands@),
                p@ == partial_command@,
                i <= cm.len(),
                completions@.map_values(|s: String| s@) == matching(cm.subrange(0, i as int), p@),
                completions@.len() <= count,
            ensures
                i == cm.len() || completions@.len() >= count,
            decreases cm.len() - i,
        {
            if completions.len() >= count {
                break;
            }
            let ghost before = completions@;
            assert(cm.subrange(0, i + 1).drop_last() =~= cm.subrange(0, i as int));
            assert(cm[i as int] == self.commands@[i as int]@);
            if starts_with_chars(self.commands[i].name.as_str(), p.as_slice()) {
                let n = self.commands[i].name.clone();
                completions.push(n);
                assert(completions@.map_values(|s: String| s@) =~= before.map_values(
                    |s: String| s@,
                ).push(n@));
            }
            i = i + 1;
        }
        proof {
            lemma_matching_prefix(cm, p@, i as int);
            let mp = matching(cm.subrange(0, i as int), p@);
            let m = matching(cm, p@);
            if completions@.len() >= count {
                assert(mp.len() == count);
                assert(m.take(count as int) =~= mp);
            } else {
                assert(cm.subrange(0, i as int) =~= cm);
                assert(m.take(m.len() as int) =~= mp);
            }
        }
        completions
    }

    /// The first name that starts with `partial`, whatever `current` holds.
    pub fn get_suggestion(&self, partial: &str, current: Option<&str>) -> (r: Option<String>)
        ensures
            match r {
                Some(s) => matching(self@, partial@).len() > 0 && s@ == matching(
                    self@,
                    partial@,
                )[0],
                None => matching(self@, partial@).len() == 0,
            },
    {
        let v = self.get_suggestions(partial, 1);
        let ghost m = matching(self@, partial@);
        assert(v@.map_values(|s: String| s@).len() == v@.len());
        if v.len() > 0 {
            assert(v@.map_values(|s: String| s@)[0] == v@[0]@);
            assert(m.take(vstd::math::min(1, m.len() as int))[0] == m[0]);
            Some(v[0].clone())
        } else {
            None
        }
    }

    /// The first command named `name`.
    pub fn get_command(&self, name: &str) -> (r: Option<Command>)
        ensures
            match r {
                Some(c) => first_named(self@, name@) is Some && c@ == self@[first_named(
                    self@,
                    name@,
                )->0],
                None => first_named(self@, name@) is None,
            },
    {
        let ghost cm = self@;
        let mut i: usize = 0;
        assert(cm.subrange(0, cm.len() as int) =~= cm);
        while i < self.commands.len()
            invariant
                cm == self@,
                cm == command_models(self.commands@),
                i <= cm.len(),
                first_named(cm, name@) == match first_named(
                    cm.subrange(i as int, cm.len() as int),
                    name@,
                ) {
                    Some(j) => Some(j + i),
                    None => None::<int>,
                },
            decreases cm.len() - i,
        {
            let ghost rest = cm.subrange(i as int, cm.len() as int);
            assert(rest.drop_first() =~= cm.subrange(i + 1, cm.len() as int));
            assert(rest[0] == self.commands@[i as int]@);
            if self.commands[i].name == name.to_owned() {
                return Some(self.commands[i].duplicate());
            }
            i = i + 1;
        }
        None
    }
}

/// Whether `s` starts with the characters `p`.
fn starts_with_chars(s: &str, p: &[char]) -> (r: bool)
    ensures
        r == has_prefix(s@, p@),
{
    let cs = chars_of(s);
    if p.len() > cs.len() {
        return false;
    }
    let mut i: usize = 0;
    while i < p.len()
        invariant
            cs@ == s@,
            p@.len() <= cs@.len(),
            i <= p@.len(),
            forall|j: int| 0 <= j < i ==> cs@[j] == p@[j],
        decreases p@.len() - i,
    {
        if cs[i] != p[i] {
            assert(cs@.subrange(0, p@.len() as int)[i as int] != p@[i as int]);
            return false;
        }
        i = i + 1;
    }
    assert(cs@.subrange(0, p@.len() as int) =~= p@);
    true
}

impl Default for AutoCompleter {
    fn default() -> (r: AutoCompleter)
        ensures
            r@.len() == 0,
    {
        AutoCompleter::new()
    }
}

} // verus!
