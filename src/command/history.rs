//! The commands entered so far, with a cursor for stepping through them.
use crate::command::string_views;
use vstd::prelude::*;

verus! {

pub struct History {
    history: Vec<String>,
    index: usize,
}

pub struct HistoryModel {
    pub entries: Seq<Seq<char>>,
    pub index: nat,
}

impl View for History {
    type V = HistoryModel;

    closed spec fn view(&self) -> HistoryModel {
        HistoryModel { entries: string_views(self.history@), index: self.index as nat }
    }
}

/// The entry at `i`, if there is one.
pub open spec fn entry_at(h: HistoryModel, i: int) -> Option<Seq<char>> {
    if 0 <= i < h.entries.len() {
        Some(h.entries[i])
    } else {
        None
    }
}

impl History {
    /// The cursor stays within one past the last entry.
    pub open spec fn wf(&self) -> bool {
        self@.index <= self@.entries.len()
    }

    pub fn new() -> (r: History)
        ensures
            r@.entries.len() == 0,
            r@.index == 0,
            r.wf(),
    {
        let r = History { history: Vec::new(), index: 0 };
        assert(r@.entries =~= Seq::<Seq<char>>::empty());
        r
    }

    /// Adds an entry and puts the cursor just past it.
    pub fn push(&mut self, command: String)
        requires
            old(self).wf(),
        ensures
            final(self)@.entries == old(self)@.entries.push(command@),
            final(self)@.index == final(self)@.entries.len(),
            final(self).wf(),
    {
        let ghost before = self.history@;
        self.history.push(command);
        assert(string_views(self.history@) =~= string_views(before).push(command@));
        self.index = self.history.len();
    }

    pub fn get(&mut self, index: usize) -> (r: Option<String>)
        ensures
            final(self)@ == old(self)@,
            match r {
                Some(s) => entry_at(old(self)@, index as int) == Some(s@),
                None => entry_at(old(self)@, index as int) is None,
            },
    {
        if index < self.history.len() {
            Some(self.history[index].clone())
        } else {
            None
        }
    }

    /// Moves the cursor one step up, unless it is past the last entry, and gives the entry
    /// there.
    pub fn backwards(&mut self) -> (r: Option<String>)
        requires
            old(self).wf(),
        ensures
            final(self).wf(),
            final(self)@.entries == old(self)@.entries,
            old(self)@.index < old(self)@.entries.len() ==> final(self)@.index == old(self)@.index
                + 1,
            old(self)@.index >= old(self)@.entries.len() ==> final(self)@.index
                == old(self)@.index,
            match r {
                Some(s) => entry_at(final(self)@, final(self)@.index as int) == Some(s@)
                    && old(self)@.index < old(self)@.entries.len(),
                None => old(self)@.index >= old(self)@.entries.len() || entry_at(
                    final(self)@,
                    final(self)@.index as int,
                ) is None,
            },
    {
        if self.index < self.history.len() {
            self.index = self.index + 1;
            self.get(self.index)
        } else {
            None
        }
    }

    /// Moves the cursor one step down, unless it is at the first entry, and gives the entry
    /// there.
    pub fn forwards(&mut self) -> (r: Option<String>)
        requires
            old(self).wf(),
        ensures
            final(self).wf(),
            final(self)@.entries == old(self)@.entries,
            old(self)@.index > 0 ==> final(self)@.index == old(self)@.index - 1,
            old(self)@.index == 0 ==> final(self)@.index == 0,
            match r {
                Some(s) => entry_at(final(self)@, final(self)@.index as int) == Some(s@)
                    && old(self)@.index > 0,
                None => old(self)@.index == 0,
            },
    {
        if self.index > 0 {
            self.index = self.index - 1;
            self.get(self.index)
        } else {
            None
        }
    }
}

impl Default for History {
    fn default() -> (r: History)
        ensures
            r@.entries.len() == 0,
            r@.index == 0,
            r.wf(),
    {
        History::new()
    }
}

} // verus!
