//! Messages between the session and the screen.
use vstd::prelude::*;

verus! {

/// A message to or from the session: commands and clock pulses go in, state changes and
/// server replies come out.
#[derive(Debug, PartialEq, Eq)]
pub enum Action {
    Tick,
    Render,
    Resize(u16, u16),
    Suspend,
    Resume,
    Quit,
    Refresh,
    Error(String),
    Help,
    ToggleShowHelp,
    Connect(String, String),
    Connected(bool),
    Command(String),
    Insert(String),
    InsertAll(Vec<String>),
    EnterNormal,
    EnterInsert,
    EnterProcessing,
    ExitProcessing,
    Update,
}

/// An `Action` as plain values.
pub enum ActionModel {
    Tick,
    Render,
    Resize(u16, u16),
    Suspend,
    Resume,
    Quit,
    Refresh,
    Error(Seq<char>),
    Help,
    ToggleShowHelp,
    Connect(Seq<char>, Seq<char>),
    Connected(bool),
    Command(Seq<char>),
    Insert(Seq<char>),
    InsertAll(Seq<Seq<char>>),
    EnterNormal,
    EnterInsert,
    EnterProcessing,
    ExitProcessing,
    Update,
}

impl View for Action {
    type V = ActionModel;

    open spec fn view(&self) -> ActionModel {
        match self {
            Action::Tick => ActionModel::Tick,
            Action::Render => ActionModel::Render,
            Action::Resize(w, h) => ActionModel::Resize(*w, *h),
            Action::Suspend => ActionModel::Suspend,
            Action::Resume => ActionModel::Resume,
            Action::Quit => ActionModel::Quit,
            Action::Refresh => ActionModel::Refresh,
            Action::Error(s) => ActionModel::Error(s@),
            Action::Help => ActionModel::Help,
            Action::ToggleShowHelp => ActionModel::ToggleShowHelp,
            Action::Connect(a, p) => ActionModel::Connect(a@, p@),
            Action::Connected(b) => ActionModel::Connected(*b),
            Action::Command(s) => ActionModel::Command(s@),
            Action::Insert(s) => ActionModel::Insert(s@),
            Action::InsertAll(v) => ActionModel::InsertAll(v@.map_values(|x: String| x@)),
            Action::EnterNormal => ActionModel::EnterNormal,
            Action::EnterInsert => ActionModel::EnterInsert,
            Action::EnterProcessing => ActionModel::EnterProcessing,
            Action::ExitProcessing => ActionModel::ExitProcessing,
            Action::Update => ActionModel::Update,
        }
    }
}

pub open spec fn action_models(v: Seq<Action>) -> Seq<ActionModel> {
    v.map_values(|a: Action| a@)
}

} // verus!
