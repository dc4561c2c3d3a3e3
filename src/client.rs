//! The session: one authenticated connection, its credentials, the clock that paces the
//! status probe, and the messages it sends to the screen.
//!
//! Waiting on the network is left to the caller. Each step here returns an `Effect`, the
//! one thing the caller must now do, and the caller reports how it went through the
//! matching `*_result` method.
use crate::action::{action_models, Action, ActionModel};
use crate::command::status::{ParseError, Status, StatusModel};
use crate::router::{classify, route, Request, RequestModel};
use crate::text::{chars_of, concat_str, split_chars, split_on, string_of, views};
use vstd::prelude::*;

verus! {

/// Ticks between two status probes.
pub const DEFAULT_STATUS_RATE: usize = 20;

/// Seconds that a status probe may take before the session is given up.
pub const PROBE_TIMEOUT_SECS: u64 = 5;

/// Why a command could not be carried out.
#[derive(Debug, PartialEq, Eq)]
pub enum ClientError {
    /// Missing credentials, or the server refused them.
    Auth(String),
    /// The connection is absent or failed.
    Transport(String),
}

pub enum ErrorModel {
    Auth(Seq<char>),
    Transport(Seq<char>),
}

impl ErrorModel {
    pub open spec fn message(self) -> Seq<char> {
        match self {
            ErrorModel::Auth(m) => m,
            ErrorModel::Transport(m) => m,
        }
    }
}

impl View for ClientError {
    type V = ErrorModel;

    open spec fn view(&self) -> ErrorModel {
        match self {
            ClientError::Auth(m) => ErrorModel::Auth(m@),
            ClientError::Transport(m) => ErrorModel::Transport(m@),
        }
    }
}

impl ClientError {
    /// The text that describes the error.
    pub fn message(&self) -> (r: String)
        ensures
            r@ == self@.message(),
    {
        match self {
            ClientError::Auth(m) => m.clone(),
            ClientError::Transport(m) => m.clone(),
        }
    }
}

/// What the caller must do next.
#[derive(Debug, PartialEq, Eq)]
pub enum Effect {
    Nothing,
    /// Open a connection with this address and password, then call `connect_result`.
    Open(String, String),
    /// Drop the connection.
    Close,
    /// Send this command, then call `command_result` with the reply.
    Send(String),
    /// Send this status command, waiting at most `PROBE_TIMEOUT_SECS`, then call
    /// `probe_result`.
    Probe(String),
    /// Read this file and run its lines with a `FileRun`.
    ReadFile(String),
}

pub enum EffectModel {
    Nothing,
    Open(Seq<char>, Seq<char>),
    Close,
    Send(Seq<char>),
    Probe(Seq<char>),
    ReadFile(Seq<char>),
}

impl View for Effect {
    type V = EffectModel;

    open spec fn view(&self) -> EffectModel {
        match self {
            Effect::Nothing => EffectModel::Nothing,
            Effect::Open(a, p) => EffectModel::Open(a@, p@),
            Effect::Close => EffectModel::Close,
            Effect::Send(c) => EffectModel::Send(c@),
            Effect::Probe(c) => EffectModel::Probe(c@),
            Effect::ReadFile(f) => EffectModel::ReadFile(f@),
        }
    }
}

pub open spec fn result_model<T: View>(r: Result<T, ClientError>) -> Result<T::V, ErrorModel> {
    match r {
        Ok(t) => Ok(t@),
        Err(e) => Err(e@),
    }
}

/// One session with a server.
pub struct Client {
    address: String,
    password: String,
    connected: bool,
    status_rate: usize,
    ticks: usize,
    status: Status,
    actions: Vec<Action>,
}

pub struct ClientModel {
    pub address: Seq<char>,
    pub password: Seq<char>,
    pub connected: bool,
    pub status_rate: nat,
    pub ticks: nat,
    pub status: StatusModel,
    /// Messages for the screen that have not been collected yet, oldest first.
    pub actions: Seq<ActionModel>,
}

impl View for Client {
    type V = ClientModel;

    closed spec fn view(&self) -> ClientModel {
        ClientModel {
            address: self.address@,
            password: self.password@,
            connected: self.connected,
            status_rate: self.status_rate as nat,
            ticks: self.ticks as nat,
            status: self.status@,
            actions: action_models(self.actions@),
        }
    }
}

/// `m` with one more message for the screen.
pub open spec fn reported(m: ClientModel, a: ActionModel) -> ClientModel {
    ClientModel { actions: m.actions.push(a), ..m }
}

/// The error that missing credentials give, if one is missing.
pub open spec fn missing_credentials(m: ClientModel) -> Option<ErrorModel> {
    if m.address.len() == 0 {
        Some(ErrorModel::Auth("No address specified"@))
    } else if m.password.len() == 0 {
        Some(ErrorModel::Auth("No password specified"@))
    } else {
        None
    }
}

/// Asking to connect: missing credentials are reported, else the connection is to be opened.
pub open spec fn connect_spec(m: ClientModel) -> (ClientModel, Result<EffectModel, ErrorModel>) {
    match missing_credentials(m) {
        Some(e) => (reported(m, ActionModel::Error(e.message())), Err(e)),
        None => (m, Ok(EffectModel::Open(m.address, m.password))),
    }
}

/// The outcome of opening the connection.
pub open spec fn connect_result_spec(m: ClientModel, r: Result<(), ErrorModel>) -> ClientModel {
    match r {
        Ok(_) => reported(ClientModel { connected: true, ..m }, ActionModel::Connected(true)),
        Err(e) => reported(m, ActionModel::Error("Failed to connect: "@ + e.message())),
    }
}

/// The error a command meets when no connection is open.
pub open spec fn not_connected_error(m: ClientModel) -> ErrorModel {
    match missing_credentials(m) {
        Some(e) => e,
        None => ErrorModel::Transport("Not connected"@),
    }
}

/// Asking to send a command.
pub open spec fn send_spec(m: ClientModel, command: Seq<char>) -> (
    ClientModel,
    Result<EffectModel, ErrorModel>,
) {
    if m.connected {
        (m, Ok(EffectModel::Send(command)))
    } else {
        let e = not_connected_error(m);
        (reported(m, ActionModel::Error(e.message())), Err(e))
    }
}

/// The reply to a command: shown on the screen, or its error reported.
pub open spec fn command_result_spec(m: ClientModel, r: Result<Seq<char>, ErrorModel>) -> ClientModel {
    match r {
        Ok(s) => reported(m, ActionModel::Insert(s)),
        Err(e) => reported(m, ActionModel::Error(e.message())),
    }
}

pub open spec fn disconnect_spec(m: ClientModel) -> ClientModel {
    reported(ClientModel { connected: false, ..m }, ActionModel::Connected(false))
}

/// The file that `exec name` runs.
pub open spec fn config_path(name: Seq<char>) -> Seq<char> {
    "cfg/"@ + name + ".cfg"@
}

/// What a line of user input does.
pub open spec fn run_command_spec(m: ClientModel, command: Seq<char>) -> (
    ClientModel,
    Result<EffectModel, ErrorModel>,
) {
    match classify(command) {
        RequestModel::Connect(a, p) => connect_spec(ClientModel { address: a, password: p, ..m }),
        RequestModel::Disconnect => (disconnect_spec(m), Ok(EffectModel::Close)),
        RequestModel::Exec(f) => (m, Ok(EffectModel::ReadFile(config_path(f)))),
        RequestModel::PassThrough(t) => send_spec(m, t),
        RequestModel::Invalid(msg) => (reported(m, ActionModel::Error(msg)), Ok(EffectModel::Nothing)),
    }
}

/// One clock pulse: the counter grows by one, and a probe is due when it reaches a multiple
/// of the status rate while connected.
pub open spec fn tick_spec(m: ClientModel) -> (ClientModel, bool) {
    let t = m.ticks + 1;
    (ClientModel { ticks: t, ..m }, t % m.status_rate == 0 && m.connected)
}

impl Client {
    /// The session's invariant: the status rate is positive.
    pub closed spec fn wf(&self) -> bool {
        self.status_rate > 0
    }

    /// A session, not connected, with these credentials.
    pub fn new(address: &str, password: &str) -> (r: Client)
        ensures
            r.wf(),
            r@.address == address@,
            r@.password == password@,
            !r@.connected,
            r@.status_rate == DEFAULT_STATUS_RATE,
            r@.ticks == 0,
            r@.status.servername.len() == 0,
            r@.status.map.len() == 0,
            r@.status.players.len() == 0,
            r@.actions.len() == 0,
    {
        let r = Client {
            address: address.to_owned(),
            password: password.to_owned(),
            connected: false,
            status_rate: DEFAULT_STATUS_RATE,
            ticks: 0,
            status: Status::new(),
            actions: Vec::new(),
        };
        assert(r@.actions =~= Seq::<ActionModel>::empty());
        r
    }

    pub fn set_address(&mut self, address: &str)
        ensures
            final(self)@ == (ClientModel { address: address@, ..old(self)@ }),
            final(self).wf() == old(self).wf(),
    {
        self.address = address.to_owned();
    }

    pub fn set_password(&mut self, password: &str)
        ensures
            final(self)@ == (ClientModel { password: password@, ..old(self)@ }),
            final(self).wf() == old(self).wf(),
    {
        self.password = password.to_owned();
    }

    pub fn is_connected(&self) -> (r: bool)
        ensures
            r == self@.connected,
    {
        self.connected
    }

    pub fn ticks(&self) -> (r: usize)
        ensures
            r == self@.ticks,
    {
        self.ticks
    }

    pub fn status(&self) -> (r: &Status)
        ensures
            r@ == self@.status,
    {
        &self.status
    }

    /// Queues a message for the screen.
    pub fn send_action(&mut self, action: Action)
        ensures
            final(self)@ == reported(old(self)@, action@),
            final(self).wf() == old(self).wf(),
    {
        let ghost before = self.actions@;
        self.actions.push(action);
        assert(action_models(self.actions@) =~= action_models(before).push(action@));
    }

    /// Queues an error message for the screen.
    pub fn error(&mut self, error: String)
        ensures
            final(self)@ == reported(old(self)@, ActionModel::Error(error@)),
            final(self).wf() == old(self).wf(),
    {
        self.send_action(Action::Error(error));
    }

    /// Hands over the queued messages, oldest first, and empties the queue.
    pub fn take_actions(&mut self) -> (r: Vec<Action>)
        ensures
            action_models(r@) == old(self)@.actions,
            final(self)@ == (ClientModel { actions: Seq::<ActionModel>::empty(), ..old(self)@ }),
            final(self).wf() == old(self).wf(),
    {
        let mut r: Vec<Action> = Vec::new();
        core::mem::swap(&mut r, &mut self.actions);
        assert(action_models(self.actions@) =~= Seq::<ActionModel>::empty());
        r
    }

    /// Asks to connect with the stored credentials.
    pub fn connect(&mut self) -> (r: Result<Effect, ClientError>)
        ensures
            (final(self)@, result_model(r)) == connect_spec(old(self)@),
            final(self).wf() == old(self).wf(),
    {
        if self.address.as_str().is_empty() {
            let e = ClientError::Auth("No address specified".to_owned());
            self.error(e.message());
            return Err(e);
        }
        if self.password.as_str().is_empty() {
            let e = ClientError::Auth("No password specified".to_owned());
            self.error(e.message());
            return Err(e);
        }
        Ok(Effect::Open(self.address.clone(), self.password.clone()))
    }

    /// Takes the outcome of opening the connection.
    pub fn connect_result(&mut self, result: Result<(), ClientError>) -> (r: Result<(), ClientError>)
        ensures
            final(self)@ == connect_result_spec(old(self)@, match result {
                Ok(_) => Ok(()),
                Err(e) => Err(e@),
            }),
            r == result,
            final(self).wf() == old(self).wf(),
    {
        match result {
            Ok(u) => {
                self.connected = true;
                self.send_action(Action::Connected(true));
                Ok(u)
            },
            Err(e) => {
                let m = e.message();
                self.error(concat_str("Failed to connect: ", m.as_str()));
                Err(e)
            },
        }
    }

    /// Drops the connection, if any, and says so.
    pub fn disconnect(&mut self)
        ensures
            final(self)@ == disconnect_spec(old(self)@),
            final(self).wf() == old(self).wf(),
    {
        self.connected = false;
        self.send_action(Action::Connected(false));
    }

    /// Asks to send a command to the server.
    pub fn send_command(&mut self, command: &str) -> (r: Result<Effect, ClientError>)
        ensures
            (final(self)@, result_model(r)) == send_spec(old(self)@, command@),
            final(self).wf() == old(self).wf(),
    {
        if self.connected {
            return Ok(Effect::Send(command.to_owned()));
        }
        let e = if self.address.as_str().is_empty() {
            ClientError::Auth("No address specified".to_owned())
        } else if self.password.as_str().is_empty() {
            ClientError::Auth("No password specified".to_owned())
        } else {
            ClientError::Transport("Not connected".to_owned())
        };
        self.error(e.message());
        Err(e)
    }

    /// Takes the server's reply to a command.
    pub fn command_result(&mut self, result: Result<String, ClientError>) -> (r: Result<
        String,
        ClientError,
    >)
        ensures
            final(self)@ == command_result_spec(old(self)@, match result {
                Ok(s) => Ok(s@),
                Err(e) => Err(e@),
            }),
            r == result,
            final(self).wf() == old(self).wf(),
    {
        match result {
            Ok(s) => {
                self.send_action(Action::Insert(s.clone()));
                Ok(s)
            },
            Err(e) => {
                self.error(e.message());
                Err(e)
            },
        }
    }

    /// Carries out a line of user input.
    pub fn run_command(&mut self, command: &str) -> (r: Result<Effect, ClientError>)
        ensures
            (final(self)@, result_model(r)) == run_command_spec(old(self)@, command@),
            final(self).wf() == old(self).wf(),
    {
        match route(command) {
            Request::Connect(address, password) => {
                self.set_address(address.as_str());
                self.set_password(password.as_str());
                self.connect()
            },
            Request::Disconnect => {
                self.disconnect();
                Ok(Effect::Close)
            },
            Request::Exec(file) => {
                let p = concat_str("cfg/", file.as_str());
                Ok(Effect::ReadFile(concat_str(p.as_str(), ".cfg")))
            },
            Request::PassThrough(text) => self.send_command(text.as_str()),
            Request::Invalid(message) => {
                self.error(message);
                Ok(Effect::Nothing)
            },
        }
    }

    /// Advances the clock by one tick; `true` when a status probe is due.
    pub fn on_tick(&mut self) -> (probe: bool)
        requires
            old(self).wf(),
            old(self)@.ticks < usize::MAX,
        ensures
            (final(self)@, probe) == tick_spec(old(self)@),
            final(self).wf(),
    {
        self.ticks = self.ticks + 1;
        self.ticks % self.status_rate == 0 && self.connected
    }

    /// Takes the reply to a status probe; `None` when it failed or took too long, which
    /// ends the session with no further attempt.
    pub fn probe_result(&mut self, reply: Option<String>) -> (r: Result<(), ParseError>)
        ensures
            final(self).wf() == old(self).wf(),
            match reply {
                None => final(self)@ == disconnect_spec(old(self)@) && r is Ok,
                Some(text) => match crate::command::status::updated(old(self)@.status, text@) {
                    Some(s) => r is Ok && final(self)@ == (ClientModel { status: s, ..old(self)@ }),
                    None => r is Err && final(self)@ == old(self)@,
                },
            },
    {
        match reply {
            None => {
                self.disconnect();
                Ok(())
            },
            Some(text) => self.status.update(text),
        }
    }

    /// Takes one message from the screen: a line of user input, or a clock pulse.
    pub fn async_update(&mut self, action: Action) -> (r: Effect)
        requires
            old(self).wf(),
            old(self)@.ticks < usize::MAX,
        ensures
            final(self).wf(),
            match action {
                Action::Command(c) => {
                    let (m, res) = run_command_spec(old(self)@, c@);
                    final(self)@ == m && r@ == match res {
                        Ok(e) => e,
                        Err(_) => EffectModel::Nothing,
                    }
                },
                Action::Tick => {
                    let (m, due) = tick_spec(old(self)@);
                    final(self)@ == m && r@ == if due {
                        EffectModel::Probe("status"@)
                    } else {
                        EffectModel::Nothing
                    }
                },
                _ => final(self)@ == old(self)@ && r@ == EffectModel::Nothing,
            },
    {
        match action {
            Action::Command(command) => match self.run_command(command.as_str()) {
                Ok(e) => e,
                Err(_) => Effect::Nothing,
            },
            Action::Tick => {
                if self.on_tick() {
                    Effect::Probe("status".to_owned())
                } else {
                    Effect::Nothing
                }
            },
            _ => Effect::Nothing,
        }
    }
}

impl Default for Client {
    fn default() -> (r: Client)
        ensures
            r.wf(),
            r@.address.len() == 0,
            r@.password.len() == 0,
            !r@.connected,
            r@.status_rate == DEFAULT_STATUS_RATE,
            r@.ticks == 0,
            r@.status.servername.len() == 0,
            r@.status.map.len() == 0,
            r@.status.players.len() == 0,
            r@.actions.len() == 0,
    {
        let r = Client {
            address: String::new(),
            password: String::new(),
            connected: false,
            status_rate: DEFAULT_STATUS_RATE,
            ticks: 0,
            status: Status::new(),
            actions: Vec::new(),
        };
        assert(r@.actions =~= Seq::<ActionModel>::empty());
        r
    }
}


/// `n` clock pulses in a row.
pub open spec fn ticks_n(m: ClientModel, n: nat) -> ClientModel
    decreases n,
{
    if n == 0 {
        m
    } else {
        tick_spec(ticks_n(m, (n - 1) as nat)).0
    }
}

/// Over `n` clock pulses the counter grows by exactly `n`, nothing else changes, and a
/// probe is due at pulse `k` exactly when the counter then reaches a multiple of the status
/// rate while connected.
pub proof fn lemma_ticks(m: ClientModel, n: nat)
    requires
        m.status_rate > 0,
    ensures
        ticks_n(m, n) == (ClientModel { ticks: m.ticks + n, ..m }),
        forall|k: nat|
            k < n ==> (#[trigger] tick_spec(ticks_n(m, k))).1 == ((m.ticks + k + 1)
                % m.status_rate == 0 && m.connected),
    decreases n,
{
    if n > 0 {
        lemma_ticks(m, (n - 1) as nat);
        assert forall|k: nat| k < n implies (#[trigger] tick_spec(ticks_n(m, k))).1 == ((m.ticks
            + k + 1) % m.status_rate == 0 && m.connected) by {
            if k < n - 1 {
            } else {
                assert(k == n - 1);
            }
        }
    }
}

/// With no connection open, connecting with an empty address or an empty password opens
/// nothing, fails with the missing credential, and a command sent afterwards fails the same
/// way.
pub proof fn lemma_connect_without_credentials(
    m: ClientModel,
    address: Seq<char>,
    password: Seq<char>,
    command: Seq<char>,
)
    requires
        !m.connected,
        address.len() == 0 || password.len() == 0,
    ensures
        ({
            let e = if address.len() == 0 {
                ErrorModel::Auth("No address specified"@)
            } else {
                ErrorModel::Auth("No password specified"@)
            };
            let (m1, r) = connect_spec(ClientModel { address, password, ..m });
            &&& !m1.connected
            &&& r == Err::<EffectModel, ErrorModel>(e)
            &&& send_spec(m1, command).1 == Err::<EffectModel, ErrorModel>(e)
            &&& send_spec(m1, command).0.actions.last() == ActionModel::Error(e.message())
        }),
{
}

/// A command on a session with no connection, an address and an empty password fails for
/// the missing password.
pub proof fn lemma_send_without_password(m: ClientModel, command: Seq<char>)
    requires
        !m.connected,
        m.address.len() > 0,
        m.password.len() == 0,
    ensures
        send_spec(m, command).1 == Err::<EffectModel, ErrorModel>(
            ErrorModel::Auth("No password specified"@),
        ),
{
}

/// A failed or late probe ends the session: no connection, exactly one message that says
/// so, and nothing else changes.
pub proof fn lemma_probe_failure_disconnects(m: ClientModel)
    ensures
        !disconnect_spec(m).connected,
        disconnect_spec(m).actions == m.actions.push(ActionModel::Connected(false)),
        disconnect_spec(m) == (ClientModel {
            connected: false,
            actions: m.actions.push(ActionModel::Connected(false)),
            ..m
        }),
{
}

/// The commands of a configuration file, run one at a time in file order until one fails.
pub struct FileRun {
    lines: Vec<String>,
    responses: Vec<String>,
    failure: Option<ClientError>,
}

pub struct FileRunModel {
    pub lines: Seq<Seq<char>>,
    /// The replies to the lines run so far, in order.
    pub responses: Seq<Seq<char>>,
    /// The error of the line that failed, if one did.
    pub failure: Option<ErrorModel>,
}

impl View for FileRun {
    type V = FileRunModel;

    closed spec fn view(&self) -> FileRunModel {
        FileRunModel {
            lines: self.lines@.map_values(|l: String| l@),
            responses: self.responses@.map_values(|l: String| l@),
            failure: match self.failure {
                Some(e) => Some(e@),
                None => None,
            },
        }
    }
}

/// No more lines have been answered than the file holds.
pub open spec fn file_run_wf(r: FileRunModel) -> bool {
    r.responses.len() + (if r.failure is Some {
        1int
    } else {
        0int
    }) <= r.lines.len()
}

/// The line to run next: none once a line has failed or all have run.
pub open spec fn next_line_spec(r: FileRunModel) -> Option<Seq<char>> {
    if r.failure is None && r.responses.len() < r.lines.len() {
        Some(r.lines[r.responses.len() as int])
    } else {
        None
    }
}

/// The run after the line handed out last got `answer`.
pub open spec fn record_spec(r: FileRunModel, answer: Result<Seq<char>, ErrorModel>) -> FileRunModel {
    match answer {
        Ok(s) => FileRunModel { responses: r.responses.push(s), ..r },
        Err(e) => FileRunModel { failure: Some(e), ..r },
    }
}

/// What the run comes to: the first failure, else every reply in order.
pub open spec fn outcome_spec(r: FileRunModel) -> Result<Seq<Seq<char>>, ErrorModel> {
    match r.failure {
        Some(e) => Err(e),
        None => Ok(r.responses),
    }
}

/// A run over `lines` that has not started.
pub open spec fn fresh_run(lines: Seq<Seq<char>>) -> FileRunModel {
    FileRunModel { lines, responses: Seq::empty(), failure: None }
}

/// The run after at most `fuel` more lines, each line `i` answered with `answers[i]`.
pub open spec fn drive(
    r: FileRunModel,
    answers: Seq<Result<Seq<char>, ErrorModel>>,
    fuel: nat,
) -> FileRunModel
    decreases fuel,
{
    if fuel == 0 {
        r
    } else {
        match next_line_spec(r) {
            None => r,
            Some(_) => drive(
                record_spec(r, answers[r.responses.len() as int]),
                answers,
                (fuel - 1) as nat,
            ),
        }
    }
}

proof fn lemma_drive_to_failure(
    r: FileRunModel,
    answers: Seq<Result<Seq<char>, ErrorModel>>,
    k: int,
    fuel: nat,
)
    requires
        r.failure is None,
        r.responses.len() <= k < r.lines.len(),
        answers.len() == r.lines.len(),
        answers[k] is Err,
        forall|j: int| r.responses.len() <= j < k ==> (#[trigger] answers[j]) is Ok,
        fuel > k - r.responses.len(),
    ensures
        drive(r, answers, fuel) == (FileRunModel {
            responses: drive(r, answers, fuel).responses,
            failure: Some(answers[k]->Err_0),
            ..r
        }),
        drive(r, answers, fuel).responses.len() == k,
        forall|j: int|
            0 <= j < r.responses.len() ==> #[trigger] drive(r, answers, fuel).responses[j]
                == r.responses[j],
        forall|j: int|
            r.responses.len() <= j < k ==> Ok::<Seq<char>, ErrorModel>(
                #[trigger] drive(r, answers, fuel).responses[j],
            ) == answers[j],
    decreases fuel,
{
    let i = r.responses.len() as int;
    let q = record_spec(r, answers[i]);
    if i == k {
        assert(next_line_spec(q) is None);
        if fuel - 1 > 0 {
            assert(drive(q, answers, (fuel - 1) as nat) == q);
        }
    } else {
        assert(answers[i] is Ok);
        lemma_drive_to_failure(q, answers, k, (fuel - 1) as nat);
    }
}

/// A run over a file's lines, where line `k` is the first to fail: the lines before it all
/// ran and their replies are kept in order, the run then hands out no further line, and it
/// ends with that line's error.
pub proof fn lemma_file_run_stops_at_failure(
    contents: Seq<char>,
    answers: Seq<Result<Seq<char>, ErrorModel>>,
    k: int,
)
    requires
        answers.len() == split_on(contents, '\n').len(),
        0 <= k < answers.len(),
        answers[k] is Err,
        forall|j: int| 0 <= j < k ==> (#[trigger] answers[j]) is Ok,
    ensures
        ({
            let q = drive(fresh_run(split_on(contents, '\n')), answers, answers.len());
            &&& q.responses.len() == k
            &&& forall|j: int|
                0 <= j < k ==> Ok::<Seq<char>, ErrorModel>(#[trigger] q.responses[j]) == answers[j]
            &&& next_line_spec(q) is None
            &&& outcome_spec(q) == Err::<Seq<Seq<char>>, ErrorModel>(answers[k]->Err_0)
        }),
{
    lemma_drive_to_failure(fresh_run(split_on(contents, '\n')), answers, k, answers.len());
}

impl FileRun {
    /// A run over the lines of `contents`, split at each newline.
    pub fn new(contents: &str) -> (r: FileRun)
        ensures
            r@ == fresh_run(split_on(contents@, '\n')),
    {
        let cs = chars_of(contents);
        let parts = split_chars(cs.as_slice(), '\n');
        let mut lines: Vec<String> = Vec::new();
        let mut i: usize = 0;
        while i < parts.len()
            invariant
                i <= parts@.len(),
                views(parts@) == split_on(cs@, '\n'),
                lines@.map_values(|l: String| l@) == views(parts@).subrange(0, i as int),
            decreases parts@.len() - i,
        {
            let ghost before = lines@;
            let l = string_of(parts[i].as_slice());
            assert(views(parts@)[i as int] == parts@[i as int]@);
            lines.push(l);
            assert(lines@ == before.push(l));
            assert(lines@.map_values(|l: String| l@) =~= before.map_values(|l: String| l@).push(l@));
            assert(lines@.map_values(|l: String| l@) =~= views(parts@).subrange(0, i + 1));
            i = i + 1;
        }
        assert(views(parts@).subrange(0, i as int) =~= views(parts@));
        let r = FileRun { lines, responses: Vec::new(), failure: None };
        assert(r@.responses =~= Seq::<Seq<char>>::empty());
        r
    }

    /// The next line to run, if any.
    pub fn next_line(&self) -> (r: Option<String>)
        ensures
            match r {
                Some(l) => next_line_spec(self@) == Some(l@),
                None => next_line_spec(self@) is None,
            },
    {
        if self.failure.is_none() && self.responses.len() < self.lines.len() {
            Some(self.lines[self.responses.len()].clone())
        } else {
            None
        }
    }

    /// Takes how the line handed out last went.
    pub fn record(&mut self, answer: Result<String, ClientError>)
        requires
            next_line_spec(old(self)@) is Some,
        ensures
            final(self)@ == record_spec(old(self)@, match answer {
                Ok(s) => Ok(s@),
                Err(e) => Err(e@),
            }),
    {
        match answer {
            Ok(s) => {
                let ghost before = self.responses@;
                self.responses.push(s);
                assert(self.responses@.map_values(|l: String| l@) =~= before.map_values(
                    |l: String| l@,
                ).push(s@));
            },
            Err(e) => {
                self.failure = Some(e);
            },
        }
    }

    /// The first failure, or else every reply in file order.
    pub fn finish(self) -> (r: Result<Vec<String>, ClientError>)
        ensures
            match r {
                Ok(v) => outcome_spec(self@) == Ok::<Seq<Seq<char>>, ErrorModel>(
                    v@.map_values(|l: String| l@),
                ),
                Err(e) => outcome_spec(self@) == Err::<Seq<Seq<char>>, ErrorModel>(e@),
            },
    {
        match self.failure {
            Some(e) => Err(e),
            None => Ok(self.responses),
        }
    }
}

} // verus!
