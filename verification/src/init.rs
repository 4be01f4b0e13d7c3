//! Getting into the room: log in, connect, authenticate, join, and ask for the selected chart.
//!
//! The task is a state machine. It names the next action; whoever runs it performs the action and
//! hands back what came of it. An action that fails ends the task.
use crate::config::Config;
use crate::room::RoomState;
use vstd::prelude::*;

verus! {

/// How far the task has come.
#[derive(Debug)]
pub enum InitStage {
    Login,
    Connect,
    Authenticate,
    CheckRoom,
    JoinRoom,
    ReadRoom,
    FetchChart { id: i32 },
    Done { chart: Option<(i32, String)> },
}

/// The task of getting into the room.
pub struct InitTask {
    pub config: Config,
    pub token: Option<String>,
    pub stage: InitStage,
}

/// What the task ends with: the chart that is selected in the room, and the token in use.
pub struct InitResult {
    pub chart: Option<(i32, String)>,
    pub token: String,
}

/// What is to be done next.
pub enum InitAction {
    /// Trade email and password for a token.
    Login { email: String, password: String },
    /// Connect to the game server.
    Connect { server: String },
    /// Present the token.
    Authenticate { token: String },
    /// Make a room id of the text, and see whether the server has the monitor in a room already.
    CheckRoom { room_id: String },
    /// Join the room as a monitor.
    JoinRoom { room_id: String },
    /// Ask what the room is doing.
    ReadRoom,
    /// Ask the server for the chart's description.
    FetchChart { id: i32 },
    /// Nothing: the monitor is in the room.
    Finish { result: InitResult },
}

/// What came of an action.
pub enum InitEvent {
    LoggedIn { token: String },
    Connected,
    Authenticated,
    RoomChecked { in_room: bool },
    Joined,
    RoomRead { room_state: RoomState },
    ChartFetched { name: String },
}

impl InitTask {
    /// Whether there is a token from the end of the login on.
    pub open spec fn wf(self) -> bool {
        self.stage is Login || self.token is Some
    }

    /// The next action.
    pub open spec fn next_action(self) -> InitAction {
        match self.stage {
            InitStage::Login => InitAction::Login {
                email: self.config.email,
                password: self.config.password,
            },
            InitStage::Connect => InitAction::Connect { server: self.config.server },
            InitStage::Authenticate => InitAction::Authenticate { token: self.token->0 },
            InitStage::CheckRoom => InitAction::CheckRoom { room_id: self.config.room_id },
            InitStage::JoinRoom => InitAction::JoinRoom { room_id: self.config.room_id },
            InitStage::ReadRoom => InitAction::ReadRoom,
            InitStage::FetchChart { id } => InitAction::FetchChart { id },
            InitStage::Done { chart } => InitAction::Finish {
                result: InitResult { chart, token: self.token->0 },
            },
        }
    }

    /// The task at another stage.
    pub open spec fn at(self, stage: InitStage) -> InitTask {
        InitTask { stage, ..self }
    }

    /// The task once the action it has named has come to `event`. An event that answers another
    /// action changes nothing.
    pub open spec fn advanced(self, event: InitEvent) -> InitTask {
        match (self.stage, event) {
            (InitStage::Login, InitEvent::LoggedIn { token }) => InitTask {
                token: Some(token),
                stage: InitStage::Connect,
                ..self
            },
            (InitStage::Connect, InitEvent::Connected) => self.at(InitStage::Authenticate),
            (InitStage::Authenticate, InitEvent::Authenticated) => self.at(InitStage::CheckRoom),
            (InitStage::CheckRoom, InitEvent::RoomChecked { in_room }) => if in_room {
                self.at(InitStage::ReadRoom)
            } else {
                self.at(InitStage::JoinRoom)
            },
            (InitStage::JoinRoom, InitEvent::Joined) => self.at(InitStage::ReadRoom),
            (InitStage::ReadRoom, InitEvent::RoomRead { room_state }) => match room_state {
                RoomState::SelectChart(Some(id)) => self.at(InitStage::FetchChart { id }),
                _ => self.at(InitStage::Done { chart: None }),
            },
            (InitStage::FetchChart { id }, InitEvent::ChartFetched { name }) => self.at(
                InitStage::Done { chart: Some((id, name)) },
            ),
            _ => self,
        }
    }

    /// The next action.
    pub fn action(&self) -> (r: InitAction)
        requires
            self.wf(),
        ensures
            r == self.next_action(),
    {
        match &self.stage {
            InitStage::Login => InitAction::Login {
                email: self.config.email.clone(),
                password: self.config.password.clone(),
            },
            InitStage::Connect => InitAction::Connect { server: self.config.server.clone() },
            InitStage::Authenticate => InitAction::Authenticate { token: self.current_token() },
            InitStage::CheckRoom => InitAction::CheckRoom { room_id: self.config.room_id.clone() },
            InitStage::JoinRoom => InitAction::JoinRoom { room_id: self.config.room_id.clone() },
            InitStage::ReadRoom => InitAction::ReadRoom,
            InitStage::FetchChart { id } => InitAction::FetchChart { id: *id },
            InitStage::Done { chart } => InitAction::Finish {
                result: InitResult {
                    chart: match chart {
                        Some(selected) => Some((selected.0, selected.1.clone())),
                        None => None,
                    },
                    token: self.current_token(),
                },
            },
        }
    }

    fn current_token(&self) -> (r: String)
        requires
            self.token is Some,
        ensures
            r == self.token->0,
    {
        match &self.token {
            Some(token) => token.clone(),
            None => String::new(),
        }
    }

    /// Takes over what came of the action that the task has named.
    pub fn advance(self, event: InitEvent) -> (r: InitTask)
        ensures
            r == self.advanced(event),
            self.wf() ==> r.wf(),
    {
        let InitTask { config, token, stage } = self;
        match (stage, event) {
            (InitStage::Login, InitEvent::LoggedIn { token }) => InitTask {
                config,
                token: Some(token),
                stage: InitStage::Connect,
            },
            (InitStage::Connect, InitEvent::Connected) => InitTask {
                config,
                token,
                stage: InitStage::Authenticate,
            },
            (InitStage::Authenticate, InitEvent::Authenticated) => InitTask {
                config,
                token,
                stage: InitStage::CheckRoom,
            },
            (InitStage::CheckRoom, InitEvent::RoomChecked { in_room }) => InitTask {
                config,
                token,
                stage: if in_room {
                    InitStage::ReadRoom
                } else {
                    InitStage::JoinRoom
                },
            },
            (InitStage::JoinRoom, InitEvent::Joined) => InitTask {
                config,
                token,
                stage: InitStage::ReadRoom,
            },
            (InitStage::ReadRoom, InitEvent::RoomRead { room_state }) => InitTask {
                config,
                token,
                stage: match room_state {
                    RoomState::SelectChart(Some(id)) => InitStage::FetchChart { id },
                    _ => InitStage::Done { chart: None },
                },
            },
            (InitStage::FetchChart { id }, InitEvent::ChartFetched { name }) => InitTask {
                config,
                token,
                stage: InitStage::Done { chart: Some((id, name)) },
            },
            (stage, _) => InitTask { config, token, stage },
        }
    }
}

/// The task of getting into the room. With a token at hand the login is left out.
pub fn create_init_task(config: Config, token: Option<String>) -> (r: InitTask)
    ensures
        r == (InitTask {
            config,
            token,
            stage: if token is Some {
                InitStage::Connect
            } else {
                InitStage::Login
            },
        }),
        r.wf(),
{
    let stage = if token.is_some() {
        InitStage::Connect
    } else {
        InitStage::Login
    };
    InitTask { config, token, stage }
}

/// How many answers the task still needs at most.
pub open spec fn answers_left(stage: InitStage) -> nat {
    match stage {
        InitStage::Login => 7,
        InitStage::Connect => 6,
        InitStage::Authenticate => 5,
        InitStage::CheckRoom => 4,
        InitStage::JoinRoom => 3,
        InitStage::ReadRoom => 2,
        InitStage::FetchChart { .. } => 1,
        InitStage::Done { .. } => 0,
    }
}

/// Every answer either brings the task closer to its end or changes nothing; a task that has gone
/// past the login never logs in again and keeps its token; and nothing changes the configuration.
pub proof fn law_init_goes_forward(task: InitTask, event: InitEvent)
    ensures
        task.advanced(event) == task || answers_left(task.advanced(event).stage) < answers_left(
            task.stage,
        ),
        !(task.stage is Login) ==> !(task.advanced(event).stage is Login)
            && task.advanced(event).token == task.token,
        task.advanced(event).config == task.config,
{
}

} // verus!
