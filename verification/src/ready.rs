//! Getting ready for a round: see that the chart is on disk, then tell the server.
//!
//! The task is a state machine, run in the same way as the one that gets into the room.
use crate::dir::{chart_url, info_file, info_path};
use crate::entity::{ChartEntity, LocalInfo};
use crate::text::signed_decimal;
use vstd::prelude::*;

verus! {

/// How far the task has come.
#[derive(Debug)]
pub enum ReadyStage {
    Fetch,
    ReadInfo { entity: ChartEntity },
    Download { entity: ChartEntity },
    Announce,
    Done,
}

/// The task of getting ready to play chart `id`.
pub struct ReadyTask {
    pub id: i32,
    pub token: String,
    pub stage: ReadyStage,
}

/// What is to be done next.
pub enum ReadyAction {
    /// Ask the server for the chart's description.
    Fetch { url: String },
    /// Read the description of the local copy, if the file is there.
    ReadInfo { path: String },
    /// Download the chart.
    Download { entity: ChartEntity, token: String },
    /// Tell the server that the monitor is ready.
    Announce,
    /// Nothing: the monitor is ready.
    Finish,
}

/// What came of an action.
#[derive(Debug)]
pub enum ReadyEvent {
    Fetched { entity: ChartEntity },
    /// The local description, or nothing where there is no such file.
    InfoRead { local: Option<LocalInfo> },
    Downloaded,
    Announced,
}

impl ReadyTask {
    /// Whether `action` is the next action.
    pub open spec fn asks_for(self, action: ReadyAction) -> bool {
        match self.stage {
            ReadyStage::Fetch => action matches ReadyAction::Fetch { url } && url@
                == "https://phira.5wyxi.com/chart/"@ + signed_decimal(self.id as int),
            ReadyStage::ReadInfo { .. } => action matches ReadyAction::ReadInfo { path } && path@
                == info_file(self.id as int),
            ReadyStage::Download { entity } => action == (ReadyAction::Download {
                entity,
                token: self.token,
            }),
            ReadyStage::Announce => action is Announce,
            ReadyStage::Done => action is Finish,
        }
    }

    /// The task at another stage.
    pub open spec fn at(self, stage: ReadyStage) -> ReadyTask {
        ReadyTask { stage, ..self }
    }

    /// The task once the action it has named has come to `event`. An event that answers another
    /// action changes nothing.
    pub open spec fn advanced(self, event: ReadyEvent) -> ReadyTask {
        match (self.stage, event) {
            (ReadyStage::Fetch, ReadyEvent::Fetched { entity }) => self.at(
                ReadyStage::ReadInfo { entity },
            ),
            (ReadyStage::ReadInfo { entity }, ReadyEvent::InfoRead { local }) => if entity.is_stale(
                local,
            ) {
                self.at(ReadyStage::Download { entity })
            } else {
                self.at(ReadyStage::Announce)
            },
            (ReadyStage::Download { .. }, ReadyEvent::Downloaded) => self.at(ReadyStage::Announce),
            (ReadyStage::Announce, ReadyEvent::Announced) => self.at(ReadyStage::Done),
            _ => self,
        }
    }

    /// The task at its beginning.
    pub fn new(id: i32, token: String) -> (r: Self)
        ensures
            r == (ReadyTask { id, token, stage: ReadyStage::Fetch }),
    {
        ReadyTask { id, token, stage: ReadyStage::Fetch }
    }

    /// The next action.
    pub fn action(&self) -> (r: ReadyAction)
        ensures
            self.asks_for(r),
    {
        match &self.stage {
            ReadyStage::Fetch => ReadyAction::Fetch { url: chart_url(self.id) },
            ReadyStage::ReadInfo { .. } => ReadyAction::ReadInfo { path: info_path(self.id) },
            ReadyStage::Download { entity } => ReadyAction::Download {
                entity: entity.duplicate(),
                token: self.token.clone(),
            },
            ReadyStage::Announce => ReadyAction::Announce,
            ReadyStage::Done => ReadyAction::Finish,
        }
    }

    /// Takes over what came of the action that the task has named.
    pub fn advance(self, event: ReadyEvent) -> (r: ReadyTask)
        ensures
            r == self.advanced(event),
    {
        let ReadyTask { id, token, stage } = self;
        match (stage, event) {
            (ReadyStage::Fetch, ReadyEvent::Fetched { entity }) => ReadyTask {
                id,
                token,
                stage: ReadyStage::ReadInfo { entity },
            },
            (ReadyStage::ReadInfo { entity }, ReadyEvent::InfoRead { local }) => {
                let stage = if entity.should_download(local) {
                    ReadyStage::Download { entity }
                } else {
                    ReadyStage::Announce
                };
                ReadyTask { id, token, stage }
            },
            (ReadyStage::Download { .. }, ReadyEvent::Downloaded) => ReadyTask {
                id,
                token,
                stage: ReadyStage::Announce,
            },
            (ReadyStage::Announce, ReadyEvent::Announced) => ReadyTask {
                id,
                token,
                stage: ReadyStage::Done,
            },
            (stage, _) => ReadyTask { id, token, stage },
        }
    }
}

/// The server is told that the monitor is ready only once the local copy is up to date, or has been
/// replaced; and the chart is downloaded only if the local copy is not up to date.
pub proof fn law_ready_means_up_to_date(task: ReadyTask, event: ReadyEvent)
    ensures
        ({
            let after = task.advanced(event);
            &&& after.stage is Announce && !(task.stage is Announce) ==> {
                ||| task.stage is Download && event is Downloaded
                ||| {
                    &&& task.stage matches ReadyStage::ReadInfo { entity }
                    &&& event matches ReadyEvent::InfoRead { local }
                    &&& !entity.is_stale(local)
                }
            }
            &&& after.stage is Download && !(task.stage is Download) ==> {
                &&& task.stage matches ReadyStage::ReadInfo { entity }
                &&& event matches ReadyEvent::InfoRead { local }
                &&& entity.is_stale(local)
            }
            &&& after.stage is Done && !(task.stage is Done) ==> task.stage is Announce
            &&& after.id == task.id && after.token == task.token
        }),
{
}

} // verus!
