//! Laws of the two tasks: which action follows which answer. They speak of single actions and
//! answers.
use crate::entity::{ChartEntity, LocalInfo, Timestamp};
use crate::init::{InitAction, InitEvent, InitResult, InitTask};
use crate::ready::{ReadyAction, ReadyEvent, ReadyStage, ReadyTask};
use crate::room::RoomState;
use crate::text::signed_decimal;
use vstd::prelude::*;

verus! {

/// What the task of getting into the room begins with: with a token it connects at once, and without
/// one it logs in first.
pub proof fn law_a_token_spares_the_login(task: InitTask)
    ensures
        task.stage is Login ==> task.next_action() == (InitAction::Login {
            email: task.config.email,
            password: task.config.password,
        }),
        task.stage is Connect ==> task.next_action() == (InitAction::Connect {
            server: task.config.server,
        }),
{
}

/// The way into the room: the login gives the token; the server is connected to and shown the token;
/// the room is joined unless the monitor is in one; and the room's selected chart, if it is selecting
/// and has one, is asked for by its number. The task ends with that chart and its name, or without
/// one, and with the token in use.
pub proof fn law_the_way_into_the_room(task: InitTask, event: InitEvent)
    requires
        task.wf(),
    ensures
        ({
            let after = task.advanced(event);
            &&& task.next_action() is Login ==> (event matches InitEvent::LoggedIn { token } ==> {
                &&& after.token == Some(token)
                &&& after.next_action() == (InitAction::Connect { server: task.config.server })
            })
            &&& task.next_action() is Connect && event is Connected ==> after.next_action() == (
            InitAction::Authenticate { token: task.token->0 })
            &&& task.next_action() is Authenticate && event is Authenticated ==> after.next_action()
                == (InitAction::CheckRoom { room_id: task.config.room_id })
            &&& task.next_action() is CheckRoom ==> (event matches InitEvent::RoomChecked { in_room }
                ==> {
                &&& in_room ==> after.next_action() is ReadRoom
                &&& !in_room ==> after.next_action() == (InitAction::JoinRoom {
                    room_id: task.config.room_id,
                })
            })
            &&& task.next_action() is JoinRoom && event is Joined ==> after.next_action() is ReadRoom
            &&& task.next_action() is ReadRoom ==> (event matches InitEvent::RoomRead { room_state }
                ==> {
                &&& room_state matches RoomState::SelectChart(Some(id)) ==> after.next_action() == (
                InitAction::FetchChart { id })
                &&& !(room_state is SelectChart) || room_state == RoomState::SelectChart(None)
                    ==> after.next_action() == (InitAction::Finish {
                    result: InitResult { chart: None, token: task.token->0 },
                })
            })
            &&& task.next_action() matches InitAction::FetchChart { id } ==> (
            event matches InitEvent::ChartFetched { name } ==> after.next_action() == (
            InitAction::Finish {
                result: InitResult { chart: Some((id, name)), token: task.token->0 },
            }))
            &&& after.config == task.config
            &&& !(event is LoggedIn) ==> after.token == task.token
        }),
{
}

/// An answer to another action than the one that was named changes nothing, and a task that is over
/// takes no answer.
pub proof fn law_only_answers_move_the_task(task: InitTask, event: InitEvent)
    ensures
        !(match event {
            InitEvent::LoggedIn { .. } => task.stage is Login,
            InitEvent::Connected => task.stage is Connect,
            InitEvent::Authenticated => task.stage is Authenticate,
            InitEvent::RoomChecked { .. } => task.stage is CheckRoom,
            InitEvent::Joined => task.stage is JoinRoom,
            InitEvent::RoomRead { .. } => task.stage is ReadRoom,
            InitEvent::ChartFetched { .. } => task.stage is FetchChart,
        }) ==> task.advanced(event) == task,
{
}

/// Whether two instants are the same, to the nanosecond.
pub open spec fn same_instant(a: Timestamp, b: Timestamp) -> bool {
    a.seconds == b.seconds && a.nanos == b.nanos
}

/// When a chart has to be downloaded: if there is no copy; if the copy was made of a version that was
/// updated at any other instant; and, if the copy does not say of which, if the chart was updated
/// since it was created.
pub proof fn law_when_a_copy_is_stale(entity: ChartEntity, local: Option<LocalInfo>)
    ensures
        local is None ==> entity.is_stale(local),
        local matches Some(info) ==> (info.updated matches Some(updated) ==> entity.is_stale(local)
            == !same_instant(updated, entity.updated)),
        local matches Some(info) ==> (info.updated is None ==> entity.is_stale(local)
            == !same_instant(entity.updated, entity.created)),
{
}

/// The way to being ready: the chart's description is asked for by its number; then the local copy's
/// description is read; the chart is downloaded, with the token, if the copy is missing or of
/// another version; then the server is told, and that is all.
pub proof fn law_the_way_to_being_ready(task: ReadyTask, event: ReadyEvent)
    ensures
        ({
            let after = task.advanced(event);
            &&& task.stage is Fetch ==> (event matches ReadyEvent::Fetched { entity }
                ==> after.stage == (ReadyStage::ReadInfo { entity }))
            &&& task.stage matches ReadyStage::ReadInfo { entity } ==> (
            event matches ReadyEvent::InfoRead { local } ==> {
                let current = match local {
                    Some(info) => match info.updated {
                        Some(updated) => same_instant(updated, entity.updated),
                        None => same_instant(entity.updated, entity.created),
                    },
                    None => false,
                };
                &&& current ==> after.stage is Announce
                &&& !current ==> after.stage == (ReadyStage::Download { entity })
            })
            &&& task.stage is Download && event is Downloaded ==> after.stage is Announce
            &&& task.stage is Announce && event is Announced ==> after.stage is Done
            &&& !(match event {
                ReadyEvent::Fetched { .. } => task.stage is Fetch,
                ReadyEvent::InfoRead { .. } => task.stage is ReadInfo,
                ReadyEvent::Downloaded => task.stage is Download,
                ReadyEvent::Announced => task.stage is Announce,
            }) ==> after == task
            &&& after.id == task.id
            &&& after.token == task.token
        }),
{
}

/// What each stage of getting ready asks for.
pub proof fn law_what_getting_ready_asks_for(task: ReadyTask, action: ReadyAction)
    requires
        task.asks_for(action),
    ensures
        task.stage is Fetch ==> (action matches ReadyAction::Fetch { url } && url@
            == "https://phira.5wyxi.com/chart/"@ + signed_decimal(task.id as int)),
        task.stage is ReadInfo ==> (action matches ReadyAction::ReadInfo { path } && path@
            == "data/charts"@ + "/"@ + "download/"@ + signed_decimal(task.id as int) + "/info.yml"@),
        task.stage matches ReadyStage::Download { entity } ==> action == (ReadyAction::Download {
            entity,
            token: task.token,
        }),
        task.stage is Announce ==> action is Announce,
        task.stage is Done ==> action is Finish,
{
}

} // verus!
