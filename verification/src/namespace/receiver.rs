//! Messages of the receiver-control channel.

use vstd::prelude::*;
use crate::app::{App, AppId, AppModel};
use crate::shared::{Volume, VolumeLevel, VolumeModel};

verus! {

/// A receiver-control message: the requests a sender issues and the replies
/// a receiver returns.
#[derive(Clone, Debug)]
pub enum Receiver {
    GetStatus,
    Launch(LaunchRequest),
    SetVolume(SetVolumeRequest),
    Stop(StopRequest),
    LaunchError(LaunchErrorResponse),
    ReceiverStatus(ReceiverStatusResponse),
}

/// Mathematical image of a [`Receiver`] message.
pub enum ReceiverModel {
    GetStatus,
    Launch(Seq<char>),
    SetVolume(VolumeModel),
    Stop(Seq<char>),
    LaunchError(Seq<char>),
    ReceiverStatus(StatusModel),
}

impl View for Receiver {
    type V = ReceiverModel;

    open spec fn view(&self) -> ReceiverModel {
        match self {
            Receiver::GetStatus => ReceiverModel::GetStatus,
            Receiver::Launch(r) => ReceiverModel::Launch(r.app_id@),
            Receiver::SetVolume(r) => ReceiverModel::SetVolume(r.volume@),
            Receiver::Stop(r) => ReceiverModel::Stop(r.session_id@),
            Receiver::LaunchError(r) => ReceiverModel::LaunchError(r.reason@),
            Receiver::ReceiverStatus(r) => ReceiverModel::ReceiverStatus(r.status@),
        }
    }
}

/// Asks the receiver to launch an application.
#[derive(Clone, Debug)]
pub struct LaunchRequest {
    pub app_id: String,
}

/// Asks the receiver to stop the session with the given id.
#[derive(Clone, Debug)]
pub struct StopRequest {
    pub session_id: String,
}

/// Asks the receiver to change its volume.
#[derive(Clone, Debug)]
pub struct SetVolumeRequest {
    pub volume: Volume,
}

/// The receiver's current state.
#[derive(Clone, Debug)]
pub struct ReceiverStatusResponse {
    pub status: Status,
}

/// The receiver rejected a launch, with its reason.
#[derive(Clone, Debug)]
pub struct LaunchErrorResponse {
    pub reason: String,
}

/// Mathematical image of a [`Status`].
pub struct StatusModel {
    pub applications: Option<Seq<AppModel>>,
    pub is_active_input: Option<bool>,
    pub is_standby: Option<bool>,
    pub volume: VolumeModel,
}

/// The state a receiver reports: running applications and volume.
#[derive(Clone, Debug)]
pub struct Status {
    pub applications: Option<Vec<App>>,
    pub is_active_input: Option<bool>,
    pub is_standby: Option<bool>,
    pub volume: Volume,
}

/// The applications a sequence of application values denotes.
pub open spec fn apps(v: Seq<App>) -> Seq<AppModel> {
    Seq::new(v.len(), |i: int| v[i]@)
}

impl View for Status {
    type V = StatusModel;

    open spec fn view(&self) -> StatusModel {
        StatusModel {
            applications: match self.applications {
                Some(ref a) => Some(apps(a@)),
                None => None,
            },
            is_active_input: self.is_active_input,
            is_standby: self.is_standby,
            volume: self.volume@,
        }
    }
}

impl Receiver {
    /// The request that sets the receiver's volume to the given level, in
    /// thousandths of full volume, and mute state.
    pub fn set_volume_request(level_millis: u32, muted: bool) -> (r: Receiver)
        ensures
            r@ matches ReceiverModel::SetVolume(v) && v.muted == Some(muted) && v.level is Some
                && v.control_type is None,
    {
        Receiver::SetVolume(
            SetVolumeRequest {
                volume: Volume {
                    control_type: None,
                    muted: Some(muted),
                    level: Some(VolumeLevel::from_millis(level_millis)),
                },
            },
        )
    }

    /// The request that launches the given application.
    pub fn launch_request(app_id: AppId) -> (r: Receiver)
        ensures
            r@ == ReceiverModel::Launch(crate::app::spec_app_id_text(app_id@)),
    {
        Receiver::Launch(LaunchRequest { app_id: app_id.id_text() })
    }

    /// The request that stops the session with the given id.
    pub fn stop_request(session_id: String) -> (r: Receiver)
        ensures
            r@ == ReceiverModel::Stop(session_id@),
    {
        Receiver::Stop(StopRequest { session_id })
    }
}

} // verus!
