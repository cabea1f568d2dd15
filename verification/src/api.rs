use vstd::prelude::*;
use crate::models::{ConnectionHealth, HeadsetState, Message, MessageVariant};

verus! {

/// What the web API shows of one headset.
pub struct HeadsetInfo {
    pub name: String,
    pub recv: usize,
    pub connection_health: ConnectionHealth,
}

impl HeadsetInfo {
    /// The information shown for `headset`.
    pub fn from_headset(headset: &HeadsetState) -> (r: HeadsetInfo)
        ensures
            r.name@ == headset.name_view(),
            r.recv == headset.recv_count(),
            r.connection_health == headset.health(),
    {
        HeadsetInfo {
            name: headset.name().clone(),
            recv: headset.recv(),
            connection_health: headset.connection_health(),
        }
    }

    /// The information shown for each listed headset, under the id it is listed with.
    pub fn collect_from_state(headsets: &Vec<(&str, &HeadsetState)>) -> (r: Vec<(String, HeadsetInfo)>)
        ensures
            r@.len() == headsets@.len(),
            forall|i: int| 0 <= i < r@.len() ==> {
                let (id, info) = #[trigger] r@[i];
                &&& id@ == headsets@[i].0@
                &&& info.name@ == headsets@[i].1.name_view()
                &&& info.recv == headsets@[i].1.recv_count()
                &&& info.connection_health == headsets@[i].1.health()
            },
    {
        let mut r: Vec<(String, HeadsetInfo)> = Vec::new();
        let mut i: usize = 0;
        while i < headsets.len()
            invariant
                i <= headsets@.len(),
                r@.len() == i,
                forall|j: int| 0 <= j < i ==> {
                    let (id, info) = #[trigger] r@[j];
                    &&& id@ == headsets@[j].0@
                    &&& info.name@ == headsets@[j].1.name_view()
                    &&& info.recv == headsets@[j].1.recv_count()
                    &&& info.connection_health == headsets@[j].1.health()
                },
            decreases headsets@.len() - i,
        {
            let (id, headset) = headsets[i];
            r.push((id.to_owned(), HeadsetInfo::from_headset(headset)));
            i = i + 1;
        }
        r
    }
}

/// The status of a reply of the web API.
#[derive(PartialEq, Eq, Structural, Clone, Copy, Debug)]
pub enum ApiStatus {
    Success,
    BadRequest,
    MethodNotAllowed,
    InternalServerError,
}

impl ApiStatus {
    /// The HTTP status code.
    pub open spec fn spec_code(self) -> u16 {
        match self {
            ApiStatus::Success => 200,
            ApiStatus::BadRequest => 400,
            ApiStatus::MethodNotAllowed => 405,
            ApiStatus::InternalServerError => 500,
        }
    }

    /// The HTTP status code.
    pub fn code(&self) -> (r: u16)
        ensures
            r == self.spec_code(),
    {
        match self {
            ApiStatus::Success => 200,
            ApiStatus::BadRequest => 400,
            ApiStatus::MethodNotAllowed => 405,
            ApiStatus::InternalServerError => 500,
        }
    }
}

/// A reply of the web API: its status and the text of its body, if it has one.
pub struct ApiReply {
    pub status: ApiStatus,
    pub body: Option<String>,
}

/// The listing of headsets is only read: any method but GET is not allowed.
pub fn headsets_status(is_get: bool) -> (r: ApiStatus)
    ensures
        r == if is_get { ApiStatus::Success } else { ApiStatus::MethodNotAllowed },
{
    if is_get {
        ApiStatus::Success
    } else {
        ApiStatus::MethodNotAllowed
    }
}

/// A command posted under the kind number `msg_type` is accepted only when its body is a
/// command of that kind.
pub fn accept_command(msg_type: usize, body: MessageVariant) -> (r: Result<Message, ApiStatus>)
    ensures
        r is Ok <==> msg_type == body.discriminant(),
        r matches Ok(m) ==> m.command() == body,
        r matches Err(s) ==> s == ApiStatus::BadRequest,
{
    let ghost b = body;
    let msg: Message = body.into();
    proof {
        crate::models::law_message_from_command(b);
    }
    if msg_type == msg.id() {
        Ok(msg)
    } else {
        Err(ApiStatus::BadRequest)
    }
}

/// The reply to an accepted command once it was broadcast: an empty success, or a server
/// error that tells why the broadcast failed.
pub fn broadcast_reply(outcome: Result<(), String>) -> (r: ApiReply)
    ensures
        outcome is Ok ==> r.status == ApiStatus::Success && r.body is None,
        outcome matches Err(why) ==> {
            &&& r.status == ApiStatus::InternalServerError
            &&& r.body matches Some(text)
            &&& text@ == "Failed to broadcast message: "@ + why@
        },
{
    match outcome {
        Ok(()) => ApiReply { status: ApiStatus::Success, body: None },
        Err(why) => {
            let mut text = String::from_str("Failed to broadcast message: ");
            text.append(why.as_str());
            ApiReply { status: ApiStatus::InternalServerError, body: Some(text) }
        },
    }
}

} // verus!
