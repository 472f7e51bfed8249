//! Incoming messages: what a system message has to carry, and what is to be
//! done with a message once its signature has been checked.

use vstd::prelude::*;
use crate::esmp::system::SystemMessageType;
use crate::text::str_eq;

verus! {

/// What the server reads of a message's body: the properties a new group
/// is created with.
#[derive(Clone, Debug)]
pub struct MessageBody {
    pub group_name: Option<String>,
    pub group_description: Option<String>,
    pub group_display_picture: Option<String>,
}

/// A message of the protocol.
#[derive(Clone, Debug)]
pub struct EsmpMessage {
    pub to: Vec<String>,
    pub cc: Option<Vec<String>>,
    pub group_id: Option<String>,
    /// The message's type; `system` marks a system message.
    pub kind: String,
    /// Names the kind of a system message.
    pub subtype: Option<String>,
    /// Who acted, in a system message.
    pub actor: Option<String>,
    /// Whom a system message is about.
    pub target: Option<String>,
    /// Seconds since the Unix epoch, in a system message.
    pub timestamp: Option<u64>,
    pub body: MessageBody,
    pub signature: String,
    pub sender_pubkey: String,
    pub new_name: Option<String>,
    pub new_description: Option<String>,
    pub new_dp_url: Option<String>,
}

/// What a system message of `kind` lacks, given which of its parts are
/// present: the group first, then the actor, then the target, then the new
/// value that a rename or an update of the description or of the picture
/// announces.
pub open spec fn missing_part(
    kind: SystemMessageType,
    has_group: bool,
    has_actor: bool,
    has_target: bool,
    has_new_name: bool,
    has_new_description: bool,
    has_new_dp_url: bool,
) -> Option<Seq<char>> {
    if kind.needs_group() && !has_group {
        Some("This system message type requires a group_id"@)
    } else if kind.needs_actor() && !has_actor {
        Some("This system message type requires an actor"@)
    } else if kind.needs_target() && !has_target {
        Some("This system message type requires a target"@)
    } else if kind is GroupRenamed && !has_new_name {
        Some("group_renamed requires new_name"@)
    } else if kind is DescriptionUpdated && !has_new_description {
        Some("description_updated requires new_description"@)
    } else if kind is DpUpdated && !has_new_dp_url {
        Some("dp_updated requires new_dp_url"@)
    } else {
        None
    }
}

/// What `dispatch` decides to do with a message.
#[derive(Debug)]
pub enum Disposition {
    /// The signature does not verify: the message is dropped.
    Rejected,
    /// A system message that lacks something: dropped, with the reason.
    Invalid(&'static str),
    /// To be stored in the thread of the group `group_id`.
    Group { group_id: String, message: EsmpMessage },
    /// A message between users, outside any group.
    Direct(EsmpMessage),
}

impl EsmpMessage {
    /// Whether the message is a system message.
    pub open spec fn is_system(&self) -> bool {
        self.kind@ == "system"@
    }

    /// What is wrong with the message as a system message, if anything: it
    /// has no subtype, its subtype names no kind, or it lacks a part that
    /// its kind requires.
    pub open spec fn system_fault(&self) -> Option<Seq<char>> {
        match self.subtype {
            None => Some("System messages must have a subtype"@),
            Some(subtype) => match SystemMessageType::parse(subtype@) {
                None => Some("Invalid system message subtype"@),
                Some(kind) => missing_part(
                    kind,
                    self.group_id is Some,
                    self.actor is Some,
                    self.target is Some,
                    self.new_name is Some,
                    self.new_description is Some,
                    self.new_dp_url is Some,
                ),
            },
        }
    }

    /// Checks that the message carries what a system message of its kind
    /// has to carry, and reports the first thing missing.
    pub fn validate_system_message(&self) -> (r: Result<(), &'static str>)
        ensures
            match r {
                Ok(()) => self.system_fault() is None,
                Err(reason) => self.system_fault() == Some(reason@),
            },
    {
        let subtype = match &self.subtype {
            None => {
                return Err("System messages must have a subtype");
            },
            Some(subtype) => subtype,
        };
        let kind = match SystemMessageType::from_str(subtype.as_str()) {
            None => {
                return Err("Invalid system message subtype");
            },
            Some(kind) => kind,
        };
        if kind.requires_group() && self.group_id.is_none() {
            return Err("This system message type requires a group_id");
        }
        if kind.requires_actor() && self.actor.is_none() {
            return Err("This system message type requires an actor");
        }
        if kind.requires_target() && self.target.is_none() {
            return Err("This system message type requires a target");
        }
        match kind {
            SystemMessageType::GroupRenamed => {
                if self.new_name.is_none() {
                    return Err("group_renamed requires new_name");
                }
            },
            SystemMessageType::DescriptionUpdated => {
                if self.new_description.is_none() {
                    return Err("description_updated requires new_description");
                }
            },
            SystemMessageType::DpUpdated => {
                if self.new_dp_url.is_none() {
                    return Err("dp_updated requires new_dp_url");
                }
            },
            _ => {},
        }
        Ok(())
    }

    /// The message with its time set to `now` unless it already has one.
    pub open spec fn stamped(self, now: u64) -> EsmpMessage {
        if self.timestamp is None {
            EsmpMessage { timestamp: Some(now), ..self }
        } else {
            self
        }
    }
}

/// Mathematical value of a [`Disposition`].
pub enum Route {
    Rejected,
    Invalid(Seq<char>),
    Group { group_id: Seq<char>, message: EsmpMessage },
    Direct(EsmpMessage),
}

impl View for Disposition {
    type V = Route;

    open spec fn view(&self) -> Route {
        match self {
            Disposition::Rejected => Route::Rejected,
            Disposition::Invalid(reason) => Route::Invalid(reason@),
            Disposition::Group { group_id, message } => Route::Group {
                group_id: group_id@,
                message: *message,
            },
            Disposition::Direct(message) => Route::Direct(*message),
        }
    }
}

/// What is to be done with `message`, given whether its signature verified.
///
/// A message whose signature does not verify is rejected. A system message
/// is checked and, if nothing is missing, stored in its group's thread,
/// stamped with `now` unless it carries a time. Any other message goes to
/// the thread of the group it names, or is a direct message if it names
/// none.
pub open spec fn route(message: EsmpMessage, signed: bool, now: u64) -> Route {
    if !signed {
        Route::Rejected
    } else if message.is_system() {
        match message.system_fault() {
            Some(reason) => Route::Invalid(reason),
            None => Route::Group { group_id: message.group_id->0@, message: message.stamped(now) },
        }
    } else if message.group_id is Some {
        Route::Group { group_id: message.group_id->0@, message }
    } else {
        Route::Direct(message)
    }
}

/// Decides what is to be done with `message`, given whether its signature
/// verified and the current time.
pub fn dispatch(message: EsmpMessage, signed: bool, now: u64) -> (d: Disposition)
    ensures
        d@ == route(message, signed, now),
{
    if !signed {
        return Disposition::Rejected;
    }
    if str_eq(message.kind.as_str(), "system") {
        match message.validate_system_message() {
            Err(reason) => Disposition::Invalid(reason),
            Ok(()) => {
                let group_id = match &message.group_id {
                    Some(group_id) => group_id.clone(),
                    None => {
                        return Disposition::Invalid("This system message type requires a group_id");
                    },
                };
                let mut message = message;
                if message.timestamp.is_none() {
                    message.timestamp = Some(now);
                }
                Disposition::Group { group_id, message }
            },
        }
    } else {
        match &message.group_id {
            Some(group_id) => {
                let group_id = group_id.clone();
                Disposition::Group { group_id, message }
            },
            None => Disposition::Direct(message),
        }
    }
}

} // verus!
