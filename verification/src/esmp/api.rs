//! Requests to change a group or a profile: their shape, the rules they
//! have to meet, and what they turn into.

use vstd::prelude::*;
use vstd::string::{StrSliceExecFns, StringExecFns};
use vstd::utf8::encode_utf8;
use crate::esmp::handler::{EsmpMessage, MessageBody};
use crate::esmp::profile::{
    MAX_NAME_LENGTH, ProfileField, UserProfile, Visibility, find_invalid_character, first_invalid,
    url_fault, url_parse_fault,
};
use crate::esmp::system::{ProfileChanges, SystemMessageType};
use crate::text::texts;

verus! {

/// A request to change a group's name, description or picture. An absent
/// field is left as it is.
#[derive(Clone, Debug)]
pub struct GroupUpdateRequest {
    pub name: Option<String>,
    pub description: Option<String>,
    pub display_picture_url: Option<String>,
}

/// The new content of one profile field.
#[derive(Clone, Debug)]
pub struct ProfileFieldUpdate<T> {
    pub value: Option<T>,
    pub visibility: Option<Visibility>,
}

/// A request to replace a profile.
#[derive(Clone, Debug)]
pub struct ProfileUpdateRequest {
    pub first_name: Option<ProfileFieldUpdate<String>>,
    pub middle_name: Option<ProfileFieldUpdate<String>>,
    pub last_name: Option<ProfileFieldUpdate<String>>,
    pub display_picture: Option<ProfileFieldUpdate<String>>,
    pub address: Option<ProfileFieldUpdate<String>>,
}

/// A profile as sent to a client.
#[derive(Clone, Debug)]
pub struct ProfileResponse {
    pub pubkey: String,
    pub first_name: Option<String>,
    pub middle_name: Option<String>,
    pub last_name: Option<String>,
    pub display_picture: Option<String>,
    pub address: Option<String>,
    pub updated_at: Option<u64>,
}

/// A profile update together with its signature and the key that made it.
#[derive(Clone, Debug)]
pub struct SignedProfileRequest {
    pub request: ProfileUpdateRequest,
    pub signature: String,
    pub pubkey: String,
}

/// The complaint about a name that is too long.
pub open spec fn too_long_text(label: Seq<char>) -> Seq<char> {
    label + " is too long (max 50 characters)"@
}

/// The complaint about a character that a name may not hold.
pub open spec fn bad_character_text(c: char, label: Seq<char>) -> Seq<char> {
    "Invalid character '"@.push(c) + "' in "@ + label
}

/// The complaint about a display picture that is no URL.
pub open spec fn bad_url_text(reason: Seq<char>) -> Seq<char> {
    "Invalid display picture URL: "@ + reason
}

/// The value a field update carries, if any.
pub open spec fn value_of(update: Option<ProfileFieldUpdate<String>>) -> Option<String> {
    match update {
        Some(u) => u.value,
        None => None,
    }
}

/// The visibility a field update asks for, or private where it asks for
/// none.
pub open spec fn visibility_of(update: Option<ProfileFieldUpdate<String>>) -> Visibility {
    match update {
        Some(u) => match u.visibility {
            Some(v) => v,
            None => Visibility::Private,
        },
        None => Visibility::Private,
    }
}

/// The profile field a field update turns into.
pub open spec fn field_of(update: Option<ProfileFieldUpdate<String>>) -> ProfileField<String> {
    ProfileField { value: value_of(update), visibility: visibility_of(update) }
}

/// What is wrong with the name an update carries, if anything: it is longer
/// than fifty bytes, or else it holds a character that a name may not hold.
pub open spec fn name_complaint(label: Seq<char>, update: Option<ProfileFieldUpdate<String>>) -> Option<
    Seq<char>,
> {
    match value_of(update) {
        None => None,
        Some(name) => {
            if encode_utf8(name@).len() > MAX_NAME_LENGTH {
                Some(too_long_text(label))
            } else {
                match first_invalid(name@) {
                    Some(c) => Some(bad_character_text(c, label)),
                    None => None,
                }
            }
        },
    }
}

/// The first of two complaints that is present.
pub open spec fn or_complaint(first: Option<Seq<char>>, second: Option<Seq<char>>) -> Option<Seq<char>> {
    if first is Some {
        first
    } else {
        second
    }
}

fn check_update(label: &str, update: &Option<ProfileFieldUpdate<String>>) -> (r: Result<(), String>)
    ensures
        match r {
            Ok(()) => name_complaint(label@, *update) is None,
            Err(text) => name_complaint(label@, *update) == Some(text@),
        },
{
    let name = match update {
        None => {
            return Ok(());
        },
        Some(u) => match &u.value {
            None => {
                return Ok(());
            },
            Some(name) => name,
        },
    };
    if name.as_str().as_bytes().len() > MAX_NAME_LENGTH {
        let mut text = label.to_owned();
        text.append(" is too long (max 50 characters)");
        return Err(text);
    }
    match find_invalid_character(name.as_str()) {
        Some(c) => {
            let mut text = "Invalid character '".to_owned();
            text.push(c);
            text.append("' in ");
            text.append(label);
            Err(text)
        },
        None => Ok(()),
    }
}

fn field_from(update: &Option<ProfileFieldUpdate<String>>) -> (field: ProfileField<String>)
    ensures
        field == field_of(*update),
{
    match update {
        None => ProfileField { value: None, visibility: Visibility::Private },
        Some(u) => ProfileField {
            value: match &u.value {
                Some(text) => Some(text.clone()),
                None => None,
            },
            visibility: match u.visibility {
                Some(v) => v,
                None => Visibility::Private,
            },
        },
    }
}

fn value_from(update: &Option<ProfileFieldUpdate<String>>) -> (value: Option<String>)
    ensures
        value == value_of(*update),
{
    match update {
        None => None,
        Some(u) => match &u.value {
            Some(text) => Some(text.clone()),
            None => None,
        },
    }
}

impl ProfileUpdateRequest {
    /// What is wrong with the request, if anything. The address may not be
    /// marked public. The display picture, if given, must parse as a URL.
    /// The first, the middle and the last name, in this order, must meet
    /// the rules for names.
    pub open spec fn complaint(&self) -> Option<Seq<char>> {
        let address = if self.address is Some && self.address->0.visibility == Some(Visibility::Public) {
            Some("Address field cannot be marked as public"@)
        } else {
            None
        };
        let picture = match value_of(self.display_picture) {
            Some(url) => match url_fault(url@) {
                Some(reason) => Some(bad_url_text(reason)),
                None => None,
            },
            None => None,
        };
        or_complaint(
            address,
            or_complaint(
                picture,
                or_complaint(
                    name_complaint("first_name"@, self.first_name),
                    or_complaint(
                        name_complaint("middle_name"@, self.middle_name),
                        name_complaint("last_name"@, self.last_name),
                    ),
                ),
            ),
        )
    }

    /// Checks the request and reports the first complaint.
    pub fn validate(&self) -> (r: Result<(), String>)
        ensures
            match r {
                Ok(()) => self.complaint() is None,
                Err(text) => self.complaint() == Some(text@),
            },
    {
        if let Some(address) = &self.address {
            match address.visibility {
                Some(Visibility::Public) => {
                    return Err("Address field cannot be marked as public".to_owned());
                },
                _ => {},
            }
        }
        if let Some(picture) = &self.display_picture {
            if let Some(url) = &picture.value {
                if let Some(reason) = url_parse_fault(url.as_str()) {
                    let mut text = "Invalid display picture URL: ".to_owned();
                    text.append(reason.as_str());
                    return Err(text);
                }
            }
        }
        match check_update("first_name", &self.first_name) {
            Err(text) => {
                return Err(text);
            },
            Ok(()) => {},
        }
        match check_update("middle_name", &self.middle_name) {
            Err(text) => {
                return Err(text);
            },
            Ok(()) => {},
        }
        check_update("last_name", &self.last_name)
    }

    /// Builds the profile the request asks for, for the owner `pubkey` at
    /// time `now`. Each text field takes the value and the visibility the
    /// request gives it, and is absent and private where the request does
    /// not mention it. The address is taken as plain bytes, yet to be
    /// sealed, and is always private.
    pub fn to_profile(&self, pubkey: &str, now: u64) -> (profile: UserProfile)
        ensures
            profile.pubkey@ == pubkey@,
            profile.first_name == field_of(self.first_name),
            profile.middle_name == field_of(self.middle_name),
            profile.last_name == field_of(self.last_name),
            profile.display_picture == field_of(self.display_picture),
            profile.address.visibility == Visibility::Private,
            match value_of(self.address) {
                Some(text) => profile.address.value is Some && profile.address.value->0@ == encode_utf8(
                    text@,
                ),
                None => profile.address.value is None,
            },
            profile.updated_at == Some(now),
    {
        let address = match &self.address {
            None => None,
            Some(u) => match &u.value {
                Some(text) => Some(text.as_str().as_bytes_vec()),
                None => None,
            },
        };
        UserProfile {
            pubkey: pubkey.to_owned(),
            first_name: field_from(&self.first_name),
            middle_name: field_from(&self.middle_name),
            last_name: field_from(&self.last_name),
            display_picture: field_from(&self.display_picture),
            address: ProfileField { value: address, visibility: Visibility::Private },
            updated_at: Some(now),
        }
    }

    /// The changes the request announces: the values it gives to the three
    /// names and to the display picture.
    pub fn changes(&self) -> (changes: ProfileChanges)
        ensures
            changes.first_name == value_of(self.first_name),
            changes.middle_name == value_of(self.middle_name),
            changes.last_name == value_of(self.last_name),
            changes.display_picture == value_of(self.display_picture),
    {
        ProfileChanges {
            first_name: value_from(&self.first_name),
            middle_name: value_from(&self.middle_name),
            last_name: value_from(&self.last_name),
            display_picture: value_from(&self.display_picture),
        }
    }
}

/// One change to a group: the kind of system message that announces it and
/// the new value.
#[derive(Clone, Debug)]
pub struct GroupChange {
    pub kind: SystemMessageType,
    pub value: String,
}

/// Mathematical value of a [`GroupChange`].
pub struct Change {
    pub kind: SystemMessageType,
    pub value: Seq<char>,
}

impl View for GroupChange {
    type V = Change;

    open spec fn view(&self) -> Change {
        Change { kind: self.kind, value: self.value@ }
    }
}

/// The change a field of the request asks for, if the field is present.
pub open spec fn change_of(kind: SystemMessageType, value: Option<String>) -> Seq<Change> {
    match value {
        Some(text) => seq![Change { kind, value: text@ }],
        None => Seq::empty(),
    }
}

impl GroupUpdateRequest {
    /// The changes the request asks for: a rename, then a new description,
    /// then a new picture, each only if the request gives it.
    pub open spec fn asked(&self) -> Seq<Change> {
        change_of(SystemMessageType::GroupRenamed, self.name) + change_of(
            SystemMessageType::DescriptionUpdated,
            self.description,
        ) + change_of(SystemMessageType::DpUpdated, self.display_picture_url)
    }

    /// Lists the changes the request asks for, in the order in which they
    /// are announced.
    pub fn changes(&self) -> (list: Vec<GroupChange>)
        ensures
            list@.map_values(|c: GroupChange| c@) == self.asked(),
    {
        let mut list: Vec<GroupChange> = Vec::new();
        if let Some(name) = &self.name {
            list.push(GroupChange { kind: SystemMessageType::GroupRenamed, value: name.clone() });
        }
        if let Some(description) = &self.description {
            list.push(
                GroupChange { kind: SystemMessageType::DescriptionUpdated, value: description.clone() },
            );
        }
        if let Some(url) = &self.display_picture_url {
            list.push(GroupChange { kind: SystemMessageType::DpUpdated, value: url.clone() });
        }
        assert(list@.map_values(|c: GroupChange| c@) == self.asked());
        list
    }
}

fn copy_texts(list: &Vec<String>) -> (copy: Vec<String>)
    ensures
        texts(copy@) == texts(list@),
{
    let mut copy: Vec<String> = Vec::new();
    let mut i: usize = 0;
    while i < list.len()
        invariant
            i <= list@.len(),
            texts(copy@) == texts(list@).take(i as int),
        decreases list@.len() - i,
    {
        let ghost held = texts(copy@);
        copy.push(list[i].clone());
        assert(texts(copy@) == held.push(list@[i as int]@));
        assert(texts(list@).take(i + 1) == texts(list@).take(i as int).push(list@[i as int]@));
        i = i + 1;
    }
    assert(texts(list@).take(i as int) == texts(list@));
    copy
}

/// Builds the system message that announces `change` to the members of the
/// group `group_id`, on behalf of the administrator `pubkey` whose request
/// carried `signature`, at time `now`. The message is addressed to every
/// member, names the administrator as actor and sender, and carries the
/// new value in the field that belongs to the kind of change.
pub fn announcement(
    change: GroupChange,
    group_id: &str,
    members: &Vec<String>,
    pubkey: &str,
    signature: &str,
    now: u64,
) -> (message: EsmpMessage)
    ensures
        texts(message.to@) == texts(members@),
        message.cc is None,
        message.group_id is Some && message.group_id->0@ == group_id@,
        message.is_system(),
        message.subtype is Some && message.subtype->0@ == change.kind.name(),
        message.actor is Some && message.actor->0@ == pubkey@,
        message.target is None,
        message.timestamp == Some(now),
        message.body.group_name is None,
        message.body.group_description is None,
        message.body.group_display_picture is None,
        message.signature@ == signature@,
        message.sender_pubkey@ == pubkey@,
        message.new_name == (if change.kind is GroupRenamed {
            Some(change.value)
        } else {
            None
        }),
        message.new_description == (if change.kind is DescriptionUpdated {
            Some(change.value)
        } else {
            None
        }),
        message.new_dp_url == (if change.kind is DpUpdated {
            Some(change.value)
        } else {
            None
        }),
{
    let GroupChange { kind, value } = change;
    let subtype = kind.to_string();
    let mut new_name: Option<String> = None;
    let mut new_description: Option<String> = None;
    let mut new_dp_url: Option<String> = None;
    match kind {
        SystemMessageType::GroupRenamed => {
            new_name = Some(value);
        },
        SystemMessageType::DescriptionUpdated => {
            new_description = Some(value);
        },
        SystemMessageType::DpUpdated => {
            new_dp_url = Some(value);
        },
        _ => {},
    }
    EsmpMessage {
        to: copy_texts(members),
        cc: None,
        group_id: Some(group_id.to_owned()),
        kind: "system".to_owned(),
        subtype: Some(subtype),
        actor: Some(pubkey.to_owned()),
        target: None,
        timestamp: Some(now),
        body: MessageBody { group_name: None, group_description: None, group_display_picture: None },
        signature: signature.to_owned(),
        sender_pubkey: pubkey.to_owned(),
        new_name,
        new_description,
        new_dp_url,
    }
}

} // verus!
