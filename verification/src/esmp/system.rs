//! The kinds of system message and the changes a profile update announces.

use vstd::prelude::*;
use crate::text::str_eq;

verus! {

/// The kind of a system message, as named by its subtype.
#[derive(Clone, Copy, Debug, PartialEq, Eq, Structural)]
pub enum SystemMessageType {
    Joined,
    Left,
    Removed,
    AdminAssigned,
    AdminRevoked,
    GroupCreated,
    GroupRenamed,
    DescriptionUpdated,
    DpUpdated,
    ProfileUpdated,
}

/// The name fields a profile update announces; a field that did not change
/// is absent.
#[derive(Clone, Debug)]
pub struct ProfileChanges {
    pub first_name: Option<String>,
    pub middle_name: Option<String>,
    pub last_name: Option<String>,
    pub display_picture: Option<String>,
}

impl SystemMessageType {
    /// The subtype text that names the kind.
    pub open spec fn name(self) -> Seq<char> {
        match self {
            SystemMessageType::Joined => "joined"@,
            SystemMessageType::Left => "left"@,
            SystemMessageType::Removed => "removed"@,
            SystemMessageType::AdminAssigned => "admin_assigned"@,
            SystemMessageType::AdminRevoked => "admin_revoked"@,
            SystemMessageType::GroupCreated => "group_created"@,
            SystemMessageType::GroupRenamed => "group_renamed"@,
            SystemMessageType::DescriptionUpdated => "description_updated"@,
            SystemMessageType::DpUpdated => "dp_updated"@,
            SystemMessageType::ProfileUpdated => "profile_updated"@,
        }
    }

    /// The kind a subtype text names, if it names one.
    pub open spec fn parse(s: Seq<char>) -> Option<SystemMessageType> {
        if s == "joined"@ {
            Some(SystemMessageType::Joined)
        } else if s == "left"@ {
            Some(SystemMessageType::Left)
        } else if s == "removed"@ {
            Some(SystemMessageType::Removed)
        } else if s == "admin_assigned"@ {
            Some(SystemMessageType::AdminAssigned)
        } else if s == "admin_revoked"@ {
            Some(SystemMessageType::AdminRevoked)
        } else if s == "group_created"@ {
            Some(SystemMessageType::GroupCreated)
        } else if s == "group_renamed"@ {
            Some(SystemMessageType::GroupRenamed)
        } else if s == "description_updated"@ {
            Some(SystemMessageType::DescriptionUpdated)
        } else if s == "dp_updated"@ {
            Some(SystemMessageType::DpUpdated)
        } else if s == "profile_updated"@ {
            Some(SystemMessageType::ProfileUpdated)
        } else {
            None
        }
    }

    /// Reads a subtype text. Any text other than the ten names is refused.
    pub fn from_str(s: &str) -> (kind: Option<SystemMessageType>)
        ensures
            kind == SystemMessageType::parse(s@),
    {
        if str_eq(s, "joined") {
            Some(SystemMessageType::Joined)
        } else if str_eq(s, "left") {
            Some(SystemMessageType::Left)
        } else if str_eq(s, "removed") {
            Some(SystemMessageType::Removed)
        } else if str_eq(s, "admin_assigned") {
            Some(SystemMessageType::AdminAssigned)
        } else if str_eq(s, "admin_revoked") {
            Some(SystemMessageType::AdminRevoked)
        } else if str_eq(s, "group_created") {
            Some(SystemMessageType::GroupCreated)
        } else if str_eq(s, "group_renamed") {
            Some(SystemMessageType::GroupRenamed)
        } else if str_eq(s, "description_updated") {
            Some(SystemMessageType::DescriptionUpdated)
        } else if str_eq(s, "dp_updated") {
            Some(SystemMessageType::DpUpdated)
        } else if str_eq(s, "profile_updated") {
            Some(SystemMessageType::ProfileUpdated)
        } else {
            None
        }
    }

    /// Writes the kind as its subtype text.
    pub fn to_string(&self) -> (text: String)
        ensures
            text@ == self.name(),
    {
        match self {
            SystemMessageType::Joined => "joined".to_owned(),
            SystemMessageType::Left => "left".to_owned(),
            SystemMessageType::Removed => "removed".to_owned(),
            SystemMessageType::AdminAssigned => "admin_assigned".to_owned(),
            SystemMessageType::AdminRevoked => "admin_revoked".to_owned(),
            SystemMessageType::GroupCreated => "group_created".to_owned(),
            SystemMessageType::GroupRenamed => "group_renamed".to_owned(),
            SystemMessageType::DescriptionUpdated => "description_updated".to_owned(),
            SystemMessageType::DpUpdated => "dp_updated".to_owned(),
            SystemMessageType::ProfileUpdated => "profile_updated".to_owned(),
        }
    }

    /// Whether a message of this kind must name the group it is about.
    /// Every kind does.
    pub open spec fn needs_group(self) -> bool {
        true
    }

    /// Whether a message of this kind must name who acted. Every kind does.
    pub open spec fn needs_actor(self) -> bool {
        true
    }

    /// Whether a message of this kind must name whom it is about: the member
    /// removed, or the member whose administrator role changes.
    pub open spec fn needs_target(self) -> bool {
        self is Removed || self is AdminAssigned || self is AdminRevoked
    }

    /// Whether a message of this kind must name the group it is about.
    pub fn requires_group(&self) -> (r: bool)
        ensures
            r == self.needs_group(),
    {
        true
    }

    /// Whether a message of this kind must name who acted.
    pub fn requires_actor(&self) -> (r: bool)
        ensures
            r == self.needs_actor(),
    {
        true
    }

    /// Whether a message of this kind must name whom it is about.
    pub fn requires_target(&self) -> (r: bool)
        ensures
            r == self.needs_target(),
    {
        match self {
            SystemMessageType::Removed => true,
            SystemMessageType::AdminAssigned => true,
            SystemMessageType::AdminRevoked => true,
            _ => false,
        }
    }
}

/// Writing a kind and reading the text back gives the kind again: no two
/// kinds share a name.
pub proof fn lemma_name_round_trip(kind: SystemMessageType)
    ensures
        SystemMessageType::parse(kind.name()) == Some(kind),
{
    reveal_strlit("joined");
    reveal_strlit("left");
    reveal_strlit("removed");
    reveal_strlit("admin_assigned");
    reveal_strlit("admin_revoked");
    reveal_strlit("group_created");
    reveal_strlit("group_renamed");
    reveal_strlit("description_updated");
    reveal_strlit("dp_updated");
    reveal_strlit("profile_updated");
    assert("joined"@.len() == 6);
    assert("left"@.len() == 4);
    assert("removed"@.len() == 7);
    assert("admin_assigned"@.len() == 14);
    assert("admin_revoked"@.len() == 13);
    assert("group_created"@.len() == 13);
    assert("group_renamed"@.len() == 13);
    assert("description_updated"@.len() == 19);
    assert("dp_updated"@.len() == 10);
    assert("profile_updated"@.len() == 15);
    assert("admin_revoked"@[0] == 'a');
    assert("group_created"@[0] == 'g');
    assert("group_renamed"@[0] == 'g');
    assert("group_created"@[6] == 'c');
    assert("group_renamed"@[6] == 'r');
}

} // verus!
