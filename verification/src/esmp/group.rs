//! Group metadata and how system messages change it.

use vstd::prelude::*;
use vstd::string::StringExecFns;
use crate::esmp::handler::EsmpMessage;
use crate::esmp::system::SystemMessageType;
use crate::text::{contains_text, differs_from, remove_text, str_eq, texts};

verus! {

/// What the server knows of a group.
#[derive(Clone, Debug)]
pub struct GroupMetadata {
    pub group_id: String,
    pub group_name: Option<String>,
    pub group_description: Option<String>,
    pub group_display_picture: Option<String>,
    /// Seconds since the Unix epoch at the group's creation.
    pub created_at: Option<u64>,
    /// Seconds since the Unix epoch at the last change.
    pub updated_at: Option<u64>,
    pub admins: Vec<String>,
    pub members: Vec<String>,
}

/// Mathematical value of a [`GroupMetadata`].
pub struct GroupState {
    pub group_id: Seq<char>,
    pub group_name: Option<Seq<char>>,
    pub group_description: Option<Seq<char>>,
    pub group_display_picture: Option<Seq<char>>,
    pub created_at: Option<u64>,
    pub updated_at: Option<u64>,
    pub admins: Seq<Seq<char>>,
    pub members: Seq<Seq<char>>,
}

/// The text of a string that may be absent.
pub open spec fn text_of(value: Option<String>) -> Option<Seq<char>> {
    match value {
        Some(s) => Some(s@),
        None => None,
    }
}

impl View for GroupMetadata {
    type V = GroupState;

    open spec fn view(&self) -> GroupState {
        GroupState {
            group_id: self.group_id@,
            group_name: text_of(self.group_name),
            group_description: text_of(self.group_description),
            group_display_picture: text_of(self.group_display_picture),
            created_at: self.created_at,
            updated_at: self.updated_at,
            admins: texts(self.admins@),
            members: texts(self.members@),
        }
    }
}

/// `list` with `item` added at the end unless it is there already.
pub open spec fn with_member(list: Seq<Seq<char>>, item: Seq<char>) -> Seq<Seq<char>> {
    if list.contains(item) {
        list
    } else {
        list.push(item)
    }
}

/// `list` without any occurrence of `item`.
pub open spec fn without_member(list: Seq<Seq<char>>, item: Seq<char>) -> Seq<Seq<char>> {
    list.filter(differs_from(item))
}

impl GroupState {
    /// The state of a group nothing is known of but its id.
    pub open spec fn unknown(group_id: Seq<char>) -> GroupState {
        GroupState {
            group_id,
            group_name: None,
            group_description: None,
            group_display_picture: None,
            created_at: None,
            updated_at: None,
            admins: Seq::empty(),
            members: Seq::empty(),
        }
    }

    /// The state after a system message of `kind` has been applied at time
    /// `now`.
    ///
    /// A creation stamps the group, takes its properties from the body and
    /// makes the actor its first administrator and member. A rename or an
    /// update of the description or of the picture takes the new value. A
    /// join adds the actor to the members. A leave or a removal takes the
    /// target, or else the actor, out of the members and the
    /// administrators. An assignment adds the target to the administrators;
    /// a revocation takes it out. A message that lacks the part it acts on
    /// changes nothing, and neither does a member who is added twice. Every
    /// change stamps the group with `now`.
    pub open spec fn applied(self, message: &EsmpMessage, kind: SystemMessageType, now: u64) -> GroupState {
        let actor = text_of(message.actor);
        let target = text_of(message.target);
        match kind {
            SystemMessageType::GroupCreated => GroupState {
                created_at: Some(now),
                updated_at: Some(now),
                group_name: text_of(message.body.group_name),
                group_description: text_of(message.body.group_description),
                group_display_picture: text_of(message.body.group_display_picture),
                admins: if actor is Some {
                    self.admins.push(actor->0)
                } else {
                    self.admins
                },
                members: if actor is Some {
                    self.members.push(actor->0)
                } else {
                    self.members
                },
                ..self
            },
            SystemMessageType::GroupRenamed => if message.new_name is Some {
                GroupState { group_name: text_of(message.new_name), updated_at: Some(now), ..self }
            } else {
                self
            },
            SystemMessageType::DescriptionUpdated => if message.new_description is Some {
                GroupState {
                    group_description: text_of(message.new_description),
                    updated_at: Some(now),
                    ..self
                }
            } else {
                self
            },
            SystemMessageType::DpUpdated => if message.new_dp_url is Some {
                GroupState {
                    group_display_picture: text_of(message.new_dp_url),
                    updated_at: Some(now),
                    ..self
                }
            } else {
                self
            },
            SystemMessageType::Joined => if actor is Some && !self.members.contains(actor->0) {
                GroupState { members: self.members.push(actor->0), updated_at: Some(now), ..self }
            } else {
                self
            },
            SystemMessageType::Left | SystemMessageType::Removed => {
                let who = if target is Some {
                    target
                } else {
                    actor
                };
                if who is Some {
                    GroupState {
                        members: without_member(self.members, who->0),
                        admins: without_member(self.admins, who->0),
                        updated_at: Some(now),
                        ..self
                    }
                } else {
                    self
                }
            },
            SystemMessageType::AdminAssigned => if target is Some && !self.admins.contains(target->0) {
                GroupState { admins: self.admins.push(target->0), updated_at: Some(now), ..self }
            } else {
                self
            },
            SystemMessageType::AdminRevoked => if target is Some {
                GroupState {
                    admins: without_member(self.admins, target->0),
                    updated_at: Some(now),
                    ..self
                }
            } else {
                self
            },
            SystemMessageType::ProfileUpdated => self,
        }
    }

    /// The state after `message` has been recorded at time `now`: changed
    /// as its kind says if it is a system message with a known subtype, and
    /// unchanged otherwise.
    pub open spec fn recorded(self, message: &EsmpMessage, now: u64) -> GroupState {
        if message.is_system() && message.subtype is Some && SystemMessageType::parse(
            message.subtype->0@,
        ) is Some {
            self.applied(message, SystemMessageType::parse(message.subtype->0@)->0, now)
        } else {
            self
        }
    }
}

fn copy_text(value: &Option<String>) -> (copy: Option<String>)
    ensures
        copy == *value,
{
    match value {
        Some(s) => Some(s.clone()),
        None => None,
    }
}

fn push_text(list: &mut Vec<String>, item: &String)
    ensures
        texts(final(list)@) == texts(old(list)@).push(item@),
{
    let ghost before = texts(list@);
    list.push(item.clone());
    assert(texts(list@) == before.push(item@));
}

impl Default for GroupMetadata {
    /// The metadata of a group of which not even the id is known.
    fn default() -> (group: GroupMetadata)
        ensures
            group@ == GroupState::unknown(Seq::empty()),
    {
        let group = GroupMetadata {
            group_id: String::new(),
            group_name: None,
            group_description: None,
            group_display_picture: None,
            created_at: None,
            updated_at: None,
            admins: Vec::new(),
            members: Vec::new(),
        };
        assert(texts(group.admins@) == Seq::<Seq<char>>::empty());
        assert(texts(group.members@) == Seq::<Seq<char>>::empty());
        group
    }
}

impl GroupMetadata {
    /// The metadata of a group nothing is known of but its id.
    pub fn unknown(group_id: &str) -> (group: GroupMetadata)
        ensures
            group@ == GroupState::unknown(group_id@),
    {
        let group = GroupMetadata {
            group_id: group_id.to_owned(),
            group_name: None,
            group_description: None,
            group_display_picture: None,
            created_at: None,
            updated_at: None,
            admins: Vec::new(),
            members: Vec::new(),
        };
        assert(texts(group.admins@) == Seq::<Seq<char>>::empty());
        assert(texts(group.members@) == Seq::<Seq<char>>::empty());
        group
    }

    /// Whether `pubkey` is one of the group's administrators.
    pub fn is_admin(&self, pubkey: &str) -> (r: bool)
        ensures
            r == self@.admins.contains(pubkey@),
    {
        contains_text(&self.admins, pubkey)
    }

    /// Applies a system message of `kind` to the metadata.
    pub fn apply(&mut self, message: &EsmpMessage, kind: SystemMessageType, now: u64)
        ensures
            final(self)@ == old(self)@.applied(message, kind, now),
    {
        match kind {
            SystemMessageType::GroupCreated => {
                self.created_at = Some(now);
                self.updated_at = Some(now);
                self.group_name = copy_text(&message.body.group_name);
                self.group_description = copy_text(&message.body.group_description);
                self.group_display_picture = copy_text(&message.body.group_display_picture);
                if let Some(actor) = &message.actor {
                    push_text(&mut self.admins, actor);
                    push_text(&mut self.members, actor);
                }
            },
            SystemMessageType::GroupRenamed => {
                if let Some(new_name) = &message.new_name {
                    self.group_name = Some(new_name.clone());
                    self.updated_at = Some(now);
                }
            },
            SystemMessageType::DescriptionUpdated => {
                if let Some(new_description) = &message.new_description {
                    self.group_description = Some(new_description.clone());
                    self.updated_at = Some(now);
                }
            },
            SystemMessageType::DpUpdated => {
                if let Some(new_dp_url) = &message.new_dp_url {
                    self.group_display_picture = Some(new_dp_url.clone());
                    self.updated_at = Some(now);
                }
            },
            SystemMessageType::Joined => {
                if let Some(actor) = &message.actor {
                    if !contains_text(&self.members, actor.as_str()) {
                        push_text(&mut self.members, actor);
                        self.updated_at = Some(now);
                    }
                }
            },
            SystemMessageType::Left | SystemMessageType::Removed => {
                let who = match &message.target {
                    Some(target) => Some(target),
                    None => match &message.actor {
                        Some(actor) => Some(actor),
                        None => None,
                    },
                };
                if let Some(who) = who {
                    remove_text(&mut self.members, who.as_str());
                    remove_text(&mut self.admins, who.as_str());
                    self.updated_at = Some(now);
                }
            },
            SystemMessageType::AdminAssigned => {
                if let Some(target) = &message.target {
                    if !contains_text(&self.admins, target.as_str()) {
                        push_text(&mut self.admins, target);
                        self.updated_at = Some(now);
                    }
                }
            },
            SystemMessageType::AdminRevoked => {
                if let Some(target) = &message.target {
                    remove_text(&mut self.admins, target.as_str());
                    self.updated_at = Some(now);
                }
            },
            SystemMessageType::ProfileUpdated => {},
        }
    }

    /// Records `message` in the metadata at time `now`. Only a system
    /// message with a known subtype changes anything.
    pub fn record(&mut self, message: &EsmpMessage, now: u64)
        ensures
            final(self)@ == old(self)@.recorded(message, now),
    {
        if str_eq(message.kind.as_str(), "system") {
            if let Some(subtype) = &message.subtype {
                if let Some(kind) = SystemMessageType::from_str(subtype.as_str()) {
                    self.apply(message, kind, now);
                }
            }
        }
    }
}

/// The name of the file a group's thread is stored in.
pub open spec fn thread_file(group_id: Seq<char>) -> Seq<char> {
    "group_"@ + group_id + ".jsonl"@
}

/// The name of the file a group's metadata is stored in.
pub open spec fn meta_file(group_id: Seq<char>) -> Seq<char> {
    "group_"@ + group_id + "_meta.json"@
}

/// Builds the name of the file the thread of `group_id` is stored in.
pub fn thread_file_name(group_id: &str) -> (name: String)
    ensures
        name@ == thread_file(group_id@),
{
    let mut name = "group_".to_owned();
    name.append(group_id);
    name.append(".jsonl");
    name
}

/// Builds the name of the file the metadata of `group_id` is stored in.
pub fn meta_file_name(group_id: &str) -> (name: String)
    ensures
        name@ == meta_file(group_id@),
{
    let mut name = "group_".to_owned();
    name.append(group_id);
    name.append("_meta.json");
    name
}

/// Once someone has left or been removed, they are neither a member nor an
/// administrator.
pub proof fn lemma_departed_is_gone(list: Seq<Seq<char>>, who: Seq<char>)
    ensures
        !without_member(list, who).contains(who),
        forall|other: Seq<char>| other != who ==> (without_member(list, who).contains(other)
            <==> list.contains(other)),
    decreases list.len(),
{
    reveal(Seq::filter);
    if list.len() > 0 {
        let front = list.drop_last();
        lemma_departed_is_gone(front, who);
        let kept = without_member(front, who);
        assert forall|other: Seq<char>| other != who implies (without_member(list, who).contains(other)
            <==> list.contains(other)) by {
            if list.contains(other) {
                let i = choose|i: int| 0 <= i < list.len() && list[i] == other;
                if i < list.len() - 1 {
                    assert(front[i] == other);
                    assert(kept.contains(other));
                    let j = choose|j: int| 0 <= j < kept.len() && kept[j] == other;
                    assert(without_member(list, who)[j] == other);
                } else {
                    assert(without_member(list, who)[kept.len() as int] == other);
                }
            }
            if without_member(list, who).contains(other) {
                let j = choose|j: int|
                    0 <= j < without_member(list, who).len() && without_member(list, who)[j] == other;
                if j < kept.len() {
                    assert(kept[j] == other);
                    assert(front.contains(other));
                    let i = choose|i: int| 0 <= i < front.len() && front[i] == other;
                    assert(list[i] == other);
                } else {
                    assert(list[list.len() - 1] == other);
                }
            }
        }
        if without_member(list, who).contains(who) {
            let j = choose|j: int|
                0 <= j < without_member(list, who).len() && without_member(list, who)[j] == who;
            if j < kept.len() {
                assert(kept[j] == who);
            }
        }
    }
}

} // verus!
