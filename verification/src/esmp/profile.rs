//! User profiles: fields with a visibility, the sealed address, and the
//! rules a profile has to meet before it is stored.

use vstd::prelude::*;
use vstd::string::{StrSliceExecFns, StringExecFns};
use vstd::utf8::{encode_utf8, valid_utf8};
use url::Url;
use crate::text::str_eq;

verus! {

/// Longest name accepted, in bytes of UTF-8.
pub const MAX_NAME_LENGTH: usize = 50;

/// Longest address accepted, in bytes.
pub const MAX_ADDRESS_LENGTH: usize = 200;

/// Why a profile was refused or could not be processed.
#[derive(Debug)]
pub enum ProfileError {
    InvalidDisplayPictureUrl(String),
    NameTooLong(String),
    AddressTooLong,
    InvalidNameCharacter(char),
    Io(String),
    Json(String),
    EncryptionError(String),
    DecryptionError(String),
    UnauthorizedAccess,
}

/// Mathematical value of a [`ProfileError`].
pub enum ProfileFault {
    InvalidDisplayPictureUrl(Seq<char>),
    NameTooLong(Seq<char>),
    AddressTooLong,
    InvalidNameCharacter(char),
    Io(Seq<char>),
    Json(Seq<char>),
    EncryptionError(Seq<char>),
    DecryptionError(Seq<char>),
    UnauthorizedAccess,
}

impl View for ProfileError {
    type V = ProfileFault;

    open spec fn view(&self) -> ProfileFault {
        match self {
            ProfileError::InvalidDisplayPictureUrl(url) => ProfileFault::InvalidDisplayPictureUrl(url@),
            ProfileError::NameTooLong(name) => ProfileFault::NameTooLong(name@),
            ProfileError::AddressTooLong => ProfileFault::AddressTooLong,
            ProfileError::InvalidNameCharacter(c) => ProfileFault::InvalidNameCharacter(*c),
            ProfileError::Io(text) => ProfileFault::Io(text@),
            ProfileError::Json(text) => ProfileFault::Json(text@),
            ProfileError::EncryptionError(text) => ProfileFault::EncryptionError(text@),
            ProfileError::DecryptionError(text) => ProfileFault::DecryptionError(text@),
            ProfileError::UnauthorizedAccess => ProfileFault::UnauthorizedAccess,
        }
    }
}

impl ProfileFault {
    /// The fault lies in what the client sent, not in the server.
    pub open spec fn blames_client(self) -> bool {
        ||| self is InvalidDisplayPictureUrl
        ||| self is NameTooLong
        ||| self is AddressTooLong
        ||| self is InvalidNameCharacter
    }
}

impl ProfileError {
    /// Whether the error is to be reported as a bad request rather than as a
    /// failure of the server.
    pub fn is_client_error(&self) -> (r: bool)
        ensures
            r == self@.blames_client(),
    {
        match self {
            ProfileError::InvalidDisplayPictureUrl(_) => true,
            ProfileError::NameTooLong(_) => true,
            ProfileError::AddressTooLong => true,
            ProfileError::InvalidNameCharacter(_) => true,
            _ => false,
        }
    }
}

/// Who may see a profile field.
#[derive(Clone, Copy, Debug, PartialEq, Eq, Structural)]
pub enum Visibility {
    Public,
    Private,
}

impl Default for Visibility {
    fn default() -> (v: Visibility)
        ensures
            v == Visibility::Private,
    {
        Visibility::Private
    }
}

/// A profile field: a value that may be absent, and who may see it.
#[derive(Clone, Debug)]
pub struct ProfileField<T> {
    pub value: Option<T>,
    pub visibility: Visibility,
}

impl<T> Default for ProfileField<T> {
    fn default() -> (field: ProfileField<T>)
        ensures
            field.value is None,
            field.visibility == Visibility::Private,
    {
        ProfileField { value: None, visibility: Visibility::Private }
    }
}

/// A user's profile. The address is held sealed.
#[derive(Clone, Debug)]
pub struct UserProfile {
    /// The user's Ed25519 public key as base64 text.
    pub pubkey: String,
    pub first_name: ProfileField<String>,
    pub middle_name: ProfileField<String>,
    pub last_name: ProfileField<String>,
    pub display_picture: ProfileField<String>,
    pub address: ProfileField<Vec<u8>>,
    /// Seconds since the Unix epoch at the last change, where known.
    pub updated_at: Option<u64>,
}

impl Default for UserProfile {
    /// A profile without a key and without a time: every field absent and
    /// private.
    fn default() -> (profile: UserProfile)
        ensures
            profile.pubkey@.len() == 0,
            profile == UserProfile::blank(profile.pubkey, None),
    {
        UserProfile::created_at(String::new(), None)
    }
}

/// What `Url::parse` of the `url` crate makes of `text`: `None` where it
/// parses as an absolute URL, else the text of the parse error.
pub uninterp spec fn url_fault(text: Seq<char>) -> Option<Seq<char>>;

/// Whether `char::is_alphabetic` holds of `c`: whether `c` has the Unicode
/// property Alphabetic.
pub uninterp spec fn alphabetic(c: char) -> bool;

/// Calls `Url::parse` and hands out the text of its error, or `None` where
/// the text parses.
#[verifier::external_body]
pub(crate) fn url_parse_fault(text: &str) -> (fault: Option<String>)
    ensures
        match fault {
            Some(reason) => url_fault(text@) == Some(reason@),
            None => url_fault(text@) is None,
        },
{
    Url::parse(text).err().map(|e| e.to_string())
}

/// Calls `char::is_alphabetic`.
#[verifier::external_body]
pub(crate) fn is_alphabetic(c: char) -> (r: bool)
    ensures
        r == alphabetic(c),
{
    c.is_alphabetic()
}

/// Calls `std::str::from_utf8` and says whether it accepted the bytes,
/// which it does exactly when they are well-formed UTF-8.
#[verifier::external_body]
fn is_utf8(bytes: &[u8]) -> (r: bool)
    ensures
        r == valid_utf8(bytes@),
{
    std::str::from_utf8(bytes).is_ok()
}

/// Reads the system clock with `SystemTime::now` and hands out the whole
/// seconds since the Unix epoch, or `None` where the clock stands before
/// it. Nothing is promised of the value.
#[verifier::external_body]
fn unix_time() -> (now: Option<u64>) {
    std::time::SystemTime::now().duration_since(std::time::UNIX_EPOCH).ok().map(|d| d.as_secs())
}

/// A character a name may hold: a letter, a space, a hyphen or an
/// apostrophe.
pub open spec fn allowed_in_name(c: char) -> bool {
    alphabetic(c) || c == ' ' || c == '-' || c == '\''
}

/// The first character of `text` that a name may not hold, if there is one.
pub open spec fn first_invalid(text: Seq<char>) -> Option<char>
    decreases text.len(),
{
    if text.len() == 0 {
        None
    } else if !allowed_in_name(text.first()) {
        Some(text.first())
    } else {
        first_invalid(text.drop_first())
    }
}

/// What is wrong with a name, if anything: it is longer than fifty bytes,
/// or else it holds a character that a name may not hold. An absent name
/// has no fault.
pub open spec fn name_fault(label: Seq<char>, value: Option<String>) -> Option<ProfileFault> {
    match value {
        None => None,
        Some(name) => {
            if encode_utf8(name@).len() > MAX_NAME_LENGTH {
                Some(ProfileFault::NameTooLong(label))
            } else {
                match first_invalid(name@) {
                    Some(c) => Some(ProfileFault::InvalidNameCharacter(c)),
                    None => None,
                }
            }
        },
    }
}

/// The first of two faults that is present.
pub open spec fn or_else(first: Option<ProfileFault>, second: Option<ProfileFault>) -> Option<
    ProfileFault,
> {
    if first is Some {
        first
    } else {
        second
    }
}

proof fn lemma_first_invalid(text: Seq<char>, i: int)
    requires
        0 <= i <= text.len(),
        forall|k: int| 0 <= k < i ==> allowed_in_name(text[k]),
    ensures
        i < text.len() && !allowed_in_name(text[i]) ==> first_invalid(text) == Some(text[i]),
        i == text.len() ==> first_invalid(text) is None,
    decreases text.len(),
{
    if text.len() > 0 && i > 0 {
        let rest = text.drop_first();
        assert forall|k: int| 0 <= k < i - 1 implies allowed_in_name(rest[k]) by {
            assert(rest[k] == text[k + 1]);
        }
        lemma_first_invalid(rest, i - 1);
        if i < text.len() {
            assert(rest[i - 1] == text[i]);
        }
    }
}

/// Finds the first character of `text` that a name may not hold.
pub fn find_invalid_character(text: &str) -> (found: Option<char>)
    ensures
        found == first_invalid(text@),
{
    let n = text.unicode_len();
    let mut i: usize = 0;
    while i < n
        invariant
            n == text@.len(),
            i <= n,
            forall|k: int| 0 <= k < i ==> allowed_in_name(text@[k]),
        decreases n - i,
    {
        let c = text.get_char(i);
        if !is_alphabetic(c) && c != ' ' && c != '-' && c != '\'' {
            proof {
                lemma_first_invalid(text@, i as int);
            }
            return Some(c);
        }
        i = i + 1;
    }
    proof {
        lemma_first_invalid(text@, i as int);
    }
    None
}

/// Checks one name field against the rules for names.
pub fn check_name(label: &str, value: &Option<String>) -> (r: Result<(), ProfileError>)
    ensures
        match r {
            Ok(()) => name_fault(label@, *value) is None,
            Err(e) => name_fault(label@, *value) == Some(e@),
        },
{
    match value {
        None => Ok(()),
        Some(name) => {
            if name.as_str().as_bytes().len() > MAX_NAME_LENGTH {
                return Err(ProfileError::NameTooLong(label.to_owned()));
            }
            match find_invalid_character(name.as_str()) {
                Some(c) => Err(ProfileError::InvalidNameCharacter(c)),
                None => Ok(()),
            }
        },
    }
}

/// The field a write leaves behind: the value given, visible as asked, or
/// private where nothing was asked.
pub open spec fn written<T>(value: Option<T>, visibility: Option<Visibility>) -> ProfileField<T> {
    ProfileField {
        value,
        visibility: match visibility {
            Some(v) => v,
            None => Visibility::Private,
        },
    }
}

/// What a reader other than the owner sees of a field: its value if the
/// field is public, nothing otherwise.
pub open spec fn shown<T>(field: ProfileField<T>) -> Option<T> {
    if field.visibility == Visibility::Public {
        field.value
    } else {
        None
    }
}

/// `f`, called on the bytes `input`, may return `output`.
pub open spec fn transforms<F: FnOnce(&[u8]) -> Result<Vec<u8>, String>>(
    f: F,
    input: Seq<u8>,
    output: Result<Vec<u8>, String>,
) -> bool {
    exists|bytes: &[u8]| bytes@ == input && #[trigger] call_ensures(f, (bytes,), output)
}

fn or_private(visibility: Option<Visibility>) -> (v: Visibility)
    ensures
        v == written::<u8>(None, visibility).visibility,
{
    match visibility {
        Some(v) => v,
        None => Visibility::Private,
    }
}

impl UserProfile {
    /// A profile with nothing in it but the key and the time of writing.
    pub open spec fn blank(pubkey: String, now: Option<u64>) -> UserProfile {
        UserProfile {
            pubkey,
            first_name: ProfileField { value: None, visibility: Visibility::Private },
            middle_name: ProfileField { value: None, visibility: Visibility::Private },
            last_name: ProfileField { value: None, visibility: Visibility::Private },
            display_picture: ProfileField { value: None, visibility: Visibility::Private },
            address: ProfileField { value: None, visibility: Visibility::Private },
            updated_at: now,
        }
    }

    /// Makes an empty profile for `pubkey`, stamped with `now`: every field
    /// absent and private.
    pub fn created_at(pubkey: String, now: Option<u64>) -> (profile: UserProfile)
        ensures
            profile == UserProfile::blank(pubkey, now),
    {
        UserProfile {
            pubkey,
            first_name: ProfileField { value: None, visibility: Visibility::Private },
            middle_name: ProfileField { value: None, visibility: Visibility::Private },
            last_name: ProfileField { value: None, visibility: Visibility::Private },
            display_picture: ProfileField { value: None, visibility: Visibility::Private },
            address: ProfileField { value: None, visibility: Visibility::Private },
            updated_at: now,
        }
    }

    /// Makes an empty profile for `pubkey`, stamped with the current time:
    /// every field absent and private. The stamp is absent where the clock
    /// stands before the Unix epoch.
    pub fn new(pubkey: String) -> (profile: UserProfile)
        ensures
            exists|now: Option<u64>| profile == #[trigger] UserProfile::blank(pubkey, now),
    {
        let now = unix_time();
        let profile = UserProfile::created_at(pubkey, now);
        assert(profile == UserProfile::blank(pubkey, now));
        profile
    }

    /// The profile after `field` has been written. The four text fields can
    /// be written; any other name leaves the profile as it is.
    pub open spec fn with_field(
        self,
        field: Seq<char>,
        value: Option<String>,
        visibility: Option<Visibility>,
    ) -> UserProfile {
        if field == "first_name"@ {
            UserProfile { first_name: written(value, visibility), ..self }
        } else if field == "middle_name"@ {
            UserProfile { middle_name: written(value, visibility), ..self }
        } else if field == "last_name"@ {
            UserProfile { last_name: written(value, visibility), ..self }
        } else if field == "display_picture"@ {
            UserProfile { display_picture: written(value, visibility), ..self }
        } else {
            self
        }
    }

    /// Writes one of the text fields `first_name`, `middle_name`,
    /// `last_name` and `display_picture`: the value replaces the old one and
    /// the field becomes visible as asked, or private where nothing is
    /// asked. Any other field name changes nothing.
    pub fn set_field(&mut self, field: &str, value: Option<String>, visibility: Option<Visibility>)
        ensures
            *final(self) == old(self).with_field(field@, value, visibility),
    {
        let vis = or_private(visibility);
        if str_eq(field, "first_name") {
            self.first_name = ProfileField { value, visibility: vis };
        } else if str_eq(field, "middle_name") {
            self.middle_name = ProfileField { value, visibility: vis };
        } else if str_eq(field, "last_name") {
            self.last_name = ProfileField { value, visibility: vis };
        } else if str_eq(field, "display_picture") {
            self.display_picture = ProfileField { value, visibility: vis };
        }
    }

    /// The profile after the visibility of `field` has been set. Any name
    /// other than those of the five fields leaves the profile as it is.
    pub open spec fn with_visibility(self, field: Seq<char>, visibility: Visibility) -> UserProfile {
        if field == "first_name"@ {
            UserProfile { first_name: ProfileField { visibility, ..self.first_name }, ..self }
        } else if field == "middle_name"@ {
            UserProfile { middle_name: ProfileField { visibility, ..self.middle_name }, ..self }
        } else if field == "last_name"@ {
            UserProfile { last_name: ProfileField { visibility, ..self.last_name }, ..self }
        } else if field == "display_picture"@ {
            UserProfile { display_picture: ProfileField { visibility, ..self.display_picture }, ..self }
        } else if field == "address"@ {
            UserProfile { address: ProfileField { visibility, ..self.address }, ..self }
        } else {
            self
        }
    }

    /// Sets who may see `field`, one of the four text fields or `address`.
    /// The field's value stays. Any other field name changes nothing.
    pub fn set_visibility(&mut self, field: &str, visibility: Visibility)
        ensures
            *final(self) == old(self).with_visibility(field@, visibility),
    {
        if str_eq(field, "first_name") {
            self.first_name.visibility = visibility;
        } else if str_eq(field, "middle_name") {
            self.middle_name.visibility = visibility;
        } else if str_eq(field, "last_name") {
            self.last_name.visibility = visibility;
        } else if str_eq(field, "display_picture") {
            self.display_picture.visibility = visibility;
        } else if str_eq(field, "address") {
            self.address.visibility = visibility;
        }
    }

    /// Stores the address, sealed by `seal`, and sets who may see it:
    /// as asked, or the owner alone where nothing is asked.
    ///
    /// Without an address the field is emptied. An address of more than two
    /// hundred bytes is refused before anything is sealed. Otherwise the
    /// address's bytes are handed to `seal` and what it returns is stored;
    /// if it fails, its reason is reported as an encryption error. A
    /// refusal leaves the profile as it was.
    pub fn set_address<F: FnOnce(&[u8]) -> Result<Vec<u8>, String>>(
        &mut self,
        address: Option<String>,
        seal: F,
        visibility: Option<Visibility>,
    ) -> (r: Result<(), ProfileError>)
        requires
            forall|plain: &[u8]| #[trigger] call_requires(seal, (plain,)),
        ensures
            match address {
                None => r is Ok && *final(self) == (UserProfile {
                    address: written(None, visibility),
                    ..*old(self)
                }),
                Some(text) => if encode_utf8(text@).len() > MAX_ADDRESS_LENGTH {
                    &&& r is Err
                    &&& r->Err_0@ == ProfileFault::AddressTooLong
                    &&& *final(self) == *old(self)
                } else {
                    match r {
                        Ok(()) => exists|sealed: Vec<u8>|
                            {
                                &&& #[trigger] transforms(seal, encode_utf8(text@), Ok(sealed))
                                &&& *final(self) == (UserProfile {
                                    address: written(Some(sealed), visibility),
                                    ..*old(self)
                                })
                            },
                        Err(e) => exists|reason: String|
                            {
                                &&& #[trigger] transforms(seal, encode_utf8(text@), Err(reason))
                                &&& e@ == ProfileFault::EncryptionError(reason@)
                                &&& *final(self) == *old(self)
                            },
                    }
                },
            },
    {
        let vis = or_private(visibility);
        match address {
            None => {
                self.address = ProfileField { value: None, visibility: vis };
                Ok(())
            },
            Some(text) => {
                let plain = text.as_str().as_bytes();
                if plain.len() > MAX_ADDRESS_LENGTH {
                    return Err(ProfileError::AddressTooLong);
                }
                match seal(plain) {
                    Ok(sealed) => {
                        assert(transforms(seal, encode_utf8(text@), Ok(sealed)));
                        self.address = ProfileField { value: Some(sealed), visibility: vis };
                        Ok(())
                    },
                    Err(reason) => {
                        assert(transforms(seal, encode_utf8(text@), Err(reason)));
                        Err(ProfileError::EncryptionError(reason))
                    },
                }
            },
        }
    }

    /// Seals the address in place, if there is one: its bytes are handed to
    /// `seal` and replaced by what it returns. If `seal` fails, its reason
    /// is reported as an encryption error and the profile stays as it was.
    pub fn encrypt_sensitive_fields<F: FnOnce(&[u8]) -> Result<Vec<u8>, String>>(
        &mut self,
        seal: F,
    ) -> (r: Result<(), ProfileError>)
        requires
            forall|plain: &[u8]| #[trigger] call_requires(seal, (plain,)),
        ensures
            match old(self).address.value {
                None => r is Ok && *final(self) == *old(self),
                Some(plain) => match r {
                    Ok(()) => exists|sealed: Vec<u8>|
                        {
                            &&& #[trigger] transforms(seal, plain@, Ok(sealed))
                            &&& *final(self) == (UserProfile {
                                address: ProfileField { value: Some(sealed), ..old(self).address },
                                ..*old(self)
                            })
                        },
                    Err(e) => exists|reason: String|
                        {
                            &&& #[trigger] transforms(seal, plain@, Err(reason))
                            &&& e@ == ProfileFault::EncryptionError(reason@)
                            &&& *final(self) == *old(self)
                        },
                },
            },
    {
        let outcome = match &self.address.value {
            None => {
                return Ok(());
            },
            Some(plain) => {
                let outcome = seal(plain.as_slice());
                assert(transforms(seal, plain@, outcome));
                outcome
            },
        };
        match outcome {
            Ok(sealed) => {
                self.address.value = Some(sealed);
                Ok(())
            },
            Err(reason) => Err(ProfileError::EncryptionError(reason)),
        }
    }

    /// Opens the sealed address in place, if there is one: its bytes are
    /// handed to `open` and replaced by what it returns, provided that is
    /// well-formed UTF-8. If `open` fails, its reason is reported as a
    /// decryption error; so is text that is not UTF-8. A failure leaves the
    /// profile as it was.
    pub fn decrypt_sensitive_fields<F: FnOnce(&[u8]) -> Result<Vec<u8>, String>>(
        &mut self,
        open: F,
    ) -> (r: Result<(), ProfileError>)
        requires
            forall|sealed: &[u8]| #[trigger] call_requires(open, (sealed,)),
        ensures
            match old(self).address.value {
                None => r is Ok && *final(self) == *old(self),
                Some(sealed) => match r {
                    Ok(()) => exists|plain: Vec<u8>|
                        {
                            &&& #[trigger] transforms(open, sealed@, Ok(plain))
                            &&& valid_utf8(plain@)
                            &&& *final(self) == (UserProfile {
                                address: ProfileField { value: Some(plain), ..old(self).address },
                                ..*old(self)
                            })
                        },
                    Err(e) => {
                        &&& *final(self) == *old(self)
                        &&& {
                            ||| exists|reason: String|
                                {
                                    &&& #[trigger] transforms(open, sealed@, Err(reason))
                                    &&& e@ == ProfileFault::DecryptionError(reason@)
                                }
                            ||| exists|plain: Vec<u8>|
                                {
                                    &&& #[trigger] transforms(open, sealed@, Ok(plain))
                                    &&& !valid_utf8(plain@)
                                    &&& e@ == ProfileFault::DecryptionError("Invalid UTF-8 in address"@)
                                }
                        }
                    },
                },
            },
    {
        let outcome = match &self.address.value {
            None => {
                return Ok(());
            },
            Some(sealed) => {
                let outcome = open(sealed.as_slice());
                assert(transforms(open, sealed@, outcome));
                outcome
            },
        };
        match outcome {
            Ok(plain) => {
                if !is_utf8(plain.as_slice()) {
                    return Err(ProfileError::DecryptionError("Invalid UTF-8 in address".to_owned()));
                }
                self.address.value = Some(plain);
                Ok(())
            },
            Err(reason) => Err(ProfileError::DecryptionError(reason)),
        }
    }

    /// What is wrong with the profile, if anything. The display picture is
    /// looked at first: it must parse as a URL. Then the first, the middle
    /// and the last name, in this order. Then the address, which may not be
    /// longer than two hundred bytes.
    pub open spec fn fault(&self) -> Option<ProfileFault> {
        let picture = match self.display_picture.value {
            Some(url) => if url_fault(url@) is Some {
                Some(ProfileFault::InvalidDisplayPictureUrl(url@))
            } else {
                None
            },
            None => None,
        };
        let address = match self.address.value {
            Some(bytes) => if bytes@.len() > MAX_ADDRESS_LENGTH {
                Some(ProfileFault::AddressTooLong)
            } else {
                None
            },
            None => None,
        };
        or_else(
            picture,
            or_else(
                name_fault("first_name"@, self.first_name.value),
                or_else(
                    name_fault("middle_name"@, self.middle_name.value),
                    or_else(name_fault("last_name"@, self.last_name.value), address),
                ),
            ),
        )
    }

    /// Checks the profile against the rules and reports the first fault.
    pub fn validate(&self) -> (r: Result<(), ProfileError>)
        ensures
            match r {
                Ok(()) => self.fault() is None,
                Err(e) => self.fault() == Some(e@),
            },
    {
        if let Some(url) = &self.display_picture.value {
            if url_parse_fault(url.as_str()).is_some() {
                return Err(ProfileError::InvalidDisplayPictureUrl(url.clone()));
            }
        }
        match check_name("first_name", &self.first_name.value) {
            Err(e) => {
                return Err(e);
            },
            Ok(()) => {},
        }
        match check_name("middle_name", &self.middle_name.value) {
            Err(e) => {
                return Err(e);
            },
            Ok(()) => {},
        }
        match check_name("last_name", &self.last_name.value) {
            Err(e) => {
                return Err(e);
            },
            Ok(()) => {},
        }
        if let Some(bytes) = &self.address.value {
            if bytes.len() > MAX_ADDRESS_LENGTH {
                return Err(ProfileError::AddressTooLong);
            }
        }
        Ok(())
    }

    /// Copies the profile as others may see it: each field keeps its
    /// visibility, and its value only if the field is public.
    pub fn to_public_view(&self) -> (public: UserProfile)
        ensures
            public.pubkey == self.pubkey,
            public.updated_at == self.updated_at,
            public.first_name == (ProfileField { value: shown(self.first_name), ..self.first_name }),
            public.middle_name == (ProfileField { value: shown(self.middle_name), ..self.middle_name }),
            public.last_name == (ProfileField { value: shown(self.last_name), ..self.last_name }),
            public.display_picture == (ProfileField {
                value: shown(self.display_picture),
                ..self.display_picture
            }),
            public.address.visibility == self.address.visibility,
            public.address.value is Some == shown(self.address) is Some,
            public.address.value is Some ==> public.address.value->0@ == self.address.value->0@,
    {
        UserProfile {
            pubkey: self.pubkey.clone(),
            first_name: show_text(&self.first_name),
            middle_name: show_text(&self.middle_name),
            last_name: show_text(&self.last_name),
            display_picture: show_text(&self.display_picture),
            address: ProfileField {
                value: match &self.address.value {
                    Some(bytes) => if self.address.visibility == Visibility::Public {
                        Some(bytes.clone())
                    } else {
                        None
                    },
                    None => None,
                },
                visibility: self.address.visibility,
            },
            updated_at: self.updated_at,
        }
    }
}

fn show_text(field: &ProfileField<String>) -> (public: ProfileField<String>)
    ensures
        public == (ProfileField { value: shown(*field), ..*field }),
{
    ProfileField {
        value: match &field.value {
            Some(text) => if field.visibility == Visibility::Public {
                Some(text.clone())
            } else {
                None
            },
            None => None,
        },
        visibility: field.visibility,
    }
}

/// The name of the file a profile is stored in.
pub open spec fn profile_file(pubkey: Seq<char>) -> Seq<char> {
    "user_profile_"@ + pubkey + ".json"@
}

/// Builds the name of the file the profile of `pubkey` is stored in.
pub fn profile_file_name(pubkey: &str) -> (name: String)
    ensures
        name@ == profile_file(pubkey@),
{
    let mut name = "user_profile_".to_owned();
    name.append(pubkey);
    name.append(".json");
    name
}

} // verus!
