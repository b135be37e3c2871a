//! The validated in-memory credential record.

use crate::text::{is_trimmed, lemma_trim_trimmed, trim, trim_spec};
use vstd::prelude::*;

verus! {

/// Which field of a credential record is empty after trimming.
#[derive(Clone, Copy, Debug, PartialEq, Eq, Structural)]
pub enum ValidationError {
    EmptyUsername,
    EmptyPassword,
    EmptyPlace,
}

impl ValidationError {
    /// A human-readable description of the failed field.
    pub fn message(&self) -> (r: &'static str)
        ensures
            r@ == match self {
                ValidationError::EmptyUsername => "Username cannot be empty"@,
                ValidationError::EmptyPassword => "Password cannot be empty"@,
                ValidationError::EmptyPlace => "Place cannot be empty"@,
            },
    {
        match self {
            ValidationError::EmptyUsername => "Username cannot be empty",
            ValidationError::EmptyPassword => "Password cannot be empty",
            ValidationError::EmptyPlace => "Place cannot be empty",
        }
    }
}

/// The mathematical content of a credential record.
pub ghost struct EntryView {
    pub username: Seq<char>,
    pub password: Seq<char>,
    pub place: Seq<char>,
}

impl EntryView {
    /// Every field is trimmed and non-empty.
    pub open spec fn valid(self) -> bool {
        &&& self.username.len() > 0 && is_trimmed(self.username)
        &&& self.password.len() > 0 && is_trimmed(self.password)
        &&& self.place.len() > 0 && is_trimmed(self.place)
    }
}

/// One credential record: a username and password for one place.
///
/// Values of this type always satisfy [`EntryView::valid`]: the
/// constructor trims the fields and rejects records with an empty
/// field, and updates re-validate before committing.
#[derive(Debug)]
pub struct PasswordEntry {
    username: String,
    password: String,
    place: String,
}

impl View for PasswordEntry {
    type V = EntryView;

    closed spec fn view(&self) -> EntryView {
        EntryView { username: self.username@, password: self.password@, place: self.place@ }
    }
}

impl DeepView for PasswordEntry {
    type V = EntryView;

    open spec fn deep_view(&self) -> EntryView {
        self.view()
    }
}

impl Clone for PasswordEntry {
    fn clone(&self) -> (r: Self)
        ensures
            r@ == self@,
    {
        proof {
            use_type_invariant(self);
        }
        PasswordEntry {
            username: self.username.clone(),
            password: self.password.clone(),
            place: self.place.clone(),
        }
    }
}

impl PartialEq for PasswordEntry {
    fn eq(&self, other: &Self) -> (r: bool) {
        self.username == other.username && self.password == other.password && self.place
            == other.place
    }
}

impl vstd::std_specs::cmp::PartialEqSpecImpl for PasswordEntry {
    open spec fn obeys_eq_spec() -> bool {
        true
    }

    open spec fn eq_spec(&self, other: &Self) -> bool {
        self@ == other@
    }
}

impl PasswordEntry {
    /// Every record holds trimmed, non-empty fields.
    #[verifier::type_invariant]
    pub open spec fn wf(self) -> bool {
        self@.valid()
    }

    /// What [`PasswordEntry::new`] returns for the given raw fields:
    /// the trimmed record, or the first field that is empty after
    /// trimming.
    pub open spec fn new_spec(username: Seq<char>, password: Seq<char>, place: Seq<char>) -> Result<
        EntryView,
        ValidationError,
    > {
        if trim_spec(username).len() == 0 {
            Err(ValidationError::EmptyUsername)
        } else if trim_spec(password).len() == 0 {
            Err(ValidationError::EmptyPassword)
        } else if trim_spec(place).len() == 0 {
            Err(ValidationError::EmptyPlace)
        } else {
            Ok(
                EntryView {
                    username: trim_spec(username),
                    password: trim_spec(password),
                    place: trim_spec(place),
                },
            )
        }
    }

    /// Builds a record from raw user input, trimming surrounding white
    /// space and rejecting any field that is empty afterwards.
    pub fn new(username: String, password: String, place: String) -> (r: Result<
        Self,
        ValidationError,
    >)
        ensures
            (match r {
                Ok(e) => Self::new_spec(username@, password@, place@) == Ok::<
                    EntryView,
                    ValidationError,
                >(e@),
                Err(err) => Self::new_spec(username@, password@, place@) == Err::<
                    EntryView,
                    ValidationError,
                >(err),
            }),
    {
        let u = trim(username.as_str());
        let p = trim(password.as_str());
        let l = trim(place.as_str());
        if u.as_str().is_empty() {
            return Err(ValidationError::EmptyUsername);
        }
        if p.as_str().is_empty() {
            return Err(ValidationError::EmptyPassword);
        }
        if l.as_str().is_empty() {
            return Err(ValidationError::EmptyPlace);
        }
        proof {
            lemma_trim_trimmed(username@);
            lemma_trim_trimmed(password@);
            lemma_trim_trimmed(place@);
        }
        Ok(PasswordEntry { username: u, password: p, place: l })
    }

    /// What [`PasswordEntry::update`] leaves behind: each supplied
    /// field replaces (trimmed) the stored one, and the result is
    /// re-validated as a whole.
    pub open spec fn update_spec(
        old_entry: EntryView,
        new_username: Option<Seq<char>>,
        new_password: Option<Seq<char>>,
        new_place: Option<Seq<char>>,
    ) -> Result<EntryView, ValidationError> {
        let u = match new_username {
            Some(s) => trim_spec(s),
            None => old_entry.username,
        };
        let p = match new_password {
            Some(s) => trim_spec(s),
            None => old_entry.password,
        };
        let l = match new_place {
            Some(s) => trim_spec(s),
            None => old_entry.place,
        };
        if u.len() == 0 {
            Err(ValidationError::EmptyUsername)
        } else if p.len() == 0 {
            Err(ValidationError::EmptyPassword)
        } else if l.len() == 0 {
            Err(ValidationError::EmptyPlace)
        } else {
            Ok(EntryView { username: u, password: p, place: l })
        }
    }

    /// Replaces only the supplied fields and re-validates the whole
    /// record; on failure the record is left unchanged.
    pub fn update(
        &mut self,
        new_username: Option<String>,
        new_password: Option<String>,
        new_place: Option<String>,
    ) -> (r: Result<(), ValidationError>)
        ensures
            (match r {
                Ok(_) => Self::update_spec(
                    old(self)@,
                    new_username.deep_view(),
                    new_password.deep_view(),
                    new_place.deep_view(),
                ) == Ok::<EntryView, ValidationError>(final (self)@),
                Err(err) => Self::update_spec(
                    old(self)@,
                    new_username.deep_view(),
                    new_password.deep_view(),
                    new_place.deep_view(),
                ) == Err::<EntryView, ValidationError>(err) && final (self)@ == old(self)@,
            }),
    {
        proof {
            use_type_invariant(&*self);
        }
        let u = match &new_username {
            Some(s) => trim(s.as_str()),
            None => self.username.clone(),
        };
        let p = match &new_password {
            Some(s) => trim(s.as_str()),
            None => self.password.clone(),
        };
        let l = match &new_place {
            Some(s) => trim(s.as_str()),
            None => self.place.clone(),
        };
        if u.as_str().is_empty() {
            return Err(ValidationError::EmptyUsername);
        }
        if p.as_str().is_empty() {
            return Err(ValidationError::EmptyPassword);
        }
        if l.as_str().is_empty() {
            return Err(ValidationError::EmptyPlace);
        }
        proof {
            if new_username is Some {
                lemma_trim_trimmed(new_username->0@);
            }
            if new_password is Some {
                lemma_trim_trimmed(new_password->0@);
            }
            if new_place is Some {
                lemma_trim_trimmed(new_place->0@);
            }
        }
        *self = PasswordEntry { username: u, password: p, place: l };
        Ok(())
    }

    /// Re-checks the stored fields; always succeeds, because the
    /// constructor and updates never commit an invalid record.
    pub fn validate(&self) -> (r: Result<(), ValidationError>)
        ensures
            r == Ok::<(), ValidationError>(()),
    {
        proof {
            use_type_invariant(self);
        }
        if self.username.as_str().is_empty() {
            Err(ValidationError::EmptyUsername)
        } else if self.password.as_str().is_empty() {
            Err(ValidationError::EmptyPassword)
        } else if self.place.as_str().is_empty() {
            Err(ValidationError::EmptyPlace)
        } else {
            Ok(())
        }
    }

    /// The stored username.
    pub fn username(&self) -> (r: &str)
        ensures
            r@ == self@.username,
    {
        self.username.as_str()
    }

    /// The stored place.
    pub fn place(&self) -> (r: &str)
        ensures
            r@ == self@.place,
    {
        self.place.as_str()
    }

    /// The stored password.
    pub fn password(&self) -> (r: &str)
        ensures
            r@ == self@.password,
    {
        self.password.as_str()
    }
}

} // verus!
