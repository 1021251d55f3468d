use vstd::prelude::*;

use crate::error::{MiniKVDBError, Result};
use crate::key::Key;
use crate::key_map::{KVDBObject, KeyMap};
use crate::value::{KVDBValue, ValueModel};

verus! {

/// A record type that converts to and from an object, field by field.
pub trait KVDBEntity: Sized {
    /// The record that the object's fields describe, or why there is none.
    fn from_object(obj: &KVDBObject) -> Result<Self>;

    /// The object of the record's fields.
    fn to_object(&self) -> KVDBObject;
}

/// The fields of an object as value models.
pub open spec fn fields_of(m: Map<Seq<char>, KVDBValue>) -> Map<Seq<char>, ValueModel> {
    m.map_values(|v: KVDBValue| v@)
}

/// What a record field of text finds in an object.
pub enum TextField {
    Missing,
    WrongType,
    Text(Seq<char>),
}

/// The text under `name`, if the field is there and holds a string.
pub open spec fn text_field(m: Map<Seq<char>, ValueModel>, name: Seq<char>) -> TextField {
    if !m.contains_key(name) {
        TextField::Missing
    } else {
        match m[name] {
            ValueModel::Str(s) => TextField::Text(s),
            _ => TextField::WrongType,
        }
    }
}

/// A login: an e-mail address and a password.
#[derive(Debug)]
pub struct Credentials {
    pub email: String,
    pub password: String,
}

/// The object of a login with these fields.
pub open spec fn credentials_fields(email: Seq<char>, password: Seq<char>) -> Map<
    Seq<char>,
    ValueModel,
> {
    map!["email"@ => ValueModel::Str(email), "password"@ => ValueModel::Str(password)]
}

/// Reads one text field of an object.
fn read_text(obj: &KVDBObject, name: &str) -> (r: Result<String>)
    ensures
        match text_field(fields_of(obj@), name@) {
            TextField::Missing => r matches Err(MiniKVDBError::MissingField(f)) && f@ == name@,
            TextField::WrongType => r matches Err(MiniKVDBError::WrongFieldType),
            TextField::Text(t) => r matches Ok(s) && s@ == t,
        },
{
    match obj.get(&Key::new(name)) {
        Some(v) => v.as_string(),
        None => Err(MiniKVDBError::MissingField(name.to_string())),
    }
}

impl Credentials {
    /// The object with an `email` and a `password` field.
    pub fn to_object(&self) -> (r: KVDBObject)
        ensures
            fields_of(r@) == credentials_fields(self.email@, self.password@),
    {
        let mut m = KeyMap::new();
        m.insert(Key::new("email"), KVDBValue::String(self.email.clone()));
        m.insert(Key::new("password"), KVDBValue::String(self.password.clone()));
        assert(fields_of(m@) =~= credentials_fields(self.email@, self.password@));
        m
    }

    /// The login that the object describes; the first field that is missing, or
    /// a field that holds no string, is the error.
    pub fn from_object(obj: &KVDBObject) -> (r: Result<Credentials>)
        ensures
            match (text_field(fields_of(obj@), "email"@), text_field(fields_of(obj@), "password"@)) {
                (TextField::Text(e), TextField::Text(p)) => r matches Ok(c) && c.email@ == e
                    && c.password@ == p,
                (TextField::Missing, _) => r matches Err(MiniKVDBError::MissingField(f)) && f@
                    == "email"@,
                (TextField::WrongType, _) => r matches Err(MiniKVDBError::WrongFieldType),
                (TextField::Text(_), TextField::Missing) => r matches Err(
                    MiniKVDBError::MissingField(f),
                ) && f@ == "password"@,
                (TextField::Text(_), TextField::WrongType) => r matches Err(
                    MiniKVDBError::WrongFieldType,
                ),
            },
    {
        let email = match read_text(obj, "email") {
            Ok(s) => s,
            Err(e) => {
                return Err(e);
            },
        };
        let password = match read_text(obj, "password") {
            Ok(s) => s,
            Err(e) => {
                return Err(e);
            },
        };
        Ok(Credentials { email, password })
    }
}

impl KVDBEntity for Credentials {
    fn from_object(obj: &KVDBObject) -> (r: Result<Credentials>) {
        Credentials::from_object(obj)
    }

    fn to_object(&self) -> (r: KVDBObject) {
        Credentials::to_object(self)
    }
}

/// A login turned into an object and back is the same login: both fields of
/// its object hold exactly its texts.
pub proof fn lemma_credentials_round_trip(email: Seq<char>, password: Seq<char>)
    ensures
        text_field(credentials_fields(email, password), "email"@) == TextField::Text(email),
        text_field(credentials_fields(email, password), "password"@) == TextField::Text(password),
{
    reveal_strlit("email");
    reveal_strlit("password");
    assert("email"@ != "password"@) by {
        assert("email"@.len() != "password"@.len());
    }
}

} // verus!
