//! Values that are kept in secrets of the cluster.

use crate::error::{Failure, FailureView};
use crate::names::NameMap;
use std::string::FromUtf8Error;
use vstd::prelude::*;
use vstd::string::StringExecFns;
use vstd::utf8::{decode_utf8, valid_utf8};

verus! {

/// A secret of the cluster: its data by key, where it has data.
pub struct Secret {
    pub data: Option<NameMap<Vec<u8>>>,
}

/// What the cluster answers when it is asked for a secret.
pub type Fetched = Result<Secret, Failure>;

/// A reference to one value of a secret.
#[derive(Clone, Debug)]
pub struct SecretRef {
    /// The name of the secret.
    pub name: String,
    /// The key of the connection string URL in the secret.
    pub key: String,
}

/// Why a value of a secret cannot be had.
#[derive(Debug)]
pub enum SecretError {
    Kubernetes(Failure),
    SecretNotFound(String),
    SecretHasNoData,
    InvalidBase64(FromUtf8Error),
}

/// The texts of a [`SecretError`].
pub enum SecretErrorView {
    Kubernetes(FailureView),
    SecretNotFound(Seq<char>),
    SecretHasNoData,
    InvalidBase64,
}

impl SecretErrorView {
    /// The error for users.
    pub open spec fn text(self) -> Seq<char> {
        match self {
            SecretErrorView::Kubernetes(failure) => "Kubernetes error: "@ + failure.message,
            SecretErrorView::SecretNotFound(key) => "Secret not found: "@ + key,
            SecretErrorView::SecretHasNoData => "Secret has no data"@,
            SecretErrorView::InvalidBase64 => "Secret has invalid base64 data"@,
        }
    }
}

impl View for SecretError {
    type V = SecretErrorView;

    open spec fn view(&self) -> SecretErrorView {
        match self {
            SecretError::Kubernetes(failure) => SecretErrorView::Kubernetes(failure@),
            SecretError::SecretNotFound(key) => SecretErrorView::SecretNotFound(key@),
            SecretError::SecretHasNoData => SecretErrorView::SecretHasNoData,
            SecretError::InvalidBase64(_) => SecretErrorView::InvalidBase64,
        }
    }
}

impl SecretError {
    /// The error for users.
    pub fn to_string(&self) -> (res: String)
        ensures
            res@ == self@.text(),
    {
        match self {
            SecretError::Kubernetes(failure) => "Kubernetes error: ".to_owned().concat(
                failure.message.as_str(),
            ),
            SecretError::SecretNotFound(key) => "Secret not found: ".to_owned().concat(
                key.as_str(),
            ),
            SecretError::SecretHasNoData => "Secret has no data".to_owned(),
            SecretError::InvalidBase64(_) => "Secret has invalid base64 data".to_owned(),
        }
    }
}

/// The text of a result, or the texts of its error.
pub open spec fn field_view(res: Result<String, SecretError>) -> Result<
    Seq<char>,
    SecretErrorView,
> {
    match res {
        Ok(text) => Ok(text@),
        Err(error) => Err(error@),
    }
}

/// The text that a secret holds under a key.
pub open spec fn field_of(secret: Secret, key: Seq<char>) -> Result<Seq<char>, SecretErrorView> {
    match secret.data {
        None => Err(SecretErrorView::SecretHasNoData),
        Some(data) => if !data@.contains_key(key) {
            Err(SecretErrorView::SecretNotFound(key))
        } else if !valid_utf8(data@[key]@) {
            Err(SecretErrorView::InvalidBase64)
        } else {
            Ok(decode_utf8(data@[key]@))
        },
    }
}

/// The text under a key of a secret, given what the cluster answered when it
/// was asked for the secret.
pub open spec fn fetched_field(fetched: Fetched, key: Seq<char>) -> Result<
    Seq<char>,
    SecretErrorView,
> {
    match fetched {
        Ok(secret) => field_of(secret, key),
        Err(failure) => Err(SecretErrorView::Kubernetes(failure@)),
    }
}

impl SecretRef {
    /// The secret that the cluster answered with, or why there is none.
    pub fn get<'a>(&self, fetched: &'a Fetched) -> (res: Result<&'a Secret, SecretError>)
        ensures
            match (*fetched, res) {
                (Ok(secret), Ok(got)) => *got == secret,
                (Err(failure), Err(error)) => error == SecretError::Kubernetes(failure),
                _ => false,
            },
    {
        match fetched {
            Ok(secret) => Ok(secret),
            Err(failure) => Err(SecretError::Kubernetes(failure.clone())),
        }
    }

    /// The referenced text, given what the cluster answered when it was asked
    /// for the secret.
    pub fn get_field(&self, fetched: &Fetched) -> (res: Result<String, SecretError>)
        ensures
            field_view(res) == fetched_field(*fetched, self.key@),
    {
        match self.get(fetched) {
            Ok(secret) => self.get_field_with(secret),
            Err(error) => Err(error),
        }
    }

    /// The referenced text in a secret.
    pub fn get_field_with(&self, secret: &Secret) -> (res: Result<String, SecretError>)
        ensures
            field_view(res) == field_of(*secret, self.key@),
    {
        let data = match &secret.data {
            None => return Err(SecretError::SecretHasNoData),
            Some(data) => data,
        };
        let bytes = match data.get(self.key.as_str()) {
            None => return Err(SecretError::SecretNotFound(self.key.clone())),
            Some(bytes) => bytes,
        };
        let owned: Vec<u8> = bytes.clone();
        assert(owned@ =~= bytes@);
        match String::from_utf8(owned) {
            Ok(text) => Ok(text),
            Err(error) => Err(SecretError::InvalidBase64(error)),
        }
    }
}

/// A reference is resolved under its own key, whatever a secret holds under
/// other keys: to the decoding of exactly the bytes that the secret maps that
/// key to, where they are valid. Where that very key is missing, the error names
/// it.
pub proof fn fields_are_read_under_their_own_key(
    reference: SecretRef,
    secret: Secret,
    res: Result<String, SecretError>,
)
    requires
        call_ensures(SecretRef::get_field_with, (&reference, &secret), res),
    ensures
        secret.data is None <==> res matches Err(SecretError::SecretHasNoData),
        secret.data matches Some(data) ==> {
            let key = reference.key@;
            &&& !data@.contains_key(key) ==> {
                res matches Err(SecretError::SecretNotFound(missing)) && missing@ == key
            }
            &&& data@.contains_key(key) && valid_utf8(data@[key]@) ==> {
                res matches Ok(text) && text@ == decode_utf8(data@[key]@)
            }
            &&& data@.contains_key(key) && !valid_utf8(data@[key]@) ==> {
                res matches Err(SecretError::InvalidBase64(_))
            }
        },
{
}

/// Two secrets that agree under the key of a reference give the same text, and
/// it does not matter what they hold under other keys.
pub proof fn other_keys_do_not_matter(
    reference: SecretRef,
    secret: Secret,
    other: Secret,
    res: Result<String, SecretError>,
    other_res: Result<String, SecretError>,
)
    requires
        call_ensures(SecretRef::get_field_with, (&reference, &secret), res),
        call_ensures(SecretRef::get_field_with, (&reference, &other), other_res),
        secret.data is Some,
        other.data is Some,
        secret.data->0@.contains_key(reference.key@),
        other.data->0@.contains_key(reference.key@),
        secret.data->0@[reference.key@]@ == other.data->0@[reference.key@]@,
    ensures
        res is Ok <==> other_res is Ok,
        res is Ok ==> res->Ok_0@ == other_res->Ok_0@,
{
}

/// What the cluster answered decides: a failure is kept, and a secret is read.
pub proof fn fetched_secrets_are_read(
    reference: SecretRef,
    fetched: Fetched,
    res: Result<String, SecretError>,
    read: Result<String, SecretError>,
)
    requires
        call_ensures(SecretRef::get_field, (&reference, &fetched), res),
        fetched matches Ok(secret) ==> call_ensures(
            SecretRef::get_field_with,
            (&reference, &secret),
            read,
        ),
    ensures
        fetched matches Err(failure) ==> {
            &&& res matches Err(SecretError::Kubernetes(kept))
            &&& kept.message@ == failure.message@
            &&& kept.debug@ == failure.debug@
        },
        fetched is Ok && read is Ok ==> res is Ok && res->Ok_0@ == read->Ok_0@,
        fetched is Ok && read is Err ==> res is Err && res->Err_0@ == read->Err_0@,
{
}

/// A failure and a missing key are told word for word, at the end of the text.
pub proof fn secret_errors_are_told(error: SecretError, res: String)
    requires
        call_ensures(SecretError::to_string, (&error,), res),
    ensures
        match error {
            SecretError::Kubernetes(failure) => res@ == "Kubernetes error: "@ + failure.message@,
            SecretError::SecretNotFound(key) => res@ == "Secret not found: "@ + key@,
            SecretError::SecretHasNoData => res@ == "Secret has no data"@,
            SecretError::InvalidBase64(_) => res@ == "Secret has invalid base64 data"@,
        },
{
}

} // verus!
