//! Errors raised by the engine.

use crate::realm::Realm;
use crate::value::JsValue;
use vstd::prelude::*;
use vstd::string::*;

verus! {

/// The kinds of native error that this crate raises.
#[derive(Clone, Copy, Debug, PartialEq, Eq, Structural)]
pub enum JsNativeErrorKind {
    /// A `SyntaxError`.
    Syntax,
    /// A `TypeError`.
    Type,
    /// A `ReferenceError`.
    Reference,
}

/// A native error: its kind, its message and the realm it was raised in, once
/// that is known.
#[derive(Debug)]
pub struct JsNativeError {
    pub kind: JsNativeErrorKind,
    pub message: String,
    pub realm: Option<Realm>,
}

impl JsNativeError {
    /// A `SyntaxError` with an empty message.
    pub fn syntax() -> (err: Self)
        ensures
            err.kind == JsNativeErrorKind::Syntax,
            err.message@ == Seq::<char>::empty(),
            err.realm is None,
    {
        JsNativeError { kind: JsNativeErrorKind::Syntax, message: String::new(), realm: None }
    }

    /// A `TypeError` with an empty message.
    pub fn typ() -> (err: Self)
        ensures
            err.kind == JsNativeErrorKind::Type,
            err.message@ == Seq::<char>::empty(),
            err.realm is None,
    {
        JsNativeError { kind: JsNativeErrorKind::Type, message: String::new(), realm: None }
    }

    /// A `ReferenceError` with an empty message.
    pub fn reference() -> (err: Self)
        ensures
            err.kind == JsNativeErrorKind::Reference,
            err.message@ == Seq::<char>::empty(),
            err.realm is None,
    {
        JsNativeError { kind: JsNativeErrorKind::Reference, message: String::new(), realm: None }
    }

    /// The same error with the given message.
    pub fn with_message(self, message: String) -> (err: Self)
        ensures
            err.kind == self.kind,
            err.message == message,
            err.realm == self.realm,
    {
        JsNativeError { kind: self.kind, message, realm: self.realm }
    }

    /// The same error, raised in the given realm.
    pub fn with_realm(self, realm: Realm) -> (err: Self)
        ensures
            err.kind == self.kind,
            err.message == self.message,
            err.realm == Some(realm),
    {
        JsNativeError { kind: self.kind, message: self.message, realm: Some(realm) }
    }

    /// Whether this is an error of the given kind with the given message.
    pub open spec fn is(self, kind: JsNativeErrorKind, message: Seq<char>) -> bool {
        self.kind == kind && self.message@ == message
    }
}

/// An error that unwinds the interpreter: a native error or a thrown value.
#[derive(Debug)]
pub enum JsError {
    /// An error raised by the engine itself.
    Native(JsNativeError),
    /// A value thrown by running code.
    Opaque(JsValue),
}

impl JsError {
    /// What `inject_realm` returns: a native error that has no realm yet gets
    /// the given one, any other error is unchanged.
    pub open spec fn spec_inject_realm(self, realm: Realm) -> JsError {
        match self {
            JsError::Native(err) => if err.realm is None {
                JsError::Native(
                    JsNativeError { kind: err.kind, message: err.message, realm: Some(realm) },
                )
            } else {
                self
            },
            JsError::Opaque(_) => self,
        }
    }

    /// Stamps the error with the realm it escapes from, unless it already
    /// carries one.
    pub fn inject_realm(self, realm: Realm) -> (err: JsError)
        ensures
            err == self.spec_inject_realm(realm),
    {
        match self {
            JsError::Native(err) => {
                if err.realm.is_none() {
                    JsError::Native(
                        JsNativeError { kind: err.kind, message: err.message, realm: Some(realm) },
                    )
                } else {
                    JsError::Native(err)
                }
            },
            JsError::Opaque(value) => JsError::Opaque(value),
        }
    }

    /// Whether this is a native error of the given kind with the given
    /// message.
    pub open spec fn is_native(self, kind: JsNativeErrorKind, message: Seq<char>) -> bool {
        match self {
            JsError::Native(err) => err.is(kind, message),
            JsError::Opaque(_) => false,
        }
    }
}

/// The result of an operation that can raise.
pub type JsResult<T> = Result<T, JsError>;

} // verus!
