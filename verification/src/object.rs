//! Runtime values.

use vstd::prelude::*;
use vstd::string::*;
use crate::text::{bool_text, bool_to_string, decimal, int_to_string};

verus! {

/// The kind of a runtime value.
#[derive(Debug, Clone, Copy, PartialEq, Eq, Structural)]
pub enum ObjectType {
    Integer,
    Boolean,
    Null,
    Error,
}

/// A runtime value as a mathematical value.
pub enum ObjectView {
    Null,
    Integer(i64),
    Boolean(bool),
    Error(Seq<char>),
}

/// A runtime value: the result of evaluating a program or a part of it.
#[derive(Debug)]
pub enum Object {
    /// The absence of a meaningful value.
    Null,
    Integer(i64),
    Boolean(bool),
    /// A runtime error and its message.
    Error(String),
}

impl View for Object {
    type V = ObjectView;

    open spec fn view(&self) -> ObjectView {
        match self {
            Object::Null => ObjectView::Null,
            Object::Integer(value) => ObjectView::Integer(*value),
            Object::Boolean(value) => ObjectView::Boolean(*value),
            Object::Error(message) => ObjectView::Error(message@),
        }
    }
}

impl Clone for Object {
    fn clone(&self) -> (copy: Object)
        ensures
            copy@ == self@,
    {
        match self {
            Object::Null => Object::Null,
            Object::Integer(value) => Object::Integer(*value),
            Object::Boolean(value) => Object::Boolean(*value),
            Object::Error(message) => Object::Error(message.clone()),
        }
    }
}

/// The text that the standard library's `Debug` formatting gives for a
/// string: the string in double quotes, with the characters escaped that
/// `str::escape_debug` escapes.
pub uninterp spec fn quoted(text: Seq<char>) -> Seq<char>;

/// Formats `text` as `{:?}` does.
///
/// Calls the standard library's `Debug` formatting of `str`; its result
/// depends on the characters of `text` alone and is only named here.
#[verifier::external_body]
fn quote(text: &str) -> (out: String)
    ensures
        out@ == quoted(text@),
{
    format!("{:?}", text)
}

impl ObjectView {
    /// The kind of the value.
    pub open spec fn kind(self) -> ObjectType {
        match self {
            ObjectView::Integer(_) => ObjectType::Integer,
            ObjectView::Boolean(_) => ObjectType::Boolean,
            ObjectView::Null => ObjectType::Null,
            ObjectView::Error(_) => ObjectType::Error,
        }
    }

    /// The text shown to a user: the number, `true` or `false`, `null`, or
    /// `Error: ` and the message.
    pub open spec fn inspect_text(self) -> Seq<char> {
        match self {
            ObjectView::Integer(value) => decimal(value as int),
            ObjectView::Boolean(value) => bool_text(value),
            ObjectView::Null => "null"@,
            ObjectView::Error(message) => "Error: "@ + message,
        }
    }

    /// The text used inside error messages: the variant's name, with its
    /// payload in parentheses.
    pub open spec fn debug_text(self) -> Seq<char> {
        match self {
            ObjectView::Null => "Null"@,
            ObjectView::Integer(value) => "Integer("@ + decimal(value as int) + ")"@,
            ObjectView::Boolean(value) => "Boolean("@ + bool_text(value) + ")"@,
            ObjectView::Error(message) => "Error("@ + quoted(message) + ")"@,
        }
    }
}

impl Object {
    /// The kind of the value.
    pub fn object_type(&self) -> (kind: ObjectType)
        ensures
            kind == self@.kind(),
    {
        match self {
            Object::Integer(..) => ObjectType::Integer,
            Object::Boolean(..) => ObjectType::Boolean,
            Object::Null => ObjectType::Null,
            Object::Error(..) => ObjectType::Error,
        }
    }

    /// A human-readable rendering of the value.
    pub fn inspect(&self) -> (text: String)
        ensures
            text@ == self@.inspect_text(),
    {
        match self {
            Object::Integer(value) => int_to_string(*value),
            Object::Boolean(value) => bool_to_string(*value),
            Object::Null => "null".to_owned(),
            Object::Error(message) => {
                let mut out = "Error: ".to_owned();
                out.append(message.as_str());
                out
            },
        }
    }

    /// The rendering of the value inside error messages.
    pub fn debug_string(&self) -> (text: String)
        ensures
            text@ == self@.debug_text(),
    {
        match self {
            Object::Null => "Null".to_owned(),
            Object::Integer(value) => {
                let mut out = "Integer(".to_owned();
                out.append(int_to_string(*value).as_str());
                out.append(")");
                out
            },
            Object::Boolean(value) => {
                let mut out = "Boolean(".to_owned();
                out.append(bool_to_string(*value).as_str());
                out.append(")");
                out
            },
            Object::Error(message) => {
                let mut out = "Error(".to_owned();
                out.append(quote(message.as_str()).as_str());
                out.append(")");
                out
            },
        }
    }
}

} // verus!
