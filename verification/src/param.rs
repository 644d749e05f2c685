//! A single parameter: a named, typed value with a default and a permission
//! mask.

use crate::text::decode_text;
use vstd::prelude::*;
use vstd::string::*;
use vstd::utf8::*;

verus! {

/// The type of a parameter. It is fixed when the parameter is made.
#[derive(Clone, Copy, Debug, PartialEq, Eq, Structural)]
pub enum ParamType {
    /// A 32-bit signed integer.
    Integer,
    /// A string, kept as bytes that are decoded when they are read as text.
    Text,
}

/// Why an access to a parameter failed.
#[derive(Clone, Copy, Debug, PartialEq, Eq, Structural)]
pub enum ParamError {
    /// No parameter has the name asked for.
    NotFound,
    /// The parameter's permission mask grants no write.
    PermissionDenied,
    /// The parameter is of another type than the access asks for.
    TypeMismatch,
    /// The bytes of a string parameter are not well-formed UTF-8.
    EncodingError,
}

impl ParamError {
    /// The text of [`ParamError::message`].
    pub open spec fn message_text(self) -> Seq<char> {
        match self {
            ParamError::NotFound => "no such parameter"@,
            ParamError::PermissionDenied => "parameter is not writable"@,
            ParamError::TypeMismatch => "parameter is of another type"@,
            ParamError::EncodingError => "parameter value is not valid UTF-8 text"@,
        }
    }

    /// A line for the operator that says which error this is.
    pub fn message(&self) -> (r: String)
        ensures
            r@ == self.message_text(),
    {
        match self {
            ParamError::NotFound => String::from_str("no such parameter"),
            ParamError::PermissionDenied => String::from_str("parameter is not writable"),
            ParamError::TypeMismatch => String::from_str("parameter is of another type"),
            ParamError::EncodingError => String::from_str(
                "parameter value is not valid UTF-8 text",
            ),
        }
    }

    /// Different errors have different messages.
    pub proof fn lemma_messages_differ(a: ParamError, b: ParamError)
        requires
            a != b,
        ensures
            a.message_text() != b.message_text(),
    {
        reveal_strlit("no such parameter");
        reveal_strlit("parameter is not writable");
        reveal_strlit("parameter is of another type");
        reveal_strlit("parameter value is not valid UTF-8 text");
        assert(ParamError::NotFound.message_text().len() == 17);
        assert(ParamError::PermissionDenied.message_text().len() == 25);
        assert(ParamError::TypeMismatch.message_text().len() == 28);
        assert(ParamError::EncodingError.message_text().len() == 39);
    }
}

/// The permission bits that grant a write: to the owner, the group and
/// everyone else, as in a file mode.
pub const WRITE_BITS: u32 = 0o222;

/// Whether a permission mask grants a write to anyone: `0o644` does, `0o444`
/// does not.
pub open spec fn grants_write(permission: u32) -> bool {
    permission & WRITE_BITS != 0
}

/// Whether a permission mask grants a write to anyone.
#[verifier::when_used_as_spec(grants_write)]
pub fn allows_write(permission: u32) -> (r: bool)
    ensures
        r == grants_write(permission),
{
    permission & WRITE_BITS != 0
}

/// A parameter's value as the contracts see it.
pub enum Value {
    Integer(i32),
    Text(Seq<u8>),
}

impl Value {
    /// The type that this value is of.
    pub open spec fn kind(self) -> ParamType {
        match self {
            Value::Integer(_) => ParamType::Integer,
            Value::Text(_) => ParamType::Text,
        }
    }

    /// What comes of reading this value as an integer.
    pub open spec fn as_integer(self) -> Result<i32, ParamError> {
        match self {
            Value::Integer(i) => Ok(i),
            Value::Text(_) => Err(ParamError::TypeMismatch),
        }
    }

    /// What comes of reading this value as text: an integer is of the wrong
    /// type, and bytes must be well-formed UTF-8 to be decoded.
    pub open spec fn as_text(self) -> Result<Seq<char>, ParamError> {
        match self {
            Value::Integer(_) => Err(ParamError::TypeMismatch),
            Value::Text(bytes) => if valid_utf8(bytes) {
                Ok(decode_utf8(bytes))
            } else {
                Err(ParamError::EncodingError)
            },
        }
    }
}

/// A typed value, as it is handed to and returned by a parameter.
#[derive(Debug, PartialEq, Eq)]
pub enum TypedValue {
    /// The value of an integer parameter.
    Integer(i32),
    /// The bytes of a string parameter. They need not be well-formed text.
    Text(Vec<u8>),
}

impl View for TypedValue {
    type V = Value;

    open spec fn view(&self) -> Value {
        match self {
            TypedValue::Integer(i) => Value::Integer(*i),
            TypedValue::Text(bytes) => Value::Text(bytes@),
        }
    }
}

impl Clone for TypedValue {
    fn clone(&self) -> (r: Self)
        ensures
            r@ == self@,
    {
        match self {
            TypedValue::Integer(i) => TypedValue::Integer(*i),
            TypedValue::Text(bytes) => {
                let copy = bytes.clone();
                assert(copy@ =~= bytes@);
                TypedValue::Text(copy)
            },
        }
    }
}

impl TypedValue {
    /// The type that this value is of.
    pub fn kind(&self) -> (r: ParamType)
        ensures
            r == self@.kind(),
    {
        match self {
            TypedValue::Integer(_) => ParamType::Integer,
            TypedValue::Text(_) => ParamType::Text,
        }
    }

    /// The integer that this value holds; `TypeMismatch` for a string.
    pub fn as_integer(&self) -> (r: Result<i32, ParamError>)
        ensures
            r == self@.as_integer(),
    {
        match self {
            TypedValue::Integer(i) => Ok(*i),
            TypedValue::Text(_) => Err(ParamError::TypeMismatch),
        }
    }

    /// The text that this value holds: `TypeMismatch` for an integer,
    /// `EncodingError` for bytes that are not well-formed UTF-8.
    pub fn as_text(&self) -> (r: Result<String, ParamError>)
        ensures
            match r {
                Ok(s) => self@.as_text() == Ok::<Seq<char>, ParamError>(s@),
                Err(e) => self@.as_text() == Err::<Seq<char>, ParamError>(e),
            },
    {
        match self {
            TypedValue::Integer(_) => Err(ParamError::TypeMismatch),
            TypedValue::Text(bytes) => match decode_text(bytes.as_slice()) {
                Some(s) => Ok(s),
                None => Err(ParamError::EncodingError),
            },
        }
    }
}

/// A parameter as the contracts see it.
pub struct ParameterView {
    pub name: Seq<char>,
    pub kind: ParamType,
    pub value: Value,
    pub default: Value,
    pub permission: u32,
}

impl ParameterView {
    /// The value and the default are of the parameter's type.
    pub open spec fn well_typed(self) -> bool {
        &&& self.value.kind() == self.kind
        &&& self.default.kind() == self.kind
    }

    /// The parameter as it is when it is made: its value is its default.
    pub open spec fn fresh(name: Seq<char>, default: Value, permission: u32) -> ParameterView {
        ParameterView { name, kind: default.kind(), value: default, default, permission }
    }

    /// What a write of `value` returns: the permission is tested first, then
    /// the type.
    pub open spec fn write_result(self, value: Value) -> Result<(), ParamError> {
        if !grants_write(self.permission) {
            Err(ParamError::PermissionDenied)
        } else if value.kind() != self.kind {
            Err(ParamError::TypeMismatch)
        } else {
            Ok(())
        }
    }

    /// The parameter after a write of `value`: only an accepted write changes
    /// it, and only its value.
    pub open spec fn after_write(self, value: Value) -> ParameterView {
        if self.write_result(value) is Ok {
            ParameterView { value, ..self }
        } else {
            self
        }
    }

    /// The parameter with its value set back to its default.
    pub open spec fn reset(self) -> ParameterView {
        ParameterView { value: self.default, ..self }
    }
}

/// A named, typed value with a default and a permission mask. Its type never
/// changes, and its value and its default are always of that type.
#[derive(Debug)]
pub struct Parameter {
    name: String,
    kind: ParamType,
    value: TypedValue,
    default: TypedValue,
    permission: u32,
}

impl View for Parameter {
    type V = ParameterView;

    closed spec fn view(&self) -> ParameterView {
        ParameterView {
            name: self.name@,
            kind: self.kind,
            value: self.value@,
            default: self.default@,
            permission: self.permission,
        }
    }
}

impl Clone for Parameter {
    fn clone(&self) -> (r: Self)
        ensures
            r@ == self@,
    {
        proof {
            use_type_invariant(self);
        }
        Parameter {
            name: self.name.clone(),
            kind: self.kind,
            value: self.value.clone(),
            default: self.default.clone(),
            permission: self.permission,
        }
    }
}

impl Parameter {
    #[verifier::type_invariant]
    spec fn well_typed(self) -> bool {
        self@.well_typed()
    }

    /// An integer parameter whose value is its default.
    pub fn integer(name: &str, default: i32, permission: u32) -> (r: Parameter)
        ensures
            r@ == ParameterView::fresh(name@, Value::Integer(default), permission),
    {
        Parameter {
            name: name.to_owned(),
            kind: ParamType::Integer,
            value: TypedValue::Integer(default),
            default: TypedValue::Integer(default),
            permission,
        }
    }

    /// A string parameter whose value is its default. The bytes are taken as
    /// they are: whether they are text is found out when they are read as
    /// text.
    pub fn text(name: &str, default: Vec<u8>, permission: u32) -> (r: Parameter)
        ensures
            r@ == ParameterView::fresh(name@, Value::Text(default@), permission),
    {
        let value = default.clone();
        assert(value@ =~= default@);
        Parameter {
            name: name.to_owned(),
            kind: ParamType::Text,
            value: TypedValue::Text(value),
            default: TypedValue::Text(default),
            permission,
        }
    }

    /// The parameter's name.
    pub fn name(&self) -> (r: &str)
        ensures
            r@ == self@.name,
    {
        self.name.as_str()
    }

    /// The parameter's type.
    pub fn kind(&self) -> (r: ParamType)
        ensures
            r == self@.kind,
            self@.well_typed(),
    {
        proof {
            use_type_invariant(self);
        }
        self.kind
    }

    /// The parameter's permission mask.
    pub fn permission(&self) -> (r: u32)
        ensures
            r == self@.permission,
    {
        self.permission
    }

    /// Whether the permission mask grants a write.
    pub fn is_writable(&self) -> (r: bool)
        ensures
            r == grants_write(self@.permission),
    {
        allows_write(self.permission)
    }

    /// The current value.
    pub fn value(&self) -> (r: &TypedValue)
        ensures
            r@ == self@.value,
            r@.kind() == self@.kind,
    {
        proof {
            use_type_invariant(self);
        }
        &self.value
    }

    /// The default that the value had when the parameter was made.
    pub fn default_value(&self) -> (r: &TypedValue)
        ensures
            r@ == self@.default,
            r@.kind() == self@.kind,
    {
        proof {
            use_type_invariant(self);
        }
        &self.default
    }

    /// The current value of an integer parameter; `TypeMismatch` for a string
    /// parameter.
    pub fn read_integer(&self) -> (r: Result<i32, ParamError>)
        ensures
            r == self@.value.as_integer(),
    {
        self.value.as_integer()
    }

    /// The current value of a string parameter as text: `TypeMismatch` for an
    /// integer parameter, `EncodingError` where the bytes are not
    /// well-formed UTF-8.
    pub fn read_text(&self) -> (r: Result<String, ParamError>)
        ensures
            match r {
                Ok(s) => self@.value.as_text() == Ok::<Seq<char>, ParamError>(s@),
                Err(e) => self@.value.as_text() == Err::<Seq<char>, ParamError>(e),
            },
    {
        self.value.as_text()
    }

    /// Writes `value`. The write is refused with `PermissionDenied` where the
    /// permission mask grants none, and with `TypeMismatch` where the value
    /// is of another type than the parameter; a refused write changes
    /// nothing.
    pub fn set(&mut self, value: TypedValue) -> (r: Result<(), ParamError>)
        ensures
            r == old(self)@.write_result(value@),
            final(self)@ == old(self)@.after_write(value@),
    {
        proof {
            use_type_invariant(&*self);
        }
        if !allows_write(self.permission) {
            Err(ParamError::PermissionDenied)
        } else if value.kind() != self.kind {
            Err(ParamError::TypeMismatch)
        } else {
            self.value = value;
            Ok(())
        }
    }

    /// Sets the value back to the default.
    pub fn reset(&mut self)
        ensures
            final(self)@ == old(self)@.reset(),
            final(self)@.well_typed(),
    {
        proof {
            use_type_invariant(&*self);
        }
        self.value = self.default.clone();
    }
}

} // verus!
