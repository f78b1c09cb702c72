//! The data model: scalar kinds, field values and schema entries.

use vstd::prelude::*;

verus! {

/// The scalar kind a field declares. Booleans can be encoded but have no
/// decode rule; floating-point kinds are not modelled here.
#[derive(Debug, Clone, Copy, PartialEq, Eq, Structural)]
pub enum Kind {
    Bool,
    I8,
    I16,
    I32,
    I64,
    I128,
    U8,
    U16,
    U32,
    U64,
    U128,
    Char,
    Str,
    Bytes,
}

/// One scalar field value.
#[derive(Debug, Clone, PartialEq, Eq)]
pub enum Value {
    Bool(bool),
    I8(i8),
    I16(i16),
    I32(i32),
    I64(i64),
    I128(i128),
    U8(u8),
    U16(u16),
    U32(u32),
    U64(u64),
    U128(u128),
    Char(char),
    Str(String),
    Bytes(Vec<u8>),
}

/// Mathematical form of [`Value`]: strings as character sequences, byte
/// buffers as byte sequences.
pub enum ValueSpec {
    Bool(bool),
    I8(i8),
    I16(i16),
    I32(i32),
    I64(i64),
    I128(i128),
    U8(u8),
    U16(u16),
    U32(u32),
    U64(u64),
    U128(u128),
    Char(char),
    Str(Seq<char>),
    Bytes(Seq<u8>),
}

impl View for Value {
    type V = ValueSpec;

    open spec fn view(&self) -> ValueSpec {
        match self {
            Value::Bool(v) => ValueSpec::Bool(*v),
            Value::I8(v) => ValueSpec::I8(*v),
            Value::I16(v) => ValueSpec::I16(*v),
            Value::I32(v) => ValueSpec::I32(*v),
            Value::I64(v) => ValueSpec::I64(*v),
            Value::I128(v) => ValueSpec::I128(*v),
            Value::U8(v) => ValueSpec::U8(*v),
            Value::U16(v) => ValueSpec::U16(*v),
            Value::U32(v) => ValueSpec::U32(*v),
            Value::U64(v) => ValueSpec::U64(*v),
            Value::U128(v) => ValueSpec::U128(*v),
            Value::Char(v) => ValueSpec::Char(*v),
            Value::Str(v) => ValueSpec::Str(v@),
            Value::Bytes(v) => ValueSpec::Bytes(v@),
        }
    }
}

impl DeepView for Value {
    type V = ValueSpec;

    open spec fn deep_view(&self) -> ValueSpec {
        self.view()
    }
}

/// The kind a value belongs to.
pub open spec fn kind_of(v: ValueSpec) -> Kind {
    match v {
        ValueSpec::Bool(_) => Kind::Bool,
        ValueSpec::I8(_) => Kind::I8,
        ValueSpec::I16(_) => Kind::I16,
        ValueSpec::I32(_) => Kind::I32,
        ValueSpec::I64(_) => Kind::I64,
        ValueSpec::I128(_) => Kind::I128,
        ValueSpec::U8(_) => Kind::U8,
        ValueSpec::U16(_) => Kind::U16,
        ValueSpec::U32(_) => Kind::U32,
        ValueSpec::U64(_) => Kind::U64,
        ValueSpec::U128(_) => Kind::U128,
        ValueSpec::Char(_) => Kind::Char,
        ValueSpec::Str(_) => Kind::Str,
        ValueSpec::Bytes(_) => Kind::Bytes,
    }
}

/// One entry of a decode schema: the field's name, its scalar kind, and
/// whether an absent key resolves to the absent variant instead of an error.
#[derive(Debug, Clone, PartialEq, Eq)]
pub struct FieldDecl {
    pub name: String,
    pub kind: Kind,
    pub optional: bool,
}

/// Mathematical form of [`FieldDecl`].
pub struct FieldDeclSpec {
    pub name: Seq<char>,
    pub kind: Kind,
    pub optional: bool,
}

impl View for FieldDecl {
    type V = FieldDeclSpec;

    open spec fn view(&self) -> FieldDeclSpec {
        FieldDeclSpec { name: self.name@, kind: self.kind, optional: self.optional }
    }
}

impl DeepView for FieldDecl {
    type V = FieldDeclSpec;

    open spec fn deep_view(&self) -> FieldDeclSpec {
        self.view()
    }
}

/// One field of a record handed to the encoder: the field's name and its
/// value, `None` standing for an optional field left absent.
#[derive(Debug, Clone, PartialEq, Eq)]
pub struct FieldValue {
    pub name: String,
    pub value: Option<Value>,
}

/// Mathematical form of [`FieldValue`].
pub struct FieldValueSpec {
    pub name: Seq<char>,
    pub value: Option<ValueSpec>,
}

impl View for FieldValue {
    type V = FieldValueSpec;

    open spec fn view(&self) -> FieldValueSpec {
        FieldValueSpec { name: self.name@, value: self.value.deep_view() }
    }
}

impl DeepView for FieldValue {
    type V = FieldValueSpec;

    open spec fn deep_view(&self) -> FieldValueSpec {
        self.view()
    }
}

} // verus!
