//! The data types of the SQL bridge that is served over the PostgreSQL
//! wire protocol: how column types are shown to clients, and who may log in.

use vstd::prelude::*;

verus! {

/// The type of a column, as the database reports it.
#[derive(Debug, PartialEq, Eq)]
pub enum DataType {
    Null,
    Boolean,
    Int8,
    Int16,
    Int32,
    Int64,
    UInt8,
    UInt16,
    UInt32,
    UInt64,
    Timestamp,
    Time32,
    Time64,
    Date32,
    Date64,
    Binary,
    Float32,
    Float64,
    Decimal128,
    Utf8,
    /// A list whose items have the given type.
    List(Box<DataType>),
    /// Any other type.
    Other,
}

/// The type of a column, as a client of the wire protocol sees it.
#[derive(Debug, Clone, Copy, PartialEq, Eq, Structural)]
pub enum PgType {
    Unknown,
    Bool,
    Char,
    Int2,
    Int4,
    Int8,
    Timestamp,
    Time,
    Date,
    Bytea,
    Float4,
    Float8,
    Varchar,
    BoolArray,
    CharArray,
    Int2Array,
    Int4Array,
    Int8Array,
    TimestampArray,
    TimeArray,
    DateArray,
    ByteaArray,
    Float4Array,
    Float8Array,
    VarcharArray,
}

/// Why a column type cannot be shown to a client.
#[derive(Debug, Clone, Copy, PartialEq, Eq, Structural)]
pub enum WireError {
    /// The type has no counterpart.
    UnsupportedDatatype,
    /// Lists of items of the type have no counterpart.
    UnsupportedListDatatype,
}

/// The counterpart of a type that is no list.
pub open spec fn scalar_pg_type(t: DataType) -> Option<PgType> {
    match t {
        DataType::Null => Some(PgType::Unknown),
        DataType::Boolean => Some(PgType::Bool),
        DataType::Int8 | DataType::UInt8 => Some(PgType::Char),
        DataType::Int16 | DataType::UInt16 => Some(PgType::Int2),
        DataType::Int32 | DataType::UInt32 => Some(PgType::Int4),
        DataType::Int64 | DataType::UInt64 => Some(PgType::Int8),
        DataType::Timestamp => Some(PgType::Timestamp),
        DataType::Time32 | DataType::Time64 => Some(PgType::Time),
        DataType::Date32 | DataType::Date64 => Some(PgType::Date),
        DataType::Binary => Some(PgType::Bytea),
        DataType::Float32 => Some(PgType::Float4),
        DataType::Float64 => Some(PgType::Float8),
        DataType::Decimal128 => Some(PgType::Int8),
        DataType::Utf8 => Some(PgType::Varchar),
        _ => None,
    }
}

/// The counterpart of a list of items of the given type.
pub open spec fn list_pg_type(item: DataType) -> Option<PgType> {
    match item {
        DataType::Boolean => Some(PgType::BoolArray),
        DataType::Int8 | DataType::UInt8 => Some(PgType::CharArray),
        DataType::Int16 | DataType::UInt16 => Some(PgType::Int2Array),
        DataType::Int32 | DataType::UInt32 => Some(PgType::Int4Array),
        DataType::Int64 | DataType::UInt64 => Some(PgType::Int8Array),
        DataType::Timestamp => Some(PgType::TimestampArray),
        DataType::Time32 | DataType::Time64 => Some(PgType::TimeArray),
        DataType::Date32 | DataType::Date64 => Some(PgType::DateArray),
        DataType::Binary => Some(PgType::ByteaArray),
        DataType::Float32 => Some(PgType::Float4Array),
        DataType::Float64 => Some(PgType::Float8Array),
        DataType::Utf8 => Some(PgType::VarcharArray),
        _ => None,
    }
}

/// The type that a client sees for a column type, or why it sees none.
pub open spec fn pg_type_of(t: DataType) -> Result<PgType, WireError> {
    match t {
        DataType::List(item) => match list_pg_type(*item) {
            Some(p) => Ok(p),
            None => Err(WireError::UnsupportedListDatatype),
        },
        _ => match scalar_pg_type(t) {
            Some(p) => Ok(p),
            None => Err(WireError::UnsupportedDatatype),
        },
    }
}

/// The type that a client sees for a column type.
pub fn into_pg_type(df_type: &DataType) -> (r: Result<PgType, WireError>)
    ensures
        r == pg_type_of(*df_type),
{
    Ok(
        match df_type {
            DataType::Null => PgType::Unknown,
            DataType::Boolean => PgType::Bool,
            DataType::Int8 | DataType::UInt8 => PgType::Char,
            DataType::Int16 | DataType::UInt16 => PgType::Int2,
            DataType::Int32 | DataType::UInt32 => PgType::Int4,
            DataType::Int64 | DataType::UInt64 => PgType::Int8,
            DataType::Timestamp => PgType::Timestamp,
            DataType::Time32 | DataType::Time64 => PgType::Time,
            DataType::Date32 | DataType::Date64 => PgType::Date,
            DataType::Binary => PgType::Bytea,
            DataType::Float32 => PgType::Float4,
            DataType::Float64 => PgType::Float8,
            DataType::Decimal128 => PgType::Int8,
            DataType::Utf8 => PgType::Varchar,
            DataType::List(item) => match &**item {
                DataType::Boolean => PgType::BoolArray,
                DataType::Int8 | DataType::UInt8 => PgType::CharArray,
                DataType::Int16 | DataType::UInt16 => PgType::Int2Array,
                DataType::Int32 | DataType::UInt32 => PgType::Int4Array,
                DataType::Int64 | DataType::UInt64 => PgType::Int8Array,
                DataType::Timestamp => PgType::TimestampArray,
                DataType::Time32 | DataType::Time64 => PgType::TimeArray,
                DataType::Date32 | DataType::Date64 => PgType::DateArray,
                DataType::Binary => PgType::ByteaArray,
                DataType::Float32 => PgType::Float4Array,
                DataType::Float64 => PgType::Float8Array,
                DataType::Utf8 => PgType::VarcharArray,
                _ => {
                    return Err(WireError::UnsupportedListDatatype);
                },
            },
            DataType::Other => {
                return Err(WireError::UnsupportedDatatype);
            },
        },
    )
}

/// How clients of the server prove who they are.
#[derive(Debug)]
pub enum AuthType {
    Default { password: String },
    Scram { password: String, key_slice: Vec<u8>, cert_slice: Vec<u8> },
}

/// The source of the password that a login is checked against.
#[derive(Debug)]
pub struct TrexAuthSource {
    pub password: String,
}

/// The password that an authentication setting holds.
pub open spec fn password_of(auth_type: AuthType) -> Seq<char> {
    match auth_type {
        AuthType::Default { password } => password@,
        AuthType::Scram { password, .. } => password@,
    }
}

/// The password source that a startup handler for the given setting checks logins against.
pub fn get_startup_handler(auth_type: &AuthType) -> (r: TrexAuthSource)
    ensures
        r.password@ == password_of(*auth_type),
{
    match auth_type {
        AuthType::Default { password } => TrexAuthSource { password: password.clone() },
        AuthType::Scram { password, .. } => TrexAuthSource { password: password.clone() },
    }
}

/// What a replication is asked to follow.
#[derive(Debug)]
pub enum ReplicateCommand {
    /// The changes of a publication, read through a replication slot.
    Cdc { publication: String, slot_name: String },
}

} // verus!
