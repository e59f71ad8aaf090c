//! The types of columns, as a schema names them and as the wire carries
//! them.

use vstd::prelude::*;

verus! {

/// The type of a column, as a table definition names it.
#[derive(Debug, PartialEq, Eq, PartialOrd, Ord, Hash)]
pub enum FieldType {
    TinyInt,
    SmallInt,
    Int,
    BigInt,
    Float,
    Double,
    Decimal,
    Date,
    Datetime,
    Timestamp,
    Duration,
    Year,
    Char,
    VarChar,
    Binary,
    VarBinary,
    TinyBlob,
    Blob,
    MediumBlob,
    LongBlob,
    TinyText,
    Text,
    MediumText,
    LongText,
    Enum,
    SetType,
    Bit,
    Geometry,
    Json,
    /// A type that this library has no name for.
    Other(String),
}

/// The lower-case form of a string.
pub uninterp spec fn lowercase_spec(s: Seq<char>) -> Seq<char>;

/// The upper-case form of a string.
pub uninterp spec fn uppercase_spec(s: Seq<char>) -> Seq<char>;

/// `str::to_lowercase` of the standard library: the string with each of
/// its characters in lower case, which depends on the string alone.
#[verifier::external_body]
fn to_lowercase(s: &str) -> (r: String)
    ensures
        r@ == lowercase_spec(s@),
{
    s.to_lowercase()
}

/// `str::to_uppercase` of the standard library: the string with each of
/// its characters in upper case, which depends on the string alone.
#[verifier::external_body]
fn to_uppercase(s: &str) -> (r: String)
    ensures
        r@ == uppercase_spec(s@),
{
    s.to_uppercase()
}

impl Clone for FieldType {
    fn clone(&self) -> (r: Self)
        ensures
            r.name() == self.name(),
            (r is Other) == (*self is Other),
            !(*self is Other) ==> r == *self,
    {
        match self {
            FieldType::TinyInt => FieldType::TinyInt,
            FieldType::SmallInt => FieldType::SmallInt,
            FieldType::Int => FieldType::Int,
            FieldType::BigInt => FieldType::BigInt,
            FieldType::Float => FieldType::Float,
            FieldType::Double => FieldType::Double,
            FieldType::Decimal => FieldType::Decimal,
            FieldType::Date => FieldType::Date,
            FieldType::Datetime => FieldType::Datetime,
            FieldType::Timestamp => FieldType::Timestamp,
            FieldType::Duration => FieldType::Duration,
            FieldType::Year => FieldType::Year,
            FieldType::Char => FieldType::Char,
            FieldType::VarChar => FieldType::VarChar,
            FieldType::Binary => FieldType::Binary,
            FieldType::VarBinary => FieldType::VarBinary,
            FieldType::TinyBlob => FieldType::TinyBlob,
            FieldType::Blob => FieldType::Blob,
            FieldType::MediumBlob => FieldType::MediumBlob,
            FieldType::LongBlob => FieldType::LongBlob,
            FieldType::TinyText => FieldType::TinyText,
            FieldType::Text => FieldType::Text,
            FieldType::MediumText => FieldType::MediumText,
            FieldType::LongText => FieldType::LongText,
            FieldType::Enum => FieldType::Enum,
            FieldType::SetType => FieldType::SetType,
            FieldType::Bit => FieldType::Bit,
            FieldType::Geometry => FieldType::Geometry,
            FieldType::Json => FieldType::Json,
            FieldType::Other(s) => FieldType::Other(s.clone()),
        }
    }
}

impl FieldType {
    /// The name of the type.
    pub open spec fn name(&self) -> Seq<char> {
        match *self {
            FieldType::TinyInt => "tinyint"@,
            FieldType::SmallInt => "smallint"@,
            FieldType::Int => "int"@,
            FieldType::BigInt => "bigint"@,
            FieldType::Float => "float"@,
            FieldType::Double => "double"@,
            FieldType::Decimal => "decimal"@,
            FieldType::Date => "date"@,
            FieldType::Datetime => "datetime"@,
            FieldType::Timestamp => "timestamp"@,
            FieldType::Duration => "duration"@,
            FieldType::Year => "year"@,
            FieldType::Char => "char"@,
            FieldType::VarChar => "varchar"@,
            FieldType::Binary => "binary"@,
            FieldType::VarBinary => "varbinary"@,
            FieldType::TinyBlob => "tinyblob"@,
            FieldType::Blob => "blob"@,
            FieldType::MediumBlob => "mediumblob"@,
            FieldType::LongBlob => "longblob"@,
            FieldType::TinyText => "tinytext"@,
            FieldType::Text => "text"@,
            FieldType::MediumText => "mediumtext"@,
            FieldType::LongText => "longtext"@,
            FieldType::Enum => "enum"@,
            FieldType::SetType => "set"@,
            FieldType::Bit => "bit"@,
            FieldType::Geometry => "geometry"@,
            FieldType::Json => "json"@,
            FieldType::Other(s) => s@,
        }
    }

    /// The name of the type.
    pub fn as_str(&self) -> (r: &str)
        ensures
            r@ == self.name(),
    {
        match self {
            FieldType::TinyInt => "tinyint",
            FieldType::SmallInt => "smallint",
            FieldType::Int => "int",
            FieldType::BigInt => "bigint",
            FieldType::Float => "float",
            FieldType::Double => "double",
            FieldType::Decimal => "decimal",
            FieldType::Date => "date",
            FieldType::Datetime => "datetime",
            FieldType::Timestamp => "timestamp",
            FieldType::Duration => "duration",
            FieldType::Year => "year",
            FieldType::Char => "char",
            FieldType::VarChar => "varchar",
            FieldType::Binary => "binary",
            FieldType::VarBinary => "varbinary",
            FieldType::TinyBlob => "tinyblob",
            FieldType::Blob => "blob",
            FieldType::MediumBlob => "mediumblob",
            FieldType::LongBlob => "longblob",
            FieldType::TinyText => "tinytext",
            FieldType::Text => "text",
            FieldType::MediumText => "mediumtext",
            FieldType::LongText => "longtext",
            FieldType::Enum => "enum",
            FieldType::SetType => "set",
            FieldType::Bit => "bit",
            FieldType::Geometry => "geometry",
            FieldType::Json => "json",
            FieldType::Other(s) => s.as_str(),
        }
    }

    /// The name of the type in lower case.
    pub fn as_str_lower(&self) -> (r: String)
        ensures
            r@ == lowercase_spec(self.name()),
    {
        to_lowercase(self.as_str())
    }

    /// The name of the type in upper case.
    pub fn as_str_upper(&self) -> (r: String)
        ensures
            r@ == uppercase_spec(self.name()),
    {
        to_uppercase(self.as_str())
    }

    /// Whether the type holds character strings of bounded kinds.
    pub fn is_string(&self) -> (r: bool)
        ensures
            r == (*self is Char || *self is VarChar || *self is TinyText || *self is Text || *self is MediumText),
    {
        match self {
            FieldType::Char | FieldType::VarChar | FieldType::TinyText | FieldType::Text | FieldType::MediumText => true,
            _ => false,
        }
    }

    /// Whether the type holds byte strings.
    pub fn is_binary(&self) -> (r: bool)
        ensures
            r == (*self is Binary || *self is VarBinary || *self is TinyBlob || *self is Blob || *self is MediumBlob || *self is LongBlob),
    {
        match self {
            FieldType::Binary | FieldType::VarBinary | FieldType::TinyBlob | FieldType::Blob | FieldType::MediumBlob | FieldType::LongBlob => true,
            _ => false,
        }
    }

    /// Whether the type is one of the blob types.
    pub fn is_blob(&self) -> (r: bool)
        ensures
            r == (*self is TinyBlob || *self is Blob || *self is MediumBlob || *self is LongBlob),
    {
        match self {
            FieldType::TinyBlob | FieldType::Blob | FieldType::MediumBlob | FieldType::LongBlob => true,
            _ => false,
        }
    }

    /// Whether the type is one of the text types.
    pub fn is_text(&self) -> (r: bool)
        ensures
            r == (*self is TinyText || *self is Text || *self is MediumText || *self is LongText),
    {
        match self {
            FieldType::TinyText | FieldType::Text | FieldType::MediumText | FieldType::LongText => true,
            _ => false,
        }
    }

    /// Whether the type holds numbers.
    pub fn is_numeric(&self) -> (r: bool)
        ensures
            r == (*self is TinyInt || *self is SmallInt || *self is Int || *self is BigInt || *self is Float || *self is Double || *self is Decimal),
    {
        match self {
            FieldType::TinyInt | FieldType::SmallInt | FieldType::Int | FieldType::BigInt | FieldType::Float | FieldType::Double | FieldType::Decimal => true,
            _ => false,
        }
    }

    /// Whether the type holds whole numbers.
    pub fn is_integer(&self) -> (r: bool)
        ensures
            r == (*self is TinyInt || *self is SmallInt || *self is Int || *self is BigInt),
    {
        match self {
            FieldType::TinyInt | FieldType::SmallInt | FieldType::Int | FieldType::BigInt => true,
            _ => false,
        }
    }

    /// Whether the type holds numbers without a sign.
    pub fn is_unsigned(&self) -> (r: bool)
        ensures
            r == (*self is TinyInt),
    {
        match self {
            FieldType::TinyInt => true,
            _ => false,
        }
    }

    /// Whether the type holds numbers with a fraction.
    pub fn is_float(&self) -> (r: bool)
        ensures
            r == (*self is Float || *self is Double || *self is Decimal),
    {
        match self {
            FieldType::Float | FieldType::Double | FieldType::Decimal => true,
            _ => false,
        }
    }

    /// Whether the type is the decimal type.
    pub fn is_decimal(&self) -> (r: bool)
        ensures
            r == (*self is Decimal),
    {
        match self {
            FieldType::Decimal => true,
            _ => false,
        }
    }
}

/// Why a column type could not be read.
#[derive(Clone, Copy, Debug, PartialEq, Eq, Structural)]
pub enum DataTypeError {
    /// The number stands for no collation.
    UnsupportedCollation { code: i32 },
}

/// The type of a column, as the wire carries it.
#[derive(Clone, Copy, Debug, PartialEq, Eq, Structural)]
pub enum FieldTypeTp {
    Unspecified,
    Tiny,
    Short,
    Long,
    Float,
    Double,
    Null,
    Timestamp,
    LongLong,
    Int24,
    Date,
    Duration,
    DateTime,
    Year,
    NewDate,
    VarChar,
    Bit,
    JSON,
    NewDecimal,
    Enum,
    SetType,
    TinyBlob,
    MediumBlob,
    LongBlob,
    Blob,
    VarString,
    String,
    Geometry,
}

/// The number that stands for a column type on the wire.
pub open spec fn tp_code(tp: FieldTypeTp) -> i32 {
    match tp {
        FieldTypeTp::Unspecified => 0,
        FieldTypeTp::Tiny => 1,
        FieldTypeTp::Short => 2,
        FieldTypeTp::Long => 3,
        FieldTypeTp::Float => 4,
        FieldTypeTp::Double => 5,
        FieldTypeTp::Null => 6,
        FieldTypeTp::Timestamp => 7,
        FieldTypeTp::LongLong => 8,
        FieldTypeTp::Int24 => 9,
        FieldTypeTp::Date => 10,
        FieldTypeTp::Duration => 11,
        FieldTypeTp::DateTime => 12,
        FieldTypeTp::Year => 13,
        FieldTypeTp::NewDate => 14,
        FieldTypeTp::VarChar => 15,
        FieldTypeTp::Bit => 16,
        FieldTypeTp::JSON => 245,
        FieldTypeTp::NewDecimal => 246,
        FieldTypeTp::Enum => 247,
        FieldTypeTp::SetType => 248,
        FieldTypeTp::TinyBlob => 249,
        FieldTypeTp::MediumBlob => 250,
        FieldTypeTp::LongBlob => 251,
        FieldTypeTp::Blob => 252,
        FieldTypeTp::VarString => 253,
        FieldTypeTp::String => 254,
        FieldTypeTp::Geometry => 255,
    }
}

/// The column type that a number stands for; none for a number that
/// stands for no type.
pub open spec fn tp_of_code(code: i32) -> Option<FieldTypeTp> {
    if code == 0 {
        Some(FieldTypeTp::Unspecified)
    } else if code == 1 {
        Some(FieldTypeTp::Tiny)
    } else if code == 2 {
        Some(FieldTypeTp::Short)
    } else if code == 3 {
        Some(FieldTypeTp::Long)
    } else if code == 4 {
        Some(FieldTypeTp::Float)
    } else if code == 5 {
        Some(FieldTypeTp::Double)
    } else if code == 6 {
        Some(FieldTypeTp::Null)
    } else if code == 7 {
        Some(FieldTypeTp::Timestamp)
    } else if code == 8 {
        Some(FieldTypeTp::LongLong)
    } else if code == 9 {
        Some(FieldTypeTp::Int24)
    } else if code == 10 {
        Some(FieldTypeTp::Date)
    } else if code == 11 {
        Some(FieldTypeTp::Duration)
    } else if code == 12 {
        Some(FieldTypeTp::DateTime)
    } else if code == 13 {
        Some(FieldTypeTp::Year)
    } else if code == 14 {
        Some(FieldTypeTp::NewDate)
    } else if code == 15 {
        Some(FieldTypeTp::VarChar)
    } else if code == 16 {
        Some(FieldTypeTp::Bit)
    } else if code == 245 {
        Some(FieldTypeTp::JSON)
    } else if code == 246 {
        Some(FieldTypeTp::NewDecimal)
    } else if code == 247 {
        Some(FieldTypeTp::Enum)
    } else if code == 248 {
        Some(FieldTypeTp::SetType)
    } else if code == 249 {
        Some(FieldTypeTp::TinyBlob)
    } else if code == 250 {
        Some(FieldTypeTp::MediumBlob)
    } else if code == 251 {
        Some(FieldTypeTp::LongBlob)
    } else if code == 252 {
        Some(FieldTypeTp::Blob)
    } else if code == 253 {
        Some(FieldTypeTp::VarString)
    } else if code == 254 {
        Some(FieldTypeTp::String)
    } else if code == 255 {
        Some(FieldTypeTp::Geometry)
    } else {
        None
    }
}

/// Every column type is the type that its number stands for.
pub proof fn lemma_tp_code_round_trip(tp: FieldTypeTp)
    ensures
        tp_of_code(tp_code(tp)) == Some(tp),
        0 <= tp_code(tp) <= 255,
{
}

impl FieldTypeTp {
    /// The column type that `i` stands for.
    pub fn from_i32(i: i32) -> (r: Option<FieldTypeTp>)
        ensures
            r == tp_of_code(i),
    {
        match i {
            0 => Some(FieldTypeTp::Unspecified),
            1 => Some(FieldTypeTp::Tiny),
            2 => Some(FieldTypeTp::Short),
            3 => Some(FieldTypeTp::Long),
            4 => Some(FieldTypeTp::Float),
            5 => Some(FieldTypeTp::Double),
            6 => Some(FieldTypeTp::Null),
            7 => Some(FieldTypeTp::Timestamp),
            8 => Some(FieldTypeTp::LongLong),
            9 => Some(FieldTypeTp::Int24),
            10 => Some(FieldTypeTp::Date),
            11 => Some(FieldTypeTp::Duration),
            12 => Some(FieldTypeTp::DateTime),
            13 => Some(FieldTypeTp::Year),
            14 => Some(FieldTypeTp::NewDate),
            15 => Some(FieldTypeTp::VarChar),
            16 => Some(FieldTypeTp::Bit),
            245 => Some(FieldTypeTp::JSON),
            246 => Some(FieldTypeTp::NewDecimal),
            247 => Some(FieldTypeTp::Enum),
            248 => Some(FieldTypeTp::SetType),
            249 => Some(FieldTypeTp::TinyBlob),
            250 => Some(FieldTypeTp::MediumBlob),
            251 => Some(FieldTypeTp::LongBlob),
            252 => Some(FieldTypeTp::Blob),
            253 => Some(FieldTypeTp::VarString),
            254 => Some(FieldTypeTp::String),
            255 => Some(FieldTypeTp::Geometry),
            _ => None,
        }
    }

    /// The column type that `i` stands for.
    pub fn from_u8(i: u8) -> (r: Option<FieldTypeTp>)
        ensures
            r == tp_of_code(i as i32),
    {
        FieldTypeTp::from_i32(i as i32)
    }

    /// The number that stands for the type.
    pub fn to_i32(self) -> (r: i32)
        ensures
            r == tp_code(self),
    {
        match self {
            FieldTypeTp::Unspecified => 0,
            FieldTypeTp::Tiny => 1,
            FieldTypeTp::Short => 2,
            FieldTypeTp::Long => 3,
            FieldTypeTp::Float => 4,
            FieldTypeTp::Double => 5,
            FieldTypeTp::Null => 6,
            FieldTypeTp::Timestamp => 7,
            FieldTypeTp::LongLong => 8,
            FieldTypeTp::Int24 => 9,
            FieldTypeTp::Date => 10,
            FieldTypeTp::Duration => 11,
            FieldTypeTp::DateTime => 12,
            FieldTypeTp::Year => 13,
            FieldTypeTp::NewDate => 14,
            FieldTypeTp::VarChar => 15,
            FieldTypeTp::Bit => 16,
            FieldTypeTp::JSON => 245,
            FieldTypeTp::NewDecimal => 246,
            FieldTypeTp::Enum => 247,
            FieldTypeTp::SetType => 248,
            FieldTypeTp::TinyBlob => 249,
            FieldTypeTp::MediumBlob => 250,
            FieldTypeTp::LongBlob => 251,
            FieldTypeTp::Blob => 252,
            FieldTypeTp::VarString => 253,
            FieldTypeTp::String => 254,
            FieldTypeTp::Geometry => 255,
        }
    }

    /// The number that stands for the type, which fits in a byte.
    pub fn to_u8(self) -> (r: Option<u8>)
        ensures
            r == Some(tp_code(self) as u8),
            tp_of_code(r.unwrap() as i32) == Some(self),
    {
        Some(self.to_i32() as u8)
    }
}

/// How the strings of a column compare. The collations that pad strings
/// before they compare have negative numbers; the one positive number
/// left over from before stands for a comparison without padding.
#[derive(Clone, Copy, Debug, PartialEq, Eq, Structural)]
pub enum Collation {
    Binary,
    Utf8Mb4Bin,
    Utf8Mb4BinNoPadding,
    Utf8Mb4GeneralCi,
}

/// The number that stands for a collation.
pub open spec fn collation_code(c: Collation) -> i32 {
    match c {
        Collation::Binary => 63i32,
        Collation::Utf8Mb4Bin => -46i32,
        Collation::Utf8Mb4BinNoPadding => 46i32,
        Collation::Utf8Mb4GeneralCi => -45i32,
    }
}

/// The collation that a number stands for. Several numbers stand for one
/// collation, and every number that is not negative and stands for no
/// other stands for the binary comparison without padding.
pub open spec fn collation_of_code(n: i32) -> Result<Collation, DataTypeError> {
    if n == -33 || n == -45 {
        Ok(Collation::Utf8Mb4GeneralCi)
    } else if n == -46 || n == -83 || n == -65 || n == -47 {
        Ok(Collation::Utf8Mb4Bin)
    } else if n == -63 || n == 63 {
        Ok(Collation::Binary)
    } else if n >= 0 {
        Ok(Collation::Utf8Mb4BinNoPadding)
    } else {
        Err(DataTypeError::UnsupportedCollation { code: n })
    }
}

/// Every collation is the collation that its number stands for.
pub proof fn lemma_collation_code_round_trip(c: Collation)
    ensures
        collation_of_code(collation_code(c)) == Ok::<Collation, DataTypeError>(c),
{
}

impl Collation {
    /// The collation that `n` stands for.
    pub fn from_i32(n: i32) -> (r: Result<Collation, DataTypeError>)
        ensures
            r == collation_of_code(n),
    {
        if n == -33 || n == -45 {
            Ok(Collation::Utf8Mb4GeneralCi)
        } else if n == -46 || n == -83 || n == -65 || n == -47 {
            Ok(Collation::Utf8Mb4Bin)
        } else if n == -63 || n == 63 {
            Ok(Collation::Binary)
        } else if n >= 0 {
            Ok(Collation::Utf8Mb4BinNoPadding)
        } else {
            Err(DataTypeError::UnsupportedCollation { code: n })
        }
    }

    /// The number that stands for the collation.
    pub fn to_i32(self) -> (r: i32)
        ensures
            r == collation_code(self),
    {
        match self {
            Collation::Binary => 63,
            Collation::Utf8Mb4Bin => -46,
            Collation::Utf8Mb4BinNoPadding => 46,
            Collation::Utf8Mb4GeneralCi => -45,
        }
    }
}

/// The flag of a column that cannot hold null.
pub const NOT_NULL: u32 = 1;

/// The flag of a column of numbers without a sign.
pub const UNSIGNED: u32 = 32;

/// The flag of a column of byte strings.
pub const BINARY: u32 = 128;

/// The flag of a string that a cast is to read as a document.
pub const PARSE_TO_JSON: u32 = 262144;

/// The flag that tells a truth value from a number.
pub const IS_BOOLEAN: u32 = 524288;

/// All the flags that are known.
pub const ALL_FLAGS: u32 = 786593;

/// The flags of a column.
#[derive(Clone, Copy, Debug, PartialEq, Eq, Structural)]
pub struct FieldTypeFlag {
    bits: u32,
}

impl View for FieldTypeFlag {
    type V = u32;

    closed spec fn view(&self) -> u32 {
        self.bits
    }
}

impl FieldTypeFlag {
    /// The flags of `bits` that are known.
    pub fn from_bits_truncate(bits: u32) -> (r: FieldTypeFlag)
        ensures
            r@ == bits & ALL_FLAGS,
    {
        FieldTypeFlag { bits: bits & ALL_FLAGS }
    }

    pub fn bits(&self) -> (r: u32)
        ensures
            r == self@,
    {
        self.bits
    }

    /// Whether all the flags of `other` are set.
    pub fn contains(&self, other: FieldTypeFlag) -> (r: bool)
        ensures
            r == (self@ & other@ == other@),
    {
        self.bits & other.bits == other.bits
    }
}

/// Whether a column of the given type can stand for values of several
/// types.
pub open spec fn is_hybrid_tp(tp: FieldTypeTp) -> bool {
    tp == FieldTypeTp::Enum || tp == FieldTypeTp::Bit || tp == FieldTypeTp::SetType
}

pub open spec fn is_blob_like_tp(tp: FieldTypeTp) -> bool {
    tp == FieldTypeTp::TinyBlob || tp == FieldTypeTp::MediumBlob || tp == FieldTypeTp::Blob || tp
        == FieldTypeTp::LongBlob
}

pub open spec fn is_char_like_tp(tp: FieldTypeTp) -> bool {
    tp == FieldTypeTp::String || tp == FieldTypeTp::VarChar
}

pub open spec fn is_varchar_like_tp(tp: FieldTypeTp) -> bool {
    tp == FieldTypeTp::VarString || tp == FieldTypeTp::VarChar
}

/// Whether a column of the given type holds strings of some kind.
pub open spec fn is_string_like_tp(tp: FieldTypeTp) -> bool {
    is_blob_like_tp(tp) || is_char_like_tp(tp) || is_varchar_like_tp(tp) || tp
        == FieldTypeTp::Unspecified
}

/// The column type that a number stands for, or the unspecified type.
pub open spec fn tp_or_unspecified(code: i32) -> FieldTypeTp {
    match tp_of_code(code) {
        Some(tp) => tp,
        None => FieldTypeTp::Unspecified,
    }
}

/// One way to read and set the type of a column, for everything that
/// carries one.
pub trait FieldTypeAccessor {
    /// The number that stands for the type.
    spec fn raw_tp(&self) -> i32;

    /// The flags as they are stored.
    spec fn raw_flag(&self) -> u32;

    /// The length of the column as it is stored.
    spec fn raw_flen(&self) -> i32;

    /// The number of decimals as it is stored.
    spec fn raw_decimal(&self) -> i32;

    /// The number that stands for the collation.
    spec fn raw_collation(&self) -> i32;

    fn tp(&self) -> (r: FieldTypeTp)
        ensures
            r == tp_or_unspecified(self.raw_tp()),
    ;

    fn set_tp(&mut self, tp: FieldTypeTp)
        ensures
            final(self).raw_tp() == tp_code(tp),
            final(self).raw_flag() == old(self).raw_flag(),
            final(self).raw_flen() == old(self).raw_flen(),
            final(self).raw_decimal() == old(self).raw_decimal(),
            final(self).raw_collation() == old(self).raw_collation(),
    ;

    fn flag(&self) -> (r: FieldTypeFlag)
        ensures
            r@ == self.raw_flag() & ALL_FLAGS,
    ;

    fn set_flag(&mut self, flag: FieldTypeFlag)
        ensures
            final(self).raw_flag() == flag@,
            final(self).raw_tp() == old(self).raw_tp(),
            final(self).raw_flen() == old(self).raw_flen(),
            final(self).raw_decimal() == old(self).raw_decimal(),
            final(self).raw_collation() == old(self).raw_collation(),
    ;

    fn flen(&self) -> (r: isize)
        ensures
            r == self.raw_flen(),
    ;

    /// Sets the length, of which the low 32 bits are kept.
    fn set_flen(&mut self, flen: isize)
        ensures
            final(self).raw_flen() == flen as i32,
            final(self).raw_tp() == old(self).raw_tp(),
            final(self).raw_flag() == old(self).raw_flag(),
            final(self).raw_decimal() == old(self).raw_decimal(),
            final(self).raw_collation() == old(self).raw_collation(),
    ;

    fn decimal(&self) -> (r: isize)
        ensures
            r == self.raw_decimal(),
    ;

    /// Sets the number of decimals, of which the low 32 bits are kept.
    fn set_decimal(&mut self, decimal: isize)
        ensures
            final(self).raw_decimal() == decimal as i32,
            final(self).raw_tp() == old(self).raw_tp(),
            final(self).raw_flag() == old(self).raw_flag(),
            final(self).raw_flen() == old(self).raw_flen(),
            final(self).raw_collation() == old(self).raw_collation(),
    ;

    fn collation(&self) -> (r: Result<Collation, DataTypeError>)
        ensures
            r == collation_of_code(self.raw_collation()),
    ;

    fn set_collation(&mut self, collation: Collation)
        ensures
            final(self).raw_collation() == collation_code(collation),
            final(self).raw_tp() == old(self).raw_tp(),
            final(self).raw_flag() == old(self).raw_flag(),
            final(self).raw_flen() == old(self).raw_flen(),
            final(self).raw_decimal() == old(self).raw_decimal(),
    ;

    /// Whether the column can stand for values of several types.
    fn is_hybrid(&self) -> (r: bool)
        ensures
            r == is_hybrid_tp(tp_or_unspecified(self.raw_tp())),
    {
        let tp = self.tp();
        tp == FieldTypeTp::Enum || tp == FieldTypeTp::Bit || tp == FieldTypeTp::SetType
    }

    /// Whether the column is of a blob type.
    fn is_blob_like(&self) -> (r: bool)
        ensures
            r == is_blob_like_tp(tp_or_unspecified(self.raw_tp())),
    {
        let tp = self.tp();
        tp == FieldTypeTp::TinyBlob || tp == FieldTypeTp::MediumBlob || tp == FieldTypeTp::Blob
            || tp == FieldTypeTp::LongBlob
    }

    /// Whether the column is of a string or varchar type.
    fn is_char_like(&self) -> (r: bool)
        ensures
            r == is_char_like_tp(tp_or_unspecified(self.raw_tp())),
    {
        let tp = self.tp();
        tp == FieldTypeTp::String || tp == FieldTypeTp::VarChar
    }

    /// Whether the column is of a varstring or varchar type.
    fn is_varchar_like(&self) -> (r: bool)
        ensures
            r == is_varchar_like_tp(tp_or_unspecified(self.raw_tp())),
    {
        let tp = self.tp();
        tp == FieldTypeTp::VarString || tp == FieldTypeTp::VarChar
    }

    /// Whether the column holds strings of some kind.
    fn is_string_like(&self) -> (r: bool)
        ensures
            r == is_string_like_tp(tp_or_unspecified(self.raw_tp())),
    {
        self.is_blob_like() || self.is_char_like() || self.is_varchar_like() || self.tp()
            == FieldTypeTp::Unspecified
    }

    /// Whether the column holds strings that compare as bytes.
    fn is_binary_string_like(&self) -> (r: bool)
        ensures
            r == (collation_of_code(self.raw_collation()) == Ok::<Collation, DataTypeError>(
                Collation::Binary,
            ) && is_string_like_tp(tp_or_unspecified(self.raw_tp()))),
    {
        let binary = match self.collation() {
            Ok(col) => col == Collation::Binary,
            Err(_) => false,
        };
        binary && self.is_string_like()
    }

    /// Whether the column holds strings that do not compare as bytes.
    fn is_non_binary_string_like(&self) -> (r: bool)
        ensures
            r == (collation_of_code(self.raw_collation()) != Ok::<Collation, DataTypeError>(
                Collation::Binary,
            ) && is_string_like_tp(tp_or_unspecified(self.raw_tp()))),
    {
        let non_binary = match self.collation() {
            Ok(col) => col != Collation::Binary,
            Err(_) => true,
        };
        non_binary && self.is_string_like()
    }

    /// Whether the flag for numbers without a sign is set.
    fn is_unsigned(&self) -> (r: bool)
        ensures
            r == ((self.raw_flag() & ALL_FLAGS) & UNSIGNED == UNSIGNED),
    {
        assert(UNSIGNED & ALL_FLAGS == UNSIGNED) by (bit_vector);
        self.flag().contains(FieldTypeFlag::from_bits_truncate(UNSIGNED))
    }
}

/// The type of an expression, as the wire carries it.
#[derive(Clone, Copy, Debug, PartialEq, Eq, Structural)]
pub struct FieldTypeInfo {
    pub tp: i32,
    pub flag: u32,
    pub flen: i32,
    pub decimal: i32,
    pub collate: i32,
}

/// The description of a column, as the wire carries it. It holds the fields
/// of the type of the column beside others of its own.
#[derive(Clone, Copy, Debug, PartialEq, Eq, Structural)]
pub struct ColumnInfo {
    pub column_id: i64,
    pub tp: i32,
    pub flag: i32,
    pub column_len: i32,
    pub decimal: i32,
    pub collation: i32,
}

impl FieldTypeInfo {
    /// The type with nothing set.
    pub fn new() -> (r: FieldTypeInfo)
        ensures
            r == (FieldTypeInfo { tp: 0, flag: 0, flen: 0, decimal: 0, collate: 0 }),
    {
        FieldTypeInfo { tp: 0, flag: 0, flen: 0, decimal: 0, collate: 0 }
    }

    /// The type with nothing set but the column type.
    pub fn from_tp(tp: FieldTypeTp) -> (r: FieldTypeInfo)
        ensures
            r == (FieldTypeInfo { tp: tp_code(tp), flag: 0, flen: 0, decimal: 0, collate: 0 }),
    {
        let mut ft = FieldTypeInfo::new();
        ft.set_tp(tp);
        ft
    }
}

impl ColumnInfo {
    /// The description with nothing set.
    pub fn new() -> (r: ColumnInfo)
        ensures
            r == (ColumnInfo {
                column_id: 0,
                tp: 0,
                flag: 0,
                column_len: 0,
                decimal: 0,
                collation: 0,
            }),
    {
        ColumnInfo { column_id: 0, tp: 0, flag: 0, column_len: 0, decimal: 0, collation: 0 }
    }

    /// The description with nothing set but the column type.
    pub fn from_tp(tp: FieldTypeTp) -> (r: ColumnInfo)
        ensures
            r == (ColumnInfo {
                column_id: 0,
                tp: tp_code(tp),
                flag: 0,
                column_len: 0,
                decimal: 0,
                collation: 0,
            }),
    {
        let mut ft = ColumnInfo::new();
        ft.tp = tp.to_i32();
        ft
    }
}

impl FieldTypeAccessor for FieldTypeInfo {
    open spec fn raw_tp(&self) -> i32 {
        self.tp
    }

    open spec fn raw_flag(&self) -> u32 {
        self.flag
    }

    open spec fn raw_flen(&self) -> i32 {
        self.flen
    }

    open spec fn raw_decimal(&self) -> i32 {
        self.decimal
    }

    open spec fn raw_collation(&self) -> i32 {
        self.collate
    }

    fn tp(&self) -> (r: FieldTypeTp) {
        match FieldTypeTp::from_i32(self.tp) {
            Some(tp) => tp,
            None => FieldTypeTp::Unspecified,
        }
    }

    fn set_tp(&mut self, tp: FieldTypeTp) {
        self.tp = tp.to_i32();
    }

    fn flag(&self) -> (r: FieldTypeFlag) {
        FieldTypeFlag::from_bits_truncate(self.flag)
    }

    fn set_flag(&mut self, flag: FieldTypeFlag) {
        self.flag = flag.bits();
    }

    fn flen(&self) -> (r: isize) {
        self.flen as isize
    }

    fn set_flen(&mut self, flen: isize) {
        self.flen = flen as i32;
    }

    fn decimal(&self) -> (r: isize) {
        self.decimal as isize
    }

    fn set_decimal(&mut self, decimal: isize) {
        self.decimal = decimal as i32;
    }

    fn collation(&self) -> (r: Result<Collation, DataTypeError>) {
        Collation::from_i32(self.collate)
    }

    fn set_collation(&mut self, collation: Collation) {
        self.collate = collation.to_i32();
    }
}

impl FieldTypeAccessor for ColumnInfo {
    open spec fn raw_tp(&self) -> i32 {
        self.tp
    }

    open spec fn raw_flag(&self) -> u32 {
        self.flag as u32
    }

    open spec fn raw_flen(&self) -> i32 {
        self.column_len
    }

    open spec fn raw_decimal(&self) -> i32 {
        self.decimal
    }

    open spec fn raw_collation(&self) -> i32 {
        self.collation
    }

    fn tp(&self) -> (r: FieldTypeTp) {
        match FieldTypeTp::from_i32(self.tp) {
            Some(tp) => tp,
            None => FieldTypeTp::Unspecified,
        }
    }

    fn set_tp(&mut self, tp: FieldTypeTp) {
        self.tp = tp.to_i32();
    }

    fn flag(&self) -> (r: FieldTypeFlag) {
        FieldTypeFlag::from_bits_truncate(self.flag as u32)
    }

    fn set_flag(&mut self, flag: FieldTypeFlag) {
        let bits = flag.bits();
        self.flag = bits as i32;
        assert((bits as i32) as u32 == bits) by (bit_vector);
    }

    fn flen(&self) -> (r: isize) {
        self.column_len as isize
    }

    fn set_flen(&mut self, flen: isize) {
        self.column_len = flen as i32;
    }

    fn decimal(&self) -> (r: isize) {
        self.decimal as isize
    }

    fn set_decimal(&mut self, decimal: isize) {
        self.decimal = decimal as i32;
    }

    fn collation(&self) -> (r: Result<Collation, DataTypeError>) {
        Collation::from_i32(self.collation)
    }

    fn set_collation(&mut self, collation: Collation) {
        self.collation = collation.to_i32();
    }
}

} // verus!
