//! Errors of a conversion, each with a stable numeric code.

use crate::number::{dec_digits, dec_signed, push_i64, push_u64};
use vstd::prelude::*;
use vstd::string::StringExecFns;

verus! {

/// Class of an error, as reported to machines and logs.
#[derive(Debug, Clone, Copy, PartialEq, Eq, Structural)]
pub enum ErrorCode {
    /// The input file does not exist.
    FileNotFound,
    /// The input file holds nothing.
    EmptyFile,
    /// A section, field or value is malformed.
    ParseError,
    /// The input holds no `[Pattern]` section.
    NoPatternSection,
    /// An arc's radius does not reach its endpoints.
    InvalidArc,
    /// A coordinate lies outside the sheet.
    OutOfBounds,
    /// A shape is used on pieces of different sizes.
    ShapeSizeMismatch,
    /// The layout holds no cut.
    NoCutsFound,
    /// No tool fits the thickness.
    ToolNotFound,
    /// An encrypted input could not be decrypted.
    DecryptionFailed,
}

impl ErrorCode {
    /// The number of this class.
    pub open spec fn number(self) -> int {
        match self {
            ErrorCode::FileNotFound => -1,
            ErrorCode::EmptyFile => -2,
            ErrorCode::ParseError => -3,
            ErrorCode::NoPatternSection => -11,
            ErrorCode::InvalidArc => 100,
            ErrorCode::OutOfBounds => 101,
            ErrorCode::ShapeSizeMismatch => 200,
            ErrorCode::NoCutsFound => 201,
            ErrorCode::ToolNotFound => 202,
            ErrorCode::DecryptionFailed => 300,
        }
    }

    /// The number of this class.
    pub fn value(self) -> (n: i32)
        ensures
            n == self.number(),
    {
        match self {
            ErrorCode::FileNotFound => -1,
            ErrorCode::EmptyFile => -2,
            ErrorCode::ParseError => -3,
            ErrorCode::NoPatternSection => -11,
            ErrorCode::InvalidArc => 100,
            ErrorCode::OutOfBounds => 101,
            ErrorCode::ShapeSizeMismatch => 200,
            ErrorCode::NoCutsFound => 201,
            ErrorCode::ToolNotFound => 202,
            ErrorCode::DecryptionFailed => 300,
        }
    }
}

/// What can go wrong in a conversion. Measures are held as the text in
/// which they are shown.
#[derive(Debug)]
pub enum ConvertError {
    FileNotFound { path: String },
    EmptyFile { path: String },
    ParseError { line: usize, message: String },
    NoPatternSection,
    InvalidSection { line: usize, header: String },
    MissingField { section: String, field: String },
    InvalidValue { field: String, expected: String, value: String },
    InvalidArc { radius: String, x1: String, y1: String, x2: String, y2: String },
    OutOfBounds { x: String, y: String, width: String, height: String },
    ShapeSizeMismatch { shape_id: i32 },
    NoCutsFound,
    ShapeNotFound { shape_id: i32 },
    InfoNotFound { info_id: i32 },
    DecryptionFailed { message: String },
    Io { message: String },
    InvalidNumber { line: usize, value: String },
}

impl ConvertError {
    /// The class of this error.
    pub open spec fn class(&self) -> ErrorCode {
        match self {
            ConvertError::FileNotFound { .. } => ErrorCode::FileNotFound,
            ConvertError::EmptyFile { .. } => ErrorCode::EmptyFile,
            ConvertError::NoPatternSection => ErrorCode::NoPatternSection,
            ConvertError::InvalidArc { .. } => ErrorCode::InvalidArc,
            ConvertError::OutOfBounds { .. } => ErrorCode::OutOfBounds,
            ConvertError::ShapeSizeMismatch { .. } => ErrorCode::ShapeSizeMismatch,
            ConvertError::NoCutsFound => ErrorCode::NoCutsFound,
            ConvertError::DecryptionFailed { .. } => ErrorCode::DecryptionFailed,
            ConvertError::Io { .. } => ErrorCode::FileNotFound,
            _ => ErrorCode::ParseError,
        }
    }

    /// The sentence that describes this error.
    pub open spec fn description(&self) -> Seq<char> {
        match self {
            ConvertError::FileNotFound { path } => "File not found: "@ + path@,
            ConvertError::EmptyFile { path } => "Empty file: "@ + path@,
            ConvertError::ParseError { line, message } => "Parse error at line "@ + dec_digits(
                *line as nat,
            ) + ": "@ + message@,
            ConvertError::NoPatternSection => "No [Pattern] section found in file"@,
            ConvertError::InvalidSection { line, header } => "Invalid section header at line "@
                + dec_digits(*line as nat) + ": "@ + header@,
            ConvertError::MissingField { section, field } => "Missing required field '"@ + field@
                + "' in section ["@ + section@ + "]"@,
            ConvertError::InvalidValue { field, expected, value } => "Invalid value for '"@
                + field@ + "': expected "@ + expected@ + ", got '"@ + value@ + "'"@,
            ConvertError::InvalidArc { radius, x1, y1, x2, y2 } =>
                "Invalid arc geometry: radius "@ + radius@ + " is too small for endpoints ("@
                + x1@ + ", "@ + y1@ + ") to ("@ + x2@ + ", "@ + y2@ + ")"@,
            ConvertError::OutOfBounds { x, y, width, height } =>
                "Coordinates out of sheet bounds: ("@ + x@ + ", "@ + y@
                + ") exceeds sheet size ("@ + width@ + " x "@ + height@ + ")"@,
            ConvertError::ShapeSizeMismatch { shape_id } => "Shape "@ + dec_signed(
                *shape_id as int,
            ) + " is used on pieces of different sizes"@,
            ConvertError::NoCutsFound => "No cuts found in layout"@,
            ConvertError::ShapeNotFound { shape_id } => "Shape reference not found: Shape="@
                + dec_signed(*shape_id as int),
            ConvertError::InfoNotFound { info_id } => "Info reference not found: Info="@
                + dec_signed(*info_id as int),
            ConvertError::DecryptionFailed { message } => "OTX decryption failed: "@ + message@,
            ConvertError::Io { message } => "IO error: "@ + message@,
            ConvertError::InvalidNumber { line, value } => "Invalid numeric value at line "@
                + dec_digits(*line as nat) + ": "@ + value@,
        }
    }

    /// The class of this error.
    pub fn code(&self) -> (c: ErrorCode)
        ensures
            c == self.class(),
    {
        match self {
            ConvertError::FileNotFound { .. } => ErrorCode::FileNotFound,
            ConvertError::EmptyFile { .. } => ErrorCode::EmptyFile,
            ConvertError::ParseError { .. } => ErrorCode::ParseError,
            ConvertError::NoPatternSection => ErrorCode::NoPatternSection,
            ConvertError::InvalidSection { .. } => ErrorCode::ParseError,
            ConvertError::MissingField { .. } => ErrorCode::ParseError,
            ConvertError::InvalidValue { .. } => ErrorCode::ParseError,
            ConvertError::InvalidArc { .. } => ErrorCode::InvalidArc,
            ConvertError::OutOfBounds { .. } => ErrorCode::OutOfBounds,
            ConvertError::ShapeSizeMismatch { .. } => ErrorCode::ShapeSizeMismatch,
            ConvertError::NoCutsFound => ErrorCode::NoCutsFound,
            ConvertError::ShapeNotFound { .. } => ErrorCode::ParseError,
            ConvertError::InfoNotFound { .. } => ErrorCode::ParseError,
            ConvertError::DecryptionFailed { .. } => ErrorCode::DecryptionFailed,
            ConvertError::Io { .. } => ErrorCode::FileNotFound,
            ConvertError::InvalidNumber { .. } => ErrorCode::ParseError,
        }
    }

    /// The number of this error's class.
    pub fn code_value(&self) -> (n: i32)
        ensures
            n == self.class().number(),
    {
        self.code().value()
    }

    /// The sentence that describes this error.
    pub fn message(&self) -> (s: String)
        ensures
            s@ == self.description(),
    {
        match self {
            ConvertError::FileNotFound { path } => {
                let mut s = String::from_str("File not found: ");
                s.append(path.as_str());
                s
            },
            ConvertError::EmptyFile { path } => {
                let mut s = String::from_str("Empty file: ");
                s.append(path.as_str());
                s
            },
            ConvertError::ParseError { line, message } => {
                let mut s = String::from_str("Parse error at line ");
                push_u64(&mut s, *line as u64);
                s.append(": ");
                s.append(message.as_str());
                s
            },
            ConvertError::NoPatternSection => String::from_str(
                "No [Pattern] section found in file",
            ),
            ConvertError::InvalidSection { line, header } => {
                let mut s = String::from_str("Invalid section header at line ");
                push_u64(&mut s, *line as u64);
                s.append(": ");
                s.append(header.as_str());
                s
            },
            ConvertError::MissingField { section, field } => {
                let mut s = String::from_str("Missing required field '");
                s.append(field.as_str());
                s.append("' in section [");
                s.append(section.as_str());
                s.append("]");
                s
            },
            ConvertError::InvalidValue { field, expected, value } => {
                let mut s = String::from_str("Invalid value for '");
                s.append(field.as_str());
                s.append("': expected ");
                s.append(expected.as_str());
                s.append(", got '");
                s.append(value.as_str());
                s.append("'");
                s
            },
            ConvertError::InvalidArc { radius, x1, y1, x2, y2 } => {
                let mut s = String::from_str("Invalid arc geometry: radius ");
                s.append(radius.as_str());
                s.append(" is too small for endpoints (");
                s.append(x1.as_str());
                s.append(", ");
                s.append(y1.as_str());
                s.append(") to (");
                s.append(x2.as_str());
                s.append(", ");
                s.append(y2.as_str());
                s.append(")");
                s
            },
            ConvertError::OutOfBounds { x, y, width, height } => {
                let mut s = String::from_str("Coordinates out of sheet bounds: (");
                s.append(x.as_str());
                s.append(", ");
                s.append(y.as_str());
                s.append(") exceeds sheet size (");
                s.append(width.as_str());
                s.append(" x ");
                s.append(height.as_str());
                s.append(")");
                s
            },
            ConvertError::ShapeSizeMismatch { shape_id } => {
                let mut s = String::from_str("Shape ");
                push_i64(&mut s, *shape_id as i64);
                s.append(" is used on pieces of different sizes");
                s
            },
            ConvertError::NoCutsFound => String::from_str("No cuts found in layout"),
            ConvertError::ShapeNotFound { shape_id } => {
                let mut s = String::from_str("Shape reference not found: Shape=");
                push_i64(&mut s, *shape_id as i64);
                s
            },
            ConvertError::InfoNotFound { info_id } => {
                let mut s = String::from_str("Info reference not found: Info=");
                push_i64(&mut s, *info_id as i64);
                s
            },
            ConvertError::DecryptionFailed { message } => {
                let mut s = String::from_str("OTX decryption failed: ");
                s.append(message.as_str());
                s
            },
            ConvertError::Io { message } => {
                let mut s = String::from_str("IO error: ");
                s.append(message.as_str());
                s
            },
            ConvertError::InvalidNumber { line, value } => {
                let mut s = String::from_str("Invalid numeric value at line ");
                push_u64(&mut s, *line as u64);
                s.append(": ");
                s.append(value.as_str());
                s
            },
        }
    }
}

} // verus!
