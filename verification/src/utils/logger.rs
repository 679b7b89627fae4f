use vstd::prelude::*;

verus! {

/// The kind of an error, which gives the tag its line starts with.
#[derive(PartialEq, Eq, Structural, Clone, Copy, Debug)]
pub enum ErrorType {
    Serialization,
    Deserialization,
    Network,
    Unknown,
}

/// The tag of an error kind.
pub open spec fn error_prefix(error_type: ErrorType) -> Seq<char> {
    match error_type {
        ErrorType::Serialization => "[Serialization Error]"@,
        ErrorType::Deserialization => "[Deserialization Error]"@,
        ErrorType::Network => "[Network Error]"@,
        ErrorType::Unknown => "[Unknown Error]"@,
    }
}

/// The error line shown for `message`: the tag of its kind, a space, then the message.
pub fn display_error_with_type(error_type: ErrorType, message: &str) -> (line: String)
    ensures
        line@ == error_prefix(error_type) + " "@ + message@,
{
    let prefix = match error_type {
        ErrorType::Serialization => "[Serialization Error]",
        ErrorType::Deserialization => "[Deserialization Error]",
        ErrorType::Network => "[Network Error]",
        ErrorType::Unknown => "[Unknown Error]",
    };
    let mut line = String::from_str(prefix);
    line.append(" ");
    line.append(message);
    line
}

} // verus!
