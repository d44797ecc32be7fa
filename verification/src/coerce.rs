//! The value coercion layer: turning one raw token into a typed value, or a
//! human-readable error naming the reason.

use vstd::prelude::*;
use vstd::string::StringExecFns;
use crate::numbers::{parse_i64, parse_u64, spec_parse_i64, spec_parse_u64};
use crate::schema::ValueParser;

verus! {

/// Whether `tok` passes coercion under `p`.
pub open spec fn spec_coerce_ok(p: ValueParser, tok: Seq<char>) -> bool {
    match p {
        ValueParser::Text => true,
        ValueParser::UInt => spec_parse_u64(tok) is Ok,
        ValueParser::Int => spec_parse_i64(tok) is Ok,
    }
}

/// The coercion failure message for `tok` under `p`; meaningful only when
/// coercion fails.
pub open spec fn spec_coerce_err(p: ValueParser, tok: Seq<char>) -> Seq<char> {
    match p {
        ValueParser::Text => Seq::empty(),
        ValueParser::UInt => if spec_parse_u64(tok) is Err {
            spec_parse_u64(tok)->Err_0
        } else {
            Seq::empty()
        },
        ValueParser::Int => if spec_parse_i64(tok) is Err {
            spec_parse_i64(tok)->Err_0
        } else {
            Seq::empty()
        },
    }
}

/// Check one token against a coercion rule, reporting why it is rejected.
pub fn check_value(p: ValueParser, tok: &str) -> (r: Result<(), String>)
    ensures
        r is Ok <==> spec_coerce_ok(p, tok@),
        r is Err ==> r->Err_0@ == spec_coerce_err(p, tok@),
{
    match p {
        ValueParser::Text => Ok(()),
        ValueParser::UInt => match parse_u64(tok) {
            Ok(_) => Ok(()),
            Err(e) => Err(e),
        },
        ValueParser::Int => match parse_i64(tok) {
            Ok(_) => Ok(()),
            Err(e) => Err(e),
        },
    }
}

/// Types which can be constructed from a single command-line value.
///
/// `from_arg_value_spec` says, per type, which strings are accepted and what
/// value or error message each one yields; `from_arg_value` is held to it.
pub trait FromArgValue: Sized + View {
    /// The value or error message that `value` yields for this type.
    spec fn from_arg_value_spec(value: Seq<char>) -> Result<Self::V, Seq<char>>;

    /// Construct the value from a command-line token.
    fn from_arg_value(value: &str) -> (r: Result<Self, String>)
        ensures
            ({
                match (r, Self::from_arg_value_spec(value@)) {
                    (Ok(a), Ok(b)) => a@ == b,
                    (Err(a), Err(b)) => a@ == b,
                    _ => false,
                }
            }),
    ;
}

impl FromArgValue for String {
    open spec fn from_arg_value_spec(value: Seq<char>) -> Result<Seq<char>, Seq<char>> {
        Ok(value)
    }

    fn from_arg_value(value: &str) -> (r: Result<String, String>) {
        Ok(String::from_str(value))
    }
}

impl FromArgValue for u64 {
    open spec fn from_arg_value_spec(value: Seq<char>) -> Result<u64, Seq<char>> {
        spec_parse_u64(value)
    }

    fn from_arg_value(value: &str) -> (r: Result<u64, String>) {
        parse_u64(value)
    }
}

impl FromArgValue for i64 {
    open spec fn from_arg_value_spec(value: Seq<char>) -> Result<i64, Seq<char>> {
        spec_parse_i64(value)
    }

    fn from_arg_value(value: &str) -> (r: Result<i64, String>) {
        parse_i64(value)
    }
}

impl FromArgValue for usize {
    open spec fn from_arg_value_spec(value: Seq<char>) -> Result<usize, Seq<char>> {
        match spec_parse_u64(value) {
            Ok(v) => if v <= usize::MAX {
                Ok(v as usize)
            } else {
                Err("number too large to fit in target type"@)
            },
            Err(m) => Err(m),
        }
    }

    fn from_arg_value(value: &str) -> (r: Result<usize, String>) {
        match parse_u64(value) {
            Ok(v) => if v <= usize::MAX as u64 {
                Ok(v as usize)
            } else {
                Err("number too large to fit in target type".to_owned())
            },
            Err(e) => Err(e),
        }
    }
}

impl FromArgValue for u8 {
    open spec fn from_arg_value_spec(value: Seq<char>) -> Result<u8, Seq<char>> {
        match spec_parse_u64(value) {
            Ok(v) => if v <= u8::MAX {
                Ok(v as u8)
            } else {
                Err("number too large to fit in target type"@)
            },
            Err(m) => Err(m),
        }
    }

    fn from_arg_value(value: &str) -> (r: Result<u8, String>) {
        match parse_u64(value) {
            Ok(v) => if v <= u8::MAX as u64 {
                Ok(v as u8)
            } else {
                Err("number too large to fit in target type".to_owned())
            },
            Err(e) => Err(e),
        }
    }
}

impl FromArgValue for u32 {
    open spec fn from_arg_value_spec(value: Seq<char>) -> Result<u32, Seq<char>> {
        match spec_parse_u64(value) {
            Ok(v) => if v <= u32::MAX {
                Ok(v as u32)
            } else {
                Err("number too large to fit in target type"@)
            },
            Err(m) => Err(m),
        }
    }

    fn from_arg_value(value: &str) -> (r: Result<u32, String>) {
        match parse_u64(value) {
            Ok(v) => if v <= u32::MAX as u64 {
                Ok(v as u32)
            } else {
                Err("number too large to fit in target type".to_owned())
            },
            Err(e) => Err(e),
        }
    }
}

/// A type which can receive a switch: it starts at a default and records
/// each occurrence of the switch.
pub trait Flag: Sized {
    /// The value before any occurrence of the switch.
    spec fn default_spec() -> Self;

    /// The value after one more occurrence of the switch.
    spec fn set_flag_spec(&self) -> Self;

    /// Creates the default instance of the flag value.
    fn default() -> (r: Self)
        ensures
            r == Self::default_spec(),
    ;

    /// Records one occurrence of the switch.
    fn set_flag(&mut self)
        ensures
            *final(self) == old(self).set_flag_spec(),
    ;
}

impl Flag for bool {
    open spec fn default_spec() -> bool {
        false
    }

    open spec fn set_flag_spec(&self) -> bool {
        true
    }

    fn default() -> bool {
        false
    }

    fn set_flag(&mut self) {
        *self = true;
    }
}

impl Flag for u64 {
    open spec fn default_spec() -> u64 {
        0
    }

    open spec fn set_flag_spec(&self) -> u64 {
        if *self < u64::MAX {
            (*self + 1) as u64
        } else {
            u64::MAX
        }
    }

    fn default() -> u64 {
        0
    }

    fn set_flag(&mut self) {
        if *self < u64::MAX {
            *self = *self + 1;
        }
    }
}

impl Flag for i64 {
    open spec fn default_spec() -> i64 {
        0
    }

    open spec fn set_flag_spec(&self) -> i64 {
        if *self < i64::MAX {
            (*self + 1) as i64
        } else {
            i64::MAX
        }
    }

    fn default() -> i64 {
        0
    }

    fn set_flag(&mut self) {
        if *self < i64::MAX {
            *self = *self + 1;
        }
    }
}

} // verus!
