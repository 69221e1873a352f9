//! `!purge <count>`: deletes the last messages of a channel.
use crate::text::{decimal, parse_unsigned, parse_unsigned_from, push_decimal};
use vstd::prelude::*;
use vstd::string::*;

verus! {

/// Decides the purge command.
pub struct Purge;

/// Why a purge request is refused.
#[derive(Debug, Clone, Copy, PartialEq, Eq, Structural)]
pub enum PurgeError {
    /// The command did not get exactly one argument.
    ArgumentCount,
    /// The argument is no count from 0 to 255.
    InvalidCount,
}

impl PurgeError {
    /// The reply to a refused request.
    pub fn reply(&self) -> (r: &'static str)
        ensures
            r@ == match self {
                PurgeError::ArgumentCount => "Expected 1 argument, please specify a number of message to purge"@,
                PurgeError::InvalidCount => "Could not parse count argument, make sure it's a positive integer and less than 100"@,
            },
    {
        match self {
            PurgeError::ArgumentCount => "Expected 1 argument, please specify a number of message to purge",
            PurgeError::InvalidCount => "Could not parse count argument, make sure it's a positive integer and less than 100",
        }
    }
}

/// The text confirming that `count` messages were deleted.
pub open spec fn confirmation_text(count: nat) -> Seq<char> {
    "Deleted "@ + decimal(count) + " messages"@
}

impl Purge {
    /// The number of messages to delete, read from the command's arguments as
    /// a `u8`.
    pub fn count_from_args(args: &Vec<String>) -> (r: Result<u8, PurgeError>)
        ensures
            args@.len() != 1 ==> r == Err::<u8, PurgeError>(PurgeError::ArgumentCount),
            args@.len() == 1 ==> r == match parse_unsigned(args@[0]@, 255) {
                Some(v) => Ok::<u8, PurgeError>(v as u8),
                None => Err(PurgeError::InvalidCount),
            },
    {
        if args.len() != 1 {
            return Err(PurgeError::ArgumentCount);
        }
        let arg = args[0].as_str();
        let parsed = parse_unsigned_from(arg, 0, 255);
        assert(arg@.subrange(0, arg@.len() as int) =~= arg@);
        match parsed {
            Some(v) => Ok(v as u8),
            None => Err(PurgeError::InvalidCount),
        }
    }

    /// The confirmation sent once the messages are deleted.
    pub fn confirmation(count: u8) -> (r: String)
        ensures
            r@ == confirmation_text(count as nat),
    {
        let mut text = String::new();
        proof {
            reveal_strlit("Deleted ");
            reveal_strlit(" messages");
        }
        text.append("Deleted ");
        push_decimal(&mut text, count as u64);
        text.append(" messages");
        text
    }
}

} // verus!
