//! The home scene: a button that asks the server for a new group.
use crate::text::{decimal, parse_unsigned, parse_unsigned_from, push_decimal};
use vstd::prelude::*;
use vstd::string::*;

verus! {

/// Why a group could not be created.
#[derive(Debug, Clone, Copy, PartialEq, Eq, Structural)]
pub enum GroupCreateError {
    RequestCreation,
    Fetch,
    Parsing,
    Status(u16),
}

/// What the home scene reacts to.
#[derive(Debug, Clone, Copy, PartialEq, Eq, Structural)]
pub enum Message {
    CreateGroup,
    GroupCreated(u64),
    GroupCreateError(GroupCreateError),
}

/// What the home scene does after a message.
#[derive(Debug, PartialEq, Eq, Structural)]
pub enum Effect {
    /// Send the group creation request.
    RequestGroup,
    /// Announce the new group and switch to its scene.
    ShowGroup(u64),
    /// Announce the failure.
    ReportError(GroupCreateError),
}

/// The home scene: whether a group creation is under way.
#[derive(Debug)]
pub struct Home {
    group_creation_requested: bool,
}

impl View for Home {
    type V = bool;

    closed spec fn view(&self) -> bool {
        self.group_creation_requested
    }
}

/// The reason of a failed group creation, as shown to the user.
pub open spec fn create_error_reason(e: GroupCreateError) -> Seq<char> {
    match e {
        GroupCreateError::RequestCreation => "Failed to create request"@,
        GroupCreateError::Fetch => "The server failed to respond"@,
        GroupCreateError::Parsing => "Failed to understand the server's response"@,
        GroupCreateError::Status(code) => "The server failed to handle the group creation request ("@
            + decimal(code as nat) + ")"@,
    }
}

impl GroupCreateError {
    /// The reason of the failure, as shown to the user.
    pub fn reason(&self) -> (r: String)
        ensures
            r@ == create_error_reason(*self),
    {
        match self {
            GroupCreateError::RequestCreation => String::from_str("Failed to create request"),
            GroupCreateError::Fetch => String::from_str("The server failed to respond"),
            GroupCreateError::Parsing => String::from_str("Failed to understand the server's response"),
            GroupCreateError::Status(code) => {
                let mut text = String::from_str("The server failed to handle the group creation request (");
                push_decimal(&mut text, *code as u64);
                text.append(")");
                text
            },
        }
    }
}

impl Home {
    /// The scene before any request.
    pub fn create() -> (r: Home)
        ensures
            !r@,
    {
        Home { group_creation_requested: false }
    }

    /// Whether a group creation is under way: the button is then replaced by
    /// a loading text.
    pub fn group_creation_requested(&self) -> (r: bool)
        ensures
            r == self@,
    {
        self.group_creation_requested
    }

    /// Reacts to `msg`: a request marks the creation as under way, a failure
    /// ends it.
    pub fn update(&mut self, msg: Message) -> (r: Effect)
        ensures
            match msg {
                Message::CreateGroup => r == Effect::RequestGroup && final(self)@,
                Message::GroupCreated(id) => r == Effect::ShowGroup(id) && final(self)@ == old(
                    self,
                )@,
                Message::GroupCreateError(e) => r == Effect::ReportError(e) && !final(self)@,
            },
    {
        match msg {
            Message::CreateGroup => {
                self.group_creation_requested = true;
                Effect::RequestGroup
            },
            Message::GroupCreated(id) => Effect::ShowGroup(id),
            Message::GroupCreateError(e) => {
                self.group_creation_requested = false;
                Effect::ReportError(e)
            },
        }
    }

    /// The lines of the notification of a new group.
    pub fn created_notice(group_id: u64) -> (r: Vec<String>)
        ensures
            r@.len() == 2,
            r@[0]@ == "A new group has been created with id:"@,
            r@[1]@ == decimal(group_id as nat),
    {
        let mut id_text = String::new();
        push_decimal(&mut id_text, group_id);
        vec![String::from_str("A new group has been created with id:"), id_text]
    }

    /// The lines of the notification of a failed creation.
    pub fn error_notice(e: GroupCreateError) -> (r: Vec<String>)
        ensures
            r@.len() == 2,
            r@[0]@ == "An error occured while requesting a new group:"@,
            r@[1]@ == create_error_reason(e),
    {
        vec![String::from_str("An error occured while requesting a new group:"), e.reason()]
    }

    /// The answer to the creation request, given its HTTP status and text:
    /// the new group's id, or why there is none.
    pub fn created_group_id(status: u16, text: &str) -> (r: Result<u64, GroupCreateError>)
        ensures
            status != 200 ==> r == Err::<u64, GroupCreateError>(GroupCreateError::Status(status)),
            status == 200 ==> r == match parse_unsigned(text@, u64::MAX as nat) {
                Some(v) => Ok::<u64, GroupCreateError>(v as u64),
                None => Err(GroupCreateError::Parsing),
            },
    {
        if status != 200 {
            return Err(GroupCreateError::Status(status));
        }
        let parsed = parse_unsigned_from(text, 0, u64::MAX);
        assert(text@.subrange(0, text@.len() as int) =~= text@);
        match parsed {
            Some(v) => Ok(v),
            None => Err(GroupCreateError::Parsing),
        }
    }
}

} // verus!
