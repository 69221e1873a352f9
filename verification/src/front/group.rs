//! The scene of one group: its age, member count and invite link, fetched
//! from the server.
use crate::shared::GroupData;
use crate::text::{decimal, push_decimal};
use vstd::prelude::*;
use vstd::string::*;

verus! {

/// Why the group's data could not be fetched.
#[derive(Debug, Clone, Copy, PartialEq, Eq, Structural)]
pub enum DataFetchError {
    RequestCreation,
    Fetch,
    Parsing,
    Status(u16),
}

/// Where the fetch of the group's data stands.
#[derive(Debug)]
pub enum DataFetchState {
    Pending,
    Received(GroupData),
    Failed(DataFetchError),
}

/// What the group scene reacts to.
#[derive(Debug)]
pub enum Message {
    Redraw,
    DataReceived(GroupData),
    DataFetchError(DataFetchError),
}

/// The group scene.
#[derive(Debug)]
pub struct Group {
    data_fetch_state: DataFetchState,
}

/// The description of a fetch failure, as shown to the user.
pub open spec fn fetch_error_text(e: DataFetchError) -> Seq<char> {
    match e {
        DataFetchError::RequestCreation => "Failed to create the request"@,
        DataFetchError::Fetch => "The server failed to respond"@,
        DataFetchError::Parsing => "Failed to understand the server's response"@,
        DataFetchError::Status(code) => "The server failed to handle the group data fetch request ("@
            + decimal(code as nat) + ")"@,
    }
}

impl DataFetchError {
    /// The description of the failure, as shown to the user.
    pub fn message(&self) -> (r: String)
        ensures
            r@ == fetch_error_text(*self),
    {
        match self {
            DataFetchError::RequestCreation => String::from_str("Failed to create the request"),
            DataFetchError::Fetch => String::from_str("The server failed to respond"),
            DataFetchError::Parsing => String::from_str("Failed to understand the server's response"),
            DataFetchError::Status(code) => {
                let mut text = String::from_str("The server failed to handle the group data fetch request (");
                push_decimal(&mut text, *code as u64);
                text.append(")");
                text
            },
        }
    }

    /// The failure that an HTTP status other than 200 stands for.
    pub fn from_status(status: u16) -> (r: Option<DataFetchError>)
        ensures
            r == if status == 200 {
                None::<DataFetchError>
            } else {
                Some(DataFetchError::Status(status))
            },
    {
        if status == 200 {
            None
        } else {
            Some(DataFetchError::Status(status))
        }
    }
}

impl Group {
    /// The scene while the data is being fetched.
    pub fn create() -> (r: Group)
        ensures
            r.state() is Pending,
    {
        Group { data_fetch_state: DataFetchState::Pending }
    }

    /// Where the fetch stands.
    pub closed spec fn state(&self) -> DataFetchState {
        self.data_fetch_state
    }

    /// Where the fetch stands.
    pub fn data_fetch_state(&self) -> (r: &DataFetchState)
        ensures
            *r == self.state(),
    {
        &self.data_fetch_state
    }

    /// Reacts to `msg`; the scene is drawn again.
    pub fn update(&mut self, msg: Message) -> (r: bool)
        ensures
            r,
            match msg {
                Message::Redraw => final(self).state() == old(self).state(),
                Message::DataReceived(data) => final(self).state() == DataFetchState::Received(data),
                Message::DataFetchError(e) => final(self).state() == DataFetchState::Failed(e),
            },
    {
        match msg {
            Message::Redraw => true,
            Message::DataReceived(data) => {
                self.data_fetch_state = DataFetchState::Received(data);
                true
            },
            Message::DataFetchError(e) => {
                self.data_fetch_state = DataFetchState::Failed(e);
                true
            },
        }
    }

    /// The lines of the notification of a failed fetch of group `group_id`.
    pub fn fetch_error_notice(group_id: u64, e: DataFetchError) -> (r: Vec<String>)
        ensures
            r@.len() == 2,
            r@[0]@ == "An error occured while requesting data about group "@ + decimal(
                group_id as nat,
            ),
            r@[1]@ == fetch_error_text(e),
    {
        let mut first = String::from_str("An error occured while requesting data about group ");
        push_decimal(&mut first, group_id);
        vec![first, e.message()]
    }

    /// The title of the scene: `Group <id>`.
    pub fn title(group_id: u64) -> (r: String)
        ensures
            r@ == "Group "@ + decimal(group_id as nat),
    {
        let mut text = String::from_str("Group ");
        push_decimal(&mut text, group_id);
        text
    }

    /// `Member count: <n>`.
    pub fn member_count_text(user_count: u32) -> (r: String)
        ensures
            r@ == "Member count: "@ + decimal(user_count as nat),
    {
        let mut text = String::from_str("Member count: ");
        push_decimal(&mut text, user_count as u64);
        text
    }

    /// The link that joins the group's invite.
    pub fn join_link(invite_code: &str) -> (r: String)
        ensures
            r@ == "https://discord.gg/"@ + invite_code@,
    {
        let mut text = String::from_str("https://discord.gg/");
        text.append(invite_code);
        text
    }
}

} // verus!
