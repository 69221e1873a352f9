//! What the web front end receives about a group.
use crate::clock::EpochTime;
use vstd::prelude::*;

verus! {

/// The public summary of a group, sent as JSON to the web front end.
#[derive(Debug)]
pub struct GroupData {
    id: u64,
    creation_time_s_since_epoch: u64,
    user_count: u32,
    invite_code: String,
}

/// The mathematical value of a [`GroupData`].
pub struct GroupDataView {
    pub id: u64,
    pub creation_time_s_since_epoch: u64,
    pub user_count: u32,
    pub invite_code: Seq<char>,
}

impl View for GroupData {
    type V = GroupDataView;

    closed spec fn view(&self) -> GroupDataView {
        GroupDataView {
            id: self.id,
            creation_time_s_since_epoch: self.creation_time_s_since_epoch,
            user_count: self.user_count,
            invite_code: self.invite_code@,
        }
    }
}

impl GroupData {
    /// A summary of a group created at `creation_time`; a time before the
    /// Unix epoch counts as second 0.
    pub fn new(id: u64, creation_time: EpochTime, user_count: u32, invite_code: String) -> (r:
        GroupData)
        ensures
            r@.id == id,
            r@.creation_time_s_since_epoch == creation_time.seconds(),
            r@.user_count == user_count,
            r@.invite_code == invite_code@,
    {
        let creation_time_s_since_epoch = creation_time.secs_or_zero();
        GroupData { id, creation_time_s_since_epoch, user_count, invite_code }
    }

    pub fn id(&self) -> (r: u64)
        ensures
            r == self@.id,
    {
        self.id
    }

    pub fn creation_time_s_since_epoch(&self) -> (r: u64)
        ensures
            r == self@.creation_time_s_since_epoch,
    {
        self.creation_time_s_since_epoch
    }

    pub fn user_count(&self) -> (r: u32)
        ensures
            r == self@.user_count,
    {
        self.user_count
    }

    pub fn invite_code(&self) -> (r: &String)
        ensures
            r@ == self@.invite_code,
    {
        &self.invite_code
    }
}

} // verus!
