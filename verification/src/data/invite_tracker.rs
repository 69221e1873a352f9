//! The use counts of the server's invites, as last seen. A member who joins
//! is matched to the invite whose use count moved.
use crate::data::table::{Table, TableKey};
use vstd::prelude::*;

verus! {

pub type InviteCode = String;

pub type InviteUseCount = u64;

/// An invite of the server as Discord lists it: its code and how often it
/// was used.
#[derive(Debug)]
pub struct ServerInvite {
    pub code: InviteCode,
    pub uses: InviteUseCount,
}

/// The map that collecting `invites` into a map gives: a code listed twice
/// keeps its last use count.
pub open spec fn invites_map(invites: Seq<ServerInvite>) -> Map<Seq<char>, u64>
    decreases invites.len(),
{
    if invites.len() == 0 {
        Map::empty()
    } else {
        invites_map(invites.drop_last()).insert(invites.last().code@, invites.last().uses)
    }
}

/// The table of the invites that the server lists; a code listed twice keeps
/// its last use count.
fn table_of(invite_list: Vec<ServerInvite>) -> (r: Table<InviteCode, InviteUseCount>)
    ensures
        r.wf(),
        r@ == invites_map(invite_list@),
{
    let mut fresh: Table<InviteCode, InviteUseCount> = Table::empty();
    let mut i: usize = 0;
    while i < invite_list.len()
        invariant
            i <= invite_list@.len(),
            fresh.wf(),
            fresh@ == invites_map(invite_list@.take(i as int)),
        decreases invite_list@.len() - i,
    {
        proof {
            assert(invite_list@.take(i + 1).drop_last() =~= invite_list@.take(i as int));
        }
        let invite = &invite_list[i];
        fresh.set(invite.code.clone(), invite.uses);
        i = i + 1;
    }
    assert(invite_list@.take(invite_list@.len() as int) =~= invite_list@);
    fresh
}

/// The use count of each invite code, as last seen.
pub struct InviteTracker {
    table: Table<InviteCode, InviteUseCount>,
    last_update: std::time::Instant,
}

impl View for InviteTracker {
    type V = Map<Seq<char>, u64>;

    closed spec fn view(&self) -> Map<Seq<char>, u64> {
        self.table@
    }
}

impl InviteTracker {
    /// The stored pairs hold exactly the map, each code once.
    #[verifier::type_invariant]
    spec fn table_holds_the_map(&self) -> bool {
        self.table.wf()
    }

    /// A tracker of the invites that the server lists; a code listed twice
    /// keeps its last use count.
    pub fn new(invite_list: Vec<ServerInvite>) -> (r: InviteTracker)
        ensures
            r@ == invites_map(invite_list@),
    {
        InviteTracker { table: table_of(invite_list), last_update: crate::clock::instant_now() }
    }

    /// Forgets what was tracked and tracks the invites that the server lists.
    pub fn update(&mut self, invite_list: Vec<ServerInvite>)
        ensures
            final(self)@ == invites_map(invite_list@),
    {
        *self = InviteTracker::new(invite_list);
    }

    /// The use count last seen for `code`.
    pub fn get(&self, code: &InviteCode) -> (r: Option<&InviteUseCount>)
        ensures
            match r {
                Some(uc) => self@.contains_key(code@) && *uc == self@[code@],
                None => !self@.contains_key(code@),
            },
    {
        proof {
            use_type_invariant(self);
        }
        self.table.get(code)
    }

    /// Records `uc` as the use count of `code`.
    pub fn set(&mut self, code: InviteCode, uc: InviteUseCount)
        ensures
            final(self)@ == old(self)@.insert(code@, uc),
    {
        proof {
            use_type_invariant(&*self);
        }
        self.last_update = crate::clock::instant_now();
        let mut table: Table<InviteCode, InviteUseCount> = Table::empty();
        std::mem::swap(&mut table, &mut self.table);
        table.set(code, uc);
        self.table = table;
    }

    /// Forgets `code`.
    pub fn rm(&mut self, code: &InviteCode)
        ensures
            final(self)@ == old(self)@.remove(code@),
    {
        proof {
            use_type_invariant(&*self);
        }
        self.last_update = crate::clock::instant_now();
        let mut table: Table<InviteCode, InviteUseCount> = Table::empty();
        std::mem::swap(&mut table, &mut self.table);
        table.remove(code);
        self.table = table;
    }
}

} // verus!
