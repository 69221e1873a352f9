//! Which address created which group lately: an address gets at most one new
//! group every five minutes from the creation page.
use crate::data::group::GroupId;
use crate::data::table::{Table, TableKey};
use vstd::prelude::*;

verus! {

/// How long a group creation is remembered, in nanoseconds: five minutes.
pub const TRACKER_DURATION_NANOS: u64 = 300_000_000_000u64;

/// The address of a client, as its IPv4 or IPv6 number.
#[derive(Debug, Clone, Copy, PartialEq, Eq, Structural)]
pub enum IpKey {
    V4(u32),
    V6(u128),
}

/// A creation made at `registered_at` (nanoseconds on the tracker's clock) is
/// still recent at `now`. A `now` before it counts as no time elapsed.
pub open spec fn is_recent(registered_at: u64, now: u64) -> bool {
    (if now >= registered_at {
        now - registered_at
    } else {
        0
    }) < TRACKER_DURATION_NANOS
}

/// The creations of `m` that are still recent at `now`.
pub open spec fn retain_recent(m: Map<IpKey, (u64, GroupId)>, now: u64) -> Map<
    IpKey,
    (u64, GroupId),
> {
    Map::new(|k: IpKey| m.contains_key(k) && is_recent(m[k].0, now), |k: IpKey| m[k])
}

/// An address is a key of a table by itself.
impl TableKey for IpKey {
    type Denoted = IpKey;

    open spec fn denoted(&self) -> IpKey {
        *self
    }

    fn same_key(&self, other: &Self) -> (r: bool) {
        *self == *other
    }
}

/// Some entry before position `i` of `s` is about `k`.
pub open spec fn seen_before(s: Seq<(IpKey, (u64, GroupId))>, i: int, k: IpKey) -> bool {
    exists|b: int| 0 <= b < i && #[trigger] s[b].0 == k
}

/// A copy of `entries`.
fn copy_entries(entries: &Vec<(IpKey, (u64, GroupId))>) -> (r: Vec<(IpKey, (u64, GroupId))>)
    ensures
        r@ == entries@,
{
    let mut r: Vec<(IpKey, (u64, GroupId))> = Vec::new();
    let mut i: usize = 0;
    while i < entries.len()
        invariant
            i <= entries@.len(),
            r@ == entries@.take(i as int),
        decreases entries@.len() - i,
    {
        r.push(entries[i]);
        i = i + 1;
        assert(r@ =~= entries@.take(i as int));
    }
    assert(entries@.take(i as int) =~= entries@);
    r
}

/// Forgets every creation of `table` made five minutes or more before `now`.
fn prune(table: &mut Table<IpKey, (u64, GroupId)>, now: u64)
    requires
        old(table).wf(),
    ensures
        final(table).wf(),
        final(table)@ == retain_recent(old(table)@, now),
{
    let ghost old_model = table@;
    proof {
        table.lemma_pairs();
    }
    let snapshot = copy_entries(table.pairs_ref());
    let mut i: usize = 0;
    assert forall|b: int| 0 <= b < snapshot@.len() implies #[trigger] old_model.contains_key(
        snapshot@[b].0,
    ) && old_model[snapshot@[b].0] == snapshot@[b].1 by {
        assert(snapshot@[b] == table.pairs()[b]);
        assert(table@.contains_key(table.pairs()[b].0.denoted()));
    }
    assert forall|k: IpKey| #[trigger] old_model.contains_key(k) implies exists|b: int|
        0 <= b < snapshot@.len() && #[trigger] snapshot@[b].0 == k by {
        assert(table@.contains_key(k));
        let b = choose|b: int| 0 <= b < table.pairs().len() && #[trigger] table.pairs()[b].0.denoted() == k;
        assert(snapshot@[b] == table.pairs()[b]);
    }
    assert(table@ =~= Map::new(
        |k: IpKey|
            old_model.contains_key(k) && (is_recent(old_model[k].0, now) || !seen_before(
                snapshot@,
                0,
                k,
            )),
        |k: IpKey| old_model[k],
    ));
    while i < snapshot.len()
        invariant
            table.wf(),
            i <= snapshot@.len(),
            forall|b: int|
                0 <= b < snapshot@.len() ==> #[trigger] old_model.contains_key(snapshot@[b].0)
                    && old_model[snapshot@[b].0] == snapshot@[b].1,
            forall|k: IpKey|
                #[trigger] old_model.contains_key(k) ==> exists|b: int|
                    0 <= b < snapshot@.len() && #[trigger] snapshot@[b].0 == k,
            table@ == Map::new(
                |k: IpKey|
                    old_model.contains_key(k) && (is_recent(old_model[k].0, now) || !seen_before(
                        snapshot@,
                        i as int,
                        k,
                    )),
                |k: IpKey| old_model[k],
            ),
        decreases snapshot@.len() - i,
    {
        let entry = snapshot[i];
        let elapsed = if now >= entry.1.0 {
            now - entry.1.0
        } else {
            0
        };
        assert(old_model.contains_key(snapshot@[i as int].0));
        if elapsed >= TRACKER_DURATION_NANOS {
            table.remove(&entry.0);
        }
        proof {
            let next = Map::new(
                |k: IpKey|
                    old_model.contains_key(k) && (is_recent(old_model[k].0, now) || !seen_before(
                        snapshot@,
                        i + 1,
                        k,
                    )),
                |k: IpKey| old_model[k],
            );
            assert forall|k: IpKey| k != entry.0 implies seen_before(snapshot@, i + 1, k)
                == seen_before(snapshot@, i as int, k) by {
                if seen_before(snapshot@, i + 1, k) {
                    let b = choose|b: int| 0 <= b < i + 1 && #[trigger] snapshot@[b].0 == k;
                    assert(b < i);
                }
            }
            assert(snapshot@[i as int].0 == entry.0);
            assert(seen_before(snapshot@, i + 1, entry.0));
            assert(table@ =~= next);
        }
        i = i + 1;
    }
    proof {
        assert forall|k: IpKey| #[trigger] old_model.contains_key(k) implies seen_before(
            snapshot@,
            i as int,
            k,
        ) by {
            let b = choose|b: int| 0 <= b < snapshot@.len() && #[trigger] snapshot@[b].0 == k;
            assert(snapshot@[b].0 == k);
        }
        assert(table@ =~= retain_recent(old_model, now));
    }
}

/// For each address, when (nanoseconds on the tracker's own clock) and which
/// group it last created.
pub struct GroupCreationSpamTracker {
    origin: std::time::Instant,
    table: Table<IpKey, (u64, GroupId)>,
    /// The latest time on the tracker's clock that it has used: no
    /// creation is remembered as made after it.
    latest: u64,
}

impl View for GroupCreationSpamTracker {
    type V = Map<IpKey, (u64, GroupId)>;

    closed spec fn view(&self) -> Map<IpKey, (u64, GroupId)> {
        self.table@
    }
}

impl GroupCreationSpamTracker {
    /// The stored entries hold exactly the map, each address once, and no
    /// creation is remembered as made after the latest time used.
    #[verifier::type_invariant]
    spec fn table_holds_the_map(&self) -> bool {
        &&& self.table.wf()
        &&& forall|k: IpKey| #[trigger] self.table@.contains_key(k) ==> self.table@[k].0 <= self.latest
    }

    /// A tracker that remembers nothing, its clock starting now.
    pub fn new() -> (r: GroupCreationSpamTracker)
        ensures
            r@ == Map::<IpKey, (u64, GroupId)>::empty(),
    {
        GroupCreationSpamTracker {
            origin: crate::clock::instant_now(),
            table: Table::empty(),
            latest: 0,
        }
    }

    /// The tracker's clock: nanoseconds since it was made.
    pub fn now(&self) -> u64 {
        crate::clock::nanos_since(&self.origin)
    }

    /// The present time on the tracker's clock, never before a time it
    /// used already: no remembered creation was made after it.
    pub fn present(&mut self) -> (r: u64)
        ensures
            final(self)@ == old(self)@,
            forall|k: IpKey| #[trigger] old(self)@.contains_key(k) ==> old(self)@[k].0 <= r,
    {
        proof {
            use_type_invariant(&*self);
        }
        let read = self.now();
        let r = if read < self.latest {
            self.latest
        } else {
            read
        };
        self.latest = r;
        r
    }

    /// Forgets every creation made five minutes or more before now, the
    /// present on the tracker's clock.
    pub fn update(&mut self)
        ensures
            exists|now: u64|
                (forall|k: IpKey| #[trigger] old(self)@.contains_key(k) ==> old(self)@[k].0 <= now)
                    && final(self)@ == retain_recent(old(self)@, now),
    {
        let now = self.present();
        self.update_at(now);
    }

    /// Forgets every creation made five minutes or more before `now`.
    pub fn update_at(&mut self, now: u64)
        ensures
            final(self)@ == retain_recent(old(self)@, now),
    {
        proof {
            use_type_invariant(&*self);
        }
        let ghost before = self.table@;
        let mut table: Table<IpKey, (u64, GroupId)> = Table::empty();
        std::mem::swap(&mut table, &mut self.table);
        prune(&mut table, now);
        assert forall|k: IpKey| #[trigger] table@.contains_key(k) implies table@[k].0 <= self.latest by {
            assert(before.contains_key(k));
        }
        self.table = table;
    }

    /// The group that `ip` created lately, if any.
    pub fn has(&self, ip: IpKey) -> (r: Option<GroupId>)
        ensures
            r == if self@.contains_key(ip) {
                Some(self@[ip].1)
            } else {
                None::<GroupId>
            },
    {
        proof {
            use_type_invariant(self);
        }
        match self.table.get(&ip) {
            Some(entry) => Some(entry.1),
            None => None,
        }
    }

    /// Remembers that `ip` created `group_id` just now, the present on the
    /// tracker's clock, and gives what was remembered of `ip` before.
    pub fn register(&mut self, ip: IpKey, group_id: GroupId) -> (r: Option<(u64, GroupId)>)
        ensures
            exists|now: u64|
                (forall|k: IpKey| #[trigger] old(self)@.contains_key(k) ==> old(self)@[k].0 <= now)
                    && final(self)@ == old(self)@.insert(ip, (now, group_id)),
            r == if old(self)@.contains_key(ip) {
                Some(old(self)@[ip])
            } else {
                None::<(u64, GroupId)>
            },
    {
        let now = self.present();
        self.register_at(ip, group_id, now)
    }

    /// Remembers that `ip` created `group_id` at `now`, and gives what was
    /// remembered of `ip` before.
    pub fn register_at(&mut self, ip: IpKey, group_id: GroupId, now: u64) -> (r: Option<
        (u64, GroupId),
    >)
        ensures
            final(self)@ == old(self)@.insert(ip, (now, group_id)),
            r == if old(self)@.contains_key(ip) {
                Some(old(self)@[ip])
            } else {
                None::<(u64, GroupId)>
            },
    {
        proof {
            use_type_invariant(&*self);
        }
        if self.latest < now {
            self.latest = now;
        }
        let ghost before = self.table@;
        let mut table: Table<IpKey, (u64, GroupId)> = Table::empty();
        std::mem::swap(&mut table, &mut self.table);
        let r = table.set(ip, (now, group_id));
        assert forall|k: IpKey| #[trigger] table@.contains_key(k) implies table@[k].0 <= self.latest by {
            if k != ip {
                assert(before.contains_key(k));
            }
        }
        self.table = table;
        r
    }

    /// Forgets `ip`.
    pub fn remove(&mut self, ip: IpKey)
        ensures
            final(self)@ == old(self)@.remove(ip),
    {
        proof {
            use_type_invariant(&*self);
        }
        let ghost before = self.table@;
        let mut table: Table<IpKey, (u64, GroupId)> = Table::empty();
        std::mem::swap(&mut table, &mut self.table);
        table.remove(&ip);
        assert forall|k: IpKey| #[trigger] table@.contains_key(k) implies table@[k].0 <= self.latest by {
            assert(before.contains_key(k));
        }
        self.table = table;
    }
}

} // verus!
