//! Protection of the login endpoint against repeated failures.
//!
//! Failed attempts are counted per client identifier in a rolling window: each
//! of them counts on from the one before, unless the window has passed since.
//! Once a threshold is reached the client is blocked for a cooldown. A successful
//! login clears the count. The counts belong to the login endpoint as a whole,
//! not to any one server.

use vstd::prelude::*;

use crate::moment::{self, Moment, FIRST_SECOND, LAST_SECOND};
use crate::table;
use crate::text;

verus! {

/// What is remembered of one client's failures.
#[derive(Clone, Copy, Debug)]
pub struct Tally {
    pub failure_count: i64,
    pub window_started_at: Moment,
    pub last_failure_at: Moment,
    pub blocked_until: Option<Moment>,
    pub created_at: Moment,
    pub updated_at: Moment,
}

/// One client's failures as they are stored.
#[derive(Debug)]
pub struct LoginRateLimitRow {
    pub identifier: String,
    pub tally: Tally,
}

/// A client under an active cooldown.
#[derive(Debug)]
pub struct LoginRateLimitEntry {
    pub identifier: String,
    pub failure_count: i64,
    pub blocked_until: Option<Moment>,
    pub last_failure_at: Moment,
}

/// When a client counts as failing too often, and for how long it is then blocked.
#[derive(Clone, Copy, Debug, PartialEq, Eq, Structural)]
pub struct RateLimit {
    pub max_attempts: i64,
    pub window_secs: i64,
    pub cooldown_secs: i64,
}

/// The failures of all clients.
pub struct LoginRateLimitService {
    rows: Vec<LoginRateLimitRow>,
}

/// Rows as pairs of identifier and tally.
pub open spec fn pairs(rows: Seq<LoginRateLimitRow>) -> Seq<(Seq<char>, Tally)> {
    rows.map_values(|row: LoginRateLimitRow| (row.identifier@, row.tally))
}

/// Fewer than `window_secs` whole seconds lie between the two moments.
pub open spec fn close_in_time(earlier: Moment, later: Moment, window_secs: int) -> bool {
    moment::whole_seconds(later.nanos_since_epoch() - earlier.nanos_since_epoch()) < window_secs
}

/// The tally's window is still open: fewer than `window_secs` whole seconds
/// have passed since the last failure.
pub open spec fn in_window(tally: Tally, now: Moment, window_secs: int) -> bool {
    close_in_time(tally.last_failure_at, now, window_secs)
}

/// A failure at `now` counts on from those before it: less than `window_secs` seconds
/// have passed since the last of them. Where the clock has gone back, whole seconds
/// back are what counts.
pub open spec fn counts_on(before: Tally, now: Moment, window_secs: int) -> bool {
    let elapsed = now.nanos_since_epoch() - before.last_failure_at.nanos_since_epoch();
    if elapsed >= 0 {
        elapsed < window_secs * 1_000_000_000
    } else {
        elapsed <= (window_secs - 1) * 1_000_000_000
    }
}

/// The failures counted once one more has happened: one more than before while
/// the window is open, otherwise one.
pub open spec fn counted(before: Option<Tally>, limit: RateLimit, now: Moment) -> int {
    match before {
        Some(tally) => if in_window(tally, now, limit.window_secs as int) {
            tally.failure_count + 1
        } else {
            1
        },
        None => 1,
    }
}

/// A client's tally after a failure at `now`.
pub open spec fn after_failure(before: Option<Tally>, limit: RateLimit, now: Moment) -> Tally {
    let count = counted(before, limit, now);
    Tally {
        failure_count: count as i64,
        window_started_at: match before {
            Some(tally) => if in_window(tally, now, limit.window_secs as int) {
                tally.window_started_at
            } else {
                now
            },
            None => now,
        },
        last_failure_at: now,
        blocked_until: if count >= limit.max_attempts {
            Some(now.later_by(limit.cooldown_secs as int))
        } else {
            None
        },
        created_at: match before {
            Some(tally) => tally.created_at,
            None => now,
        },
        updated_at: now,
    }
}

/// The numbers of a failure stay within range: the count fits, and the end of
/// the cooldown, when there is one, is in the calendar.
pub open spec fn failure_fits(before: Option<Tally>, limit: RateLimit, now: Moment) -> bool {
    &&& counted(before, limit, now) <= i64::MAX
    &&& counted(before, limit, now) >= limit.max_attempts ==> moment::in_calendar(
        now.spec_secs() + limit.cooldown_secs,
    )
}

/// The tally's cooldown is still running.
pub open spec fn is_blocked(tally: Tally, now: Moment) -> bool {
    tally.blocked_until matches Some(until) && until.nanos_since_epoch() > now.nanos_since_epoch()
}

/// Seconds until the tally's client may try again: whole seconds, but at least
/// one, while the cooldown runs, and `None` when it does not.
pub open spec fn seconds_left(tally: Option<Tally>, now: Moment) -> Option<int> {
    match tally {
        Some(t) => if is_blocked(t, now) {
            let left = moment::whole_seconds(
                t.blocked_until->0.nanos_since_epoch() - now.nanos_since_epoch(),
            );
            Some(
                if left < 1 {
                    1
                } else {
                    left
                },
            )
        } else {
            None
        },
        None => None,
    }
}

pub open spec fn lookup(table: Map<Seq<char>, Tally>, identifier: Seq<char>) -> Option<Tally> {
    if table.contains_key(identifier) {
        Some(table[identifier])
    } else {
        None
    }
}

/// `entry` shows the row of its identifier.
pub open spec fn shows(table: Map<Seq<char>, Tally>, entry: LoginRateLimitEntry) -> bool {
    let identifier = entry.identifier@;
    &&& table.contains_key(identifier)
    &&& entry.failure_count == table[identifier].failure_count
    &&& entry.blocked_until == table[identifier].blocked_until
    &&& entry.last_failure_at == table[identifier].last_failure_at
}

impl View for LoginRateLimitService {
    type V = Map<Seq<char>, Tally>;

    closed spec fn view(&self) -> Map<Seq<char>, Tally> {
        table::as_map(pairs(self.rows@))
    }
}

impl LoginRateLimitService {
    pub closed spec fn wf(self) -> bool {
        table::unique(pairs(self.rows@))
    }

    /// No failures on record.
    pub fn new() -> (r: LoginRateLimitService)
        ensures
            r.wf(),
            r@ == Map::<Seq<char>, Tally>::empty(),
    {
        let r = LoginRateLimitService { rows: Vec::new() };
        assert(r@ =~= Map::<Seq<char>, Tally>::empty());
        r
    }

    /// Where the row of `identifier` is.
    fn position(&self, identifier: &str) -> (r: Option<usize>)
        requires
            self.wf(),
        ensures
            match r {
                Some(i) => i < self.rows@.len() && self.rows@[i as int].identifier@ == identifier@
                    && self@.contains_key(identifier@) && self@[identifier@]
                    == self.rows@[i as int].tally,
                None => !self@.contains_key(identifier@),
            },
    {
        let mut i: usize = 0;
        while i < self.rows.len()
            invariant
                self.wf(),
                i <= self.rows@.len(),
                forall|j: int| 0 <= j < i ==> (#[trigger] self.rows@[j]).identifier@ != identifier@,
            decreases self.rows@.len() - i,
        {
            if text::same(self.rows[i].identifier.as_str(), identifier) {
                proof {
                    table::map_at(pairs(self.rows@), i as int);
                }
                return Some(i);
            }
            i = i + 1;
        }
        None
    }

    /// The failures on record for `identifier`.
    pub fn get(&self, identifier: &str) -> (r: Option<Tally>)
        requires
            self.wf(),
        ensures
            r == lookup(self@, identifier@),
            r is Some <==> self@.contains_key(identifier@),
            r matches Some(tally) ==> tally == self@[identifier@],
    {
        match self.position(identifier) {
            Some(i) => Some(self.rows[i].tally),
            None => None,
        }
    }

    /// Sets the tally of `identifier`.
    pub fn put(&mut self, identifier: &str, tally: Tally)
        requires
            old(self).wf(),
        ensures
            final(self).wf(),
            final(self)@ == old(self)@.insert(identifier@, tally),
    {
        let ghost before = self.rows@;
        let row = LoginRateLimitRow { identifier: identifier.to_owned(), tally };
        match self.position(identifier) {
            Some(i) => {
                self.rows.set(i, row);
                proof {
                    table::map_update(pairs(before), i as int, tally);
                    assert(pairs(self.rows@) =~= pairs(before).update(
                        i as int,
                        (identifier@, tally),
                    ));
                }
            },
            None => {
                self.rows.push(row);
                proof {
                    table::map_push(pairs(before), identifier@, tally);
                    assert(pairs(self.rows@) =~= pairs(before).push((identifier@, tally)));
                }
            },
        }
    }

    /// Drops the tally of `identifier`. Returns whether there was one.
    fn drop_row(&mut self, identifier: &str) -> (r: bool)
        requires
            old(self).wf(),
        ensures
            final(self).wf(),
            r == old(self)@.contains_key(identifier@),
            final(self)@ == old(self)@.remove(identifier@),
    {
        let ghost before = self.rows@;
        match self.position(identifier) {
            Some(i) => {
                self.rows.remove(i);
                proof {
                    table::map_remove(pairs(before), i as int);
                    assert(pairs(self.rows@) =~= pairs(before).remove(i as int));
                }
                true
            },
            None => {
                assert(self@.remove(identifier@) =~= self@);
                false
            },
        }
    }
}

/// The limit that three settings make.
pub open spec fn rate_limit(max_attempts: i64, window_secs: i64, cooldown_secs: i64) -> RateLimit {
    RateLimit { max_attempts, window_secs, cooldown_secs }
}

/// Stored rows as a map; of two rows for one identifier the later one counts.
pub open spec fn loaded(rows: Seq<LoginRateLimitRow>) -> Map<Seq<char>, Tally>
    decreases rows.len(),
{
    if rows.len() == 0 {
        Map::empty()
    } else {
        loaded(rows.drop_last()).insert(rows.last().identifier@, rows.last().tally)
    }
}

/// Most recent failure first.
pub open spec fn latest_first(entries: Seq<LoginRateLimitEntry>) -> bool {
    forall|i: int, j: int|
        0 <= i < j < entries.len() ==> (
        #[trigger] entries[i]).last_failure_at.nanos_since_epoch() >= (
        #[trigger] entries[j]).last_failure_at.nanos_since_epoch()
}

/// No identifier is listed twice.
pub open spec fn listed_once(entries: Seq<LoginRateLimitEntry>) -> bool {
    forall|i: int, j: int|
        0 <= i < j < entries.len() ==> (#[trigger] entries[i]).identifier@ != (
        #[trigger] entries[j]).identifier@
}

pub open spec fn is_listed(entries: Seq<LoginRateLimitEntry>, identifier: Seq<char>) -> bool {
    exists|i: int| 0 <= i < entries.len() && (#[trigger] entries[i]).identifier@ == identifier
}

impl LoginRateLimitService {
    /// The failures that `rows` record.
    pub fn from_rows(rows: Vec<LoginRateLimitRow>) -> (r: LoginRateLimitService)
        ensures
            r.wf(),
            r@ == loaded(rows@),
            forall|i: int|
                0 <= i < rows@.len() && (forall|j: int|
                    i < j < rows@.len() ==> (#[trigger] rows@[j]).identifier@
                        != rows@[i].identifier@) ==> r@.contains_key(
                    (#[trigger] rows@[i]).identifier@,
                ) && r@[rows@[i].identifier@] == rows@[i].tally,
            forall|identifier: Seq<char>| #[trigger]
                r@.contains_key(identifier) ==> exists|i: int|
                    0 <= i < rows@.len() && (#[trigger] rows@[i]).identifier@ == identifier,
    {
        proof {
            last_rows_count(rows@);
        }
        let mut service = LoginRateLimitService::new();
        let mut i: usize = 0;
        while i < rows.len()
            invariant
                i <= rows@.len(),
                service.wf(),
                service@ == loaded(rows@.take(i as int)),
            decreases rows@.len() - i,
        {
            service.put(rows[i].identifier.as_str(), rows[i].tally);
            assert(rows@.take(i + 1).drop_last() == rows@.take(i as int));
            i = i + 1;
        }
        assert(rows@.take(i as int) == rows@);
        service
    }

    /// Seconds until `identifier` may try to log in again, or `None` if it is
    /// not blocked at `now`.
    pub fn seconds_until_unblocked(&self, identifier: &str, now: Moment) -> (r: Option<i64>)
        requires
            self.wf(),
        ensures
            match r {
                Some(left) => seconds_left(lookup(self@, identifier@), now) == Some(left as int)
                    && left >= 1,
                None => seconds_left(lookup(self@, identifier@), now) is None,
            },
            r is Some <==> self@.contains_key(identifier@) && (
            self@[identifier@].blocked_until matches Some(until) && until.nanos_since_epoch()
                > now.nanos_since_epoch()),
            r matches Some(left) ==> {
                let wait = self@[identifier@].blocked_until->0.nanos_since_epoch()
                    - now.nanos_since_epoch();
                &&& wait < (left + 1) * 1_000_000_000
                &&& left * 1_000_000_000 <= wait || left == 1
            },
    {
        let tally = match self.get(identifier) {
            Some(tally) => tally,
            None => {
                return None;
            },
        };
        match tally.blocked_until {
            Some(until) => {
                if until.is_after(now) {
                    let left: i64 = moment::seconds_between(until, now);
                    if left < 1 {
                        Some(1)
                    } else {
                        Some(left)
                    }
                } else {
                    None
                }
            },
            None => None,
        }
    }

    /// Whether the numbers of a failure of `identifier` at `now` stay within range.
    pub fn can_record_failure(
        &self,
        identifier: &str,
        max_attempts: i64,
        window_secs: i64,
        cooldown_secs: i64,
        now: Moment,
    ) -> (r: bool)
        requires
            self.wf(),
        ensures
            r == failure_fits(
                lookup(self@, identifier@),
                rate_limit(max_attempts, window_secs, cooldown_secs),
                now,
            ),
            ({
                let count: int = if self@.contains_key(identifier@) && counts_on(
                    self@[identifier@],
                    now,
                    window_secs as int,
                ) {
                    self@[identifier@].failure_count + 1
                } else {
                    1
                };
                r <==> count <= i64::MAX && (count < max_attempts || FIRST_SECOND <= now.spec_secs()
                    + cooldown_secs <= LAST_SECOND)
            }),
    {
        let failure_count = match self.get(identifier) {
            Some(tally) => {
                if moment::seconds_between(now, tally.last_failure_at) < window_secs {
                    if tally.failure_count == i64::MAX {
                        return false;
                    }
                    tally.failure_count + 1
                } else {
                    1
                }
            },
            None => 1,
        };
        if failure_count < max_attempts {
            return true;
        }
        match now.secs().checked_add(cooldown_secs) {
            Some(end) => moment::FIRST_SECOND <= end && end <= moment::LAST_SECOND,
            None => false,
        }
    }

    /// Records a failed login of `identifier` at `now`. If the window has passed
    /// since the last failure, the count starts again at one; otherwise it grows
    /// by one. Once it reaches `max_attempts`, the client is blocked for
    /// `cooldown_secs`.
    /// Returns whether this failure caused or extended a block.
    pub fn record_failure(
        &mut self,
        identifier: &str,
        max_attempts: i64,
        window_secs: i64,
        cooldown_secs: i64,
        now: Moment,
    ) -> (r: bool)
        requires
            old(self).wf(),
            failure_fits(
                lookup(old(self)@, identifier@),
                rate_limit(max_attempts, window_secs, cooldown_secs),
                now,
            ),
        ensures
            final(self).wf(),
            ({
                let tally = after_failure(
                    lookup(old(self)@, identifier@),
                    rate_limit(max_attempts, window_secs, cooldown_secs),
                    now,
                );
                &&& final(self)@ == old(self)@.insert(identifier@, tally)
                &&& r == (tally.blocked_until is Some)
            }),
            forall|other: Seq<char>|
                other != identifier@ ==> (final(self)@.contains_key(other)
                    <==> #[trigger] old(self)@.contains_key(other)),
            forall|other: Seq<char>|
                other != identifier@ && #[trigger] old(self)@.contains_key(other)
                    ==> final(self)@[other] == old(self)@[other],
            final(self)@.contains_key(identifier@),
            ({
                let tally = final(self)@[identifier@];
                let known = old(self)@.contains_key(identifier@);
                let before = old(self)@[identifier@];
                let on = known && counts_on(before, now, window_secs as int);
                &&& tally.failure_count == (if on {
                    before.failure_count + 1
                } else {
                    1
                })
                &&& tally.window_started_at == (if on {
                    before.window_started_at
                } else {
                    now
                })
                &&& tally.created_at == (if known {
                    before.created_at
                } else {
                    now
                })
                &&& tally.last_failure_at == now
                &&& tally.updated_at == now
                &&& tally.blocked_until is Some <==> tally.failure_count >= max_attempts
                &&& tally.blocked_until matches Some(until) ==> until.nanos_since_epoch()
                    == now.nanos_since_epoch() + cooldown_secs * 1_000_000_000
                &&& r <==> tally.failure_count >= max_attempts
            }),
    {
        proof {
            failure_blocks_at_the_limit(
                lookup(self@, identifier@),
                rate_limit(max_attempts, window_secs, cooldown_secs),
                now,
            );
        }
        let before = self.get(identifier);
        let (failure_count, window_started_at, created_at) = match before {
            Some(tally) => {
                if moment::seconds_between(now, tally.last_failure_at) < window_secs {
                    (tally.failure_count + 1, tally.window_started_at, tally.created_at)
                } else {
                    (1i64, now, tally.created_at)
                }
            },
            None => (1i64, now, now),
        };
        let blocked_until = if failure_count >= max_attempts {
            Some(moment::plus_seconds(now, cooldown_secs))
        } else {
            None
        };
        let tally = Tally {
            failure_count,
            window_started_at,
            last_failure_at: now,
            blocked_until,
            created_at,
            updated_at: now,
        };
        self.put(identifier, tally);
        blocked_until.is_some()
    }

    /// Forgets the failures of `identifier`, as after a successful login.
    pub fn record_success(&mut self, identifier: &str)
        requires
            old(self).wf(),
        ensures
            final(self).wf(),
            final(self)@ == old(self)@.remove(identifier@),
    {
        self.drop_row(identifier);
    }

    /// Lifts a block by hand. Returns whether anything was on record.
    pub fn unblock(&mut self, identifier: &str) -> (r: bool)
        requires
            old(self).wf(),
        ensures
            final(self).wf(),
            r == old(self)@.contains_key(identifier@),
            final(self)@ == old(self)@.remove(identifier@),
    {
        self.drop_row(identifier)
    }

    /// The clients whose cooldown is running at `now`, most recent failure
    /// first. Clients that failed at the same moment come in any order.
    pub fn list_blocked(&self, now: Moment) -> (r: Vec<LoginRateLimitEntry>)
        requires
            self.wf(),
        ensures
            forall|i: int| 0 <= i < r@.len() ==> shows(self@, #[trigger] r@[i]),
            forall|identifier: Seq<char>| #[trigger]
                is_listed(r@, identifier) <==> self@.contains_key(identifier) && is_blocked(
                    self@[identifier],
                    now,
                ),
            listed_once(r@),
            latest_first(r@),
            forall|i: int|
                0 <= i < r@.len() ==> self@.contains_key((#[trigger] r@[i]).identifier@) && {
                    let tally = self@[r@[i].identifier@];
                    &&& r@[i].failure_count == tally.failure_count
                    &&& r@[i].blocked_until == tally.blocked_until
                    &&& r@[i].last_failure_at == tally.last_failure_at
                    &&& tally.blocked_until is Some
                    &&& tally.blocked_until->0.nanos_since_epoch() > now.nanos_since_epoch()
                },
            forall|identifier: Seq<char>| #[trigger]
                self@.contains_key(identifier) && self@[identifier].blocked_until is Some
                    && self@[identifier].blocked_until->0.nanos_since_epoch()
                    > now.nanos_since_epoch() ==> exists|i: int|
                    0 <= i < r@.len() && (#[trigger] r@[i]).identifier@ == identifier,
            forall|i: int, j: int|
                0 <= i < j < r@.len() ==> (#[trigger] r@[i]).identifier@ != (
                #[trigger] r@[j]).identifier@ && r@[i].last_failure_at.nanos_since_epoch()
                    >= r@[j].last_failure_at.nanos_since_epoch(),
    {
        let mut entries: Vec<LoginRateLimitEntry> = Vec::new();
        let mut i: usize = 0;
        while i < self.rows.len()
            invariant
                self.wf(),
                i <= self.rows@.len(),
                listed_once(entries@),
                latest_first(entries@),
                forall|j: int| 0 <= j < entries@.len() ==> shows(self@, #[trigger] entries@[j]),
                forall|identifier: Seq<char>| #[trigger]
                    is_listed(entries@, identifier) <==> exists|j: int|
                        0 <= j < i && (#[trigger] self.rows@[j]).identifier@ == identifier
                            && is_blocked(self.rows@[j].tally, now),
            decreases self.rows@.len() - i,
        {
            let tally = self.rows[i].tally;
            let active = match tally.blocked_until {
                Some(until) => until.is_after(now),
                None => false,
            };
            if active {
                let entry = LoginRateLimitEntry {
                    identifier: self.rows[i].identifier.clone(),
                    failure_count: tally.failure_count,
                    blocked_until: tally.blocked_until,
                    last_failure_at: tally.last_failure_at,
                };
                proof {
                    table::map_at(pairs(self.rows@), i as int);
                    if is_listed(entries@, entry.identifier@) {
                        let j = choose|j: int|
                            0 <= j < i && (#[trigger] self.rows@[j]).identifier@
                                == entry.identifier@ && is_blocked(self.rows@[j].tally, now);
                        assert(pairs(self.rows@)[j].0 != pairs(self.rows@)[i as int].0);
                    }
                }
                let ghost shown = entries@;
                insert_by_time(&mut entries, entry);
                proof {
                    assert forall|identifier: Seq<char>| #[trigger]
                        is_listed(entries@, identifier) <==> exists|j: int|
                            0 <= j < i + 1 && (#[trigger] self.rows@[j]).identifier@ == identifier
                                && is_blocked(self.rows@[j].tally, now) by {
                        if identifier == entry.identifier@ {
                            assert(self.rows@[i as int].identifier@ == identifier);
                        } else if is_listed(shown, identifier) {
                            let j = choose|j: int|
                                0 <= j < i && (#[trigger] self.rows@[j]).identifier@ == identifier
                                    && is_blocked(self.rows@[j].tally, now);
                            assert(self.rows@[j].identifier@ == identifier);
                        }
                    }
                }
            }
            i = i + 1;
        }
        proof {
            assert forall|identifier: Seq<char>| #[trigger]
                is_listed(entries@, identifier) <==> self@.contains_key(identifier) && is_blocked(
                    self@[identifier],
                    now,
                ) by {
                if is_listed(entries@, identifier) {
                    let j = choose|j: int|
                        0 <= j < i && (#[trigger] self.rows@[j]).identifier@ == identifier
                            && is_blocked(self.rows@[j].tally, now);
                    table::map_at(pairs(self.rows@), j);
                }
                if self@.contains_key(identifier) && is_blocked(self@[identifier], now) {
                    let j = table::map_has(pairs(self.rows@), identifier);
                    assert(self.rows@[j].identifier@ == identifier);
                    table::map_at(pairs(self.rows@), j);
                }
            }
            assert forall|i: int| 0 <= i < entries@.len() implies is_listed(
                entries@,
                (#[trigger] entries@[i]).identifier@,
            ) by {}
            assert forall|identifier: Seq<char>| #[trigger]
                self@.contains_key(identifier) && self@[identifier].blocked_until is Some
                    && self@[identifier].blocked_until->0.nanos_since_epoch()
                    > now.nanos_since_epoch() implies exists|i: int|
                0 <= i < entries@.len() && (#[trigger] entries@[i]).identifier@ == identifier by {
                assert(is_listed(entries@, identifier));
            }
        }
        entries
    }
}

/// Puts `entry` before the first listed entry that failed earlier.
fn insert_by_time(entries: &mut Vec<LoginRateLimitEntry>, entry: LoginRateLimitEntry)
    requires
        latest_first(old(entries)@),
        listed_once(old(entries)@),
        !is_listed(old(entries)@, entry.identifier@),
    ensures
        latest_first(final(entries)@),
        listed_once(final(entries)@),
        forall|identifier: Seq<char>| #[trigger]
            is_listed(final(entries)@, identifier) <==> identifier == entry.identifier@
                || is_listed(old(entries)@, identifier),
        exists|at: int|
            0 <= at <= old(entries)@.len() && final(entries)@ == #[trigger] old(entries)@.insert(
                at,
                entry,
            ),
{
    let ghost before = entries@;
    let mut at: usize = 0;
    while at < entries.len() && !entry.last_failure_at.is_after(entries[at].last_failure_at)
        invariant
            entries@ == before,
            at <= before.len(),
            forall|j: int|
                0 <= j < at ==> (#[trigger] before[j]).last_failure_at.nanos_since_epoch()
                    >= entry.last_failure_at.nanos_since_epoch(),
        decreases before.len() - at,
    {
        at = at + 1;
    }
    entries.insert(at, entry);
    proof {
        let after = entries@;
        assert(after == before.insert(at as int, entry));
        assert forall|i: int, j: int| 0 <= i < j < after.len() implies (
        #[trigger] after[i]).last_failure_at.nanos_since_epoch() >= (
        #[trigger] after[j]).last_failure_at.nanos_since_epoch() && after[i].identifier@
            != after[j].identifier@ by {
            let i0 = if i <= at {
                i
            } else {
                i - 1
            };
            let j0 = if j <= at {
                j
            } else {
                j - 1
            };
            if i == at {
                assert(after[j] == before[j0]);
                if at < j0 {
                    assert(before[at as int].last_failure_at.nanos_since_epoch()
                        >= before[j0].last_failure_at.nanos_since_epoch());
                }
            } else if j == at {
                assert(after[i] == before[i]);
            } else {
                assert(after[i] == before[i0] && after[j] == before[j0]);
            }
        }
        assert forall|identifier: Seq<char>| #[trigger]
            is_listed(after, identifier) <==> identifier == entry.identifier@ || is_listed(
                before,
                identifier,
            ) by {
            if is_listed(after, identifier) {
                let k = choose|k: int|
                    0 <= k < after.len() && (#[trigger] after[k]).identifier@ == identifier;
                if k < at {
                    assert(after[k] == before[k]);
                } else if k > at {
                    assert(after[k] == before[k - 1]);
                }
            }
            if identifier == entry.identifier@ {
                assert(after[at as int].identifier@ == identifier);
            }
            if is_listed(before, identifier) {
                let k = choose|k: int|
                    0 <= k < before.len() && (#[trigger] before[k]).identifier@ == identifier;
                if k < at {
                    assert(after[k] == before[k]);
                } else {
                    assert(after[k + 1] == before[k]);
                }
            }
        }
    }
}

/// A client's tally after failures at each of `nows`, in that order.
pub open spec fn after_failures(
    before: Option<Tally>,
    limit: RateLimit,
    nows: Seq<Moment>,
) -> Option<Tally>
    decreases nows.len(),
{
    if nows.len() == 0 {
        before
    } else {
        Some(after_failure(after_failures(before, limit, nows.drop_last()), limit, nows.last()))
    }
}

/// Each moment but the first is close in time to the one before.
pub open spec fn in_one_run(nows: Seq<Moment>, window_secs: int) -> bool {
    forall|i: int, j: int|
        0 <= i && j == i + 1 && j < nows.len() ==> close_in_time(
            #[trigger] nows[i],
            #[trigger] nows[j],
            window_secs,
        )
}

/// From a clean record, failures of which none comes after the window has passed
/// since the one before are all counted, however long they go on, and the client
/// is blocked exactly when they have reached `max_attempts`.
pub proof fn blocks_exactly_at_the_threshold(limit: RateLimit, nows: Seq<Moment>)
    requires
        1 <= nows.len() <= i64::MAX,
        in_one_run(nows, limit.window_secs as int),
    ensures
        after_failures(None, limit, nows) matches Some(tally) && {
            &&& tally.failure_count == nows.len()
            &&& tally.window_started_at == nows[0]
            &&& tally.last_failure_at == nows.last()
            &&& tally.blocked_until is Some <==> nows.len() >= limit.max_attempts
        },
    decreases nows.len(),
{
    let earlier = nows.drop_last();
    if earlier.len() > 0 {
        assert(earlier[0] == nows[0]);
        assert forall|i: int, j: int| 0 <= i && j == i + 1 && j < earlier.len() implies close_in_time(
            #[trigger] earlier[i],
            #[trigger] earlier[j],
            limit.window_secs as int,
        ) by {
            assert(close_in_time(nows[i], nows[j], limit.window_secs as int));
        }
        blocks_exactly_at_the_threshold(limit, earlier);
        assert(close_in_time(
            nows[earlier.len() - 1],
            nows[earlier.len() as int],
            limit.window_secs as int,
        ));
        assert(in_window(
            after_failures(None, limit, earlier)->0,
            nows.last(),
            limit.window_secs as int,
        ));
    } else {
        assert(after_failures(None, limit, earlier) is None);
        assert(nows.last() == nows[0]);
    }
}

/// A failure once the window has passed since the last one counts as the first
/// one again.
pub proof fn window_expiry_starts_over(before: Tally, limit: RateLimit, now: Moment)
    requires
        !in_window(before, now, limit.window_secs as int),
    ensures
        after_failure(Some(before), limit, now).failure_count == 1,
        after_failure(Some(before), limit, now).window_started_at == now,
{
}

/// A failure that blocks does so for exactly the cooldown: right after it the
/// whole cooldown is left, at every moment before its end some second is left,
/// and from its end on none is.
pub proof fn block_lasts_for_the_cooldown(
    before: Option<Tally>,
    limit: RateLimit,
    now: Moment,
    later: Moment,
)
    requires
        failure_fits(before, limit, now),
        after_failure(before, limit, now).blocked_until is Some,
        limit.cooldown_secs >= 1,
    ensures
        ({
            let tally = Some(after_failure(before, limit, now));
            let end = now.nanos_since_epoch() + limit.cooldown_secs * 1_000_000_000;
            &&& seconds_left(tally, now) == Some(limit.cooldown_secs as int)
            &&& seconds_left(tally, later) is Some <==> later.nanos_since_epoch() < end
        }),
{
    moment::later_by_adds(now, limit.cooldown_secs as int);
}

/// Seconds are left exactly for the clients that are listed as blocked.
pub proof fn seconds_are_left_while_blocked(tally: Tally, now: Moment)
    ensures
        seconds_left(Some(tally), now) is Some <==> is_blocked(tally, now),
{
}

/// What is recorded or cleared for one identifier leaves every other one as it was.
pub proof fn identifiers_are_independent(
    table: Map<Seq<char>, Tally>,
    identifier: Seq<char>,
    other: Seq<char>,
    tally: Tally,
)
    requires
        other != identifier,
    ensures
        lookup(table.insert(identifier, tally), other) == lookup(table, other),
        lookup(table.remove(identifier), other) == lookup(table, other),
{
}

/// Once cleared, by a successful login or by hand, a client is not blocked and
/// the next failures count as those of a client never seen before.
pub proof fn clearing_starts_over(
    table: Map<Seq<char>, Tally>,
    identifier: Seq<char>,
    limit: RateLimit,
    nows: Seq<Moment>,
    now: Moment,
)
    ensures
        seconds_left(lookup(table.remove(identifier), identifier), now) is None,
        after_failures(lookup(table.remove(identifier), identifier), limit, nows)
            == after_failures(None, limit, nows),
{
}

proof fn window_is_open(before: Tally, now: Moment, window_secs: int)
    ensures
        in_window(before, now, window_secs) <==> counts_on(before, now, window_secs),
{
}

/// Whatever was on record of a client before, also that it was blocked: a failure
/// counts on from the last one while the window has not passed since, and counts as
/// the first otherwise; and after it the client is blocked, for the cooldown, if and
/// only if the failures now counted are at least `max_attempts`. So a failure after
/// the window has passed blocks only where one failure is enough.
pub proof fn failure_blocks_at_the_limit(before: Option<Tally>, limit: RateLimit, now: Moment)
    requires
        failure_fits(before, limit, now),
    ensures
        ({
            let tally = after_failure(before, limit, now);
            let on = before is Some && counts_on(before->0, now, limit.window_secs as int);
            &&& tally.failure_count == (if on {
                before->0.failure_count + 1
            } else {
                1
            })
            &&& tally.window_started_at == (if on {
                before->0.window_started_at
            } else {
                now
            })
            &&& tally.created_at == (if before is Some {
                before->0.created_at
            } else {
                now
            })
            &&& tally.last_failure_at == now
            &&& tally.updated_at == now
            &&& tally.blocked_until is Some <==> tally.failure_count >= limit.max_attempts
            &&& tally.blocked_until matches Some(until) ==> until.nanos_since_epoch()
                == now.nanos_since_epoch() + limit.cooldown_secs * 1_000_000_000
            &&& !on ==> (tally.blocked_until is Some <==> limit.max_attempts <= 1)
        }),
{
    if let Some(tally) = before {
        window_is_open(tally, now, limit.window_secs as int);
    }
    if counted(before, limit, now) >= limit.max_attempts {
        moment::later_by_adds(now, limit.cooldown_secs as int);
    }
}

/// After a failure, whatever was on record before, the client is turned away at a
/// later moment exactly while the cooldown of a block that this failure caused is
/// running.
pub proof fn only_the_last_failure_blocks(
    before: Option<Tally>,
    limit: RateLimit,
    now: Moment,
    later: Moment,
)
    requires
        failure_fits(before, limit, now),
    ensures
        ({
            let tally = after_failure(before, limit, now);
            seconds_left(Some(tally), later) is Some <==> tally.failure_count >= limit.max_attempts
                && later.nanos_since_epoch() < now.nanos_since_epoch() + limit.cooldown_secs
                * 1_000_000_000
        }),
{
    failure_blocks_at_the_limit(before, limit, now);
}

proof fn last_rows_count(rows: Seq<LoginRateLimitRow>)
    ensures
        forall|i: int|
            0 <= i < rows.len() && (forall|j: int|
                i < j < rows.len() ==> (#[trigger] rows[j]).identifier@ != rows[i].identifier@)
                ==> loaded(rows).contains_key((#[trigger] rows[i]).identifier@) && loaded(
                rows,
            )[rows[i].identifier@] == rows[i].tally,
        forall|identifier: Seq<char>| #[trigger]
            loaded(rows).contains_key(identifier) ==> exists|i: int|
                0 <= i < rows.len() && (#[trigger] rows[i]).identifier@ == identifier,
    decreases rows.len(),
{
    if rows.len() > 0 {
        let earlier = rows.drop_last();
        let n = rows.len() - 1;
        last_rows_count(earlier);
        assert forall|i: int|
            0 <= i < rows.len() && (forall|j: int|
                i < j < rows.len() ==> (#[trigger] rows[j]).identifier@
                    != rows[i].identifier@) implies loaded(rows).contains_key(
            (#[trigger] rows[i]).identifier@,
        ) && loaded(rows)[rows[i].identifier@] == rows[i].tally by {
            if i < n {
                assert(rows[n].identifier@ != rows[i].identifier@);
                assert(earlier[i] == rows[i]);
                assert forall|j: int| i < j < earlier.len() implies (
                #[trigger] earlier[j]).identifier@ != earlier[i].identifier@ by {
                    assert(earlier[j] == rows[j]);
                }
            }
        }
        assert forall|identifier: Seq<char>| #[trigger]
            loaded(rows).contains_key(identifier) implies exists|i: int|
            0 <= i < rows.len() && (#[trigger] rows[i]).identifier@ == identifier by {
            if identifier == rows[n].identifier@ {
            } else {
                assert(loaded(earlier).contains_key(identifier));
                let i = choose|i: int|
                    0 <= i < earlier.len() && (#[trigger] earlier[i]).identifier@ == identifier;
                assert(rows[i] == earlier[i]);
            }
        }
    }
}

} // verus!
