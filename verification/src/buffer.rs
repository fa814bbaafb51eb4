//! Write buffers that batch inserts for one table, and the registry that
//! maps table names to them.
//!
//! A buffer holds serialised `(key, value)` pairs.  It is flushed when the
//! number of pending pairs reaches its size limit, when its flush interval
//! has elapsed since the last flush, and — for a table whose entries expire
//! — on every push when the flush interval is longer than the entries'
//! lifetime, so that nothing is held past its expiry.  Times and durations
//! are nanoseconds.

use vstd::prelude::*;
use crate::errors::DbError;
use crate::named_map::NamedMap;

verus! {

/// The table a buffer writes to.
pub enum TableKind {
    /// A table whose entries never expire.
    Regular,
    /// A table whose entries expire `ttl` nanoseconds after they are written.
    Ttl { ttl: u128 },
}

/// One serialised `(key, value)` pair.
pub type Entry = (Vec<u8>, Vec<u8>);

/// The bytes of an entry.
pub open spec fn entry_bytes(e: Entry) -> (Seq<u8>, Seq<u8>) {
    (e.0@, e.1@)
}

/// The bytes of a sequence of entries.
pub open spec fn entries_bytes(es: Seq<Entry>) -> Seq<(Seq<u8>, Seq<u8>)> {
    es.map_values(|e: Entry| entry_bytes(e))
}

/// What the timer of a buffer does when it wakes up.
pub enum TimerAction {
    /// The buffer is closed: the timer ends.
    Stop,
    /// The flush interval has elapsed: flush, then sleep again.
    Flush,
    /// Nothing to do: sleep again.
    Sleep,
}

/// A batch-insert buffer for one table.
pub struct WriteBuffer {
    kind: TableKind,
    pending: Vec<Entry>,
    max_size: usize,
    flush_interval: u128,
    last_flush: u128,
    alive: bool,
}

/// `true` when a table of kind `kind`, flushed every `flush_interval`
/// nanoseconds, must be flushed on every push: its entries would expire
/// before the timer flushed them.
pub open spec fn forces_flush(kind: TableKind, flush_interval: u128) -> bool {
    match kind {
        TableKind::Ttl { ttl } => flush_interval > ttl,
        TableKind::Regular => false,
    }
}

/// Nanoseconds from `since` to `now`, zero when `now` is earlier.
pub open spec fn elapsed(since: u128, now: u128) -> nat {
    if now >= since {
        (now - since) as nat
    } else {
        0
    }
}

/// What the timer of buffer `b` does when it wakes at time `now`: stop
/// once the buffer is closed, flush once the flush interval has elapsed
/// since the last flush, sleep otherwise.
pub open spec fn timer_step(b: WriteBuffer, now: u128) -> TimerAction {
    if !b.is_alive() {
        TimerAction::Stop
    } else if elapsed(b.spec_last_flush(), now) >= b.spec_flush_interval() {
        TimerAction::Flush
    } else {
        TimerAction::Sleep
    }
}

/// The `k`-th wake-up of a timer that first wakes at `first_wake` and then
/// every `interval`.
pub open spec fn wake_time(first_wake: int, k: nat, interval: u128) -> int {
    first_wake + k * interval
}

/// The timer flushes every entry within two flush intervals.  Take an open
/// buffer with a positive flush interval `I`, an entry pushed at
/// `pushed_at`, no earlier than the last flush, and a timer that wakes at
/// `first_wake + k * I` for `k = 0, 1, ...`, starting no later than one
/// interval after the push.  Then the timer flushes at every wake-up from
/// `pushed_at + I` on (while no other flush intervenes), and one of its
/// wake-ups falls in `[pushed_at + I, pushed_at + 2 * I)`.
pub proof fn timer_flushes_within_two_intervals(b: WriteBuffer, pushed_at: u128, first_wake: int)
    requires
        b.is_alive(),
        b.spec_flush_interval() > 0,
        b.spec_last_flush() <= pushed_at,
        first_wake <= pushed_at + b.spec_flush_interval(),
    ensures
        forall|now: u128|
            pushed_at + b.spec_flush_interval() <= now ==> #[trigger] timer_step(b, now) is Flush,
        exists|k: nat|
            pushed_at + b.spec_flush_interval() <= #[trigger] wake_time(
                first_wake,
                k,
                b.spec_flush_interval(),
            ) < pushed_at + 2 * b.spec_flush_interval(),
{
    let i = b.spec_flush_interval() as int;
    let d = pushed_at + i - first_wake;
    let n = d + i - 1;
    vstd::arithmetic::div_mod::lemma_fundamental_div_mod(n, i);
    let q = n / i;
    let r = n % i;
    assert(0 <= r < i) by {
        vstd::arithmetic::div_mod::lemma_mod_bound(n, i);
    }
    assert(q >= 0) by {
        vstd::arithmetic::div_mod::lemma_div_pos_is_pos(n, i);
    }
    assert(q * i == i * q) by {
        vstd::arithmetic::mul::lemma_mul_is_commutative(q, i);
    }
    let k = q as nat;
    assert(first_wake + k * i == first_wake + n - r);
    assert(pushed_at + b.spec_flush_interval() <= wake_time(first_wake, k, b.spec_flush_interval())
        < pushed_at + 2 * b.spec_flush_interval());
}

/// Pushing entry `e` onto the pending entries `pending` with size limit
/// `max`: when the entries, `e` included, reach the limit, or when every
/// push must flush (`forced`), they are all handed out to be written and
/// none stay pending; otherwise `e` just joins them.  The result is the
/// batch handed out, if any, and what stays pending.
pub open spec fn push_step(
    pending: Seq<(Seq<u8>, Seq<u8>)>,
    e: (Seq<u8>, Seq<u8>),
    max: nat,
    forced: bool,
) -> (Option<Seq<(Seq<u8>, Seq<u8>)>>, Seq<(Seq<u8>, Seq<u8>)>) {
    let all = pending.push(e);
    if forced || all.len() >= max {
        (Some(all), Seq::empty())
    } else {
        (None, all)
    }
}

/// Pushing the entries `es` one after another: everything handed out, in
/// order, and what stays pending.
pub open spec fn push_all(
    pending: Seq<(Seq<u8>, Seq<u8>)>,
    es: Seq<(Seq<u8>, Seq<u8>)>,
    max: nat,
    forced: bool,
) -> (Seq<(Seq<u8>, Seq<u8>)>, Seq<(Seq<u8>, Seq<u8>)>)
    decreases es.len(),
{
    if es.len() == 0 {
        (Seq::empty(), pending)
    } else {
        let before = push_all(pending, es.drop_last(), max, forced);
        let step = push_step(before.1, es.last(), max, forced);
        (
            before.0 + match step.0 {
                Some(out) => out,
                None => Seq::empty(),
            },
            step.1,
        )
    }
}

/// No entry is lost, duplicated or reordered: over any run of pushes, what
/// is handed out to be written followed by what stays pending is exactly
/// what was pending at the start followed by the pushed entries.
pub proof fn pushes_keep_every_entry_in_order(
    pending: Seq<(Seq<u8>, Seq<u8>)>,
    es: Seq<(Seq<u8>, Seq<u8>)>,
    max: nat,
    forced: bool,
)
    ensures
        push_all(pending, es, max, forced).0 + push_all(pending, es, max, forced).1 == pending + es,
    decreases es.len(),
{
    if es.len() > 0 {
        pushes_keep_every_entry_in_order(pending, es.drop_last(), max, forced);
        let before = push_all(pending, es.drop_last(), max, forced);
        let step = push_step(before.1, es.last(), max, forced);
        let e = es.last();
        assert(es =~= es.drop_last().push(e));
        assert(before.0 + before.1 == pending + es.drop_last());
        assert(before.0 + before.1.push(e) =~= (before.0 + before.1).push(e));
        assert(pending + es =~= (pending + es.drop_last()).push(e));
        match step.0 {
            Some(out) => {
                assert(before.0 + out + step.1 =~= pending + es);
            },
            None => {
                assert(before.0 + Seq::<(Seq<u8>, Seq<u8>)>::empty() + step.1 =~= pending + es);
            },
        }
    } else {
        assert(Seq::<(Seq<u8>, Seq<u8>)>::empty() + pending =~= pending + es);
    }
}

/// After any push, fewer entries than the size limit stay pending (none at
/// all when the limit is zero).
pub proof fn push_keeps_size_limit(
    pending: Seq<(Seq<u8>, Seq<u8>)>,
    e: (Seq<u8>, Seq<u8>),
    max: nat,
    forced: bool,
)
    ensures
        push_step(pending, e, max, forced).1.len() < max || push_step(pending, e, max, forced).1.len()
            == 0,
{
}

/// When every push must flush, nothing is ever left pending after a push,
/// so no entry of an expiring table is held past its expiry by the buffer.
pub proof fn forced_push_leaves_nothing_pending(
    pending: Seq<(Seq<u8>, Seq<u8>)>,
    e: (Seq<u8>, Seq<u8>),
    max: nat,
)
    ensures
        push_step(pending, e, max, true).1.len() == 0,
        push_step(pending, e, max, true).0 == Some(pending.push(e)),
{
}

impl WriteBuffer {
    /// The table kind.
    pub closed spec fn spec_kind(self) -> TableKind {
        self.kind
    }

    /// The pending entries, oldest first.
    pub closed spec fn pending(self) -> Seq<(Seq<u8>, Seq<u8>)> {
        entries_bytes(self.pending@)
    }

    /// The number of pending entries that triggers a flush.
    pub closed spec fn spec_max_size(self) -> usize {
        self.max_size
    }

    /// Nanoseconds between timed flushes.
    pub closed spec fn spec_flush_interval(self) -> u128 {
        self.flush_interval
    }

    /// When the buffer was last flushed (or created).
    pub closed spec fn spec_last_flush(self) -> u128 {
        self.last_flush
    }

    /// Whether the buffer is still open.
    pub closed spec fn is_alive(self) -> bool {
        self.alive
    }

    /// `self` and `other` agree on everything but the pending entries.
    pub open spec fn same_settings(self, other: WriteBuffer) -> bool {
        &&& self.spec_kind() == other.spec_kind()
        &&& self.spec_max_size() == other.spec_max_size()
        &&& self.spec_flush_interval() == other.spec_flush_interval()
        &&& self.spec_last_flush() == other.spec_last_flush()
        &&& self.is_alive() == other.is_alive()
    }

    /// An open, empty buffer created at time `now`.
    pub fn new(kind: TableKind, max_size: usize, flush_interval: u128, now: u128) -> (b: Self)
        ensures
            b.spec_kind() == kind,
            b.pending() == Seq::<(Seq<u8>, Seq<u8>)>::empty(),
            b.spec_max_size() == max_size,
            b.spec_flush_interval() == flush_interval,
            b.spec_last_flush() == now,
            b.is_alive(),
    {
        let b = WriteBuffer {
            kind,
            pending: Vec::new(),
            max_size,
            flush_interval,
            last_flush: now,
            alive: true,
        };
        assert(b.pending() =~= Seq::<(Seq<u8>, Seq<u8>)>::empty());
        b
    }

    /// Number of pending entries.
    pub fn len(&self) -> (n: usize)
        ensures
            n == self.pending().len(),
    {
        self.pending.len()
    }

    /// Nanoseconds between timed flushes.
    pub fn flush_interval(&self) -> (d: u128)
        ensures
            d == self.spec_flush_interval(),
    {
        self.flush_interval
    }

    /// Whether every push must flush: the table's entries expire sooner
    /// than the buffer would be flushed by its timer.
    pub fn force_flush(&self) -> (b: bool)
        ensures
            b == forces_flush(self.spec_kind(), self.spec_flush_interval()),
            self.spec_kind() is Regular ==> !b,
            self.spec_kind() matches TableKind::Ttl { ttl } ==> (b <==> self.spec_flush_interval()
                > ttl),
    {
        match &self.kind {
            TableKind::Ttl { ttl } => self.flush_interval > *ttl,
            TableKind::Regular => false,
        }
    }

    /// Adds an entry.  When the pending entries reach the size limit, or
    /// when the table's entries would expire before a timed flush, they are
    /// all taken out, in order, and returned to be written.
    pub fn push_raw(&mut self, key: Vec<u8>, value: Vec<u8>) -> (batch: Option<Vec<Entry>>)
        ensures
            final(self).same_settings(*old(self)),
            ({
                let step = push_step(
                    old(self).pending(),
                    (key@, value@),
                    old(self).spec_max_size() as nat,
                    forces_flush(old(self).spec_kind(), old(self).spec_flush_interval()),
                );
                &&& final(self).pending() == step.1
                &&& match step.0 {
                    Some(out) => batch is Some && entries_bytes(batch->0@) == out,
                    None => batch is None,
                }
            }),
            (old(self).spec_kind() matches TableKind::Ttl { ttl } && old(self).spec_flush_interval()
                > ttl) ==> (batch is Some && entries_bytes(batch->0@) == old(self).pending().push(
                (key@, value@),
            ) && final(self).pending().len() == 0),
            old(self).pending().len() + 1 >= old(self).spec_max_size() ==> (batch is Some
                && entries_bytes(batch->0@) == old(self).pending().push((key@, value@))
                && final(self).pending().len() == 0),
            batch is None ==> final(self).pending() == old(self).pending().push((key@, value@)),
    {
        let ghost k = key@;
        let ghost v = value@;
        self.pending.push((key, value));
        proof {
            assert(entries_bytes(self.pending@) =~= old(self).pending().push((k, v)));
        }
        if self.force_flush() || self.pending.len() >= self.max_size {
            Some(self.take_pending())
        } else {
            None
        }
    }

    /// Takes out all pending entries, oldest first, leaving none.
    pub fn take_pending(&mut self) -> (batch: Vec<Entry>)
        ensures
            final(self).same_settings(*old(self)),
            entries_bytes(batch@) == old(self).pending(),
            final(self).pending() == Seq::<(Seq<u8>, Seq<u8>)>::empty(),
    {
        let mut batch: Vec<Entry> = Vec::new();
        std::mem::swap(&mut batch, &mut self.pending);
        assert(self.pending() =~= Seq::<(Seq<u8>, Seq<u8>)>::empty());
        batch
    }

    /// Notes that a flush finished successfully at time `now`.
    pub fn record_flush(&mut self, now: u128)
        ensures
            final(self).spec_last_flush() == now,
            final(self).spec_kind() == old(self).spec_kind(),
            final(self).pending() == old(self).pending(),
            final(self).spec_max_size() == old(self).spec_max_size(),
            final(self).spec_flush_interval() == old(self).spec_flush_interval(),
            final(self).is_alive() == old(self).is_alive(),
    {
        self.last_flush = now;
    }

    /// Whether the flush interval has elapsed since the last flush.
    pub fn flush_due(&self, now: u128) -> (b: bool)
        ensures
            b == (elapsed(self.spec_last_flush(), now) >= self.spec_flush_interval()),
    {
        let since: u128 = if now >= self.last_flush {
            now - self.last_flush
        } else {
            0
        };
        since >= self.flush_interval
    }

    /// What the buffer's timer does when it wakes at time `now`.
    pub fn timer_action(&self, now: u128) -> (a: TimerAction)
        ensures
            a == timer_step(*self, now),
            !self.is_alive() ==> a is Stop,
            self.is_alive() && elapsed(self.spec_last_flush(), now) >= self.spec_flush_interval()
                ==> a is Flush,
            self.is_alive() && elapsed(self.spec_last_flush(), now) < self.spec_flush_interval()
                ==> a is Sleep,
    {
        if !self.alive {
            TimerAction::Stop
        } else if self.flush_due(now) {
            TimerAction::Flush
        } else {
            TimerAction::Sleep
        }
    }

    /// Starts a flush: the pending entries, oldest first, to be written in
    /// one transaction, or `None` when nothing is pending, in which case
    /// there is nothing to write and the last flush time stays as it is.
    pub fn begin_flush(&mut self) -> (batch: Option<Vec<Entry>>)
        ensures
            final(self).same_settings(*old(self)),
            final(self).pending() == Seq::<(Seq<u8>, Seq<u8>)>::empty(),
            old(self).pending().len() == 0 ==> batch is None,
            old(self).pending().len() > 0 ==> batch is Some && entries_bytes(batch->0@) == old(
                self,
            ).pending(),
    {
        if self.pending.len() == 0 {
            assert(self.pending() =~= Seq::<(Seq<u8>, Seq<u8>)>::empty());
            None
        } else {
            Some(self.take_pending())
        }
    }

    /// Closes the buffer: its timer stops, and the pending entries are
    /// taken out, oldest first, for a last flush (`None` when there are
    /// none).
    pub fn close(&mut self) -> (batch: Option<Vec<Entry>>)
        ensures
            !final(self).is_alive(),
            final(self).pending() == Seq::<(Seq<u8>, Seq<u8>)>::empty(),
            old(self).pending().len() == 0 ==> batch is None,
            old(self).pending().len() > 0 ==> batch is Some && entries_bytes(batch->0@) == old(
                self,
            ).pending(),
            final(self).spec_kind() == old(self).spec_kind(),
            final(self).spec_max_size() == old(self).spec_max_size(),
            final(self).spec_flush_interval() == old(self).spec_flush_interval(),
            final(self).spec_last_flush() == old(self).spec_last_flush(),
    {
        self.alive = false;
        self.begin_flush()
    }
}

/// The buffer registered for `table`, or `DbError::NoBuffer` when there is
/// none.
pub fn lookup<'a, T>(registry: &'a NamedMap<T>, table: &str) -> (r: Result<&'a T, DbError>)
    ensures
        match r {
            Ok(b) => registry@.contains_key(table@) && *b == registry@[table@],
            Err(e) => !registry@.contains_key(table@) && e is NoBuffer,
        },
{
    match registry.get(table) {
        Some(b) => Ok(b),
        None => Err(DbError::NoBuffer),
    }
}

/// A table whose entries live shorter than the flush interval never keeps
/// an entry pending: every push hands out everything pending, the new
/// entry included.  A table whose entries outlive the interval, or never
/// expire, is not forced.
pub proof fn expiring_entries_are_flushed_on_push(
    pending: Seq<(Seq<u8>, Seq<u8>)>,
    e: (Seq<u8>, Seq<u8>),
    max: nat,
    ttl: u128,
    flush_interval: u128,
)
    ensures
        flush_interval > ttl ==> push_step(
            pending,
            e,
            max,
            forces_flush(TableKind::Ttl { ttl }, flush_interval),
        ) == (Some(pending.push(e)), Seq::<(Seq<u8>, Seq<u8>)>::empty()),
        flush_interval <= ttl ==> !forces_flush(TableKind::Ttl { ttl }, flush_interval),
        !forces_flush(TableKind::Regular, flush_interval),
{
}

} // verus!
