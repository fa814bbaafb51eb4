//! Scheduling of the periodic maintenance work: buffer flushes on every
//! tick, compaction and backup once a day, and where backups are written.

use vstd::prelude::*;
use crate::logging::{reading_or_epoch, since_unix_epoch};
use crate::text::{decimal, lemma_decimal_injective, push_decimal};

verus! {

/// Seconds in a day.
pub const SECONDS_PER_DAY: u32 = 86400;

/// Counts maintenance ticks and says which of them are daily ones.
pub struct MaintenanceClock {
    tick: u32,
    ticks_per_day: u32,
}

impl MaintenanceClock {
    /// Ticks elapsed so far, modulo 2^32.
    pub closed spec fn spec_tick(self) -> u32 {
        self.tick
    }

    /// Ticks in a day (zero when a tick is longer than a day).
    pub closed spec fn spec_ticks_per_day(self) -> u32 {
        self.ticks_per_day
    }

    /// A clock for ticks `tick_secs` seconds apart.
    pub fn new(tick_secs: u32) -> (c: Self)
        requires
            tick_secs > 0,
        ensures
            c.spec_tick() == 0,
            c.spec_ticks_per_day() == SECONDS_PER_DAY / tick_secs,
    {
        MaintenanceClock { tick: 0, ticks_per_day: SECONDS_PER_DAY / tick_secs }
    }

    /// Advances one tick; `true` when this tick is also a daily one, that
    /// is when the tick count (modulo 2^32) is a multiple of the ticks in a
    /// day.
    pub fn advance(&mut self) -> (daily: bool)
        ensures
            final(self).spec_ticks_per_day() == old(self).spec_ticks_per_day(),
            final(self).spec_tick() == (old(self).spec_tick() + 1) % 0x1_0000_0000,
            daily == if old(self).spec_ticks_per_day() == 0 {
                final(self).spec_tick() == 0
            } else {
                final(self).spec_tick() % old(self).spec_ticks_per_day() == 0
            },
    {
        self.tick = if self.tick == u32::MAX {
            0
        } else {
            self.tick + 1
        };
        if self.ticks_per_day == 0 {
            self.tick == 0
        } else {
            self.tick % self.ticks_per_day == 0
        }
    }
}

/// The directory backups are written to.
pub open spec fn backup_dir_text() -> Seq<char> {
    "backups"@
}

/// The directory backups are written to.
pub fn backup_dir() -> (d: &'static str)
    ensures
        d@ == backup_dir_text(),
{
    "backups"
}

/// The path of a backup taken `now_secs` seconds after the Unix epoch:
/// `backups/redb_{now_secs}.redb`.
pub fn backup_path(now_secs: u64) -> (p: String)
    ensures
        p@ == backup_dir_text() + "/redb_"@ + decimal(now_secs as nat) + ".redb"@,
{
    let mut p = String::from_str(backup_dir());
    p.append("/redb_");
    push_decimal(&mut p, now_secs);
    p.append(".redb");
    p
}

/// The path for a backup taken now, named by the whole seconds elapsed
/// since the Unix epoch on the system clock (zero for a clock set before
/// 1970).
pub fn backup_path_now() -> (p: String)
    ensures
        exists|reading: Option<(u64, u32)>|
            p@ == backup_dir_text() + "/redb_"@ + decimal(reading_or_epoch(reading).0 as nat)
                + ".redb"@,
{
    let reading = since_unix_epoch();
    let secs: u64 = match reading {
        Some((secs, _)) => secs,
        None => 0,
    };
    assert(reading_or_epoch(reading).0 == secs);
    backup_path(secs)
}

/// One step of the daily maintenance loop.
pub enum DailyStep {
    /// Wait `secs` seconds.
    Sleep { secs: u64 },
    /// Compact the database.
    Compact,
    /// Back the database up.
    Backup,
}

/// The step after `done` in the daily loop: wait a day, compact, back up
/// (whether or not the compaction succeeded), then wait a day again.
pub open spec fn daily_after(done: DailyStep) -> DailyStep {
    match done {
        DailyStep::Sleep { .. } => DailyStep::Compact,
        DailyStep::Compact => DailyStep::Backup,
        DailyStep::Backup => DailyStep::Sleep { secs: SECONDS_PER_DAY as u64 },
    }
}

/// The first step of the daily loop: wait a day.
pub fn daily_first() -> (s: DailyStep)
    ensures
        s == (DailyStep::Sleep { secs: 86400 }),
{
    DailyStep::Sleep { secs: SECONDS_PER_DAY as u64 }
}

/// The step that follows `done`, whatever its outcome was.
pub fn daily_next(done: DailyStep) -> (n: DailyStep)
    ensures
        n == daily_after(done),
        done is Sleep ==> n is Compact,
        done is Compact ==> n is Backup,
        done is Backup ==> n == (DailyStep::Sleep { secs: 86400 }),
{
    match done {
        DailyStep::Sleep { .. } => DailyStep::Compact,
        DailyStep::Compact => DailyStep::Backup,
        DailyStep::Backup => DailyStep::Sleep { secs: SECONDS_PER_DAY as u64 },
    }
}

/// Starting from the first step, the loop repeats wait, compact, back up:
/// step `3k` waits a day, step `3k + 1` compacts and step `3k + 2` backs up.
pub open spec fn daily_step_at(n: nat) -> DailyStep
    decreases n,
{
    if n == 0 {
        DailyStep::Sleep { secs: SECONDS_PER_DAY as u64 }
    } else {
        daily_after(daily_step_at((n - 1) as nat))
    }
}

/// The daily loop cycles through its three steps forever, in order.
pub proof fn daily_loop_cycles(n: nat)
    ensures
        n % 3 == 0 ==> daily_step_at(n) == (DailyStep::Sleep { secs: 86400 }),
        n % 3 == 1 ==> daily_step_at(n) is Compact,
        n % 3 == 2 ==> daily_step_at(n) is Backup,
    decreases n,
{
    if n > 0 {
        daily_loop_cycles((n - 1) as nat);
    }
}

/// Backups taken at different seconds get different paths, so no backup
/// overwrites another taken at another second.
pub proof fn backups_at_different_seconds_differ(a: u64, b: u64)
    requires
        a != b,
    ensures
        backup_dir_text() + "/redb_"@ + decimal(a as nat) + ".redb"@ != backup_dir_text() + "/redb_"@
            + decimal(b as nat) + ".redb"@,
{
    let head = backup_dir_text() + "/redb_"@;
    let tail = ".redb"@;
    let pa = head + decimal(a as nat) + tail;
    let pb = head + decimal(b as nat) + tail;
    if pa == pb {
        let da = decimal(a as nat);
        let db = decimal(b as nat);
        assert(pa.len() == head.len() + da.len() + tail.len());
        assert(pb.len() == head.len() + db.len() + tail.len());
        assert(pa.len() == pb.len());
        assert(da.len() == db.len());
        assert(da =~= pa.subrange(head.len() as int, (head.len() + da.len()) as int));
        assert(db =~= pb.subrange(head.len() as int, (head.len() + db.len()) as int));
        lemma_decimal_injective(a as nat, b as nat);
    }
}

} // verus!
