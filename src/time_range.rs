//! The time window that restricts cleaning to older files.
use vstd::prelude::*;
use vstd::string::*;

use crate::calendar::now_timestamp;
use crate::text::{push_signed_decimal, signed_decimal};

verus! {

pub const SECONDS_PER_DAY: i64 = 86400;

/// Either every file, or the files older than a number of days.
#[derive(Debug, Clone, Copy, PartialEq, Eq, Structural)]
pub enum TimeRange {
    All,
    DaysAgo(i64),
}

/// The instant `days` days before `now`.
pub open spec fn cutoff(now: int, days: int) -> int {
    now - days * SECONDS_PER_DAY
}

impl TimeRange {
    /// Whether a file stamped `timestamp` falls in the window, evaluated at `now`.
    pub open spec fn covers(self, now: int, timestamp: int) -> bool {
        match self {
            TimeRange::All => true,
            TimeRange::DaysAgo(days) => timestamp < cutoff(now, days as int),
        }
    }

    pub open spec fn description_text(self) -> Seq<char> {
        match self {
            TimeRange::All => "全部时间"@,
            TimeRange::DaysAgo(days) => signed_decimal(days as int) + " 天前"@,
        }
    }

    pub open spec fn display_text_of(self) -> Seq<char> {
        match self {
            TimeRange::All => "全部时间（删除所有文件）"@,
            TimeRange::DaysAgo(days) => signed_decimal(days as int) + " 天前（保留最近 "@
                + signed_decimal(days as int) + " 天）"@,
        }
    }

    /// The window that follows this one among all, 7, 30, 90 and 180 days.
    pub fn next_window(&self) -> (r: TimeRange)
        ensures
            r == match *self {
                TimeRange::All => TimeRange::DaysAgo(7),
                TimeRange::DaysAgo(d) => if d == 7 {
                    TimeRange::DaysAgo(30)
                } else if d == 30 {
                    TimeRange::DaysAgo(90)
                } else if d == 90 {
                    TimeRange::DaysAgo(180)
                } else {
                    TimeRange::All
                },
            },
    {
        match self {
            TimeRange::All => TimeRange::DaysAgo(7),
            TimeRange::DaysAgo(d) => if *d == 7 {
                TimeRange::DaysAgo(30)
            } else if *d == 30 {
                TimeRange::DaysAgo(90)
            } else if *d == 90 {
                TimeRange::DaysAgo(180)
            } else {
                TimeRange::All
            },
        }
    }

    /// Whether the window holds `timestamp` when the current time is `now`.
    pub fn should_delete_at(&self, now: i64, timestamp: i64) -> (r: bool)
        ensures
            r == self.covers(now as int, timestamp as int),
    {
        match self {
            TimeRange::All => true,
            TimeRange::DaysAgo(days) => {
                let d: i128 = *days as i128;
                assert(-0x8000_0000_0000_0000 * 86400 <= d * 86400 <= 0x7fff_ffff_ffff_ffff * 86400)
                    by (nonlinear_arith)
                    requires
                        -0x8000_0000_0000_0000 <= d <= 0x7fff_ffff_ffff_ffff,
                ;
                let c: i128 = now as i128 - d * (SECONDS_PER_DAY as i128);
                (timestamp as i128) < c
            },
        }
    }

    /// Whether the window holds `timestamp` at the current time.
    pub fn should_delete(&self, timestamp: i64) -> (r: bool)
        ensures
            exists|now: i64| r == self.covers(now as int, timestamp as int),
    {
        let now = now_timestamp();
        self.should_delete_at(now, timestamp)
    }

    pub fn description(&self) -> (r: String)
        ensures
            r@ == self.description_text(),
    {
        match self {
            TimeRange::All => String::from_str("全部时间"),
            TimeRange::DaysAgo(days) => {
                let mut s = String::new();
                push_signed_decimal(&mut s, *days);
                s.append(" 天前");
                assert(s@ =~= self.description_text());
                s
            },
        }
    }

    pub fn display_text(&self) -> (r: String)
        ensures
            r@ == self.display_text_of(),
    {
        match self {
            TimeRange::All => String::from_str("全部时间（删除所有文件）"),
            TimeRange::DaysAgo(days) => {
                let mut s = String::new();
                push_signed_decimal(&mut s, *days);
                s.append(" 天前（保留最近 ");
                push_signed_decimal(&mut s, *days);
                s.append(" 天）");
                assert(s@ =~= self.display_text_of());
                s
            },
        }
    }
}

} // verus!
