//! Retention windows and the expiry timestamps they give.
//!
//! Timestamps are whole seconds since the Unix epoch.
use vstd::prelude::*;

verus! {

/// Seconds in one day.
pub const SECONDS_PER_DAY: i64 = 86400;

/// Days that a file lives under each retention window.
pub const DAY_RETENTION_DAYS: i64 = 1;
pub const WEEK_RETENTION_DAYS: i64 = 7;
pub const MONTH_RETENTION_DAYS: i64 = 28;

/// The largest timestamp from which every retention window can be added
/// without leaving the range of `i64`.
pub const LATEST_UPLOAD_TIME: i64 = 9223372036852356607;

/// How long an uploaded file is kept.
#[derive(Clone, Copy, Debug, PartialEq, Eq, Structural)]
pub enum Retention {
    Day,
    Week,
    Month,
}

/// The retention window that a keyword selects: anything but `week` or
/// `month` falls back to one day.
pub open spec fn retention_of(keyword: Seq<char>) -> Retention {
    if keyword == seq!['w', 'e', 'e', 'k'] {
        Retention::Week
    } else if keyword == seq!['m', 'o', 'n', 't', 'h'] {
        Retention::Month
    } else {
        Retention::Day
    }
}

/// Length of a retention window in days.
pub open spec fn retention_days(r: Retention) -> int {
    match r {
        Retention::Day => 1,
        Retention::Week => 7,
        Retention::Month => 28,
    }
}

/// The expiry of a file uploaded at `now` with the given keyword.
pub open spec fn expiry_of(keyword: Seq<char>, now: int) -> int {
    now + retention_days(retention_of(keyword)) * 86400
}

impl Retention {
    /// The window that a retention keyword selects.
    pub fn from_keyword(keyword: &str) -> (r: Retention)
        ensures
            r == retention_of(keyword@),
    {
        proof {
            reveal_strlit("week");
            reveal_strlit("month");
            assert("week"@ =~= seq!['w', 'e', 'e', 'k']);
            assert("month"@ =~= seq!['m', 'o', 'n', 't', 'h']);
        }
        if str_equals(keyword, "week") {
            Retention::Week
        } else if str_equals(keyword, "month") {
            Retention::Month
        } else {
            Retention::Day
        }
    }

    /// Length of the window in days.
    pub fn days(self) -> (d: i64)
        ensures
            d == retention_days(self),
    {
        match self {
            Retention::Day => DAY_RETENTION_DAYS,
            Retention::Week => WEEK_RETENTION_DAYS,
            Retention::Month => MONTH_RETENTION_DAYS,
        }
    }

    /// Length of the window in seconds.
    pub fn seconds(self) -> (s: i64)
        ensures
            s == retention_days(self) * 86400,
    {
        self.days() * SECONDS_PER_DAY
    }
}

/// Whether two strings hold the same characters.
fn str_equals(a: &str, b: &str) -> (r: bool)
    ensures
        r == (a@ == b@),
{
    let n = a.unicode_len();
    if n != b.unicode_len() {
        return false;
    }
    let mut i: usize = 0;
    while i < n
        invariant
            n == a@.len(),
            n == b@.len(),
            i <= n,
            a@.subrange(0, i as int) == b@.subrange(0, i as int),
        decreases n - i,
    {
        if a.get_char(i) != b.get_char(i) {
            assert(a@[i as int] != b@[i as int]);
            return false;
        }
        assert(a@.subrange(0, i + 1) == a@.subrange(0, i as int).push(a@[i as int]));
        assert(b@.subrange(0, i + 1) == b@.subrange(0, i as int).push(b@[i as int]));
        i = i + 1;
    }
    assert(a@ == a@.subrange(0, n as int));
    assert(b@ == b@.subrange(0, n as int));
    true
}

/// The three retention windows: a week is seven days, a month four weeks,
/// and any other keyword, the empty one included, one day.
pub proof fn lemma_expiry_windows(now: int, other: Seq<char>)
    requires
        other != seq!['w', 'e', 'e', 'k'],
        other != seq!['m', 'o', 'n', 't', 'h'],
    ensures
        expiry_of(seq!['w', 'e', 'e', 'k'], now) == now + 7 * 86400,
        expiry_of(seq!['m', 'o', 'n', 't', 'h'], now) == now + 28 * 86400,
        expiry_of(seq!['d', 'a', 'y'], now) == now + 86400,
        expiry_of(Seq::empty(), now) == now + 86400,
        expiry_of(other, now) == now + 86400,
{
    assert(seq!['d', 'a', 'y'] != seq!['w', 'e', 'e', 'k']) by {
        assert(seq!['d', 'a', 'y'].len() != seq!['w', 'e', 'e', 'k'].len());
    }
    assert(seq!['d', 'a', 'y'] != seq!['m', 'o', 'n', 't', 'h']) by {
        assert(seq!['d', 'a', 'y'].len() != seq!['m', 'o', 'n', 't', 'h'].len());
    }
    assert(Seq::<char>::empty() != seq!['w', 'e', 'e', 'k']) by {
        assert(Seq::<char>::empty().len() != seq!['w', 'e', 'e', 'k'].len());
    }
    assert(Seq::<char>::empty() != seq!['m', 'o', 'n', 't', 'h']) by {
        assert(Seq::<char>::empty().len() != seq!['m', 'o', 'n', 't', 'h'].len());
    }
}

/// The expiry timestamp of a file uploaded at `now` whose retention keyword
/// is `keyword`: one week for `week`, four weeks for `month`, one day for
/// anything else.
pub fn compute_expiry(keyword: &str, now: i64) -> (t: i64)
    requires
        now <= LATEST_UPLOAD_TIME,
    ensures
        t == expiry_of(keyword@, now as int),
        t > now,
{
    let r = Retention::from_keyword(keyword);
    now + r.seconds()
}

} // verus!
