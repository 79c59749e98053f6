//! What a conflict report says: the resource and the time range of the row
//! that was refused and of the row that it collides with.

use chrono::{DateTime, Utc};
use vstd::hash_map::StringHashMap;
use vstd::prelude::*;

use crate::detail::{capture_fields, captures, chars_of, text_fields, ParseInfo};
use crate::time::{days_from_civil, days_in_month, UtcTime};

verus! {

/// The instant that chrono reads from `text` in the format
/// `%Y-%m-%d %H:%M:%S%#z` (a date, a time and an offset whose minutes may be
/// left out), as seconds and nanoseconds since the Unix epoch in UTC; `None`
/// where chrono refuses the text.
pub uninterp spec fn conflict_time_of(text: Seq<char>) -> Option<(i64, u32)>;

/// Whether `t` holds an ASCII digit at each of the `n` positions from `i`.
pub open spec fn digits_at(t: Seq<char>, i: int, n: int) -> bool {
    forall|k: int| i <= k < i + n ==> '0' <= #[trigger] t[k] && t[k] <= '9'
}

/// The number written by the two digits at positions `i` and `i + 1`.
pub open spec fn two_digits(t: Seq<char>, i: int) -> int {
    ((t[i] as int) - ('0' as int)) * 10 + ((t[i + 1] as int) - ('0' as int))
}

/// The instant written as `YYYY-MM-DD hh:mm:ss` followed by an offset from UTC
/// `+hh` or `-hh`, or `+hhmm` or `-hhmm`, with every field in its range: the
/// local date and time less the offset, in seconds since the Unix epoch.
/// `None` for any other text.
pub open spec fn canonical_time(t: Seq<char>) -> Option<UtcTime> {
    if !((t.len() == 22 || t.len() == 24) && digits_at(t, 0, 4) && t[4] == '-' && digits_at(t, 5, 2)
        && t[7] == '-' && digits_at(t, 8, 2) && t[10] == ' ' && digits_at(t, 11, 2) && t[13] == ':'
        && digits_at(t, 14, 2) && t[16] == ':' && digits_at(t, 17, 2) && (t[19] == '+' || t[19]
        == '-') && digits_at(t, 20, t.len() - 20)) {
        None
    } else {
        let year = two_digits(t, 0) * 100 + two_digits(t, 2);
        let month = two_digits(t, 5);
        let day = two_digits(t, 8);
        let hour = two_digits(t, 11);
        let minute = two_digits(t, 14);
        let second = two_digits(t, 17);
        let offset_hours = two_digits(t, 20);
        let offset_minutes = if t.len() == 24 {
            two_digits(t, 22)
        } else {
            0
        };
        let offset = if t[19] == '+' {
            offset_hours * 3600 + offset_minutes * 60
        } else {
            -(offset_hours * 3600 + offset_minutes * 60)
        };
        if 1 <= month <= 12 && 1 <= day <= days_in_month(year, month) && hour <= 23 && minute
            <= 59 && second <= 59 && offset_hours <= 23 && offset_minutes <= 59 {
            Some(
                UtcTime {
                    seconds: (days_from_civil(year, month, day) * 86400 + hour * 3600 + minute * 60
                        + second - offset) as i64,
                    nanos: 0,
                },
            )
        } else {
            None
        }
    }
}

/// Calls `chrono::DateTime::parse_from_str` with the format
/// `%Y-%m-%d %H:%M:%S%#z`, moves the result to UTC with `with_timezone`, and
/// reads it with `timestamp` and `timestamp_subsec_nanos`. The contract claims
/// that the outcome depends on the text alone (it is named
/// `conflict_time_of`), and that a text in the plain form that PostgreSQL
/// writes (`canonical_time`: four-digit year, two-digit fields, an offset of
/// hours and perhaps minutes, every field in range) is read as that calendar
/// instant; what chrono makes of other texts is left unsaid.
#[verifier::external_body]
fn parse_datetime(s: &str) -> (r: Result<UtcTime, ()>)
    ensures
        match conflict_time_of(s@) {
            Some(t) => r == Ok::<UtcTime, ()>(UtcTime { seconds: t.0, nanos: t.1 }),
            None => r is Err,
        },
        canonical_time(s@) is Some ==> (r == Ok::<UtcTime, ()>(canonical_time(s@)->0)),
{
    match DateTime::parse_from_str(s, "%Y-%m-%d %H:%M:%S%#z") {
        Ok(dt) => {
            let utc = dt.with_timezone(&Utc);
            Ok(UtcTime { seconds: utc.timestamp(), nanos: utc.timestamp_subsec_nanos() })
        },
        Err(_) => Err(()),
    }
}

/// The text with every double quote taken out.
pub open spec fn strip_quotes(s: Seq<char>) -> Seq<char>
    decreases s.len(),
{
    if s.len() == 0 {
        Seq::empty()
    } else if s.last() == '"' {
        strip_quotes(s.drop_last())
    } else {
        strip_quotes(s.drop_last()).push(s.last())
    }
}

/// The position of the first comma at or after `i`.
pub open spec fn comma_from(s: Seq<char>, i: int) -> Option<int>
    decreases s.len() - i,
{
    if i < 0 || i >= s.len() {
        None
    } else if s[i] == ',' {
        Some(i)
    } else {
        comma_from(s, i + 1)
    }
}

/// A time range as the conflict report writes it, without its quotes, cut at
/// its first comma into the start text and the end text.
pub open spec fn timespan_parts(s: Seq<char>) -> Option<(Seq<char>, Seq<char>)> {
    let t = strip_quotes(s);
    match comma_from(t, 0) {
        Some(c) => Some((t.take(c), t.skip(c + 1))),
        None => None,
    }
}

/// The resource, start and end that a report's name/value pairs describe.
pub open spec fn window_of(fields: Map<Seq<char>, Seq<char>>) -> Option<
    (Seq<char>, UtcTime, UtcTime),
> {
    if !fields.contains_key("timespan"@) {
        None
    } else {
        match timespan_parts(fields["timespan"@]) {
            None => None,
            Some(parts) => match (conflict_time_of(parts.0), conflict_time_of(parts.1)) {
                (Some(st), Some(en)) => if fields.contains_key("resource_id"@) {
                    Some(
                        (
                            fields["resource_id"@],
                            UtcTime { seconds: st.0, nanos: st.1 },
                            UtcTime { seconds: en.0, nanos: en.1 },
                        ),
                    )
                } else {
                    None
                },
                _ => None,
            },
        }
    }
}

/// The window that a report's pairs describe where both of its times are
/// written in the plain form, with their calendar instants.
pub open spec fn canonical_window(fields: Map<Seq<char>, Seq<char>>) -> Option<
    (Seq<char>, UtcTime, UtcTime),
> {
    if !fields.contains_key("timespan"@) || !fields.contains_key("resource_id"@) {
        None
    } else {
        match timespan_parts(fields["timespan"@]) {
            None => None,
            Some(parts) => match (canonical_time(parts.0), canonical_time(parts.1)) {
                (Some(st), Some(en)) => Some((fields["resource_id"@], st, en)),
                _ => None,
            },
        }
    }
}

/// The two windows of a detail line of exactly two reports whose times are
/// all written in the plain form.
pub open spec fn canonical_conflict(s: Seq<char>) -> Option<
    ((Seq<char>, UtcTime, UtcTime), (Seq<char>, UtcTime, UtcTime)),
> {
    let c = captures(s);
    if c.len() != 2 {
        None
    } else {
        match (
            canonical_window(capture_fields(s, c[0])),
            canonical_window(capture_fields(s, c[1])),
        ) {
            (Some(n), Some(o)) => Some((n, o)),
            _ => None,
        }
    }
}

/// The two windows that a conflict detail line describes, if it holds exactly
/// two reports and each describes a window.
pub open spec fn conflict_of(s: Seq<char>) -> Option<
    ((Seq<char>, UtcTime, UtcTime), (Seq<char>, UtcTime, UtcTime)),
> {
    let c = captures(s);
    if c.len() != 2 {
        None
    } else {
        match (window_of(capture_fields(s, c[0])), window_of(capture_fields(s, c[1]))) {
            (Some(n), Some(o)) => Some((n, o)),
            _ => None,
        }
    }
}

/// The text with every double quote taken out.
pub fn strip_quotes_exec(s: &str) -> (r: String)
    ensures
        r@ == strip_quotes(s@),
{
    let v = chars_of(s);
    let mut out = String::new();
    let mut i: usize = 0;
    while i < v.len()
        invariant
            v@ == s@,
            i <= v@.len(),
            out@ == strip_quotes(s@.take(i as int)),
        decreases v@.len() - i,
    {
        proof {
            assert(s@.take(i + 1).drop_last() == s@.take(i as int));
        }
        if v[i] != '"' {
            let one = s.substring_char(i, i + 1);
            proof {
                assert(one@ == seq![s@[i as int]]);
            }
            out.append(one);
        }
        i = i + 1;
    }
    proof {
        assert(s@.take(v@.len() as int) == s@);
    }
    out
}

/// Cuts a time range at its first comma, after taking out its quotes: the
/// start text and the end text, or `None` where no comma is left.
pub fn split_timespan(s: &str) -> (r: Option<(String, String)>)
    ensures
        match timespan_parts(s@) {
            Some(parts) => r matches Some(p) && p.0@ == parts.0 && p.1@ == parts.1,
            None => r is None,
        },
{
    let cleaned = strip_quotes_exec(s);
    let t = cleaned.as_str();
    let v = chars_of(t);
    let mut i: usize = 0;
    while i < v.len() && v[i] != ','
        invariant
            v@ == t@,
            t@ == strip_quotes(s@),
            i <= v@.len(),
            comma_from(t@, 0) == comma_from(t@, i as int),
        decreases v@.len() - i,
    {
        i = i + 1;
    }
    if i == v.len() {
        return None;
    }
    let start = String::from_str(t.substring_char(0, i));
    let end = String::from_str(t.substring_char(i + 1, v.len()));
    proof {
        assert(t@.subrange(0, i as int) == t@.take(i as int));
        assert(t@.subrange(i + 1, v@.len() as int) == t@.skip(i + 1));
    }
    Some((start, end))
}

/// The resource and time range of one row in a conflict.
#[derive(Clone, Debug)]
pub struct ReservationWindow {
    pub rid: String,
    pub start: UtcTime,
    pub end: UtcTime,
}

impl ReservationWindow {
    /// Whether the window holds the resource, start and end of `w`.
    pub open spec fn models(self, w: (Seq<char>, UtcTime, UtcTime)) -> bool {
        &&& self.rid@ == w.0
        &&& self.start == w.1
        &&& self.end == w.2
    }

    /// The window of a report once its two instants have been read: fails
    /// where either instant was refused or the report names no resource.
    pub fn from_parsed(
        fields: &StringHashMap<String>,
        start: Result<UtcTime, ()>,
        end: Result<UtcTime, ()>,
    ) -> (r: Result<ReservationWindow, ()>)
        ensures
            r is Ok <==> (start is Ok && end is Ok && fields@.contains_key("resource_id"@)),
            r matches Ok(w) ==> {
                &&& w.rid@ == fields@["resource_id"@]@
                &&& start == Ok::<UtcTime, ()>(w.start)
                &&& end == Ok::<UtcTime, ()>(w.end)
            },
    {
        let start = match start {
            Ok(t) => t,
            Err(e) => return Err(e),
        };
        let end = match end {
            Ok(t) => t,
            Err(e) => return Err(e),
        };
        match fields.get("resource_id") {
            Some(rid) => Ok(ReservationWindow { rid: rid.clone(), start, end }),
            None => Err(()),
        }
    }

    /// Reads the window that a report's name/value pairs describe: the
    /// `timespan` value, without quotes, is cut at its first comma into a start
    /// and an end, each read as a date-time; the `resource_id` value names the
    /// resource. Fails where any of these is missing or unreadable.
    pub fn try_from_fields(value: StringHashMap<String>) -> (r: Result<ReservationWindow, ()>)
        ensures
            match window_of(text_fields(value@)) {
                Some(w) => r matches Ok(win) && win.models(w),
                None => r is Err,
            },
            canonical_window(text_fields(value@)) matches Some(w) ==> r matches Ok(win)
                && win.models(w),
    {
        proof {
            assert(text_fields(value@).dom() == value@.dom());
        }
        let timespan = match value.get("timespan") {
            Some(t) => t,
            None => return Err(()),
        };
        let parts = split_timespan(timespan.as_str());
        let (start_text, end_text) = match parts {
            Some(p) => p,
            None => return Err(()),
        };
        let start = parse_datetime(start_text.as_str());
        let end = parse_datetime(end_text.as_str());
        Self::from_parsed(&value, start, end)
    }
}

/// The two rows of a conflict: the one that was refused and the one already stored.
#[derive(Clone, Debug)]
pub struct ReservationConflict {
    pub new: ReservationWindow,
    pub old: ReservationWindow,
}

impl ReservationConflict {
    /// The windows of the two reports: fails where either describes no window.
    pub fn try_from_info(value: ParseInfo) -> (r: Result<ReservationConflict, ()>)
        ensures
            match (window_of(text_fields(value.new@)), window_of(text_fields(value.old@))) {
                (Some(n), Some(o)) => r matches Ok(c) && c.new.models(n) && c.old.models(o),
                _ => r is Err,
            },
            (canonical_window(text_fields(value.new@)), canonical_window(
                text_fields(value.old@),
            )) matches (Some(n), Some(o)) ==> r matches Ok(c) && c.new.models(n) && c.old.models(
                o,
            ),
    {
        let new = ReservationWindow::try_from_fields(value.new)?;
        let old = ReservationWindow::try_from_fields(value.old)?;
        Ok(ReservationConflict { new, old })
    }

    /// Reads a conflict detail line: exactly two reports, each describing a window.
    pub fn parse(s: &str) -> (r: Result<ReservationConflict, ()>)
        ensures
            match conflict_of(s@) {
                Some(w) => r matches Ok(c) && c.new.models(w.0) && c.old.models(w.1),
                None => r is Err,
            },
            canonical_conflict(s@) matches Some(w) ==> r matches Ok(c) && c.new.models(w.0)
                && c.old.models(w.1),
    {
        let info = ParseInfo::parse(s)?;
        Self::try_from_info(info)
    }
}

/// What became of a conflict detail line: the two windows where it could be
/// read, else the line itself.
#[derive(Clone, Debug)]
pub enum ReservationConflictInfo {
    Parsed(ReservationConflict),
    Unparsed(String),
}

impl ReservationConflictInfo {
    /// Whether this is what the detail line `s` is read as: its two windows
    /// where it describes them, else the line itself.
    pub open spec fn describes(self, s: Seq<char>) -> bool {
        match conflict_of(s) {
            Some(w) => self matches ReservationConflictInfo::Parsed(c) && c.new.models(w.0)
                && c.old.models(w.1),
            None => self matches ReservationConflictInfo::Unparsed(t) && t@ == s,
        }
    }

    /// Reads a conflict detail line; never fails, keeping the line as it is
    /// where it cannot be read.
    pub fn parse(s: &str) -> (r: ReservationConflictInfo)
        ensures
            r.describes(s@),
            canonical_conflict(s@) matches Some(w) ==> r matches ReservationConflictInfo::Parsed(c)
                && c.new.models(w.0) && c.old.models(w.1),
    {
        match ReservationConflict::parse(s) {
            Ok(conflict) => ReservationConflictInfo::Parsed(conflict),
            Err(_) => ReservationConflictInfo::Unparsed(s.to_owned()),
        }
    }
}

impl core::str::FromStr for ReservationConflictInfo {
    type Err = core::convert::Infallible;

    fn from_str(s: &str) -> (r: Result<ReservationConflictInfo, core::convert::Infallible>)
        ensures
            r matches Ok(info) && info.describes(s@),
    {
        Ok(ReservationConflictInfo::parse(s))
    }
}

impl core::str::FromStr for ReservationConflict {
    type Err = ();

    fn from_str(s: &str) -> (r: Result<ReservationConflict, ()>)
        ensures
            match conflict_of(s@) {
                Some(w) => r matches Ok(c) && c.new.models(w.0) && c.old.models(w.1),
                None => r is Err,
            },
    {
        ReservationConflict::parse(s)
    }
}

/// Taking the quotes out leaves no quote, and keeps every other character.
pub proof fn lemma_strip_quotes(s: Seq<char>)
    ensures
        forall|k: int| 0 <= k < strip_quotes(s).len() ==> #[trigger] strip_quotes(s)[k] != '"',
        strip_quotes(s).len() <= s.len(),
        (forall|k: int| 0 <= k < s.len() ==> #[trigger] s[k] != '"') ==> strip_quotes(s) == s,
    decreases s.len(),
{
    if s.len() > 0 {
        lemma_strip_quotes(s.drop_last());
        if forall|k: int| 0 <= k < s.len() ==> #[trigger] s[k] != '"' {
            assert forall|k: int| 0 <= k < s.drop_last().len() implies #[trigger] s.drop_last()[k]
                != '"' by {
                assert(s.drop_last()[k] == s[k]);
            }
            assert(s.drop_last().push(s.last()) == s);
        }
    }
}

/// The position of the first comma holds a comma, and none comes before it.
pub proof fn lemma_comma_from(s: Seq<char>, i: int)
    requires
        0 <= i,
    ensures
        match comma_from(s, i) {
            Some(c) => i <= c < s.len() && s[c] == ',' && forall|k: int|
                i <= k < c ==> #[trigger] s[k] != ',',
            None => forall|k: int| i <= k < s.len() ==> #[trigger] s[k] != ',',
        },
    decreases s.len() - i,
{
    if i < s.len() && s[i] != ',' {
        lemma_comma_from(s, i + 1);
    }
}

/// A time range cut at its first comma is given back by joining its two
/// parts with a comma; the start part holds no comma, and neither part a quote.
pub proof fn lemma_timespan_parts_rejoin(s: Seq<char>)
    requires
        timespan_parts(s) is Some,
    ensures
        ({
            let (start, end) = timespan_parts(s)->0;
            &&& start + seq![','] + end == strip_quotes(s)
            &&& forall|k: int| 0 <= k < start.len() ==> #[trigger] start[k] != ','
            &&& forall|k: int| 0 <= k < start.len() ==> #[trigger] start[k] != '"'
            &&& forall|k: int| 0 <= k < end.len() ==> #[trigger] end[k] != '"'
        }),
{
    let t = strip_quotes(s);
    lemma_strip_quotes(s);
    lemma_comma_from(t, 0);
    let c = comma_from(t, 0)->0;
    assert(t.take(c) + seq![','] + t.skip(c + 1) =~= t);
    assert forall|k: int| 0 <= k < t.take(c).len() implies #[trigger] t.take(c)[k] != '"' by {
        assert(t.take(c)[k] == t[k]);
    }
    assert forall|k: int| 0 <= k < t.skip(c + 1).len() implies #[trigger] t.skip(c + 1)[k]
        != '"' by {
        assert(t.skip(c + 1)[k] == t[k + c + 1]);
    }
}

/// In a time written in the plain form, one more in the last digit of the
/// hour, minute or second field puts the instant one hour, one minute or one
/// second later; one more in the last digit of the offset's hours puts it one
/// hour earlier.
pub proof fn lemma_canonical_time_units(t: Seq<char>, i: int, c: char)
    requires
        canonical_time(t) is Some,
        canonical_time(t.update(i, c)) is Some,
        i == 12 || i == 15 || i == 18 || i == 21,
        (c as int) == (t[i] as int) + 1,
    ensures
        canonical_time(t.update(i, c))->0.seconds == canonical_time(t)->0.seconds + (if i == 12 {
            3600int
        } else if i == 15 {
            60int
        } else if i == 18 {
            1int
        } else if t[19] == '+' {
            -3600int
        } else {
            3600int
        }),
        canonical_time(t.update(i, c))->0.nanos == 0,
{
    let u = t.update(i, c);
    assert(two_digits(u, 0) == two_digits(t, 0));
    assert(two_digits(u, 2) == two_digits(t, 2));
    assert(two_digits(u, 5) == two_digits(t, 5));
    assert(two_digits(u, 8) == two_digits(t, 8));
    assert(u[19] == t[19]);
    assert(u.len() == t.len());
    if t.len() == 24 {
        assert(two_digits(u, 22) == two_digits(t, 22));
    }
}

} // verus!
