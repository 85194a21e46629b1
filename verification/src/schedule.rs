//! Reminder hours: reading them from a `/schedule` command, moving them from
//! the user's time zone to the server's, and the cron line that fires them.
use vstd::prelude::*;
use crate::number::{lemma_i32_text_of_nat, format_i64, format_u64, i32_value, i64_value, int_text, is_digit, parse_i32, parse_i64, signed_value};
use crate::model::ConvertedTimeZone;
use crate::reply::{debug_list, schedule_changed_reply, LOCATION_UNKNOWN_REPLY, SCHEDULE_FAILED_REPLY};
use crate::text::{is_white_space, lemma_split_on_without_separator, lemma_trim_unchanged, chars_of, split_bounds, split_on, string_of_range, trim, trim_bounds};

verus! {

/// The pieces of a `/schedule` argument: the argument is trimmed, split at
/// commas, and each piece is trimmed.
pub open spec fn schedule_pieces(args: Seq<char>) -> Seq<Seq<char>> {
    split_on(trim(args), ',').map_values(|p: Seq<char>| trim(p))
}

/// An hour that the bot accepts for a reminder: an `i32` text naming an
/// hour of the day, 0 to 23 (the help text's example uses 23).
pub open spec fn accepted_hour(t: Seq<char>) -> bool {
    i32_value(t) matches Some(h) && 0 <= h <= 23
}

/// What a `/schedule` argument yields: `None` where some piece is not an
/// `i32` text (the command is refused), otherwise the pieces that are
/// accepted hours, in order, as the user wrote them.
pub open spec fn schedule_times(args: Seq<char>) -> Option<Seq<Seq<char>>> {
    let ps = schedule_pieces(args);
    if forall|i: int| 0 <= i < ps.len() ==> (#[trigger] i32_value(ps[i])) is Some {
        Some(ps.filter(|t: Seq<char>| accepted_hour(t)))
    } else {
        None
    }
}

/// Every character of `t` is a digit or a sign.
pub open spec fn sign_and_digits(t: Seq<char>) -> bool {
    forall|i: int| 0 <= i < t.len() ==> (is_digit(#[trigger] t[i]) || t[i] == '-' || t[i] == '+')
}

proof fn lemma_signed_value_chars(t: Seq<char>)
    requires
        signed_value(t) is Some,
    ensures
        sign_and_digits(t),
{
    if t[0] == '-' || t[0] == '+' {
        let d = t.drop_first();
        assert forall|i: int| 0 <= i < t.len() implies (is_digit(#[trigger] t[i]) || t[i] == '-'
            || t[i] == '+') by {
            if i > 0 {
                assert(t[i] == d[i - 1]);
            }
        }
    }
}

proof fn lemma_filter_step(s: Seq<Seq<char>>, k: int, pred: spec_fn(Seq<char>) -> bool)
    requires
        0 <= k < s.len(),
    ensures
        s.take(k + 1).filter(pred) == if pred(s[k]) {
            s.take(k).filter(pred).push(s[k])
        } else {
            s.take(k).filter(pred)
        },
{
    reveal(Seq::filter);
    assert(s.take(k + 1).drop_last() =~= s.take(k));
}

/// Reads the hours of a `/schedule` command from its argument.
pub fn parse_schedule_times(args: &str) -> (r: Option<Vec<String>>)
    ensures
        match r {
            Some(ts) => schedule_times(args@) == Some(ts.deep_view()),
            None => schedule_times(args@) is None,
        },
        r matches Some(ts) ==> forall|i: int|
            0 <= i < ts.len() ==> accepted_hour(#[trigger] ts[i]@) && sign_and_digits(ts[i]@),
{
    let cs = chars_of(args);
    let (a, b) = trim_bounds(&cs, 0, cs.len());
    assert(cs@.subrange(0, cs@.len() as int) =~= args@);
    let ranges = split_bounds(&cs, a, b, ',');
    let ghost pieces = split_on(cs@.subrange(a as int, b as int), ',');
    let ghost ps = schedule_pieces(args@);
    let ghost pred = |t: Seq<char>| accepted_hour(t);
    assert(ps.len() == ranges.len());
    let mut out: Vec<String> = Vec::new();
    let mut k: usize = 0;
    while k < ranges.len()
        invariant
            k <= ranges.len(),
            ps.len() == ranges.len(),
            ps == schedule_pieces(args@),
            pieces == split_on(cs@.subrange(a as int, b as int), ','),
            pieces.len() == ranges.len(),
            a <= b <= cs.len(),
            cs@.subrange(a as int, b as int) == trim(args@),
            forall|j: int|
                0 <= j < ranges.len() ==> {
                    &&& a <= (#[trigger] ranges[j]).0 <= ranges[j].1 <= b
                    &&& cs@.subrange(ranges[j].0 as int, ranges[j].1 as int) == pieces[j]
                },
            pred == (|t: Seq<char>| accepted_hour(t)),
            forall|j: int| 0 <= j < k ==> (#[trigger] i32_value(ps[j])) is Some,
            out.deep_view() == ps.take(k as int).filter(pred),
            forall|i: int|
                0 <= i < out.len() ==> accepted_hour(#[trigger] out[i]@) && sign_and_digits(
                    out[i]@,
                ),
        decreases ranges.len() - k,
    {
        let (x, y) = ranges[k];
        let (p, q) = trim_bounds(&cs, x, y);
        let piece = string_of_range(&cs, p, q);
        assert(piece@ == ps[k as int]);
        match parse_i32(piece.as_str()) {
            None => {
                return None;
            },
            Some(h) => {
                proof {
                    lemma_filter_step(ps, k as int, pred);
                }
                if 0 <= h && h <= 23 {
                    proof {
                        lemma_signed_value_chars(piece@);
                    }
                    out.push(piece);
                    assert(out.deep_view() =~= ps.take(k as int + 1).filter(pred));
                } else {
                    assert(out.deep_view() =~= ps.take(k as int + 1).filter(pred));
                }
            },
        }
        k = k + 1;
    }
    assert(ps.take(k as int) =~= ps);
    Some(out)
}

/// The whole hours in `offset_seconds`, rounded toward zero as Rust's `/` does.
pub open spec fn hour_offset(offset_seconds: int) -> int {
    if offset_seconds >= 0 {
        offset_seconds / 3600
    } else {
        -((-offset_seconds) / 3600)
    }
}

/// Whether every stored hour is an `i64` text.
pub open spec fn convertible(raw: Seq<Seq<char>>) -> bool {
    forall|i: int| 0 <= i < raw.len() ==> (#[trigger] i64_value(raw[i])) is Some
}

/// The hour of the day that `hour` falls on once the offset's whole hours
/// are added, wrapping around midnight.
pub open spec fn shifted_hour(hour: int, offset_seconds: int) -> int {
    (hour + hour_offset(offset_seconds)) % 24
}

/// The hours moved by the time zone's offset, each printed back as a number.
pub open spec fn shifted_times(raw: Seq<Seq<char>>, offset_seconds: int) -> Seq<Seq<char>> {
    raw.map_values(|t: Seq<char>| int_text(shifted_hour(i64_value(t)->0, offset_seconds)))
}

/// `(v + h) mod 24` on machine integers, in `0..24`.
fn wrap_hour(v: i64, h: i64) -> (r: i64)
    ensures
        r == (v + h) % 24,
        0 <= r < 24,
{
    let sum: i128 = v as i128 + h as i128;
    if sum >= 0 {
        (sum % 24) as i64
    } else {
        let m: i128 = (-sum) % 24;
        assert((-sum) == 24 * ((-sum) / 24) + m);
        if m == 0 {
            assert(sum == 24 * (-((-sum) / 24)));
            assert(sum % 24 == 0) by (nonlinear_arith)
                requires
                    sum == 24 * (-((-sum) / 24)),
            ;
            0
        } else {
            assert(sum == 24 * (-((-sum) / 24) - 1) + (24 - m));
            assert(sum % 24 == 24 - m) by (nonlinear_arith)
                requires
                    sum == 24 * (-((-sum) / 24) - 1) + (24 - m),
                    0 < m < 24,
            ;
            (24 - m) as i64
        }
    }
}

/// Moves reminder hours from the user's time zone to the server's, by the
/// offset that the time zone service reported: each hour is read as an
/// `i64`, the offset's whole hours are added, and the sum is taken modulo
/// 24 so that it names an hour of the day. `None` where an hour cannot be
/// read.
pub fn convert_times(raw_times: &Vec<String>, zone: &ConvertedTimeZone) -> (r: Option<Vec<String>>)
    ensures
        match r {
            Some(ts) => convertible(raw_times.deep_view()) && ts.deep_view() == shifted_times(
                raw_times.deep_view(),
                zone.offset as int,
            ),
            None => !convertible(raw_times.deep_view()),
        },
{
    let offset_seconds = zone.offset;
    let offset_hour: i64 = if offset_seconds >= 0 {
        offset_seconds / 3600
    } else {
        (-((-(offset_seconds as i128)) / 3600)) as i64
    };
    assert(offset_hour == hour_offset(offset_seconds as int));
    let ghost raw = raw_times.deep_view();
    let mut out: Vec<String> = Vec::new();
    let mut i: usize = 0;
    while i < raw_times.len()
        invariant
            i <= raw_times.len(),
            raw == raw_times.deep_view(),
            offset_seconds == zone.offset,
            offset_hour == hour_offset(offset_seconds as int),
            forall|j: int| 0 <= j < i ==> (#[trigger] i64_value(raw[j])) is Some,
            out.deep_view() == shifted_times(raw, offset_seconds as int).take(i as int),
        decreases raw_times.len() - i,
    {
        assert(raw[i as int] == raw_times[i as int]@);
        match parse_i64(raw_times[i].as_str()) {
            None => {
                return None;
            },
            Some(v) => {
                let t = format_i64(wrap_hour(v, offset_hour));
                proof {
                    let sh = shifted_times(raw, offset_seconds as int);
                    assert(i64_value(raw[i as int]) == Some(v as int));
                    assert(sh[i as int] == int_text(shifted_hour(v as int, offset_seconds as int)));
                    assert(t@ == sh[i as int]);
                }
                let ghost prev = out.deep_view();
                out.push(t);
                assert(out.deep_view() =~= prev.push(t@));
                assert(out.deep_view() =~= shifted_times(raw, offset_seconds as int).take(
                    i as int + 1,
                ));
            },
        }
        i = i + 1;
    }
    assert(shifted_times(raw, offset_seconds as int).take(i as int) =~= shifted_times(
        raw,
        offset_seconds as int,
    ));
    Some(out)
}

/// `list` joined with `sep` between neighbours (`[T]::join`).
pub open spec fn join(list: Seq<Seq<char>>, sep: Seq<char>) -> Seq<char>
    decreases list.len(),
{
    if list.len() == 0 {
        Seq::empty()
    } else if list.len() == 1 {
        list[0]
    } else {
        join(list.drop_last(), sep) + sep + list.last()
    }
}

/// Appends `list` joined with `sep` to `s`.
pub fn append_joined(s: &mut String, list: &Vec<String>, sep: &str)
    ensures
        final(s)@ == old(s)@ + join(list.deep_view(), sep@),
{
    let ghost start = s@;
    let ghost l = list.deep_view();
    let mut i: usize = 0;
    while i < list.len()
        invariant
            i <= list.len(),
            l == list.deep_view(),
            s@ == start + join(l.take(i as int), sep@),
        decreases list.len() - i,
    {
        if i > 0 {
            s.append(sep);
        }
        s.append(list[i].as_str());
        proof {
            let t = l.take(i as int + 1);
            assert(t.drop_last() =~= l.take(i as int));
            assert(t.last() == list[i as int]@);
            if i == 0 {
                assert(join(l.take(0), sep@) =~= Seq::<char>::empty());
                assert(s@ =~= start + join(t, sep@));
            } else {
                assert(s@ =~= start + join(t, sep@));
            }
        }
        i = i + 1;
    }
    assert(l.take(i as int) =~= l);
}

/// The cron line (seconds, minutes, hours, ...) that fires at minute zero of
/// each of the given hours every day.
pub open spec fn cron_line(times: Seq<Seq<char>>) -> Seq<char> {
    "0 0 "@ + join(times, ","@) + " * * *"@
}

/// The cron line for the given hours.
pub fn reminder_cron_schedule(times: &Vec<String>) -> (r: String)
    ensures
        r@ == cron_line(times.deep_view()),
{
    let mut r = String::from_str("0 0 ");
    append_joined(&mut r, times, ",");
    r.append(" * * *");
    r
}

/// Whether `cron`'s parser accepts an expression (`Schedule::from_str`
/// returns `Ok`). The grammar is not written out here.
pub uninterp spec fn cron_accepts(expression: Seq<char>) -> bool;

/// `cron::Schedule`, the parsed form of a cron line, as `job_scheduler` takes it.
#[verifier::external_type_specification]
#[verifier::external_body]
pub struct ExSchedule(job_scheduler::Schedule);

/// Parses a cron expression with `cron`'s `Schedule::from_str` (through
/// `job_scheduler`'s re-export); `Some` exactly where it returns `Ok`, which
/// depends on the text alone and is named `cron_accepts`. The parser panics
/// on a step of zero (`x/0`), so expressions with a `/` are not handed to it.
#[verifier::external_body]
fn parse_cron(expression: &str) -> (r: Option<job_scheduler::Schedule>)
    requires
        !expression@.contains('/'),
    ensures
        r is Some <==> cron_accepts(expression@),
{
    expression.parse::<job_scheduler::Schedule>().ok()
}

/// Whether `c` occurs in `cs`.
fn contains_char(cs: &Vec<char>, c: char) -> (b: bool)
    ensures
        b == cs@.contains(c),
{
    let mut i: usize = 0;
    while i < cs.len()
        invariant
            i <= cs.len(),
            forall|j: int| 0 <= j < i ==> cs@[j] != c,
        decreases cs.len() - i,
    {
        if cs[i] == c {
            return true;
        }
        i = i + 1;
    }
    false
}

/// The schedule on which a user's reminder thread fires: the cron line of
/// the hours, parsed. `None` where the line holds a `/` (a step, which the
/// bot never writes and which is not parsed) or where the parser refuses it.
pub fn reminder_schedule(times: &Vec<String>) -> (r: Option<job_scheduler::Schedule>)
    ensures
        r is Some <==> (!cron_line(times.deep_view()).contains('/') && cron_accepts(
            cron_line(times.deep_view()),
        )),
{
    let line = reminder_cron_schedule(times);
    let cs = chars_of(line.as_str());
    if contains_char(&cs, '/') {
        None
    } else {
        parse_cron(line.as_str())
    }
}

/// Whether the user has told the bot where they are: the stored time zones
/// of the user's records, `""` for a record without one; the first counts.
pub fn timezone_is_available(stored_zones: &Vec<String>) -> (b: bool)
    ensures
        b == (stored_zones.len() > 0 && stored_zones[0]@ != ""@),
{
    proof {
        reveal_strlit("");
    }
    if stored_zones.len() > 0 {
        let first = stored_zones[0].as_str();
        assert(first@ == ""@ <==> first@ =~= ""@);
        !first.is_empty()
    } else {
        false
    }
}

/// The user's time zone, `"UTC"` where the record holds none.
pub fn timezone_or_utc(stored: Option<String>) -> (r: String)
    ensures
        r@ == match stored {
            Some(z) => z@,
            None => "UTC"@,
        },
{
    match stored {
        Some(z) => z,
        None => String::from_str("UTC"),
    }
}

/// The address that asks the time zone service for the offset from the
/// user's time zone to UTC in force at `now` (seconds since the Unix epoch),
/// so that daylight saving time is taken into account.
pub fn convert_timezone_url(user_timezone: &str, now: u64) -> (r: String)
    ensures
        r@ == "http://api.timezonedb.com/v2.1/convert-time-zone?key=PRG4062PTQJU&format=json&from="@
            + user_timezone@ + "&to="@ + "UTC"@ + "&time="@ + int_text(now as int),
{
    let mut r = String::from_str(
        "http://api.timezonedb.com/v2.1/convert-time-zone?key=PRG4062PTQJU&format=json&from=",
    );
    r.append(user_timezone);
    r.append("&to=");
    r.append("UTC");
    r.append("&time=");
    let time = format_u64(now);
    r.append(time.as_str());
    r
}

/// The reminder hours of a user: those stored, or 5 and 17 where none are.
pub fn reminder_times_or_default(stored: Option<Vec<String>>) -> (r: Vec<String>)
    ensures
        r.deep_view() == match stored {
            Some(ts) => ts.deep_view(),
            None => seq!["5"@, "17"@],
        },
{
    match stored {
        Some(ts) => ts,
        None => {
            let mut v: Vec<String> = Vec::new();
            v.push(String::from_str("5"));
            v.push(String::from_str("17"));
            assert(v.deep_view() =~= seq!["5"@, "17"@]);
            v
        },
    }
}

/// The hours that a `/schedule` command accepts are always ones that
/// `convert_times` can move: each comes out as the hour of the day that the
/// hour plus the offset's whole hours falls on.
pub proof fn lemma_accepted_hours_convert(args: Seq<char>, offset_seconds: i64)
    requires
        schedule_times(args) is Some,
    ensures
        ({
            let ts = schedule_times(args)->0;
            &&& convertible(ts)
            &&& forall|i: int|
                0 <= i < ts.len() ==> #[trigger] shifted_times(ts, offset_seconds as int)[i]
                    == int_text(shifted_hour(i32_value(ts[i])->0, offset_seconds as int))
                    && 0 <= shifted_hour(i32_value(ts[i])->0, offset_seconds as int) < 24
        }),
{
    let ts = schedule_times(args)->0;
    let ps = schedule_pieces(args);
    let pred = |t: Seq<char>| accepted_hour(t);
    assert(ts == ps.filter(pred));
    assert forall|i: int| 0 <= i < ts.len() implies accepted_hour(#[trigger] ts[i]) by {
        ps.lemma_filter_pred(pred, i);
    }
    assert forall|i: int| 0 <= i < ts.len() implies (#[trigger] i64_value(ts[i])) == i32_value(
        ts[i],
    ) by {
        assert(accepted_hour(ts[i]));
    }
}

/// Every hour of the day is accepted: the argument that is the decimal text
/// of an hour from 0 to 23 yields exactly that one hour.
pub proof fn lemma_every_hour_accepted(h: int)
    requires
        0 <= h <= 23,
    ensures
        schedule_times(int_text(h)) == Some(seq![int_text(h)]),
{
    let t = int_text(h);
    lemma_i32_text_of_nat(h as nat);
    assert(!is_white_space(t[0]) && !is_white_space(t.last())) by {
        assert(is_digit(t[0]));
        assert(is_digit(t[t.len() - 1]));
    }
    lemma_trim_unchanged(t);
    assert(!t.contains(',')) by {
        if t.contains(',') {
            let i = choose|i: int| 0 <= i < t.len() && t[i] == ',';
            assert(is_digit(t[i]));
        }
    }
    lemma_split_on_without_separator(t, ',');
    let ps = schedule_pieces(t);
    assert(ps =~= seq![t]);
    let pred = |u: Seq<char>| accepted_hour(u);
    assert(accepted_hour(t));
    assert(ps.filter(pred) =~= seq![t]) by {
        reveal(Seq::filter);
        assert(ps.drop_last() =~= Seq::<Seq<char>>::empty());
        assert(ps.drop_last().filter(pred) =~= Seq::<Seq<char>>::empty());
    }
}

/// The cron line of one hour fires at that hour.
pub proof fn lemma_cron_line_single(a: Seq<char>)
    ensures
        cron_line(seq![a]) == "0 0 "@ + a + " * * *"@,
{
}

/// Adding an hour to the list adds it to the hour field of the cron line,
/// after a comma: the line of `ts` followed by `x` is the line of `ts` with
/// `",x"` put in before the trailing `" * * *"`.
pub proof fn lemma_cron_line_push(ts: Seq<Seq<char>>, x: Seq<char>)
    requires
        ts.len() >= 1,
    ensures
        cron_line(ts.push(x)) == cron_line(ts).subrange(0, cron_line(ts).len() - 6) + ","@ + x
            + " * * *"@,
{
    reveal_strlit(" * * *");
    let l = cron_line(ts);
    assert(ts.push(x).drop_last() =~= ts);
    assert(l.subrange(0, l.len() - 6) =~= "0 0 "@ + join(ts, ","@));
}

/// Three hours `a`, `b`, `c` give the line `"0 0 a,b,c * * *"`.
pub proof fn lemma_cron_line_three(a: Seq<char>, b: Seq<char>, c: Seq<char>)
    ensures
        cron_line(seq![a, b, c]) == "0 0 "@ + a + ","@ + b + ","@ + c + " * * *"@,
{
    assert(seq![a, b, c].drop_last() =~= seq![a, b]);
    assert(seq![a, b].drop_last() =~= seq![a]);
    assert(join(seq![a], ","@) == a);
    assert(seq![a, b].last() == b);
    assert(join(seq![a, b], ","@) == a + ","@ + b);
    assert(seq![a, b, c].last() == c);
    assert(join(seq![a, b, c], ","@) == join(seq![a, b], ","@) + ","@ + c);
    assert(join(seq![a, b, c], ","@) =~= a + ","@ + b + ","@ + c);
}

/// What the bot does next on a `/schedule` command.
pub enum ScheduleAction {
    /// Send this reply; nothing changes.
    Reply(String),
    /// Move these hours to the server's time zone and store them, then hand
    /// the outcome to `schedule_saved`.
    Save(Vec<String>),
    /// Restart the user's reminders at these hours (server time) and send the reply.
    Restart { hours: Vec<String>, reply: String },
}

/// `ScheduleAction` with its strings taken as character sequences.
pub enum ScheduleActionView {
    Reply(Seq<char>),
    Save(Seq<Seq<char>>),
    Restart { hours: Seq<Seq<char>>, reply: Seq<char> },
}

impl View for ScheduleAction {
    type V = ScheduleActionView;

    open spec fn view(&self) -> ScheduleActionView {
        match self {
            ScheduleAction::Reply(r) => ScheduleActionView::Reply(r@),
            ScheduleAction::Save(ts) => ScheduleActionView::Save(ts.deep_view()),
            ScheduleAction::Restart { hours, reply } => ScheduleActionView::Restart {
                hours: hours.deep_view(),
                reply: reply@,
            },
        }
    }
}

/// The first step on the hours of a `/schedule` command: store them where
/// the user's time zone is known, otherwise ask for the user's location.
pub fn schedule_start(times: Vec<String>, timezone_known: bool) -> (r: ScheduleAction)
    ensures
        r@ == if timezone_known {
            ScheduleActionView::Save(times.deep_view())
        } else {
            ScheduleActionView::Reply(LOCATION_UNKNOWN_REPLY@)
        },
{
    if timezone_known {
        ScheduleAction::Save(times)
    } else {
        ScheduleAction::Reply(String::from_str(LOCATION_UNKNOWN_REPLY))
    }
}

/// The step after storing: `stored` holds the hours as they were stored, in
/// server time, or `None` where storing failed. The reminders restart at the
/// stored hours and the reply lists the hours as the user gave them.
pub fn schedule_saved(times: &Vec<String>, stored: Option<Vec<String>>) -> (r: ScheduleAction)
    requires
        forall|i: int| 0 <= i < times.len() ==> sign_and_digits(#[trigger] times[i]@),
    ensures
        r@ == match stored {
            Some(hours) => ScheduleActionView::Restart {
                hours: hours.deep_view(),
                reply: "👍 Time for reminders changed on "@ + debug_list(times.deep_view()),
            },
            None => ScheduleActionView::Reply(SCHEDULE_FAILED_REPLY@),
        },
{
    match stored {
        Some(hours) => ScheduleAction::Restart { hours, reply: schedule_changed_reply(times) },
        None => ScheduleAction::Reply(String::from_str(SCHEDULE_FAILED_REPLY)),
    }
}

} // verus!
