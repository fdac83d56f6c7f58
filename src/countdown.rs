use vstd::prelude::*;
use crate::colour::Rgba;
use crate::dates::{
    config_day, current_moment, instant_from_resolution, local_query, query_of, resolve_local,
    static_date_error, ConfigDateTime, ConfigTime, DateError, LocalResolution, Moment,
};
use crate::decimal::{decimal, decimal_string, digits};
use vstd::string::StringExecFns;

verus! {

/// The four points of an academic term that drive the countdown.
///
/// The first three are local calendar days (0001-01-01 is day 1). The end of the last paper
/// is an instant (`last_paper_end`, seconds since the Unix epoch) whose local calendar day is
/// `last_paper_end_day`.
#[derive(Clone, Copy, Debug, PartialEq, Eq, Structural)]
pub struct TermSchedule {
    pub term_start: i32,
    pub term_last_lecture: i32,
    pub first_paper: i32,
    pub last_paper_end_day: i32,
    pub last_paper_end: i64,
}

/// Where in the term a moment falls.
#[derive(Clone, Copy, Debug, PartialEq, Eq, Structural)]
pub enum CountdownPhase {
    BeforeTerm,
    PreExamCountdown { days_remaining: i64 },
    ExaminationDay { day_index: i64 },
    AfterExams,
}

/// The branch of the fill gradient whose channel value left the byte range.
#[derive(Clone, Copy, Debug, PartialEq, Eq, Structural)]
pub enum GradientBranch {
    /// Term time, first half: white towards orange (blue channel).
    TermFirstHalf,
    /// Term time, second half: orange towards red (green channel).
    TermSecondHalf,
    /// Between the last lecture and the first paper: red towards black (red channel).
    FinalSprint,
}

#[derive(Clone, Copy, Debug, PartialEq, Eq, Structural)]
pub enum CountdownError {
    /// A gradient channel fell outside 0..=255.
    GradientOutOfRange { branch: GradientBranch },
}

/// The days are in order: term start, last lecture, first paper, day of the last paper's end.
pub open spec fn schedule_ordered(s: TermSchedule) -> bool {
    s.term_start <= s.term_last_lecture <= s.first_paper <= s.last_paper_end_day
}

/// Division rounded towards positive infinity.
pub open spec fn ceil_div(a: int, b: int) -> int
    recommends
        b > 0,
{
    if a >= 0 {
        (a + b - 1) / b
    } else {
        -((-a) / b)
    }
}

pub open spec fn at_least_one(x: int) -> int {
    if x < 1 {
        1
    } else {
        x
    }
}

pub open spec fn phase_of(s: TermSchedule, m: Moment) -> CountdownPhase {
    if m.today < s.term_start {
        CountdownPhase::BeforeTerm
    } else if m.today < s.first_paper {
        CountdownPhase::PreExamCountdown { days_remaining: (s.first_paper - m.today) as i64 }
    } else if m.timestamp < s.last_paper_end {
        CountdownPhase::ExaminationDay { day_index: (m.today - s.first_paper + 1) as i64 }
    } else {
        CountdownPhase::AfterExams
    }
}

pub open spec fn label_of(s: TermSchedule, m: Moment) -> Seq<char> {
    if m.today < s.term_start {
        seq!['S']
    } else if m.today < s.first_paper {
        decimal(s.first_paper - m.today)
    } else if m.timestamp < s.last_paper_end {
        seq!['D'] + decimal(m.today - s.first_paper + 1)
    } else {
        seq!['E']
    }
}

pub open spec fn green() -> Rgba {
    Rgba { r: 0, g: 255, b: 0, a: 255 }
}

pub open spec fn white() -> Rgba {
    Rgba { r: 255, g: 255, b: 255, a: 255 }
}

pub open spec fn red() -> Rgba {
    Rgba { r: 255, g: 0, b: 0, a: 255 }
}

pub open spec fn translucent_black() -> Rgba {
    Rgba { r: 0, g: 0, b: 0, a: 127 }
}

/// `half_term_length`: half the term in days, rounded up, and at least one.
pub open spec fn half_term_length(s: TermSchedule) -> int {
    at_least_one(ceil_div(s.term_last_lecture - s.term_start, 2))
}

/// `final_dash_length`: days from the last lecture to the first paper, at least one.
pub open spec fn final_dash_length(s: TermSchedule) -> int {
    at_least_one(s.first_paper - s.term_last_lecture)
}

pub open spec fn in_byte(v: int) -> bool {
    0 <= v <= 255
}

pub open spec fn fill_of(s: TermSchedule, m: Moment) -> Result<Rgba, CountdownError> {
    if m.today < s.term_start || m.timestamp >= s.last_paper_end {
        Ok(green())
    } else if m.today >= s.first_paper {
        Ok(white())
    } else if m.today <= s.term_last_lecture {
        let half = half_term_length(s);
        let remaining = s.term_last_lecture - m.today;
        if remaining > half {
            let v = (remaining - half) * 255 / half;
            if in_byte(v) {
                Ok(Rgba { r: 255, g: 255, b: v as u8, a: 255 })
            } else {
                Err(CountdownError::GradientOutOfRange { branch: GradientBranch::TermFirstHalf })
            }
        } else {
            let v = remaining * 255 / half;
            if in_byte(v) {
                Ok(Rgba { r: 255, g: v as u8, b: 0, a: 255 })
            } else {
                Err(CountdownError::GradientOutOfRange { branch: GradientBranch::TermSecondHalf })
            }
        }
    } else {
        let v = (s.first_paper - m.today) * 255 / final_dash_length(s);
        if in_byte(v) {
            Ok(Rgba { r: v as u8, g: 0, b: 0, a: 255 })
        } else {
            Err(CountdownError::GradientOutOfRange { branch: GradientBranch::FinalSprint })
        }
    }
}

pub open spec fn stroke_of(s: TermSchedule, m: Moment) -> Rgba {
    if m.today < s.term_start || m.timestamp >= s.last_paper_end {
        translucent_black()
    } else if m.today >= s.first_paper {
        red()
    } else if m.today <= s.term_last_lecture {
        translucent_black()
    } else {
        white()
    }
}

/// Whole hours left until the end of the last paper, rounded up (negative once it is over).
pub open spec fn hours_left_of(s: TermSchedule, m: Moment) -> int {
    ceil_div(s.last_paper_end - m.timestamp, 3600)
}

/// Checks that the schedule's days are in order.
pub fn schedule_is_ordered(s: &TermSchedule) -> (r: bool)
    ensures
        r == schedule_ordered(*s),
{
    s.term_start <= s.term_last_lecture && s.term_last_lecture <= s.first_paper
        && s.first_paper <= s.last_paper_end_day
}

/// The phase of the countdown at moment `m`.
pub fn countdown_phase(s: &TermSchedule, m: &Moment) -> (p: CountdownPhase)
    ensures
        p == phase_of(*s, *m),
{
    if m.today < s.term_start {
        CountdownPhase::BeforeTerm
    } else if m.today < s.first_paper {
        CountdownPhase::PreExamCountdown { days_remaining: s.first_paper as i64 - m.today as i64 }
    } else if m.timestamp < s.last_paper_end {
        CountdownPhase::ExaminationDay { day_index: m.today as i64 - s.first_paper as i64 + 1 }
    } else {
        CountdownPhase::AfterExams
    }
}

/// The countdown label: `S` before term, the days left until the first paper, `D<k>` on the
/// k-th day of examinations, `E` once the last paper has ended.
pub fn get_countdown_str(s: &TermSchedule, m: &Moment) -> (r: String)
    ensures
        r@ == label_of(*s, *m),
{
    if m.today < s.term_start {
        let r = String::from_str("S");
        proof {
            reveal_strlit("S");
        }
        r
    } else if m.today < s.first_paper {
        decimal_string(s.first_paper as i64 - m.today as i64)
    } else if m.timestamp < s.last_paper_end {
        let mut r = String::from_str("D");
        proof {
            reveal_strlit("D");
        }
        let n = decimal_string(m.today as i64 - s.first_paper as i64 + 1);
        r.append(n.as_str());
        r
    } else {
        let r = String::from_str("E");
        proof {
            reveal_strlit("E");
        }
        r
    }
}

/// `half_term_length` in days, as `half_term_length` states it.
fn half_term_days(s: &TermSchedule) -> (h: i64)
    ensures
        h == half_term_length(*s),
        1 <= h <= 0x8000_0000,
{
    let span: i64 = s.term_last_lecture as i64 - s.term_start as i64;
    if span <= 0 {
        assert((-span) / 2 >= 0) by (nonlinear_arith)
            requires
                -span >= 0,
        ;
        1
    } else {
        (span + 1) / 2
    }
}

/// The fill colour of the countdown text at moment `m`: green outside the term and
/// examinations, white during examinations, a white-orange-red gradient during term time and
/// a red-black gradient between the last lecture and the first paper. A gradient value that
/// leaves the byte range is an error naming its branch.
pub fn get_font_fill_colour(s: &TermSchedule, m: &Moment) -> (r: Result<Rgba, CountdownError>)
    ensures
        r == fill_of(*s, *m),
{
    if m.today < s.term_start || m.timestamp >= s.last_paper_end {
        Ok(Rgba { r: 0, g: 255, b: 0, a: 255 })
    } else if m.today >= s.first_paper {
        Ok(Rgba { r: 255, g: 255, b: 255, a: 255 })
    } else if m.today <= s.term_last_lecture {
        let half = half_term_days(s);
        let remaining: i64 = s.term_last_lecture as i64 - m.today as i64;
        if remaining > half {
            let v: i64 = (remaining - half) * 255 / half;
            if 0 <= v && v <= 255 {
                Ok(Rgba { r: 255, g: 255, b: v as u8, a: 255 })
            } else {
                Err(CountdownError::GradientOutOfRange { branch: GradientBranch::TermFirstHalf })
            }
        } else {
            let v: i64 = remaining * 255 / half;
            if 0 <= v && v <= 255 {
                Ok(Rgba { r: 255, g: v as u8, b: 0, a: 255 })
            } else {
                Err(CountdownError::GradientOutOfRange { branch: GradientBranch::TermSecondHalf })
            }
        }
    } else {
        let length: i64 = s.first_paper as i64 - s.term_last_lecture as i64;
        let remaining: i64 = s.first_paper as i64 - m.today as i64;
        let v: i64 = remaining * 255 / length;
        if 0 <= v && v <= 255 {
            Ok(Rgba { r: v as u8, g: 0, b: 0, a: 255 })
        } else {
            Err(CountdownError::GradientOutOfRange { branch: GradientBranch::FinalSprint })
        }
    }
}

/// The outline colour of the countdown text: translucent black outside the examinations and
/// during term time, opaque red during examinations, opaque white in the final sprint.
pub fn get_font_stroke_colour(s: &TermSchedule, m: &Moment) -> (r: Rgba)
    ensures
        r == stroke_of(*s, *m),
{
    if m.today < s.term_start || m.timestamp >= s.last_paper_end {
        Rgba { r: 0, g: 0, b: 0, a: 127 }
    } else if m.today >= s.first_paper {
        Rgba { r: 255, g: 0, b: 0, a: 255 }
    } else if m.today <= s.term_last_lecture {
        Rgba { r: 0, g: 0, b: 0, a: 127 }
    } else {
        Rgba { r: 255, g: 255, b: 255, a: 255 }
    }
}

/// Whole hours from `m` to the end of the last paper, rounded up.
pub fn hours_left(s: &TermSchedule, m: &Moment) -> (h: i64)
    ensures
        h == hours_left_of(*s, *m),
{
    let diff: i128 = s.last_paper_end as i128 - m.timestamp as i128;
    if diff >= 0 {
        assert((diff + 3599) / 3600 <= diff) by (nonlinear_arith)
            requires
                diff >= 0,
        ;
        ((diff + 3599) / 3600) as i64
    } else {
        let q: i128 = (-diff) / 3600;
        assert(q <= -diff) by (nonlinear_arith)
            requires
                q == (-diff) / 3600,
                -diff > 0,
        ;
        (-q) as i64
    }
}

pub open spec fn weekday_abbr(w: u32) -> Seq<char> {
    if w == 0 { "Mon"@ }
    else if w == 1 { "Tue"@ }
    else if w == 2 { "Wed"@ }
    else if w == 3 { "Thu"@ }
    else if w == 4 { "Fri"@ }
    else if w == 5 { "Sat"@ }
    else { "Sun"@ }
}

pub open spec fn month_abbr(mo: u32) -> Seq<char> {
    if mo == 1 { "Jan"@ }
    else if mo == 2 { "Feb"@ }
    else if mo == 3 { "Mar"@ }
    else if mo == 4 { "Apr"@ }
    else if mo == 5 { "May"@ }
    else if mo == 6 { "Jun"@ }
    else if mo == 7 { "Jul"@ }
    else if mo == 8 { "Aug"@ }
    else if mo == 9 { "Sep"@ }
    else if mo == 10 { "Oct"@ }
    else if mo == 11 { "Nov"@ }
    else { "Dec"@ }
}

fn weekday_name(w: u32) -> (r: &'static str)
    ensures
        r@ == weekday_abbr(w),
{
    if w == 0 { "Mon" }
    else if w == 1 { "Tue" }
    else if w == 2 { "Wed" }
    else if w == 3 { "Thu" }
    else if w == 4 { "Fri" }
    else if w == 5 { "Sat" }
    else { "Sun" }
}

fn month_name(mo: u32) -> (r: &'static str)
    ensures
        r@ == month_abbr(mo),
{
    if mo == 1 { "Jan" }
    else if mo == 2 { "Feb" }
    else if mo == 3 { "Mar" }
    else if mo == 4 { "Apr" }
    else if mo == 5 { "May" }
    else if mo == 6 { "Jun" }
    else if mo == 7 { "Jul" }
    else if mo == 8 { "Aug" }
    else if mo == 9 { "Sep" }
    else if mo == 10 { "Oct" }
    else if mo == 11 { "Nov" }
    else { "Dec" }
}

/// The status caption, e.g. `Calculated on Mon 3 Jun (<12h left)`.
pub open spec fn today_caption(s: TermSchedule, m: Moment) -> Seq<char> {
    "Calculated on "@ + weekday_abbr(m.weekday) + " "@ + decimal(m.day as int) + " "@
        + month_abbr(m.month) + " (<"@ + decimal(hours_left_of(s, m)) + "h left)"@
}

/// The status caption: the local weekday, day and month of `m` and the whole hours left
/// until the end of the last paper, rounded up.
pub fn generate_today_string(s: &TermSchedule, m: &Moment) -> (r: String)
    ensures
        r@ == today_caption(*s, *m),
{
    let mut r = String::from_str("Calculated on ");
    r.append(weekday_name(m.weekday));
    r.append(" ");
    let day = decimal_string(m.day as i64);
    r.append(day.as_str());
    r.append(" ");
    r.append(month_name(m.month));
    r.append(" (<");
    let h = decimal_string(hours_left(s, m));
    r.append(h.as_str());
    r.append("h left)");
    r
}

proof fn lemma_scaled_fraction_is_byte(a: int, b: int)
    requires
        0 <= a <= b,
        b >= 1,
    ensures
        in_byte(a * 255 / b),
{
    assert(0 <= a * 255 / b <= 255) by (nonlinear_arith)
        requires
            0 <= a <= b,
            b >= 1,
    ;
}

/// No gradient ever leaves the byte range, whatever the schedule: the fill colour is defined
/// at every moment.
pub proof fn lemma_fill_always_defined(s: TermSchedule, m: Moment)
    ensures
        fill_of(s, m) is Ok,
{
    if !(m.today < s.term_start || m.timestamp >= s.last_paper_end) && m.today < s.first_paper {
        if m.today <= s.term_last_lecture {
            let span = s.term_last_lecture - s.term_start;
            let half = half_term_length(s);
            let remaining = s.term_last_lecture - m.today;
            assert(ceil_div(span, 2) == (span + 1) / 2);
            assert(half >= 1 && span <= 2 * half);
            if remaining > half {
                lemma_scaled_fraction_is_byte(remaining - half, half);
            } else {
                lemma_scaled_fraction_is_byte(remaining, half);
            }
        } else {
            lemma_scaled_fraction_is_byte(s.first_paper - m.today, final_dash_length(s));
        }
    }
}

/// Before the term starts the label is `S`, the fill green and the outline translucent black.
pub proof fn lemma_before_term(s: TermSchedule, m: Moment)
    requires
        m.today < s.term_start,
    ensures
        label_of(s, m) == seq!['S'],
        fill_of(s, m) == Ok::<Rgba, CountdownError>(green()),
        stroke_of(s, m) == translucent_black(),
{
}

/// Three days before the first paper, within the term, the label is `3`.
pub proof fn lemma_three_days_left(s: TermSchedule, m: Moment)
    requires
        s.term_start <= m.today,
        m.today == s.first_paper - 3,
    ensures
        label_of(s, m) == seq!['3'],
{
    reveal_with_fuel(digits, 1);
}

/// On the first day of examinations, before the last paper ends, the label is `D1`, the fill
/// white and the outline red.
pub proof fn lemma_first_examination_day(s: TermSchedule, m: Moment)
    requires
        schedule_ordered(s),
        m.today == s.first_paper,
        m.timestamp < s.last_paper_end,
    ensures
        label_of(s, m) == seq!['D', '1'],
        fill_of(s, m) == Ok::<Rgba, CountdownError>(white()),
        stroke_of(s, m) == red(),
{
    reveal_with_fuel(digits, 1);
    assert(seq!['D'] + seq!['1'] =~= seq!['D', '1']);
}

/// Once the last paper has ended (on or after its day) the label is `E` and the fill green.
pub proof fn lemma_after_exams(s: TermSchedule, m: Moment)
    requires
        schedule_ordered(s),
        m.today >= s.last_paper_end_day,
        m.timestamp >= s.last_paper_end,
    ensures
        label_of(s, m) == seq!['E'],
        fill_of(s, m) == Ok::<Rgba, CountdownError>(green()),
{
}

/// A configured schedule: four local date-times.
#[derive(Clone, Copy, Debug, PartialEq, Eq, Structural)]
pub struct ConfigCountdown {
    pub term_start: ConfigDateTime,
    pub term_last_lecture: ConfigDateTime,
    pub first_paper: ConfigDateTime,
    pub last_paper_end_time: ConfigDateTime,
}

#[derive(Clone, Copy, Debug, PartialEq, Eq, Structural)]
pub enum ScheduleField {
    TermStart,
    TermLastLecture,
    FirstPaper,
    LastPaperEndTime,
}

#[derive(Clone, Copy, Debug, PartialEq, Eq, Structural)]
pub enum ScheduleError {
    /// A date-time of the schedule could not be resolved.
    Date { field: ScheduleField, error: DateError },
    /// The days are not in the order term start, last lecture, first paper, end of last paper.
    OutOfOrder,
}

/// The first field, in schedule order, whose date-time fails whatever the time zone.
pub open spec fn first_static_error(c: ConfigCountdown) -> Option<ScheduleError> {
    if static_date_error(c.term_start) is Some {
        Some(
            ScheduleError::Date { field: ScheduleField::TermStart, error: static_date_error(c.term_start)->0 },
        )
    } else if static_date_error(c.term_last_lecture) is Some {
        Some(
            ScheduleError::Date { field: ScheduleField::TermLastLecture, error: static_date_error(c.term_last_lecture)->0 },
        )
    } else if static_date_error(c.first_paper) is Some {
        Some(
            ScheduleError::Date { field: ScheduleField::FirstPaper, error: static_date_error(c.first_paper)->0 },
        )
    } else if static_date_error(c.last_paper_end_time) is Some {
        Some(
            ScheduleError::Date { field: ScheduleField::LastPaperEndTime, error: static_date_error(c.last_paper_end_time)->0 },
        )
    } else {
        None
    }
}

pub open spec fn resolution_error(res: LocalResolution) -> Option<DateError> {
    match res {
        LocalResolution::Single { .. } => None,
        LocalResolution::Ambiguous => Some(DateError::AmbiguousLocalTime),
        LocalResolution::Nonexistent => Some(DateError::NonexistentLocalTime),
    }
}

/// The first field, in schedule order, whose time-zone resolution failed.
pub open spec fn first_resolution_error(
    r1: LocalResolution,
    r2: LocalResolution,
    r3: LocalResolution,
    r4: LocalResolution,
) -> Option<ScheduleError> {
    if resolution_error(r1) is Some {
        Some(
            ScheduleError::Date { field: ScheduleField::TermStart, error: resolution_error(r1)->0 },
        )
    } else if resolution_error(r2) is Some {
        Some(
            ScheduleError::Date { field: ScheduleField::TermLastLecture, error: resolution_error(r2)->0 },
        )
    } else if resolution_error(r3) is Some {
        Some(
            ScheduleError::Date { field: ScheduleField::FirstPaper, error: resolution_error(r3)->0 },
        )
    } else if resolution_error(r4) is Some {
        Some(
            ScheduleError::Date { field: ScheduleField::LastPaperEndTime, error: resolution_error(r4)->0 },
        )
    } else {
        None
    }
}

pub open spec fn resolution_timestamp(res: LocalResolution) -> i64 {
    match res {
        LocalResolution::Single { timestamp } => timestamp,
        _ => 0,
    }
}

/// The schedule made of a configuration, given what the time zone answered for each of its
/// four fields (`r1` to `r4`, in schedule order): errors that no zone can mend come first,
/// in field order, then failed resolutions in field order, then days out of order.
pub open spec fn schedule_outcome(
    c: ConfigCountdown,
    r1: LocalResolution,
    r2: LocalResolution,
    r3: LocalResolution,
    r4: LocalResolution,
) -> Result<TermSchedule, ScheduleError> {
    if first_static_error(c) is Some {
        Err(first_static_error(c)->0)
    } else if first_resolution_error(r1, r2, r3, r4) is Some {
        Err(first_resolution_error(r1, r2, r3, r4)->0)
    } else {
        let s = TermSchedule {
            term_start: config_day(c.term_start) as i32,
            term_last_lecture: config_day(c.term_last_lecture) as i32,
            first_paper: config_day(c.first_paper) as i32,
            last_paper_end_day: config_day(c.last_paper_end_time) as i32,
            last_paper_end: resolution_timestamp(r4),
        };
        if schedule_ordered(s) {
            Ok(s)
        } else {
            Err(ScheduleError::OutOfOrder)
        }
    }
}

fn query_field(dt: &ConfigDateTime, field: ScheduleField) -> (r: Result<(i32, ConfigTime), ScheduleError>)
    ensures
        r == (match query_of(*dt) {
            Ok(q) => Ok(q),
            Err(error) => Err(ScheduleError::Date { field, error }),
        }),
{
    match local_query(dt) {
        Ok(q) => Ok(q),
        Err(error) => Err(ScheduleError::Date { field, error }),
    }
}

fn resolved_field(day: i32, res: LocalResolution, field: ScheduleField) -> (r: Result<i64, ScheduleError>)
    ensures
        r == (match resolution_error(res) {
            None => Ok(resolution_timestamp(res)),
            Some(error) => Err(ScheduleError::Date { field, error }),
        }),
{
    match instant_from_resolution(day, res) {
        Ok(i) => Ok(i.timestamp),
        Err(error) => Err(ScheduleError::Date { field, error }),
    }
}

/// The schedule made of a configuration, given what the time zone answered for each of its
/// four fields, in schedule order.
pub fn schedule_from_resolved(
    c: &ConfigCountdown,
    r1: LocalResolution,
    r2: LocalResolution,
    r3: LocalResolution,
    r4: LocalResolution,
) -> (r: Result<TermSchedule, ScheduleError>)
    ensures
        r == schedule_outcome(*c, r1, r2, r3, r4),
{
    let q1 = query_field(&c.term_start, ScheduleField::TermStart)?;
    let q2 = query_field(&c.term_last_lecture, ScheduleField::TermLastLecture)?;
    let q3 = query_field(&c.first_paper, ScheduleField::FirstPaper)?;
    let q4 = query_field(&c.last_paper_end_time, ScheduleField::LastPaperEndTime)?;
    resolved_field(q1.0, r1, ScheduleField::TermStart)?;
    resolved_field(q2.0, r2, ScheduleField::TermLastLecture)?;
    resolved_field(q3.0, r3, ScheduleField::FirstPaper)?;
    let end = resolved_field(q4.0, r4, ScheduleField::LastPaperEndTime)?;
    let s = TermSchedule {
        term_start: q1.0,
        term_last_lecture: q2.0,
        first_paper: q3.0,
        last_paper_end_day: q4.0,
        last_paper_end: end,
    };
    if schedule_is_ordered(&s) {
        Ok(s)
    } else {
        Err(ScheduleError::OutOfOrder)
    }
}

/// Resolves a configured schedule in the machine's time zone and checks that its days are in
/// order. What the zone answers for each field decides only the failed resolutions and the
/// instant of the last paper's end; all else is as `schedule_outcome` states.
pub fn schedule_from_config(c: &ConfigCountdown) -> (r: Result<TermSchedule, ScheduleError>)
    ensures
        exists|r1: LocalResolution, r2: LocalResolution, r3: LocalResolution, r4: LocalResolution|
            r == #[trigger] schedule_outcome(*c, r1, r2, r3, r4),
        first_static_error(*c) matches Some(e) ==> r == Err::<TermSchedule, ScheduleError>(e),
        r matches Ok(s) ==> {
            &&& schedule_ordered(s)
            &&& s.term_start == config_day(c.term_start)
            &&& s.term_last_lecture == config_day(c.term_last_lecture)
            &&& s.first_paper == config_day(c.first_paper)
            &&& s.last_paper_end_day == config_day(c.last_paper_end_time)
        },
{
    let none = LocalResolution::Nonexistent;
    let q1 = local_query(&c.term_start);
    let q2 = local_query(&c.term_last_lecture);
    let q3 = local_query(&c.first_paper);
    let q4 = local_query(&c.last_paper_end_time);
    match (q1, q2, q3, q4) {
        (Ok(a), Ok(b), Ok(d), Ok(e)) => {
            let r1 = resolve_local(a.0, a.1);
            let r2 = resolve_local(b.0, b.1);
            let r3 = resolve_local(d.0, d.1);
            let r4 = resolve_local(e.0, e.1);
            let r = schedule_from_resolved(c, r1, r2, r3, r4);
            assert(r == schedule_outcome(*c, r1, r2, r3, r4));
            r
        },
        _ => {
            let r = schedule_from_resolved(c, none, none, none, none);
            assert(r == schedule_outcome(*c, none, none, none, none));
            r
        },
    }
}

/// What the countdown shows at one moment.
#[derive(Clone, Debug)]
pub struct CountdownText {
    /// The moment the rest was computed for.
    pub moment: Moment,
    /// The status caption.
    pub status: String,
    /// The countdown label.
    pub label: String,
    pub fill: Rgba,
    pub stroke: Rgba,
}

/// Reads the current local moment and computes the status caption, the label and the two
/// colours of the countdown for it.
pub fn countdown_now(s: &TermSchedule) -> (r: CountdownText)
    ensures
        r.moment.wf(),
        r.status@ == today_caption(*s, r.moment),
        r.label@ == label_of(*s, r.moment),
        fill_of(*s, r.moment) == Ok::<Rgba, CountdownError>(r.fill),
        r.stroke == stroke_of(*s, r.moment),
{
    let m = current_moment();
    proof {
        lemma_fill_always_defined(*s, m);
    }
    let fill = match get_font_fill_colour(s, &m) {
        Ok(c) => c,
        Err(_) => Rgba { r: 0, g: 0, b: 0, a: 0 },
    };
    CountdownText {
        moment: m,
        status: generate_today_string(s, &m),
        label: get_countdown_str(s, &m),
        fill,
        stroke: get_font_stroke_colour(s, &m),
    }
}

} // verus!
