use random_background::colour::Rgba;
use random_background::countdown::{
    countdown_now, countdown_phase, generate_today_string, get_countdown_str, get_font_fill_colour,
    get_font_stroke_colour, hours_left, schedule_from_config, schedule_from_resolved, schedule_is_ordered, ConfigCountdown,
    CountdownPhase, ScheduleError, ScheduleField, TermSchedule,
};
use random_background::dates::{ConfigDate, ConfigDateTime, ConfigTime, DateError, LocalResolution, Moment};

const GREEN: Rgba = Rgba { r: 0, g: 255, b: 0, a: 255 };
const WHITE: Rgba = Rgba { r: 255, g: 255, b: 255, a: 255 };
const RED: Rgba = Rgba { r: 255, g: 0, b: 0, a: 255 };
const SHADOW: Rgba = Rgba { r: 0, g: 0, b: 0, a: 127 };

fn schedule(term_start: i32, term_last_lecture: i32, first_paper: i32, end_day: i32) -> TermSchedule {
    TermSchedule {
        term_start,
        term_last_lecture,
        first_paper,
        last_paper_end_day: end_day,
        last_paper_end: end_day as i64 * 86400 + 12 * 3600,
    }
}

fn at(today: i32, timestamp: i64) -> Moment {
    Moment { today, timestamp, weekday: 0, day: 1, month: 1 }
}

fn morning(today: i32) -> Moment {
    at(today, today as i64 * 86400 + 9 * 3600)
}

#[test]
fn before_term_start_is_s_green_and_shadow() {
    let s = schedule(100, 110, 120, 125);
    let m = morning(99);
    assert_eq!(get_countdown_str(&s, &m), "S");
    assert_eq!(get_font_fill_colour(&s, &m), Ok(GREEN));
    assert_eq!(get_font_stroke_colour(&s, &m), SHADOW);
    assert_eq!(countdown_phase(&s, &m), CountdownPhase::BeforeTerm);
}

#[test]
fn three_days_before_first_paper_mid_term() {
    let s = schedule(100, 118, 120, 125);
    let m = morning(117);
    assert_eq!(get_countdown_str(&s, &m), "3");
    assert_eq!(countdown_phase(&s, &m), CountdownPhase::PreExamCountdown { days_remaining: 3 });
}

#[test]
fn first_examination_day_is_d1_white_red() {
    let s = schedule(100, 110, 120, 125);
    let m = morning(120);
    assert_eq!(get_countdown_str(&s, &m), "D1");
    assert_eq!(get_font_fill_colour(&s, &m), Ok(WHITE));
    assert_eq!(get_font_stroke_colour(&s, &m), RED);
    assert_eq!(countdown_phase(&s, &m), CountdownPhase::ExaminationDay { day_index: 1 });
}

#[test]
fn later_examination_day_counts_up() {
    let s = schedule(100, 110, 120, 125);
    assert_eq!(get_countdown_str(&s, &morning(123)), "D4");
}

#[test]
fn after_last_paper_is_e_green() {
    let s = schedule(100, 110, 120, 125);
    let m = at(125, s.last_paper_end);
    assert_eq!(get_countdown_str(&s, &m), "E");
    assert_eq!(get_font_fill_colour(&s, &m), Ok(GREEN));
    assert_eq!(get_font_stroke_colour(&s, &m), SHADOW);
    assert_eq!(countdown_phase(&s, &m), CountdownPhase::AfterExams);
    assert_eq!(get_countdown_str(&s, &at(125, s.last_paper_end - 1)), "D6");
}

#[test]
fn gradient_midpoint_first_half() {
    let s = schedule(0, 10, 20, 25);
    let m = morning(2);
    assert_eq!(get_font_fill_colour(&s, &m), Ok(Rgba { r: 255, g: 255, b: 153, a: 255 }));
    assert_eq!(get_font_stroke_colour(&s, &m), SHADOW);
}

#[test]
fn gradient_second_half_orange_to_red() {
    let s = schedule(0, 10, 20, 25);
    assert_eq!(get_font_fill_colour(&s, &morning(7)), Ok(Rgba { r: 255, g: 153, b: 0, a: 255 }));
    assert_eq!(get_font_fill_colour(&s, &morning(10)), Ok(Rgba { r: 255, g: 0, b: 0, a: 255 }));
    assert_eq!(get_font_fill_colour(&s, &morning(5)), Ok(Rgba { r: 255, g: 255, b: 0, a: 255 }));
}

#[test]
fn final_sprint_red_to_black_with_white_stroke() {
    let s = schedule(0, 10, 20, 25);
    let m = morning(15);
    assert_eq!(get_font_fill_colour(&s, &m), Ok(Rgba { r: 127, g: 0, b: 0, a: 255 }));
    assert_eq!(get_font_stroke_colour(&s, &m), WHITE);
}

#[test]
fn one_day_term_uses_unit_half_length() {
    let s = schedule(10, 10, 12, 13);
    assert_eq!(get_font_fill_colour(&s, &morning(10)), Ok(Rgba { r: 255, g: 0, b: 0, a: 255 }));
}

#[test]
fn hours_left_rounds_up() {
    let s = schedule(0, 10, 20, 25);
    assert_eq!(hours_left(&s, &at(25, s.last_paper_end - 3601)), 2);
    assert_eq!(hours_left(&s, &at(25, s.last_paper_end - 3600)), 1);
    assert_eq!(hours_left(&s, &at(25, s.last_paper_end)), 0);
    assert_eq!(hours_left(&s, &at(25, s.last_paper_end + 3601)), -1);
}

#[test]
fn today_caption_text() {
    let s = TermSchedule {
        term_start: 0,
        term_last_lecture: 1,
        first_paper: 2,
        last_paper_end_day: 3,
        last_paper_end: 5 * 3600 + 1,
    };
    let m = Moment { today: 0, timestamp: 0, weekday: 0, day: 3, month: 6 };
    assert_eq!(generate_today_string(&s, &m), "Calculated on Mon 3 Jun (<6h left)");
    let late = Moment { today: 0, timestamp: 5 * 3600 + 1 + 7200, weekday: 6, day: 28, month: 12 };
    assert_eq!(generate_today_string(&s, &late), "Calculated on Sun 28 Dec (<-2h left)");
}

fn date(year: u16, month: u8, day: u8) -> ConfigDateTime {
    ConfigDateTime { date: Some(ConfigDate { year, month, day }), time: None }
}

#[test]
fn schedule_order_is_checked() {
    assert!(schedule_is_ordered(&schedule(1, 2, 3, 3)));
    assert!(!schedule_is_ordered(&schedule(1, 4, 3, 5)));
    let c = ConfigCountdown {
        term_start: date(2024, 1, 10),
        term_last_lecture: date(2024, 3, 1),
        first_paper: date(2024, 2, 1),
        last_paper_end_time: date(2024, 4, 1),
    };
    assert_eq!(schedule_from_config(&c), Err(ScheduleError::OutOfOrder));
}

#[test]
fn schedule_field_errors_name_the_field() {
    let c = ConfigCountdown {
        term_start: date(2024, 1, 10),
        term_last_lecture: date(2024, 2, 30),
        first_paper: date(2024, 4, 1),
        last_paper_end_time: ConfigDateTime { date: None, time: None },
    };
    assert_eq!(
        schedule_from_config(&c),
        Err(ScheduleError::Date { field: ScheduleField::TermLastLecture, error: DateError::InvalidDate })
    );
    let c2 = ConfigCountdown { term_last_lecture: date(2024, 3, 1), ..c };
    assert_eq!(
        schedule_from_config(&c2),
        Err(ScheduleError::Date { field: ScheduleField::LastPaperEndTime, error: DateError::MissingDate })
    );
}

#[test]
fn schedule_from_config_in_order() {
    let c = ConfigCountdown {
        term_start: date(2024, 1, 1),
        term_last_lecture: date(2024, 3, 1),
        first_paper: date(2024, 4, 1),
        last_paper_end_time: ConfigDateTime {
            date: Some(ConfigDate { year: 2024, month: 4, day: 20 }),
            time: Some(ConfigTime { hour: 12, minute: 30, second: 0 }),
        },
    };
    match schedule_from_config(&c) {
        Ok(s) => {
            assert_eq!(s.term_start, 738886);
            assert_eq!(s.term_last_lecture, 738886 + 60);
            assert_eq!(s.first_paper, 738886 + 91);
            assert_eq!(s.last_paper_end_day, 738886 + 110);
        }
        Err(e) => assert!(matches!(
            e,
            ScheduleError::Date { error: DateError::NonexistentLocalTime, .. }
                | ScheduleError::Date { error: DateError::AmbiguousLocalTime, .. }
        )),
    }
}

#[test]
fn countdown_now_agrees_with_its_moment() {
    let s = schedule(738886, 738886 + 60, 738886 + 91, 738886 + 110);
    let t = countdown_now(&s);
    let m = t.moment;
    assert!(m.weekday < 7 && (1..=31).contains(&m.day) && (1..=12).contains(&m.month));
    assert!(m.today > 738886);
    assert_eq!(t.label, get_countdown_str(&s, &m));
    assert_eq!(t.status, generate_today_string(&s, &m));
    assert_eq!(Ok(t.fill), get_font_fill_colour(&s, &m));
    assert_eq!(t.stroke, get_font_stroke_colour(&s, &m));
}

fn ordered_config() -> ConfigCountdown {
    ConfigCountdown {
        term_start: date(2024, 1, 1),
        term_last_lecture: date(2024, 3, 1),
        first_paper: date(2024, 4, 1),
        last_paper_end_time: ConfigDateTime {
            date: Some(ConfigDate { year: 2024, month: 4, day: 20 }),
            time: Some(ConfigTime { hour: 12, minute: 30, second: 0 }),
        },
    }
}

#[test]
fn resolved_schedule_takes_the_end_instant() {
    let one = LocalResolution::Single { timestamp: 1 };
    let end = LocalResolution::Single { timestamp: 1_713_616_200 };
    assert_eq!(
        schedule_from_resolved(&ordered_config(), one, one, one, end),
        Ok(TermSchedule {
            term_start: 738886,
            term_last_lecture: 738886 + 60,
            first_paper: 738886 + 91,
            last_paper_end_day: 738886 + 110,
            last_paper_end: 1_713_616_200,
        })
    );
}

#[test]
fn resolved_schedule_errors_in_order() {
    let one = LocalResolution::Single { timestamp: 1 };
    let c = ordered_config();
    assert_eq!(
        schedule_from_resolved(&c, one, one, LocalResolution::Ambiguous, LocalResolution::Nonexistent),
        Err(ScheduleError::Date { field: ScheduleField::FirstPaper, error: DateError::AmbiguousLocalTime })
    );
    assert_eq!(
        schedule_from_resolved(&c, one, one, one, LocalResolution::Nonexistent),
        Err(ScheduleError::Date { field: ScheduleField::LastPaperEndTime, error: DateError::NonexistentLocalTime })
    );
    let bad = ConfigCountdown { last_paper_end_time: date(2024, 4, 31), ..c };
    assert_eq!(
        schedule_from_resolved(&bad, LocalResolution::Ambiguous, one, one, one),
        Err(ScheduleError::Date { field: ScheduleField::LastPaperEndTime, error: DateError::InvalidDate })
    );
    let unordered = ConfigCountdown { first_paper: date(2024, 2, 1), ..c };
    assert_eq!(schedule_from_resolved(&unordered, one, one, one, one), Err(ScheduleError::OutOfOrder));
}

#[test]
fn unparsable_first_paper_names_its_field() {
    let c = ConfigCountdown {
        first_paper: ConfigDateTime {
            date: Some(ConfigDate { year: 2024, month: 4, day: 1 }),
            time: Some(ConfigTime { hour: 9, minute: 61, second: 0 }),
        },
        ..ordered_config()
    };
    assert_eq!(
        schedule_from_config(&c),
        Err(ScheduleError::Date { field: ScheduleField::FirstPaper, error: DateError::InvalidTime })
    );
}
