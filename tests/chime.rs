use chrono::Timelike;
use hodiny::chime::build_score;
use hodiny::clock::TimeContext;
use hodiny::config::{Config, Strike, Striking, Style, Tempo};
use hodiny::score::{Event, EventKind, Score};
use hodiny::westminster::{change_pitch, quarter_change, WESTMINSTER_HOUR_NOTE};

fn config(kind: u8) -> Config {
    Config {
        tempo: Tempo { ticks_per_beat: 480, microseconds_per_beat: 500_000 },
        striking: Striking { kind, rest: 50, soundfont: "bells.sf2".to_string() },
        quarter: Strike { program: 14, note: 72, delta: 100, velocity: 90 },
        hour: Strike { program: 15, note: 48, delta: 200, velocity: 110 },
    }
}

fn score_at(kind: u8, hour: u32, minute: u32) -> Score {
    build_score(&config(kind), TimeContext::resolve(hour, minute)).expect("tick lengths fit")
}

fn note_ons(score: &Score) -> Vec<u8> {
    score
        .events
        .iter()
        .filter_map(|e| match e.kind {
            EventKind::NoteOn { key, .. } => Some(key),
            _ => None,
        })
        .collect()
}

fn sum_of_deltas(score: &Score) -> u64 {
    score.events.iter().map(|e| e.delta as u64).sum()
}

fn assert_paired(score: &Score) {
    let ev = &score.events;
    for (i, e) in ev.iter().enumerate() {
        match e.kind {
            EventKind::NoteOn { key, .. } => match ev[i + 1].kind {
                EventKind::NoteOff { key: k, .. } => assert_eq!(k, key),
                other => panic!("note-on of {} followed by {:?}", key, other),
            },
            EventKind::NoteOff { key, .. } => match ev[i - 1].kind {
                EventKind::NoteOn { key: k, .. } => assert_eq!(k, key),
                other => panic!("note-off of {} preceded by {:?}", key, other),
            },
            _ => {}
        }
    }
    for key in 0..=127u8 {
        let on = ev.iter().filter(|e| matches!(e.kind, EventKind::NoteOn { key: k, .. } if k == key)).count();
        let off = ev.iter().filter(|e| matches!(e.kind, EventKind::NoteOff { key: k, .. } if k == key)).count();
        assert_eq!(on, off);
    }
}

#[test]
fn hour_count_on_twelve_hour_dial() {
    assert_eq!(TimeContext::resolve(0, 0).hour_count, 12);
    assert_eq!(TimeContext::resolve(12, 30).hour_count, 12);
    assert_eq!(TimeContext::resolve(1, 0).hour_count, 1);
    assert_eq!(TimeContext::resolve(13, 0).hour_count, 1);
    assert_eq!(TimeContext::resolve(23, 59).hour_count, 11);
    for h in 0..24u32 {
        let c = TimeContext::resolve(h, 0).hour_count;
        assert!((1..=12).contains(&c));
        assert_eq!(c == 12, h % 12 == 0);
    }
}

#[test]
fn quarter_count_by_minute() {
    assert_eq!(TimeContext::resolve(5, 0).quarter_count, 4);
    assert_eq!(TimeContext::resolve(5, 14).quarter_count, 4);
    assert_eq!(TimeContext::resolve(5, 15).quarter_count, 1);
    assert_eq!(TimeContext::resolve(5, 30).quarter_count, 2);
    assert_eq!(TimeContext::resolve(5, 45).quarter_count, 3);
    assert_eq!(TimeContext::resolve(5, 59).quarter_count, 3);
    for m in 0..60u32 {
        let t = TimeContext::resolve(5, m);
        assert!((1..=4).contains(&t.quarter_count));
        assert_eq!(t.quarter_count == 4, m < 15);
        assert_eq!(t.on_the_hour(), m < 15);
    }
}

#[test]
fn style_from_kind() {
    assert_eq!(Style::from_kind(0), Style::PlainHourGated);
    assert_eq!(Style::from_kind(1), Style::PlainHourAlways);
    assert_eq!(Style::from_kind(2), Style::WestminsterHourGated);
    assert_eq!(Style::from_kind(3), Style::WestminsterHourAlways);
    assert_eq!(Style::from_kind(200), Style::WestminsterHourAlways);
    assert!(!Style::from_kind(1).is_westminster());
    assert!(Style::from_kind(2).is_westminster());
    assert!(Style::from_kind(3).hour_always());
    assert!(!Style::from_kind(2).hour_always());
}

#[test]
fn plain_on_the_hour_strikes_quarters_then_hours() {
    let s = score_at(0, 3, 7);
    assert_eq!(note_ons(&s), vec![72, 72, 72, 72, 48, 48, 48]);
    let expected = vec![
        Event { delta: 0, kind: EventKind::Tempo(500_000) },
        Event { delta: 0, kind: EventKind::ProgramChange(14) },
        Event { delta: 0, kind: EventKind::NoteOn { key: 72, vel: 90 } },
        Event { delta: 100, kind: EventKind::NoteOff { key: 72, vel: 90 } },
        Event { delta: 0, kind: EventKind::NoteOn { key: 72, vel: 90 } },
        Event { delta: 100, kind: EventKind::NoteOff { key: 72, vel: 90 } },
        Event { delta: 0, kind: EventKind::NoteOn { key: 72, vel: 90 } },
        Event { delta: 100, kind: EventKind::NoteOff { key: 72, vel: 90 } },
        Event { delta: 0, kind: EventKind::NoteOn { key: 72, vel: 90 } },
        Event { delta: 150, kind: EventKind::NoteOff { key: 72, vel: 90 } },
        Event { delta: 0, kind: EventKind::ProgramChange(15) },
        Event { delta: 0, kind: EventKind::NoteOn { key: 48, vel: 110 } },
        Event { delta: 200, kind: EventKind::NoteOff { key: 48, vel: 110 } },
        Event { delta: 0, kind: EventKind::NoteOn { key: 48, vel: 110 } },
        Event { delta: 200, kind: EventKind::NoteOff { key: 48, vel: 110 } },
        Event { delta: 0, kind: EventKind::NoteOn { key: 48, vel: 110 } },
        Event { delta: 250, kind: EventKind::NoteOff { key: 48, vel: 110 } },
        Event { delta: 800, kind: EventKind::EndOfTrack },
    ];
    assert_eq!(s.events, expected);
    assert_eq!(s.duration, 4 * 100 + 50 + 3 * 200 + 50 + 800);
}

#[test]
fn plain_gated_off_the_hour_has_no_hour_bell() {
    let s = score_at(0, 3, 20);
    assert_eq!(note_ons(&s), vec![72]);
    assert!(!s.events.iter().any(|e| e.kind == EventKind::ProgramChange(15)));
    let expected = vec![
        Event { delta: 0, kind: EventKind::Tempo(500_000) },
        Event { delta: 0, kind: EventKind::ProgramChange(14) },
        Event { delta: 0, kind: EventKind::NoteOn { key: 72, vel: 90 } },
        Event { delta: 150, kind: EventKind::NoteOff { key: 72, vel: 90 } },
        Event { delta: 800, kind: EventKind::EndOfTrack },
    ];
    assert_eq!(s.events, expected);
    assert!(s.events.iter().all(|e| !matches!(e.kind, EventKind::NoteOn { key: 48, .. } | EventKind::NoteOff { key: 48, .. })));
    assert_eq!(s.duration, 150 + 800);
}

#[test]
fn plain_full_strikes_hour_every_quarter() {
    let s = score_at(1, 15, 20);
    assert_eq!(note_ons(&s), vec![72, 48, 48, 48]);
    assert_eq!(s.duration, 150 + 3 * 200 + 50 + 800);
}

#[test]
fn westminster_third_quarter_plays_three_changes() {
    let s = score_at(2, 3, 50);
    assert_eq!(note_ons(&s), vec![68, 64, 66, 59, 59, 66, 68, 64, 68, 66, 64, 59]);
    assert!(s.events.iter().all(|e| !matches!(e.kind, EventKind::NoteOn { key: 52, .. })));
    let offs: Vec<u32> = s
        .events
        .iter()
        .filter(|e| matches!(e.kind, EventKind::NoteOff { .. }))
        .map(|e| e.delta)
        .collect();
    assert_eq!(offs, vec![100, 100, 100, 200, 100, 100, 100, 200, 100, 100, 100, 250]);
    assert_eq!(s.duration, 3 * 500 + 50 + 800);
    assert_eq!(s.events.last().unwrap().kind, EventKind::EndOfTrack);
}

#[test]
fn westminster_on_the_hour_plays_four_changes_and_hour() {
    let s = score_at(2, 14, 0);
    let mut expected = vec![64, 68, 66, 59, 64, 66, 68, 64, 68, 64, 66, 59, 59, 66, 68, 64];
    expected.extend([52, 52]);
    assert_eq!(note_ons(&s), expected);
    let change = s.events.iter().position(|e| e.kind == EventKind::ProgramChange(15)).unwrap();
    let first_hour = s
        .events
        .iter()
        .position(|e| matches!(e.kind, EventKind::NoteOn { key: 52, .. }))
        .unwrap();
    assert_eq!(change + 1, first_hour);
    assert_eq!(s.events[first_hour - 2].kind, EventKind::NoteOff { key: 64, vel: 90 });
    assert_eq!(s.duration, 4 * 500 + 50 + 2 * 200 + 50 + 800);
}

#[test]
fn westminster_gated_off_the_hour_keeps_quarter_instrument() {
    let s = score_at(2, 12, 35);
    assert!(!s.events.iter().any(|e| e.kind == EventKind::ProgramChange(15)));
    assert_eq!(note_ons(&s), vec![64, 68, 66, 59, 64, 66, 68, 64]);
}

#[test]
fn westminster_hour_always_strikes_twelve() {
    for minute in [0u32, 5, 20, 35, 50] {
        let s = score_at(3, 12, minute);
        let hours = note_ons(&s).iter().filter(|&&k| k == WESTMINSTER_HOUR_NOTE).count();
        assert_eq!(hours, 12);
        let t = TimeContext::resolve(12, minute);
        assert_eq!(note_ons(&s).len(), 4 * t.quarter_count as usize + 12);
    }
}

#[test]
fn first_quarter_westminster() {
    let s = score_at(2, 9, 15);
    assert_eq!(note_ons(&s), vec![68, 66, 64, 59]);
}

#[test]
fn every_score_pairs_its_notes() {
    for kind in 0..5u8 {
        for hour in 0..24u32 {
            for minute in [0u32, 14, 15, 29, 30, 44, 45, 59] {
                assert_paired(&score_at(kind, hour, minute));
            }
        }
    }
}

#[test]
fn duration_is_the_sum_of_deltas() {
    for kind in 0..5u8 {
        for minute in [0u32, 20, 40, 50] {
            let s = score_at(kind, 7, minute);
            assert_eq!(s.duration, sum_of_deltas(&s));
            assert_eq!(s.recompute_duration(), s.duration);
        }
    }
}

#[test]
fn tick_lengths_that_overflow_are_refused() {
    let mut c = config(0);
    c.hour.delta = u32::MAX / 2;
    assert!(!c.fits_midi());
    assert!(build_score(&c, TimeContext::resolve(3, 0)).is_none());
    let mut c = config(2);
    c.quarter.delta = (1 << 27) - 1;
    c.striking.rest = 2;
    assert!(!c.fits_midi());
    assert!(build_score(&c, TimeContext::resolve(3, 30)).is_none());
    let mut c = config(0);
    c.quarter.delta = (1 << 27) - 1;
    c.striking.rest = 2;
    assert!(c.fits_midi());
    let mut c = config(1);
    c.hour.delta = 1 << 26;
    assert!(!c.fits_midi());
    assert!(config(2).fits_midi());
}

#[test]
fn values_wider_than_their_midi_field_are_refused() {
    let mut c = config(0);
    c.quarter.note = 128;
    assert!(!c.fits_midi());
    assert!(build_score(&c, TimeContext::resolve(3, 0)).is_none());
    let mut c = config(2);
    c.quarter.note = 200;
    c.hour.note = 200;
    assert!(c.fits_midi());
    let mut c = config(1);
    c.hour.velocity = 128;
    assert!(!c.fits_midi());
    let mut c = config(3);
    c.hour.program = 128;
    assert!(!c.fits_midi());
    let mut c = config(3);
    c.quarter.program = 255;
    assert!(!c.fits_midi());
    let mut c = config(0);
    c.tempo.microseconds_per_beat = 1 << 24;
    assert!(!c.fits_midi());
    c.tempo.microseconds_per_beat = (1 << 24) - 1;
    assert!(c.fits_midi());
}

#[test]
fn largest_lengths_that_fit() {
    let mut c = config(3);
    c.hour.delta = ((1 << 28) - 1) / 4;
    c.quarter.delta = ((1 << 28) - 1 - 10) / 2;
    c.striking.rest = 10;
    assert!(c.fits_midi());
    let s = build_score(&c, TimeContext::resolve(12, 0)).unwrap();
    assert_eq!(s.duration, sum_of_deltas(&s));
}

#[test]
fn chime_for_the_current_time() {
    let now = chrono::Local::now();
    let time = TimeContext::resolve(now.hour(), now.minute());
    let s = build_score(&config(3), time).unwrap();
    assert_eq!(s.duration, sum_of_deltas(&s));
    assert_paired(&s);
    let hours = note_ons(&s).iter().filter(|&&k| k == WESTMINSTER_HOUR_NOTE).count();
    assert_eq!(hours, time.hour_count as usize);
    let mut c = config(3);
    c.hour.delta = u32::MAX;
    assert!(build_score(&c, time).is_none());
}

#[test]
fn westminster_tables() {
    assert_eq!(change_pitch(1, 0), 68);
    assert_eq!(change_pitch(3, 3), 64);
    assert_eq!(change_pitch(5, 0), 59);
    assert_eq!(quarter_change(3, 2), 1);
    assert_eq!(quarter_change(4, 0), 2);
}

#[test]
fn duration_in_microseconds() {
    let t = Tempo { ticks_per_beat: 480, microseconds_per_beat: 500_000 };
    assert_eq!(t.duration_micros(960), 1_000_000);
    assert_eq!(t.duration_micros(0), 0);
    assert_eq!(t.duration_micros(1), 1042);
    let t3 = Tempo { ticks_per_beat: 3, microseconds_per_beat: 1 };
    assert_eq!(t3.duration_micros(1), 0);
    assert_eq!(t3.duration_micros(2), 1);
    let big = Tempo { ticks_per_beat: 1, microseconds_per_beat: u32::MAX };
    assert_eq!(big.duration_micros(u64::MAX), u64::MAX);
}

#[test]
fn duration_scales_with_ticks_per_beat() {
    let base = Tempo { ticks_per_beat: 96, microseconds_per_beat: 600_000 };
    for k in [2u16, 3, 5, 10] {
        let scaled = Tempo { ticks_per_beat: 96 * k, microseconds_per_beat: 600_000 };
        for ticks in [0u64, 1, 95, 1234, 1_000_000] {
            assert_eq!(scaled.duration_micros(ticks * k as u64), base.duration_micros(ticks));
        }
    }
}
