use vstd::prelude::*;
use crate::clock::TimeContext;
use crate::config::{Config, Style};
use crate::plain::{closing, hour_bell_sounds, opening};
use crate::score::{
    count_on, is_off_of, is_on_of, lemma_count_on_none, lemma_sum_deltas_concat, lemma_sum_deltas_push, mark, note, note_event,
    notes_paired, sum_deltas, voice, voice_events, Event, EventKind,
};

verus! {

/// The hour bell of the Westminster chime, E3, whatever the configured hour
/// pitch.
pub const WESTMINSTER_HOUR_NOTE: u8 = 52;

/// The five changes of the Westminster Quarters, numbered from 1.
pub open spec fn change_pitches(change: int) -> Seq<u8> {
    if change == 1 {
        seq![68u8, 66u8, 64u8, 59u8]
    } else if change == 2 {
        seq![64u8, 68u8, 66u8, 59u8]
    } else if change == 3 {
        seq![64u8, 66u8, 68u8, 64u8]
    } else if change == 4 {
        seq![68u8, 64u8, 66u8, 59u8]
    } else {
        seq![59u8, 66u8, 68u8, 64u8]
    }
}

/// The changes played at each quarter: one at the first, all four at the hour.
pub open spec fn quarter_changes(quarter_count: int) -> Seq<int> {
    if quarter_count == 1 {
        seq![1int]
    } else if quarter_count == 2 {
        seq![2int, 3int]
    } else if quarter_count == 3 {
        seq![4int, 5int, 1int]
    } else {
        seq![2int, 3int, 4int, 5int]
    }
}

/// Event `i` of the quarter chime: note `i / 2` is position `(i / 2) % 4` of
/// change number `(i / 2) / 4`. Each change's last note rings twice as long,
/// and the very last one `rest` ticks more.
pub open spec fn chime_event(len: u32, rest: u32, vel: u8, quarter_count: nat, i: int) -> Event {
    let n = i / 2;
    let k = n / 4;
    let j = n % 4;
    let key = change_pitches(quarter_changes(quarter_count as int)[k])[j];
    if i % 2 == 0 {
        note_event(key, vel, 0, true)
    } else if j == 3 && k == quarter_count - 1 {
        note_event(key, vel, (2 * len + rest) as u32, false)
    } else if j == 3 {
        note_event(key, vel, (2 * len) as u32, false)
    } else {
        note_event(key, vel, len, false)
    }
}

pub open spec fn chime_events(len: u32, rest: u32, vel: u8, quarter_count: nat) -> Seq<Event> {
    Seq::new(8 * quarter_count, |i: int| chime_event(len, rest, vel, quarter_count, i))
}

pub proof fn lemma_chime_events_paired(len: u32, rest: u32, vel: u8, quarter_count: nat)
    ensures
        notes_paired(chime_events(len, rest, vel, quarter_count)),
{
    let s = chime_events(len, rest, vel, quarter_count);
    assert forall|i: int, k: u8| 0 <= i < s.len() && #[trigger] is_on_of(s[i], k) implies i + 1 < s.len()
        && is_off_of(s[i + 1], k) by {
        assert(i % 2 == 0);
        assert((i + 1) / 2 == i / 2);
    }
    assert forall|i: int, k: u8| 0 <= i < s.len() && #[trigger] is_off_of(s[i], k) implies 1 <= i
        && is_on_of(s[i - 1], k) by {
        assert(i % 2 == 1);
        assert((i - 1) / 2 == i / 2);
    }
}

/// The quarter chime never sounds the Westminster hour bell's pitch.
pub proof fn lemma_chime_events_no_hour_note(len: u32, rest: u32, vel: u8, quarter_count: nat)
    requires
        1 <= quarter_count <= 4,
    ensures
        count_on(chime_events(len, rest, vel, quarter_count), WESTMINSTER_HOUR_NOTE) == 0,
{
    let s = chime_events(len, rest, vel, quarter_count);
    assert forall|i: int| 0 <= i < s.len() implies !is_on_of(#[trigger] s[i], WESTMINSTER_HOUR_NOTE) by {
        let k = (i / 2) / 4;
        let j = (i / 2) % 4;
        let change = quarter_changes(quarter_count as int)[k];
        assert(1 <= change <= 5);
        assert(change_pitches(change)[j] != WESTMINSTER_HOUR_NOTE);
    }
    lemma_count_on_none(s, WESTMINSTER_HOUR_NOTE);
}

/// The hour part of a Westminster chime, where the hour bell sounds: the switch
/// to the hour bell's instrument, then its strikes on the Westminster hour bell.
pub open spec fn westminster_hour_events(config: Config, time: TimeContext) -> Seq<Event> {
    if hour_bell_sounds(config.striking.kind, time) {
        voice_events(
            config.hour.program,
            WESTMINSTER_HOUR_NOTE,
            config.hour.velocity,
            config.hour.delta,
            config.striking.rest,
            time.hour_count as nat,
        )
    } else {
        Seq::empty()
    }
}

/// The events of a Westminster chime: the changes of the quarter, the hour
/// part where the hour bell sounds, and the tail.
pub open spec fn westminster_events(config: Config, time: TimeContext) -> Seq<Event> {
    opening(config)
        + chime_events(config.quarter.delta, config.striking.rest, config.quarter.velocity, time.quarter_count as nat)
        + westminster_hour_events(config, time)
        + closing(config)
}

/// Pitch at `position` of change number `change`.
pub fn change_pitch(change: usize, position: usize) -> (r: u8)
    requires
        1 <= change <= 5,
        position < 4,
    ensures
        r == change_pitches(change as int)[position as int],
{
    if change == 1 {
        if position == 0 { 68 } else if position == 1 { 66 } else if position == 2 { 64 } else { 59 }
    } else if change == 2 {
        if position == 0 { 64 } else if position == 1 { 68 } else if position == 2 { 66 } else { 59 }
    } else if change == 3 {
        if position == 0 { 64 } else if position == 1 { 66 } else if position == 2 { 68 } else { 64 }
    } else if change == 4 {
        if position == 0 { 68 } else if position == 1 { 64 } else if position == 2 { 66 } else { 59 }
    } else {
        if position == 0 { 59 } else if position == 1 { 66 } else if position == 2 { 68 } else { 64 }
    }
}

/// Number of the change played `index`-th at quarter `quarter_count`.
pub fn quarter_change(quarter_count: u8, index: u8) -> (r: usize)
    requires
        1 <= quarter_count <= 4,
        index < quarter_count,
    ensures
        r == quarter_changes(quarter_count as int)[index as int],
        1 <= r <= 5,
{
    if quarter_count == 1 {
        1
    } else if quarter_count == 2 {
        if index == 0 { 2 } else { 3 }
    } else if quarter_count == 3 {
        if index == 0 { 4 } else if index == 1 { 5 } else { 1 }
    } else {
        if index == 0 { 2 } else if index == 1 { 3 } else if index == 2 { 4 } else { 5 }
    }
}

/// Appends the changes of quarter `quarter_count` and returns the ticks they add.
pub fn chime(track: &mut Vec<Event>, len: u32, rest: u32, vel: u8, quarter_count: u8) -> (r: u64)
    requires
        1 <= quarter_count <= 4,
        2 * len + rest <= u32::MAX,
    ensures
        final(track)@ == old(track)@ + chime_events(len, rest, vel, quarter_count as nat),
        r == sum_deltas(chime_events(len, rest, vel, quarter_count as nat)),
        r <= 16 * 0xffff_ffffu64,
{
    let ghost base = track@;
    let ghost qc = quarter_count as nat;
    let total: u8 = 4 * quarter_count;
    let mut duration: u64 = 0;
    let mut n: u8 = 0;
    while n < total
        invariant
            1 <= quarter_count <= 4,
            qc == quarter_count,
            total == 4 * quarter_count,
            n <= total,
            2 * len + rest <= u32::MAX,
            track@ == base + Seq::new(2 * n as nat, |i: int| chime_event(len, rest, vel, qc, i)),
            duration == sum_deltas(Seq::new(2 * n as nat, |i: int| chime_event(len, rest, vel, qc, i))),
            duration <= n * 0xffff_ffff,
        decreases total - n,
    {
        let ghost before = Seq::new(2 * n as nat, |i: int| chime_event(len, rest, vel, qc, i));
        let k = n / 4;
        let j = n % 4;
        let change = quarter_change(quarter_count, k);
        let key = change_pitch(change, j as usize);
        let delta = if j == 3 && k == quarter_count - 1 {
            2 * len + rest
        } else if j == 3 {
            2 * len
        } else {
            len
        };
        let d_on = note(track, key, vel, 0, true);
        let d_off = note(track, key, vel, delta, false);
        proof {
            let after = Seq::new(2 * (n + 1) as nat, |i: int| chime_event(len, rest, vel, qc, i));
            let on = note_event(key, vel, 0, true);
            let off = note_event(key, vel, delta, false);
            let i0 = 2 * n as int;
            assert(i0 / 2 == n as int && (i0 + 1) / 2 == n as int);
            assert(after[i0] == on);
            assert(after[i0 + 1] == off);
            assert(after =~= before.push(on).push(off));
            lemma_sum_deltas_push(before, on);
            lemma_sum_deltas_push(before.push(on), off);
            assert(track@ =~= base + after);
        }
        duration = duration + d_on + d_off;
        n = n + 1;
    }
    assert(track@ =~= base + chime_events(len, rest, vel, qc));
    duration
}

/// Appends a Westminster chime to `track` and returns the ticks it adds.
pub fn westminster(track: &mut Vec<Event>, config: &Config, time: TimeContext) -> (r: u64)
    requires
        time.wf(),
        Style::spec_from_kind(config.striking.kind).spec_is_westminster(),
        config.spec_fits_midi(),
    ensures
        final(track)@ == old(track)@ + westminster_events(*config, time),
        r == sum_deltas(westminster_events(*config, time)),
{
    let ghost base = track@;
    let rest = config.striking.rest;
    mark(track, EventKind::Tempo(config.tempo.microseconds_per_beat));
    mark(track, EventKind::ProgramChange(config.quarter.program));
    let ghost s1 = track@;
    let quarters = chime(track, config.quarter.delta, rest, config.quarter.velocity, time.quarter_count);
    let hour_delta = config.hour.delta;
    let mut hours: u64 = 0;
    if Style::from_kind(config.striking.kind).hour_always() || time.on_the_hour() {
        hours = voice(track, config.hour.program, WESTMINSTER_HOUR_NOTE, config.hour.velocity, hour_delta, rest, time.hour_count);
    }
    proof {
        let (hc, h) = (time.hour_count as int, hour_delta as int);
        assert(hc * h <= 12 * 0xffff_ffff) by (nonlinear_arith)
            requires 0 <= hc <= 12, 0 <= h <= 0xffff_ffff;
    }
    let extra = 4 * hour_delta;
    track.push(Event { delta: extra, kind: EventKind::EndOfTrack });
    proof {
        let c = *config;
        let q = chime_events(c.quarter.delta, rest, c.quarter.velocity, time.quarter_count as nat);
        let h = westminster_hour_events(c, time);
        assert(s1 =~= base + opening(c));
        assert(track@ =~= base + westminster_events(c, time));
        lemma_sum_deltas_concat(opening(c), q);
        lemma_sum_deltas_concat(opening(c) + q, h);
        lemma_sum_deltas_concat(opening(c) + q + h, closing(c));
        reveal_with_fuel(sum_deltas, 3);
        assert(hours == sum_deltas(h));
    }
    quarters + hours + extra as u64
}

} // verus!
