use vstd::prelude::*;
use crate::clock::TimeContext;
use crate::config::{Config, Style};
use crate::score::{lemma_sum_deltas_concat, mark, strike_events, strikes, sum_deltas, voice, voice_events, Event, EventKind};

verus! {

/// The hour bell sounds on the full hour, and at every quarter where the style
/// strikes it always.
pub open spec fn hour_bell_sounds(kind: u8, time: TimeContext) -> bool {
    Style::spec_from_kind(kind).spec_hour_always() || time.spec_on_the_hour()
}

/// The opening of every chime: the tempo, then the quarter bell's instrument.
pub open spec fn opening(config: Config) -> Seq<Event> {
    seq![
        Event { delta: 0, kind: EventKind::Tempo(config.tempo.microseconds_per_beat) },
        Event { delta: 0, kind: EventKind::ProgramChange(config.quarter.program) },
    ]
}

/// The close of every chime: four hour-note lengths of tail for the bells to
/// decay, then the end of the track.
pub open spec fn closing(config: Config) -> Seq<Event> {
    seq![Event { delta: (4 * config.hour.delta) as u32, kind: EventKind::EndOfTrack }]
}

/// The hour part of a plain or full chime, where the hour bell sounds: the
/// switch to the hour bell's instrument, then its strikes.
pub open spec fn plain_hour_events(config: Config, time: TimeContext) -> Seq<Event> {
    if hour_bell_sounds(config.striking.kind, time) {
        voice_events(
            config.hour.program,
            config.hour.note,
            config.hour.velocity,
            config.hour.delta,
            config.striking.rest,
            time.hour_count as nat,
        )
    } else {
        Seq::empty()
    }
}

/// The events of a plain or full chime: the quarter strikes, the hour part
/// where the hour bell sounds, and the tail.
pub open spec fn plain_events(config: Config, time: TimeContext) -> Seq<Event> {
    opening(config)
        + strike_events(config.quarter.note, config.quarter.velocity, config.quarter.delta, config.striking.rest, time.quarter_count as nat)
        + plain_hour_events(config, time)
        + closing(config)
}

/// Appends a plain or full chime to `track` and returns the ticks it adds.
pub fn simple_or_full(track: &mut Vec<Event>, config: &Config, time: TimeContext) -> (r: u64)
    requires
        time.wf(),
        !Style::spec_from_kind(config.striking.kind).spec_is_westminster(),
        config.spec_fits_midi(),
    ensures
        final(track)@ == old(track)@ + plain_events(*config, time),
        r == sum_deltas(plain_events(*config, time)),
{
    let ghost base = track@;
    let rest = config.striking.rest;
    mark(track, EventKind::Tempo(config.tempo.microseconds_per_beat));
    mark(track, EventKind::ProgramChange(config.quarter.program));
    let ghost s1 = track@;
    let quarters = strikes(track, config.quarter.note, config.quarter.velocity, config.quarter.delta, rest, time.quarter_count);
    let hour_delta = config.hour.delta;
    let mut hours: u64 = 0;
    if Style::from_kind(config.striking.kind).hour_always() || time.on_the_hour() {
        hours = voice(track, config.hour.program, config.hour.note, config.hour.velocity, hour_delta, rest, time.hour_count);
    }
    proof {
        let (qc, q, hc, h) = (time.quarter_count as int, config.quarter.delta as int, time.hour_count as int, hour_delta as int);
        assert(qc * q <= 12 * 0xffff_ffff) by (nonlinear_arith)
            requires 0 <= qc <= 12, 0 <= q <= 0xffff_ffff;
        assert(hc * h <= 12 * 0xffff_ffff) by (nonlinear_arith)
            requires 0 <= hc <= 12, 0 <= h <= 0xffff_ffff;
    }
    let extra = 4 * hour_delta;
    track.push(Event { delta: extra, kind: EventKind::EndOfTrack });
    proof {
        let c = *config;
        let q = strike_events(c.quarter.note, c.quarter.velocity, c.quarter.delta, rest, time.quarter_count as nat);
        let h = plain_hour_events(c, time);
        assert(s1 =~= base + opening(c));
        assert(track@ =~= base + plain_events(c, time));
        lemma_sum_deltas_concat(opening(c), q);
        lemma_sum_deltas_concat(opening(c) + q, h);
        lemma_sum_deltas_concat(opening(c) + q + h, closing(c));
        reveal_with_fuel(sum_deltas, 3);
        assert(hours == sum_deltas(h));
    }
    quarters + hours + extra as u64
}

} // verus!
