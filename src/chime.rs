use vstd::prelude::*;
use crate::clock::TimeContext;
use crate::config::{Config, Style};
use crate::plain::{closing, hour_bell_sounds, opening, plain_events, plain_hour_events, simple_or_full};
use crate::score::{
    count_off, count_on, is_on_of, lemma_count_on_concat, lemma_count_on_none, lemma_count_on_voice,
    lemma_notes_paired_concat, lemma_notes_paired_counts, lemma_strike_events_paired,
    lemma_voice_events_paired, notes_paired, strike_events, Event, Score,
};
use crate::westminster::{
    chime_events, lemma_chime_events_no_hour_note, lemma_chime_events_paired, westminster,
    westminster_events, westminster_hour_events, WESTMINSTER_HOUR_NOTE,
};

verus! {

/// The events of the chime that `config` strikes at `time`, in its style.
pub open spec fn score_events(config: Config, time: TimeContext) -> Seq<Event> {
    if Style::spec_from_kind(config.striking.kind).spec_is_westminster() {
        westminster_events(config, time)
    } else {
        plain_events(config, time)
    }
}

/// In every chime each note-on is released by the note-off of its key right
/// after it, so that each key is pressed exactly as often as it is released and
/// every press comes before its release.
pub proof fn lemma_score_notes_paired(config: Config, time: TimeContext)
    ensures
        notes_paired(score_events(config, time)),
        forall|key: u8| #[trigger] count_on(score_events(config, time), key)
            == count_off(score_events(config, time), key),
{
    let c = config;
    let rest = c.striking.rest;
    assert(notes_paired(opening(c)));
    assert(notes_paired(closing(c)));
    assert(notes_paired(Seq::<Event>::empty()));
    if Style::spec_from_kind(c.striking.kind).spec_is_westminster() {
        let q = chime_events(c.quarter.delta, rest, c.quarter.velocity, time.quarter_count as nat);
        lemma_chime_events_paired(c.quarter.delta, rest, c.quarter.velocity, time.quarter_count as nat);
        lemma_voice_events_paired(c.hour.program, WESTMINSTER_HOUR_NOTE, c.hour.velocity, c.hour.delta, rest, time.hour_count as nat);
        let h = westminster_hour_events(c, time);
        lemma_notes_paired_concat(opening(c), q);
        lemma_notes_paired_concat(opening(c) + q, h);
        lemma_notes_paired_concat(opening(c) + q + h, closing(c));
    } else {
        let q = strike_events(c.quarter.note, c.quarter.velocity, c.quarter.delta, rest, time.quarter_count as nat);
        lemma_strike_events_paired(c.quarter.note, c.quarter.velocity, c.quarter.delta, rest, time.quarter_count as nat);
        lemma_voice_events_paired(c.hour.program, c.hour.note, c.hour.velocity, c.hour.delta, rest, time.hour_count as nat);
        let h = plain_hour_events(c, time);
        lemma_notes_paired_concat(opening(c), q);
        lemma_notes_paired_concat(opening(c) + q, h);
        lemma_notes_paired_concat(opening(c) + q + h, closing(c));
    }
    assert forall|key: u8| #[trigger] count_on(score_events(config, time), key)
        == count_off(score_events(config, time), key) by {
        lemma_notes_paired_counts(score_events(config, time), key);
    }
}

/// A Westminster chime whose style strikes the hour always sounds the hour
/// bell exactly `hour_count` times, whatever the quarter.
pub proof fn lemma_westminster_hour_always(config: Config, time: TimeContext)
    requires
        time.wf(),
        config.striking.kind >= 3,
    ensures
        count_on(score_events(config, time), WESTMINSTER_HOUR_NOTE) == time.hour_count,
        count_off(score_events(config, time), WESTMINSTER_HOUR_NOTE) == time.hour_count,
{
    let c = config;
    let rest = c.striking.rest;
    let q = chime_events(c.quarter.delta, rest, c.quarter.velocity, time.quarter_count as nat);
    let h = westminster_hour_events(c, time);
    lemma_chime_events_no_hour_note(c.quarter.delta, rest, c.quarter.velocity, time.quarter_count as nat);
    lemma_count_on_voice(c.hour.program, WESTMINSTER_HOUR_NOTE, c.hour.velocity, c.hour.delta, rest, time.hour_count as nat);
    lemma_count_on_concat(opening(c), q, WESTMINSTER_HOUR_NOTE);
    lemma_count_on_concat(opening(c) + q, h, WESTMINSTER_HOUR_NOTE);
    lemma_count_on_concat(opening(c) + q + h, closing(c), WESTMINSTER_HOUR_NOTE);
    reveal_with_fuel(count_on, 3);
    lemma_score_notes_paired(config, time);
}

/// A plain or full chime whose hour bell sounds strikes it exactly `hour_count`
/// times, where the hour bell's pitch differs from the quarter bell's; where
/// the hour bell does not sound, it strikes it never and does not switch to its
/// instrument.
pub proof fn lemma_plain_hour_strikes(config: Config, time: TimeContext)
    requires
        time.wf(),
        config.striking.kind <= 1,
        config.quarter.note != config.hour.note,
    ensures
        count_on(score_events(config, time), config.hour.note)
            == if hour_bell_sounds(config.striking.kind, time) { time.hour_count as nat } else { 0 },
        !hour_bell_sounds(config.striking.kind, time) ==> score_events(config, time)
            == opening(config) + strike_events(
                config.quarter.note,
                config.quarter.velocity,
                config.quarter.delta,
                config.striking.rest,
                time.quarter_count as nat,
            ) + closing(config),
{
    let c = config;
    let rest = c.striking.rest;
    let key = c.hour.note;
    let q = strike_events(c.quarter.note, c.quarter.velocity, c.quarter.delta, rest, time.quarter_count as nat);
    let h = plain_hour_events(c, time);
    assert forall|i: int| 0 <= i < q.len() implies !is_on_of(#[trigger] q[i], key) by {}
    lemma_count_on_none(q, key);
    lemma_count_on_voice(c.hour.program, key, c.hour.velocity, c.hour.delta, rest, time.hour_count as nat);
    lemma_count_on_concat(opening(c), q, key);
    lemma_count_on_concat(opening(c) + q, h, key);
    lemma_count_on_concat(opening(c) + q + h, closing(c), key);
    reveal_with_fuel(count_on, 3);
    if !hour_bell_sounds(c.striking.kind, time) {
        assert(opening(c) + q + h =~= opening(c) + q);
    }
}

/// Builds the chime that `config` strikes at `time`; `None` where a value it
/// would emit does not fit its MIDI field.
pub fn build_score(config: &Config, time: TimeContext) -> (r: Option<Score>)
    requires
        time.wf(),
    ensures
        r.is_some() <==> config.spec_fits_midi(),
        r matches Some(s) ==> s.events@ == score_events(*config, time) && s.wf(),
{
    if !config.fits_midi() {
        return None;
    }
    let mut events: Vec<Event> = Vec::new();
    let duration = if Style::from_kind(config.striking.kind).is_westminster() {
        westminster(&mut events, config, time)
    } else {
        simple_or_full(&mut events, config, time)
    };
    assert(events@ =~= score_events(*config, time));
    Some(Score { events, duration })
}

} // verus!
