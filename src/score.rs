use vstd::prelude::*;

verus! {

/// What happens at one point of a track.
#[derive(Clone, Copy, Debug, PartialEq, Eq, Structural)]
pub enum EventKind {
    /// Sets the tempo, in microseconds per beat.
    Tempo(u32),
    /// Selects the instrument for the notes that follow.
    ProgramChange(u8),
    NoteOn { key: u8, vel: u8 },
    NoteOff { key: u8, vel: u8 },
    EndOfTrack,
}

/// An event with its distance in ticks from the event before it.
#[derive(Clone, Copy, Debug, PartialEq, Eq, Structural)]
pub struct Event {
    pub delta: u32,
    pub kind: EventKind,
}

/// A finished chime: its events in order, and how many ticks they take.
pub struct Score {
    pub events: Vec<Event>,
    pub duration: u64,
}

impl Score {
    /// The duration is the sum of the tick deltas of the events.
    pub open spec fn wf(&self) -> bool {
        self.duration == sum_deltas(self.events@)
    }

    /// Adds up the tick deltas of the events afresh.
    pub fn recompute_duration(&self) -> (r: u64)
        requires
            sum_deltas(self.events@) <= u64::MAX,
        ensures
            r == sum_deltas(self.events@),
    {
        let mut total: u64 = 0;
        let mut i: usize = 0;
        while i < self.events.len()
            invariant
                i <= self.events@.len(),
                sum_deltas(self.events@) <= u64::MAX,
                total == sum_deltas(self.events@.take(i as int)),
            decreases self.events@.len() - i,
        {
            proof {
                let s = self.events@;
                assert(s.take(i + 1) =~= s.take(i as int).push(s[i as int]));
                lemma_sum_deltas_push(s.take(i as int), s[i as int]);
                assert(s =~= s.take(i + 1) + s.skip(i + 1));
                lemma_sum_deltas_concat(s.take(i + 1), s.skip(i + 1));
            }
            total = total + self.events[i].delta as u64;
            i = i + 1;
        }
        assert(self.events@.take(i as int) =~= self.events@);
        total
    }
}

pub open spec fn note_event(key: u8, vel: u8, delta: u32, on: bool) -> Event {
    Event {
        delta,
        kind: if on {
            EventKind::NoteOn { key, vel }
        } else {
            EventKind::NoteOff { key, vel }
        },
    }
}

/// Sum of the tick deltas of a sequence of events.
pub open spec fn sum_deltas(s: Seq<Event>) -> nat
    decreases s.len(),
{
    if s.len() == 0 {
        0
    } else {
        (sum_deltas(s.drop_last()) + s.last().delta) as nat
    }
}

pub proof fn lemma_sum_deltas_push(s: Seq<Event>, e: Event)
    ensures
        sum_deltas(s.push(e)) == sum_deltas(s) + e.delta,
{
    assert(s.push(e).drop_last() =~= s);
}

pub proof fn lemma_sum_deltas_concat(a: Seq<Event>, b: Seq<Event>)
    ensures
        sum_deltas(a + b) == sum_deltas(a) + sum_deltas(b),
    decreases b.len(),
{
    if b.len() > 0 {
        lemma_sum_deltas_concat(a, b.drop_last());
        assert((a + b).drop_last() =~= a + b.drop_last());
    } else {
        assert(a + b =~= a);
    }
}

pub open spec fn is_on_of(e: Event, key: u8) -> bool {
    e.kind matches EventKind::NoteOn { key: k, .. } && k == key
}

pub open spec fn is_off_of(e: Event, key: u8) -> bool {
    e.kind matches EventKind::NoteOff { key: k, .. } && k == key
}

/// Every note-on is followed at once by the note-off of the same key, and every
/// note-off comes at once after the note-on of its key.
pub open spec fn notes_paired(s: Seq<Event>) -> bool {
    &&& forall|i: int, key: u8|
        0 <= i < s.len() && #[trigger] is_on_of(s[i], key) ==> i + 1 < s.len() && is_off_of(s[i + 1], key)
    &&& forall|i: int, key: u8|
        0 <= i < s.len() && #[trigger] is_off_of(s[i], key) ==> 1 <= i && is_on_of(s[i - 1], key)
}

/// Number of note-ons of `key`.
pub open spec fn count_on(s: Seq<Event>, key: u8) -> nat
    decreases s.len(),
{
    if s.len() == 0 {
        0
    } else {
        count_on(s.drop_last(), key) + if is_on_of(s.last(), key) { 1nat } else { 0nat }
    }
}

/// Number of note-offs of `key`.
pub open spec fn count_off(s: Seq<Event>, key: u8) -> nat
    decreases s.len(),
{
    if s.len() == 0 {
        0
    } else {
        count_off(s.drop_last(), key) + if is_off_of(s.last(), key) { 1nat } else { 0nat }
    }
}

/// Paired sequences join into a paired sequence.
pub proof fn lemma_notes_paired_concat(a: Seq<Event>, b: Seq<Event>)
    requires
        notes_paired(a),
        notes_paired(b),
    ensures
        notes_paired(a + b),
{
    let s = a + b;
    assert forall|i: int, key: u8| 0 <= i < s.len() && #[trigger] is_on_of(s[i], key) implies i + 1 < s.len()
        && is_off_of(s[i + 1], key) by {
        if i < a.len() {
            assert(is_on_of(a[i], key));
        } else {
            assert(is_on_of(b[i - a.len()], key));
        }
    }
    assert forall|i: int, key: u8| 0 <= i < s.len() && #[trigger] is_off_of(s[i], key) implies 1 <= i
        && is_on_of(s[i - 1], key) by {
        if i < a.len() {
            assert(is_off_of(a[i], key));
        } else {
            assert(is_off_of(b[i - a.len()], key));
        }
    }
}

proof fn lemma_counts_prefix(s: Seq<Event>, key: u8, n: int)
    requires
        notes_paired(s),
        0 <= n <= s.len(),
    ensures
        count_on(s.take(n), key) == count_off(s.take(n), key) + if n > 0 && is_on_of(s[n - 1], key) { 1int } else { 0int },
    decreases n,
{
    if n > 0 {
        lemma_counts_prefix(s, key, n - 1);
        assert(s.take(n).drop_last() =~= s.take(n - 1));
        let e = s[n - 1];
        if n >= 2 {
            let p = s[n - 2];
            if p.kind is NoteOn {
                let k = p.kind->NoteOn_key;
                assert(is_on_of(p, k));
                assert(is_off_of(e, k));
            }
        }
        if e.kind is NoteOff {
            let k = e.kind->NoteOff_key;
            assert(is_off_of(e, k));
            assert(is_on_of(s[n - 2], k));
        }
        if e.kind is NoteOn {
            let k = e.kind->NoteOn_key;
            assert(is_on_of(e, k));
        }
    }
}

/// In a paired sequence each key is pressed as often as it is released.
pub proof fn lemma_notes_paired_counts(s: Seq<Event>, key: u8)
    requires
        notes_paired(s),
    ensures
        count_on(s, key) == count_off(s, key),
{
    lemma_counts_prefix(s, key, s.len() as int);
    assert(s.take(s.len() as int) =~= s);
    if s.len() > 0 && is_on_of(s[s.len() - 1], key) {
        assert(false);
    }
}

pub proof fn lemma_count_on_concat(a: Seq<Event>, b: Seq<Event>, key: u8)
    ensures
        count_on(a + b, key) == count_on(a, key) + count_on(b, key),
    decreases b.len(),
{
    if b.len() > 0 {
        lemma_count_on_concat(a, b.drop_last(), key);
        assert((a + b).drop_last() =~= a + b.drop_last());
    } else {
        assert(a + b =~= a);
    }
}

/// A sequence without a note-on of `key` counts none.
pub proof fn lemma_count_on_none(s: Seq<Event>, key: u8)
    requires
        forall|i: int| 0 <= i < s.len() ==> !is_on_of(#[trigger] s[i], key),
    ensures
        count_on(s, key) == 0,
    decreases s.len(),
{
    if s.len() > 0 {
        lemma_count_on_none(s.drop_last(), key);
    }
}

/// `count` strikes press their key `count` times.
pub proof fn lemma_count_on_strikes(key: u8, vel: u8, len: u32, rest: u32, count: nat)
    ensures
        count_on(strike_events(key, vel, len, rest, count), key) == count,
{
    let s = strike_events(key, vel, len, rest, count);
    assert forall|n: int| 0 <= n <= s.len() implies #[trigger] count_on(s.take(n), key) == (n + 1) / 2 by {
        lemma_count_on_strikes_prefix(key, vel, len, rest, count, n);
    }
    assert(s.take(s.len() as int) =~= s);
}

proof fn lemma_count_on_strikes_prefix(key: u8, vel: u8, len: u32, rest: u32, count: nat, n: int)
    requires
        0 <= n <= 2 * count,
    ensures
        count_on(strike_events(key, vel, len, rest, count).take(n), key) == (n + 1) / 2,
    decreases n,
{
    let s = strike_events(key, vel, len, rest, count);
    if n > 0 {
        lemma_count_on_strikes_prefix(key, vel, len, rest, count, n - 1);
        assert(s.take(n).drop_last() =~= s.take(n - 1));
    }
}

/// Number of note-ons of `key` in the strikes of a voice: `count`.
pub proof fn lemma_count_on_voice(program: u8, key: u8, vel: u8, len: u32, rest: u32, count: nat)
    ensures
        count_on(voice_events(program, key, vel, len, rest, count), key) == count,
{
    let p = seq![Event { delta: 0, kind: EventKind::ProgramChange(program) }];
    lemma_count_on_strikes(key, vel, len, rest, count);
    lemma_count_on_concat(p, strike_events(key, vel, len, rest, count), key);
    reveal_with_fuel(count_on, 2);
}

pub proof fn lemma_voice_events_paired(program: u8, key: u8, vel: u8, len: u32, rest: u32, count: nat)
    ensures
        notes_paired(voice_events(program, key, vel, len, rest, count)),
{
    let p = seq![Event { delta: 0, kind: EventKind::ProgramChange(program) }];
    assert(notes_paired(p));
    lemma_strike_events_paired(key, vel, len, rest, count);
    lemma_notes_paired_concat(p, strike_events(key, vel, len, rest, count));
}

pub proof fn lemma_strike_events_paired(key: u8, vel: u8, len: u32, rest: u32, count: nat)
    ensures
        notes_paired(strike_events(key, vel, len, rest, count)),
{
    let s = strike_events(key, vel, len, rest, count);
    assert forall|i: int, k: u8| 0 <= i < s.len() && #[trigger] is_on_of(s[i], k) implies i + 1 < s.len()
        && is_off_of(s[i + 1], k) by {
        assert(i % 2 == 0);
    }
    assert forall|i: int, k: u8| 0 <= i < s.len() && #[trigger] is_off_of(s[i], k) implies 1 <= i
        && is_on_of(s[i - 1], k) by {
        assert(i % 2 == 1);
    }
}

/// Event `i` of `count` strikes of one bell: each strike is a note-on followed
/// by its note-off `len` ticks later; the last note-off waits `rest` ticks more.
pub open spec fn strike_event(key: u8, vel: u8, len: u32, rest: u32, count: nat, i: int) -> Event {
    if i % 2 == 0 {
        note_event(key, vel, 0, true)
    } else if i == 2 * count - 1 {
        note_event(key, vel, (len + rest) as u32, false)
    } else {
        note_event(key, vel, len, false)
    }
}

pub open spec fn strike_events(key: u8, vel: u8, len: u32, rest: u32, count: nat) -> Seq<Event> {
    Seq::new(2 * count, |i: int| strike_event(key, vel, len, rest, count, i))
}

/// A voice entering: the switch to its instrument, then its strikes.
pub open spec fn voice_events(program: u8, key: u8, vel: u8, len: u32, rest: u32, count: nat) -> Seq<Event> {
    seq![Event { delta: 0, kind: EventKind::ProgramChange(program) }] + strike_events(key, vel, len, rest, count)
}

/// Appends one note-on or note-off to `track` and returns the ticks it adds.
pub fn note(track: &mut Vec<Event>, key: u8, vel: u8, delta: u32, on_not_off: bool) -> (r: u64)
    ensures
        final(track)@ == old(track)@.push(note_event(key, vel, delta, on_not_off)),
        r == delta,
{
    let kind = if on_not_off {
        EventKind::NoteOn { key, vel }
    } else {
        EventKind::NoteOff { key, vel }
    };
    track.push(Event { delta, kind });
    delta as u64
}

/// Appends a zero-delta event of the given kind.
pub fn mark(track: &mut Vec<Event>, kind: EventKind)
    ensures
        final(track)@ == old(track)@.push(Event { delta: 0, kind }),
{
    track.push(Event { delta: 0, kind });
}

/// Appends `count` strikes of one bell and returns the ticks they add.
pub fn strikes(track: &mut Vec<Event>, key: u8, vel: u8, len: u32, rest: u32, count: u8) -> (r: u64)
    requires
        1 <= count <= 12,
        len + rest <= u32::MAX,
    ensures
        final(track)@ == old(track)@ + strike_events(key, vel, len, rest, count as nat),
        r == sum_deltas(strike_events(key, vel, len, rest, count as nat)),
        r == count * len + rest,
{
    let ghost base = track@;
    let mut duration: u64 = 0;
    let mut s: u8 = 0;
    while s < count
        invariant
            s <= count <= 12,
            len + rest <= u32::MAX,
            track@ == base + Seq::new(2 * s as nat, |i: int| strike_event(key, vel, len, rest, count as nat, i)),
            duration == sum_deltas(Seq::new(2 * s as nat, |i: int| strike_event(key, vel, len, rest, count as nat, i))),
            duration == s * len + if s == count { rest as int } else { 0 },
        decreases count - s,
    {
        let ghost before = Seq::new(2 * s as nat, |i: int| strike_event(key, vel, len, rest, count as nat, i));
        let delta = if s == count - 1 { len + rest } else { len };
        let d_on = note(track, key, vel, 0, true);
        let d_off = note(track, key, vel, delta, false);
        proof {
            let after = Seq::new(2 * (s + 1) as nat, |i: int| strike_event(key, vel, len, rest, count as nat, i));
            let on = note_event(key, vel, 0, true);
            let off = note_event(key, vel, delta, false);
            assert(after =~= before.push(on).push(off));
            lemma_sum_deltas_push(before, on);
            lemma_sum_deltas_push(before.push(on), off);
            assert(track@ =~= base + after);
            assert((s + 1) * len == s * len + len) by (nonlinear_arith);
            assert(s * len <= 12 * 0xffff_ffff) by (nonlinear_arith)
                requires s <= 12, len <= 0xffff_ffff;
        }
        duration = duration + d_on + d_off;
        s = s + 1;
    }
    assert(track@ =~= base + strike_events(key, vel, len, rest, count as nat));
    duration
}

/// Appends the switch to instrument `program` and `count` strikes of one bell,
/// and returns the ticks they add.
pub fn voice(track: &mut Vec<Event>, program: u8, key: u8, vel: u8, len: u32, rest: u32, count: u8) -> (r: u64)
    requires
        1 <= count <= 12,
        len + rest <= u32::MAX,
    ensures
        final(track)@ == old(track)@ + voice_events(program, key, vel, len, rest, count as nat),
        r == sum_deltas(voice_events(program, key, vel, len, rest, count as nat)),
        r == count * len + rest,
{
    let ghost base = track@;
    mark(track, EventKind::ProgramChange(program));
    let r = strikes(track, key, vel, len, rest, count);
    proof {
        let p = seq![Event { delta: 0, kind: EventKind::ProgramChange(program) }];
        let q = strike_events(key, vel, len, rest, count as nat);
        assert(track@ =~= base + voice_events(program, key, vel, len, rest, count as nat));
        lemma_sum_deltas_concat(p, q);
        reveal_with_fuel(sum_deltas, 2);
    }
    r
}

} // verus!
