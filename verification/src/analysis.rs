//! Which notes are sounding at the audible frame, from the note echoes the
//! render thread reports for a node.
use vstd::prelude::*;
use std::collections::VecDeque;
use crate::search::{first_index, is_first, lemma_first_absent, lemma_first_found};

verus! {

/// The most note echoes that wait for their audible frame.
pub const PENDING_LIMIT: usize = 8192;

/// A note-on or note-off the render thread played at `frame`, during the
/// transport epoch `epoch`.
#[derive(Clone, Copy, Debug)]
pub struct NoteEcho {
    pub frame: u64,
    pub pitch: u8,
    pub on: bool,
    pub epoch: u64,
}

/// The note state of one node: the sounding pitches, one bit each, and the
/// echoes that have not yet become audible.
pub struct NodeAnalysis {
    pub dropped: u64,
    pub active: [u64; 2],
    pub epoch: u64,
    pub pending: VecDeque<NoteEcho>,
}

/// The bit of `pitch` in a pair of 64-bit words.
pub open spec fn bit_set(active: [u64; 2], pitch: int) -> bool {
    if pitch < 64 {
        (active[0] >> (pitch as u64)) & 1 == 1
    } else {
        (active[1] >> ((pitch - 64) as u64)) & 1 == 1
    }
}

/// The sounding pitches of a pair of words.
pub open spec fn sounding_set(active: [u64; 2]) -> Set<int> {
    Set::new(|pitch: int| 0 <= pitch < 128 && bit_set(active, pitch))
}

/// The sounding pitches after an echo.
pub open spec fn after_echo(sounding: Set<int>, echo: NoteEcho) -> Set<int> {
    if echo.on {
        sounding.insert(echo.pitch as int)
    } else {
        sounding.remove(echo.pitch as int)
    }
}

/// The sounding pitches after a run of echoes, in order.
pub open spec fn after_echoes(sounding: Set<int>, echoes: Seq<NoteEcho>) -> Set<int>
    decreases echoes.len(),
{
    if echoes.len() == 0 {
        sounding
    } else {
        after_echo(after_echoes(sounding, echoes.drop_last()), echoes.last())
    }
}

/// The echoes of the current epoch, in order, as many as fit after `held`
/// waiting ones.
pub open spec fn admitted(held: nat, echoes: Seq<NoteEcho>, epoch: u64) -> Seq<NoteEcho>
    decreases echoes.len(),
{
    if echoes.len() == 0 {
        Seq::empty()
    } else {
        let before = admitted(held, echoes.drop_last(), epoch);
        if echoes.last().epoch == epoch && held + before.len() < PENDING_LIMIT {
            before.push(echoes.last())
        } else {
            before
        }
    }
}

pub open spec fn is_late(audible: u64) -> spec_fn(NoteEcho) -> bool {
    |echo: NoteEcho| echo.frame > audible
}

/// How many waiting echoes, from the front, are audible at `audible`.
pub open spec fn due_count(waiting: Seq<NoteEcho>, audible: u64) -> int {
    match first_index(waiting, is_late(audible)) {
        Some(i) => i,
        None => waiting.len() as int,
    }
}

/// A new epoch (a seek) or lost echoes restart the note state; then the new
/// echoes of this epoch queue up, those audible by now take effect in order,
/// and nothing sounds while stopped.
pub open spec fn updated(model: NoteModel, echoes: Seq<NoteEcho>, dropped: u64, audible: u64, epoch: u64, playing: bool) -> NoteModel {
    let reset = epoch != model.epoch || dropped != model.dropped;
    let held = if reset { Seq::<NoteEcho>::empty() } else { model.waiting };
    let base = if reset { Set::<int>::empty() } else { model.sounding };
    let queued = held + admitted(held.len(), echoes, epoch);
    let due = due_count(queued, audible);
    NoteModel {
        dropped,
        epoch,
        waiting: queued.subrange(due, queued.len() as int),
        sounding: if playing { after_echoes(base, queued.take(due)) } else { Set::<int>::empty() },
    }
}

/// Every pitch is a MIDI pitch.
pub open spec fn midi_pitches(echoes: Seq<NoteEcho>) -> bool {
    forall|i: int| 0 <= i < echoes.len() ==> #[trigger] echoes[i].pitch < 128
}

/// The note state as values.
pub struct NoteModel {
    pub dropped: u64,
    pub sounding: Set<int>,
    pub epoch: u64,
    pub waiting: Seq<NoteEcho>,
}

impl View for NodeAnalysis {
    type V = NoteModel;

    open spec fn view(&self) -> NoteModel {
        NoteModel {
            dropped: self.dropped,
            sounding: sounding_set(self.active),
            epoch: self.epoch,
            waiting: self.pending@,
        }
    }
}

impl NodeAnalysis {
    /// Waiting echoes carry MIDI pitches and fit the limit.
    pub open spec fn wf(&self) -> bool {
        midi_pitches(self.pending@) && self.pending@.len() <= PENDING_LIMIT
    }

    pub fn new() -> (analysis: NodeAnalysis)
        ensures
            analysis.wf(),
            analysis@ == (NoteModel { dropped: 0, sounding: Set::empty(), epoch: 0, waiting: Seq::empty() }),
    {
        let analysis = NodeAnalysis { dropped: 0, active: [0, 0], epoch: 0, pending: VecDeque::new() };
        proof { lemma_silent(analysis.active); }
        analysis
    }

    pub fn sounding(&self, pitch: u8) -> (on: bool)
        requires
            pitch < 128,
        ensures
            on == self@.sounding.contains(pitch as int),
    {
        let word = self.active[(pitch / 64) as usize];
        let shift = (pitch % 64) as u64;
        let on = (word >> shift) & 1 == 1;
        proof {
            if pitch < 64 {
                assert(shift == pitch as u64);
            } else {
                assert(shift == (pitch - 64) as u64);
            }
        }
        on
    }
}

/// All bits clear: nothing sounds.
pub proof fn lemma_silent(active: [u64; 2])
    requires
        active[0] == 0,
        active[1] == 0,
    ensures
        sounding_set(active) == Set::<int>::empty(),
{
    assert forall|pitch: int| !sounding_set(active).contains(pitch) by {
        if 0 <= pitch < 64 {
            let s = pitch as u64;
            assert((0u64 >> s) & 1 == 0) by (bit_vector);
        } else if 64 <= pitch < 128 {
            let s = (pitch - 64) as u64;
            assert((0u64 >> s) & 1 == 0) by (bit_vector);
        }
    }
    assert(sounding_set(active) =~= Set::<int>::empty());
}

/// Setting bit `k` changes only bit `k`, which becomes one.
pub proof fn lemma_bit_set(w: u64, k: u64)
    requires
        k < 64,
    ensures
        forall|j: u64| #![trigger ((w | (1u64 << k)) >> j)] j < 64 ==>
            (((w | (1u64 << k)) >> j) & 1 == 1) == (j == k || (w >> j) & 1 == 1),
{
    assert(forall|j: u64| #![trigger ((w | (1u64 << k)) >> j)] j < 64 ==>
        (((w | (1u64 << k)) >> j) & 1 == 1) == (j == k || (w >> j) & 1 == 1)) by (bit_vector)
        requires k < 64;
}

/// Clearing bit `k` changes only bit `k`, which becomes zero.
pub proof fn lemma_bit_clear(w: u64, k: u64)
    requires
        k < 64,
    ensures
        forall|j: u64| #![trigger ((w & !(1u64 << k)) >> j)] j < 64 ==>
            (((w & !(1u64 << k)) >> j) & 1 == 1) == (j != k && (w >> j) & 1 == 1),
{
    assert(forall|j: u64| #![trigger ((w & !(1u64 << k)) >> j)] j < 64 ==>
        (((w & !(1u64 << k)) >> j) & 1 == 1) == (j != k && (w >> j) & 1 == 1)) by (bit_vector)
        requires k < 64;
}

impl NodeAnalysis {
    fn apply_echo(&mut self, echo: NoteEcho)
        requires
            echo.pitch < 128,
        ensures
            final(self)@ == (NoteModel { sounding: after_echo(old(self)@.sounding, echo), ..old(self)@ }),
            final(self).pending == old(self).pending,
    {
        let word_index = (echo.pitch / 64) as usize;
        let shift = (echo.pitch % 64) as u64;
        let old_word = self.active[word_index];
        let ghost before = self.active;
        let word = if echo.on { old_word | (1u64 << shift) } else { old_word & !(1u64 << shift) };
        self.active.set(word_index, word);
        proof {
            if echo.on {
                lemma_bit_set(old_word, shift);
            } else {
                lemma_bit_clear(old_word, shift);
            }
            assert forall|pitch: int| sounding_set(self.active).contains(pitch)
                == after_echo(sounding_set(before), echo).contains(pitch) by {
                if 0 <= pitch < 128 {
                    if pitch < 64 {
                        let j = pitch as u64;
                        if word_index == 0 {
                            assert(((word >> j) & 1 == 1) == (if echo.on { j == shift || (old_word >> j) & 1 == 1 } else { j != shift && (old_word >> j) & 1 == 1 }));
                        }
                    } else {
                        let j = (pitch - 64) as u64;
                        if word_index == 1 {
                            assert(((word >> j) & 1 == 1) == (if echo.on { j == shift || (old_word >> j) & 1 == 1 } else { j != shift && (old_word >> j) & 1 == 1 }));
                        }
                    }
                }
            }
            assert(sounding_set(self.active) =~= after_echo(sounding_set(before), echo));
        }
    }
}

impl NodeAnalysis {
    /// Takes in the echoes the render thread reported since the last update,
    /// in order, and the node's dropped-echo counter, then advances the
    /// sounding notes to the audible frame.
    pub fn update_notes(&mut self, echoes: &Vec<NoteEcho>, dropped: u64, audible: u64, epoch: u64, playing: bool)
        requires
            old(self).wf(),
            midi_pitches(echoes@),
        ensures
            final(self).wf(),
            final(self)@ == updated(old(self)@, echoes@, dropped, audible, epoch, playing),
    {
        let ghost model = self@;
        if epoch != self.epoch || dropped != self.dropped {
            self.epoch = epoch;
            self.pending.clear();
            self.active = [0, 0];
            self.dropped = dropped;
            proof { lemma_silent(self.active); }
        }
        let ghost held = self.pending@;
        let ghost base = sounding_set(self.active);
        assert(held == (if epoch != model.epoch || dropped != model.dropped { Seq::<NoteEcho>::empty() } else { model.waiting }));
        let mut i: usize = 0;
        while i < echoes.len()
            invariant
                i <= echoes.len(),
                midi_pitches(echoes@),
                midi_pitches(held),
                held.len() <= PENDING_LIMIT,
                self.pending@ == held + admitted(held.len(), echoes@.take(i as int), epoch),
                self.pending@.len() <= PENDING_LIMIT,
                midi_pitches(self.pending@),
                sounding_set(self.active) == base,
                self.epoch == epoch,
                self.dropped == dropped,
            decreases echoes.len() - i,
        {
            let echo = echoes[i];
            let ghost before = self.pending@;
            assert(echoes@.take(i + 1).drop_last() =~= echoes@.take(i as int));
            assert(echoes@.take(i + 1).last() == echo);
            if echo.epoch == epoch && self.pending.len() < PENDING_LIMIT {
                self.pending.push_back(echo);
            }
            assert(echoes@[i as int].pitch < 128);
            assert forall|k: int| 0 <= k < self.pending@.len() implies #[trigger] self.pending@[k].pitch < 128 by {
                if k < before.len() {
                    assert(self.pending@[k] == before[k]);
                }
            }
            i = i + 1;
        }
        assert(echoes@.take(echoes.len() as int) =~= echoes@);
        let ghost queued = self.pending@;
        let ghost late = is_late(audible);
        let mut n: usize = 0;
        while self.pending.len() > 0 && self.pending[0].frame <= audible
            invariant
                n <= queued.len(),
                self.pending@ == queued.subrange(n as int, queued.len() as int),
                forall|j: int| 0 <= j < n ==> !late(#[trigger] queued[j]),
                late == is_late(audible),
                sounding_set(self.active) == after_echoes(base, queued.take(n as int)),
                midi_pitches(queued),
                queued.len() <= PENDING_LIMIT,
                self.epoch == epoch,
                self.dropped == dropped,
            decreases self.pending@.len(),
        {
            let echo = self.pending.pop_front().unwrap();
            assert(echo == queued[n as int]);
            self.apply_echo(echo);
            assert(queued.take(n + 1).drop_last() =~= queued.take(n as int));
            assert(queued.take(n + 1).last() == echo);
            n = n + 1;
            assert(self.pending@ =~= queued.subrange(n as int, queued.len() as int));
        }
        proof {
            if n < queued.len() {
                assert(late(queued[n as int]));
                lemma_first_found(queued, late, n as int);
            } else {
                lemma_first_absent(queued, late);
            }
        }
        if !playing {
            self.active = [0, 0];
            proof { lemma_silent(self.active); }
        }
        proof {
            assert forall|k: int| 0 <= k < self.pending@.len() implies #[trigger] self.pending@[k].pitch < 128 by {
                assert(self.pending@[k] == queued[n + k]);
            }
        }
    }
}

/// Only echoes of the given epoch are admitted.
pub proof fn lemma_admitted_epoch(held: nat, echoes: Seq<NoteEcho>, epoch: u64)
    ensures
        forall|i: int| 0 <= i < admitted(held, echoes, epoch).len() ==> #[trigger] admitted(held, echoes, epoch)[i].epoch == epoch,
        admitted(held, echoes, epoch).len() <= echoes.len(),
    decreases echoes.len(),
{
    if echoes.len() > 0 {
        lemma_admitted_epoch(held, echoes.drop_last(), epoch);
    }
}

/// Echoes of an old epoch never take effect after a seek: when every waiting
/// echo belongs to the current epoch, so does every echo still waiting after
/// an update, which is of the update's epoch.
pub proof fn lemma_waiting_current_epoch(model: NoteModel, echoes: Seq<NoteEcho>, dropped: u64, audible: u64, epoch: u64, playing: bool)
    requires
        forall|i: int| 0 <= i < model.waiting.len() ==> #[trigger] model.waiting[i].epoch == model.epoch,
    ensures
        updated(model, echoes, dropped, audible, epoch, playing).epoch == epoch,
        forall|i: int| 0 <= i < updated(model, echoes, dropped, audible, epoch, playing).waiting.len()
            ==> #[trigger] updated(model, echoes, dropped, audible, epoch, playing).waiting[i].epoch == epoch,
{
    let reset = epoch != model.epoch || dropped != model.dropped;
    let held = if reset { Seq::<NoteEcho>::empty() } else { model.waiting };
    let added = admitted(held.len(), echoes, epoch);
    lemma_admitted_epoch(held.len(), echoes, epoch);
    let queued = held + added;
    assert forall|i: int| 0 <= i < queued.len() implies #[trigger] queued[i].epoch == epoch by {
        if i < held.len() {
            assert(queued[i] == held[i]);
        } else {
            assert(queued[i] == added[i - held.len()]);
        }
    }
    let due = due_count(queued, audible);
    assert(0 <= due <= queued.len()) by {
        match first_index(queued, is_late(audible)) {
            Some(k) => {
                assert(is_first(queued, is_late(audible), k)) by {
                    let j = choose|j: int| is_first(queued, is_late(audible), j);
                }
            },
            None => {},
        }
    }
    let rest = queued.subrange(due, queued.len() as int);
    assert forall|i: int| 0 <= i < rest.len() implies #[trigger] rest[i].epoch == epoch by {
        assert(rest[i] == queued[due + i]);
    }
}

/// While stopped, no note sounds after an update.
pub proof fn lemma_stopped_is_silent(model: NoteModel, echoes: Seq<NoteEcho>, dropped: u64, audible: u64, epoch: u64)
    ensures
        updated(model, echoes, dropped, audible, epoch, false).sounding == Set::<int>::empty(),
{
}

/// A note turned on and then off no longer sounds, whatever sounded before.
pub proof fn lemma_note_on_then_off(sounding: Set<int>, on: NoteEcho, off: NoteEcho)
    requires
        on.on,
        !off.on,
        on.pitch == off.pitch,
    ensures
        !after_echoes(sounding, seq![on, off]).contains(on.pitch as int),
        after_echoes(sounding, seq![on]).contains(on.pitch as int),
{
    assert(seq![on, off].drop_last() =~= seq![on]);
    assert(seq![on].drop_last() =~= Seq::<NoteEcho>::empty());
}

/// An echo changes its own pitch and no other: a note-on makes its pitch
/// sound, a note-off silences it, and every other pitch sounds exactly when it
/// sounded before.
pub proof fn lemma_echo_touches_only_its_pitch(sounding: Set<int>, echo: NoteEcho)
    ensures
        after_echo(sounding, echo).contains(echo.pitch as int) == echo.on,
        forall|q: int| q != echo.pitch as int ==> (#[trigger] after_echo(sounding, echo).contains(q) == sounding.contains(q)),
{
}

/// After a run of echoes, a pitch sounds exactly when the last echo naming it
/// is a note-on; a pitch no echo names sounds exactly when it sounded before.
/// So releasing one note of a chord leaves the others sounding.
pub proof fn lemma_echoes_last_word(sounding: Set<int>, echoes: Seq<NoteEcho>, q: int)
    ensures
        (forall|k: int| 0 <= k < echoes.len() ==> (#[trigger] echoes[k]).pitch as int != q)
            ==> (after_echoes(sounding, echoes).contains(q) == sounding.contains(q)),
        forall|k: int| 0 <= k < echoes.len() && (#[trigger] echoes[k]).pitch as int == q
            && (forall|j: int| k < j < echoes.len() ==> echoes[j].pitch as int != q)
            ==> (after_echoes(sounding, echoes).contains(q) == echoes[k].on),
    decreases echoes.len(),
{
    if echoes.len() > 0 {
        let init = echoes.drop_last();
        let n = echoes.len() - 1;
        lemma_echoes_last_word(sounding, init, q);
        lemma_echo_touches_only_its_pitch(after_echoes(sounding, init), echoes[n]);
        assert forall|k: int| 0 <= k < echoes.len() && (#[trigger] echoes[k]).pitch as int == q
            && (forall|j: int| k < j < echoes.len() ==> echoes[j].pitch as int != q)
            implies after_echoes(sounding, echoes).contains(q) == echoes[k].on by {
            if k < n {
                assert(echoes[n].pitch as int != q);
                assert(init[k] == echoes[k]);
                assert forall|j: int| k < j < init.len() implies init[j].pitch as int != q by {
                    assert(init[j] == echoes[j]);
                }
            }
        }
        if forall|k: int| 0 <= k < echoes.len() ==> (#[trigger] echoes[k]).pitch as int != q {
            assert forall|k: int| 0 <= k < init.len() implies (#[trigger] init[k]).pitch as int != q by {
                assert(init[k] == echoes[k]);
            }
            assert(echoes[n].pitch as int != q);
        }
    }
}

/// The echoes an update considers, in order: those still waiting (none after
/// a seek or lost echoes), then the new ones it admits.
pub open spec fn considered(model: NoteModel, echoes: Seq<NoteEcho>, dropped: u64, epoch: u64) -> Seq<NoteEcho> {
    let reset = epoch != model.epoch || dropped != model.dropped;
    let held = if reset { Seq::<NoteEcho>::empty() } else { model.waiting };
    held + admitted(held.len(), echoes, epoch)
}

/// An update splits the echoes it considers at the audible frame: the front
/// part, every echo of which is audible by now, takes effect; the rest waits,
/// starting with the first echo that is not yet audible.
pub proof fn lemma_update_splits_at_audible(model: NoteModel, echoes: Seq<NoteEcho>, dropped: u64, audible: u64, epoch: u64, playing: bool)
    ensures
        ({
            let queued = considered(model, echoes, dropped, epoch);
            let after = updated(model, echoes, dropped, audible, epoch, playing);
            let d = queued.len() - after.waiting.len();
            &&& 0 <= d <= queued.len()
            &&& after.waiting == queued.subrange(d, queued.len() as int)
            &&& forall|k: int| 0 <= k < d ==> (#[trigger] queued[k]).frame <= audible
            &&& (after.waiting.len() > 0 ==> after.waiting[0].frame > audible)
            &&& (playing ==> after.sounding == after_echoes(
                if epoch != model.epoch || dropped != model.dropped { Set::<int>::empty() } else { model.sounding },
                queued.take(d)))
        }),
{
    let queued = considered(model, echoes, dropped, epoch);
    let late = is_late(audible);
    match first_index(queued, late) {
        Some(i) => {
            let j = choose|j: int| is_first(queued, late, j);
            assert(is_first(queued, late, j));
            assert(queued.subrange(i, queued.len() as int)[0] == queued[i]);
        },
        None => {
            if exists|k: int| 0 <= k < queued.len() && queued[k].frame > audible {
                let k = choose|k: int| 0 <= k < queued.len() && queued[k].frame > audible;
                crate::search::lemma_first_exists(queued, late, k);
            }
        },
    }
}

/// While playing, a pitch that no considered echo names keeps sounding as it
/// did, unless a seek or lost echoes restarted the note state, which silences it.
pub proof fn lemma_update_untouched_pitch(model: NoteModel, echoes: Seq<NoteEcho>, dropped: u64, audible: u64, epoch: u64, q: int)
    requires
        forall|k: int| 0 <= k < considered(model, echoes, dropped, epoch).len()
            ==> (#[trigger] considered(model, echoes, dropped, epoch)[k]).pitch as int != q,
    ensures
        updated(model, echoes, dropped, audible, epoch, true).sounding.contains(q)
            == (epoch == model.epoch && dropped == model.dropped && model.sounding.contains(q)),
{
    let queued = considered(model, echoes, dropped, epoch);
    lemma_update_splits_at_audible(model, echoes, dropped, audible, epoch, true);
    let d = queued.len() - updated(model, echoes, dropped, audible, epoch, true).waiting.len();
    let applied = queued.take(d);
    assert forall|k: int| 0 <= k < applied.len() implies (#[trigger] applied[k]).pitch as int != q by {
        assert(applied[k] == queued[k]);
    }
    let base = if epoch != model.epoch || dropped != model.dropped { Set::<int>::empty() } else { model.sounding };
    lemma_echoes_last_word(base, applied, q);
}

} // verus!
