//! The two-cadence engine: a fast cadence that watches the source and feeds
//! translation, and a slow one that feeds persistence, each against its own
//! buffer. The engine decides; the caller captures, delivers and waits.
use vstd::prelude::*;
use crate::buffer::SyncBuffer;
use crate::diff::new_content;
use crate::text::{is_blank, is_blank_text};

verus! {

/// One completed synchronisation of a consumer with a captured snapshot.
pub enum Sample {
    Persist(Seq<char>),
    Translate(Seq<char>),
}

/// The last-seen snapshots of the two consumers: persistence, then translation.
pub type Buffers = (Seq<char>, Seq<char>);

/// The buffers after `s`: only the buffer of the consumer that synchronised moves.
pub open spec fn step(st: Buffers, s: Sample) -> Buffers {
    match s {
        Sample::Persist(x) => (x, st.1),
        Sample::Translate(x) => (st.0, x),
    }
}

/// The deltas reported to persistence along `samples`, from buffers `st`.
pub open spec fn persistence_reports(st: Buffers, samples: Seq<Sample>) -> Seq<Seq<char>>
    decreases samples.len(),
{
    if samples.len() == 0 {
        Seq::empty()
    } else {
        let rest = persistence_reports(step(st, samples[0]), samples.drop_first());
        match samples[0] {
            Sample::Persist(x) => seq![new_content(st.0, x)] + rest,
            Sample::Translate(_) => rest,
        }
    }
}

/// The deltas reported to translation along `samples`, from buffers `st`.
pub open spec fn translation_reports(st: Buffers, samples: Seq<Sample>) -> Seq<Seq<char>>
    decreases samples.len(),
{
    if samples.len() == 0 {
        Seq::empty()
    } else {
        let rest = translation_reports(step(st, samples[0]), samples.drop_first());
        match samples[0] {
            Sample::Translate(x) => seq![new_content(st.1, x)] + rest,
            Sample::Persist(_) => rest,
        }
    }
}

/// The persistence samples of `samples`, in order.
pub open spec fn persistence_only(samples: Seq<Sample>) -> Seq<Sample>
    decreases samples.len(),
{
    if samples.len() == 0 {
        Seq::empty()
    } else {
        let rest = persistence_only(samples.drop_first());
        match samples[0] {
            Sample::Persist(_) => seq![samples[0]] + rest,
            Sample::Translate(_) => rest,
        }
    }
}

/// The translation samples of `samples`, in order.
pub open spec fn translation_only(samples: Seq<Sample>) -> Seq<Sample>
    decreases samples.len(),
{
    if samples.len() == 0 {
        Seq::empty()
    } else {
        let rest = translation_only(samples.drop_first());
        match samples[0] {
            Sample::Translate(_) => seq![samples[0]] + rest,
            Sample::Persist(_) => rest,
        }
    }
}

/// Each consumer's deltas depend on its own buffer and its own samples alone:
/// neither the other buffer's content nor when the other consumer samples
/// changes them.
pub proof fn lemma_buffers_independent(st1: Buffers, st2: Buffers, samples: Seq<Sample>)
    ensures
        st1.0 == st2.0 ==> persistence_reports(st1, samples) == persistence_reports(
            st2,
            persistence_only(samples),
        ),
        st1.1 == st2.1 ==> translation_reports(st1, samples) == translation_reports(
            st2,
            translation_only(samples),
        ),
    decreases samples.len(),
{
    if samples.len() > 0 {
        let rest = samples.drop_first();
        match samples[0] {
            Sample::Persist(x) => {
                lemma_buffers_independent(step(st1, samples[0]), (x, st2.1), rest);
                lemma_buffers_independent(step(st1, samples[0]), st2, rest);
                let p = persistence_only(samples);
                assert(p[0] == samples[0]);
                assert(p.drop_first() =~= persistence_only(rest));
            },
            Sample::Translate(x) => {
                lemma_buffers_independent(step(st1, samples[0]), st2, rest);
                lemma_buffers_independent(step(st1, samples[0]), (st2.0, x), rest);
                let t = translation_only(samples);
                assert(t[0] == samples[0]);
                assert(t.drop_first() =~= translation_only(rest));
            },
        }
    }
}

/// What the fast cadence asks of the caller.
pub enum FastStep {
    /// The source is gone: drain persistence one last time and stop.
    Shutdown,
    /// Nothing to deliver.
    Idle,
    /// Hand `text` to the translation sink.
    Translate { text: String },
}

/// What the slow cadence asks of the caller.
pub enum PersistStep {
    /// No snapshot this tick; nothing changed.
    Skip,
    /// Nothing new to write; the persistence buffer moved to the snapshot.
    Advanced,
    /// Write `text`; once it is durable, commit the snapshot.
    Write { text: String },
}

/// The scheduling context: one buffer per consumer, and whether translation runs.
pub struct Engine {
    persistence: SyncBuffer,
    translation: SyncBuffer,
    translate: bool,
}

impl View for Engine {
    type V = Buffers;

    closed spec fn view(&self) -> Buffers {
        (self.persistence@, self.translation@)
    }
}

impl Engine {
    /// Whether the fast cadence feeds translation.
    pub closed spec fn translates(&self) -> bool {
        self.translate
    }

    /// An engine whose two buffers have seen nothing yet.
    pub fn new(translate: bool) -> (r: Engine)
        ensures
            r@ == (Seq::<char>::empty(), Seq::<char>::empty()),
            r.translates() == translate,
    {
        Engine { persistence: SyncBuffer::new(), translation: SyncBuffer::new(), translate }
    }

    /// Whether the fast cadence feeds translation.
    pub fn translation_enabled(&self) -> (r: bool)
        ensures
            r == self.translates(),
    {
        self.translate
    }

    /// The persistence consumer's buffer.
    pub fn persistence(&self) -> (r: &SyncBuffer)
        ensures
            r@ == self@.0,
    {
        &self.persistence
    }

    /// The translation consumer's buffer.
    pub fn translation(&self) -> (r: &SyncBuffer)
        ensures
            r@ == self@.1,
    {
        &self.translation
    }

    /// A fast tick. A source that is gone asks for shutdown. Otherwise, with
    /// translation on and a snapshot captured, the translation buffer moves to
    /// it and its delta, unless blank, goes to translation.
    pub fn on_fast_tick(&mut self, source_alive: bool, capture: Option<String>) -> (r: FastStep)
        ensures
            final(self).translates() == old(self).translates(),
            !source_alive ==> r is Shutdown && final(self)@ == old(self)@,
            source_alive && (!old(self).translates() || capture is None) ==> r is Idle
                && final(self)@ == old(self)@,
            source_alive && old(self).translates() && capture is Some ==> {
                let s = capture->0@;
                let d = new_content(old(self)@.1, s);
                &&& final(self)@ == step(old(self)@, Sample::Translate(s))
                &&& is_blank_text(d) ==> r is Idle
                &&& !is_blank_text(d) ==> r is Translate && r->text@ == d
            },
    {
        if !source_alive {
            return FastStep::Shutdown;
        }
        if !self.translate {
            return FastStep::Idle;
        }
        match capture {
            None => FastStep::Idle,
            Some(s) => {
                let d = self.translation.sync(s.as_str());
                if is_blank(d.as_str()) {
                    FastStep::Idle
                } else {
                    FastStep::Translate { text: d }
                }
            },
        }
    }

    /// A slow tick, and the last drain at shutdown. With a snapshot captured,
    /// a blank delta moves the persistence buffer at once; any other delta is
    /// to be written, and the buffer moves only on `commit_persisted`.
    pub fn on_slow_tick(&mut self, capture: Option<String>) -> (r: PersistStep)
        ensures
            final(self).translates() == old(self).translates(),
            capture is None ==> r is Skip && final(self)@ == old(self)@,
            capture is Some ==> {
                let s = capture->0@;
                let d = new_content(old(self)@.0, s);
                &&& is_blank_text(d) ==> r is Advanced && final(self)@ == step(
                    old(self)@,
                    Sample::Persist(s),
                )
                &&& !is_blank_text(d) ==> r is Write && r->text@ == d && final(self)@ == old(
                    self,
                )@
            },
    {
        match capture {
            None => PersistStep::Skip,
            Some(s) => {
                let d = self.persistence.delta(s.as_str());
                if is_blank(d.as_str()) {
                    self.persistence.advance(s.as_str());
                    PersistStep::Advanced
                } else {
                    PersistStep::Write { text: d }
                }
            },
        }
    }

    /// Records that the content new in `snapshot` is durably written.
    pub fn commit_persisted(&mut self, snapshot: &str)
        ensures
            final(self).translates() == old(self).translates(),
            final(self)@ == step(old(self)@, Sample::Persist(snapshot@)),
    {
        self.persistence.advance(snapshot);
    }
}

} // verus!
