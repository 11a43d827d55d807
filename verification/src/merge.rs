//! The merge loop: one batch at a time is applied to the render state, and
//! the state is rendered once for each batch.

use crate::format::bound;
use crate::format::named;
use crate::format::pairs_view;
use crate::format::Formatter;
use crate::poll::batch_view;
use crate::poll::Message;
use crate::render::applied_all;
use crate::render::RenderState;
use crate::render::Values;
use vstd::prelude::*;

verus! {

/// Where the merge loop stands.
#[derive(Clone, Copy, Debug, PartialEq, Eq, Structural)]
pub enum Phase {
    /// Waiting for a batch.
    Idle,
    /// Applying the updates of a batch.
    Applying,
    /// The state is being rendered.
    Rendering,
}

/// What moves the merge loop on.
#[derive(Clone, Copy, Debug, PartialEq, Eq, Structural)]
pub enum Event {
    /// A batch has arrived.
    Arrived,
    /// Every update of the batch is applied.
    Applied,
    /// The renderer has written its output.
    Rendered,
    /// The renderer has failed.
    Failed,
}

/// The phase that follows: a batch arrives while the loop is idle, is
/// applied, and the state is rendered, which ends well or fails; either way
/// the loop is idle again. `None` where the event cannot occur in the phase.
pub open spec fn next_phase(phase: Phase, event: Event) -> Option<Phase> {
    match (phase, event) {
        (Phase::Idle, Event::Arrived) => Some(Phase::Applying),
        (Phase::Applying, Event::Applied) => Some(Phase::Rendering),
        (Phase::Rendering, Event::Rendered) => Some(Phase::Idle),
        (Phase::Rendering, Event::Failed) => Some(Phase::Idle),
        _ => None,
    }
}

/// No phase is final: from every phase one event leads on, and after three
/// events the loop is idle again.
pub proof fn lemma_no_final_phase(phase: Phase)
    ensures
        exists|event: Event| next_phase(phase, event).is_some(),
        next_phase(Phase::Idle, Event::Arrived) == Some(Phase::Applying),
        next_phase(Phase::Applying, Event::Applied) == Some(Phase::Rendering),
        next_phase(Phase::Rendering, Event::Rendered) == Some(Phase::Idle),
        next_phase(Phase::Rendering, Event::Failed) == Some(Phase::Idle),
{
    match phase {
        Phase::Idle => assert(next_phase(phase, Event::Arrived).is_some()),
        Phase::Applying => assert(next_phase(phase, Event::Applied).is_some()),
        Phase::Rendering => assert(next_phase(phase, Event::Rendered).is_some()),
    }
}

impl Phase {
    /// The phase that follows, if the event can occur in this phase.
    pub fn next(self, event: Event) -> (next: Option<Phase>)
        ensures
            next == next_phase(self, event),
    {
        match (self, event) {
            (Phase::Idle, Event::Arrived) => Some(Phase::Applying),
            (Phase::Applying, Event::Applied) => Some(Phase::Rendering),
            (Phase::Rendering, Event::Rendered) => Some(Phase::Idle),
            (Phase::Rendering, Event::Failed) => Some(Phase::Idle),
            _ => None,
        }
    }
}

/// The consumer of the update channel: it owns the render state.
#[derive(Debug)]
pub struct Merger {
    formatter: Formatter,
    state: RenderState,
    phase: Phase,
    shown: Option<String>,
}

impl Merger {
    /// The formatter that names the sources.
    pub closed spec fn formatter(&self) -> Formatter {
        self.formatter
    }

    /// The latest value of every source.
    pub closed spec fn values(&self) -> Values {
        self.state@
    }

    /// Where the loop stands.
    pub closed spec fn phase(&self) -> Phase {
        self.phase
    }

    /// The output that was rendered last without failure, if any: what the
    /// sink shows.
    pub closed spec fn shown(&self) -> Option<Seq<char>> {
        match self.shown {
            Some(text) => Some(text@),
            None => None,
        }
    }

    /// An idle merge loop for `count` sources, none of which has reported,
    /// with nothing shown.
    pub fn new(formatter: Formatter, count: usize) -> (merger: Merger)
        ensures
            merger.formatter() == formatter,
            merger.values() == Seq::new(count as nat, |i: int| None::<Seq<char>>),
            merger.phase() == Phase::Idle,
            merger.shown().is_none(),
    {
        Merger { formatter, state: RenderState::new(count), phase: Phase::Idle, shown: None }
    }

    /// Where the loop stands.
    pub fn current(&self) -> (phase: Phase)
        ensures
            phase == self.phase(),
    {
        self.phase
    }

    /// The output that was rendered last without failure, if any.
    pub fn visible(&self) -> (text: Option<&str>)
        ensures
            match text {
                Some(shown) => self.shown() == Some(shown@),
                None => self.shown().is_none(),
            },
    {
        match &self.shown {
            Some(text) => Some(text.as_str()),
            None => None,
        }
    }

    /// The format and the names of the sources.
    pub fn format(&self) -> (formatter: &Formatter)
        ensures
            *formatter == self.formatter(),
    {
        &self.formatter
    }

    /// The render state.
    pub fn state(&self) -> (state: &RenderState)
        ensures
            state@ == self.values(),
    {
        &self.state
    }

    /// Takes a batch that has arrived: applies every update of it, in order,
    /// and returns what the renderer is given, once for the whole batch.
    pub fn receive(&mut self, batch: Message) -> (pairs: Vec<(String, String)>)
        requires
            old(self).phase() == Phase::Idle,
        ensures
            final(self).formatter() == old(self).formatter(),
            final(self).shown() == old(self).shown(),
            final(self).values() == applied_all(old(self).values(), batch_view(batch@)),
            final(self).phase() == Phase::Rendering,
            pairs_view(pairs@) == bound(
                final(self).formatter().spec_names(),
                final(self).values(),
                named(final(self).formatter().spec_names(), final(self).values()),
            ),
    {
        self.phase = Phase::Applying;
        self.state.apply_batch(batch);
        self.phase = Phase::Rendering;
        self.formatter.bindings(&self.state)
    }

    /// Takes the outcome of the rendering: the output, or nothing where the
    /// renderer failed. After a failure what was shown before is still
    /// shown; the state is not touched either way.
    pub fn finish(&mut self, output: Option<String>)
        requires
            old(self).phase() == Phase::Rendering,
        ensures
            final(self).formatter() == old(self).formatter(),
            final(self).values() == old(self).values(),
            final(self).phase() == Phase::Idle,
            final(self).shown() == match output {
                Some(text) => Some(text@),
                None => old(self).shown(),
            },
    {
        self.phase = Phase::Idle;
        if let Some(text) = output {
            self.shown = Some(text);
        }
    }
}

} // verus!
