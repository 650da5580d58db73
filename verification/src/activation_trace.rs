//! Timing of one overlay activation, from the triggering event until the
//! overlay has focus. Instants are nanoseconds on the monotonic clock.
use vstd::prelude::*;

verus! {

/// An activation slower than this is reported as slow, in nanoseconds.
pub const SLOW_ACTIVATION_THRESHOLD_NANOS: u64 = 50_000_000;

/// `finished - started`, or zero when `finished` is not later.
pub open spec fn saturating_since(finished: u64, started: u64) -> u64 {
    if finished > started {
        (finished - started) as u64
    } else {
        0
    }
}

/// Time from `started` until `finished`, or zero when `finished` is unknown.
pub open spec fn elapsed_spec(started: u64, finished: Option<u64>) -> u64 {
    match finished {
        Some(f) => saturating_since(f, started),
        None => 0,
    }
}

/// Time between two marks, or zero unless both are known.
pub open spec fn elapsed_between_spec(started: Option<u64>, finished: Option<u64>) -> u64 {
    match (started, finished) {
        (Some(s), Some(f)) => saturating_since(f, s),
        _ => 0,
    }
}

/// Time from `started` until `finished`, or zero when `finished` is unknown.
pub fn elapsed(started: u64, finished: Option<u64>) -> (d: u64)
    ensures
        d == elapsed_spec(started, finished),
{
    match finished {
        Some(f) => if f > started {
            f - started
        } else {
            0
        },
        None => 0,
    }
}

/// Time between two marks, or zero unless both are known.
pub fn elapsed_between(started: Option<u64>, finished: Option<u64>) -> (d: u64)
    ensures
        d == elapsed_between_spec(started, finished),
{
    match (started, finished) {
        (Some(s), Some(f)) => if f > s {
            f - s
        } else {
            0
        },
        _ => 0,
    }
}

/// The durations reported for one activation, in nanoseconds.
#[derive(Debug, Clone, Copy, PartialEq, Eq, Structural)]
pub struct ActivationTimings {
    /// Hotkey delivery delay plus the time from the callback until focus.
    pub total: u128,
    pub callback_to_focus: u64,
    pub event_queue: u64,
    pub placement: u64,
    pub preparation: u64,
    pub render: u64,
    pub visibility_command: u64,
    pub focus_ready: u64,
    /// Whether the total exceeds the slow-activation threshold.
    pub slow: bool,
    /// Whether every stage was measured: the delivery delay is known, or the
    /// activation did not come from the hotkey.
    pub timing_complete: bool,
}

/// Low-overhead timing state for one overlay activation.
pub struct ActivationTrace {
    id: u64,
    source: &'static str,
    received_at: u64,
    delivery_delay: Option<u64>,
    handled_at: Option<u64>,
    placement_started_at: Option<u64>,
    placement_finished_at: Option<u64>,
    prepared_at: Option<u64>,
    render_started_at: Option<u64>,
    frame_submitted_at: Option<u64>,
    visible_command_applied_at: Option<u64>,
}

/// The marks of one activation.
pub struct TraceView {
    pub received_at: u64,
    pub delivery_delay: Option<u64>,
    pub handled_at: Option<u64>,
    pub placement_started_at: Option<u64>,
    pub placement_finished_at: Option<u64>,
    pub prepared_at: Option<u64>,
    pub render_started_at: Option<u64>,
    pub frame_submitted_at: Option<u64>,
    pub visible_command_applied_at: Option<u64>,
}

/// The first mark wins: `current` when set, `at` otherwise.
pub open spec fn first_mark(current: Option<u64>, at: u64) -> Option<u64> {
    match current {
        Some(t) => Some(t),
        None => Some(at),
    }
}

/// The timings of activation `t` that gained focus at `focused_at`.
pub open spec fn timings_spec(t: TraceView, from_hotkey: bool, focused_at: u64) -> ActivationTimings {
    let callback_to_focus = saturating_since(focused_at, t.received_at);
    let delay: u64 = match t.delivery_delay {
        Some(d) => d,
        None => 0,
    };
    let total = (delay + callback_to_focus) as u128;
    ActivationTimings {
        total,
        callback_to_focus,
        event_queue: elapsed_spec(t.received_at, t.handled_at),
        placement: elapsed_between_spec(t.placement_started_at, t.placement_finished_at),
        preparation: elapsed_between_spec(t.handled_at, t.prepared_at),
        render: elapsed_between_spec(t.render_started_at, t.frame_submitted_at),
        visibility_command: elapsed_between_spec(t.frame_submitted_at, t.visible_command_applied_at),
        focus_ready: elapsed_spec(
            match t.visible_command_applied_at {
                Some(v) => v,
                None => focused_at,
            },
            Some(focused_at),
        ),
        slow: total > SLOW_ACTIVATION_THRESHOLD_NANOS,
        timing_complete: t.delivery_delay is Some || !from_hotkey,
    }
}

impl ActivationTrace {
    /// The activation identifier.
    pub closed spec fn trace_id(&self) -> u64 {
        self.id
    }

    /// What triggered the activation (`hotkey` for the global hotkey).
    pub closed spec fn trace_source(&self) -> Seq<char> {
        self.source@
    }

    /// The activation's identifier.
    pub fn id(&self) -> (id: u64)
        ensures
            id == self.trace_id(),
    {
        self.id
    }

    /// What triggered the activation, such as `hotkey`.
    pub fn source(&self) -> (source: &'static str)
        ensures
            source@ == self.trace_source(),
    {
        self.source
    }

    /// The times recorded so far.
    pub closed spec fn marks(&self) -> TraceView {
        TraceView {
            received_at: self.received_at,
            delivery_delay: self.delivery_delay,
            handled_at: self.handled_at,
            placement_started_at: self.placement_started_at,
            placement_finished_at: self.placement_finished_at,
            prepared_at: self.prepared_at,
            render_started_at: self.render_started_at,
            frame_submitted_at: self.frame_submitted_at,
            visible_command_applied_at: self.visible_command_applied_at,
        }
    }

    /// A trace of activation `id` from `source`, whose event arrived at
    /// `received_at` after `delivery_delay`, with no stage marked yet.
    pub fn new(id: u64, source: &'static str, received_at: u64, delivery_delay: Option<u64>) -> (trace:
        Self)
        ensures
            trace.trace_id() == id,
            trace.trace_source() == source@,
            trace.marks() == (TraceView {
                received_at,
                delivery_delay,
                handled_at: None,
                placement_started_at: None,
                placement_finished_at: None,
                prepared_at: None,
                render_started_at: None,
                frame_submitted_at: None,
                visible_command_applied_at: None,
            }),
    {
        ActivationTrace {
            id,
            source,
            received_at,
            delivery_delay,
            handled_at: None,
            placement_started_at: None,
            placement_finished_at: None,
            prepared_at: None,
            render_started_at: None,
            frame_submitted_at: None,
            visible_command_applied_at: None,
        }
    }

    /// Record when the event was handled; only the first mark counts.
    pub fn mark_handled(&mut self, at: u64)
        ensures
            final(self).marks() == (TraceView {
                handled_at: first_mark(old(self).marks().handled_at, at),
                ..old(self).marks()
            }),
            final(self).trace_id() == old(self).trace_id(),
            final(self).trace_source() == old(self).trace_source(),
    {
        if self.handled_at.is_none() {
            self.handled_at = Some(at);
        }
    }

    /// Record when monitor placement started; only the first mark counts.
    pub fn mark_placement_started(&mut self, at: u64)
        ensures
            final(self).marks() == (TraceView {
                placement_started_at: first_mark(old(self).marks().placement_started_at, at),
                ..old(self).marks()
            }),
            final(self).trace_id() == old(self).trace_id(),
            final(self).trace_source() == old(self).trace_source(),
    {
        if self.placement_started_at.is_none() {
            self.placement_started_at = Some(at);
        }
    }

    /// Record when monitor placement finished; only the first mark counts.
    pub fn mark_placement_finished(&mut self, at: u64)
        ensures
            final(self).marks() == (TraceView {
                placement_finished_at: first_mark(old(self).marks().placement_finished_at, at),
                ..old(self).marks()
            }),
            final(self).trace_id() == old(self).trace_id(),
            final(self).trace_source() == old(self).trace_source(),
    {
        if self.placement_finished_at.is_none() {
            self.placement_finished_at = Some(at);
        }
    }

    /// Record when the overlay was prepared; only the first mark counts.
    pub fn mark_prepared(&mut self, at: u64)
        ensures
            final(self).marks() == (TraceView {
                prepared_at: first_mark(old(self).marks().prepared_at, at),
                ..old(self).marks()
            }),
            final(self).trace_id() == old(self).trace_id(),
            final(self).trace_source() == old(self).trace_source(),
    {
        if self.prepared_at.is_none() {
            self.prepared_at = Some(at);
        }
    }

    /// Record when rendering started; only the first mark counts.
    pub fn mark_render_started(&mut self, at: u64)
        ensures
            final(self).marks() == (TraceView {
                render_started_at: first_mark(old(self).marks().render_started_at, at),
                ..old(self).marks()
            }),
            final(self).trace_id() == old(self).trace_id(),
            final(self).trace_source() == old(self).trace_source(),
    {
        if self.render_started_at.is_none() {
            self.render_started_at = Some(at);
        }
    }

    /// Record when the frame was submitted; only the first mark counts.
    pub fn mark_frame_submitted(&mut self, at: u64)
        ensures
            final(self).marks() == (TraceView {
                frame_submitted_at: first_mark(old(self).marks().frame_submitted_at, at),
                ..old(self).marks()
            }),
            final(self).trace_id() == old(self).trace_id(),
            final(self).trace_source() == old(self).trace_source(),
    {
        if self.frame_submitted_at.is_none() {
            self.frame_submitted_at = Some(at);
        }
    }

    /// Record when the window was made visible; only the first mark counts.
    pub fn mark_visible_command_applied(&mut self, at: u64)
        ensures
            final(self).marks() == (TraceView {
                visible_command_applied_at: first_mark(
                    old(self).marks().visible_command_applied_at,
                    at,
                ),
                ..old(self).marks()
            }),
            final(self).trace_id() == old(self).trace_id(),
            final(self).trace_source() == old(self).trace_source(),
    {
        if self.visible_command_applied_at.is_none() {
            self.visible_command_applied_at = Some(at);
        }
    }

    /// The durations of this activation, which gained focus at `focused_at`.
    pub fn timings(&self, focused_at: u64) -> (t: ActivationTimings)
        ensures
            t == timings_spec(self.marks(), self.trace_source() == "hotkey"@, focused_at),
    {
        let callback_to_focus = if focused_at > self.received_at {
            focused_at - self.received_at
        } else {
            0
        };
        let delay: u64 = match self.delivery_delay {
            Some(d) => d,
            None => 0,
        };
        let total: u128 = delay as u128 + callback_to_focus as u128;
        let from_hotkey = crate::text::str_equal(self.source, "hotkey");
        ActivationTimings {
            total,
            callback_to_focus,
            event_queue: elapsed(self.received_at, self.handled_at),
            placement: elapsed_between(self.placement_started_at, self.placement_finished_at),
            preparation: elapsed_between(self.handled_at, self.prepared_at),
            render: elapsed_between(self.render_started_at, self.frame_submitted_at),
            visibility_command: elapsed_between(
                self.frame_submitted_at,
                self.visible_command_applied_at,
            ),
            focus_ready: elapsed(
                match self.visible_command_applied_at {
                    Some(v) => v,
                    None => focused_at,
                },
                Some(focused_at),
            ),
            slow: total > SLOW_ACTIVATION_THRESHOLD_NANOS as u128,
            timing_complete: self.delivery_delay.is_some() || !from_hotkey,
        }
    }

    /// Whether the activation, which gained focus at `focused_at`, was slow.
    pub fn finish(self, focused_at: u64) -> (slow: bool)
        ensures
            slow == timings_spec(self.marks(), self.trace_source() == "hotkey"@, focused_at).slow,
    {
        self.timings(focused_at).slow
    }
}

} // verus!
