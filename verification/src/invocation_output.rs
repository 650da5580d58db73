//! Bounded action-output deltas shared by one extension worker and the UI thread.
use std::collections::VecDeque;

use vstd::prelude::*;
use vstd::string::*;

verus! {

/// Most outputs kept while the UI thread has not collected them.
pub const MAX_PENDING_OUTPUTS: usize = 16;

/// Protocol-neutral output produced by an extension action.
#[derive(Debug, Clone)]
pub struct ExtensionInvocationOutput {
    pub invocation_id: u64,
    pub extension_id: String,
    pub generation: u64,
    pub text: String,
}

/// The contents of one output.
pub struct OutputView {
    pub invocation_id: u64,
    pub extension_id: Seq<char>,
    pub generation: u64,
    pub text: Seq<char>,
}

impl View for ExtensionInvocationOutput {
    type V = OutputView;

    open spec fn view(&self) -> OutputView {
        OutputView {
            invocation_id: self.invocation_id,
            extension_id: self.extension_id@,
            generation: self.generation,
            text: self.text@,
        }
    }
}

/// The contents of a list of outputs.
pub open spec fn outputs_view(s: Seq<ExtensionInvocationOutput>) -> Seq<OutputView> {
    s.map_values(|o: ExtensionInvocationOutput| o@)
}

/// The pending outputs once `chunk` of `invocation_id` is appended: a chunk of
/// the newest invocation extends its text; otherwise a new output is queued,
/// first dropping the oldest one when the queue is full.
pub open spec fn appended(
    pending: Seq<OutputView>,
    invocation_id: u64,
    extension_id: Seq<char>,
    generation: u64,
    chunk: Seq<char>,
) -> Seq<OutputView> {
    if pending.len() > 0 && pending.last().invocation_id == invocation_id {
        let last = pending.last();
        pending.update(
            pending.len() - 1,
            OutputView {
                invocation_id: last.invocation_id,
                extension_id: last.extension_id,
                generation: last.generation,
                text: last.text + chunk,
            },
        )
    } else {
        let kept = if pending.len() >= MAX_PENDING_OUTPUTS {
            pending.drop_first()
        } else {
            pending
        };
        kept.push(OutputView { invocation_id, extension_id, generation, text: chunk })
    }
}

/// Bounded action-output deltas shared by one extension worker and the UI thread.
#[derive(Debug)]
pub struct ExtensionInvocationOutputState {
    pending: VecDeque<ExtensionInvocationOutput>,
    dirty: bool,
}

impl ExtensionInvocationOutputState {
    /// The outputs not yet collected, oldest first.
    pub closed spec fn pending(&self) -> Seq<OutputView> {
        outputs_view(self.pending@)
    }

    /// Whether outputs changed since they were last collected.
    pub closed spec fn is_dirty(&self) -> bool {
        self.dirty
    }

    /// At most `MAX_PENDING_OUTPUTS` outputs wait for collection.
    pub closed spec fn wf(&self) -> bool {
        self.pending@.len() <= MAX_PENDING_OUTPUTS
    }

    /// No output pending and nothing changed.
    pub fn new() -> (state: Self)
        ensures
            state.wf(),
            state.pending() == Seq::<OutputView>::empty(),
            state.pending().len() <= MAX_PENDING_OUTPUTS,
            !state.is_dirty(),
    {
        let state = ExtensionInvocationOutputState { pending: VecDeque::new(), dirty: false };
        assert(state.pending() =~= Seq::<OutputView>::empty());
        state
    }

    /// Add `chunk` to the output of `invocation_id`; returns whether the UI
    /// thread must be notified, which is the case only for the first change
    /// since the outputs were last collected.
    pub fn append(
        &mut self,
        invocation_id: u64,
        extension_id: &str,
        generation: u64,
        chunk: &str,
    ) -> (should_notify: bool)
        requires
            old(self).wf(),
        ensures
            final(self).wf(),
            final(self).pending() == appended(
                old(self).pending(),
                invocation_id,
                extension_id@,
                generation,
                chunk@,
            ),
            final(self).is_dirty(),
            should_notify == !old(self).is_dirty(),
            final(self).pending().len() <= MAX_PENDING_OUTPUTS,
    {
        let ghost before = self.pending@;
        let n = self.pending.len();
        let mut extended = false;
        if n > 0 {
            let last = self.pending.pop_back();
            match last {
                Some(mut output) => {
                    if output.invocation_id == invocation_id {
                        output.text.append(chunk);
                        self.pending.push_back(output);
                        extended = true;
                        proof {
                            assert(outputs_view(self.pending@) =~= appended(
                                outputs_view(before),
                                invocation_id,
                                extension_id@,
                                generation,
                                chunk@,
                            ));
                        }
                    } else {
                        self.pending.push_back(output);
                        proof {
                            assert(self.pending@ =~= before);
                        }
                    }
                },
                None => {},
            }
        }
        if !extended {
            if self.pending.len() == MAX_PENDING_OUTPUTS {
                self.pending.pop_front();
            }
            let output = ExtensionInvocationOutput {
                invocation_id,
                extension_id: extension_id.to_owned(),
                generation,
                text: chunk.to_owned(),
            };
            self.pending.push_back(output);
            proof {
                assert(outputs_view(self.pending@) =~= appended(
                    outputs_view(before),
                    invocation_id,
                    extension_id@,
                    generation,
                    chunk@,
                ));
            }
        }
        let should_notify = !self.dirty;
        self.dirty = true;
        should_notify
    }

    /// Collect every pending output when something changed since the last
    /// collection; `None` (and no change) otherwise.
    pub fn take_changed(&mut self) -> (changed: Option<Vec<ExtensionInvocationOutput>>)
        requires
            old(self).wf(),
        ensures
            final(self).wf(),
            !final(self).is_dirty(),
            final(self).pending().len() <= MAX_PENDING_OUTPUTS,
            match changed {
                Some(outputs) => {
                    &&& outputs@.len() <= MAX_PENDING_OUTPUTS
                    &&& old(self).is_dirty()
                    &&& outputs_view(outputs@) == old(self).pending()
                    &&& final(self).pending() == Seq::<OutputView>::empty()
                },
                None => {
                    &&& !old(self).is_dirty()
                    &&& final(self).pending() == old(self).pending()
                },
            },
    {
        if !self.dirty {
            return None;
        }
        self.dirty = false;
        let ghost before = self.pending@;
        let mut outputs: Vec<ExtensionInvocationOutput> = Vec::new();
        while self.pending.len() > 0
            invariant
                outputs@ + self.pending@ == before,
                !self.dirty,
            decreases self.pending@.len(),
        {
            let ghost current = self.pending@;
            match self.pending.pop_front() {
                Some(output) => {
                    outputs.push(output);
                    proof {
                        assert(outputs@ + self.pending@ =~= before);
                    }
                },
                None => {},
            }
        }
        proof {
            assert(outputs@ =~= before);
            assert(outputs_view(self.pending@) =~= Seq::<OutputView>::empty());
        }
        Some(outputs)
    }
}

impl Default for ExtensionInvocationOutputState {
    fn default() -> (state: Self)
        ensures
            state.wf(),
            state.pending() == Seq::<OutputView>::empty(),
            !state.is_dirty(),
    {
        ExtensionInvocationOutputState::new()
    }
}

/// One operation on the pending outputs.
pub enum OutputOp {
    /// `append` of a chunk for an invocation.
    Append { invocation_id: u64, extension_id: Seq<char>, generation: u64, chunk: Seq<char> },
    /// `take_changed`, which empties the pending outputs when anything changed.
    Take,
}

/// The pending outputs after `ops`, starting from `pending`.
pub open spec fn outputs_after(pending: Seq<OutputView>, ops: Seq<OutputOp>) -> Seq<OutputView>
    decreases ops.len(),
{
    if ops.len() == 0 {
        pending
    } else {
        let before = outputs_after(pending, ops.drop_last());
        match ops.last() {
            OutputOp::Append { invocation_id, extension_id, generation, chunk } => appended(
                before,
                invocation_id,
                extension_id,
                generation,
                chunk,
            ),
            OutputOp::Take => Seq::empty(),
        }
    }
}

/// However outputs are appended and collected, starting from none, at most
/// `MAX_PENDING_OUTPUTS` are pending, so a collection returns at most that many.
pub proof fn lemma_outputs_stay_bounded(ops: Seq<OutputOp>)
    ensures
        outputs_after(Seq::empty(), ops).len() <= MAX_PENDING_OUTPUTS,
    decreases ops.len(),
{
    if ops.len() > 0 {
        lemma_outputs_stay_bounded(ops.drop_last());
    }
}

} // verus!
