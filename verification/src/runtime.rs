//! Protocol-aware decisions of the extension runtime: which process kind a
//! protocol selects, what an agent extension offers to search, how its
//! prompt output is bounded, and the bounded buffers and counters kept
//! around extension processes.
use std::collections::VecDeque;

use vstd::prelude::*;
use vstd::string::*;

use crate::host_messages::{acp_prompt, acp_prompt_spec};
use crate::manifest::ExtensionProtocol;
use crate::supervisor::{SupervisorError, SupervisorErrorKind};
use crate::text::str_equal;

verus! {

/// Most bytes of agent output published for one prompt.
pub const ACP_OUTPUT_LIMIT: usize = 262_144;
/// Most action invocations awaiting their results across all workers.
pub const INVOCATION_RESULT_CAPACITY: usize = 16;

/// The kind of process that supervises an extension.
#[derive(Debug, Clone, Copy, PartialEq, Eq, Structural)]
pub enum RuntimeKind {
    /// The host's own framed protocol.
    Nanika,
    /// The Agent Client Protocol.
    Acp,
}

/// The process kind for `protocol`: version 1 of either protocol is supported.
pub open spec fn runtime_kind_spec(protocol: ExtensionProtocol) -> Option<RuntimeKind> {
    match protocol {
        ExtensionProtocol::Nanika { protocol_version } => if protocol_version == 1 {
            Some(RuntimeKind::Nanika)
        } else {
            None
        },
        ExtensionProtocol::Acp { protocol_version } => if protocol_version == 1 {
            Some(RuntimeKind::Acp)
        } else {
            None
        },
    }
}

/// The process kind for `protocol`, or `None` when the protocol is unsupported.
pub fn runtime_kind(protocol: ExtensionProtocol) -> (kind: Option<RuntimeKind>)
    ensures
        kind == runtime_kind_spec(protocol),
{
    match protocol {
        ExtensionProtocol::Nanika { protocol_version } => if protocol_version == 1 {
            Some(RuntimeKind::Nanika)
        } else {
            None
        },
        ExtensionProtocol::Acp { protocol_version } => if protocol_version == 1 {
            Some(RuntimeKind::Acp)
        } else {
            None
        },
    }
}

/// One search result offered by an extension.
#[derive(Debug, Clone)]
pub struct Candidate {
    pub entry_id: String,
    pub title: String,
    pub action_id: String,
    pub aliases: Vec<String>,
}

/// What an agent extension offers for `query`: one "Ask" entry carrying the
/// query as its alias when the query addresses a prompt to the extension,
/// nothing otherwise.
pub fn acp_query_entries(extension_id: &str, query: String) -> (entries: Vec<Candidate>)
    ensures
        acp_prompt_spec(extension_id@, query@) is None ==> entries@.len() == 0,
        acp_prompt_spec(extension_id@, query@) is Some ==> {
            &&& entries@.len() == 1
            &&& entries@[0].entry_id@ == "prompt"@
            &&& entries@[0].title@ == "Ask "@ + extension_id@
            &&& entries@[0].action_id@ == "prompt"@
            &&& entries@[0].aliases@.len() == 1
            &&& entries@[0].aliases@[0]@ == query@
        },
{
    let mut entries: Vec<Candidate> = Vec::new();
    if acp_prompt(extension_id, query.as_str()).is_some() {
        let mut aliases: Vec<String> = Vec::new();
        aliases.push(query);
        entries.push(
            Candidate {
                entry_id: String::from_str("prompt"),
                title: String::from_str("Ask ").concat(extension_id),
                action_id: String::from_str("prompt"),
                aliases,
            },
        );
    }
    entries
}

fn unexpected(message: &str) -> (e: SupervisorError)
    ensures
        e.kind == SupervisorErrorKind::UnexpectedMessage,
        e.message@ == message@,
{
    SupervisorError { kind: SupervisorErrorKind::UnexpectedMessage, message: String::from_str(message) }
}

/// The prompt that an agent extension runs for an invocation of
/// `entry_id`/`action_id` with `query_context`: only the `prompt` entry and
/// action exist, and the query must address a prompt to the extension.
pub fn acp_invocation_prompt<'a>(
    extension_id: &str,
    entry_id: &str,
    action_id: &str,
    query_context: &'a str,
) -> (prompt: Result<&'a str, SupervisorError>)
    ensures
        match prompt {
            Ok(p) => entry_id@ == "prompt"@ && action_id@ == "prompt"@ && acp_prompt_spec(
                extension_id@,
                query_context@,
            ) == Some(p@),
            Err(e) => e.kind == SupervisorErrorKind::UnexpectedMessage && if entry_id@ != "prompt"@
                || action_id@ != "prompt"@ {
                e.message@ == "ACP extension received an unknown action"@
            } else {
                acp_prompt_spec(extension_id@, query_context@) is None && e.message@
                    == "ACP prompt does not match the extension activation prefix"@
            },
        },
{
    if !str_equal(entry_id, "prompt") || !str_equal(action_id, "prompt") {
        return Err(unexpected("ACP extension received an unknown action"));
    }
    match acp_prompt(extension_id, query_context) {
        Some(p) => Ok(p),
        None => Err(unexpected("ACP prompt does not match the extension activation prefix")),
    }
}

/// What happens to one chunk of agent output.
#[derive(Debug, Clone, Copy, PartialEq, Eq, Structural)]
pub enum ChunkAction {
    /// Publish the chunk.
    Publish,
    /// The output limit is reached: drop the chunk and cancel the prompt.
    LimitAndCancel,
    /// The limit was reached earlier: drop the chunk.
    Drop,
}

/// The agent output published so far for one prompt.
pub struct PromptOutput {
    output_bytes: usize,
    limited: bool,
}

impl PromptOutput {
    /// Bytes published so far.
    pub closed spec fn published(&self) -> usize {
        self.output_bytes
    }

    /// Whether the output limit was reached.
    pub closed spec fn is_limited(&self) -> bool {
        self.limited
    }

    /// Nothing published yet.
    pub fn new() -> (o: Self)
        ensures
            o.published() == 0,
            !o.is_limited(),
    {
        PromptOutput { output_bytes: 0, limited: false }
    }

    /// Account for a chunk of `len` bytes: it is published while the total
    /// stays within `ACP_OUTPUT_LIMIT`; the first chunk beyond the limit
    /// cancels the prompt, and every later chunk is dropped.
    pub fn on_chunk(&mut self, len: usize) -> (action: ChunkAction)
        requires
            old(self).published() <= ACP_OUTPUT_LIMIT,
        ensures
            final(self).published() <= ACP_OUTPUT_LIMIT,
            old(self).is_limited() ==> action == ChunkAction::Drop && final(self).published()
                == old(self).published() && final(self).is_limited(),
            !old(self).is_limited() && old(self).published() + len > ACP_OUTPUT_LIMIT ==> action
                == ChunkAction::LimitAndCancel && final(self).published() == old(self).published()
                && final(self).is_limited(),
            !old(self).is_limited() && old(self).published() + len <= ACP_OUTPUT_LIMIT ==> action
                == ChunkAction::Publish && final(self).published() == old(self).published() + len
                && !final(self).is_limited(),
    {
        if self.limited {
            return ChunkAction::Drop;
        }
        if len > ACP_OUTPUT_LIMIT - self.output_bytes {
            self.limited = true;
            return ChunkAction::LimitAndCancel;
        }
        self.output_bytes = self.output_bytes + len;
        ChunkAction::Publish
    }

    /// The prompt's result once the agent stopped: a cancelled prompt fails
    /// as cancelled, then one whose output was cut at the limit fails.
    pub fn outcome(&self, cancelled: bool) -> (result: Result<(), String>)
        ensures
            match result {
                Ok(()) => !cancelled && !self.is_limited(),
                Err(message) => if cancelled {
                    message@ == "ACP prompt cancelled"@
                } else {
                    self.is_limited() && message@ == "ACP prompt output exceeds 262144 bytes"@
                },
            },
    {
        if cancelled {
            return Err(String::from_str("ACP prompt cancelled"));
        }
        if self.limited {
            return Err(String::from_str("ACP prompt output exceeds 262144 bytes"));
        }
        Ok(())
    }
}

/// The last bytes an extension wrote to its error stream.
pub struct StderrTail {
    bytes: VecDeque<u8>,
    limit: usize,
}

/// The last `limit` bytes of `s`.
pub open spec fn last_bytes(s: Seq<u8>, limit: nat) -> Seq<u8> {
    if s.len() > limit {
        s.skip(s.len() - limit)
    } else {
        s
    }
}

impl StderrTail {
    /// The kept bytes, oldest first.
    pub closed spec fn contents(&self) -> Seq<u8> {
        self.bytes@
    }

    /// Most bytes kept.
    pub closed spec fn byte_limit(&self) -> usize {
        self.limit
    }

    /// An empty tail keeping at most `limit` bytes.
    pub fn new(limit: usize) -> (tail: Self)
        ensures
            tail.contents() == Seq::<u8>::empty(),
            tail.byte_limit() == limit,
    {
        StderrTail { bytes: VecDeque::new(), limit }
    }

    /// Keep `chunk`, then only the last `limit` bytes; nothing is kept when
    /// the limit is zero.
    pub fn append(&mut self, chunk: &[u8])
        requires
            old(self).contents().len() <= old(self).byte_limit(),
        ensures
            final(self).byte_limit() == old(self).byte_limit(),
            final(self).contents() == if old(self).byte_limit() == 0 {
                old(self).contents()
            } else {
                last_bytes(old(self).contents() + chunk@, old(self).byte_limit() as nat)
            },
            final(self).contents().len() <= final(self).byte_limit(),
    {
        if self.limit == 0 {
            return;
        }
        let ghost all = self.bytes@ + chunk@;
        let ghost start = self.bytes@.len();
        let n = chunk.len();
        for i in 0..n
            invariant
                n == chunk@.len(),
                all == old(self).bytes@ + chunk@,
                start == old(self).bytes@.len(),
                self.limit == old(self).limit,
                self.limit > 0,
                self.bytes@ == last_bytes(all.take(start + i), self.limit as nat),
        {
            let ghost before = self.bytes@;
            self.bytes.push_back(chunk[i]);
            proof {
                assert(all.take(start + i + 1) =~= all.take(start + i).push(chunk@[i as int]));
            }
            if self.bytes.len() > self.limit {
                self.bytes.pop_front();
            }
            proof {
                let t = all.take(start + i + 1);
                assert(self.bytes@ =~= last_bytes(t, self.limit as nat));
            }
        }
        proof {
            assert(all.take(start + n) =~= all);
        }
    }

    /// The kept bytes, oldest first.
    pub fn to_vec(&self) -> (bytes: Vec<u8>)
        ensures
            bytes@ == self.contents(),
    {
        let mut out: Vec<u8> = Vec::new();
        let n = self.bytes.len();
        for i in 0..n
            invariant
                n == self.bytes@.len(),
                out@ == self.bytes@.take(i as int),
        {
            out.push(self.bytes[i]);
            proof {
                assert(out@ =~= self.bytes@.take(i + 1));
            }
        }
        proof {
            assert(self.bytes@.take(n as int) =~= self.bytes@);
        }
        out
    }
}

/// Invocation identifiers and the number of invocations whose results are outstanding.
pub struct InvocationBudget {
    pending: usize,
    next_invocation_id: u64,
}

impl InvocationBudget {
    /// Invocations whose results are outstanding.
    pub closed spec fn outstanding(&self) -> usize {
        self.pending
    }

    /// The identifier of the next invocation.
    pub closed spec fn next_id(&self) -> u64 {
        self.next_invocation_id
    }

    /// Nothing outstanding; identifiers start at 1.
    pub fn new() -> (b: Self)
        ensures
            b.outstanding() == 0,
            b.next_id() == 1,
    {
        InvocationBudget { pending: 0, next_invocation_id: 1 }
    }

    /// Reserve room for one more outstanding invocation and its identifier;
    /// `None` when `INVOCATION_RESULT_CAPACITY` invocations are outstanding.
    /// Identifiers count up from 1 and wrap around.
    pub fn reserve(&mut self) -> (id: Option<u64>)
        requires
            old(self).outstanding() <= INVOCATION_RESULT_CAPACITY,
        ensures
            final(self).outstanding() <= INVOCATION_RESULT_CAPACITY,
            old(self).outstanding() < INVOCATION_RESULT_CAPACITY ==> {
                &&& id == Some(old(self).next_id())
                &&& final(self).outstanding() == old(self).outstanding() + 1
                &&& final(self).next_id() == if old(self).next_id() == u64::MAX {
                    0
                } else {
                    (old(self).next_id() + 1) as u64
                }
            },
            old(self).outstanding() == INVOCATION_RESULT_CAPACITY ==> id is None
                && final(self).outstanding() == old(self).outstanding() && final(self).next_id()
                == old(self).next_id(),
    {
        if self.pending >= INVOCATION_RESULT_CAPACITY {
            return None;
        }
        self.pending = self.pending + 1;
        let id = self.next_invocation_id;
        self.next_invocation_id = if id == u64::MAX { 0 } else { id + 1 };
        Some(id)
    }

    /// Give back a reservation whose invocation could not be queued.
    pub fn release(&mut self)
        requires
            old(self).outstanding() > 0,
        ensures
            final(self).outstanding() == old(self).outstanding() - 1,
            final(self).next_id() == old(self).next_id(),
    {
        self.pending = self.pending - 1;
    }

    /// Account for `count` delivered results.
    pub fn complete(&mut self, count: usize)
        requires
            count <= old(self).outstanding(),
        ensures
            final(self).outstanding() == old(self).outstanding() - count,
            final(self).next_id() == old(self).next_id(),
    {
        self.pending = self.pending - count;
    }
}

} // verus!
