//! The bookkeeping of extension workers: which worker serves which
//! extension, how often a process may be restarted, and how the outcome of
//! a unit of work changes the error a worker reports.
use vstd::prelude::*;
use vstd::string::*;

use crate::diagnostic_code::DiagnosticCode;
use crate::host_diagnostic::{HostDiagnostic, HostDiagnosticView};
use crate::supervisor::{SupervisorError, SupervisorErrorKind};
use crate::text::str_equal;

verus! {

/// The extensions served by the registered workers, in registration order.
#[derive(Debug)]
pub struct WorkerDirectory {
    ids: Vec<String>,
}

impl WorkerDirectory {
    /// The identifiers of the registered workers, in registration order.
    pub closed spec fn ids(&self) -> Seq<Seq<char>> {
        self.ids@.map_values(|s: String| s@)
    }

    /// No extension has two workers.
    pub closed spec fn wf(&self) -> bool {
        self.ids().no_duplicates()
    }

    /// No worker registered.
    pub fn new() -> (directory: Self)
        ensures
            directory.wf(),
            directory.ids() == Seq::<Seq<char>>::empty(),
    {
        let directory = WorkerDirectory { ids: Vec::new() };
        assert(directory.ids() =~= Seq::<Seq<char>>::empty());
        directory
    }

    /// The position of the worker of `extension_id`, if there is one.
    fn position(&self, extension_id: &str) -> (found: Option<usize>)
        ensures
            match found {
                Some(i) => i < self.ids().len() && self.ids()[i as int] == extension_id@,
                None => !self.ids().contains(extension_id@),
            },
    {
        let n = self.ids.len();
        for i in 0..n
            invariant
                n == self.ids@.len(),
                forall|j: int| 0 <= j < i ==> #[trigger] self.ids()[j] != extension_id@,
        {
            if str_equal(self.ids[i].as_str(), extension_id) {
                return Some(i);
            }
        }
        None
    }

    /// Register a worker for `extension_id` at the end; refused when the
    /// extension already has one.
    pub fn register(&mut self, extension_id: String) -> (result: Result<usize, String>)
        requires
            old(self).wf(),
        ensures
            final(self).wf(),
            match result {
                Ok(i) => !old(self).ids().contains(extension_id@) && i == old(self).ids().len()
                    && final(self).ids() == old(self).ids().push(extension_id@),
                Err(message) => old(self).ids().contains(extension_id@) && final(self).ids()
                    == old(self).ids() && message@ == "extension search worker already exists: "@
                    + extension_id@,
            },
    {
        if self.position(extension_id.as_str()).is_some() {
            return Err(String::from_str("extension search worker already exists: ").concat(
                extension_id.as_str(),
            ));
        }
        let i = self.ids.len();
        let ghost before = self.ids();
        self.ids.push(extension_id);
        proof {
            assert(self.ids() =~= before.push(self.ids@[i as int]@));
        }
        Ok(i)
    }

    /// The position of the worker that serves `extension_id`.
    pub fn find(&self, extension_id: &str) -> (result: Result<usize, SupervisorError>)
        ensures
            match result {
                Ok(i) => i < self.ids().len() && self.ids()[i as int] == extension_id@,
                Err(e) => !self.ids().contains(extension_id@) && e.kind
                    == SupervisorErrorKind::UnexpectedMessage && e.message@
                    == "extension search worker does not exist: "@ + extension_id@,
            },
    {
        match self.position(extension_id) {
            Some(i) => Ok(i),
            None => Err(
                SupervisorError {
                    kind: SupervisorErrorKind::UnexpectedMessage,
                    message: String::from_str("extension search worker does not exist: ").concat(
                        extension_id,
                    ),
                },
            ),
        }
    }

    /// The number of registered workers.
    pub fn len(&self) -> (n: usize)
        ensures
            n == self.ids().len(),
    {
        self.ids.len()
    }

    /// Whether no worker is registered.
    pub fn is_empty(&self) -> (empty: bool)
        ensures
            empty == (self.ids().len() == 0),
    {
        self.ids.len() == 0
    }

    /// Forget every worker, once they were stopped.
    pub fn clear(&mut self)
        ensures
            final(self).wf(),
            final(self).ids() == Seq::<Seq<char>>::empty(),
    {
        self.ids = Vec::new();
        assert(self.ids() =~= Seq::<Seq<char>>::empty());
    }
}

/// The restart count of the replacement process; refused once `max_restarts`
/// restarts were made.
pub fn next_restart(restart_count: u32, max_restarts: u32) -> (result: Result<u32, SupervisorError>)
    ensures
        match result {
            Ok(next) => restart_count < max_restarts && next == restart_count + 1 && next
                <= max_restarts,
            Err(e) => restart_count >= max_restarts && e.kind == SupervisorErrorKind::RestartLimit,
        },
{
    if restart_count >= max_restarts {
        return Err(
            SupervisorError {
                kind: SupervisorErrorKind::RestartLimit,
                message: String::from_str("extension restart limit reached"),
            },
        );
    }
    Ok(restart_count + 1)
}

/// The diagnostic a worker reports when an operation of `extension_id` failed.
pub open spec fn extension_failure_view(
    extension_id: Seq<char>,
    operation: Seq<char>,
    user_message: Seq<char>,
    source: Seq<char>,
) -> HostDiagnosticView {
    HostDiagnosticView {
        code: DiagnosticCode::ExtensionUnavailable,
        operation,
        user_message: user_message + " Extension: "@ + extension_id + "."@,
        safe_context: Some(extension_id),
        source: Some(source),
    }
}

/// The diagnostic a worker reports when `operation` of `extension_id` failed
/// with the description `source`.
pub fn extension_failure(
    extension_id: &str,
    operation: &'static str,
    user_message: &str,
    source: String,
) -> (d: HostDiagnostic)
    ensures
        d@ == extension_failure_view(extension_id@, operation@, user_message@, source@),
{
    let message = String::from_str(user_message).concat(" Extension: ").concat(extension_id).concat(
        ".",
    );
    HostDiagnostic::from_error(DiagnosticCode::ExtensionUnavailable, operation, message, source)
        .with_safe_context(String::from_str(extension_id))
}

/// How the error that a worker reports changes after one unit of work.
#[derive(Clone)]
pub enum ErrorUpdate {
    /// The work succeeded in full: the error is cleared.
    Clear,
    /// The work ended without a verdict (an invocation was cancelled): the error stays.
    Keep,
    /// The work failed: this error is reported.
    Report(HostDiagnostic),
}

/// The error update after a unit of work of `extension_id` ended with
/// `outcome`: `Ok(true)` clears, `Ok(false)` keeps, a failure is reported
/// as the failure of "run extension work".
pub fn work_error_update(extension_id: &str, outcome: Result<bool, SupervisorError>) -> (update:
    ErrorUpdate)
    ensures
        match outcome {
            Ok(true) => update is Clear,
            Ok(false) => update is Keep,
            Err(e) => match update {
                ErrorUpdate::Report(d) => d@ == extension_failure_view(
                    extension_id@,
                    "run extension work"@,
                    "The extension operation failed."@,
                    e.message@,
                ),
                _ => false,
            },
        },
{
    match outcome {
        Ok(true) => ErrorUpdate::Clear,
        Ok(false) => ErrorUpdate::Keep,
        Err(e) => ErrorUpdate::Report(
            extension_failure(
                extension_id,
                "run extension work",
                "The extension operation failed.",
                e.message,
            ),
        ),
    }
}

} // verus!
