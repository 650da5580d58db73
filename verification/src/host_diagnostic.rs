//! Redaction-safe host diagnostics and the duplicate suppression applied
//! before they are written to the diagnostic log.
use vstd::prelude::*;

use crate::diagnostic_code::DiagnosticCode;
use crate::text::str_equal;

verus! {

/// A diagnostic recorded this recently is not recorded again, in nanoseconds.
pub const RECORD_INTERVAL_NANOS: u64 = 30_000_000_000;
/// Most distinct diagnostics remembered for duplicate suppression.
pub const MAX_RECORD_KEYS: usize = 256;

/// Redaction-safe host diagnostic with the text of its technical source.
#[derive(Clone)]
pub struct HostDiagnostic {
    code: DiagnosticCode,
    operation: &'static str,
    user_message: String,
    safe_context: Option<String>,
    source: Option<String>,
}

/// The text of an optional string.
pub open spec fn opt_view(s: Option<String>) -> Option<Seq<char>> {
    match s {
        Some(t) => Some(t@),
        None => None,
    }
}

/// The contents of a diagnostic.
pub struct HostDiagnosticView {
    pub code: DiagnosticCode,
    pub operation: Seq<char>,
    pub user_message: Seq<char>,
    pub safe_context: Option<Seq<char>>,
    pub source: Option<Seq<char>>,
}

impl View for HostDiagnostic {
    type V = HostDiagnosticView;

    closed spec fn view(&self) -> HostDiagnosticView {
        HostDiagnosticView {
            code: self.code,
            operation: self.operation@,
            user_message: self.user_message@,
            safe_context: opt_view(self.safe_context),
            source: opt_view(self.source),
        }
    }
}

impl HostDiagnostic {
    /// A diagnostic with no context and no source.
    pub fn new(code: DiagnosticCode, operation: &'static str, user_message: String) -> (d: Self)
        ensures
            d@ == (HostDiagnosticView {
                code,
                operation: operation@,
                user_message: user_message@,
                safe_context: None,
                source: None,
            }),
    {
        HostDiagnostic { code, operation, user_message, safe_context: None, source: None }
    }

    /// A diagnostic caused by an error, kept as the error's description.
    pub fn from_error(
        code: DiagnosticCode,
        operation: &'static str,
        user_message: String,
        source: String,
    ) -> (d: Self)
        ensures
            d@ == (HostDiagnosticView {
                code,
                operation: operation@,
                user_message: user_message@,
                safe_context: None,
                source: Some(source@),
            }),
    {
        HostDiagnostic { code, operation, user_message, safe_context: None, source: Some(source) }
    }

    /// A diagnostic caused by a failure known only by its message.
    pub fn from_message(
        code: DiagnosticCode,
        operation: &'static str,
        user_message: String,
        source: String,
    ) -> (d: Self)
        ensures
            d@ == (HostDiagnosticView {
                code,
                operation: operation@,
                user_message: user_message@,
                safe_context: None,
                source: Some(source@),
            }),
    {
        HostDiagnostic::from_error(code, operation, user_message, source)
    }

    /// The diagnostic code.
    pub fn code(&self) -> (code: DiagnosticCode)
        ensures
            code == self@.code,
    {
        self.code
    }

    /// The operation that failed.
    pub fn operation(&self) -> (operation: &'static str)
        ensures
            operation@ == self@.operation,
    {
        self.operation
    }

    /// The same diagnostic with a context that is safe to write to the log.
    pub fn with_safe_context(self, safe_context: String) -> (d: Self)
        ensures
            d@ == (HostDiagnosticView { safe_context: Some(safe_context@), ..self@ }),
    {
        HostDiagnostic { safe_context: Some(safe_context), ..self }
    }

    /// The message shown to the user; it is also how the diagnostic displays.
    pub fn user_message(&self) -> (message: &str)
        ensures
            message@ == self@.user_message,
    {
        self.user_message.as_str()
    }

    /// The context that is safe to write to the log, if any.
    pub fn safe_context(&self) -> (context: Option<&str>)
        ensures
            match context {
                Some(c) => self@.safe_context == Some(c@),
                None => self@.safe_context is None,
            },
    {
        match &self.safe_context {
            Some(c) => Some(c.as_str()),
            None => None,
        }
    }

    /// The description of the technical source, if any.
    pub fn source_message(&self) -> (source: Option<&str>)
        ensures
            match source {
                Some(c) => self@.source == Some(c@),
                None => self@.source is None,
            },
    {
        match &self.source {
            Some(c) => Some(c.as_str()),
            None => None,
        }
    }

    /// Whether this warning is to be written to the log now (at `now`
    /// nanoseconds on the monotonic clock), as `recorder` decides.
    pub fn record_warning(&self, recorder: &mut DiagnosticRecorder, now: u64) -> (log: bool)
        requires
            old(recorder).wf(),
        ensures
            final(recorder).wf(),
            final(recorder).recent().len() <= MAX_RECORD_KEYS,
            log == record_decision(old(recorder).recent(), key_of(self@, false), now),
            final(recorder).recent() == recorded_after(
                old(recorder).recent(),
                key_of(self@, false),
                now,
            ),
    {
        recorder.should_record(self, false, now)
    }

    /// Whether this error is to be written to the log now, as `recorder` decides.
    pub fn record_error(&self, recorder: &mut DiagnosticRecorder, now: u64) -> (log: bool)
        requires
            old(recorder).wf(),
        ensures
            final(recorder).wf(),
            final(recorder).recent().len() <= MAX_RECORD_KEYS,
            log == record_decision(old(recorder).recent(), key_of(self@, true), now),
            final(recorder).recent() == recorded_after(
                old(recorder).recent(),
                key_of(self@, true),
                now,
            ),
    {
        recorder.should_record(self, true, now)
    }
}

/// Bounded duplicate-suppression identity for one operational event.
pub struct RecordKey {
    pub code: DiagnosticCode,
    pub operation: Seq<char>,
    pub safe_context: Option<Seq<char>>,
    pub error: bool,
}

/// The identity under which `d` is recorded.
pub open spec fn key_of(d: HostDiagnosticView, error: bool) -> RecordKey {
    RecordKey { code: d.code, operation: d.operation, safe_context: d.safe_context, error }
}

/// A record made at `recorded` is still within the suppression interval at `now`.
pub open spec fn fresh(recorded: u64, now: u64) -> bool {
    now < recorded || now - recorded < RECORD_INTERVAL_NANOS
}

/// The records of `s` still within the suppression interval at `now`, in order.
pub open spec fn retained(s: Seq<(RecordKey, u64)>, now: u64) -> Seq<(RecordKey, u64)>
    decreases s.len(),
{
    if s.len() == 0 {
        Seq::empty()
    } else {
        let rest = retained(s.drop_last(), now);
        if fresh(s.last().1, now) {
            rest.push(s.last())
        } else {
            rest
        }
    }
}

/// Some record of `s` has identity `key`.
pub open spec fn has_record(s: Seq<(RecordKey, u64)>, key: RecordKey) -> bool {
    exists|i: int| 0 <= i < s.len() && #[trigger] s[i].0 == key
}

/// A diagnostic is logged when no record of the same identity is still
/// within the interval and fewer than `MAX_RECORD_KEYS` records are.
pub open spec fn record_decision(s: Seq<(RecordKey, u64)>, key: RecordKey, now: u64) -> bool {
    let kept = retained(s, now);
    !has_record(kept, key) && kept.len() < MAX_RECORD_KEYS
}

/// The records kept after deciding about `key` at `now`.
pub open spec fn recorded_after(s: Seq<(RecordKey, u64)>, key: RecordKey, now: u64) -> Seq<
    (RecordKey, u64),
> {
    if record_decision(s, key, now) {
        retained(s, now).push((key, now))
    } else {
        retained(s, now)
    }
}

fn opt_str_equal(a: &Option<String>, b: &Option<String>) -> (r: bool)
    ensures
        r == (opt_view(*a) == opt_view(*b)),
{
    match (a, b) {
        (Some(x), Some(y)) => str_equal(x.as_str(), y.as_str()),
        (None, None) => true,
        _ => false,
    }
}

struct RecordEntry {
    code: DiagnosticCode,
    operation: &'static str,
    safe_context: Option<String>,
    error: bool,
    recorded_at: u64,
}

/// Recent diagnostic records, used to log each operational event at most
/// once per interval.
pub struct DiagnosticRecorder {
    recent: Vec<RecordEntry>,
}

spec fn entry_view(e: RecordEntry) -> (RecordKey, u64) {
    (
        RecordKey {
            code: e.code,
            operation: e.operation@,
            safe_context: opt_view(e.safe_context),
            error: e.error,
        },
        e.recorded_at,
    )
}

impl DiagnosticRecorder {
    /// The records kept, oldest first.
    pub closed spec fn recent(&self) -> Seq<(RecordKey, u64)> {
        self.recent@.map_values(|e: RecordEntry| entry_view(e))
    }

    /// At most `MAX_RECORD_KEYS` records are kept.
    pub closed spec fn wf(&self) -> bool {
        self.recent@.len() <= MAX_RECORD_KEYS
    }

    /// A well-formed recorder keeps at most `MAX_RECORD_KEYS` records.
    pub proof fn lemma_recent_bounded(&self)
        requires
            self.wf(),
        ensures
            self.recent().len() <= MAX_RECORD_KEYS,
    {
    }

    /// A recorder that has recorded nothing.
    pub fn new() -> (recorder: Self)
        ensures
            recorder.wf(),
            recorder.recent() == Seq::<(RecordKey, u64)>::empty(),
            recorder.recent().len() <= MAX_RECORD_KEYS,
    {
        let recorder = DiagnosticRecorder { recent: Vec::new() };
        assert(recorder.recent() =~= Seq::<(RecordKey, u64)>::empty());
        recorder
    }

    /// Forget the records older than the interval, then decide whether
    /// `diagnostic` (as a warning or an error) is logged at `now`, remembering it if so.
    pub fn should_record(&mut self, diagnostic: &HostDiagnostic, error: bool, now: u64) -> (log:
        bool)
        requires
            old(self).wf(),
        ensures
            final(self).wf(),
            final(self).recent().len() <= MAX_RECORD_KEYS,
            log == record_decision(old(self).recent(), key_of(diagnostic@, error), now),
            final(self).recent() == recorded_after(
                old(self).recent(),
                key_of(diagnostic@, error),
                now,
            ),
    {
        let ghost before = self.recent();
        let ghost key = key_of(diagnostic@, error);
        let mut kept: Vec<RecordEntry> = Vec::new();
        let mut old_entries = Vec::new();
        std::mem::swap(&mut old_entries, &mut self.recent);
        let ghost entries = old_entries@;
        let n = old_entries.len();
        let mut found = false;
        let mut rest = old_entries;
        let mut reversed: Vec<RecordEntry> = Vec::new();
        while rest.len() > 0
            invariant
                rest@.len() + reversed@.len() == n,
                n == entries.len(),
                forall|i: int| 0 <= i < rest@.len() ==> #[trigger] rest@[i] == entries[i],
                forall|i: int| 0 <= i < reversed@.len() ==> #[trigger] reversed@[i] == entries[n - 1 - i],
            decreases rest@.len(),
        {
            let e = rest.pop().unwrap();
            reversed.push(e);
        }
        let mut i: usize = 0;
        while reversed.len() > 0
            invariant
                i + reversed@.len() == n,
                n == entries.len(),
                n <= MAX_RECORD_KEYS,
                key == key_of(diagnostic@, error),
                before == entries.map_values(|e: RecordEntry| entry_view(e)),
                forall|j: int| 0 <= j < reversed@.len() ==> #[trigger] reversed@[j] == entries[n - 1 - j],
                kept@.map_values(|e: RecordEntry| entry_view(e)) == retained(before.take(i as int), now),
                kept@.len() <= i,
                found == has_record(kept@.map_values(|e: RecordEntry| entry_view(e)), key),
            decreases reversed@.len(),
        {
            let e = reversed.pop().unwrap();
            proof {
                assert(e == entries[i as int]);
                assert(before.take(i + 1).drop_last() =~= before.take(i as int));
                assert(before.take(i + 1).last() == entry_view(e));
            }
            let is_fresh = now < e.recorded_at || now - e.recorded_at < RECORD_INTERVAL_NANOS;
            if is_fresh {
                let same_code = e.code == diagnostic.code;
                let same_operation = str_equal(e.operation, diagnostic.operation);
                let same_context = opt_str_equal(&e.safe_context, &diagnostic.safe_context);
                let same = same_code && same_operation && e.error == error && same_context;
                let ghost kv = kept@.map_values(|e: RecordEntry| entry_view(e));
                kept.push(e);
                proof {
                    let nv = kept@.map_values(|e: RecordEntry| entry_view(e));
                    assert(nv =~= kv.push(entry_view(e)));
                    assert(same == (entry_view(e).0 == key));
                    if has_record(nv, key) {
                        let j = choose|j: int| 0 <= j < nv.len() && #[trigger] nv[j].0 == key;
                        if j < kv.len() {
                            assert(kv[j].0 == key);
                        }
                    }
                    if same {
                        assert(nv[kv.len() as int].0 == key);
                    }
                    if found {
                        let j = choose|j: int| 0 <= j < kv.len() && #[trigger] kv[j].0 == key;
                        assert(nv[j].0 == key);
                    }
                }
                found = found || same;
            }
            i = i + 1;
        }
        proof {
            assert(before.take(n as int) =~= before);
        }
        let log = !found && kept.len() < MAX_RECORD_KEYS;
        if log {
            let entry = RecordEntry {
                code: diagnostic.code,
                operation: diagnostic.operation,
                safe_context: diagnostic.safe_context.clone(),
                error,
                recorded_at: now,
            };
            let ghost kv = kept@.map_values(|e: RecordEntry| entry_view(e));
            kept.push(entry);
            proof {
                let nv = kept@.map_values(|e: RecordEntry| entry_view(e));
                assert(entry_view(entry) == (key, now));
                assert(nv =~= kv.push((key, now)));
            }
        }
        self.recent = kept;
        log
    }
}

/// Once a diagnostic was logged at `t`, the same diagnostic is not logged
/// again before the interval has passed.
pub proof fn lemma_logged_once_per_interval(
    s: Seq<(RecordKey, u64)>,
    key: RecordKey,
    t: u64,
    later: u64,
)
    requires
        record_decision(s, key, t),
        t <= later,
        later - t < RECORD_INTERVAL_NANOS,
    ensures
        !record_decision(recorded_after(s, key, t), key, later),
{
    let after = recorded_after(s, key, t);
    let kept = retained(s, t);
    assert(after == kept.push((key, t)));
    assert(after.drop_last() =~= kept);
    assert(retained(after, later) == retained(kept, later).push((key, t)));
    let r = retained(after, later);
    assert(r[r.len() - 1].0 == key);
}

/// The records after deciding about each of `calls` (identity, time) in turn.
pub open spec fn records_after_calls(s: Seq<(RecordKey, u64)>, calls: Seq<(RecordKey, u64)>) -> Seq<
    (RecordKey, u64),
>
    decreases calls.len(),
{
    if calls.len() == 0 {
        s
    } else {
        let before = records_after_calls(s, calls.drop_last());
        recorded_after(before, calls.last().0, calls.last().1)
    }
}

/// Whether call `i` of `calls` is logged, after the calls before it.
pub open spec fn call_logged(s: Seq<(RecordKey, u64)>, calls: Seq<(RecordKey, u64)>, i: int) -> bool {
    record_decision(records_after_calls(s, calls.take(i)), calls[i].0, calls[i].1)
}

/// How many of `calls` are logged.
pub open spec fn logged_count(s: Seq<(RecordKey, u64)>, calls: Seq<(RecordKey, u64)>) -> nat
    decreases calls.len(),
{
    if calls.len() == 0 {
        0
    } else {
        logged_count(s, calls.drop_last()) + if record_decision(
            records_after_calls(s, calls.drop_last()),
            calls.last().0,
            calls.last().1,
        ) {
            1nat
        } else {
            0nat
        }
    }
}

/// `now` lies in the interval that starts at `start`.
pub open spec fn within_interval(start: u64, now: u64) -> bool {
    start <= now && now - start < RECORD_INTERVAL_NANOS
}

/// How many records of `s` were made at `start` or later.
spec fn count_since(s: Seq<(RecordKey, u64)>, start: u64) -> nat
    decreases s.len(),
{
    if s.len() == 0 {
        0
    } else {
        count_since(s.drop_last(), start) + if s.last().1 >= start {
            1nat
        } else {
            0nat
        }
    }
}

proof fn lemma_count_since_bounded(s: Seq<(RecordKey, u64)>, start: u64)
    ensures
        count_since(s, start) <= s.len(),
    decreases s.len(),
{
    if s.len() > 0 {
        lemma_count_since_bounded(s.drop_last(), start);
    }
}

proof fn lemma_retained_shorter(s: Seq<(RecordKey, u64)>, now: u64)
    ensures
        retained(s, now).len() <= s.len(),
    decreases s.len(),
{
    if s.len() > 0 {
        lemma_retained_shorter(s.drop_last(), now);
    }
}

/// Every record made since `start` is still kept at a time within the interval from `start`.
proof fn lemma_retained_keeps_recent(s: Seq<(RecordKey, u64)>, now: u64, start: u64)
    requires
        within_interval(start, now),
    ensures
        count_since(retained(s, now), start) == count_since(s, start),
    decreases s.len(),
{
    if s.len() > 0 {
        lemma_retained_keeps_recent(s.drop_last(), now, start);
        let r = retained(s.drop_last(), now);
        if fresh(s.last().1, now) {
            assert(retained(s, now).drop_last() =~= r);
        }
    }
}

/// A record still within the interval survives every later decision.
proof fn lemma_record_survives(s: Seq<(RecordKey, u64)>, record: (RecordKey, u64), now: u64, key: RecordKey)
    requires
        s.contains(record),
        fresh(record.1, now),
    ensures
        retained(s, now).contains(record),
        recorded_after(s, key, now).contains(record),
    decreases s.len(),
{
    let i = choose|i: int| 0 <= i < s.len() && s[i] == record;
    if i == s.len() - 1 {
        assert(retained(s, now).last() == record);
    } else {
        assert(s.drop_last()[i] == record);
        lemma_record_survives(s.drop_last(), record, now, key);
        let r = retained(s.drop_last(), now);
        let j = choose|j: int| 0 <= j < r.len() && r[j] == record;
        if fresh(s.last().1, now) {
            assert(retained(s, now)[j] == record);
        }
    }
    let kept = retained(s, now);
    let k = choose|k: int| 0 <= k < kept.len() && kept[k] == record;
    if record_decision(s, key, now) {
        assert(recorded_after(s, key, now)[k] == record);
    }
}

/// Once a diagnostic is logged at `t`, no later decision within the
/// interval from `t` logs a diagnostic of the same identity (same code,
/// operation, safe context and level), whatever other diagnostics are
/// decided in between.
pub proof fn lemma_silent_within_interval(
    s: Seq<(RecordKey, u64)>,
    key: RecordKey,
    t: u64,
    calls: Seq<(RecordKey, u64)>,
)
    requires
        record_decision(s, key, t),
        forall|i: int| 0 <= i < calls.len() ==> within_interval(t, #[trigger] calls[i].1),
    ensures
        forall|i: int| 0 <= i < calls.len() && #[trigger] calls[i].0 == key ==> !call_logged(
            recorded_after(s, key, t),
            calls,
            i,
        ),
{
    let start = recorded_after(s, key, t);
    assert(start.last() == (key, t));
    assert(start.contains((key, t)));
    assert forall|i: int| 0 <= i < calls.len() && #[trigger] calls[i].0 == key implies !call_logged(
        start,
        calls,
        i,
    ) by {
        lemma_record_kept_through(start, (key, t), calls.take(i));
        let before = records_after_calls(start, calls.take(i));
        lemma_record_survives(before, (key, t), calls[i].1, key);
        let kept = retained(before, calls[i].1);
        let j = choose|j: int| 0 <= j < kept.len() && kept[j] == (key, t);
        assert(kept[j].0 == key);
    }
}

proof fn lemma_record_kept_through(
    s: Seq<(RecordKey, u64)>,
    record: (RecordKey, u64),
    calls: Seq<(RecordKey, u64)>,
)
    requires
        s.contains(record),
        forall|i: int| 0 <= i < calls.len() ==> within_interval(record.1, #[trigger] calls[i].1),
    ensures
        records_after_calls(s, calls).contains(record),
    decreases calls.len(),
{
    if calls.len() > 0 {
        let prefix = calls.drop_last();
        assert forall|i: int| 0 <= i < prefix.len() implies within_interval(record.1, #[trigger] prefix[i].1) by {
            assert(prefix[i] == calls[i]);
        }
        lemma_record_kept_through(s, record, prefix);
        assert(within_interval(record.1, calls[calls.len() - 1].1));
        lemma_record_survives(records_after_calls(s, prefix), record, calls.last().1, calls.last().0);
    }
}

/// Within any interval of `RECORD_INTERVAL_NANOS`, at most
/// `MAX_RECORD_KEYS` diagnostics are logged: starting from a recorder's
/// records, the decisions made at times within the interval from `start`
/// log at most that many diagnostics in all.
pub proof fn lemma_bounded_per_interval(
    s: Seq<(RecordKey, u64)>,
    start: u64,
    calls: Seq<(RecordKey, u64)>,
)
    requires
        s.len() <= MAX_RECORD_KEYS,
        forall|i: int| 0 <= i < calls.len() ==> within_interval(start, #[trigger] calls[i].1),
    ensures
        logged_count(s, calls) <= MAX_RECORD_KEYS,
{
    lemma_count_tracks_logged(s, start, calls);
    let st = records_after_calls(s, calls);
    lemma_count_since_bounded(st, start);
}

/// The same bound for the decisions of a recorder: from any well-formed
/// recorder, the decisions made within one interval log at most
/// `MAX_RECORD_KEYS` diagnostics.
pub proof fn lemma_recorder_bounded_per_interval(
    recorder: &DiagnosticRecorder,
    start: u64,
    calls: Seq<(RecordKey, u64)>,
)
    requires
        recorder.wf(),
        forall|i: int| 0 <= i < calls.len() ==> within_interval(start, #[trigger] calls[i].1),
    ensures
        logged_count(recorder.recent(), calls) <= MAX_RECORD_KEYS,
{
    recorder.lemma_recent_bounded();
    lemma_bounded_per_interval(recorder.recent(), start, calls);
}

proof fn lemma_count_tracks_logged(s: Seq<(RecordKey, u64)>, start: u64, calls: Seq<(RecordKey, u64)>)
    requires
        s.len() <= MAX_RECORD_KEYS,
        forall|i: int| 0 <= i < calls.len() ==> within_interval(start, #[trigger] calls[i].1),
    ensures
        logged_count(s, calls) <= count_since(records_after_calls(s, calls), start),
        records_after_calls(s, calls).len() <= MAX_RECORD_KEYS,
    decreases calls.len(),
{
    if calls.len() > 0 {
        let prefix = calls.drop_last();
        assert forall|i: int| 0 <= i < prefix.len() implies within_interval(start, #[trigger] prefix[i].1) by {
            assert(prefix[i] == calls[i]);
        }
        lemma_count_tracks_logged(s, start, prefix);
        let before = records_after_calls(s, prefix);
        let (key, now) = calls.last();
        assert(within_interval(start, calls[calls.len() - 1].1));
        lemma_retained_keeps_recent(before, now, start);
        lemma_retained_shorter(before, now);
        let kept = retained(before, now);
        if record_decision(before, key, now) {
            let after = kept.push((key, now));
            assert(after.drop_last() =~= kept);
            assert(count_since(after, start) == count_since(kept, start) + 1);
        }
    }
}

} // verus!
