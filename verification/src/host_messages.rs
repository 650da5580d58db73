//! Text the host derives for its users: prompts addressed to an agent
//! extension, startup failure summaries, and bounded query text.
use vstd::prelude::*;
use vstd::string::*;

use crate::diagnostic_code::DiagnosticCode;
use crate::extension_id::{
    APPLICATION_EXTENSION_ID, CALCULATOR_EXTENSION_ID, CLIPBOARD_EXTENSION_ID,
    COMMAND_EXTENSION_ID, SCRIPT_EXTENSION_ID,
};
use crate::host_diagnostic::{HostDiagnostic, HostDiagnosticView};
use crate::text::{
    is_white_space, is_whitespace, starts_with, str_equal, trim, trim_spec, trim_start,
    trim_start_spec,
};

verus! {

/// Most search results shown at once.
pub const MAX_VISIBLE_RESULTS: usize = 8;

/// The prompt that `query` addresses to the agent extension `extension_id`:
/// the trimmed query must be `@`, the identifier, white space, then a
/// non-empty prompt, which is returned without its leading white space.
pub open spec fn acp_prompt_spec(extension_id: Seq<char>, query: Seq<char>) -> Option<Seq<char>> {
    let q = trim_spec(query);
    if q.len() == 0 || q[0] != '@' {
        None
    } else {
        let activation = q.drop_first();
        if !extension_id.is_prefix_of(activation) {
            None
        } else {
            let prompt = activation.skip(extension_id.len() as int);
            if prompt.len() == 0 || !is_white_space(prompt[0]) {
                None
            } else {
                let p = trim_start_spec(prompt);
                if p.len() == 0 {
                    None
                } else {
                    Some(p)
                }
            }
        }
    }
}

/// The prompt that `query` addresses to the agent extension `extension_id`, if any.
pub fn acp_prompt<'a>(extension_id: &str, query: &'a str) -> (prompt: Option<&'a str>)
    ensures
        match prompt {
            Some(p) => acp_prompt_spec(extension_id@, query@) == Some(p@),
            None => acp_prompt_spec(extension_id@, query@) is None,
        },
{
    let q = trim(query);
    let n = q.unicode_len();
    if n == 0 || q.get_char(0) != '@' {
        return None;
    }
    let activation = q.substring_char(1, n);
    proof {
        assert(activation@ =~= q@.drop_first());
    }
    if !starts_with(activation, extension_id) {
        return None;
    }
    let m = activation.unicode_len();
    let k = extension_id.unicode_len();
    let rest = activation.substring_char(k, m);
    proof {
        assert(rest@ =~= activation@.skip(k as int));
    }
    if rest.unicode_len() == 0 || !is_whitespace(rest.get_char(0)) {
        return None;
    }
    let p = trim_start(rest);
    if p.unicode_len() == 0 {
        return None;
    }
    Some(p)
}

/// One extension startup failure with a redaction-safe diagnostic context.
#[derive(Debug, Clone)]
pub struct ExtensionStartupError {
    pub diagnostic_context: String,
    pub source: String,
}

impl ExtensionStartupError {
    /// A failure of the extension `diagnostic_context` described by `source`.
    pub fn new(diagnostic_context: String, source: String) -> (e: Self)
        ensures
            e.diagnostic_context@ == diagnostic_context@,
            e.source@ == source@,
    {
        ExtensionStartupError { diagnostic_context, source }
    }
}

/// The user-facing name of the feature that the extension `context` provides.
pub open spec fn feature_of(context: Seq<char>) -> Seq<char> {
    if context == APPLICATION_EXTENSION_ID@ {
        "App search"@
    } else if context == COMMAND_EXTENSION_ID@ {
        "commands"@
    } else if context == SCRIPT_EXTENSION_ID@ {
        "scripts"@
    } else if context == CALCULATOR_EXTENSION_ID@ {
        "calculator"@
    } else if context == CLIPBOARD_EXTENSION_ID@ {
        "clipboard history"@
    } else {
        "an installed feature"@
    }
}

/// The features of `contexts`, each once, in order of first failure.
pub open spec fn feature_list(contexts: Seq<Seq<char>>) -> Seq<Seq<char>>
    decreases contexts.len(),
{
    if contexts.len() == 0 {
        Seq::empty()
    } else {
        let earlier = feature_list(contexts.drop_last());
        let f = feature_of(contexts.last());
        if earlier.contains(f) {
            earlier
        } else {
            earlier.push(f)
        }
    }
}

/// `parts` joined with `separator`.
pub open spec fn join(parts: Seq<Seq<char>>, separator: Seq<char>) -> Seq<char>
    decreases parts.len(),
{
    if parts.len() == 0 {
        Seq::empty()
    } else if parts.len() == 1 {
        parts[0]
    } else {
        join(parts.drop_last(), separator) + separator + parts.last()
    }
}

/// The subject naming `features`: none, one, two joined by "and", or a
/// serial list.
pub open spec fn feature_subject(features: Seq<Seq<char>>) -> Seq<char> {
    if features.len() == 0 {
        "Some Nanika features"@
    } else if features.len() == 1 {
        features[0]
    } else if features.len() == 2 {
        features[0] + " and "@ + features[1]
    } else {
        join(features.drop_last(), ", "@) + ", and "@ + features.last()
    }
}

/// The message shown when extensions fail to start.
pub open spec fn startup_message(contexts: Seq<Seq<char>>) -> Seq<char> {
    let features = feature_list(contexts);
    feature_subject(features) + (if features.len() == 1 {
        " is"@
    } else {
        " are"@
    }) + " unavailable. Restart Nanika. If the problem continues, reinstall Nanika or the affected add-on."@
}

/// The contexts of a list of startup failures.
pub open spec fn contexts_of(errors: Seq<ExtensionStartupError>) -> Seq<Seq<char>> {
    errors.map_values(|e: ExtensionStartupError| e.diagnostic_context@)
}

fn feature_name(context: &str) -> (feature: &'static str)
    ensures
        feature@ == feature_of(context@),
{
    if str_equal(context, APPLICATION_EXTENSION_ID) {
        "App search"
    } else if str_equal(context, COMMAND_EXTENSION_ID) {
        "commands"
    } else if str_equal(context, SCRIPT_EXTENSION_ID) {
        "scripts"
    } else if str_equal(context, CALCULATOR_EXTENSION_ID) {
        "calculator"
    } else if str_equal(context, CLIPBOARD_EXTENSION_ID) {
        "clipboard history"
    } else {
        "an installed feature"
    }
}

fn join_parts(parts: &Vec<&'static str>, end: usize, separator: &str) -> (joined: String)
    requires
        0 < end <= parts@.len(),
    ensures
        joined@ == join(parts@.map_values(|p: &'static str| p@).take(end as int), separator@),
{
    let ghost all = parts@.map_values(|p: &'static str| p@);
    let mut joined = String::from_str(parts[0]);
    proof {
        assert(all.take(1).len() == 1);
        assert(all.take(1)[0] == parts@[0]@);
    }
    for i in 1..end
        invariant
            0 < end <= parts@.len(),
            all == parts@.map_values(|p: &'static str| p@),
            joined@ == join(all.take(i as int), separator@),
    {
        joined.append(separator);
        joined.append(parts[i]);
        proof {
            assert(all.take(i + 1).drop_last() =~= all.take(i as int));
            assert(all.take(i + 1).last() == parts@[i as int]@);
        }
    }
    joined
}

/// The message shown when the extensions of `errors` fail to start.
pub fn extension_startup_user_message(errors: &Vec<ExtensionStartupError>) -> (message: String)
    ensures
        message@ == startup_message(contexts_of(errors@)),
{
    let ghost contexts = contexts_of(errors@);
    let mut features: Vec<&'static str> = Vec::new();
    let n = errors.len();
    for i in 0..n
        invariant
            n == errors@.len(),
            contexts == contexts_of(errors@),
            features@.map_values(|p: &'static str| p@) == feature_list(contexts.take(i as int)),
    {
        let feature = feature_name(errors[i].diagnostic_context.as_str());
        let ghost earlier = features@.map_values(|p: &'static str| p@);
        let mut seen = false;
        for j in 0..features.len()
            invariant
                earlier == features@.map_values(|p: &'static str| p@),
                seen ==> earlier.contains(feature@),
                !seen ==> forall|k: int| 0 <= k < j ==> earlier[k] != feature@,
        {
            if str_equal(features[j], feature) {
                proof {
                    assert(earlier[j as int] == feature@);
                }
                seen = true;
            }
        }
        proof {
            assert(contexts.take(i + 1).drop_last() =~= contexts.take(i as int));
            assert(contexts.take(i + 1).last() == errors@[i as int].diagnostic_context@);
        }
        if !seen {
            features.push(feature);
            proof {
                assert(features@.map_values(|p: &'static str| p@) =~= earlier.push(feature@));
            }
        }
    }
    proof {
        assert(contexts.take(n as int) =~= contexts);
    }
    let ghost fs = features@.map_values(|p: &'static str| p@);
    let count = features.len();
    let subject = if count == 0 {
        String::from_str("Some Nanika features")
    } else if count == 1 {
        String::from_str(features[0])
    } else if count == 2 {
        String::from_str(features[0]).concat(" and ").concat(features[1])
    } else {
        proof {
            assert(fs.take(count - 1) =~= fs.drop_last());
        }
        join_parts(&features, count - 1, ", ").concat(", and ").concat(features[count - 1])
    };
    let verb = if count == 1 {
        " is"
    } else {
        " are"
    };
    subject.concat(verb).concat(
        " unavailable. Restart Nanika. If the problem continues, reinstall Nanika or the affected add-on.",
    )
}

/// The diagnostics reported for extensions that failed to start: each keeps
/// its failure as the source and its extension as the safe context, and all
/// share the message of `extension_startup_user_message`.
pub fn extension_startup_diagnostics(errors: Vec<ExtensionStartupError>) -> (diagnostics: Vec<
    HostDiagnostic,
>)
    ensures
        diagnostics@.len() == errors@.len(),
        forall|i: int|
            0 <= i < errors@.len() ==> (#[trigger] diagnostics@[i])@ == (HostDiagnosticView {
                code: DiagnosticCode::ExtensionUnavailable,
                operation: "start extension"@,
                user_message: startup_message(contexts_of(errors@)),
                safe_context: Some(errors@[i].diagnostic_context@),
                source: Some(errors@[i].source@),
            }),
{
    let message = extension_startup_user_message(&errors);
    let mut diagnostics: Vec<HostDiagnostic> = Vec::new();
    let n = errors.len();
    for i in 0..n
        invariant
            n == errors@.len(),
            message@ == startup_message(contexts_of(errors@)),
            diagnostics@.len() == i,
            forall|j: int|
                0 <= j < i ==> (#[trigger] diagnostics@[j])@ == (HostDiagnosticView {
                    code: DiagnosticCode::ExtensionUnavailable,
                    operation: "start extension"@,
                    user_message: startup_message(contexts_of(errors@)),
                    safe_context: Some(errors@[j].diagnostic_context@),
                    source: Some(errors@[j].source@),
                }),
    {
        let diagnostic = HostDiagnostic::from_message(
            DiagnosticCode::ExtensionUnavailable,
            "start extension",
            message.clone(),
            errors[i].source.clone(),
        ).with_safe_context(errors[i].diagnostic_context.clone());
        diagnostics.push(diagnostic);
    }
    diagnostics
}

/// A runtime error is shown unless an earlier one has the same message.
pub open spec fn renders_runtime_error(errors: Seq<HostDiagnosticView>, index: int) -> bool {
    0 <= index < errors.len() && forall|j: int|
        0 <= j < index ==> #[trigger] errors[j].user_message != errors[index].user_message
}

/// Whether the runtime error at `index` is shown.
pub fn should_render_runtime_error(errors: &Vec<HostDiagnostic>, index: usize) -> (render: bool)
    ensures
        render == renders_runtime_error(errors@.map_values(|d: HostDiagnostic| d@), index as int),
{
    let ghost views = errors@.map_values(|d: HostDiagnostic| d@);
    if index >= errors.len() {
        return false;
    }
    let message = errors[index].user_message();
    for j in 0..index
        invariant
            index < errors@.len(),
            views == errors@.map_values(|d: HostDiagnostic| d@),
            message@ == views[index as int].user_message,
            forall|k: int| 0 <= k < j ==> #[trigger] views[k].user_message != views[index as int].user_message,
    {
        if str_equal(errors[j].user_message(), message) {
            proof {
                assert(views[j as int].user_message == views[index as int].user_message);
            }
            return false;
        }
    }
    true
}

/// The last selectable position among `result_count` results.
pub fn maximum_visible_result_index(result_count: usize) -> (index: usize)
    ensures
        index == if result_count == 0 {
            0
        } else if result_count < MAX_VISIBLE_RESULTS {
            result_count - 1
        } else {
            MAX_VISIBLE_RESULTS - 1
        },
{
    let shown = if result_count < MAX_VISIBLE_RESULTS {
        result_count
    } else {
        MAX_VISIBLE_RESULTS
    };
    if shown == 0 {
        0
    } else {
        shown - 1
    }
}

/// The selection after moving down: one further, within the visible results.
pub fn select_next(selected: usize, result_count: usize) -> (next: usize)
    ensures
        next == if selected as int + 1 < maximum_visible(result_count) {
            selected as int + 1
        } else {
            maximum_visible(result_count)
        },
{
    let maximum = maximum_visible_result_index(result_count);
    let step = if selected == usize::MAX { usize::MAX } else { selected + 1 };
    if step < maximum { step } else { maximum }
}

/// The last selectable position among `result_count` results.
pub open spec fn maximum_visible(result_count: usize) -> int {
    if result_count == 0 {
        0
    } else if result_count < MAX_VISIBLE_RESULTS {
        result_count - 1
    } else {
        MAX_VISIBLE_RESULTS - 1
    }
}

/// The selection after moving up: one back, stopping at the first result.
pub fn select_previous(selected: usize) -> (previous: usize)
    ensures
        previous == if selected == 0 { 0 } else { selected - 1 },
{
    if selected == 0 { 0 } else { selected - 1 }
}

/// Keep at most the first `maximum` characters of `value`.
pub fn truncate_chars(value: &mut String, maximum: usize)
    ensures
        final(value)@ == if old(value)@.len() > maximum {
            old(value)@.take(maximum as int)
        } else {
            old(value)@
        },
{
    let n = value.as_str().unicode_len();
    if n <= maximum {
        return;
    }
    let kept = String::from_str(value.as_str().substring_char(0, maximum));
    proof {
        assert(kept@ =~= old(value)@.take(maximum as int));
    }
    *value = kept;
}

} // verus!
