//! Editing members of a JSONC configuration text in place, keeping its
//! comments and formatting, through `jsonc_parser`'s concrete syntax tree.
use jsonc_parser::cst::{CstInputValue, CstRootNode};
use jsonc_parser::ParseOptions;
use vstd::prelude::*;

use crate::config_store::{object_edit, object_edit_spec, ObjectEdit};

verus! {

/// A JSON value written into a configuration member.
#[derive(Debug, Clone)]
pub enum ConfigScalar {
    Null,
    Bool(bool),
    /// A number, spelled as JSON spells it.
    Number(String),
    Text(String),
}

/// The contents of a JSON value.
pub enum ScalarView {
    Null,
    Bool(bool),
    Number(Seq<char>),
    Text(Seq<char>),
}

impl View for ConfigScalar {
    type V = ScalarView;

    open spec fn view(&self) -> ScalarView {
        match self {
            ConfigScalar::Null => ScalarView::Null,
            ConfigScalar::Bool(b) => ScalarView::Bool(*b),
            ConfigScalar::Number(n) => ScalarView::Number(n@),
            ConfigScalar::Text(t) => ScalarView::Text(t@),
        }
    }
}

/// A text result, as text.
pub open spec fn text_result(r: Result<String, String>) -> Result<Seq<char>, Seq<char>> {
    match r {
        Ok(t) => Ok(t@),
        Err(e) => Err(e@),
    }
}

/// The name of an optional member object, as text.
pub open spec fn object_view(object: Option<&str>) -> Option<Seq<char>> {
    match object {
        Some(o) => Some(o@),
        None => None,
    }
}

/// What `CstRootNode::parse` of `text` then printing gives once the root is
/// an object (and, for `Some(name)`, its member `name` is one), or the parse
/// error's description.
pub uninterp spec fn jsonc_object_ensured(text: Seq<char>, object: Option<Seq<char>>) -> Result<
    Seq<char>,
    Seq<char>,
>;

/// Whether the object (the root, or its member `object`) of the JSONC
/// `text` has a member `key`, or the parse error's description.
pub uninterp spec fn jsonc_member_present(
    text: Seq<char>,
    object: Option<Seq<char>>,
    key: Seq<char>,
) -> Result<bool, Seq<char>>;

/// The JSONC `text` with the value of its member `key` of the object
/// replaced by `value` (`CstObjectProp::set_value`), printed, or the parse
/// error's description.
pub uninterp spec fn jsonc_member_replaced(
    text: Seq<char>,
    object: Option<Seq<char>>,
    key: Seq<char>,
    value: ScalarView,
) -> Result<Seq<char>, Seq<char>>;

/// The JSONC `text` with a member `key` set to `value` added at the end of
/// the object (`CstObject::append`), printed, or the parse error's
/// description.
pub uninterp spec fn jsonc_member_appended(
    text: Seq<char>,
    object: Option<Seq<char>>,
    key: Seq<char>,
    value: ScalarView,
) -> Result<Seq<char>, Seq<char>>;

/// The JSONC `text` without member `key` of the object
/// (`CstObjectProp::remove`), printed, or the parse error's description.
pub uninterp spec fn jsonc_member_removed(
    text: Seq<char>,
    object: Option<Seq<char>>,
    key: Seq<char>,
) -> Result<Seq<char>, Seq<char>>;

/// `jsonc_parser`: parse `text`, make sure the root (and its member
/// `object`) is an object with `object_value_or_set`, and print the tree.
/// The result is named, not stated.
#[verifier::external_body]
fn ensure_object(text: &str, object: Option<&str>) -> (r: Result<String, String>)
    ensures
        text_result(r) == jsonc_object_ensured(text@, object_view(object)),
{
    let root = CstRootNode::parse(text, &ParseOptions::default()).map_err(|e| e.to_string())?;
    let top = root.object_value_or_set();
    if let Some(name) = object {
        top.object_value_or_set(name);
    }
    Ok(root.to_string())
}

/// `jsonc_parser`: parse `text` and look member `key` of the object up
/// with `CstObject::get`. The result is named, not stated.
#[verifier::external_body]
fn member_present(text: &str, object: Option<&str>, key: &str) -> (r: Result<bool, String>)
    ensures
        match r {
            Ok(b) => jsonc_member_present(text@, object_view(object), key@) == Ok::<bool, Seq<char>>(b),
            Err(e) => jsonc_member_present(text@, object_view(object), key@) == Err::<bool, Seq<char>>(e@),
        },
{
    let root = CstRootNode::parse(text, &ParseOptions::default()).map_err(|e| e.to_string())?;
    let top = root.object_value_or_set();
    let target = if let Some(name) = object { top.object_value_or_set(name) } else { top };
    Ok(target.get(key).is_some())
}

/// `jsonc_parser`: parse `text`, look member `key` of the object up with
/// `CstObject::get`, give it `value` with `CstObjectProp::set_value` and
/// print the tree. The member is there by `requires`. The result is named,
/// not stated.
#[verifier::external_body]
fn member_replaced(text: &str, object: Option<&str>, key: &str, value: &ConfigScalar) -> (r: Result<String, String>)
    requires
        jsonc_member_present(text@, object_view(object), key@) == Ok::<bool, Seq<char>>(true),
    ensures
        text_result(r) == jsonc_member_replaced(text@, object_view(object), key@, value@),
{
    let root = CstRootNode::parse(text, &ParseOptions::default()).map_err(|e| e.to_string())?;
    let top = root.object_value_or_set();
    let target = if let Some(name) = object { top.object_value_or_set(name) } else { top };
    let input = match value {
        ConfigScalar::Null => CstInputValue::Null,
        ConfigScalar::Bool(b) => CstInputValue::Bool(*b),
        ConfigScalar::Number(n) => CstInputValue::Number(n.clone()),
        ConfigScalar::Text(t) => CstInputValue::String(t.clone()),
    };
    target.get(key).unwrap().set_value(input);
    Ok(root.to_string())
}

/// `jsonc_parser`: parse `text`, add a member `key` with `value` at the end
/// of the object with `CstObject::append` and print the tree. The result is
/// named, not stated.
#[verifier::external_body]
fn member_appended(text: &str, object: Option<&str>, key: &str, value: &ConfigScalar) -> (r: Result<String, String>)
    ensures
        text_result(r) == jsonc_member_appended(text@, object_view(object), key@, value@),
{
    let root = CstRootNode::parse(text, &ParseOptions::default()).map_err(|e| e.to_string())?;
    let top = root.object_value_or_set();
    let target = if let Some(name) = object { top.object_value_or_set(name) } else { top };
    let input = match value {
        ConfigScalar::Null => CstInputValue::Null,
        ConfigScalar::Bool(b) => CstInputValue::Bool(*b),
        ConfigScalar::Number(n) => CstInputValue::Number(n.clone()),
        ConfigScalar::Text(t) => CstInputValue::String(t.clone()),
    };
    target.append(key, input);
    Ok(root.to_string())
}

/// `jsonc_parser`: parse `text`, look member `key` of the object up with
/// `CstObject::get`, take it out with `CstObjectProp::remove` and print the
/// tree. The member is there by `requires`. The result is named, not stated.
#[verifier::external_body]
fn member_removed(text: &str, object: Option<&str>, key: &str) -> (r: Result<String, String>)
    requires
        jsonc_member_present(text@, object_view(object), key@) == Ok::<bool, Seq<char>>(true),
    ensures
        text_result(r) == jsonc_member_removed(text@, object_view(object), key@),
{
    let root = CstRootNode::parse(text, &ParseOptions::default()).map_err(|e| e.to_string())?;
    let top = root.object_value_or_set();
    let target = if let Some(name) = object { top.object_value_or_set(name) } else { top };
    target.get(key).unwrap().remove();
    Ok(root.to_string())
}

/// One member update of the object of `text`: `Some(value)` sets the
/// member, `None` removes it; the edit is `object_edit`'s choice for
/// whether the member is present.
pub open spec fn member_edit(
    text: Seq<char>,
    object: Option<Seq<char>>,
    key: Seq<char>,
    value: Option<ScalarView>,
) -> Result<Seq<char>, Seq<char>> {
    match jsonc_member_present(text, object, key) {
        Err(e) => Err(e),
        Ok(present) => match object_edit_spec(present, value is Some) {
            ObjectEdit::Replace => jsonc_member_replaced(text, object, key, value->0),
            ObjectEdit::Append => jsonc_member_appended(text, object, key, value->0),
            ObjectEdit::Remove => jsonc_member_removed(text, object, key),
            ObjectEdit::Skip => Ok(text),
        },
    }
}

/// The member updates applied to `text` in order; the first failure stops them.
pub open spec fn edits_applied(
    text: Seq<char>,
    object: Option<Seq<char>>,
    updates: Seq<(Seq<char>, Option<ScalarView>)>,
) -> Result<Seq<char>, Seq<char>>
    decreases updates.len(),
{
    if updates.len() == 0 {
        Ok(text)
    } else {
        match edits_applied(text, object, updates.drop_last()) {
            Err(e) => Err(e),
            Ok(t) => member_edit(t, object, updates.last().0, updates.last().1),
        }
    }
}

/// The member updates, as text.
pub open spec fn updates_view(updates: Seq<(String, Option<ConfigScalar>)>) -> Seq<
    (Seq<char>, Option<ScalarView>),
> {
    updates.map_values(
        |u: (String, Option<ConfigScalar>)|
            (
                u.0@,
                match u.1 {
                    Some(v) => Some(v@),
                    None => None,
                },
            ),
    )
}

/// `text` with one member update applied.
pub fn edit_member(text: String, object: Option<&str>, key: &str, value: Option<&ConfigScalar>) -> (r:
    Result<String, String>)
    ensures
        text_result(r) == member_edit(
            text@,
            object_view(object),
            key@,
            match value {
                Some(v) => Some(v@),
                None => None,
            },
        ),
{
    let present = member_present(text.as_str(), object, key)?;
    match object_edit(present, value.is_some()) {
        ObjectEdit::Replace => match value {
            Some(v) => member_replaced(text.as_str(), object, key, v),
            None => Ok(text),
        },
        ObjectEdit::Append => match value {
            Some(v) => member_appended(text.as_str(), object, key, v),
            None => Ok(text),
        },
        ObjectEdit::Remove => member_removed(text.as_str(), object, key),
        ObjectEdit::Skip => Ok(text),
    }
}

/// `text` with `updates` applied in order.
pub fn apply_edits(text: String, object: Option<&str>, updates: &Vec<(String, Option<ConfigScalar>)>) -> (r:
    Result<String, String>)
    ensures
        text_result(r) == edits_applied(text@, object_view(object), updates_view(updates@)),
{
    let ghost all = updates_view(updates@);
    let mut current = text;
    let n = updates.len();
    for i in 0..n
        invariant
            n == updates@.len(),
            all == updates_view(updates@),
            edits_applied(text@, object_view(object), all.take(i as int)) == Ok::<
                Seq<char>,
                Seq<char>,
            >(current@),
    {
        proof {
            assert(all.take(i + 1).drop_last() =~= all.take(i as int));
        }
        let value = match &updates[i].1 {
            Some(v) => Some(v),
            None => None,
        };
        match edit_member(current, object, updates[i].0.as_str(), value) {
            Ok(next) => {
                current = next;
            },
            Err(e) => {
                proof {
                    assert(edits_applied(text@, object_view(object), all.take(i + 1)) == Err::<
                        Seq<char>,
                        Seq<char>,
                    >(e@));
                    lemma_failure_persists(text@, object_view(object), all, i + 1);
                }
                return Err(e);
            },
        }
    }
    proof {
        assert(all.take(n as int) =~= all);
    }
    Ok(current)
}

/// Once an update fails, every longer run of the updates fails the same way.
proof fn lemma_failure_persists(
    text: Seq<char>,
    object: Option<Seq<char>>,
    all: Seq<(Seq<char>, Option<ScalarView>)>,
    k: int,
)
    requires
        0 <= k <= all.len(),
        edits_applied(text, object, all.take(k)) is Err,
    ensures
        edits_applied(text, object, all) == edits_applied(text, object, all.take(k)),
    decreases all.len() - k,
{
    if k < all.len() {
        assert(all.take(k + 1).drop_last() =~= all.take(k));
        lemma_failure_persists(text, object, all, k + 1);
    } else {
        assert(all.take(k) =~= all);
    }
}

/// The edited text of an object: the object is made sure of, the updates
/// applied, and the text ends with a line break.
pub open spec fn object_edited(
    text: Seq<char>,
    object: Option<Seq<char>>,
    updates: Seq<(Seq<char>, Option<ScalarView>)>,
) -> Result<Seq<char>, Seq<char>> {
    match jsonc_object_ensured(text, object) {
        Err(e) => Err(e),
        Ok(base) => match edits_applied(base, object, updates) {
            Err(e) => Err(e),
            Ok(t) => Ok(
                if t.len() > 0 && t.last() == '\n' {
                    t
                } else {
                    t.push('\n')
                },
            ),
        },
    }
}

/// `text` with its object (the root, or its member `object`) made sure of
/// and `updates` applied in order, ending with a line break.
pub fn edit_object(text: &str, object: Option<&str>, updates: &Vec<(String, Option<ConfigScalar>)>) -> (r:
    Result<String, String>)
    ensures
        text_result(r) == object_edited(text@, object_view(object), updates_view(updates@)),
{
    let base = ensure_object(text, object)?;
    let edited = apply_edits(base, object, updates)?;
    Ok(crate::config_store::with_final_newline(edited))
}

} // verus!
