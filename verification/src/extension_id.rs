//! Extension identifiers: reverse-domain names such as `com.example.extension`.
use vstd::prelude::*;
use vstd::string::*;

use crate::text::str_equal;

verus! {

/// Longest accepted extension identifier, in characters.
pub const MAX_EXTENSION_ID_CHARS: usize = 128;

/// Identifier of the built-in application search extension.
pub const APPLICATION_EXTENSION_ID: &'static str = "com.nanika.applications";
/// Identifier of the built-in command extension.
pub const COMMAND_EXTENSION_ID: &'static str = "com.nanika.command";
/// Identifier of the built-in script extension.
pub const SCRIPT_EXTENSION_ID: &'static str = "com.nanika.scripts";
/// Identifier of the built-in calculator extension.
pub const CALCULATOR_EXTENSION_ID: &'static str = "com.nanika.calculator";
/// Identifier of the built-in clipboard history extension.
pub const CLIPBOARD_EXTENSION_ID: &'static str = "com.nanika.clipboard";

/// A character allowed inside one dot-separated segment of an identifier.
pub open spec fn is_id_segment_char(c: char) -> bool {
    ('a' <= c && c <= 'z') || ('0' <= c && c <= '9') || c == '-' || c == '_'
}

/// Whether `id` is a valid extension identifier: 1 to 128 characters of
/// lower-case ASCII letters, digits, `-`, `_` and `.`, with at least one `.`,
/// and no empty segment (no leading, trailing or doubled `.`).
pub open spec fn valid_extension_id(id: Seq<char>) -> bool {
    &&& 0 < id.len() <= MAX_EXTENSION_ID_CHARS
    &&& id[0] != '.'
    &&& id.last() != '.'
    &&& exists|i: int| 0 <= i < id.len() && id[i] == '.'
    &&& forall|i: int| 0 <= i < id.len() ==> id[i] == '.' || is_id_segment_char(id[i])
    &&& forall|i: int| 0 <= i < id.len() - 1 ==> !(#[trigger] id[i] == '.' && id[i + 1] == '.')
}

/// The identifiers reserved for extensions shipped with the host.
pub open spec fn builtin_extension_ids() -> Seq<Seq<char>> {
    seq![
        APPLICATION_EXTENSION_ID@,
        COMMAND_EXTENSION_ID@,
        SCRIPT_EXTENSION_ID@,
        CALCULATOR_EXTENSION_ID@,
        CLIPBOARD_EXTENSION_ID@,
    ]
}

/// Whether `id` is a valid extension identifier.
pub fn is_valid_extension_id(id: &str) -> (valid: bool)
    ensures
        valid == valid_extension_id(id@),
{
    let n = id.unicode_len();
    if n == 0 || n > MAX_EXTENSION_ID_CHARS {
        return false;
    }
    if id.get_char(0) == '.' || id.get_char(n - 1) == '.' {
        return false;
    }
    let mut seen_dot = false;
    let mut i: usize = 0;
    while i < n
        invariant
            0 < n <= MAX_EXTENSION_ID_CHARS,
            n == id@.len(),
            i <= n,
            id@[0] != '.',
            seen_dot <==> exists|k: int| 0 <= k < i && id@[k] == '.',
            forall|k: int| 0 <= k < i ==> id@[k] == '.' || is_id_segment_char(id@[k]),
            forall|k: int| 0 <= k < i - 1 ==> !(#[trigger] id@[k] == '.' && id@[k + 1] == '.'),
        decreases n - i,
    {
        let c = id.get_char(i);
        let allowed = ('a' <= c && c <= 'z') || ('0' <= c && c <= '9') || c == '-' || c == '_'
            || c == '.';
        if !allowed {
            return false;
        }
        if c == '.' {
            if id.get_char(i - 1) == '.' {
                assert(!(id@[i - 1] == '.' && id@[i - 1 + 1] == '.') ==> false);
                return false;
            }
            seen_dot = true;
        }
        i = i + 1;
    }
    seen_dot
}

/// Whether `id` names an extension shipped with the host.
pub fn is_builtin_extension_id(id: &str) -> (builtin: bool)
    ensures
        builtin == builtin_extension_ids().contains(id@),
{
    let r = str_equal(id, APPLICATION_EXTENSION_ID) || str_equal(id, COMMAND_EXTENSION_ID)
        || str_equal(id, SCRIPT_EXTENSION_ID) || str_equal(id, CALCULATOR_EXTENSION_ID)
        || str_equal(id, CLIPBOARD_EXTENSION_ID);
    proof {
        let ids = builtin_extension_ids();
        if r {
            if id@ == APPLICATION_EXTENSION_ID@ {
                assert(ids[0] == id@);
            } else if id@ == COMMAND_EXTENSION_ID@ {
                assert(ids[1] == id@);
            } else if id@ == SCRIPT_EXTENSION_ID@ {
                assert(ids[2] == id@);
            } else if id@ == CALCULATOR_EXTENSION_ID@ {
                assert(ids[3] == id@);
            } else {
                assert(ids[4] == id@);
            }
        } else {
            assert(!ids.contains(id@));
        }
    }
    r
}

} // verus!
