//! The checks applied to each entry of a package archive before it is extracted.
use vstd::prelude::*;
use vstd::string::*;

use crate::manifest::{safe_relative_path, validate_relative_path};
use crate::package::{
    MAX_COMPRESSION_RATIO, MAX_ENTRIES, MAX_EXPANDED_BYTES, RATIO_EXEMPT_BYTES,
};
use crate::package_error::{manifest_error, ExtensionPackageError, PackageErrorView};
use crate::path::{PathModel, PathView};
use crate::text::{ascii_lower, eq_ignore_ascii_case};

verus! {

/// How an archive entry is compressed.
#[derive(Debug, Clone, Copy, PartialEq, Eq, Structural)]
pub enum EntryCompression {
    Stored,
    Deflated,
    /// Any other method, which packages may not use.
    Other,
}

/// What the archive says about one entry.
#[derive(Debug, Clone)]
pub struct ArchiveEntry {
    pub compression: EntryCompression,
    /// Size once extracted, in bytes.
    pub size: u64,
    /// Size in the archive, in bytes.
    pub compressed_size: u64,
    /// The entry's path, when the archive's name for it stays inside the
    /// destination, with that path written out as text.
    pub enclosed: Option<(PathModel, String)>,
    /// Unix permission and file-type bits, when recorded.
    pub unix_mode: Option<u32>,
}

/// The name under which two entries collide: `\` read as `/`, ASCII letters lower-cased.
pub open spec fn collision_key(name: Seq<char>) -> Seq<char> {
    name.map_values(|c: char| ascii_lower(if c == '\\' { '/' } else { c }))
}

/// Whether the Unix mode marks a symbolic link.
pub open spec fn is_symlink_mode(mode: u32) -> bool {
    mode & 0o170000u32 == 0o120000u32
}

/// `a + b`, or `u64::MAX` when that overflows.
pub open spec fn saturating_add(a: u64, b: u64) -> u64 {
    if a + b > u64::MAX {
        u64::MAX
    } else {
        (a + b) as u64
    }
}

/// `a * b`, or `u64::MAX` when that overflows.
pub open spec fn saturating_mul(a: u64, b: u64) -> u64 {
    if a * b > u64::MAX {
        u64::MAX
    } else {
        (a * b) as u64
    }
}

/// Why an archive with `count` entries is refused, if it is.
pub open spec fn entry_count_error(count: usize) -> Option<PackageErrorView> {
    if count == 0 || count > MAX_ENTRIES {
        Some(PackageErrorView::Manifest("package must contain between 1 and 4096 entries"@))
    } else {
        None
    }
}

/// Accepts an archive only with between 1 and `MAX_ENTRIES` entries.
pub fn check_entry_count(count: usize) -> (result: Result<(), ExtensionPackageError>)
    ensures
        match result {
            Ok(()) => entry_count_error(count) is None,
            Err(e) => entry_count_error(count) == Some(e@),
        },
{
    if count == 0 || count > MAX_ENTRIES {
        return Err(manifest_error("package must contain between 1 and 4096 entries"));
    }
    Ok(())
}

/// The contents of an archive entry.
pub struct EntryView {
    pub compression: EntryCompression,
    pub size: u64,
    pub compressed_size: u64,
    pub enclosed: Option<(PathView, Seq<char>)>,
    pub unix_mode: Option<u32>,
}

impl View for ArchiveEntry {
    type V = EntryView;

    open spec fn view(&self) -> EntryView {
        EntryView {
            compression: self.compression,
            size: self.size,
            compressed_size: self.compressed_size,
            enclosed: match self.enclosed {
                Some((p, n)) => Some((p@, n@)),
                None => None,
            },
            unix_mode: self.unix_mode,
        }
    }
}

/// The entry is much larger than its compressed form: over the exempt size
/// and over `MAX_COMPRESSION_RATIO` times its compressed size (at least one byte).
pub open spec fn ratio_exceeded(e: EntryView) -> bool {
    e.size > RATIO_EXEMPT_BYTES && e.size > saturating_mul(
        if e.compressed_size > 1 { e.compressed_size } else { 1 },
        MAX_COMPRESSION_RATIO,
    )
}

/// Some earlier entry name collides with `name`.
pub open spec fn collides(names: Seq<Seq<char>>, name: Seq<char>) -> bool {
    exists|i: int| 0 <= i < names.len() && collision_key(#[trigger] names[i]) == collision_key(name)
}

/// Accepting entry `e` after entries that expanded to `expanded` bytes and
/// had names `names`: the failure, if any, then the new expanded size and
/// names, checked in this order.
pub open spec fn admission(expanded: u64, names: Seq<Seq<char>>, e: EntryView) -> (
    Option<PackageErrorView>,
    u64,
    Seq<Seq<char>>,
) {
    if e.compression == EntryCompression::Other {
        (
            Some(PackageErrorView::Manifest("package uses an unsupported compression method"@)),
            expanded,
            names,
        )
    } else if ratio_exceeded(e) {
        (
            Some(PackageErrorView::Manifest("package entry exceeds the compression ratio limit"@)),
            expanded,
            names,
        )
    } else {
        let grown = saturating_add(expanded, e.size);
        if grown > MAX_EXPANDED_BYTES {
            (
                Some(PackageErrorView::Manifest("package exceeds the expanded size limit"@)),
                grown,
                names,
            )
        } else {
            match e.enclosed {
                None => (
                    Some(PackageErrorView::Manifest("package contains an unsafe path"@)),
                    grown,
                    names,
                ),
                Some((path, name)) => if !safe_relative_path(path) {
                    (
                        Some(PackageErrorView::Manifest("package path is not a safe relative path"@)),
                        grown,
                        names,
                    )
                } else if collides(names, name) {
                    (
                        Some(PackageErrorView::Manifest("package contains colliding paths"@)),
                        grown,
                        names,
                    )
                } else if e.unix_mode is Some && is_symlink_mode(e.unix_mode->0) {
                    (
                        Some(PackageErrorView::Manifest("package symlinks are not allowed"@)),
                        grown,
                        names.push(name),
                    )
                } else {
                    (None, grown, names.push(name))
                },
            }
        }
    }
}

/// No two of `names` collide.
pub open spec fn keys_distinct(names: Seq<Seq<char>>) -> bool {
    forall|i: int, j: int|
        0 <= i < j < names.len() ==> collision_key(#[trigger] names[i]) != collision_key(
            #[trigger] names[j],
        )
}

/// An entry is accepted only with a name that collides with none of the
/// names accepted before it (on a file system that ignores ASCII case and
/// reads `\` as `/`): an entry colliding with any earlier name is refused.
/// So the names kept never collide with each other.
pub proof fn lemma_admission_refuses_collisions(expanded: u64, names: Seq<Seq<char>>, e: EntryView)
    ensures
        admission(expanded, names, e).0 is None ==> e.enclosed is Some && forall|i: int|
            0 <= i < names.len() ==> collision_key(#[trigger] names[i]) != collision_key(
                (e.enclosed->0).1,
            ),
        forall|i: int|
            0 <= i < names.len() && e.enclosed is Some && collision_key(#[trigger] names[i])
                == collision_key((e.enclosed->0).1) ==> admission(expanded, names, e).0 is Some,
        keys_distinct(names) ==> keys_distinct(admission(expanded, names, e).2),
        admission(expanded, names, e).2 == names || admission(expanded, names, e).2 == names.push(
            (e.enclosed->0).1,
        ),
{
    let after = admission(expanded, names, e).2;
    if e.enclosed is Some {
        let name = (e.enclosed->0).1;
        if after == names.push(name) && after != names {
            assert(!collides(names, name));
            if keys_distinct(names) {
                assert forall|i: int, j: int| 0 <= i < j < after.len() implies collision_key(
                    #[trigger] after[i],
                ) != collision_key(#[trigger] after[j]) by {
                    assert(after[i] == names[i]);
                    if j < names.len() {
                        assert(after[j] == names[j]);
                    } else {
                        assert(after[j] == name);
                    }
                }
            }
        }
        assert forall|i: int|
            0 <= i < names.len() && collision_key(#[trigger] names[i]) == collision_key(name) implies admission(
            expanded,
            names,
            e,
        ).0 is Some by {
            assert(collides(names, name));
        }
    }
}

/// The running totals of one archive extraction.
pub struct ExtractionGuard {
    expanded: u64,
    names: Vec<String>,
}

fn same_collision_key(a: &str, b: &str) -> (r: bool)
    ensures
        r == (collision_key(a@) == collision_key(b@)),
{
    let n = a.unicode_len();
    let m = b.unicode_len();
    if n != m {
        proof {
            assert(collision_key(a@).len() != collision_key(b@).len());
        }
        return false;
    }
    for i in 0..n
        invariant
            n == a@.len(),
            m == b@.len(),
            n == m,
            forall|j: int| 0 <= j < i ==> collision_key(a@)[j] == collision_key(b@)[j],
    {
        let x0 = a.get_char(i);
        let y0 = b.get_char(i);
        let x = if x0 == '\\' { '/' } else { x0 };
        let y = if y0 == '\\' { '/' } else { y0 };
        if !eq_ignore_ascii_case(x, y) {
            proof {
                assert(collision_key(a@)[i as int] != collision_key(b@)[i as int]);
            }
            return false;
        }
    }
    proof {
        assert(collision_key(a@) =~= collision_key(b@));
    }
    true
}

impl ExtractionGuard {
    /// Bytes that the accepted entries expand to.
    pub closed spec fn expanded(&self) -> u64 {
        self.expanded
    }

    /// Names of the accepted entries, in order.
    pub closed spec fn names(&self) -> Seq<Seq<char>> {
        self.names@.map_values(|s: String| s@)
    }

    /// Totals of an extraction that has accepted nothing yet.
    pub fn new() -> (guard: Self)
        ensures
            guard.expanded() == 0,
            guard.names() == Seq::<Seq<char>>::empty(),
            keys_distinct(guard.names()),
    {
        let guard = ExtractionGuard { expanded: 0, names: Vec::new() };
        assert(guard.names() =~= Seq::<Seq<char>>::empty());
        guard
    }

    fn collides_with_earlier(&self, name: &str) -> (r: bool)
        ensures
            r == collides(self.names(), name@),
    {
        let n = self.names.len();
        for i in 0..n
            invariant
                n == self.names@.len(),
                forall|j: int|
                    0 <= j < i ==> collision_key(#[trigger] self.names()[j]) != collision_key(
                        name@,
                    ),
        {
            if same_collision_key(self.names[i].as_str(), name) {
                proof {
                    assert(self.names()[i as int] == self.names@[i as int]@);
                }
                return true;
            }
        }
        false
    }

    /// Accept `entry` for extraction or refuse it, as `admission` says.
    pub fn accept_entry(&mut self, entry: &ArchiveEntry) -> (result: Result<(), ExtensionPackageError>)
        ensures
            ({
                let (failure, expanded, names) = admission(old(self).expanded(), old(self).names(), entry@);
                &&& match result {
                    Ok(()) => failure is None,
                    Err(e) => failure == Some(e@),
                }
                &&& final(self).expanded() == expanded
                &&& final(self).names() == names
            }),
            result is Ok ==> entry@.enclosed is Some && forall|i: int|
                0 <= i < old(self).names().len() ==> collision_key(#[trigger] old(self).names()[i])
                    != collision_key((entry@.enclosed->0).1),
            keys_distinct(old(self).names()) ==> keys_distinct(final(self).names()),
    {
        proof {
            lemma_admission_refuses_collisions(old(self).expanded(), old(self).names(), entry@);
        }
        match entry.compression {
            EntryCompression::Other => {
                return Err(manifest_error("package uses an unsupported compression method"));
            },
            _ => {},
        }
        let base: u64 = if entry.compressed_size > 1 { entry.compressed_size } else { 1 };
        let limit: u64 = if base as u128 * MAX_COMPRESSION_RATIO as u128 > u64::MAX as u128 {
            u64::MAX
        } else {
            base * MAX_COMPRESSION_RATIO
        };
        if entry.size > RATIO_EXEMPT_BYTES && entry.size > limit {
            return Err(manifest_error("package entry exceeds the compression ratio limit"));
        }
        let grown: u64 = if self.expanded as u128 + entry.size as u128 > u64::MAX as u128 {
            u64::MAX
        } else {
            self.expanded + entry.size
        };
        self.expanded = grown;
        if grown > MAX_EXPANDED_BYTES {
            return Err(manifest_error("package exceeds the expanded size limit"));
        }
        match &entry.enclosed {
            None => Err(manifest_error("package contains an unsafe path")),
            Some((path, name)) => {
                validate_relative_path(path)?;
                if self.collides_with_earlier(name.as_str()) {
                    return Err(manifest_error("package contains colliding paths"));
                }
                let ghost before = self.names();
                self.names.push(name.clone());
                proof {
                    assert(self.names() =~= before.push(name@));
                }
                match entry.unix_mode {
                    Some(mode) => {
                        if mode & 0o170000u32 == 0o120000u32 {
                            return Err(manifest_error("package symlinks are not allowed"));
                        }
                    },
                    None => {},
                }
                Ok(())
            },
        }
    }
}

} // verus!
