//! The staged copy of a package and the SHA-256 digest of its bytes.
use sha2::Digest;
use vstd::prelude::*;
use vstd::string::*;

use crate::package_error::{manifest_error, ExtensionPackageError, PackageErrorView};
use crate::path::PathModel;
use crate::text::{decimal, decimal_string};

verus! {

/// The SHA-256 digest of `data`.
pub uninterp spec fn sha256_digest(data: Seq<u8>) -> Seq<u8>;

/// The lower-case hexadecimal digit for `d`.
pub open spec fn hex_digit(d: nat) -> char {
    if d < 10 {
        crate::text::digit_char(d)
    } else if d == 10 {
        'a'
    } else if d == 11 {
        'b'
    } else if d == 12 {
        'c'
    } else if d == 13 {
        'd'
    } else if d == 14 {
        'e'
    } else {
        'f'
    }
}

/// `bytes` written as lower-case hexadecimal, two digits per byte.
pub open spec fn hex_lower(bytes: Seq<u8>) -> Seq<char>
    decreases bytes.len(),
{
    if bytes.len() == 0 {
        Seq::empty()
    } else {
        hex_lower(bytes.drop_last()) + seq![
            hex_digit((bytes.last() / 16) as nat),
            hex_digit((bytes.last() % 16) as nat),
        ]
    }
}

/// Hexadecimal text has two lower-case digits per byte: a SHA-256 digest
/// reads as 64 characters of `0`-`9` and `a`-`f`.
pub proof fn lemma_hex_lower_shape(bytes: Seq<u8>)
    ensures
        hex_lower(bytes).len() == 2 * bytes.len(),
        forall|i: int|
            0 <= i < hex_lower(bytes).len() ==> {
                let c = #[trigger] hex_lower(bytes)[i];
                ('0' <= c && c <= '9') || ('a' <= c && c <= 'f')
            },
    decreases bytes.len(),
{
    if bytes.len() > 0 {
        lemma_hex_lower_shape(bytes.drop_last());
        let rest = hex_lower(bytes.drop_last());
        let b = bytes.last();
        let tail = seq![hex_digit((b / 16) as nat), hex_digit((b % 16) as nat)];
        assert(hex_lower(bytes) == rest + tail);
        assert forall|i: int| 0 <= i < hex_lower(bytes).len() implies {
            let c = #[trigger] hex_lower(bytes)[i];
            ('0' <= c && c <= '9') || ('a' <= c && c <= 'f')
        } by {
            if i < rest.len() {
                assert(hex_lower(bytes)[i] == rest[i]);
            } else {
                assert(hex_lower(bytes)[i] == tail[i - rest.len()]);
            }
        }
    }
}

fn hex_digit_str(d: u8) -> (s: &'static str)
    requires
        d < 16,
    ensures
        s@ == seq![hex_digit(d as nat)],
{
    let s = if d == 0 {
        "0"
    } else if d == 1 {
        "1"
    } else if d == 2 {
        "2"
    } else if d == 3 {
        "3"
    } else if d == 4 {
        "4"
    } else if d == 5 {
        "5"
    } else if d == 6 {
        "6"
    } else if d == 7 {
        "7"
    } else if d == 8 {
        "8"
    } else if d == 9 {
        "9"
    } else if d == 10 {
        "a"
    } else if d == 11 {
        "b"
    } else if d == 12 {
        "c"
    } else if d == 13 {
        "d"
    } else if d == 14 {
        "e"
    } else {
        "f"
    };
    proof {
        reveal_strlit("0");
        reveal_strlit("1");
        reveal_strlit("2");
        reveal_strlit("3");
        reveal_strlit("4");
        reveal_strlit("5");
        reveal_strlit("6");
        reveal_strlit("7");
        reveal_strlit("8");
        reveal_strlit("9");
        reveal_strlit("a");
        reveal_strlit("b");
        reveal_strlit("c");
        reveal_strlit("d");
        reveal_strlit("e");
        reveal_strlit("f");
        assert(s@ =~= seq![hex_digit(d as nat)]);
    }
    s
}

/// `bytes` written as lower-case hexadecimal.
pub fn to_hex_lower(bytes: &Vec<u8>) -> (text: String)
    ensures
        text@ == hex_lower(bytes@),
{
    let mut text = String::new();
    let n = bytes.len();
    for i in 0..n
        invariant
            n == bytes@.len(),
            text@ == hex_lower(bytes@.take(i as int)),
    {
        let b = bytes[i];
        text.append(hex_digit_str(b / 16));
        text.append(hex_digit_str(b % 16));
        proof {
            assert(bytes@.take(i + 1).drop_last() =~= bytes@.take(i as int));
            assert(bytes@.take(i + 1).last() == b);
        }
    }
    proof {
        assert(bytes@.take(n as int) =~= bytes@);
    }
    text
}

/// An incremental SHA-256 hasher (`sha2::Sha256`), held opaque.
#[verifier::external_body]
pub struct Sha256Stream {
    hasher: sha2::Sha256,
}

/// The bytes fed to a SHA-256 hasher so far, in order.
pub uninterp spec fn sha256_fed(hasher: Sha256Stream) -> Seq<u8>;

/// `sha2::Sha256::new`: a hasher that has been fed nothing.
#[verifier::external_body]
fn hasher_new() -> (hasher: Sha256Stream)
    ensures
        sha256_fed(hasher) == Seq::<u8>::empty(),
{
    Sha256Stream { hasher: sha2::Sha256::new() }
}

/// `Digest::update` on a SHA-256 hasher: `chunk` is fed after the bytes
/// fed before.
#[verifier::external_body]
fn hasher_update(hasher: &mut Sha256Stream, chunk: &[u8])
    ensures
        sha256_fed(*final(hasher)) == sha256_fed(*old(hasher)) + chunk@,
{
    hasher.hasher.update(chunk);
}

/// `Digest::finalize` on a copy of the hasher: the 32-byte SHA-256 digest of
/// every byte fed, as `sha2::Sha256::digest` gives it for those bytes.
#[verifier::external_body]
fn hasher_digest(hasher: &Sha256Stream) -> (digest: Vec<u8>)
    ensures
        digest@ == sha256_digest(sha256_fed(*hasher)),
        digest@.len() == 32,
{
    hasher.hasher.clone().finalize().to_vec()
}

/// The bytes of a package hashed as they are copied to its staged file,
/// bounded by a size limit.
pub struct PackageDigest {
    hasher: Sha256Stream,
    total: u64,
    maximum: u64,
}

impl PackageDigest {
    /// The bytes copied so far.
    pub closed spec fn copied(&self) -> Seq<u8> {
        sha256_fed(self.hasher)
    }

    /// The size limit.
    pub closed spec fn limit(&self) -> u64 {
        self.maximum
    }

    /// The count of copied bytes is kept alongside the hasher.
    pub closed spec fn wf(&self) -> bool {
        self.total == self.copied().len()
    }

    /// Nothing taken yet, with a limit of `maximum` bytes.
    pub fn new(maximum: u64) -> (d: Self)
        ensures
            d.wf(),
            d.copied() == Seq::<u8>::empty(),
            d.limit() == maximum,
    {
        PackageDigest { hasher: hasher_new(), total: 0, maximum }
    }

    /// Take the next chunk read from the package; refused, with nothing
    /// taken, when the package would exceed the size limit.
    pub fn absorb(&mut self, chunk: &[u8]) -> (result: Result<(), ExtensionPackageError>)
        requires
            old(self).wf(),
        ensures
            final(self).wf(),
            final(self).limit() == old(self).limit(),
            match result {
                Ok(()) => old(self).copied().len() + chunk@.len() <= old(self).limit()
                    && final(self).copied() == old(self).copied() + chunk@,
                Err(e) => old(self).copied().len() + chunk@.len() > old(self).limit()
                    && final(self).copied() == old(self).copied() && e@
                    == PackageErrorView::Manifest(
                    "package exceeds the "@ + decimal(old(self).limit() as nat) + " byte limit"@,
                ),
            },
    {
        if chunk.len() as u128 + self.total as u128 > self.maximum as u128 {
            let message = String::from_str("package exceeds the ").concat(
                decimal_string(self.maximum).as_str(),
            ).concat(" byte limit");
            return Err(ExtensionPackageError::Manifest(message));
        }
        hasher_update(&mut self.hasher, chunk);
        self.total = self.total + chunk.len() as u64;
        Ok(())
    }

    /// The lower-case hexadecimal SHA-256 digest of every byte taken;
    /// refused when the package is empty.
    pub fn finish(&self) -> (result: Result<String, ExtensionPackageError>)
        requires
            self.wf(),
        ensures
            match result {
                Ok(digest) => self.copied().len() > 0 && digest@ == hex_lower(
                    sha256_digest(self.copied()),
                ) && digest@.len() == 64,
                Err(e) => self.copied().len() == 0 && e@ == PackageErrorView::Manifest(
                    "extension package is empty"@,
                ),
            },
    {
        if self.total == 0 {
            return Err(manifest_error("extension package is empty"));
        }
        let digest = hasher_digest(&self.hasher);
        proof {
            lemma_hex_lower_shape(digest@);
        }
        Ok(to_hex_lower(&digest))
    }
}

/// Immutable local copy whose digest describes the bytes used for extraction.
#[derive(Debug)]
pub struct StagedPackage {
    path: PathModel,
    digest: String,
}

impl StagedPackage {
    pub closed spec fn path_view(&self) -> crate::path::PathView {
        self.path@
    }

    /// The lower-case hexadecimal digest.
    pub closed spec fn digest_view(&self) -> Seq<char> {
        self.digest@
    }

    /// The staged copy at `path` whose bytes went through `digest`.
    pub fn from_digest(path: PathModel, digest: &PackageDigest) -> (result: Result<
        StagedPackage,
        ExtensionPackageError,
    >)
        requires
            digest.wf(),
        ensures
            match result {
                Ok(staged) => digest.copied().len() > 0 && staged.path_view() == path@
                    && staged.digest_view() == hex_lower(sha256_digest(digest.copied()))
                    && staged.digest_view().len() == 64,
                Err(e) => digest.copied().len() == 0 && e@ == PackageErrorView::Manifest(
                    "extension package is empty"@,
                ),
            },
    {
        let text = digest.finish()?;
        Ok(StagedPackage { path, digest: text })
    }

    pub fn path(&self) -> (path: &PathModel)
        ensures
            path@ == self.path_view(),
    {
        &self.path
    }

    /// The lower-case hexadecimal digest.
    pub fn digest(&self) -> (digest: &str)
        ensures
            digest@ == self.digest_view(),
    {
        self.digest.as_str()
    }
}

/// An incomplete package stage, removed unless ownership is committed.
#[derive(Debug)]
pub struct StagingDirectory {
    path: PathModel,
    committed: bool,
}

impl StagingDirectory {
    pub closed spec fn path_view(&self) -> crate::path::PathView {
        self.path@
    }

    /// Whether the stage is kept.
    pub closed spec fn is_committed(&self) -> bool {
        self.committed
    }

    /// An uncommitted stage at `path`.
    pub fn new(path: PathModel) -> (stage: Self)
        ensures
            stage.path_view() == path@,
            !stage.is_committed(),
    {
        StagingDirectory { path, committed: false }
    }

    pub fn path(&self) -> (path: &PathModel)
        ensures
            path@ == self.path_view(),
    {
        &self.path
    }

    /// Keep the stage: it is no longer removed.
    pub fn commit(&mut self)
        ensures
            final(self).is_committed(),
            final(self).path_view() == old(self).path_view(),
    {
        self.committed = true;
    }

    /// Whether the stage is kept.
    pub fn committed(&self) -> (committed: bool)
        ensures
            committed == self.is_committed(),
    {
        self.committed
    }
}

} // verus!
