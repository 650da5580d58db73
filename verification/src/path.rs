//! Filesystem paths as the host reasons about them: their components and
//! whether they are absolute.
use vstd::prelude::*;

use crate::text::str_equal;

verus! {

/// One component of a path, as `std::path::Component` lists it.
#[derive(Debug, Clone)]
pub enum PathComponent {
    /// A Windows drive or share prefix, such as `C:`.
    Prefix(String),
    /// The root directory separator.
    RootDir,
    /// A leading `.`.
    CurDir,
    /// A `..`.
    ParentDir,
    /// A file or directory name.
    Normal(String),
}

/// The text of one path component.
pub enum ComponentView {
    Prefix(Seq<char>),
    RootDir,
    CurDir,
    ParentDir,
    Normal(Seq<char>),
}

impl View for PathComponent {
    type V = ComponentView;

    open spec fn view(&self) -> ComponentView {
        match self {
            PathComponent::Prefix(p) => ComponentView::Prefix(p@),
            PathComponent::RootDir => ComponentView::RootDir,
            PathComponent::CurDir => ComponentView::CurDir,
            PathComponent::ParentDir => ComponentView::ParentDir,
            PathComponent::Normal(n) => ComponentView::Normal(n@),
        }
    }
}

/// A path: its components in order, and whether the platform considers it absolute.
#[derive(Debug, Clone)]
pub struct PathModel {
    pub components: Vec<PathComponent>,
    pub absolute: bool,
}

/// The contents of a path.
pub struct PathView {
    pub components: Seq<ComponentView>,
    pub absolute: bool,
}

impl View for PathModel {
    type V = PathView;

    open spec fn view(&self) -> PathView {
        PathView {
            components: self.components@.map_values(|c: PathComponent| c@),
            absolute: self.absolute,
        }
    }
}

/// Paths are equal when their components are (`Path::eq` compares components).
pub open spec fn same_path(a: PathView, b: PathView) -> bool {
    a.components == b.components
}

/// `root`'s components begin `path`'s (`Path::starts_with`).
pub open spec fn path_starts_with(path: PathView, root: PathView) -> bool {
    root.components.is_prefix_of(path.components)
}

/// A path made only of names, with no root, prefix, `.` or `..`.
pub open spec fn all_normal(components: Seq<ComponentView>) -> bool {
    forall|i: int| 0 <= i < components.len() ==> #[trigger] components[i] is Normal
}

/// The components of `s` as `Path::components` yields them on this platform.
pub uninterp spec fn std_path_components(s: Seq<char>) -> Seq<ComponentView>;

/// Whether `Path::is_absolute` holds of `s` on this platform.
pub uninterp spec fn std_path_is_absolute(s: Seq<char>) -> bool;

/// `std::path::Path::components` on the path spelled `s`, each component
/// copied as text. Its result is named, not stated: it depends on the
/// platform's separators and prefixes.
#[verifier::external_body]
fn std_components(s: &str) -> (components: Vec<PathComponent>)
    ensures
        components@.map_values(|c: PathComponent| c@) == std_path_components(s@),
{
    std::path::Path::new(s).components().map(|c| match c {
        std::path::Component::Prefix(p) => PathComponent::Prefix(p.as_os_str().to_string_lossy().into_owned()),
        std::path::Component::RootDir => PathComponent::RootDir,
        std::path::Component::CurDir => PathComponent::CurDir,
        std::path::Component::ParentDir => PathComponent::ParentDir,
        std::path::Component::Normal(n) => PathComponent::Normal(n.to_string_lossy().into_owned()),
    }).collect()
}

/// `std::path::Path::is_absolute` on the path spelled `s`. Its result is
/// named, not stated: it depends on the platform.
#[verifier::external_body]
fn std_is_absolute(s: &str) -> (absolute: bool)
    ensures
        absolute == std_path_is_absolute(s@),
{
    std::path::Path::new(s).is_absolute()
}

/// The text of `path` joined onto `base` by `Path::join` on this platform.
pub uninterp spec fn std_path_joined(base: Seq<char>, path: Seq<char>) -> Seq<char>;

/// `std::path::Path::join` of `path` onto `base`, as text. Its result is
/// named, not stated: the separator, and when `path` replaces `base`,
/// depend on the platform.
#[verifier::external_body]
pub(crate) fn std_join(base: &str, path: &str) -> (joined: String)
    ensures
        joined@ == std_path_joined(base@, path@),
{
    std::path::Path::new(base).join(path).to_string_lossy().into_owned()
}

fn component_equal(a: &PathComponent, b: &PathComponent) -> (r: bool)
    ensures
        r == (a@ == b@),
{
    match (a, b) {
        (PathComponent::Prefix(x), PathComponent::Prefix(y)) => str_equal(x.as_str(), y.as_str()),
        (PathComponent::RootDir, PathComponent::RootDir) => true,
        (PathComponent::CurDir, PathComponent::CurDir) => true,
        (PathComponent::ParentDir, PathComponent::ParentDir) => true,
        (PathComponent::Normal(x), PathComponent::Normal(y)) => str_equal(x.as_str(), y.as_str()),
        _ => false,
    }
}

fn clone_component(c: &PathComponent) -> (r: PathComponent)
    ensures
        r@ == c@,
{
    match c {
        PathComponent::Prefix(p) => PathComponent::Prefix(p.clone()),
        PathComponent::RootDir => PathComponent::RootDir,
        PathComponent::CurDir => PathComponent::CurDir,
        PathComponent::ParentDir => PathComponent::ParentDir,
        PathComponent::Normal(n) => PathComponent::Normal(n.clone()),
    }
}

impl PathModel {
    /// The path spelled `s`, as the platform reads it.
    pub fn parse(s: &str) -> (path: PathModel)
        ensures
            path@.components == std_path_components(s@),
            path@.absolute == std_path_is_absolute(s@),
    {
        PathModel { components: std_components(s), absolute: std_is_absolute(s) }
    }

    /// A copy of the path.
    pub fn duplicate(&self) -> (path: PathModel)
        ensures
            path@ == self@,
    {
        let mut components: Vec<PathComponent> = Vec::new();
        let n = self.components.len();
        for i in 0..n
            invariant
                n == self.components@.len(),
                components@.len() == i,
                components@.map_values(|c: PathComponent| c@) == self@.components.take(i as int),
        {
            let c = clone_component(&self.components[i]);
            components.push(c);
            proof {
                assert(components@[i as int]@ == self@.components[i as int]);
                assert(components@.map_values(|c: PathComponent| c@) =~= self@.components.take(
                    i + 1,
                ));
            }
        }
        proof {
            assert(self@.components.take(n as int) =~= self@.components);
        }
        PathModel { components, absolute: self.absolute }
    }

    /// Whether the path has no component (it is spelled with no character).
    pub fn is_empty(&self) -> (r: bool)
        ensures
            r == (self@.components.len() == 0),
    {
        self.components.len() == 0
    }

    /// `self` followed by the name `name` (`Path::join` with one plain name).
    pub fn join_name(&self, name: &str) -> (path: PathModel)
        ensures
            path@.components == self@.components.push(ComponentView::Normal(name@)),
            path@.absolute == self@.absolute,
    {
        let mut path = self.duplicate();
        path.components.push(PathComponent::Normal(name.to_owned()));
        proof {
            assert(path@.components =~= self@.components.push(ComponentView::Normal(name@)));
        }
        path
    }

    /// `self` followed by the relative path `relative` (`Path::join`).
    pub fn join_relative(&self, relative: &PathModel) -> (path: PathModel)
        requires
            !relative@.absolute,
            all_normal(relative@.components),
        ensures
            path@.components == self@.components + relative@.components,
            path@.absolute == self@.absolute,
    {
        let mut path = self.duplicate();
        let n = relative.components.len();
        for i in 0..n
            invariant
                n == relative.components@.len(),
                path@.components == self@.components + relative@.components.take(i as int),
                path.components@.len() == self@.components.len() + i,
                path@.absolute == self@.absolute,
        {
            let c = clone_component(&relative.components[i]);
            let ghost prev = path.components@;
            let ghost cv = c@;
            path.components.push(c);
            proof {
                assert(path@.components =~= prev.map_values(|c: PathComponent| c@).push(cv));
                assert(relative@.components.take(i + 1) =~= relative@.components.take(i as int).push(cv));
                assert(path@.components =~= self@.components + relative@.components.take(i + 1));
            }
        }
        proof {
            assert(relative@.components.take(n as int) =~= relative@.components);
        }
        path
    }

    /// Whether `self` and `other` have the same components.
    pub fn same_as(&self, other: &PathModel) -> (r: bool)
        ensures
            r == same_path(self@, other@),
    {
        let n = self.components.len();
        if n != other.components.len() {
            assert(self@.components.len() != other@.components.len());
            return false;
        }
        for i in 0..n
            invariant
                n == self.components@.len(),
                n == other.components@.len(),
                forall|j: int| 0 <= j < i ==> self@.components[j] == other@.components[j],
        {
            if !component_equal(&self.components[i], &other.components[i]) {
                assert(self@.components[i as int] != other@.components[i as int]);
                return false;
            }
        }
        proof {
            assert(self@.components =~= other@.components);
        }
        true
    }

    /// Whether `root`'s components begin `self`'s.
    pub fn starts_with(&self, root: &PathModel) -> (r: bool)
        ensures
            r == path_starts_with(self@, root@),
    {
        let n = root.components.len();
        if n > self.components.len() {
            return false;
        }
        for i in 0..n
            invariant
                n == root.components@.len(),
                n <= self.components@.len(),
                forall|j: int| 0 <= j < i ==> root@.components[j] == self@.components[j],
        {
            if !component_equal(&self.components[i], &root.components[i]) {
                proof {
                    assert(root@.components[i as int] != self@.components.subrange(0, n as int)[i as int]);
                }
                return false;
            }
        }
        proof {
            assert(root@.components =~= self@.components.subrange(0, n as int));
        }
        true
    }

    /// The components of `self` after those of `root`, as a relative path
    /// (`Path::strip_prefix`); `None` when `root` does not begin `self`.
    pub fn strip_prefix(&self, root: &PathModel) -> (rest: Option<PathModel>)
        ensures
            match rest {
                Some(r) => path_starts_with(self@, root@) && r@.components == self@.components.skip(
                    root@.components.len() as int,
                ) && !r@.absolute,
                None => !path_starts_with(self@, root@),
            },
    {
        if !self.starts_with(root) {
            return None;
        }
        let start = root.components.len();
        let n = self.components.len();
        let mut components: Vec<PathComponent> = Vec::new();
        for i in start..n
            invariant
                start == root@.components.len(),
                start <= n,
                n == self.components@.len(),
                components@.len() == i - start,
                components@.map_values(|c: PathComponent| c@) == self@.components.subrange(
                    start as int,
                    i as int,
                ),
        {
            let c = clone_component(&self.components[i]);
            components.push(c);
            proof {
                assert(components@[i - start]@ == self@.components[i as int]);
                assert(components@.map_values(|c: PathComponent| c@) =~= self@.components.subrange(
                    start as int,
                    i + 1,
                ));
            }
        }
        proof {
            assert(self@.components.subrange(start as int, n as int) =~= self@.components.skip(
                start as int,
            ));
        }
        Some(PathModel { components, absolute: false })
    }

    /// Whether every component is a plain name.
    pub fn is_all_normal(&self) -> (r: bool)
        ensures
            r == all_normal(self@.components),
    {
        let n = self.components.len();
        for i in 0..n
            invariant
                n == self.components@.len(),
                forall|j: int| 0 <= j < i ==> #[trigger] self@.components[j] is Normal,
        {
            match &self.components[i] {
                PathComponent::Normal(_) => {},
                _ => {
                    proof {
                        assert(!(self@.components[i as int] is Normal));
                    }
                    return false;
                },
            }
        }
        true
    }

    /// The last component when it is a name (`Path::file_name`).
    pub fn file_name(&self) -> (name: Option<String>)
        ensures
            match name {
                Some(n) => self@.components.len() > 0 && self@.components.last()
                    == ComponentView::Normal(n@),
                None => self@.components.len() == 0 || !(self@.components.last() is Normal),
            },
    {
        let n = self.components.len();
        if n == 0 {
            return None;
        }
        match &self.components[n - 1] {
            PathComponent::Normal(name) => Some(name.clone()),
            _ => None,
        }
    }
}

/// Joining a relative path to `root` and stripping `root` again gives the
/// relative path's components back.
pub proof fn lemma_strip_after_join(root: PathView, relative: PathView, joined: PathView)
    requires
        joined.components == root.components + relative.components,
    ensures
        path_starts_with(joined, root),
        joined.components.skip(root.components.len() as int) == relative.components,
{
    assert(joined.components.take(root.components.len() as int) =~= root.components);
    assert(joined.components.skip(root.components.len() as int) =~= relative.components);
}

} // verus!
