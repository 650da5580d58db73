//! The human-edited JSONC configuration boundary: where configuration files
//! live, which of them may be read or replaced, and where their backups go.
use vstd::prelude::*;
use vstd::string::*;

use crate::path::{
    all_normal, same_path, ComponentView, PathComponent, PathModel, PathView,
};
use crate::jsonc::{edit_object, object_edited, text_result, ConfigScalar, ScalarView};
use crate::text::{decimal, decimal_string};

verus! {

/// The only bootstrap format this host reads and writes.
pub const CONFIG_FORMAT_VERSION: u32 = 1;

/// Failure at the configuration boundary.
#[derive(Debug, Clone)]
pub enum ConfigError {
    /// Reading or writing a file failed.
    Io(String),
    /// A file is not valid JSONC or does not have the expected shape.
    Parse(String),
    /// A value or path breaks a configuration rule.
    Invalid(String),
}

/// The kind and message of a configuration failure.
pub enum ConfigErrorView {
    Io(Seq<char>),
    Parse(Seq<char>),
    Invalid(Seq<char>),
}

impl View for ConfigError {
    type V = ConfigErrorView;

    open spec fn view(&self) -> ConfigErrorView {
        match self {
            ConfigError::Io(m) => ConfigErrorView::Io(m@),
            ConfigError::Parse(m) => ConfigErrorView::Parse(m@),
            ConfigError::Invalid(m) => ConfigErrorView::Invalid(m@),
        }
    }
}

/// Machine-local locator of the effective configuration root.
#[derive(Debug, Clone)]
pub struct BootstrapConfig {
    pub format_version: u32,
    pub config_root: PathModel,
    pub machine_id: u128,
}

/// `path` is absolute and made only of a prefix, the root and plain names.
pub open spec fn normalized_absolute(path: PathView) -> bool {
    &&& path.absolute
    &&& forall|i: int|
        0 <= i < path.components.len() ==> {
            let c = #[trigger] path.components[i];
            c is Prefix || c is RootDir || c is Normal
        }
}

/// `path` has a `.` or `..` component.
pub open spec fn has_dot_component(path: PathView) -> bool {
    exists|i: int|
        0 <= i < path.components.len() && (#[trigger] path.components[i] is CurDir
            || path.components[i] is ParentDir)
}

/// The outcome of validating a bootstrap locator.
pub open spec fn bootstrap_validation(format_version: u32, config_root: PathView) -> Result<
    (),
    ConfigErrorView,
> {
    if format_version != CONFIG_FORMAT_VERSION {
        Err(ConfigErrorView::Invalid("unsupported bootstrap format version "@ + decimal(format_version as nat)))
    } else if config_root.components.len() == 0 {
        Err(ConfigErrorView::Invalid("config root is empty"@))
    } else if !config_root.absolute || has_dot_component(config_root) {
        Err(ConfigErrorView::Invalid("config root must be a normalized absolute path"@))
    } else {
        Ok(())
    }
}

/// The path of `path` below `root`, which must be a non-empty list of names.
pub open spec fn relative_config(root: PathView, path: PathView) -> Result<
    Seq<ComponentView>,
    ConfigErrorView,
> {
    if !root.components.is_prefix_of(path.components) {
        Err(ConfigErrorView::Invalid("configuration path is outside the config root"@))
    } else {
        let relative = path.components.skip(root.components.len() as int);
        if relative.len() == 0 || !all_normal(relative) {
            Err(ConfigErrorView::Invalid("configuration path is not a normalized file path"@))
        } else {
            Ok(relative)
        }
    }
}

/// Where the backup of `path` goes: below `backups/config` of the machine
/// root, at the same place relative to the config root, or by file name when
/// there is no config root or `path` is not below it.
pub open spec fn backup_location(
    machine_root: PathView,
    config_root: Option<PathView>,
    path: PathView,
) -> Result<Seq<ComponentView>, ConfigErrorView> {
    let below_root = match config_root {
        Some(root) => match relative_config(root, path) {
            Ok(relative) => Some(relative),
            Err(_) => None,
        },
        None => None,
    };
    let relative = match below_root {
        Some(r) => Some(r),
        None => if path.components.len() > 0 && path.components.last() is Normal {
            Some(seq![path.components.last()])
        } else {
            None
        },
    };
    match relative {
        Some(r) => Ok(
            machine_root.components + seq![
                ComponentView::Normal("backups"@),
                ComponentView::Normal("config"@),
            ] + r,
        ),
        None => Err(ConfigErrorView::Invalid("configuration path has no file name"@)),
    }
}

/// Whether `path` is absolute and made only of a prefix, the root and plain names.
pub fn is_normalized_absolute(path: &PathModel) -> (r: bool)
    ensures
        r == normalized_absolute(path@),
{
    if !path.absolute {
        return false;
    }
    let n = path.components.len();
    for i in 0..n
        invariant
            n == path.components@.len(),
            path@.absolute,
            forall|j: int|
                0 <= j < i ==> {
                    let c = #[trigger] path@.components[j];
                    c is Prefix || c is RootDir || c is Normal
                },
    {
        match &path.components[i] {
            PathComponent::CurDir | PathComponent::ParentDir => {
                proof {
                    let c = path@.components[i as int];
                    assert(!(c is Prefix || c is RootDir || c is Normal));
                }
                return false;
            },
            _ => {},
        }
    }
    true
}

fn has_dot(path: &PathModel) -> (r: bool)
    ensures
        r == has_dot_component(path@),
{
    let n = path.components.len();
    for i in 0..n
        invariant
            n == path.components@.len(),
            forall|j: int|
                0 <= j < i ==> !(#[trigger] path@.components[j] is CurDir
                    || path@.components[j] is ParentDir),
    {
        match &path.components[i] {
            PathComponent::CurDir | PathComponent::ParentDir => {
                proof {
                    assert(path@.components[i as int] is CurDir || path@.components[i as int] is ParentDir);
                }
                return true;
            },
            _ => {},
        }
    }
    false
}

fn invalid(message: &str) -> (e: ConfigError)
    ensures
        e@ == ConfigErrorView::Invalid(message@),
{
    ConfigError::Invalid(String::from_str(message))
}

/// Accepts a bootstrap locator only in the current format and with a
/// normalized absolute config root.
pub fn validate_bootstrap(config: &BootstrapConfig) -> (result: Result<(), ConfigError>)
    ensures
        match result {
            Ok(()) => bootstrap_validation(config.format_version, config.config_root@) == Ok::<
                (),
                ConfigErrorView,
            >(()),
            Err(e) => bootstrap_validation(config.format_version, config.config_root@) == Err::<
                (),
                ConfigErrorView,
            >(e@),
        },
{
    if config.format_version != CONFIG_FORMAT_VERSION {
        let prefix = String::from_str("unsupported bootstrap format version ");
        let number = decimal_string(config.format_version as u64);
        return Err(ConfigError::Invalid(prefix.concat(number.as_str())));
    }
    if config.config_root.is_empty() {
        return Err(invalid("config root is empty"));
    }
    if !config.config_root.absolute || has_dot(&config.config_root) {
        return Err(invalid("config root must be a normalized absolute path"));
    }
    Ok(())
}

/// The path of `path` below `root`; refused when `path` is not below `root`
/// or is not a non-empty list of plain names there.
pub fn relative_config_path(root: &PathModel, path: &PathModel) -> (result: Result<
    PathModel,
    ConfigError,
>)
    ensures
        match result {
            Ok(relative) => relative_config(root@, path@) == Ok::<
                Seq<ComponentView>,
                ConfigErrorView,
            >(relative@.components) && !relative@.absolute,
            Err(e) => relative_config(root@, path@) == Err::<Seq<ComponentView>, ConfigErrorView>(
                e@,
            ),
        },
{
    match path.strip_prefix(root) {
        None => Err(invalid("configuration path is outside the config root")),
        Some(relative) => {
            if relative.is_empty() || !relative.is_all_normal() {
                Err(invalid("configuration path is not a normalized file path"))
            } else {
                Ok(relative)
            }
        },
    }
}

/// Where the backup of `path` goes below `machine_root`.
pub fn backup_path(machine_root: &PathModel, config_root: Option<&PathModel>, path: &PathModel) -> (result:
    Result<PathModel, ConfigError>)
    ensures
        match result {
            Ok(backup) => backup_location(
                machine_root@,
                match config_root {
                    Some(r) => Some(r@),
                    None => None,
                },
                path@,
            ) == Ok::<Seq<ComponentView>, ConfigErrorView>(backup@.components) && backup@.absolute
                == machine_root@.absolute,
            Err(e) => backup_location(
                machine_root@,
                match config_root {
                    Some(r) => Some(r@),
                    None => None,
                },
                path@,
            ) == Err::<Seq<ComponentView>, ConfigErrorView>(e@),
        },
{
    let below_root = match config_root {
        Some(root) => match relative_config_path(root, path) {
            Ok(relative) => Some(relative),
            Err(_) => None,
        },
        None => None,
    };
    let relative = match below_root {
        Some(r) => Some(r),
        None => match path.file_name() {
            Some(name) => {
                let mut components: Vec<PathComponent> = Vec::new();
                components.push(PathComponent::Normal(name));
                let r = PathModel { components, absolute: false };
                proof {
                    assert(r@.components =~= seq![path@.components.last()]);
                }
                Some(r)
            },
            None => None,
        },
    };
    match relative {
        Some(r) => {
            let base = machine_root.join_name("backups").join_name("config");
            let backup = base.join_relative(&r);
            proof {
                assert(backup@.components =~= machine_root@.components + seq![
                    ComponentView::Normal("backups"@),
                    ComponentView::Normal("config"@),
                ] + r@.components);
            }
            Ok(backup)
        },
        None => Err(invalid("configuration path has no file name")),
    }
}

/// Store for bootstrap metadata and the effective user configuration root.
#[derive(Debug, Clone)]
pub struct ConfigStore {
    bootstrap_path: PathModel,
    config_root: PathModel,
    machine_root: PathModel,
    read_only: bool,
}

/// The components of the bootstrap locator below `machine_root`.
pub open spec fn bootstrap_location(machine_root: PathView) -> Seq<ComponentView> {
    machine_root.components.push(ComponentView::Normal("bootstrap.jsonc"@))
}

impl ConfigStore {
    /// The bootstrap locator.
    pub closed spec fn bootstrap_view(&self) -> PathView {
        self.bootstrap_path@
    }

    /// The effective configuration root.
    pub closed spec fn config_root_view(&self) -> PathView {
        self.config_root@
    }

    /// The machine-local root.
    pub closed spec fn machine_root_view(&self) -> PathView {
        self.machine_root@
    }

    /// Whether the configuration was recovered from a backup and is read-only.
    pub closed spec fn read_only_view(&self) -> bool {
        self.read_only
    }

    /// The locations of the bootstrap locator and of its backup below
    /// `machine_root`, which must be a normalized absolute path.
    pub fn bootstrap_locations(machine_root: &PathModel) -> (result: Result<
        (PathModel, PathModel),
        ConfigError,
    >)
        ensures
            match result {
                Ok((bootstrap, backup)) => {
                    &&& normalized_absolute(machine_root@)
                    &&& bootstrap@.components == bootstrap_location(machine_root@)
                    &&& bootstrap@.absolute == machine_root@.absolute
                    &&& backup_location(machine_root@, None, bootstrap@) == Ok::<
                        Seq<ComponentView>,
                        ConfigErrorView,
                    >(backup@.components)
                    &&& backup@.absolute == machine_root@.absolute
                },
                Err(e) => !normalized_absolute(machine_root@) && e@ == ConfigErrorView::Invalid(
                    "machine root must be a normalized absolute path"@,
                ),
            },
    {
        if !is_normalized_absolute(machine_root) {
            return Err(invalid("machine root must be a normalized absolute path"));
        }
        let bootstrap = machine_root.join_name("bootstrap.jsonc");
        match backup_path(machine_root, None, &bootstrap) {
            Ok(backup) => Ok((bootstrap, backup)),
            Err(e) => {
                proof {
                    assert(bootstrap@.components.last() == ComponentView::Normal(
                        "bootstrap.jsonc"@,
                    ));
                }
                Err(e)
            },
        }
    }

    /// The store for a machine root and the bootstrap locator read there;
    /// both are validated first.
    pub fn opened(machine_root: PathModel, bootstrap: &BootstrapConfig, read_only: bool) -> (result:
        Result<ConfigStore, ConfigError>)
        ensures
            match result {
                Ok(store) => {
                    &&& normalized_absolute(machine_root@)
                    &&& bootstrap_validation(bootstrap.format_version, bootstrap.config_root@)
                        == Ok::<(), ConfigErrorView>(())
                    &&& store.bootstrap_view().components == bootstrap_location(machine_root@)
                    &&& store.config_root_view() == bootstrap.config_root@
                    &&& store.machine_root_view() == machine_root@
                    &&& store.read_only_view() == read_only
                },
                Err(e) => if !normalized_absolute(machine_root@) {
                    e@ == ConfigErrorView::Invalid(
                        "machine root must be a normalized absolute path"@,
                    )
                } else {
                    bootstrap_validation(bootstrap.format_version, bootstrap.config_root@) == Err::<
                        (),
                        ConfigErrorView,
                    >(e@)
                },
            },
    {
        if !is_normalized_absolute(&machine_root) {
            return Err(invalid("machine root must be a normalized absolute path"));
        }
        validate_bootstrap(bootstrap)?;
        let bootstrap_path = machine_root.join_name("bootstrap.jsonc");
        Ok(ConfigStore {
            bootstrap_path,
            config_root: bootstrap.config_root.duplicate(),
            machine_root,
            read_only,
        })
    }

    /// The bootstrap locator.
    pub fn bootstrap_path(&self) -> (path: &PathModel)
        ensures
            path@ == self.bootstrap_view(),
    {
        &self.bootstrap_path
    }

    /// The effective configuration root.
    pub fn config_root(&self) -> (path: &PathModel)
        ensures
            path@ == self.config_root_view(),
    {
        &self.config_root
    }

    /// The machine-local root.
    pub fn machine_root(&self) -> (path: &PathModel)
        ensures
            path@ == self.machine_root_view(),
    {
        &self.machine_root
    }

    /// Whether the configuration is read-only after a recovery.
    pub fn is_read_only(&self) -> (read_only: bool)
        ensures
            read_only == self.read_only_view(),
    {
        self.read_only
    }

    /// The root host configuration file.
    pub fn config_file(&self) -> (path: PathModel)
        ensures
            path@.components == self.config_root_view().components.push(
                ComponentView::Normal("nanika.jsonc"@),
            ),
            path@.absolute == self.config_root_view().absolute,
    {
        self.config_root.join_name("nanika.jsonc")
    }

    /// The extension registry file.
    pub fn extensions_file(&self) -> (path: PathModel)
        ensures
            path@.components == self.config_root_view().components.push(
                ComponentView::Normal("extensions.jsonc"@),
            ),
            path@.absolute == self.config_root_view().absolute,
    {
        self.config_root.join_name("extensions.jsonc")
    }

    /// Whether `path` may be read: the bootstrap locator, or a file below the config root.
    pub fn check_load(&self, path: &PathModel) -> (result: Result<(), ConfigError>)
        ensures
            match result {
                Ok(()) => same_path(path@, self.bootstrap_view()) || relative_config(
                    self.config_root_view(),
                    path@,
                ) is Ok,
                Err(e) => !same_path(path@, self.bootstrap_view()) && relative_config(
                    self.config_root_view(),
                    path@,
                ) == Err::<Seq<ComponentView>, ConfigErrorView>(e@),
            },
    {
        if !path.same_as(&self.bootstrap_path) {
            relative_config_path(&self.config_root, path)?;
        }
        Ok(())
    }

    /// Why replacing `path` is refused, if it is: the configuration is
    /// read-only after a recovery, `path` is the bootstrap locator, or it is
    /// not a file below the config root.
    pub open spec fn save_refusal(&self, path: PathView) -> Option<ConfigErrorView> {
        if self.read_only_view() {
            Some(ConfigErrorView::Invalid("configuration is read-only after recovery"@))
        } else if same_path(path, self.bootstrap_view()) {
            Some(ConfigErrorView::Invalid("bootstrap updates require the relocation boundary"@))
        } else {
            match relative_config(self.config_root_view(), path) {
                Err(e) => Some(e),
                Ok(_) => match backup_location(
                    self.machine_root_view(),
                    Some(self.config_root_view()),
                    path,
                ) {
                    Err(e) => Some(e),
                    Ok(_) => None,
                },
            }
        }
    }

    /// The new text of the file at `path`, whose text is `text`, once
    /// `updates` are applied to the object (the root, or its member
    /// `object`): refused as `save_refusal` says, a parse failure otherwise.
    pub open spec fn update_outcome(
        &self,
        path: PathView,
        text: Seq<char>,
        object: Option<Seq<char>>,
        updates: Seq<(Seq<char>, Option<ScalarView>)>,
    ) -> Result<Seq<char>, ConfigErrorView> {
        match self.save_refusal(path) {
            Some(r) => Err(r),
            None => match object_edited(text, object, updates) {
                Ok(t) => Ok(t),
                Err(m) => Err(ConfigErrorView::Parse(m)),
            },
        }
    }

    /// The text of the file at `path` (`existing`, or `{}` with a line break
    /// when there is no file) with the top-level members of `updates` set,
    /// keeping unrelated comments and formatting.
    pub fn update_text(&self, path: &PathModel, existing: Option<&str>, updates: &Vec<(String, ConfigScalar)>) -> (result:
        Result<String, ConfigError>)
        ensures
            ({
                let outcome = self.update_outcome(
                    path@,
                    match existing {
                        Some(t) => t@,
                        None => "{}\n"@,
                    },
                    None,
                    set_updates(updates@),
                );
                match result {
                    Ok(text) => outcome == Ok::<Seq<char>, ConfigErrorView>(text@),
                    Err(e) => outcome == Err::<Seq<char>, ConfigErrorView>(e@),
                }
            }),
    {
        self.check_save(path)?;
        let mut edits: Vec<(String, Option<ConfigScalar>)> = Vec::new();
        let n = updates.len();
        for i in 0..n
            invariant
                n == updates@.len(),
                edits@.len() == i,
                crate::jsonc::updates_view(edits@) == set_updates(updates@).take(i as int),
        {
            let value = copy_scalar(&updates[i].1);
            edits.push((updates[i].0.clone(), Some(value)));
            proof {
                assert(crate::jsonc::updates_view(edits@) =~= set_updates(updates@).take(i + 1));
            }
        }
        proof {
            assert(set_updates(updates@).take(n as int) =~= set_updates(updates@));
        }
        let text = match existing {
            Some(t) => t,
            None => "{}\n",
        };
        proof {
            reveal_strlit("{}\n");
        }
        match edit_object(text, None, &edits) {
            Ok(t) => Ok(t),
            Err(m) => Err(ConfigError::Parse(m)),
        }
    }

    /// The text `existing` of the file at `path` with the members of
    /// `updates` set (`Some`) or removed (`None`) in its object member
    /// `object_name`, keeping unrelated comments and formatting.
    pub fn update_object_text(
        &self,
        path: &PathModel,
        existing: &str,
        object_name: &str,
        updates: &Vec<(String, Option<ConfigScalar>)>,
    ) -> (result: Result<String, ConfigError>)
        ensures
            ({
                let outcome = self.update_outcome(
                    path@,
                    existing@,
                    Some(object_name@),
                    crate::jsonc::updates_view(updates@),
                );
                match result {
                    Ok(text) => outcome == Ok::<Seq<char>, ConfigErrorView>(text@),
                    Err(e) => outcome == Err::<Seq<char>, ConfigErrorView>(e@),
                }
            }),
    {
        self.check_save(path)?;
        match edit_object(existing, Some(object_name), updates) {
            Ok(t) => Ok(t),
            Err(m) => Err(ConfigError::Parse(m)),
        }
    }

    /// Whether `path` may be replaced, and where its backup goes: never while
    /// the configuration is read-only after a recovery, never for the
    /// bootstrap locator, and only for files below the config root.
    pub fn check_save(&self, path: &PathModel) -> (result: Result<PathModel, ConfigError>)
        ensures
            match result {
                Ok(backup) => {
                    &&& !self.read_only_view()
                    &&& !same_path(path@, self.bootstrap_view())
                    &&& relative_config(self.config_root_view(), path@) is Ok
                    &&& backup_location(
                        self.machine_root_view(),
                        Some(self.config_root_view()),
                        path@,
                    ) == Ok::<Seq<ComponentView>, ConfigErrorView>(backup@.components)
                    &&& backup@.absolute == self.machine_root_view().absolute
                },
                Err(e) => if self.read_only_view() {
                    e@ == ConfigErrorView::Invalid("configuration is read-only after recovery"@)
                } else if same_path(path@, self.bootstrap_view()) {
                    e@ == ConfigErrorView::Invalid(
                        "bootstrap updates require the relocation boundary"@,
                    )
                } else if relative_config(self.config_root_view(), path@) is Err {
                    relative_config(self.config_root_view(), path@) == Err::<
                        Seq<ComponentView>,
                        ConfigErrorView,
                    >(e@)
                } else {
                    backup_location(
                        self.machine_root_view(),
                        Some(self.config_root_view()),
                        path@,
                    ) == Err::<Seq<ComponentView>, ConfigErrorView>(e@)
                },
            },
    {
        if self.read_only {
            return Err(invalid("configuration is read-only after recovery"));
        }
        if path.same_as(&self.bootstrap_path) {
            return Err(invalid("bootstrap updates require the relocation boundary"));
        }
        relative_config_path(&self.config_root, path)?;
        backup_path(&self.machine_root, Some(&self.config_root), path)
    }
}

/// `uuid::Uuid::new_v4` as a number: a random machine identifier. Nothing
/// is stated of it: any value may come back.
#[verifier::external_body]
fn random_machine_id() -> (id: u128) {
    uuid::Uuid::new_v4().as_u128()
}

/// The locator written on first run: the current format, `config_root`,
/// and `machine_id`.
pub fn default_bootstrap(config_root: PathModel, machine_id: u128) -> (config: BootstrapConfig)
    ensures
        config.format_version == CONFIG_FORMAT_VERSION,
        config.config_root@ == config_root@,
        config.machine_id == machine_id,
{
    BootstrapConfig { format_version: CONFIG_FORMAT_VERSION, config_root, machine_id }
}

/// The locator written on first run, with a fresh random machine identifier.
pub fn new_default_bootstrap(config_root: PathModel) -> (config: BootstrapConfig)
    ensures
        config.format_version == CONFIG_FORMAT_VERSION,
        config.config_root@ == config_root@,
{
    default_bootstrap(config_root, random_machine_id())
}

/// What reading the bootstrap locator gave.
#[derive(Debug)]
pub enum BootstrapRead {
    /// There is no locator yet.
    Missing,
    /// The locator was read and is valid.
    Valid(BootstrapConfig),
    /// The locator could not be read, or is not valid.
    Unusable(ConfigError),
}

/// Where the configuration store takes its bootstrap locator from.
#[derive(Debug)]
pub enum BootstrapSource {
    /// Use the locator that was read; its backup is refreshed.
    Primary(BootstrapConfig),
    /// The locator is unusable: read the backup, and stay read-only.
    Backup,
    /// Create and save a default locator; its backup is refreshed.
    CreateDefault,
    /// Fail with the locator's error, as there is no backup to fall back to.
    Fail(ConfigError),
}

/// Updates that set each member to its value.
pub open spec fn set_updates(updates: Seq<(String, ConfigScalar)>) -> Seq<(Seq<char>, Option<ScalarView>)> {
    updates.map_values(|u: (String, ConfigScalar)| (u.0@, Some(u.1@)))
}

fn copy_scalar(value: &ConfigScalar) -> (copy: ConfigScalar)
    ensures
        copy@ == value@,
{
    match value {
        ConfigScalar::Null => ConfigScalar::Null,
        ConfigScalar::Bool(b) => ConfigScalar::Bool(*b),
        ConfigScalar::Number(n) => ConfigScalar::Number(n.clone()),
        ConfigScalar::Text(t) => ConfigScalar::Text(t.clone()),
    }
}

/// Where the bootstrap locator comes from, given what reading it gave and
/// whether its backup exists.
pub fn bootstrap_source(read: BootstrapRead, backup_exists: bool) -> (source: BootstrapSource)
    ensures
        match read {
            BootstrapRead::Missing => source is CreateDefault,
            BootstrapRead::Valid(config) => source == BootstrapSource::Primary(config),
            BootstrapRead::Unusable(e) => if backup_exists {
                source is Backup
            } else {
                source == BootstrapSource::Fail(e)
            },
        },
{
    match read {
        BootstrapRead::Missing => BootstrapSource::CreateDefault,
        BootstrapRead::Valid(config) => BootstrapSource::Primary(config),
        BootstrapRead::Unusable(e) => if backup_exists {
            BootstrapSource::Backup
        } else {
            BootstrapSource::Fail(e)
        },
    }
}

impl BootstrapSource {
    /// Whether the store opened from this source is read-only: exactly when
    /// the locator was unusable and its backup is used.
    pub fn opens_read_only(&self) -> (read_only: bool)
        ensures
            read_only == (*self is Backup),
    {
        match self {
            BootstrapSource::Backup => true,
            _ => false,
        }
    }

    /// Whether the backup of the locator is refreshed once the store is
    /// open: when the primary locator is used or was just created.
    pub fn refreshes_backup(&self) -> (refresh: bool)
        ensures
            refresh == (*self is Primary || *self is CreateDefault),
    {
        match self {
            BootstrapSource::Primary(_) => true,
            BootstrapSource::CreateDefault => true,
            _ => false,
        }
    }
}

/// The edit made to one member of a configuration object.
#[derive(Debug, Clone, Copy, PartialEq, Eq, Structural)]
pub enum ObjectEdit {
    /// Replace the member's value, keeping its comments and position.
    Replace,
    /// Add the member at the end of the object.
    Append,
    /// Remove the member.
    Remove,
    /// Nothing to do: the member is absent and is to stay absent.
    Skip,
}

/// The edit for a member that is `present` or not, to be given a value
/// (`has_value`) or removed.
pub open spec fn object_edit_spec(present: bool, has_value: bool) -> ObjectEdit {
    if has_value {
        if present {
            ObjectEdit::Replace
        } else {
            ObjectEdit::Append
        }
    } else if present {
        ObjectEdit::Remove
    } else {
        ObjectEdit::Skip
    }
}

/// The edit for a member that is `present` or not, to be given a value
/// (`has_value`) or removed.
pub fn object_edit(present: bool, has_value: bool) -> (edit: ObjectEdit)
    ensures
        edit == object_edit_spec(present, has_value),
{
    if has_value {
        if present {
            ObjectEdit::Replace
        } else {
            ObjectEdit::Append
        }
    } else if present {
        ObjectEdit::Remove
    } else {
        ObjectEdit::Skip
    }
}

/// `text`, ending with a line break.
pub fn with_final_newline(text: String) -> (out: String)
    ensures
        out@ == if text@.len() > 0 && text@.last() == '\n' {
            text@
        } else {
            text@.push('\n')
        },
{
    let n = text.as_str().unicode_len();
    if n > 0 && text.as_str().get_char(n - 1) == '\n' {
        return text;
    }
    let out = text.concat("\n");
    proof {
        reveal_strlit("\n");
        assert(out@ =~= text@.push('\n'));
    }
    out
}

} // verus!
