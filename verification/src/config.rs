//! Configuration of one validation run: the vendor policy, the discovery
//! mode, the key-scanning toggle and the Markdown skip tokens; and the
//! filesystem options that the discovery collaborator works from.

use vstd::prelude::*;

use crate::grammar::DiscoveryMode;

verus! {

/// The rule applied to the vendor fields of discovered identifiers.
#[derive(Debug, Clone)]
pub enum VendorPolicy {
    /// Every vendor is accepted.
    Any,
    /// Every segment's vendor must equal the given one.
    MustMatch(String),
}

/// The mathematical content of a vendor policy.
pub enum PolicyModel {
    Any,
    MustMatch(Seq<char>),
}

impl View for VendorPolicy {
    type V = PolicyModel;

    open spec fn view(&self) -> PolicyModel {
        match self {
            VendorPolicy::Any => PolicyModel::Any,
            VendorPolicy::MustMatch(v) => PolicyModel::MustMatch(v@),
        }
    }
}

/// Core validation configuration, shared by every scanner of a run.
#[derive(Debug, Clone)]
pub struct ValidationConfig {
    /// The vendor rule for discovered identifiers.
    pub vendor_policy: VendorPolicy,
    /// How candidates are discovered in Markdown text.
    pub discovery_mode: DiscoveryMode,
    /// Whether JSON/YAML object keys are judged too.
    pub scan_keys: bool,
    /// Case-insensitive tokens that suppress a Markdown candidate when one of
    /// them occurs earlier on the candidate's line.
    pub skip_tokens: Vec<String>,
}

/// The mathematical content of a validation configuration.
pub struct ConfigModel {
    pub vendor_policy: PolicyModel,
    pub discovery_mode: DiscoveryMode,
    pub scan_keys: bool,
    pub skip_tokens: Seq<Seq<char>>,
}

impl View for ValidationConfig {
    type V = ConfigModel;

    open spec fn view(&self) -> ConfigModel {
        ConfigModel {
            vendor_policy: self.vendor_policy@,
            discovery_mode: self.discovery_mode,
            scan_keys: self.scan_keys,
            skip_tokens: self.skip_tokens.deep_view(),
        }
    }
}

impl Default for ValidationConfig {
    /// Accept any vendor, discover strictly, do not scan keys, no skip tokens.
    fn default() -> (c: ValidationConfig)
        ensures
            c.vendor_policy is Any,
            c.discovery_mode == DiscoveryMode::StrictSpecOnly,
            c.scan_keys == false,
            c.skip_tokens@.len() == 0,
    {
        ValidationConfig {
            vendor_policy: VendorPolicy::Any,
            discovery_mode: DiscoveryMode::StrictSpecOnly,
            scan_keys: false,
            skip_tokens: Vec::new(),
        }
    }
}

/// Filesystem-side options of the discovery collaborator.  The validated core
/// never reads the disk itself; these travel with it so that one configuration
/// value can describe a whole run.
#[derive(Debug, Clone)]
pub struct FsSourceConfig {
    /// Paths to scan; must be non-empty for a run to start.
    pub paths: Vec<String>,
    /// Exclude patterns, in glob form.
    pub exclude: Vec<String>,
    /// Largest file size, in bytes, that is still read.
    pub max_file_size: u64,
    /// Whether symbolic links are followed.
    pub follow_links: bool,
}

impl Default for FsSourceConfig {
    /// No paths, no excludes, a 10 MiB size ceiling, links followed.
    fn default() -> (c: FsSourceConfig)
        ensures
            c.paths@.len() == 0,
            c.exclude@.len() == 0,
            c.max_file_size == 10_485_760u64,
            c.follow_links == true,
    {
        FsSourceConfig {
            paths: Vec::new(),
            exclude: Vec::new(),
            max_file_size: 10_485_760,
            follow_links: true,
        }
    }
}

} // verus!
