//! Scan profiles and application settings.
//!
//! A profile is a saved scan configuration; a handful of built-in presets
//! come with the library. The manager keeps profiles by name; reading and
//! writing them on disk is the caller's.

use vstd::prelude::*;
use crate::parse::spec_parse_port_spec;
use crate::port::{PortError, PortSpec};
use crate::text::{is_alphanumeric_char, str_eq};

verus! {

/// The default scan technique keyword.
pub fn default_scan_type() -> (r: String)
    ensures
        r@ == "connect"@,
{
    String::from_str("connect")
}

/// The default concurrency cap.
pub fn default_concurrency() -> (r: usize)
    ensures
        r == 500,
{
    500
}

/// The default per-probe timeout in milliseconds.
pub fn default_timeout() -> (r: u64)
    ensures
        r == 3000,
{
    3000
}

/// A saved scan profile.
#[derive(Debug, Clone)]
pub struct Profile {
    /// Profile name, used as the identifier.
    pub name: String,
    /// Description of this profile.
    pub description: String,
    /// Port specification text.
    pub ports: String,
    /// Scan technique keyword: "connect", "syn" or "udp".
    pub scan_type: String,
    /// Concurrency cap.
    pub concurrency: usize,
    /// Per-probe timeout in milliseconds.
    pub timeout_ms: u64,
    /// Whether to grab banners.
    pub banner: bool,
    /// Rate limit in probes per second; zero means unlimited.
    pub rate_limit: u32,
}

/// Error raised by profile operations.
#[derive(Debug, Clone)]
pub enum ProfileError {
    /// No profile of that name exists.
    NotFound(String),
    /// A profile of that name already exists.
    AlreadyExists(String),
    /// The profile's name or configuration is not acceptable.
    InvalidName(String),
    /// The profile could not be stored.
    SaveFailed(String),
    /// The profile's port specification does not parse.
    Port(PortError),
}

/// Whether a profile name is acceptable: non-empty, all alphanumerics,
/// hyphens and underscores.
pub open spec fn spec_valid_profile_name(s: Seq<char>) -> bool {
    s.len() > 0 && forall|i: int|
        0 <= i < s.len() ==> (is_alphanumeric_char(#[trigger] s[i]) || s[i] == '-' || s[i] == '_')
}

/// Whether a keyword names a storable scan technique.
pub open spec fn spec_valid_scan_keyword(s: Seq<char>) -> bool {
    s == "connect"@ || s == "syn"@ || s == "udp"@
}


/// The quick preset, field for field.
pub open spec fn spec_is_quick(p: Profile) -> bool {
    &&& p.name@ == "quick"@
    &&& p.ports@ == "21,22,23,25,53,80,110,111,135,139,143,443,445,993,995,1723,3306,3389,5900,8080"@
    &&& p.scan_type@ == "connect"@
    &&& p.concurrency == 1000
    &&& p.timeout_ms == 2000
    &&& !p.banner
    &&& p.rate_limit == 0
}

/// The full preset, field for field.
pub open spec fn spec_is_full(p: Profile) -> bool {
    &&& p.name@ == "full"@
    &&& p.ports@ == "1-65535"@
    &&& p.scan_type@ == "connect"@
    &&& p.concurrency == 500
    &&& p.timeout_ms == 3000
    &&& !p.banner
    &&& p.rate_limit == 0
}

/// The web preset, field for field.
pub open spec fn spec_is_web(p: Profile) -> bool {
    &&& p.name@ == "web"@
    &&& p.ports@ == "80,443,8000,8080,8443,8888,9000,9090,3000,5000"@
    &&& p.scan_type@ == "connect"@
    &&& p.concurrency == 100
    &&& p.timeout_ms == 5000
    &&& p.banner
    &&& p.rate_limit == 0
}

/// The database preset, field for field.
pub open spec fn spec_is_database(p: Profile) -> bool {
    &&& p.name@ == "database"@
    &&& p.ports@ == "1433,1521,3306,5432,6379,9042,27017,5984,11211"@
    &&& p.scan_type@ == "connect"@
    &&& p.concurrency == 50
    &&& p.timeout_ms == 5000
    &&& p.banner
    &&& p.rate_limit == 0
}

/// The stealth preset, field for field.
pub open spec fn spec_is_stealth(p: Profile) -> bool {
    &&& p.name@ == "stealth"@
    &&& p.ports@ == "1-1000"@
    &&& p.scan_type@ == "syn"@
    &&& p.concurrency == 100
    &&& p.timeout_ms == 5000
    &&& !p.banner
    &&& p.rate_limit == 100
}

impl Profile {
    /// Create a new profile with the given name and default settings.
    pub fn new(name: &str) -> (r: Profile)
        ensures
            r.name@ == name@,
            r.description@ == Seq::<char>::empty(),
            r.ports@ == "1-1000"@,
            r.scan_type@ == "connect"@,
            r.concurrency == 500,
            r.timeout_ms == 3000,
            !r.banner,
            r.rate_limit == 0,
    {
        Profile {
            name: name.to_owned(),
            description: String::new(),
            ports: String::from_str("1-1000"),
            scan_type: default_scan_type(),
            concurrency: default_concurrency(),
            timeout_ms: default_timeout(),
            banner: false,
            rate_limit: 0,
        }
    }

    /// Parse this profile's port specification.
    pub fn port_spec(&self) -> (r: Result<PortSpec, PortError>)
        ensures
            r is Ok <==> spec_parse_port_spec(self.ports@) is Ok,
            r is Ok ==> {
                let pairs = spec_parse_port_spec(self.ports@)->Ok_0;
                &&& r.unwrap().spec_ranges().len() == pairs.len()
                &&& (forall|i: int|
                    0 <= i < pairs.len() ==> (#[trigger] r.unwrap().spec_ranges()[i]).spec_start()
                        == pairs[i].0 && r.unwrap().spec_ranges()[i].spec_end() == pairs[i].1)
            },
            r is Err ==> r.unwrap_err()@ == spec_parse_port_spec(self.ports@)->Err_0,
    {
        PortSpec::parse(self.ports.as_str())
    }

    /// Validate the profile: an acceptable name, a parsing port
    /// specification, and a known scan technique keyword, in that order.
    pub fn validate(&self) -> (r: Result<(), ProfileError>)
        ensures
            r is Ok <==> (spec_valid_profile_name(self.name@) && spec_parse_port_spec(self.ports@)
                is Ok && spec_valid_scan_keyword(self.scan_type@)),
            !spec_valid_profile_name(self.name@) ==> r.unwrap_err() is InvalidName,
            spec_valid_profile_name(self.name@) && !(spec_parse_port_spec(self.ports@) is Ok)
                ==> (r.unwrap_err() matches ProfileError::Port(e) && e@ == spec_parse_port_spec(
                self.ports@,
            )->Err_0),
            spec_valid_profile_name(self.name@) && spec_parse_port_spec(self.ports@) is Ok
                && !spec_valid_scan_keyword(self.scan_type@) ==> r.unwrap_err() is InvalidName,
    {
        let n = self.name.as_str().unicode_len();
        if n == 0 {
            return Err(ProfileError::InvalidName(String::from_str("name cannot be empty")));
        }
        let mut i: usize = 0;
        while i < n
            invariant
                i <= n,
                n == self.name@.len(),
                forall|k: int|
                    0 <= k < i ==> (is_alphanumeric_char(#[trigger] self.name@[k]) || self.name@[k]
                        == '-' || self.name@[k] == '_'),
            decreases n - i,
        {
            let c = self.name.as_str().get_char(i);
            if !c.is_alphanumeric() && c != '-' && c != '_' {
                return Err(
                    ProfileError::InvalidName(
                        String::from_str(
                            "name can only contain alphanumeric characters, hyphens, and underscores",
                        ),
                    ),
                );
            }
            i = i + 1;
        }
        match self.port_spec() {
            Ok(_) => {},
            Err(e) => {
                return Err(ProfileError::Port(e));
            },
        }
        if !(str_eq(self.scan_type.as_str(), "connect") || str_eq(self.scan_type.as_str(), "syn")
            || str_eq(self.scan_type.as_str(), "udp")) {
            return Err(ProfileError::InvalidName(String::from_str("invalid scan type")));
        }
        Ok(())
    }

    /// The quick preset: the most common ports, high concurrency.
    pub fn quick() -> (r: Profile)
        ensures
            spec_is_quick(r),
    {
        Profile {
            name: String::from_str("quick"),
            description: String::from_str("Quick scan of top 100 ports"),
            ports: String::from_str(
                "21,22,23,25,53,80,110,111,135,139,143,443,445,993,995,1723,3306,3389,5900,8080",
            ),
            scan_type: String::from_str("connect"),
            concurrency: 1000,
            timeout_ms: 2000,
            banner: false,
            rate_limit: 0,
        }
    }

    /// The full preset: every port.
    pub fn full() -> (r: Profile)
        ensures
            spec_is_full(r),
    {
        Profile {
            name: String::from_str("full"),
            description: String::from_str("Complete scan of all 65535 ports"),
            ports: String::from_str("1-65535"),
            scan_type: String::from_str("connect"),
            concurrency: 500,
            timeout_ms: 3000,
            banner: false,
            rate_limit: 0,
        }
    }

    /// The web preset: common web service ports, with banners.
    pub fn web() -> (r: Profile)
        ensures
            spec_is_web(r),
    {
        Profile {
            name: String::from_str("web"),
            description: String::from_str("Common web service ports"),
            ports: String::from_str("80,443,8000,8080,8443,8888,9000,9090,3000,5000"),
            scan_type: String::from_str("connect"),
            concurrency: 100,
            timeout_ms: 5000,
            banner: true,
            rate_limit: 0,
        }
    }

    /// The database preset: common database ports, with banners.
    pub fn database() -> (r: Profile)
        ensures
            spec_is_database(r),
    {
        Profile {
            name: String::from_str("database"),
            description: String::from_str("Common database ports"),
            ports: String::from_str("1433,1521,3306,5432,6379,9042,27017,5984,11211"),
            scan_type: String::from_str("connect"),
            concurrency: 50,
            timeout_ms: 5000,
            banner: true,
            rate_limit: 0,
        }
    }

    /// The stealth preset: a rate-limited SYN scan of the low ports.
    pub fn stealth() -> (r: Profile)
        ensures
            spec_is_stealth(r),
    {
        Profile {
            name: String::from_str("stealth"),
            description: String::from_str("Low-profile SYN scan"),
            ports: String::from_str("1-1000"),
            scan_type: String::from_str("syn"),
            concurrency: 100,
            timeout_ms: 5000,
            banner: false,
            rate_limit: 100,
        }
    }

    /// All built-in presets, in a fixed order.
    pub fn builtins() -> (r: Vec<Profile>)
        ensures
            r@.len() == 5,
            spec_is_quick(r@[0]),
            spec_is_full(r@[1]),
            spec_is_web(r@[2]),
            spec_is_database(r@[3]),
            spec_is_stealth(r@[4]),
    {
        let mut out: Vec<Profile> = Vec::new();
        out.push(Profile::quick());
        out.push(Profile::full());
        out.push(Profile::web());
        out.push(Profile::database());
        out.push(Profile::stealth());
        out
    }
}

/// Whether a name belongs to a built-in preset.
pub open spec fn spec_is_builtin_name(s: Seq<char>) -> bool {
    s == "quick"@ || s == "full"@ || s == "web"@ || s == "database"@ || s == "stealth"@
}

/// Keeps profiles by name: the built-in presets plus whatever the caller
/// loads or creates. Reading and writing profile files is the caller's.
pub struct ProfileManager {
    profiles: Vec<Profile>,
}

impl ProfileManager {
    /// The profiles held, in insertion order.
    pub closed spec fn spec_profiles(self) -> Seq<Profile> {
        self.profiles@
    }

    /// Whether a profile of the given name is held.
    pub open spec fn spec_has(self, name: Seq<char>) -> bool {
        exists|i: int|
            0 <= i < self.spec_profiles().len() && (#[trigger] self.spec_profiles()[i].name)@
                == name
    }

    /// Create a manager holding the built-in presets.
    pub fn new() -> (r: ProfileManager)
        ensures
            r.spec_profiles().len() == 5,
            spec_is_quick(r.spec_profiles()[0]),
            spec_is_full(r.spec_profiles()[1]),
            spec_is_web(r.spec_profiles()[2]),
            spec_is_database(r.spec_profiles()[3]),
            spec_is_stealth(r.spec_profiles()[4]),
            r.spec_has("quick"@),
            r.spec_has("full"@),
            r.spec_has("web"@),
            r.spec_has("database"@),
            r.spec_has("stealth"@),
    {
        let profiles = Profile::builtins();
        let manager = ProfileManager { profiles };
        proof {
            assert((manager.spec_profiles()[0].name)@ == "quick"@);
            assert((manager.spec_profiles()[1].name)@ == "full"@);
            assert((manager.spec_profiles()[2].name)@ == "web"@);
            assert((manager.spec_profiles()[3].name)@ == "database"@);
            assert((manager.spec_profiles()[4].name)@ == "stealth"@);
        }
        manager
    }

    /// Get a profile by name.
    pub fn get(&self, name: &str) -> (r: Option<&Profile>)
        ensures
            r is Some <==> self.spec_has(name@),
            r is Some ==> r.unwrap().name@ == name@,
    {
        let mut i: usize = 0;
        while i < self.profiles.len()
            invariant
                i <= self.spec_profiles().len(),
                forall|k: int|
                    0 <= k < i ==> (#[trigger] self.spec_profiles()[k].name)@ != name@,
            decreases self.spec_profiles().len() - i,
        {
            if str_eq(self.profiles[i].name.as_str(), name) {
                proof {
                    assert((self.spec_profiles()[i as int].name)@ == name@);
                }
                return Some(&self.profiles[i]);
            }
            i = i + 1;
        }
        None
    }

    /// All held profiles, in insertion order.
    pub fn list(&self) -> (r: &Vec<Profile>)
        ensures
            r@ == self.spec_profiles(),
    {
        &self.profiles
    }

    /// Add a profile loaded from elsewhere: a held profile of the same
    /// name is replaced, as a user profile overrides a preset.
    pub fn insert(&mut self, profile: Profile)
        ensures
            final(self).spec_has(profile.name@),
            final(self).spec_profiles().contains(profile),
            final(self).spec_profiles().len() <= old(self).spec_profiles().len() + 1,
    {
        let mut i: usize = 0;
        let n = self.profiles.len();
        while i < n
            invariant
                i <= n,
                n == self.spec_profiles().len(),
                self.spec_profiles() == old(self).spec_profiles(),
            decreases n - i,
        {
            if str_eq(self.profiles[i].name.as_str(), profile.name.as_str()) {
                let ghost pname = profile.name@;
                self.profiles[i] = profile;
                proof {
                    assert((self.spec_profiles()[i as int].name)@ == pname);
                }
                return ;
            }
            i = i + 1;
        }
        self.profiles.push(profile);
        proof {
            assert((self.spec_profiles().last().name)@ == profile.name@);
        }
    }

    /// Create a new profile: it must validate and its name must be free.
    pub fn create(&mut self, profile: Profile) -> (r: Result<(), ProfileError>)
        ensures
            r is Ok <==> (spec_valid_profile_name(profile.name@) && spec_parse_port_spec(
                profile.ports@,
            ) is Ok && spec_valid_scan_keyword(profile.scan_type@) && !old(self).spec_has(
                profile.name@,
            )),
            r is Ok ==> final(self).spec_profiles() == old(self).spec_profiles().push(profile),
            r is Err ==> final(self).spec_profiles() == old(self).spec_profiles(),
    {
        match profile.validate() {
            Ok(_) => {},
            Err(e) => {
                return Err(e);
            },
        }
        let exists_already = match self.get(profile.name.as_str()) {
            Some(_) => true,
            None => false,
        };
        if exists_already {
            return Err(ProfileError::AlreadyExists(profile.name.clone()));
        }
        self.profiles.push(profile);
        Ok(())
    }

    /// Delete a profile by name: presets cannot be deleted, and the name
    /// must be held.
    pub fn delete(&mut self, name: &str) -> (r: Result<(), ProfileError>)
        ensures
            spec_is_builtin_name(name@) ==> (r is Err && r.unwrap_err() is InvalidName
                && final(self).spec_profiles() == old(self).spec_profiles()),
            !spec_is_builtin_name(name@) && !old(self).spec_has(name@) ==> (r is Err
                && r.unwrap_err() is NotFound && final(self).spec_profiles() == old(self).spec_profiles()),
            !spec_is_builtin_name(name@) && old(self).spec_has(name@) ==> (r is Ok && exists|i: int|
                0 <= i < old(self).spec_profiles().len() && (#[trigger] old(self).spec_profiles()[i].name)@ == name@ && (forall|j: int|
                    0 <= j < i ==> (old(self).spec_profiles()[j].name)@ != name@) && final(self).spec_profiles() == old(self).spec_profiles().remove(i)),
    {
        if str_eq(name, "quick") || str_eq(name, "full") || str_eq(name, "web") || str_eq(
            name,
            "database",
        ) || str_eq(name, "stealth") {
            return Err(
                ProfileError::InvalidName(String::from_str("cannot delete built-in profile")),
            );
        }
        let mut i: usize = 0;
        let n = self.profiles.len();
        while i < n
            invariant
                i <= n,
                n == self.spec_profiles().len(),
                self.spec_profiles() == old(self).spec_profiles(),
                !spec_is_builtin_name(name@),
                forall|k: int|
                    0 <= k < i ==> (#[trigger] self.spec_profiles()[k].name)@ != name@,
            decreases n - i,
        {
            if str_eq(self.profiles[i].name.as_str(), name) {
                proof {
                    assert((self.spec_profiles()[i as int].name)@ == name@);
                }
                self.profiles.remove(i);
                return Ok(());
            }
            i = i + 1;
        }
        Err(ProfileError::NotFound(name.to_owned()))
    }
}

/// Application-wide settings.
#[derive(Debug, Clone)]
pub struct AppSettings {
    /// Default concurrency cap.
    pub default_concurrency: usize,
    /// Default per-probe timeout in milliseconds.
    pub default_timeout_ms: u64,
    /// Default scan technique keyword.
    pub default_scan_type: String,
    /// Whether to report progress by default.
    pub verbose: bool,
    /// Default output format keyword.
    pub default_output_format: String,
    /// Default rate limit; zero means unlimited.
    pub default_rate_limit: u32,
    /// Whether completed scans are stored automatically.
    pub auto_save_scans: bool,
}

impl Default for AppSettings {
    /// The settings a fresh installation runs with.
    fn default() -> (r: AppSettings)
        ensures
            r.default_concurrency == 500,
            r.default_timeout_ms == 3000,
            r.default_scan_type@ == "connect"@,
            !r.verbose,
            r.default_output_format@ == "plain"@,
            r.default_rate_limit == 0,
            r.auto_save_scans,
    {
        AppSettings {
            default_concurrency: 500,
            default_timeout_ms: 3000,
            default_scan_type: String::from_str("connect"),
            verbose: false,
            default_output_format: String::from_str("plain"),
            default_rate_limit: 0,
            auto_save_scans: true,
        }
    }
}

/// Application directory paths, as plain text; where they point on a
/// given machine is the caller's to supply.
#[derive(Debug, Clone)]
pub struct Paths {
    /// Configuration directory.
    pub config_dir: String,
    /// Data directory.
    pub data_dir: String,
    /// Cache directory.
    pub cache_dir: String,
}

impl Paths {
    /// Create paths from the three directories.
    pub fn new(config_dir: String, data_dir: String, cache_dir: String) -> (r: Paths)
        ensures
            r.config_dir@ == config_dir@,
            r.data_dir@ == data_dir@,
            r.cache_dir@ == cache_dir@,
    {
        Paths { config_dir, data_dir, cache_dir }
    }

    /// The path of the settings file.
    pub fn settings_file(&self) -> (r: String)
        ensures
            r@ == self.config_dir@ + "/settings.json"@,
    {
        self.config_dir.clone().concat("/settings.json")
    }

    /// The path of the profiles directory.
    pub fn profiles_dir(&self) -> (r: String)
        ensures
            r@ == self.config_dir@ + "/profiles"@,
    {
        self.config_dir.clone().concat("/profiles")
    }

    /// The path of the scan storage directory.
    pub fn scans_dir(&self) -> (r: String)
        ensures
            r@ == self.data_dir@ + "/scans"@,
    {
        self.data_dir.clone().concat("/scans")
    }
}

} // verus!
