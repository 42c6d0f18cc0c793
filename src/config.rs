//! The settings the core reads: the defaults, per-site overrides, and the
//! configured triggers.
use vstd::prelude::*;
use vstd::string::StrSliceExecFns;

use crate::password::{lower_of, lowercase, GenerationMode, PasswordConfig};

verus! {

/// Settings that apply to every site unless a site overrides them.
#[derive(Debug, Clone)]
pub struct DefaultConfig {
    pub master_key: Option<String>,
    pub length: usize,
    pub lowercase: bool,
    pub uppercase: bool,
    pub digits: bool,
    pub symbols: bool,
    pub trigger_prefix: String,
    pub concat_trigger_prefix: String,
    pub autostart: bool,
}

/// Overrides for one site; an absent field falls back to the defaults.
#[derive(Debug, Clone, Copy, Default)]
pub struct SiteConfig {
    pub length: Option<usize>,
    pub lowercase: Option<bool>,
    pub uppercase: Option<bool>,
    pub digits: Option<bool>,
    pub symbols: Option<bool>,
    pub counter: Option<u32>,
}

/// The whole configuration: defaults and the sites, keyed by lowercase name.
/// Keys are distinct (see `Config::wf`), as in the configuration file's table.
#[derive(Debug, Clone)]
pub struct Config {
    pub default: DefaultConfig,
    pub sites: Vec<(String, SiteConfig)>,
}

/// The default password length.
pub fn default_length() -> (r: usize)
    ensures
        r == 16,
{
    16
}

/// The default of every class flag.
pub fn default_true() -> (r: bool)
    ensures
        r,
{
    true
}

/// The default prefix of keyed triggers.
pub fn default_trigger_prefix() -> (r: String)
    ensures
        r@ == seq![';', ';'],
{
    let mut s = String::new();
    crate::text::push_char(&mut s, ';');
    crate::text::push_char(&mut s, ';');
    s
}

/// The default prefix of concatenation triggers.
pub fn default_concat_trigger_prefix() -> (r: String)
    ensures
        r@ == seq!['!', '!'],
{
    let mut s = String::new();
    crate::text::push_char(&mut s, '!');
    crate::text::push_char(&mut s, '!');
    s
}

impl Default for DefaultConfig {
    fn default() -> (r: Self)
        ensures
            r.master_key is None,
            r.length == 16,
            r.lowercase && r.uppercase && r.digits && r.symbols,
            r.trigger_prefix@ == seq![';', ';'],
            r.concat_trigger_prefix@ == seq!['!', '!'],
            !r.autostart,
    {
        DefaultConfig {
            master_key: None,
            length: default_length(),
            lowercase: true,
            uppercase: true,
            digits: true,
            symbols: true,
            trigger_prefix: default_trigger_prefix(),
            concat_trigger_prefix: default_concat_trigger_prefix(),
            autostart: false,
        }
    }
}

impl Default for Config {
    fn default() -> (r: Self)
        ensures
            r.default.master_key is None,
            r.default.length == 16,
            r.sites@.len() == 0,
            r.wf(),
    {
        Config { default: DefaultConfig::default(), sites: Vec::new() }
    }
}

/// The overrides of the first site entry whose key is `key`.
pub open spec fn site_lookup_from(sites: Seq<(String, SiteConfig)>, key: Seq<char>, i: int) -> Option<
    SiteConfig,
>
    decreases sites.len() - i,
{
    if i < 0 || i >= sites.len() {
        None
    } else if sites[i].0@ == key {
        Some(sites[i].1)
    } else {
        site_lookup_from(sites, key, i + 1)
    }
}

/// The overrides of the site whose key is `key`, if there is one.
pub open spec fn site_lookup(sites: Seq<(String, SiteConfig)>, key: Seq<char>) -> Option<SiteConfig> {
    site_lookup_from(sites, key, 0)
}

/// No two site entries share a key.
pub open spec fn sites_unique(sites: Seq<(String, SiteConfig)>) -> bool {
    forall|i: int, j: int| 0 <= i < j < sites.len() ==> sites[i].0@ != sites[j].0@
}

proof fn lemma_lookup_from_finds(sites: Seq<(String, SiteConfig)>, i: int, k: int)
    requires
        sites_unique(sites),
        0 <= k <= i < sites.len(),
    ensures
        site_lookup_from(sites, sites[i].0@, k) == Some(sites[i].1),
    decreases i - k,
{
    if k < i {
        assert(sites[k].0@ != sites[i].0@);
        lemma_lookup_from_finds(sites, i, k + 1);
    }
}

/// With distinct keys, looking up an entry's key finds that entry, wherever
/// it stands: the entries behave as a map from key to overrides.
pub proof fn lemma_lookup_finds_entry(sites: Seq<(String, SiteConfig)>, i: int)
    requires
        sites_unique(sites),
        0 <= i < sites.len(),
    ensures
        site_lookup(sites, sites[i].0@) == Some(sites[i].1),
{
    lemma_lookup_from_finds(sites, i, 0);
}

/// An override, or the default when it is absent.
pub open spec fn or_default<T>(o: Option<T>, d: T) -> T {
    match o {
        Some(v) => v,
        None => d,
    }
}

/// The policy for a site with the given overrides.
pub open spec fn policy_for(d: DefaultConfig, s: Option<SiteConfig>) -> PasswordConfig {
    match s {
        Some(sc) => PasswordConfig {
            length: or_default(sc.length, d.length),
            use_lowercase: or_default(sc.lowercase, d.lowercase),
            use_uppercase: or_default(sc.uppercase, d.uppercase),
            use_digits: or_default(sc.digits, d.digits),
            use_symbols: or_default(sc.symbols, d.symbols),
            mode: GenerationMode::Argon2id,
        },
        None => PasswordConfig {
            length: d.length,
            use_lowercase: d.lowercase,
            use_uppercase: d.uppercase,
            use_digits: d.digits,
            use_symbols: d.symbols,
            mode: GenerationMode::Argon2id,
        },
    }
}

/// The counter for a site with the given overrides: 1 unless set.
pub open spec fn counter_for(s: Option<SiteConfig>) -> u32 {
    match s {
        Some(sc) => or_default(sc.counter, 1u32),
        None => 1,
    }
}

impl Config {
    /// The configuration's invariant: site keys are distinct.
    pub open spec fn wf(&self) -> bool {
        sites_unique(self.sites@)
    }

    /// The master secret to use: the configured one, unless it is absent or
    /// empty.
    pub fn active_master_key(&self) -> (r: Option<String>)
        ensures
            match self.default.master_key {
                Some(k) => if k@.len() > 0 {
                    r is Some && r->Some_0@ == k@
                } else {
                    r is None
                },
                None => r is None,
            },
    {
        match &self.default.master_key {
            Some(k) => {
                if k.as_str().unicode_len() > 0 {
                    Some(k.clone())
                } else {
                    None
                }
            },
            None => None,
        }
    }

    /// The configured triggers: the keyed prefix, then the concatenation
    /// prefix.
    pub fn trigger_specs(&self) -> (r: Vec<(String, GenerationMode)>)
        ensures
            r@.len() == 2,
            r@[0].0@ == self.default.trigger_prefix@,
            r@[0].1 == GenerationMode::Argon2id,
            r@[1].0@ == self.default.concat_trigger_prefix@,
            r@[1].1 == GenerationMode::Concatenation,
    {
        let mut r: Vec<(String, GenerationMode)> = Vec::new();
        r.push((self.default.trigger_prefix.clone(), GenerationMode::Argon2id));
        r.push((self.default.concat_trigger_prefix.clone(), GenerationMode::Concatenation));
        r
    }

    fn find_site(&self, key: &String) -> (r: Option<SiteConfig>)
        ensures
            r == site_lookup(self.sites@, key@),
    {
        let mut i: usize = 0;
        while i < self.sites.len()
            invariant
                i <= self.sites@.len(),
                site_lookup(self.sites@, key@) == site_lookup_from(self.sites@, key@, i as int),
            decreases self.sites@.len() - i,
        {
            if self.sites[i].0 == *key {
                return Some(self.sites[i].1);
            }
            i = i + 1;
        }
        None
    }

    /// The policy for `site`: each field from the site's overrides (looked up
    /// by lowercase name) or else from the defaults, in keyed mode.
    pub fn get_password_config(&self, site: &str) -> (r: PasswordConfig)
        ensures
            r == policy_for(self.default, site_lookup(self.sites@, lower_of(site@))),
    {
        let site_lower = lowercase(site);
        let site_config = self.find_site(&site_lower);
        match site_config {
            Some(sc) => PasswordConfig {
                length: match sc.length {
                    Some(v) => v,
                    None => self.default.length,
                },
                use_lowercase: match sc.lowercase {
                    Some(v) => v,
                    None => self.default.lowercase,
                },
                use_uppercase: match sc.uppercase {
                    Some(v) => v,
                    None => self.default.uppercase,
                },
                use_digits: match sc.digits {
                    Some(v) => v,
                    None => self.default.digits,
                },
                use_symbols: match sc.symbols {
                    Some(v) => v,
                    None => self.default.symbols,
                },
                mode: GenerationMode::Argon2id,
            },
            None => PasswordConfig {
                length: self.default.length,
                use_lowercase: self.default.lowercase,
                use_uppercase: self.default.uppercase,
                use_digits: self.default.digits,
                use_symbols: self.default.symbols,
                mode: GenerationMode::Argon2id,
            },
        }
    }

    /// The revocation counter for `site` (looked up by lowercase name): 1
    /// unless the site sets one.
    pub fn get_counter(&self, site: &str) -> (r: u32)
        ensures
            r == counter_for(site_lookup(self.sites@, lower_of(site@))),
    {
        let site_lower = lowercase(site);
        match self.find_site(&site_lower) {
            Some(sc) => match sc.counter {
                Some(c) => c,
                None => 1,
            },
            None => 1,
        }
    }
}

} // verus!
