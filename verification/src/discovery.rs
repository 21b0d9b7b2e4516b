//! The catalog of known configuration locations and the scan that finds
//! which of them exist on disk. Scanning never modifies anything.

use vstd::prelude::*;
use crate::disk::{home_dir, path_is_dir, path_is_file};
use crate::models::{Category, ConfigDefinition, ConfigKind, Platform, Sensitivity};
use crate::paths::{expand_home, expand_spec};
use crate::security::{is_private_key, is_private_key_spec};

verus! {

/// The catalog of known configuration locations.
pub struct Registry {
    definitions: Vec<ConfigDefinition>,
}

impl Registry {
    /// A catalog holding `definitions`, in that order.
    pub fn new(definitions: Vec<ConfigDefinition>) -> (r: Registry)
        ensures
            r.definitions_view() == definitions@,
    {
        Registry { definitions }
    }

    pub closed spec fn definitions_view(&self) -> Seq<ConfigDefinition> {
        self.definitions@
    }

    /// The catalog's definitions, in order.
    pub fn definitions(&self) -> (r: &[ConfigDefinition])
        ensures
            r@ == self.definitions_view(),
    {
        self.definitions.as_slice()
    }
}

/// A configuration found on disk during a scan, not yet taken in.
#[derive(Debug)]
pub struct DiscoveredConfig {
    pub definition_id: String,
    pub application: String,
    pub category: Category,
    pub kind: ConfigKind,
    pub path: String,
    pub sensitivity: Sensitivity,
    /// Whether the path names a private key; such a path is never taken in.
    pub is_private_key: bool,
}

/// Whether two platforms are the same.
pub fn platform_eq(a: Platform, b: Platform) -> (r: bool)
    ensures
        r == (a == b),
{
    match (a, b) {
        (Platform::Macos, Platform::Macos) => true,
        (Platform::Linux, Platform::Linux) => true,
        (Platform::Windows, Platform::Windows) => true,
        _ => false,
    }
}

/// A definition applies to a platform when it lists it.
pub open spec fn applies_to(d: ConfigDefinition, platform: Platform) -> bool {
    d.platforms@.contains(platform)
}

/// `r` is what a scan reports for definition `d` found at `path`.
pub open spec fn discovered_from(d: ConfigDefinition, path: Seq<char>, r: DiscoveredConfig) -> bool {
    &&& r.definition_id@ == d.id@
    &&& r.application@ == d.application@
    &&& r.category == d.category
    &&& r.kind == d.kind
    &&& r.path@ == path
    &&& r.sensitivity == d.sensitivity
    &&& r.is_private_key == is_private_key_spec(path)
}

/// Of the existence probes `p` of a definition's candidate paths, `k` is
/// the first that came out true.
pub open spec fn first_hit(p: Seq<bool>, k: int) -> bool {
    &&& 0 <= k < p.len()
    &&& p[k]
    &&& forall|i: int| 0 <= i < k ==> !p[i]
}

/// The first candidate path of `d` whose probe in `p` came out true.
pub open spec fn probe_hit(d: ConfigDefinition, p: Seq<bool>) -> Option<int> {
    if exists|k: int| k < d.paths@.len() && #[trigger] first_hit(p, k) {
        Some(choose|k: int| k < d.paths@.len() && #[trigger] first_hit(p, k))
    } else {
        None
    }
}

/// `p` probes the candidate paths of `d` in order, stopping at the first
/// that exists.
pub open spec fn probed_in_order(d: ConfigDefinition, p: Seq<bool>) -> bool {
    &&& p.len() <= d.paths@.len()
    &&& forall|i: int| 0 <= i < p.len() - 1 ==> !p[i]
    &&& p.len() < d.paths@.len() ==> p.len() > 0 && p.last()
}

/// `r` is what scanning `defs` reports when `probes[i]` tells which
/// candidate paths of `defs[i]` exist (as a file or a directory, as its kind
/// says): in order, one entry for each definition that applies to
/// `platform` and has a candidate that exists, found at the first such.
pub open spec fn scan_exact(
    defs: Seq<ConfigDefinition>,
    home: Seq<char>,
    platform: Platform,
    probes: Seq<Vec<bool>>,
    r: Seq<DiscoveredConfig>,
) -> bool
    decreases defs.len(),
{
    if defs.len() == 0 {
        r.len() == 0
    } else {
        let d = defs.last();
        let rest = defs.drop_last();
        if applies_to(d, platform) && probe_hit(d, probes[defs.len() - 1]@) is Some {
            &&& r.len() > 0
            &&& discovered_from(d, expand_spec(d.paths@[probe_hit(d, probes[defs.len() - 1]@)->0]@, home), r.last())
            &&& scan_exact(rest, home, platform, probes, r.drop_last())
        } else {
            scan_exact(rest, home, platform, probes, r)
        }
    }
}

/// `r` is what scanning `defs` reports for some outcome of probing each
/// definition that applies to `platform` in order (see [`scan_exact`]).
pub open spec fn scan_of_some_probes(
    defs: Seq<ConfigDefinition>,
    home: Seq<char>,
    platform: Platform,
    r: Seq<DiscoveredConfig>,
) -> bool {
    exists|probes: Seq<Vec<bool>>| {
        &&& probes.len() == defs.len()
        &&& forall|i: int| 0 <= i < defs.len() && applies_to(defs[i], platform) ==> #[trigger] probed_in_order(defs[i], probes[i]@)
        &&& #[trigger] scan_exact(defs, home, platform, probes, r)
    }
}

/// `d`'s candidate path `j`, expanded against `home`, gives `r`.
pub open spec fn found_at(d: ConfigDefinition, home: Seq<char>, j: int, r: DiscoveredConfig) -> bool {
    0 <= j < d.paths@.len() && discovered_from(d, expand_spec(d.paths@[j]@, home), r)
}

/// Every entry a scan reports comes from a definition of the catalog that
/// applies to the platform, found at one of its candidate paths.
pub proof fn lemma_scan_member(
    defs: Seq<ConfigDefinition>,
    home: Seq<char>,
    platform: Platform,
    probes: Seq<Vec<bool>>,
    r: Seq<DiscoveredConfig>,
    i: int,
)
    requires
        scan_exact(defs, home, platform, probes, r),
        0 <= i < r.len(),
    ensures
        exists|k: int, j: int| 0 <= k < defs.len() && applies_to(defs[k], platform) && #[trigger] found_at(defs[k], home, j, r[i]),
    decreases defs.len(),
{
    let d = defs.last();
    let rest = defs.drop_last();
    let p = probes[defs.len() - 1]@;
    if applies_to(d, platform) && probe_hit(d, p) is Some {
        let j = probe_hit(d, p)->0;
        if i == r.len() - 1 {
            assert(defs[defs.len() - 1] == d);
            assert(found_at(defs[defs.len() - 1], home, j, r[i]));
        } else {
            lemma_scan_member(rest, home, platform, probes, r.drop_last(), i);
            let (k, j2) = choose|k: int, j2: int| 0 <= k < rest.len() && applies_to(rest[k], platform) && #[trigger] found_at(rest[k], home, j2, r.drop_last()[i]);
            assert(defs[k] == rest[k]);
            assert(r.drop_last()[i] == r[i]);
            assert(found_at(defs[k], home, j2, r[i]));
        }
    } else {
        lemma_scan_member(rest, home, platform, probes, r, i);
        let (k, j) = choose|k: int, j: int| 0 <= k < rest.len() && applies_to(rest[k], platform) && #[trigger] found_at(rest[k], home, j, r[i]);
        assert(defs[k] == rest[k]);
        assert(found_at(defs[k], home, j, r[i]));
    }
}

/// Every entry a scan reports is of a definition one of whose candidate
/// paths was found to exist.
pub proof fn lemma_scan_hit(
    defs: Seq<ConfigDefinition>,
    home: Seq<char>,
    platform: Platform,
    probes: Seq<Vec<bool>>,
    r: Seq<DiscoveredConfig>,
    i: int,
)
    requires
        scan_exact(defs, home, platform, probes, r),
        0 <= i < r.len(),
    ensures
        exists|k: int| 0 <= k < defs.len() && (#[trigger] defs[k]).id@ == r[i].definition_id@
            && probe_hit(defs[k], probes[k]@) is Some,
    decreases defs.len(),
{
    let d = defs.last();
    let rest = defs.drop_last();
    let n = defs.len() - 1;
    if applies_to(d, platform) && probe_hit(d, probes[n]@) is Some {
        if i == r.len() - 1 {
            assert(defs[n] == d);
        } else {
            lemma_scan_hit(rest, home, platform, probes, r.drop_last(), i);
            let k = choose|k: int| 0 <= k < rest.len() && (#[trigger] rest[k]).id@ == r.drop_last()[i].definition_id@
                && probe_hit(rest[k], probes[k]@) is Some;
            assert(defs[k] == rest[k]);
            assert(r.drop_last()[i] == r[i]);
        }
    } else {
        lemma_scan_hit(rest, home, platform, probes, r, i);
        let k = choose|k: int| 0 <= k < rest.len() && (#[trigger] rest[k]).id@ == r[i].definition_id@
            && probe_hit(rest[k], probes[k]@) is Some;
        assert(defs[k] == rest[k]);
    }
}

/// The first position below `n` where `p` is true.
pub fn first_true(p: &Vec<bool>, n: usize) -> (r: Option<usize>)
    ensures
        r matches Some(k) ==> k < n && first_hit(p@, k as int),
        r is None ==> forall|k: int| k < n ==> !first_hit(p@, k),
{
    let mut k: usize = 0;
    while k < p.len() && k < n
        invariant
            k <= p.len(),
            forall|i: int| 0 <= i < k ==> !p@[i],
        decreases p.len() - k,
    {
        if p[k] {
            return Some(k);
        }
        k = k + 1;
    }
    None
}

/// The position [`probe_hit`] names.
pub fn hit_of(d: &ConfigDefinition, p: &Vec<bool>) -> (r: Option<usize>)
    ensures
        r matches Some(k) ==> probe_hit(*d, p@) == Some(k as int) && k < d.paths@.len(),
        r is None ==> probe_hit(*d, p@) is None,
{
    let r = first_true(p, d.paths.len());
    match r {
        Some(k) => {
            proof {
                assert(k < d.paths@.len() && first_hit(p@, k as int));
                let c = choose|c: int| c < d.paths@.len() && #[trigger] first_hit(p@, c);
                assert(c == k) by {
                    if c < k {
                        assert(!p@[c]);
                    } else if k < c {
                        assert(!p@[k as int]);
                    }
                }
            }
        },
        None => {},
    }
    r
}

/// What a scan of `registry` reports when `probes[i]` tells which candidate
/// paths of its definition `i` exist (see [`scan_exact`]).
pub fn scan_from_probes(registry: &Registry, home: &str, platform: Platform, probes: &Vec<Vec<bool>>) -> (r: Vec<DiscoveredConfig>)
    requires
        probes.len() == registry.definitions_view().len(),
    ensures
        scan_exact(registry.definitions_view(), home@, platform, probes@, r@),
{
    let defs = registry.definitions();
    let mut found: Vec<DiscoveredConfig> = Vec::new();
    let mut i: usize = 0;
    while i < defs.len()
        invariant
            defs@ == registry.definitions_view(),
            probes.len() == defs@.len(),
            i <= defs@.len(),
            scan_exact(defs@.take(i as int), home@, platform, probes@, found@),
        decreases defs.len() - i,
    {
        let def = &defs[i];
        let ghost t1 = defs@.take(i + 1);
        assert(t1.drop_last() =~= defs@.take(i as int));
        assert(t1.last() == *def);
        assert(t1.len() - 1 == i);
        if applies(def, platform) {
            match hit_of(def, &probes[i]) {
                Some(k) => {
                    let expanded = expand_home(def.paths[k].as_str(), home);
                    let key = is_private_key(expanded.as_str());
                    let item = DiscoveredConfig {
                        definition_id: def.id.clone(),
                        application: def.application.clone(),
                        category: def.category,
                        kind: def.kind,
                        path: expanded,
                        sensitivity: def.sensitivity,
                        is_private_key: key,
                    };
                    let ghost before = found@;
                    found.push(item);
                    assert(found@.drop_last() =~= before);
                    assert(scan_exact(t1, home@, platform, probes@, found@));
                },
                None => {
                    assert(scan_exact(t1, home@, platform, probes@, found@));
                },
            }
        } else {
            assert(scan_exact(t1, home@, platform, probes@, found@));
        }
        i = i + 1;
    }
    assert(defs@.take(defs@.len() as int) =~= defs@);
    found
}

/// Probes the candidate paths of `def` in order, as a file or a directory
/// as its kind says, stopping at the first that exists.
pub fn probe_candidates(def: &ConfigDefinition, home: &str) -> (r: Vec<bool>)
    ensures
        probed_in_order(*def, r@),
{
    let mut p: Vec<bool> = Vec::new();
    let mut j: usize = 0;
    while j < def.paths.len()
        invariant
            j <= def.paths.len(),
            p.len() == j,
            forall|i: int| 0 <= i < j ==> !p@[i],
        decreases def.paths.len() - j,
    {
        let expanded = expand_home(def.paths[j].as_str(), home);
        let exists = match def.kind {
            ConfigKind::File => path_is_file(expanded.as_str()),
            ConfigKind::Directory => path_is_dir(expanded.as_str()),
        };
        p.push(exists);
        if exists {
            return p;
        }
        j = j + 1;
    }
    p
}

/// Whether `d` applies to `platform`.
pub fn applies(d: &ConfigDefinition, platform: Platform) -> (r: bool)
    ensures
        r == applies_to(*d, platform),
{
    let mut i: usize = 0;
    while i < d.platforms.len()
        invariant
            i <= d.platforms.len(),
            forall|k: int| 0 <= k < i ==> d.platforms@[k] != platform,
        decreases d.platforms.len() - i,
    {
        if platform_eq(d.platforms[i], platform) {
            return true;
        }
        i = i + 1;
    }
    false
}

/// Scans the file system, against the given home directory, for every
/// definition that applies to `platform`: the first candidate path of each
/// that exists (as a file or a directory, as the definition's kind says)
/// is reported, as [`scan_from_probes`] decides. Nothing on disk is
/// modified.
pub fn scan_with_home(registry: &Registry, home: &str, platform: Platform) -> (r: Vec<DiscoveredConfig>)
    ensures
        scan_of_some_probes(registry.definitions_view(), home@, platform, r@),
{
    let defs = registry.definitions();
    let mut probes: Vec<Vec<bool>> = Vec::new();
    let mut i: usize = 0;
    while i < defs.len()
        invariant
            defs@ == registry.definitions_view(),
            i <= defs@.len(),
            probes.len() == i,
            forall|k: int| 0 <= k < i && applies_to(defs@[k], platform) ==> #[trigger] probed_in_order(defs@[k], probes@[k]@),
        decreases defs.len() - i,
    {
        let p = if applies(&defs[i], platform) {
            probe_candidates(&defs[i], home)
        } else {
            Vec::new()
        };
        probes.push(p);
        i = i + 1;
    }
    let r = scan_from_probes(registry, home, platform, &probes);
    assert(scan_exact(registry.definitions_view(), home@, platform, probes@, r@));
    r
}

/// Scans against the current user's home directory for the definitions
/// that apply to `platform`; nothing is found without a home directory.
pub fn scan(registry: &Registry, platform: Platform) -> (r: Vec<DiscoveredConfig>)
    ensures
        r@.len() == 0 || exists|home: Seq<char>| #[trigger] scan_of_some_probes(registry.definitions_view(), home, platform, r@),
{
    match home_dir() {
        Some(home) => scan_with_home(registry, home.as_str(), platform),
        None => Vec::new(),
    }
}

} // verus!
