use vstd::prelude::*;
use crate::models::device::{Device, DeviceView, matches_codename_spec, str_eq};
use crate::models::distro_config::{DeviceDistroConfig, DistroConfig};
use crate::paths::{join_path, join_spec};
use crate::text::{dir_name_spec, filter_lower};

verus! {

broadcast use vstd::string::group_string_axioms;

/// The records of a list of devices.
pub open spec fn views(v: Seq<Device>) -> Seq<DeviceView> {
    v.map_values(|d: Device| d@)
}

/// No two records share a codename.
pub open spec fn codenames_unique(s: Seq<DeviceView>) -> bool {
    forall|i: int, j: int|
        0 <= i < s.len() && 0 <= j < s.len() && i != j ==> #[trigger] s[i].codename != #[trigger] s[j].codename
}

/// `m` after inserting each record of `s` in turn under its codename: a later
/// record replaces an earlier one with the same codename.
pub open spec fn insert_all(m: Map<Seq<char>, DeviceView>, s: Seq<DeviceView>) -> Map<Seq<char>, DeviceView>
    decreases s.len(),
{
    if s.len() == 0 {
        m
    } else {
        insert_all(m, s.drop_last()).insert(s.last().codename, s.last())
    }
}

/// The index of the last record of `s` with codename `k`, or -1.
pub open spec fn last_index(s: Seq<DeviceView>, k: Seq<char>) -> int
    decreases s.len(),
{
    if s.len() == 0 {
        -1
    } else if s.last().codename == k {
        s.len() - 1
    } else {
        last_index(s.drop_last(), k)
    }
}

/// What the database holds after loading the bundled records and then the
/// synced ones over them.
pub open spec fn loaded(synced: Seq<DeviceView>, bundled: Seq<DeviceView>) -> Map<Seq<char>, DeviceView> {
    insert_all(insert_all(Map::empty(), bundled), synced)
}

pub proof fn lemma_last_index(s: Seq<DeviceView>, k: Seq<char>)
    ensures
        -1 <= last_index(s, k) < s.len(),
        last_index(s, k) >= 0 ==> s[last_index(s, k)].codename == k,
        forall|j: int| last_index(s, k) < j < s.len() ==> #[trigger] s[j].codename != k,
    decreases s.len(),
{
    if s.len() > 0 {
        lemma_last_index(s.drop_last(), k);
        assert forall|j: int| last_index(s, k) < j < s.len() implies #[trigger] s[j].codename != k by {
            if j < s.len() - 1 {
                assert(s[j] == s.drop_last()[j]);
            }
        }
    }
}

pub proof fn lemma_insert_all_at(m: Map<Seq<char>, DeviceView>, s: Seq<DeviceView>, k: Seq<char>)
    ensures
        insert_all(m, s).contains_key(k) == (m.contains_key(k) || last_index(s, k) >= 0),
        last_index(s, k) >= 0 ==> insert_all(m, s)[k] == s[last_index(s, k)],
        last_index(s, k) < 0 ==> insert_all(m, s)[k] == m[k],
    decreases s.len(),
{
    if s.len() > 0 {
        lemma_insert_all_at(m, s.drop_last(), k);
        lemma_last_index(s.drop_last(), k);
        if s.last().codename != k {
            let li = last_index(s, k);
            if li >= 0 {
                assert(s[li] == s.drop_last()[li]);
            }
        }
    }
}

/// In a list without repeated codenames, each record is found under its own
/// codename, and the codenames are exactly the keys.
pub proof fn lemma_unique_map(s: Seq<DeviceView>)
    requires
        codenames_unique(s),
    ensures
        forall|k: Seq<char>|
            insert_all(Map::empty(), s).contains_key(k) <==> exists|j: int| 0 <= j < s.len() && #[trigger] s[j].codename == k,
        forall|j: int| 0 <= j < s.len() ==> insert_all(Map::empty(), s)[#[trigger] s[j].codename] == s[j],
{
    assert forall|k: Seq<char>|
        insert_all(Map::empty(), s).contains_key(k) <==> exists|j: int| 0 <= j < s.len() && #[trigger] s[j].codename == k by {
        lemma_insert_all_at(Map::empty(), s, k);
        lemma_last_index(s, k);
    }
    assert forall|j: int| 0 <= j < s.len() implies insert_all(Map::empty(), s)[#[trigger] s[j].codename] == s[j] by {
        let k = s[j].codename;
        lemma_insert_all_at(Map::empty(), s, k);
        lemma_last_index(s, k);
        let li = last_index(s, k);
        if li != j {
            assert(s[li].codename == s[j].codename);
        }
    }
}

/// Synced records overlay the bundled ones: after the bundled records and
/// then the synced ones are loaded, a codename that the synced set holds (a
/// record that parsed) gives its (last) synced record; a codename only the
/// bundled set holds gives its last bundled record; no other codename is
/// present. So every bundled device stays present, and a partial or failed
/// sync never leaves fewer devices than the bundled set.
pub proof fn lemma_synced_overrides(synced: Seq<DeviceView>, bundled: Seq<DeviceView>, k: Seq<char>)
    ensures
        last_index(synced, k) >= 0 ==> loaded(synced, bundled).contains_key(k)
            && loaded(synced, bundled)[k] == synced[last_index(synced, k)],
        last_index(synced, k) < 0 && last_index(bundled, k) >= 0 ==> loaded(synced, bundled).contains_key(k)
            && loaded(synced, bundled)[k] == bundled[last_index(bundled, k)],
        last_index(synced, k) < 0 && last_index(bundled, k) < 0 ==> !loaded(synced, bundled).contains_key(k),
        (exists|j: int| 0 <= j < bundled.len() && #[trigger] bundled[j].codename == k) ==> loaded(
            synced,
            bundled,
        ).contains_key(k),
{
    lemma_insert_all_at(insert_all(Map::empty(), bundled), synced, k);
    lemma_insert_all_at(Map::empty(), bundled, k);
    lemma_last_index(bundled, k);
    lemma_last_index(synced, k);
}

/// The index of the device whose codename is `codename`, if any.
fn index_of_codename(devs: &Vec<Device>, codename: &str) -> (r: Option<usize>)
    ensures
        r matches Some(i) ==> i < devs.len() && devs@[i as int]@.codename == codename@,
        r is None ==> forall|j: int| 0 <= j < devs.len() ==> (#[trigger] devs@[j])@.codename != codename@,
{
    for i in 0..devs.len()
        invariant
            forall|j: int| 0 <= j < i ==> (#[trigger] devs@[j])@.codename != codename@,
    {
        if str_eq(devs[i].codename.as_str(), codename) {
            return Some(i);
        }
    }
    None
}

/// In-memory database of supported devices, keyed by codename.
pub struct DeviceDatabase {
    devices: Vec<Device>,
}

impl DeviceDatabase {
    /// The stored records, in storage order.
    pub closed spec fn records(&self) -> Seq<DeviceView> {
        views(self.devices@)
    }

    #[verifier::type_invariant]
    closed spec fn wf(&self) -> bool {
        codenames_unique(self.records())
    }
}

impl View for DeviceDatabase {
    type V = Map<Seq<char>, DeviceView>;

    closed spec fn view(&self) -> Map<Seq<char>, DeviceView> {
        insert_all(Map::empty(), self.records())
    }
}

/// `d` is what a lookup of `codename` may give in `m`: a stored record that
/// `codename` names, by its own codename or an alias.
pub open spec fn found_by_codename(m: Map<Seq<char>, DeviceView>, codename: Seq<char>, d: DeviceView) -> bool {
    &&& matches_codename_spec(d, codename)
    &&& exists|k: Seq<char>| m.contains_key(k) && m[k] == d
}

/// The directories searched for the bundled device data, in order.
pub open spec fn bundled_candidates(pkgdatadir: Seq<char>) -> Seq<Seq<char>> {
    seq![
        join_spec(pkgdatadir, "devices"@),
        "/app/share/sidestep/devices"@,
        "data/devices"@,
        "devices"@,
    ]
}

/// The first candidate that is present (`present[i]` for the `i`-th), or
/// `devices` when none is.
pub open spec fn first_present(cands: Seq<Seq<char>>, present: Seq<bool>, i: int) -> Seq<char>
    decreases cands.len() - i,
{
    if i >= cands.len() {
        "devices"@
    } else if i < present.len() && present[i] {
        cands[i]
    } else {
        first_present(cands, present, i + 1)
    }
}

/// The distributions of a device: those of the bundled `distros.yml` when it
/// was read and lists any, else those of the synced one, else none.
pub open spec fn distro_configs_spec(bundled: Option<DeviceDistroConfig>, synced: Option<DeviceDistroConfig>) -> Seq<DistroConfig> {
    if bundled is Some && bundled->0.available_distros@.len() > 0 {
        bundled->0.available_distros@
    } else if synced is Some && synced->0.available_distros@.len() > 0 {
        synced->0.available_distros@
    } else {
        Seq::empty()
    }
}

/// `c` is the first distribution of `s` whose id is `id`.
pub open spec fn first_with_id(s: Seq<DistroConfig>, id: Seq<char>, c: DistroConfig) -> bool {
    exists|i: int|
        0 <= i < s.len() && s[i] == c && s[i].id@ == id && forall|j: int| 0 <= j < i ==> (#[trigger] s[j]).id@ != id
}

impl DeviceDatabase {
    /// A database with no devices.
    pub fn empty() -> (r: Self)
        ensures
            r@ == Map::<Seq<char>, DeviceView>::empty(),
    {
        let r = DeviceDatabase { devices: Vec::new() };
        assert(r.records() =~= Seq::<DeviceView>::empty());
        r
    }

    /// A database holding the bundled devices overlaid by the synced ones: a
    /// synced record replaces the bundled record of the same codename.
    pub fn new(synced: Vec<Device>, bundled: Vec<Device>) -> (r: Self)
        ensures
            r@ == loaded(views(synced@), views(bundled@)),
    {
        let mut db = Self::empty();
        db.load_from_data_dir(synced, bundled);
        db
    }

    /// Stores a device under its codename, replacing one with the same codename.
    pub fn insert(&mut self, device: Device)
        ensures
            final(self)@ == old(self)@.insert(device@.codename, device@),
    {
        proof {
            use_type_invariant(&*self);
        }
        let mut devs: Vec<Device> = Vec::new();
        std::mem::swap(&mut devs, &mut self.devices);
        let ghost s = views(devs@);
        let ghost d = device@;
        proof {
            lemma_unique_map(s);
        }
        let found = index_of_codename(&devs, device.codename.as_str());
        match found {
            Some(i) => {
                devs.set(i, device);
                proof {
                    let t = views(devs@);
                    assert(t =~= s.update(i as int, d));
                    assert(codenames_unique(t)) by {
                        assert forall|a: int, b: int|
                            0 <= a < t.len() && 0 <= b < t.len() && a != b implies #[trigger] t[a].codename != #[trigger] t[b].codename by {
                            assert(t[a].codename == s[a].codename);
                            assert(t[b].codename == s[b].codename);
                        }
                    }
                    lemma_unique_map(t);
                    let m = insert_all(Map::empty(), s).insert(d.codename, d);
                    assert forall|k: Seq<char>| insert_all(Map::empty(), t).contains_key(k) <==> m.contains_key(k) by {
                        if m.contains_key(k) && k != d.codename {
                            let j = choose|j: int| 0 <= j < s.len() && #[trigger] s[j].codename == k;
                            assert(t[j].codename == k);
                        }
                        if m.contains_key(k) && k == d.codename {
                            assert(t[i as int].codename == k);
                        }
                        if insert_all(Map::empty(), t).contains_key(k) {
                            let j = choose|j: int| 0 <= j < t.len() && #[trigger] t[j].codename == k;
                            assert(s[j].codename == k);
                        }
                    }
                    assert forall|k: Seq<char>| #[trigger] insert_all(Map::empty(), t).contains_key(k) implies insert_all(Map::empty(), t)[k] == m[k] by {
                        let j = choose|j: int| 0 <= j < t.len() && #[trigger] t[j].codename == k;
                        assert(insert_all(Map::empty(), t)[t[j].codename] == t[j]);
                        if j != i {
                            assert(s[j].codename == k);
                            assert(insert_all(Map::empty(), s)[s[j].codename] == s[j]);
                        }
                    }
                    assert(insert_all(Map::empty(), t) =~= m);
                }
            },
            None => {
                devs.push(device);
                proof {
                    let t = views(devs@);
                    assert(t =~= s.push(d));
                    assert(t.drop_last() =~= s);
                    assert(codenames_unique(t)) by {
                        assert forall|a: int, b: int|
                            0 <= a < t.len() && 0 <= b < t.len() && a != b implies #[trigger] t[a].codename != #[trigger] t[b].codename by {
                            if a < s.len() {
                                assert(t[a] == s[a]);
                                assert(devs@[a] == old(self).devices@[a]);
                            }
                            if b < s.len() {
                                assert(t[b] == s[b]);
                            }
                        }
                    }
                }
            },
        }
        self.devices = devs;
    }

    /// Stores each device in turn; a later one replaces an earlier one with
    /// the same codename.
    pub fn load_dir(&mut self, devices: Vec<Device>)
        ensures
            final(self)@ == insert_all(old(self)@, views(devices@)),
    {
        let ghost m0 = self@;
        for i in 0..devices.len()
            invariant
                self@ == insert_all(m0, views(devices@).take(i as int)),
        {
            let d = devices[i].copy();
            self.insert(d);
            assert(views(devices@).take(i + 1).drop_last() =~= views(devices@).take(i as int));
        }
        assert(views(devices@).take(devices.len() as int) =~= views(devices@));
    }

    /// Loads the bundled devices, then the synced ones over them: a synced
    /// record (one that parsed) overrides the bundled one, and synced-only
    /// devices are added.
    pub fn load_from_data_dir(&mut self, synced: Vec<Device>, bundled: Vec<Device>)
        ensures
            final(self)@ == insert_all(insert_all(old(self)@, views(bundled@)), views(synced@)),
    {
        self.load_dir(bundled);
        self.load_dir(synced);
    }

    /// Find a device by its codename: the device stored under it, or else one
    /// that lists it as an alias.
    pub fn find_by_codename(&self, codename: &str) -> (r: Option<Device>)
        ensures
            self@.contains_key(codename@) ==> (r matches Some(d) && d@ == self@[codename@]),
            r matches Some(d) ==> found_by_codename(self@, codename@, d@),
            r is None <==> !exists|k: Seq<char>| self@.contains_key(k) && matches_codename_spec(#[trigger] self@[k], codename@),
    {
        proof {
            use_type_invariant(self);
            lemma_unique_map(self.records());
        }
        let ghost s = self.records();
        let ghost m = self@;
        match index_of_codename(&self.devices, codename) {
            Some(i) => {
                let d = self.devices[i].copy();
                assert(s[i as int] == d@);
                assert(m[s[i as int].codename] == s[i as int]);
                assert(m.contains_key(codename@));
                return Some(d);
            },
            None => {
                assert(!m.contains_key(codename@)) by {
                    if m.contains_key(codename@) {
                        let j = choose|j: int| 0 <= j < s.len() && #[trigger] s[j].codename == codename@;
                        assert(self.devices@[j]@.codename == codename@);
                    }
                }
            },
        }
        for i in 0..self.devices.len()
            invariant
                s == self.records(),
                m == self@,
                forall|k: Seq<char>| m.contains_key(k) <==> exists|j: int| 0 <= j < s.len() && #[trigger] s[j].codename == k,
                forall|j: int| 0 <= j < s.len() ==> m[#[trigger] s[j].codename] == s[j],
                !m.contains_key(codename@),
                forall|j: int| 0 <= j < i ==> !matches_codename_spec(#[trigger] s[j], codename@),
        {
            if self.devices[i].matches_codename(codename) {
                let d = self.devices[i].copy();
                assert(s[i as int] == d@);
                assert(m.contains_key(s[i as int].codename) && m[s[i as int].codename] == d@);
                return Some(d);
            }
            assert(s[i as int] == self.devices@[i as int]@);
        }
        assert(!exists|k: Seq<char>| m.contains_key(k) && matches_codename_spec(#[trigger] m[k], codename@)) by {
            if exists|k: Seq<char>| m.contains_key(k) && matches_codename_spec(#[trigger] m[k], codename@) {
                let k = choose|k: Seq<char>| m.contains_key(k) && matches_codename_spec(#[trigger] m[k], codename@);
                let j = choose|j: int| 0 <= j < s.len() && #[trigger] s[j].codename == k;
                assert(m[s[j].codename] == s[j]);
            }
        }
        None
    }

    /// The directory holding the bundled device data (the baseline set): the
    /// first candidate that is present, `present[i]` telling whether the
    /// `i`-th of `bundled_candidates(pkgdatadir)` exists.
    pub fn bundled_devices_dir(pkgdatadir: &str, present: &Vec<bool>) -> (r: String)
        ensures
            r@ == first_present(bundled_candidates(pkgdatadir@), present@, 0),
    {
        let cands = Self::bundled_dirs(pkgdatadir);
        let ghost cs = bundled_candidates(pkgdatadir@);
        let mut i: usize = 0;
        while i < cands.len()
            invariant
                i <= cands.len(),
                cs == bundled_candidates(pkgdatadir@),
                cands.len() == cs.len(),
                forall|j: int| 0 <= j < cs.len() ==> (#[trigger] cands@[j])@ == cs[j],
                first_present(cs, present@, 0) == first_present(cs, present@, i as int),
            decreases cands.len() - i,
        {
            if i < present.len() && present[i] {
                assert(first_present(cs, present@, i as int) == cs[i as int]);
                let r = String::from_str(cands[i].as_str());
                return r;
            }
            i = i + 1;
        }
        String::from_str("devices")
    }

    /// The data directories searched for installer configs, in order: the
    /// source data directory, the installed one, the Flatpak one, `data`,
    /// and last the user's synced data (for devices only a sync brought).
    pub fn installer_data_dirs(source_data_dir: &str, pkgdatadir: &str, user_data_dir: &str) -> (r: Vec<String>)
        ensures
            crate::models::device::strings_view(r@) == seq![
                source_data_dir@,
                pkgdatadir@,
                "/app/share/sidestep"@,
                "data"@,
                user_data_dir@,
            ],
    {
        let mut r: Vec<String> = Vec::new();
        r.push(String::from_str(source_data_dir));
        r.push(String::from_str(pkgdatadir));
        r.push(String::from_str("/app/share/sidestep"));
        r.push(String::from_str("data"));
        r.push(String::from_str(user_data_dir));
        assert(crate::models::device::strings_view(r@) =~= seq![
            source_data_dir@,
            pkgdatadir@,
            "/app/share/sidestep"@,
            "data"@,
            user_data_dir@,
        ]);
        r
    }

    /// The directories searched for the bundled device data, in order.
    pub fn bundled_dirs(pkgdatadir: &str) -> (r: Vec<String>)
        ensures
            r.len() == bundled_candidates(pkgdatadir@).len(),
            forall|j: int| 0 <= j < r.len() ==> (#[trigger] r@[j])@ == bundled_candidates(pkgdatadir@)[j],
    {
        let mut r: Vec<String> = Vec::new();
        r.push(join_path(pkgdatadir, "devices"));
        r.push(String::from_str("/app/share/sidestep/devices"));
        r.push(String::from_str("data/devices"));
        r.push(String::from_str("devices"));
        proof {
            reveal_strlit("devices");
            reveal_strlit("/app/share/sidestep/devices");
            reveal_strlit("data/devices");
        }
        r
    }

    /// The user-synced devices directory under the user data directory (it
    /// may not exist yet).
    pub fn synced_devices_dir(user_data_dir: &str) -> (r: String)
        ensures
            r@ == join_spec(user_data_dir@, "devices"@),
    {
        join_path(user_data_dir, "devices")
    }

    /// Sanitize a manufacturer name for use as a directory name: drops every
    /// character that is not alphanumeric, `-` or `_`, then lowercases
    /// (`"F(x)tec"` gives `"fxtec"`).
    pub fn maker_to_dir(maker: &str) -> (r: String)
        ensures
            r@ == dir_name_spec(maker@),
    {
        filter_lower(maker, true)
    }

    /// All distribution configs of a device, from what was read of its
    /// bundled and synced `distros.yml`: the bundled file is tried first, the
    /// synced one is the fallback.
    pub fn get_distro_configs(&self, bundled: Option<DeviceDistroConfig>, synced: Option<DeviceDistroConfig>) -> (r: Vec<DistroConfig>)
        ensures
            r@ == distro_configs_spec(bundled, synced),
    {
        if let Some(c) = bundled {
            if c.available_distros.len() > 0 {
                return c.available_distros;
            }
        }
        if let Some(c) = synced {
            if c.available_distros.len() > 0 {
                return c.available_distros;
            }
        }
        Vec::new()
    }

    /// The distribution config with the given id, the first one listed.
    pub fn get_distro_config(
        &self,
        bundled: Option<DeviceDistroConfig>,
        synced: Option<DeviceDistroConfig>,
        distro_id: &str,
    ) -> (r: Option<DistroConfig>)
        ensures
            r matches Some(c) ==> first_with_id(distro_configs_spec(bundled, synced), distro_id@, c),
            r is None <==> forall|i: int|
                0 <= i < distro_configs_spec(bundled, synced).len()
                    ==> (#[trigger] distro_configs_spec(bundled, synced)[i]).id@ != distro_id@,
    {
        let mut configs = self.get_distro_configs(bundled, synced);
        let ghost s = configs@;
        let mut i: usize = 0;
        while i < configs.len()
            invariant
                configs@ == s,
                s == distro_configs_spec(bundled, synced),
                i <= s.len(),
                forall|j: int| 0 <= j < i ==> (#[trigger] s[j]).id@ != distro_id@,
            decreases configs.len() - i,
        {
            if str_eq(configs[i].id.as_str(), distro_id) {
                let c = configs.remove(i);
                assert(s[i as int] == c && s[i as int].id@ == distro_id@);
                return Some(c);
            }
            i = i + 1;
        }
        None
    }

    /// All stored devices, each once (in no particular order).
    pub fn all_devices(&self) -> (r: Vec<Device>)
        ensures
            codenames_unique(views(r@)),
            insert_all(Map::empty(), views(r@)) == self@,
    {
        proof {
            use_type_invariant(self);
        }
        let mut r: Vec<Device> = Vec::new();
        for i in 0..self.devices.len()
            invariant
                views(r@) =~= self.records().take(i as int),
        {
            let d = self.devices[i].copy();
            r.push(d);
            assert(self.records()[i as int] == d@);
            assert(self.records().take(i + 1) =~= self.records().take(i as int).push(d@));
        }
        assert(self.records().take(self.devices.len() as int) =~= self.records());
        r
    }
}

/// Reads device data files under one devices directory.
pub struct YamlParser {
    pub devices_dir: String,
}

impl YamlParser {
    pub fn new(devices_dir: &str) -> (r: Self)
        ensures
            r.devices_dir@ == devices_dir@,
    {
        YamlParser { devices_dir: String::from_str(devices_dir) }
    }

    /// The path of `{devices_dir}/{manufacturer}/{codename}/{file}`, such as
    /// a device's `info.yml` or `distros.yml`.
    pub fn device_file(&self, manufacturer: &str, codename: &str, file: &str) -> (r: String)
        ensures
            r@ == join_spec(join_spec(join_spec(self.devices_dir@, manufacturer@), codename@), file@),
    {
        let a = join_path(self.devices_dir.as_str(), manufacturer);
        let b = join_path(a.as_str(), codename);
        join_path(b.as_str(), file)
    }
}

} // verus!

verus! {

/// `{base}/{maker}/{name}/{file}` for each base, then each of the names.
pub open spec fn device_file_paths(bases: Seq<Seq<char>>, maker: Seq<char>, names: Seq<Seq<char>>, file: Seq<char>) -> Seq<
    Seq<char>,
>
    decreases bases.len(),
{
    if bases.len() == 0 {
        seq![]
    } else {
        device_file_paths(bases.drop_last(), maker, names, file) + Seq::new(
            names.len(),
            |j: int| join_spec(join_spec(join_spec(bases.last(), maker), names[j]), file),
        )
    }
}

/// The device directory names tried: the codename as it is, then lowercased
/// (some directories keep the upstream capitalisation).
pub open spec fn codename_dirs(codename: Seq<char>) -> Seq<Seq<char>> {
    seq![codename, crate::text::lowercase_spec(codename)]
}

proof fn lemma_device_file_paths_push(bases: Seq<Seq<char>>, x: Seq<char>, maker: Seq<char>, names: Seq<Seq<char>>, file: Seq<char>)
    ensures
        device_file_paths(bases.push(x), maker, names, file) == device_file_paths(bases, maker, names, file)
            + device_file_paths(seq![x], maker, names, file),
{
    assert(bases.push(x).drop_last() =~= bases);
    assert(seq![x].drop_last() =~= Seq::<Seq<char>>::empty());
    assert(device_file_paths(Seq::<Seq<char>>::empty(), maker, names, file) =~= Seq::<Seq<char>>::empty());
    assert(device_file_paths(seq![x], maker, names, file) =~= Seq::new(
        names.len(),
        |j: int| join_spec(join_spec(join_spec(x, maker), names[j]), file),
    ));
}

fn push_device_files(out: &mut Vec<String>, base: &str, maker: &str, codename: &str, file: &str)
    ensures
        crate::models::device::strings_view(final(out)@) == crate::models::device::strings_view(old(out)@)
            + device_file_paths(seq![base@], maker@, codename_dirs(codename@), file@),
{
    let ghost start = crate::models::device::strings_view(out@);
    let lower = crate::text::to_lowercase(codename);
    let a = join_path(join_path(join_path(base, maker).as_str(), codename).as_str(), file);
    let b = join_path(join_path(join_path(base, maker).as_str(), lower.as_str()).as_str(), file);
    proof {
        crate::hardware::command::lemma_strings_view_push(out@, a);
    }
    out.push(a);
    let ghost mid = out@;
    proof {
        crate::hardware::command::lemma_strings_view_push(mid, b);
    }
    out.push(b);
    assert(seq![base@].drop_last() =~= Seq::<Seq<char>>::empty());
    assert(device_file_paths(Seq::<Seq<char>>::empty(), maker@, codename_dirs(codename@), file@) =~= Seq::<Seq<char>>::empty());
    assert(device_file_paths(seq![base@], maker@, codename_dirs(codename@), file@) =~= seq![a@, b@]);
    assert(crate::models::device::strings_view(out@) =~= start + device_file_paths(
        seq![base@],
        maker@,
        codename_dirs(codename@),
        file@,
    ));
}

impl DeviceDatabase {
    /// The `unlocking.yml` files tried for a device, in order: under the
    /// bundled directory, then the synced one, its directory named by the
    /// codename as it is and lowercased; the first that reads and parses
    /// gives the curated unlocking steps.
    pub fn unlocking_paths(bundled_dir: &str, synced_dir: &str, device: &Device) -> (r: Vec<String>)
        ensures
            crate::models::device::strings_view(r@) == device_file_paths(
                seq![bundled_dir@, synced_dir@],
                dir_name_spec(device.maker@),
                codename_dirs(device.codename@),
                "unlocking.yml"@,
            ),
    {
        let maker = Self::maker_to_dir(device.maker.as_str());
        let mut out: Vec<String> = Vec::new();
        push_device_files(&mut out, bundled_dir, maker.as_str(), device.codename.as_str(), "unlocking.yml");
        push_device_files(&mut out, synced_dir, maker.as_str(), device.codename.as_str(), "unlocking.yml");
        let ghost bases = seq![bundled_dir@, synced_dir@];
        proof {
            lemma_device_file_paths_push(seq![bundled_dir@], synced_dir@, dir_name_spec(device.maker@), codename_dirs(device.codename@), "unlocking.yml"@);
            assert(seq![bundled_dir@].push(synced_dir@) =~= bases);
        }
        assert(crate::models::device::strings_view(out@) =~= device_file_paths(
            bases,
            dir_name_spec(device.maker@),
            codename_dirs(device.codename@),
            "unlocking.yml"@,
        ));
        out
    }

    /// The installer config files tried for a device and distribution, in
    /// order: `devices/{maker}/{codename}/installers/{distro}.yml` under each
    /// data directory, the codename as it is and lowercased; the first file
    /// that reads decides (a parse failure there gives no config).
    pub fn installer_config_paths(data_dirs: &Vec<String>, device: &Device, distro_id: &str) -> (r: Vec<String>)
        ensures
            crate::models::device::strings_view(r@) == device_file_paths(
                Seq::new(data_dirs@.len(), |i: int| join_spec(data_dirs@[i]@, "devices"@)),
                dir_name_spec(device.maker@),
                codename_dirs(device.codename@),
                join_spec("installers"@, distro_id@ + ".yml"@),
            ),
    {
        let maker = Self::maker_to_dir(device.maker.as_str());
        let mut file = owned_str(distro_id);
        file.append(".yml");
        let rel = join_path("installers", file.as_str());
        let ghost bases = Seq::new(data_dirs@.len(), |i: int| join_spec(data_dirs@[i]@, "devices"@));
        let mut out: Vec<String> = Vec::new();
        for i in 0..data_dirs.len()
            invariant
                bases == Seq::new(data_dirs@.len(), |i: int| join_spec(data_dirs@[i]@, "devices"@)),
                maker@ == dir_name_spec(device.maker@),
                crate::models::device::strings_view(out@) == device_file_paths(
                    bases.take(i as int),
                    dir_name_spec(device.maker@),
                    codename_dirs(device.codename@),
                    rel@,
                ),
        {
            let base = join_path(data_dirs[i].as_str(), "devices");
            push_device_files(&mut out, base.as_str(), maker.as_str(), device.codename.as_str(), rel.as_str());
            proof {
                lemma_device_file_paths_push(bases.take(i as int), base@, dir_name_spec(device.maker@), codename_dirs(device.codename@), rel@);
                assert(bases.take(i as int).push(base@) =~= bases.take(i + 1));
            }
        }
        assert(bases.take(data_dirs.len() as int) =~= bases);
        out
    }
}

fn owned_str(s: &str) -> (r: String)
    ensures
        r@ == s@,
{
    String::from_str(s)
}

} // verus!
