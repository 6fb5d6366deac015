use vstd::prelude::*;
use crate::flashing::listing::{lemma_lex_irrefl, lemma_lex_total, lemma_lex_trans, lex_less, lex_lt};
use crate::hardware::command::owned;
use crate::models::database::views;
use crate::models::device::{Device, DeviceView, str_eq, strings_view};
use crate::text::{cat, chars_of};

verus! {

broadcast use vstd::string::group_string_axioms;

/// One row of the device browser: a name the device is sold under, its
/// codename (marked when support is experimental), and the codename it
/// opens.
#[derive(Debug, Clone)]
pub struct BrowserRow {
    pub title: String,
    pub subtitle: String,
    pub codename: String,
}

/// The devices of one maker, as the browser lists them.
#[derive(Debug, Clone)]
pub struct DeviceGroup {
    pub maker: String,
    pub rows: Vec<BrowserRow>,
}

pub open spec fn row_view(r: BrowserRow) -> (Seq<char>, Seq<char>, Seq<char>) {
    (r.title@, r.subtitle@, r.codename@)
}

pub open spec fn rows_view(v: Seq<BrowserRow>) -> Seq<(Seq<char>, Seq<char>, Seq<char>)> {
    v.map_values(|r: BrowserRow| row_view(r))
}

pub open spec fn groups_view(v: Seq<DeviceGroup>) -> Seq<(Seq<char>, Seq<(Seq<char>, Seq<char>, Seq<char>)>)> {
    v.map_values(|g: DeviceGroup| (g.maker@, rows_view(g.rows@)))
}

/// `a` is listed before `b`: by maker, then by name, in `str` order.
pub open spec fn listed_before(a: DeviceView, b: DeviceView) -> bool {
    lex_lt(a.maker, b.maker) || (a.maker == b.maker && lex_lt(a.name, b.name))
}

/// No device is listed after one that should come later.
pub open spec fn in_browser_order(s: Seq<DeviceView>) -> bool {
    forall|i: int, j: int| 0 <= i < j < s.len() ==> !listed_before(#[trigger] s[j], #[trigger] s[i])
}

/// The subtitle of a device's rows: its codename, marked when experimental.
pub open spec fn subtitle_spec(d: DeviceView) -> Seq<char> {
    if d.experimental {
        d.codename + " (Experimental)"@
    } else {
        d.codename
    }
}

/// A device's rows: one for its name, then one per variant name.
pub open spec fn device_rows_spec(d: DeviceView) -> Seq<(Seq<char>, Seq<char>, Seq<char>)> {
    let names = seq![d.name] + d.variants;
    Seq::new(names.len(), |i: int| (names[i], subtitle_spec(d), d.codename))
}

/// The groups of devices listed in order: a new group starts where the maker
/// changes.
pub open spec fn groups_spec(s: Seq<DeviceView>) -> Seq<(Seq<char>, Seq<(Seq<char>, Seq<char>, Seq<char>)>)>
    decreases s.len(),
{
    if s.len() == 0 {
        seq![]
    } else {
        let d = s.last();
        let g = groups_spec(s.drop_last());
        if g.len() > 0 && g.last().0 == d.maker {
            g.update(g.len() - 1, (d.maker, g.last().1 + device_rows_spec(d)))
        } else {
            g.push((d.maker, device_rows_spec(d)))
        }
    }
}

proof fn lemma_before_order(a: DeviceView, b: DeviceView, c: DeviceView)
    ensures
        !listed_before(a, a),
        listed_before(a, b) && listed_before(b, c) ==> listed_before(a, c),
        !listed_before(a, b) && !listed_before(b, a) ==> a.maker == b.maker && a.name == b.name,
{
    lemma_lex_irrefl(a.maker);
    lemma_lex_irrefl(a.name);
    lemma_lex_total(a.maker, b.maker);
    lemma_lex_total(a.name, b.name);
    if listed_before(a, b) && listed_before(b, c) {
        if lex_lt(a.maker, b.maker) && lex_lt(b.maker, c.maker) {
            lemma_lex_trans(a.maker, b.maker, c.maker);
        }
        if a.maker == b.maker && lex_lt(a.name, b.name) && b.maker == c.maker && lex_lt(b.name, c.name) {
            lemma_lex_trans(a.name, b.name, c.name);
        }
    }
}

fn before(a: &Device, b: &Device) -> (r: bool)
    ensures
        r == listed_before(a@, b@),
{
    let am = chars_of(a.maker.as_str());
    let bm = chars_of(b.maker.as_str());
    if lex_less(&am, &bm) {
        return true;
    }
    str_eq(a.maker.as_str(), b.maker.as_str()) && lex_less(&chars_of(a.name.as_str()), &chars_of(b.name.as_str()))
}

/// The devices in browser order: by maker, then by name.
pub fn sort_devices(devices: &Vec<Device>) -> (r: Vec<Device>)
    ensures
        views(r@).to_multiset() == views(devices@).to_multiset(),
        in_browser_order(views(r@)),
{
    let mut out: Vec<Device> = Vec::new();
    assert(views(devices@).take(0) =~= Seq::<DeviceView>::empty());
    assert(views(out@) =~= Seq::<DeviceView>::empty());
    for i in 0..devices.len()
        invariant
            views(out@).to_multiset() == views(devices@).take(i as int).to_multiset(),
            in_browser_order(views(out@)),
    {
        let d = devices[i].copy();
        // The place after every device not listed after it.
        let mut pos: usize = 0;
        while pos < out.len() && !before(&d, &out[pos])
            invariant
                pos <= out.len(),
                forall|k: int| 0 <= k < pos ==> !listed_before(d@, #[trigger] views(out@)[k]),
            decreases out.len() - pos,
        {
            pos = pos + 1;
        }
        let ghost s = views(out@);
        proof {
            assert forall|k: int| pos <= k < s.len() implies listed_before(d@, #[trigger] s[k]) by {
                if pos < s.len() {
                    assert(listed_before(d@, s[pos as int]));
                    if k > pos {
                        assert(!listed_before(s[k], s[pos as int]));
                        lemma_before_order(d@, s[pos as int], s[k]);
                        lemma_before_order(s[pos as int], s[k], s[k]);
                        if !listed_before(s[pos as int], s[k]) {
                            lemma_before_order(d@, s[pos as int], s[pos as int]);
                        }
                    }
                }
            }
        }
        out.insert(pos, d);
        proof {
            let t = views(out@);
            assert(t =~= s.insert(pos as int, d@));
            assert(views(devices@)[i as int] == d@);
            assert(views(devices@).take(i + 1) =~= views(devices@).take(i as int).push(d@));
            vstd::seq_lib::to_multiset_insert(s, pos as int, d@);
            vstd::seq_lib::to_multiset_build(views(devices@).take(i as int), d@);
            assert forall|a: int, b: int| 0 <= a < b < t.len() implies !listed_before(#[trigger] t[b], #[trigger] t[a]) by {
                lemma_before_order(t[a], t[b], t[a]);
                if a < pos && b == pos {
                    lemma_before_order(d@, s[a], s[a]);
                } else if a == pos && b > pos {
                    lemma_before_order(s[b - 1], d@, s[b - 1]);
                    lemma_before_order(d@, s[b - 1], d@);
                } else if a < pos && b > pos {
                    assert(!listed_before(s[b - 1], s[a]));
                } else if a > pos {
                    assert(!listed_before(s[b - 1], s[a - 1]));
                } else {
                    assert(!listed_before(s[b], s[a]));
                }
            }
        }
    }
    assert(views(devices@).take(devices.len() as int) =~= views(devices@));
    out
}

/// The rows of one device.
pub fn device_rows(device: &Device) -> (r: Vec<BrowserRow>)
    ensures
        rows_view(r@) == device_rows_spec(device@),
{
    let subtitle = if device.experimental {
        cat(device.codename.as_str(), " (Experimental)")
    } else {
        owned(device.codename.as_str())
    };
    let mut r: Vec<BrowserRow> = Vec::new();
    r.push(
        BrowserRow { title: owned(device.name.as_str()), subtitle: owned(subtitle.as_str()), codename: owned(device.codename.as_str()) },
    );
    let ghost names = seq![device@.name] + device@.variants;
    for i in 0..device.variants.len()
        invariant
            names == seq![device@.name] + device@.variants,
            device@.variants == strings_view(device.variants@),
            subtitle@ == subtitle_spec(device@),
            r.len() == i + 1,
            forall|k: int| 0 <= k < r.len() ==> #[trigger] row_view(r@[k]) == (names[k], subtitle_spec(device@), device@.codename),
    {
        r.push(
            BrowserRow {
                title: owned(device.variants[i].as_str()),
                subtitle: owned(subtitle.as_str()),
                codename: owned(device.codename.as_str()),
            },
        );
    }
    assert(rows_view(r@) =~= device_rows_spec(device@));
    r
}

/// Devices in browser order make one group per maker, the groups in `str`
/// order of their makers (so no maker heads two groups).
pub proof fn lemma_one_group_per_maker(s: Seq<DeviceView>)
    requires
        in_browser_order(s),
    ensures
        forall|i: int, j: int|
            0 <= i < j < groups_spec(s).len() ==> lex_lt(#[trigger] groups_spec(s)[i].0, #[trigger] groups_spec(s)[j].0),
        s.len() > 0 ==> groups_spec(s).len() > 0 && groups_spec(s).last().0 == s.last().maker,
    decreases s.len(),
{
    if s.len() > 0 {
        let p = s.drop_last();
        let d = s.last();
        assert(in_browser_order(p)) by {
            assert forall|i: int, j: int| 0 <= i < j < p.len() implies !listed_before(#[trigger] p[j], #[trigger] p[i]) by {
                assert(p[i] == s[i] && p[j] == s[j]);
            }
        }
        lemma_one_group_per_maker(p);
        let g = groups_spec(p);
        if g.len() > 0 && g.last().0 == d.maker {
        } else if g.len() > 0 {
            // The last maker so far comes before this device's maker.
            assert(p.len() > 0);
            assert(!listed_before(s[s.len() - 1], s[s.len() - 2]));
            assert(p.last() == s[s.len() - 2]);
            lemma_lex_total(g.last().0, d.maker);
            assert(lex_lt(g.last().0, d.maker));
            let t = groups_spec(s);
            assert(t == g.push((d.maker, device_rows_spec(d))));
            assert forall|i: int, j: int| 0 <= i < j < t.len() implies lex_lt(#[trigger] t[i].0, #[trigger] t[j].0) by {
                if j == t.len() - 1 && i < g.len() - 1 {
                    assert(lex_lt(g[i].0, g[g.len() - 1].0));
                    lemma_lex_trans(g[i].0, g.last().0, d.maker);
                } else if j < t.len() - 1 {
                    assert(t[i] == g[i] && t[j] == g[j]);
                }
            }
        }
    }
}

/// The browser's groups for devices already in browser order.
pub fn group_devices(sorted: &Vec<Device>) -> (r: Vec<DeviceGroup>)
    ensures
        groups_view(r@) == groups_spec(views(sorted@)),
{
    let mut groups: Vec<DeviceGroup> = Vec::new();
    assert(views(sorted@).take(0) =~= Seq::<DeviceView>::empty());
    for i in 0..sorted.len()
        invariant
            groups_view(groups@) == groups_spec(views(sorted@).take(i as int)),
    {
        let d = &sorted[i];
        let ghost pre = views(sorted@).take(i as int);
        assert(views(sorted@).take(i + 1).drop_last() =~= pre);
        assert(views(sorted@).take(i + 1).last() == d@);
        let rows = device_rows(d);
        let n = groups.len();
        let same = n > 0 && str_eq(groups[n - 1].maker.as_str(), d.maker.as_str());
        let ghost g = groups_view(groups@);
        if same {
            let mut last = groups.pop().unwrap();
            let ghost old_rows = rows_view(last.rows@);
            let mut more = rows;
            let ghost added = rows_view(more@);
            last.rows.append(&mut more);
            assert(rows_view(last.rows@) =~= old_rows + added);
            groups.push(last);
            assert(groups_view(groups@) =~= g.update(g.len() - 1, (d@.maker, g.last().1 + device_rows_spec(d@))));
        } else {
            groups.push(DeviceGroup { maker: owned(d.maker.as_str()), rows });
            assert(groups_view(groups@) =~= g.push((d@.maker, device_rows_spec(d@))));
        }
    }
    assert(views(sorted@).take(sorted.len() as int) =~= views(sorted@));
    groups
}

/// The device browser's contents: the devices grouped by maker, makers and
/// then names in `str` order, each device as one row per name it is sold
/// under (its name, then its variants), all opening the same codename.
pub fn browser_groups(devices: &Vec<Device>) -> (r: Vec<DeviceGroup>)
    ensures
        exists|s: Seq<DeviceView>|
            s.to_multiset() == views(devices@).to_multiset() && in_browser_order(s) && groups_view(r@) == groups_spec(s),
{
    let sorted = sort_devices(devices);
    let r = group_devices(&sorted);
    assert(views(sorted@).to_multiset() == views(devices@).to_multiset() && in_browser_order(views(sorted@))
        && groups_view(r@) == groups_spec(views(sorted@)));
    r
}

/// One row of a device's status: a title, a value, and an icon.
#[derive(Debug, Clone)]
pub struct StatusRow {
    pub title: String,
    pub value: String,
    pub icon: Option<String>,
}

pub open spec fn status_view(r: StatusRow) -> (Seq<char>, Seq<char>, Option<Seq<char>>) {
    (r.title@, r.value@, match r.icon {
        Some(i) => Some(i@),
        None => None,
    })
}

/// The battery icon for a level: full from 80, half from 50, low from 20.
pub open spec fn battery_icon_spec(level: u8) -> Seq<char> {
    if level >= 80 {
        "battery-level-100-symbolic"@
    } else if level >= 50 {
        "battery-level-50-symbolic"@
    } else if level >= 20 {
        "battery-level-20-symbolic"@
    } else {
        "battery-level-0-symbolic"@
    }
}

pub open spec fn lock_text_spec(locked: Option<bool>) -> Seq<char> {
    match locked {
        Some(true) => "Locked"@,
        Some(false) => "Unlocked"@,
        None => "Unknown"@,
    }
}

pub open spec fn opt_row(value: Option<Seq<char>>, title: Seq<char>) -> Seq<(Seq<char>, Seq<char>, Option<Seq<char>>)> {
    match value {
        Some(v) => seq![(title, v, None)],
        None => seq![],
    }
}

/// The status rows of a device page. A device that is not connected (no
/// serial) is being browsed: it is asked to be connected, and its bootloader
/// cannot be checked. A connected one shows what was read of it.
pub open spec fn status_rows_spec(d: DeviceView) -> Seq<(Seq<char>, Seq<char>, Option<Seq<char>>)> {
    if d.serial is None {
        seq![
            ("Connect your device via USB to begin installation"@, ""@, Some("dialog-information-symbolic"@)),
            ("Bootloader"@, "Connect device to check"@, None),
        ]
    } else {
        opt_row(d.serial, "Serial"@) + opt_row(d.android_version, "Android Version"@) + opt_row(d.build_id, "Build"@)
            + match d.battery_level {
            Some(l) => seq![("Battery"@, crate::text::decimal_spec(l as nat) + "%"@, Some(battery_icon_spec(l)))],
            None => seq![],
        } + seq![("Bootloader"@, lock_text_spec(d.is_locked), None)]
    }
}

fn row(title: &str, value: &str, icon: Option<&str>) -> (r: StatusRow)
    ensures
        status_view(r) == (title@, value@, match icon {
            Some(i) => Some(i@),
            None => None::<Seq<char>>,
        }),
{
    StatusRow {
        title: owned(title),
        value: owned(value),
        icon: match icon {
            Some(i) => Some(owned(i)),
            None => None,
        },
    }
}

/// The battery icon for a level.
pub fn battery_icon(level: u8) -> (r: &'static str)
    ensures
        r@ == battery_icon_spec(level),
{
    if level >= 80 {
        "battery-level-100-symbolic"
    } else if level >= 50 {
        "battery-level-50-symbolic"
    } else if level >= 20 {
        "battery-level-20-symbolic"
    } else {
        "battery-level-0-symbolic"
    }
}

/// The status rows of a device page.
pub fn status_rows(device: &Device) -> (r: Vec<StatusRow>)
    ensures
        r@.map_values(|x: StatusRow| status_view(x)) == status_rows_spec(device@),
{
    let mut rows: Vec<StatusRow> = Vec::new();
    let ghost d = device@;
    match &device.serial {
        None => {
            rows.push(row("Connect your device via USB to begin installation", "", Some("dialog-information-symbolic")));
            rows.push(row("Bootloader", "Connect device to check", None));
            assert(rows@.map_values(|x: StatusRow| status_view(x)) =~= status_rows_spec(d));
            return rows;
        },
        Some(s) => {
            rows.push(row("Serial", s.as_str(), None));
        },
    }
    assert(rows@.map_values(|x: StatusRow| status_view(x)) =~= opt_row(d.serial, "Serial"@));
    let ghost a = rows@.map_values(|x: StatusRow| status_view(x));
    if let Some(v) = &device.android_version {
        rows.push(row("Android Version", v.as_str(), None));
    }
    assert(rows@.map_values(|x: StatusRow| status_view(x)) =~= a + opt_row(d.android_version, "Android Version"@));
    let ghost b = rows@.map_values(|x: StatusRow| status_view(x));
    if let Some(v) = &device.build_id {
        rows.push(row("Build", v.as_str(), None));
    }
    assert(rows@.map_values(|x: StatusRow| status_view(x)) =~= b + opt_row(d.build_id, "Build"@));
    let ghost c = rows@.map_values(|x: StatusRow| status_view(x));
    if let Some(level) = device.battery_level {
        let text = crate::text::chars_then(&crate::text::decimal(level as u64), "%");
        rows.push(row("Battery", text.as_str(), Some(battery_icon(level))));
    }
    let ghost e = rows@.map_values(|x: StatusRow| status_view(x));
    assert(e =~= c + match d.battery_level {
        Some(l) => seq![("Battery"@, crate::text::decimal_spec(l as nat) + "%"@, Some(battery_icon_spec(l)))],
        None => seq![],
    });
    let lock = match device.is_locked {
        Some(true) => "Locked",
        Some(false) => "Unlocked",
        None => "Unknown",
    };
    rows.push(row("Bootloader", lock, None));
    assert(rows@.map_values(|x: StatusRow| status_view(x)) =~= status_rows_spec(d));
    rows
}

} // verus!
