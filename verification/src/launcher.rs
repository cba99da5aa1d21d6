//! Release bookkeeping for the launcher: the release lists published on
//! GitHub, picking a release by version, the download asset of a release,
//! the client package channel of a version, and installation paths.

use vstd::prelude::*;
use crate::session::{json_of_bytes, parse_json_bytes, Json, member};
use crate::text::{chars_of, opt_view, str_eq};

verus! {

/// One published release: its tag and its downloadable assets (name, URL).
pub struct ReleaseInfo {
    pub version: String,
    pub assets: Vec<(String, String)>,
}

/// The releases of the stable and nightly repositories.
pub struct ReleaseChannelsInfo {
    pub stable: Vec<ReleaseInfo>,
    pub nightly: Vec<ReleaseInfo>,
}

pub open spec fn assets_view(a: Seq<(String, String)>) -> Seq<(Seq<char>, Seq<char>)> {
    a.map_values(|p: (String, String)| (p.0@, p.1@))
}

/// Two releases hold the same tag and the same assets.
pub open spec fn same_release(a: ReleaseInfo, b: ReleaseInfo) -> bool {
    a.version@ == b.version@ && assets_view(a.assets@) == assets_view(b.assets@)
}

/// A copy of a release.
pub fn copy_release(r: &ReleaseInfo) -> (c: ReleaseInfo)
    ensures
        same_release(c, *r),
{
    let mut assets: Vec<(String, String)> = Vec::new();
    let n = r.assets.len();
    for i in 0..n
        invariant
            n == r.assets@.len(),
            assets_view(assets@) == assets_view(r.assets@).take(i as int),
    {
        let pair = (r.assets[i].0.clone(), r.assets[i].1.clone());
        let ghost before = assets@;
        assets.push(pair);
        proof {
            assert(assets_view(assets@) =~= assets_view(before).push(
                (r.assets@[i as int].0@, r.assets@[i as int].1@),
            ));
            assert(assets_view(r.assets@).take(i + 1) =~= assets_view(r.assets@).take(i as int).push(
                assets_view(r.assets@)[i as int],
            ));
        }
    }
    proof {
        assert(assets_view(r.assets@).take(n as int) =~= assets_view(r.assets@));
    }
    ReleaseInfo { version: r.version.clone(), assets }
}

/// Position of the first release tagged `version`, or -1.
pub open spec fn release_index(rs: Seq<ReleaseInfo>, version: Seq<char>) -> int
    decreases rs.len(),
{
    if rs.len() == 0 {
        -1
    } else if rs[0].version@ == version {
        0
    } else {
        let r = release_index(rs.drop_first(), version);
        if r < 0 {
            -1
        } else {
            r + 1
        }
    }
}

proof fn lemma_release_index(rs: Seq<ReleaseInfo>, version: Seq<char>)
    ensures
        -1 <= release_index(rs, version) < rs.len(),
        release_index(rs, version) >= 0 ==> rs[release_index(rs, version)].version@ == version,
        forall|j: int|
            0 <= j < rs.len() && (release_index(rs, version) < 0 || j < release_index(rs, version))
                ==> rs[j].version@ != version,
    decreases rs.len(),
{
    if rs.len() > 0 && rs[0].version@ != version {
        lemma_release_index(rs.drop_first(), version);
        assert forall|j: int|
            0 <= j < rs.len() && (release_index(rs, version) < 0 || j < release_index(rs, version))
                implies rs[j].version@ != version by {
            if j > 0 {
                assert(rs[j] == rs.drop_first()[j - 1]);
            }
        }
    }
}

fn find_release(rs: &Vec<ReleaseInfo>, version: &str) -> (r: Option<usize>)
    ensures
        match r {
            Some(i) => i as int == release_index(rs@, version@),
            None => release_index(rs@, version@) == -1,
        },
{
    let n = rs.len();
    let mut i: usize = 0;
    proof {
        lemma_release_index(rs@, version@);
    }
    while i < n
        invariant
            i <= n,
            n == rs@.len(),
            -1 <= release_index(rs@, version@) < rs@.len(),
            release_index(rs@, version@) >= 0 ==> rs@[release_index(rs@, version@)].version@
                == version@,
            forall|j: int|
                0 <= j < rs@.len() && (release_index(rs@, version@) < 0 || j < release_index(
                    rs@,
                    version@,
                )) ==> rs@[j].version@ != version@,
            forall|j: int| 0 <= j < i ==> rs@[j].version@ != version@,
        decreases n - i,
    {
        if str_eq(rs[i].version.as_str(), version) {
            proof {
                let k = release_index(rs@, version@);
                if k >= 0 && k < i {
                    assert(rs@[k].version@ != version@);
                }
                if k < 0 || k > i {
                    assert(rs@[i as int].version@ != version@);
                }
            }
            return Some(i);
        }
        i = i + 1;
    }
    proof {
        let k = release_index(rs@, version@);
        if k >= 0 {
            assert(rs@[k].version@ != version@);
        }
    }
    None
}

/// The release tagged `version`: the first such stable release, else the
/// first such nightly release.
pub fn get_release(release_channels_info: &ReleaseChannelsInfo, version: &str) -> (r: Option<
    ReleaseInfo,
>)
    ensures
        ({
            let s = release_index(release_channels_info.stable@, version@);
            let n = release_index(release_channels_info.nightly@, version@);
            match r {
                Some(rel) => if s >= 0 {
                    same_release(rel, release_channels_info.stable@[s])
                } else {
                    n >= 0 && same_release(rel, release_channels_info.nightly@[n])
                },
                None => s < 0 && n < 0,
            }
        }),
{
    match find_release(&release_channels_info.stable, version) {
        Some(i) => {
            proof {
                lemma_release_index(release_channels_info.stable@, version@);
            }
            Some(copy_release(&release_channels_info.stable[i]))
        },
        None => match find_release(&release_channels_info.nightly, version) {
            Some(i) => {
                proof {
                    lemma_release_index(release_channels_info.nightly@, version@);
                }
                Some(copy_release(&release_channels_info.nightly[i]))
            },
            None => None,
        },
    }
}

/// The URL of the asset named `name`; with several of that name, the last
/// (as when the list is collected into a map).
pub open spec fn asset_url_spec(a: Seq<(Seq<char>, Seq<char>)>, name: Seq<char>) -> Option<
    Seq<char>,
>
    decreases a.len(),
{
    if a.len() == 0 {
        None
    } else if a.last().0 == name {
        Some(a.last().1)
    } else {
        asset_url_spec(a.drop_last(), name)
    }
}

/// Looks up the download URL of the asset `name` of a release.
pub fn asset_url(release: &ReleaseInfo, name: &str) -> (r: Option<String>)
    ensures
        opt_view(r) == asset_url_spec(assets_view(release.assets@), name@),
{
    let n = release.assets.len();
    let mut j: usize = n;
    let ghost av = assets_view(release.assets@);
    proof {
        assert(av.take(n as int) =~= av);
    }
    while j > 0
        invariant
            j <= n,
            n == release.assets@.len(),
            av == assets_view(release.assets@),
            asset_url_spec(av, name@) == asset_url_spec(av.take(j as int), name@),
        decreases j,
    {
        proof {
            assert(av.take(j as int).last() == av[j - 1]);
            assert(av.take(j as int).drop_last() =~= av.take(j - 1));
        }
        if str_eq(release.assets[j - 1].0.as_str(), name) {
            return Some(release.assets[j - 1].1.clone());
        }
        j = j - 1;
    }
    None
}

/// Name of the client APK asset.
pub const CLIENT_APK_ASSET: &'static str = "alvr_client_android.apk";

/// Name of the streamer archive asset for the platform.
pub fn streamer_asset_name(windows: bool) -> (r: &'static str)
    ensures
        windows ==> r@ == "alvr_streamer_windows.zip"@,
        !windows ==> r@ == "alvr_streamer_linux.tar.gz"@,
{
    if windows {
        "alvr_streamer_windows.zip"
    } else {
        "alvr_streamer_linux.tar.gz"
    }
}

/// What `semver::Version::parse` gives for a version text: `None` when it is
/// not a semantic version, else its pre-release and build-metadata texts.
pub uninterp spec fn semver_parts(s: Seq<char>) -> Option<(Seq<char>, Seq<char>)>;

pub open spec fn opt_pair_view(o: Option<(String, String)>) -> Option<(Seq<char>, Seq<char>)> {
    match o {
        Some((a, b)) => Some((a@, b@)),
        None => None,
    }
}

/// Calls `semver::Version::parse`. The contract names its outcome
/// `semver_parts` of the input text (the pre-release and build-metadata
/// identifiers as text); the semantic-versioning grammar is not restated.
#[verifier::external_body]
fn parse_semver(s: &str) -> (r: Option<(String, String)>)
    ensures
        opt_pair_view(r) == semver_parts(s@),
{
    match semver::Version::parse(s) {
        Ok(v) => Some((v.pre.as_str().to_string(), v.build.as_str().to_string())),
        Err(_) => None,
    }
}

/// Which client package a release installs.
#[derive(Clone, Copy, Debug, PartialEq, Eq, Structural)]
pub enum ClientChannel {
    Stable,
    Dev,
}

/// A version is stable when it has no pre-release part and its build
/// metadata does not mention `nightly`.
pub open spec fn channel_of_parts(pre: Seq<char>, build: Seq<char>) -> ClientChannel {
    if pre.len() == 0 && !crate::text::contains_spec(build, "nightly"@) {
        ClientChannel::Stable
    } else {
        ClientChannel::Dev
    }
}

/// The channel of a parsed version from its pre-release and build metadata.
pub fn channel_from_parts(pre: &str, build: &str) -> (c: ClientChannel)
    ensures
        c == channel_of_parts(pre@, build@),
{
    let b = chars_of(build);
    let nightly = chars_of("nightly");
    if pre.is_empty() && !crate::text::contains(b.as_slice(), nightly.as_slice()) {
        ClientChannel::Stable
    } else {
        ClientChannel::Dev
    }
}

/// A release tag without one leading `v`.
pub open spec fn tag_version(tag: Seq<char>) -> Seq<char> {
    if tag.len() > 0 && tag[0] == 'v' {
        tag.drop_first()
    } else {
        tag
    }
}

/// The client channel of a release tag (`v` prefix allowed); `None` when the
/// rest is not a semantic version.
pub fn client_channel(tag: &str) -> (r: Option<ClientChannel>)
    ensures
        match semver_parts(tag_version(tag@)) {
            Some((pre, build)) => r == Some(channel_of_parts(pre, build)),
            None => r.is_none(),
        },
{
    let chars = chars_of(tag);
    let v = if chars.len() > 0 && chars[0] == 'v' {
        crate::text::suffix_from(chars.as_slice(), 1)
    } else {
        crate::text::suffix_from(chars.as_slice(), 0)
    };
    proof {
        assert(chars@.skip(0) == chars@);
    }
    let vs = crate::text::string_of(v.as_slice());
    match parse_semver(vs.as_str()) {
        None => None,
        Some((pre, build)) => Some(channel_from_parts(pre.as_str(), build.as_str())),
    }
}

/// `PathBuf::join` of one relative component: a separator is inserted unless
/// `base` is empty or already ends with `sep` or `/`.
pub open spec fn path_join_spec(base: Seq<char>, part: Seq<char>, sep: char) -> Seq<char> {
    if base.len() == 0 || base.last() == sep || base.last() == '/' {
        base + part
    } else {
        base.push(sep) + part
    }
}

/// Joins a relative component onto a directory path.
pub fn join_path(base: &str, part: &str, sep: char) -> (r: String)
    ensures
        r@ == path_join_spec(base@, part@, sep),
{
    let b = chars_of(base);
    let mut res = String::from_str(base);
    if !(b.len() == 0 || b[b.len() - 1] == sep || b[b.len() - 1] == '/') {
        let s = crate::text::string_of(&[sep]);
        proof {
            assert(s@ == seq![sep]);
        }
        res.append(s.as_str());
    }
    res.append(part);
    res
}

/// The directory that holds one subdirectory per installed version.
pub fn installations_dir(data_dir: &str, sep: char) -> (r: String)
    ensures
        r@ == path_join_spec(data_dir@, "installations"@, sep),
{
    join_path(data_dir, "installations", sep)
}

/// The operating systems the launcher knows.
#[derive(Clone, Copy, Debug, PartialEq, Eq, Structural)]
pub enum TargetOs {
    Windows,
    Linux,
    Other,
}

/// The dashboard executable inside an installation, or `None` where the
/// platform has none.
pub fn dashboard_relative_path(os: TargetOs) -> (r: Option<&'static str>)
    ensures
        os == TargetOs::Windows ==> r.is_some() && r.unwrap()@ == "ALVR Dashboard.exe"@,
        os == TargetOs::Linux ==> r.is_some() && r.unwrap()@ == "alvr_streamer_linux/bin/alvr_dashboard"@,
        os == TargetOs::Other ==> r.is_none(),
{
    match os {
        TargetOs::Windows => Some("ALVR Dashboard.exe"),
        TargetOs::Linux => Some("alvr_streamer_linux/bin/alvr_dashboard"),
        TargetOs::Other => None,
    }
}

pub open spec fn release_view(r: ReleaseInfo) -> (Seq<char>, Seq<(Seq<char>, Seq<char>)>) {
    (r.version@, assets_view(r.assets@))
}

/// The assets of a release listing that have both a string `name` and a
/// string `browser_download_url`, in order.
pub open spec fn asset_pairs(a: Seq<Json>) -> Seq<(Seq<char>, Seq<char>)>
    decreases a.len(),
{
    if a.len() == 0 {
        Seq::<(Seq<char>, Seq<char>)>::empty()
    } else {
        let r = asset_pairs(a.drop_last());
        match (member(a.last(), "name"@), member(a.last(), "browser_download_url"@)) {
            (Some(Json::Str(n)), Some(Json::Str(u))) => r.push((n@, u@)),
            _ => r,
        }
    }
}

/// One entry of a GitHub release listing: its string `tag_name` and its
/// `assets` array; `None` when either is missing or of another type.
pub open spec fn release_entry(item: Json) -> Option<(Seq<char>, Seq<(Seq<char>, Seq<char>)>)> {
    match (member(item, "tag_name"@), member(item, "assets"@)) {
        (Some(Json::Str(t)), Some(Json::Array(a))) => Some((t@, asset_pairs(a@))),
        _ => None,
    }
}

pub open spec fn release_entries(items: Seq<Json>) -> Option<
    Seq<(Seq<char>, Seq<(Seq<char>, Seq<char>)>)>,
>
    decreases items.len(),
{
    if items.len() == 0 {
        Some(Seq::empty())
    } else {
        match (release_entries(items.drop_last()), release_entry(items.last())) {
            (Some(r), Some(e)) => Some(r.push(e)),
            _ => None,
        }
    }
}

/// The releases of a GitHub `releases` API response: `None` unless it is an
/// array whose every entry has a tag and an asset list.
pub open spec fn releases_spec(v: Json) -> Option<Seq<(Seq<char>, Seq<(Seq<char>, Seq<char>)>)>> {
    match v {
        Json::Array(items) => release_entries(items@),
        _ => None,
    }
}

fn str_member<'a>(v: &'a Json, key: &str) -> (r: Option<&'a String>)
    ensures
        match r {
            Some(s) => member(*v, key@) == Some(Json::Str(*s)),
            None => !(member(*v, key@) matches Some(Json::Str(_))),
        },
{
    match crate::session::find_member(v, key) {
        None => None,
        Some(i) => match v {
            Json::Object(es) => {
                proof {
                    crate::session::lemma_key_index(es@, key@);
                }
                match &es[i].1 {
                    Json::Str(s) => Some(s),
                    _ => None,
                }
            },
            _ => None,
        },
    }
}

fn array_member<'a>(v: &'a Json, key: &str) -> (r: Option<&'a Vec<Json>>)
    ensures
        match r {
            Some(a) => member(*v, key@) == Some(Json::Array(*a)),
            None => !(member(*v, key@) matches Some(Json::Array(_))),
        },
{
    match crate::session::find_member(v, key) {
        None => None,
        Some(i) => match v {
            Json::Object(es) => {
                proof {
                    crate::session::lemma_key_index(es@, key@);
                }
                match &es[i].1 {
                    Json::Array(a) => Some(a),
                    _ => None,
                }
            },
            _ => None,
        },
    }
}

fn release_from_entry(item: &Json) -> (r: Option<ReleaseInfo>)
    ensures
        match r {
            Some(rel) => release_entry(*item) == Some(release_view(rel)),
            None => release_entry(*item).is_none(),
        },
{
    let tag = match str_member(item, "tag_name") {
        None => return None,
        Some(t) => t,
    };
    let list = match array_member(item, "assets") {
        None => return None,
        Some(a) => a,
    };
    let mut assets: Vec<(String, String)> = Vec::new();
    let n = list.len();
    for i in 0..n
        invariant
            n == list@.len(),
            assets_view(assets@) == asset_pairs(list@.take(i as int)),
    {
        let x = &list[i];
        proof {
            assert(list@.take(i + 1).drop_last() =~= list@.take(i as int));
            assert(list@.take(i + 1).last() == *x);
        }
        match (str_member(x, "name"), str_member(x, "browser_download_url")) {
            (Some(name), Some(url)) => {
                let ghost before = assets@;
                assets.push((name.clone(), url.clone()));
                proof {
                    assert(assets_view(assets@) =~= assets_view(before).push((name@, url@)));
                }
            },
            _ => {},
        }
    }
    proof {
        assert(list@.take(n as int) =~= list@);
    }
    Some(ReleaseInfo { version: tag.clone(), assets })
}

pub open spec fn releases_view(rs: Seq<ReleaseInfo>) -> Seq<(Seq<char>, Seq<(Seq<char>, Seq<char>)>)> {
    rs.map_values(|r: ReleaseInfo| release_view(r))
}

proof fn lemma_entries_none_extends(items: Seq<Json>, k: int)
    requires
        0 <= k <= items.len(),
        release_entries(items.take(k)).is_none(),
    ensures
        release_entries(items).is_none(),
    decreases items.len() - k,
{
    if k < items.len() {
        assert(items.take(k + 1).drop_last() =~= items.take(k));
        lemma_entries_none_extends(items, k + 1);
    } else {
        assert(items.take(k) =~= items);
    }
}

/// Reads the release list of a GitHub `releases` API response.
#[verifier::loop_isolation(false)]
pub fn releases_from_json(v: &Json) -> (r: Option<Vec<ReleaseInfo>>)
    ensures
        match r {
            Some(rs) => releases_spec(*v) == Some(releases_view(rs@)),
            None => releases_spec(*v).is_none(),
        },
{
    let items = match v {
        Json::Array(items) => items,
        _ => return None,
    };
    let mut out: Vec<ReleaseInfo> = Vec::new();
    let n = items.len();
    for i in 0..n
        invariant
            n == items@.len(),
            release_entries(items@.take(i as int)) == Some(releases_view(out@)),
    {
        let x = &items[i];
        proof {
            assert(items@.take(i + 1).drop_last() =~= items@.take(i as int));
            assert(items@.take(i + 1).last() == *x);
        }
        match release_from_entry(x) {
            None => {
                proof {
                    lemma_entries_none_extends(items@, i + 1);
                }
                return None;
            },
            Some(rel) => {
                let ghost before = out@;
                out.push(rel);
                proof {
                    assert(releases_view(out@) =~= releases_view(before).push(release_view(rel)));
                }
            },
        }
    }
    proof {
        assert(items@.take(n as int) =~= items@);
    }
    Some(out)
}

/// Reads the release list from the bytes of a GitHub `releases` API
/// response: `None` when they are not JSON or not such a list.
pub fn releases_from_bytes(bytes: &[u8]) -> (r: Option<Vec<ReleaseInfo>>)
    ensures
        match r {
            Some(rs) => json_of_bytes(bytes@) matches Some(v) && releases_spec(v) == Some(
                releases_view(rs@),
            ),
            None => match json_of_bytes(bytes@) {
                Some(v) => releases_spec(v).is_none(),
                None => true,
            },
        },
{
    match parse_json_bytes(bytes) {
        None => None,
        Some(v) => releases_from_json(&v),
    }
}

} // verus!
