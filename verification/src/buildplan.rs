//! Decisions of the OpenXR runtime build tooling: where the Monado source
//! tree is taken from, the arguments of the CMake and cargo invocations, and
//! when registering or unregistering the per-user active runtime may go ahead.

use crate::launcher::{join_path, path_join_spec};
use crate::procfs::{lines, lines_spec};
use crate::text::{
    ascii_lower_seq, chars_eq, chars_of, eq_ignore_ascii_case, eq_ignore_ascii_case_spec, leading_token_len,
    prefix_to, seq_views, string_of, suffix_from, token_len, trim, trim_spec, trim_start,
    trim_start_spec,
};
use vstd::prelude::*;

verus! {

/// The build profiles of the tooling.
#[derive(Clone, Copy, Debug, PartialEq, Eq, Structural)]
pub enum Profile {
    Debug,
    Release,
    Distribution,
}

/// The host the tooling runs on, as far as runtime registration cares.
#[derive(Clone, Copy, Debug, PartialEq, Eq, Structural)]
pub enum HostOs {
    Windows,
    MacOs,
    Unix,
}

/// Where the Monado source tree is read from.
#[derive(Debug)]
pub enum SourceDir {
    /// A path given on the command line or in the environment.
    Custom(String),
    /// The tree vendored in the workspace.
    Workspace,
}

/// The characters of an optional string slice.
pub open spec fn opt_str_view(o: Option<&str>) -> Option<Seq<char>> {
    match o {
        Some(s) => Some(s@),
        None => None,
    }
}

/// The views of a sequence of strings.
pub open spec fn strings_view(v: Seq<String>) -> Seq<Seq<char>> {
    Seq::new(v.len(), |i: int| v[i]@)
}

/// The custom source path, if any: the command-line override when it is
/// non-empty, else the environment's value when it is non-empty.
pub open spec fn source_choice(cli: Option<Seq<char>>, env: Option<Seq<char>>) -> Option<Seq<char>> {
    if cli.is_some() && cli.unwrap().len() > 0 {
        cli
    } else if env.is_some() && env.unwrap().len() > 0 {
        env
    } else {
        None
    }
}

/// The custom path that a `SourceDir` names.
pub open spec fn source_view(s: SourceDir) -> Option<Seq<char>> {
    match s {
        SourceDir::Custom(p) => Some(p@),
        SourceDir::Workspace => None,
    }
}

/// Resolves the Monado source: the first non-empty of the command-line
/// override and the environment value, else the vendored tree.
pub fn monado_source(cli: Option<&str>, env: Option<&str>) -> (r: SourceDir)
    ensures
        source_view(r) == source_choice(opt_str_view(cli), opt_str_view(env)),
{
    if let Some(c) = cli {
        if !c.is_empty() {
            return SourceDir::Custom(String::from_str(c));
        }
    }
    if let Some(e) = env {
        if !e.is_empty() {
            return SourceDir::Custom(String::from_str(e));
        }
    }
    SourceDir::Workspace
}

/// The CMake build type of a profile.
pub open spec fn build_type_spec(p: Profile) -> Seq<char> {
    match p {
        Profile::Debug => "Debug"@,
        _ => "RelWithDebInfo"@,
    }
}

pub fn cmake_build_type(p: Profile) -> (r: &'static str)
    ensures
        r@ == build_type_spec(p),
{
    match p {
        Profile::Debug => "Debug",
        Profile::Release | Profile::Distribution => "RelWithDebInfo",
    }
}

/// The cargo target subdirectory a profile builds into.
pub open spec fn cargo_profile_dir_spec(p: Profile) -> Seq<char> {
    match p {
        Profile::Debug => "debug"@,
        _ => "release"@,
    }
}

pub fn cargo_profile_dir(p: Profile) -> (r: &'static str)
    ensures
        r@ == cargo_profile_dir_spec(p),
{
    match p {
        Profile::Debug => "debug",
        Profile::Release | Profile::Distribution => "release",
    }
}

/// The switch of the ALVR driver; it and the compositor switch are set
/// together.
pub open spec fn driver_flag_spec(on: bool) -> Seq<char> {
    if on {
        "-DXRT_BUILD_DRIVER_ALVR=ON"@
    } else {
        "-DXRT_BUILD_DRIVER_ALVR=OFF"@
    }
}

/// The switch of the ALVR compositor.
pub open spec fn comp_flag_spec(on: bool) -> Seq<char> {
    if on {
        "-DXRT_FEATURE_COMP_ALVR=ON"@
    } else {
        "-DXRT_FEATURE_COMP_ALVR=OFF"@
    }
}

/// The arguments of the CMake configure step, after the program name.
pub open spec fn configure_args_spec(
    src: Seq<char>,
    build: Seq<char>,
    p: Profile,
    extra: Seq<Seq<char>>,
    alvr: bool,
) -> Seq<Seq<char>> {
    seq!["-S"@, src, "-B"@, build, "-DCMAKE_BUILD_TYPE="@ + build_type_spec(p)] + extra + seq![
        driver_flag_spec(alvr),
        comp_flag_spec(alvr),
    ]
}

fn push_str(v: &mut Vec<String>, s: &str)
    ensures
        strings_view(final(v)@) == strings_view(old(v)@).push(s@),
{
    v.push(String::from_str(s));
    assert(strings_view(v@) =~= strings_view(old(v)@).push(s@));
}

/// Builds the CMake configure arguments; the ALVR driver and compositor are
/// switched on or off together.
pub fn configure_args(src: &str, build: &str, p: Profile, extra: &Vec<String>, alvr: bool) -> (r: Vec<
    String,
>)
    ensures
        strings_view(r@) == configure_args_spec(src@, build@, p, strings_view(extra@), alvr),
{
    let mut args: Vec<String> = Vec::new();
    push_str(&mut args, "-S");
    push_str(&mut args, src);
    push_str(&mut args, "-B");
    push_str(&mut args, build);
    let mut ty = String::from_str("-DCMAKE_BUILD_TYPE=");
    ty.append(cmake_build_type(p));
    let ghost before_ty = args@;
    let ghost ty_view = ty@;
    args.push(ty);
    assert(strings_view(args@) =~= strings_view(before_ty).push(ty_view));
    let ghost head = seq!["-S"@, src@, "-B"@, build@, "-DCMAKE_BUILD_TYPE="@ + build_type_spec(p)];
    assert(strings_view(args@) =~= head);
    let n = extra.len();
    for i in 0..n
        invariant
            n == extra@.len(),
            strings_view(args@) == head + strings_view(extra@).take(i as int),
    {
        let ghost before = args@;
        args.push(extra[i].clone());
        assert(strings_view(args@) =~= strings_view(before).push(extra@[i as int]@));
        assert(strings_view(extra@).take(i + 1) =~= strings_view(extra@).take(i as int).push(
            extra@[i as int]@,
        ));
    }
    assert(strings_view(extra@).take(n as int) =~= strings_view(extra@));
    if alvr {
        push_str(&mut args, "-DXRT_BUILD_DRIVER_ALVR=ON");
        push_str(&mut args, "-DXRT_FEATURE_COMP_ALVR=ON");
    } else {
        push_str(&mut args, "-DXRT_BUILD_DRIVER_ALVR=OFF");
        push_str(&mut args, "-DXRT_FEATURE_COMP_ALVR=OFF");
    }
    assert(strings_view(args@) =~= configure_args_spec(src@, build@, p, strings_view(extra@), alvr));
    args
}

/// The dependency argument handed to CMake: the vcpkg toolchain when there is
/// one, else the staged Eigen prefix, else nothing.
pub open spec fn extra_args_spec(toolchain: Option<Seq<char>>, eigen: Option<Seq<char>>) -> Seq<
    Seq<char>,
> {
    match toolchain {
        Some(t) => seq!["-DCMAKE_TOOLCHAIN_FILE="@ + t],
        None => match eigen {
            Some(e) => seq!["-DCMAKE_PREFIX_PATH="@ + e],
            None => seq![],
        },
    }
}

pub fn extra_cmake_args(toolchain: Option<&str>, eigen_prefix: Option<&str>) -> (r: Vec<String>)
    ensures
        strings_view(r@) == extra_args_spec(opt_str_view(toolchain), opt_str_view(eigen_prefix)),
{
    let mut args: Vec<String> = Vec::new();
    match toolchain {
        Some(t) => {
            let mut a = String::from_str("-DCMAKE_TOOLCHAIN_FILE=");
            a.append(t);
            args.push(a);
        },
        None => {
            if let Some(e) = eigen_prefix {
                let mut a = String::from_str("-DCMAKE_PREFIX_PATH=");
                a.append(e);
                args.push(a);
            }
        },
    }
    assert(strings_view(args@) =~= extra_args_spec(opt_str_view(toolchain), opt_str_view(eigen_prefix)));
    args
}

/// The arguments of the `cargo` invocation that builds the bridge library.
pub open spec fn bridge_args_spec(p: Profile) -> Seq<Seq<char>> {
    let base = seq!["build"@, "-p"@, "alvr_server_openxr"@];
    match p {
        Profile::Debug => base,
        _ => base.push("--release"@),
    }
}

pub fn bridge_build_args(p: Profile) -> (r: Vec<String>)
    ensures
        strings_view(r@) == bridge_args_spec(p),
{
    let mut args: Vec<String> = Vec::new();
    push_str(&mut args, "build");
    push_str(&mut args, "-p");
    push_str(&mut args, "alvr_server_openxr");
    match p {
        Profile::Debug => {},
        Profile::Release | Profile::Distribution => push_str(&mut args, "--release"),
    }
    assert(strings_view(args@) =~= bridge_args_spec(p));
    args
}

/// The bridge is built with the cargo profile whose output directory the
/// deploy step reads: `--release` is passed, as the last argument, exactly
/// when that directory is `release`, which is for every profile but Debug;
/// and CMake builds with the Debug type exactly for the Debug profile.
pub proof fn law_profiles_agree(p: Profile)
    ensures
        bridge_args_spec(p).take(3) == seq!["build"@, "-p"@, "alvr_server_openxr"@],
        p != Profile::Debug ==> bridge_args_spec(p).len() == 4 && bridge_args_spec(p).last()
            == "--release"@ && cargo_profile_dir_spec(p) == "release"@,
        p == Profile::Debug ==> bridge_args_spec(p).len() == 3 && cargo_profile_dir_spec(p)
            == "debug"@,
        bridge_args_spec(p).contains("--release"@) <==> cargo_profile_dir_spec(p) == "release"@,
        (build_type_spec(p) == "Debug"@) <==> (p == Profile::Debug),
{
    reveal_strlit("build");
    reveal_strlit("-p");
    reveal_strlit("alvr_server_openxr");
    reveal_strlit("--release");
    reveal_strlit("release");
    reveal_strlit("debug");
    reveal_strlit("Debug");
    reveal_strlit("RelWithDebInfo");
    assert("RelWithDebInfo"@.len() != "Debug"@.len());
    let a = bridge_args_spec(p);
    assert(a.take(3) =~= seq!["build"@, "-p"@, "alvr_server_openxr"@]);
    if p == Profile::Debug {
        assert forall|j: int| 0 <= j < a.len() implies a[j] != "--release"@ by {
            assert(a[j].len() != "--release"@.len());
        }
    } else {
        assert(a[3] == "--release"@);
    }
}

/// Resolution orders: a non-empty command-line source wins over the
/// environment, which wins over the vendored tree; `$XDG_CONFIG_HOME` wins
/// over `$HOME`; a vcpkg toolchain wins over the Eigen prefix; `1` and `true`
/// in any case skip vcpkg and nothing else empty does.
pub proof fn law_resolution_orders(c: Seq<char>, e: Seq<char>, t: Seq<char>)
    ensures
        c.len() > 0 ==> source_choice(Some(c), Some(e)) == Some(c) && source_choice(Some(c), None)
            == Some(c),
        e.len() > 0 ==> source_choice(None, Some(e)) == Some(e) && source_choice(
            Some(Seq::empty()),
            Some(e),
        ) == Some(e),
        source_choice(None, None).is_none(),
        c.len() > 0 ==> unix_config_dir_spec(Some(c), Some(e)) == Some(seq![c, "openxr"@, "1"@]),
        e.len() > 0 ==> unix_config_dir_spec(None, Some(e)) == Some(
            seq![e, ".config"@, "openxr"@, "1"@],
        ),
        extra_args_spec(Some(t), Some(e)) == seq!["-DCMAKE_TOOLCHAIN_FILE="@ + t],
        extra_args_spec(None, Some(e)) == seq!["-DCMAKE_PREFIX_PATH="@ + e],
        skip_vcpkg_spec(Some("1"@)),
        skip_vcpkg_spec(Some("TRUE"@)),
        !skip_vcpkg_spec(None),
{
    reveal_strlit("TRUE");
    reveal_strlit("true");
    assert(ascii_lower_seq("TRUE"@) =~= "true"@);
    assert(ascii_lower_seq("true"@) =~= "true"@);
}

/// The ALVR driver and compositor switches are both on or both off, and on
/// exactly when asked for; they are the last two configure arguments.
pub proof fn law_alvr_switches_paired(
    src: Seq<char>,
    build: Seq<char>,
    p: Profile,
    extra: Seq<Seq<char>>,
    alvr: bool,
)
    ensures
        ({
            let a = configure_args_spec(src, build, p, extra, alvr);
            &&& a.len() == extra.len() + 7
            &&& a[a.len() - 2] == (if alvr {
                "-DXRT_BUILD_DRIVER_ALVR=ON"@
            } else {
                "-DXRT_BUILD_DRIVER_ALVR=OFF"@
            })
            &&& a[a.len() - 1] == (if alvr {
                "-DXRT_FEATURE_COMP_ALVR=ON"@
            } else {
                "-DXRT_FEATURE_COMP_ALVR=OFF"@
            })
            &&& a[0] == "-S"@ && a[1] == src && a[2] == "-B"@ && a[3] == build
        }),
{
}

/// Whether the value of the vcpkg opt-out variable asks to skip vcpkg: `1`,
/// or `true` in any ASCII case.
pub open spec fn skip_vcpkg_spec(v: Option<Seq<char>>) -> bool {
    match v {
        Some(s) => s == "1"@ || eq_ignore_ascii_case_spec(s, "true"@),
        None => false,
    }
}

pub fn skip_vcpkg(v: Option<&str>) -> (r: bool)
    ensures
        r == skip_vcpkg_spec(opt_str_view(v)),
{
    match v {
        None => false,
        Some(s) => {
            let cs = chars_of(s);
            let one = chars_of("1");
            let t = chars_of("true");
            crate::text::chars_eq(cs.as_slice(), one.as_slice()) || eq_ignore_ascii_case(
                cs.as_slice(),
                t.as_slice(),
            )
        },
    }
}

/// The per-configuration subdirectories that multi-configuration generators
/// create, in the order they are searched.
pub open spec fn config_dirs_spec() -> Seq<Seq<char>> {
    seq!["Debug"@, "Release"@, "RelWithDebInfo"@, "MinSizeRel"@]
}

fn config_dir_name(i: usize) -> (r: &'static str)
    requires
        i < 4,
    ensures
        r@ == config_dirs_spec()[i as int],
{
    if i == 0 {
        "Debug"
    } else if i == 1 {
        "Release"
    } else if i == 2 {
        "RelWithDebInfo"
    } else {
        "MinSizeRel"
    }
}

/// Where the runtime manifest may have been generated, in search order: the
/// build directory itself, then each configuration subdirectory.
pub open spec fn manifest_candidates_spec(build_dir: Seq<char>, name: Seq<char>, sep: char) -> Seq<
    Seq<char>,
> {
    seq![path_join_spec(build_dir, name, sep)] + Seq::new(
        4,
        |i: int| path_join_spec(path_join_spec(build_dir, config_dirs_spec()[i], sep), name, sep),
    )
}

pub fn manifest_candidates(build_dir: &str, name: &str, sep: char) -> (r: Vec<String>)
    ensures
        strings_view(r@) == manifest_candidates_spec(build_dir@, name@, sep),
{
    let mut out: Vec<String> = Vec::new();
    out.push(join_path(build_dir, name, sep));
    let ghost want = manifest_candidates_spec(build_dir@, name@, sep);
    assert(strings_view(out@) =~= want.take(1));
    for i in 0..4usize
        invariant
            want == manifest_candidates_spec(build_dir@, name@, sep),
            strings_view(out@) == want.take(i + 1),
    {
        let dir = join_path(build_dir, config_dir_name(i), sep);
        let p = join_path(dir.as_str(), name, sep);
        let ghost before = out@;
        out.push(p);
        assert(strings_view(out@) =~= strings_view(before).push(want[i + 1]));
        assert(want.take(i + 2) =~= want.take(i + 1).push(want[i + 1]));
    }
    assert(want.take(5) =~= want);
    out
}

/// Where the service executable may live under its target directory, in
/// search order: each configuration subdirectory, then the directory itself.
pub open spec fn service_dirs_spec(root: Seq<char>, sep: char) -> Seq<Seq<char>> {
    Seq::new(4, |i: int| path_join_spec(root, config_dirs_spec()[i], sep)).push(root)
}

pub fn service_dir_candidates(root: &str, sep: char) -> (r: Vec<String>)
    ensures
        strings_view(r@) == service_dirs_spec(root@, sep),
{
    let mut out: Vec<String> = Vec::new();
    let ghost want = service_dirs_spec(root@, sep);
    for i in 0..4usize
        invariant
            want == service_dirs_spec(root@, sep),
            strings_view(out@) == want.take(i as int),
    {
        let ghost before = out@;
        out.push(join_path(root, config_dir_name(i), sep));
        assert(strings_view(out@) =~= strings_view(before).push(want[i as int]));
        assert(want.take(i + 1) =~= want.take(i as int).push(want[i as int]));
    }
    let ghost before = out@;
    out.push(String::from_str(root));
    assert(strings_view(out@) =~= strings_view(before).push(root@));
    assert(want =~= want.take(4).push(root@));
    out
}

/// What registering or unregistering the active runtime does.
#[derive(Clone, Copy, Debug, PartialEq, Eq, Structural)]
pub enum RuntimeAction {
    /// SteamVR's server is running; registration is refused.
    RefuseSteamVrRunning,
    /// The build has not published its manifest yet.
    MissingManifest,
    /// Registration has no meaning on this host.
    Unsupported,
    /// Go ahead through the registry.
    Registry,
    /// Go ahead through the per-user configuration directory.
    ConfigDir,
}

/// The platform step once the manifest is there.
pub open spec fn platform_action(os: HostOs) -> RuntimeAction {
    match os {
        HostOs::Windows => RuntimeAction::Registry,
        HostOs::MacOs => RuntimeAction::Unsupported,
        HostOs::Unix => RuntimeAction::ConfigDir,
    }
}

fn platform_step(os: HostOs) -> (r: RuntimeAction)
    ensures
        r == platform_action(os),
{
    match os {
        HostOs::Windows => RuntimeAction::Registry,
        HostOs::MacOs => RuntimeAction::Unsupported,
        HostOs::Unix => RuntimeAction::ConfigDir,
    }
}

/// Registration refuses while SteamVR runs, then needs the published
/// manifest, then goes by platform.
pub fn register_action(steamvr_running: bool, manifest_exists: bool, os: HostOs) -> (r:
    RuntimeAction)
    ensures
        r == (if steamvr_running {
            RuntimeAction::RefuseSteamVrRunning
        } else if !manifest_exists {
            RuntimeAction::MissingManifest
        } else {
            platform_action(os)
        }),
{
    if steamvr_running {
        RuntimeAction::RefuseSteamVrRunning
    } else if !manifest_exists {
        RuntimeAction::MissingManifest
    } else {
        platform_step(os)
    }
}

/// Unregistration needs the published manifest, then goes by platform; it
/// does not look at SteamVR.
pub fn unregister_action(manifest_exists: bool, os: HostOs) -> (r: RuntimeAction)
    ensures
        r == (if !manifest_exists {
            RuntimeAction::MissingManifest
        } else {
            platform_action(os)
        }),
{
    if !manifest_exists {
        RuntimeAction::MissingManifest
    } else {
        platform_step(os)
    }
}

/// The components of the per-user OpenXR configuration directory:
/// `$XDG_CONFIG_HOME/openxr/1`, else `$HOME/.config/openxr/1`, each only when
/// the variable is non-empty.
pub open spec fn unix_config_dir_spec(xdg: Option<Seq<char>>, home: Option<Seq<char>>) -> Option<
    Seq<Seq<char>>,
> {
    if xdg.is_some() && xdg.unwrap().len() > 0 {
        Some(seq![xdg.unwrap(), "openxr"@, "1"@])
    } else if home.is_some() && home.unwrap().len() > 0 {
        Some(seq![home.unwrap(), ".config"@, "openxr"@, "1"@])
    } else {
        None
    }
}

pub fn openxr_unix_config_dir(xdg: Option<&str>, home: Option<&str>) -> (r: Option<Vec<String>>)
    ensures
        match r {
            Some(v) => unix_config_dir_spec(opt_str_view(xdg), opt_str_view(home)) == Some(
                strings_view(v@),
            ),
            None => unix_config_dir_spec(opt_str_view(xdg), opt_str_view(home)).is_none(),
        },
{
    let mut parts: Vec<String> = Vec::new();
    if let Some(x) = xdg {
        if !x.is_empty() {
            push_str(&mut parts, x);
            push_str(&mut parts, "openxr");
            push_str(&mut parts, "1");
            assert(strings_view(parts@) =~= seq![x@, "openxr"@, "1"@]);
            return Some(parts);
        }
    }
    if let Some(h) = home {
        if !h.is_empty() {
            push_str(&mut parts, h);
            push_str(&mut parts, ".config");
            push_str(&mut parts, "openxr");
            push_str(&mut parts, "1");
            assert(strings_view(parts@) =~= seq![h@, ".config"@, "openxr"@, "1"@]);
            return Some(parts);
        }
    }
    None
}

/// The value that one line of `reg query` output gives for `ActiveRuntime`:
/// the line's first word is the value name (in any ASCII case), its second
/// word the value type, and the rest of the line, trimmed, the data.
pub open spec fn registry_line_value(l: Seq<char>) -> Option<Seq<char>> {
    let t = trim_start_spec(l);
    let n = token_len(t);
    let after = trim_start_spec(t.skip(n as int));
    let k = token_len(after);
    if eq_ignore_ascii_case_spec(t.take(n as int), "ActiveRuntime"@) && k > 0 {
        Some(trim_spec(after.skip(k as int)))
    } else {
        None
    }
}

/// The `ActiveRuntime` data of the first line that carries it.
pub open spec fn active_runtime_in(ls: Seq<Seq<char>>) -> Option<Seq<char>>
    decreases ls.len(),
{
    if ls.len() == 0 {
        None
    } else {
        match registry_line_value(ls[0]) {
            Some(v) => Some(v),
            None => active_runtime_in(ls.drop_first()),
        }
    }
}

/// The registered `ActiveRuntime` data in `reg query` output.
pub open spec fn active_runtime_spec(query: Seq<char>) -> Option<Seq<char>> {
    active_runtime_in(lines_spec(query))
}

fn registry_line_value_of(l: &[char]) -> (r: Option<Vec<char>>)
    ensures
        match r {
            Some(v) => registry_line_value(l@) == Some(v@),
            None => registry_line_value(l@).is_none(),
        },
{
    let t = trim_start(l);
    let n = leading_token_len(t.as_slice());
    let name = prefix_to(t.as_slice(), n);
    let rest = suffix_from(t.as_slice(), n);
    let after = trim_start(rest.as_slice());
    let k = leading_token_len(after.as_slice());
    let key = chars_of("ActiveRuntime");
    if eq_ignore_ascii_case(name.as_slice(), key.as_slice()) && k > 0 {
        let data = suffix_from(after.as_slice(), k);
        Some(trim(data.as_slice()))
    } else {
        None
    }
}

/// Reads the registered `ActiveRuntime` data from `reg query` output.
pub fn active_runtime_value(query: &str) -> (r: Option<String>)
    ensures
        match r {
            Some(v) => active_runtime_spec(query@) == Some(v@),
            None => active_runtime_spec(query@).is_none(),
        },
{
    let ls = lines(query);
    let ghost all = seq_views(ls@);
    let mut i: usize = 0;
    assert(all.skip(0) =~= all);
    while i < ls.len()
        invariant
            all == seq_views(ls@),
            all == lines_spec(query@),
            i <= ls@.len(),
            active_runtime_in(all) == active_runtime_in(all.skip(i as int)),
        decreases ls@.len() - i,
    {
        let ghost rest = all.skip(i as int);
        assert(rest[0] == ls@[i as int]@);
        assert(rest.drop_first() =~= all.skip(i + 1));
        match registry_line_value_of(ls[i].as_slice()) {
            Some(v) => {
                return Some(string_of(v.as_slice()));
            },
            None => {},
        }
        i = i + 1;
    }
    assert(all.skip(i as int) =~= Seq::<Seq<char>>::empty());
    None
}

/// Whether the registered active runtime is exactly our manifest; only then
/// may the registry value be cleared.
pub fn registry_names_manifest(query: &str, manifest: &str) -> (r: bool)
    ensures
        r == (active_runtime_spec(query@) == Some(manifest@)),
{
    match active_runtime_value(query) {
        Some(v) => {
            let a = chars_of(v.as_str());
            let b = chars_of(manifest);
            chars_eq(a.as_slice(), b.as_slice())
        },
        None => false,
    }
}

/// Candidate `i` is the most recently modified of those that exist (given
/// by modification time, `None` when missing), and the first such on a tie.
pub open spec fn is_freshest(ts: Seq<Option<u128>>, i: int) -> bool {
    &&& 0 <= i < ts.len()
    &&& ts[i] is Some
    &&& forall|j: int| 0 <= j < ts.len() && ts[j] is Some ==> ts[j]->0 <= ts[i]->0
    &&& forall|j: int| 0 <= j < i && ts[j] is Some ==> ts[j]->0 < ts[i]->0
}

/// Picks the freshest existing candidate, or `None` when none exists.
pub fn freshest_candidate(ts: &Vec<Option<u128>>) -> (r: Option<usize>)
    ensures
        match r {
            Some(i) => is_freshest(ts@, i as int),
            None => forall|j: int| 0 <= j < ts@.len() ==> ts@[j] is None,
        },
{
    let mut best: Option<usize> = None;
    let mut best_t: u128 = 0;
    let n = ts.len();
    for i in 0..n
        invariant
            n == ts@.len(),
            match best {
                Some(b) => {
                    &&& b < i
                    &&& ts@[b as int] == Some(best_t)
                    &&& forall|j: int| 0 <= j < i && ts@[j] is Some ==> ts@[j]->0 <= best_t
                    &&& forall|j: int| 0 <= j < b && ts@[j] is Some ==> ts@[j]->0 < best_t
                },
                None => forall|j: int| 0 <= j < i ==> ts@[j] is None,
            },
    {
        if let Some(t) = ts[i] {
            let better = match best {
                None => true,
                Some(_) => t > best_t,
            };
            if better {
                best = Some(i);
                best_t = t;
            }
        }
    }
    best
}

/// What unregistering through the configuration directory does.
#[derive(Clone, Copy, Debug, PartialEq, Eq, Structural)]
pub enum ConfigDirUnregister {
    /// No active runtime file is installed.
    NotInstalled,
    /// The installed file is not ours; it is left alone.
    Mismatch,
    /// The installed file is ours; remove it.
    Remove,
}

/// Decides on the installed active-runtime file: remove it only when its
/// bytes are exactly those of our manifest.
pub fn config_dir_unregister(installed_exists: bool, installed: &[u8], ours: &[u8]) -> (r:
    ConfigDirUnregister)
    ensures
        r == (if !installed_exists {
            ConfigDirUnregister::NotInstalled
        } else if installed@ != ours@ {
            ConfigDirUnregister::Mismatch
        } else {
            ConfigDirUnregister::Remove
        }),
{
    if !installed_exists {
        return ConfigDirUnregister::NotInstalled;
    }
    if installed.len() != ours.len() {
        assert(installed@.len() != ours@.len());
        return ConfigDirUnregister::Mismatch;
    }
    let n = installed.len();
    let mut i: usize = 0;
    while i < n
        invariant
            installed_exists,
            i <= n,
            n == installed@.len(),
            n == ours@.len(),
            forall|k: int| 0 <= k < i ==> installed@[k] == ours@[k],
        decreases n - i,
    {
        if installed[i] != ours[i] {
            assert(installed@[i as int] != ours@[i as int]);
            return ConfigDirUnregister::Mismatch;
        }
        i = i + 1;
    }
    assert(installed@ =~= ours@);
    ConfigDirUnregister::Remove
}

} // verus!
