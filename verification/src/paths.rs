//! Where ClashR keeps its files: the data, profile, log and config
//! directories, and where it looks for the mihomo and service binaries.
//! Paths are handled as text, joined with `/` as `PathBuf::join` does.

use vstd::prelude::*;

use crate::text::{chars_of, contains, find_chars, lemma_find, push_str, string_of};

verus! {

/// `base` joined with the component `name`; an absolute `name` replaces
/// `base`.
pub open spec fn path_join(base: Seq<char>, name: Seq<char>) -> Seq<char> {
    if name.len() > 0 && name[0] == '/' {
        name
    } else if base.len() == 0 {
        name
    } else if base.last() == '/' {
        base + name
    } else {
        base + seq!['/'] + name
    }
}

/// Joins a relative component onto a directory path.
pub fn join(base: &str, name: &str) -> (r: String)
    ensures
        r@ == path_join(base@, name@),
{
    let n = chars_of(name);
    if n.len() > 0 && n[0] == '/' {
        return string_of(n.as_slice());
    }
    let mut v = chars_of(base);
    if v.len() > 0 && v[v.len() - 1] != '/' {
        v.push('/');
    }
    push_str(&mut v, name);
    string_of(v.as_slice())
}

/// Is the executable at `exe` inside a macOS `.app` bundle?
pub open spec fn in_app_bundle(exe: Seq<char>) -> bool {
    contains(exe, ".app/Contents/MacOS/"@)
}

/// Whether an executable path lies inside a macOS `.app` bundle.
pub fn is_app_bundle(exe: &str) -> (r: bool)
    ensures
        r == in_app_bundle(exe@),
{
    let v = chars_of(exe);
    let p = chars_of(".app/Contents/MacOS/");
    proof {
        lemma_find(v@, p@);
    }
    find_chars(v.as_slice(), p.as_slice()).is_some()
}

/// The data directory: `<data dir>/ClashR` inside a bundle, `<cwd>/data`
/// otherwise, with `.` standing in for a directory the system cannot tell.
pub open spec fn data_dir_path(bundle: bool, user_data: Option<Seq<char>>, cwd: Option<Seq<char>>) -> Seq<char> {
    if bundle {
        path_join(
            match user_data {
                Some(d) => d,
                None => "."@,
            },
            "ClashR"@,
        )
    } else {
        path_join(
            match cwd {
                Some(d) => d,
                None => "."@,
            },
            "data"@,
        )
    }
}

/// `o` as an optional character sequence.
pub open spec fn opt_view(o: Option<String>) -> Option<Seq<char>> {
    match o {
        Some(s) => Some(s@),
        None => None,
    }
}

fn or_dot(o: &Option<String>) -> (r: &str)
    ensures
        r@ == (match opt_view(*o) {
            Some(d) => d,
            None => "."@,
        }),
{
    match o {
        Some(d) => d.as_str(),
        None => ".",
    }
}

/// Base directory for user data (profiles, runtime config).
pub fn data_dir(bundle: bool, user_data: &Option<String>, cwd: &Option<String>) -> (r: String)
    ensures
        r@ == data_dir_path(bundle, opt_view(*user_data), opt_view(*cwd)),
{
    if bundle {
        join(or_dot(user_data), "ClashR")
    } else {
        join(or_dot(cwd), "data")
    }
}

/// The log directory: `~/Library/Logs/ClashR` inside a bundle, `<cwd>/logs`
/// otherwise.
pub open spec fn log_dir_path(bundle: bool, home: Option<Seq<char>>, cwd: Option<Seq<char>>) -> Seq<char> {
    if bundle {
        path_join(
            match home {
                Some(d) => d,
                None => "."@,
            },
            "Library/Logs/ClashR"@,
        )
    } else {
        path_join(
            match cwd {
                Some(d) => d,
                None => "."@,
            },
            "logs"@,
        )
    }
}

/// Directory for log files.
pub fn log_dir(bundle: bool, home: &Option<String>, cwd: &Option<String>) -> (r: String)
    ensures
        r@ == log_dir_path(bundle, opt_view(*home), opt_view(*cwd)),
{
    if bundle {
        join(or_dot(home), "Library/Logs/ClashR")
    } else {
        join(or_dot(cwd), "logs")
    }
}

/// Directory holding one YAML file per profile.
pub fn profiles_dir(data_dir: &str) -> (r: String)
    ensures
        r@ == path_join(data_dir@, "profiles"@),
{
    join(data_dir, "profiles")
}

/// Path of the YAML file backing a profile: `<profiles>/<uid>.yaml`.
pub fn profile_yaml_path(profiles_dir: &str, uid: &str) -> (r: String)
    ensures
        r@ == path_join(profiles_dir@, uid@ + ".yaml"@),
{
    let name = crate::text::concat2(uid, ".yaml");
    join(profiles_dir, name.as_str())
}

/// The single runtime config that mihomo consumes.
pub fn runtime_yaml_path(data_dir: &str) -> (r: String)
    ensures
        r@ == path_join(data_dir@, "runtime.yaml"@),
{
    join(data_dir, "runtime.yaml")
}

/// Where the mihomo binary is looked for, in priority order: the
/// `MIHOMO_PATH` override, next to the executable, the bundle's
/// `Resources/bin`, `<cwd>/bin`, `<cwd>`, then each `PATH` entry.
pub open spec fn mihomo_search(
    env_override: Option<Seq<char>>,
    exe_dir: Option<Seq<char>>,
    cwd: Option<Seq<char>>,
    path_dirs: Seq<Seq<char>>,
    bin: Seq<char>,
) -> Seq<Seq<char>> {
    (match env_override {
        Some(p) => seq![p],
        None => Seq::empty(),
    }) + (match exe_dir {
        Some(d) => seq![path_join(d, bin), path_join(path_join(path_join(d, ".."@), "Resources"@), path_join("bin"@, bin))],
        None => Seq::empty(),
    }) + (match cwd {
        Some(c) => seq![path_join(c, "bin/"@ + bin), path_join(c, bin)],
        None => Seq::empty(),
    }) + path_dirs.map_values(|d: Seq<char>| path_join(d, bin))
}

/// An override path is tried before every other place: the search with
/// it is the override followed by exactly the search without it; and
/// without one, the first place tried is next to the executable (when
/// known), else `<cwd>/bin` (when known).
pub proof fn lemma_override_tried_first(
    over: Seq<char>,
    exe_dir: Option<Seq<char>>,
    cwd: Option<Seq<char>>,
    path_dirs: Seq<Seq<char>>,
    bin: Seq<char>,
)
    ensures
        mihomo_search(Some(over), exe_dir, cwd, path_dirs, bin).len() > 0,
        mihomo_search(Some(over), exe_dir, cwd, path_dirs, bin)[0] == over,
        mihomo_search(Some(over), exe_dir, cwd, path_dirs, bin).drop_first() == mihomo_search(
            None,
            exe_dir,
            cwd,
            path_dirs,
            bin,
        ),
        exe_dir matches Some(d) ==> mihomo_search(None, exe_dir, cwd, path_dirs, bin)[0] == path_join(d, bin),
        exe_dir is None ==> (cwd matches Some(c) ==> mihomo_search(None, exe_dir, cwd, path_dirs, bin)[0]
            == path_join(c, "bin/"@ + bin)),
        exe_dir is None && cwd is None ==> mihomo_search(None, exe_dir, cwd, path_dirs, bin) == path_dirs.map_values(
            |d: Seq<char>| path_join(d, bin),
        ),
{
    let with = mihomo_search(Some(over), exe_dir, cwd, path_dirs, bin);
    let without = mihomo_search(None, exe_dir, cwd, path_dirs, bin);
    assert(with =~= seq![over] + without);
    assert(with.drop_first() =~= without);
    assert(Seq::<Seq<char>>::empty() + without =~= without);
}

/// File name of the mihomo binary on this platform.
pub fn mihomo_binary_name(windows: bool) -> (r: &'static str)
    ensures
        r@ == (if windows {
            "mihomo.exe"@
        } else {
            "mihomo"@
        }),
{
    if windows {
        "mihomo.exe"
    } else {
        "mihomo"
    }
}

/// The candidate paths of the mihomo binary, in the order they are tried;
/// the first that is a file wins.
pub fn mihomo_candidates(
    env_override: &Option<String>,
    exe_dir: &Option<String>,
    cwd: &Option<String>,
    path_dirs: &Vec<String>,
    bin: &str,
) -> (r: Vec<String>)
    ensures
        r@.map_values(|s: String| s@) == mihomo_search(
            opt_view(*env_override),
            opt_view(*exe_dir),
            opt_view(*cwd),
            path_dirs@.map_values(|s: String| s@),
            bin@,
        ),
{
    let mut r: Vec<String> = Vec::new();
    if let Some(p) = env_override {
        r.push(p.clone());
    }
    if let Some(d) = exe_dir {
        r.push(join(d.as_str(), bin));
        let up = join(d.as_str(), "..");
        let res = join(up.as_str(), "Resources");
        let sub = join("bin", bin);
        r.push(join(res.as_str(), sub.as_str()));
    }
    if let Some(c) = cwd {
        let rel = crate::text::concat2("bin/", bin);
        r.push(join(c.as_str(), rel.as_str()));
        r.push(join(c.as_str(), bin));
    }
    let ghost head = r@.map_values(|s: String| s@);
    let mut i: usize = 0;
    while i < path_dirs.len()
        invariant
            i <= path_dirs@.len(),
            r@.map_values(|s: String| s@) == head + path_dirs@.take(i as int).map_values(
                |s: String| s@,
            ).map_values(|d: Seq<char>| path_join(d, bin@)),
        decreases path_dirs.len() - i,
    {
        let ghost before = r@;
        r.push(join(path_dirs[i].as_str(), bin));
        proof {
            assert(r@.map_values(|s: String| s@) =~= before.map_values(|s: String| s@).push(
                r@.last()@,
            ));
            assert(path_dirs@.take(i + 1).map_values(|s: String| s@).map_values(
                |d: Seq<char>| path_join(d, bin@),
            ) == path_dirs@.take(i as int).map_values(|s: String| s@).map_values(
                |d: Seq<char>| path_join(d, bin@),
            ).push(path_join(path_dirs@[i as int]@, bin@)));
        }
        i = i + 1;
    }
    assert(path_dirs@.take(path_dirs@.len() as int) == path_dirs@);
    assert(r@.map_values(|s: String| s@) =~= mihomo_search(
        opt_view(*env_override),
        opt_view(*exe_dir),
        opt_view(*cwd),
        path_dirs@.map_values(|s: String| s@),
        bin@,
    ));
    r
}

/// Where the service binary is looked for, in priority order: the
/// `CLASHR_SERVICE_PATH` override, next to the executable, the bundle's
/// `Resources/bin`, then `bin/`, `target/release/` and `target/debug/`
/// under the working directory.
pub open spec fn service_search(
    env_override: Option<Seq<char>>,
    exe_dir: Option<Seq<char>>,
    cwd: Option<Seq<char>>,
) -> Seq<Seq<char>> {
    (match env_override {
        Some(p) => seq![p],
        None => Seq::empty(),
    }) + (match exe_dir {
        Some(d) => seq![
            path_join(d, "clashr-service"@),
            path_join(path_join(path_join(path_join(d, ".."@), "Resources"@), "bin"@), "clashr-service"@),
        ],
        None => Seq::empty(),
    }) + (match cwd {
        Some(c) => seq![
            path_join(c, "bin/clashr-service"@),
            path_join(c, "target/release/clashr-service"@),
            path_join(c, "target/debug/clashr-service"@),
        ],
        None => Seq::empty(),
    })
}

/// The candidate paths of the service binary, in the order they are tried.
pub fn service_binary_candidates(
    env_override: &Option<String>,
    exe_dir: &Option<String>,
    cwd: &Option<String>,
) -> (r: Vec<String>)
    ensures
        r@.map_values(|s: String| s@) == service_search(
            opt_view(*env_override),
            opt_view(*exe_dir),
            opt_view(*cwd),
        ),
{
    let mut r: Vec<String> = Vec::new();
    if let Some(p) = env_override {
        r.push(p.clone());
    }
    if let Some(d) = exe_dir {
        r.push(join(d.as_str(), "clashr-service"));
        let up = join(d.as_str(), "..");
        let res = join(up.as_str(), "Resources");
        let bin = join(res.as_str(), "bin");
        r.push(join(bin.as_str(), "clashr-service"));
    }
    if let Some(c) = cwd {
        r.push(join(c.as_str(), "bin/clashr-service"));
        r.push(join(c.as_str(), "target/release/clashr-service"));
        r.push(join(c.as_str(), "target/debug/clashr-service"));
    }
    assert(r@.map_values(|s: String| s@) =~= service_search(
        opt_view(*env_override),
        opt_view(*exe_dir),
        opt_view(*cwd),
    ));
    r
}

/// What a first start inside the bundle copies from the development
/// location when the bundle's profiles folder is empty: (source,
/// destination) pairs, each copied when its source exists.
pub open spec fn migration_copies(bundle: bool, profiles_empty: bool, data_dir: Seq<char>, cwd: Option<Seq<char>>) -> Seq<
    (Seq<char>, Seq<char>),
> {
    if bundle && profiles_empty {
        match cwd {
            Some(c) => seq![
                (path_join(c, "data/profiles"@), path_join(data_dir, "profiles"@)),
                (path_join(c, "data/runtime.yaml"@), path_join(data_dir, "runtime.yaml"@)),
            ],
            None => Seq::empty(),
        }
    } else {
        Seq::empty()
    }
}

/// The copies of the one-time migration into the bundle's data folder.
pub fn migration_plan(bundle: bool, profiles_empty: bool, data_dir: &str, cwd: &Option<String>) -> (r: Vec<(String, String)>)
    ensures
        r@.map_values(|p: (String, String)| (p.0@, p.1@)) == migration_copies(
            bundle,
            profiles_empty,
            data_dir@,
            opt_view(*cwd),
        ),
{
    let mut r: Vec<(String, String)> = Vec::new();
    if bundle && profiles_empty {
        if let Some(c) = cwd {
            r.push((join(c.as_str(), "data/profiles"), join(data_dir, "profiles")));
            r.push((join(c.as_str(), "data/runtime.yaml"), join(data_dir, "runtime.yaml")));
        }
    }
    assert(r@.map_values(|p: (String, String)| (p.0@, p.1@)) =~= migration_copies(
        bundle,
        profiles_empty,
        data_dir@,
        opt_view(*cwd),
    ));
    r
}

/// Bundled assets (icons, themes) live in `Contents/Resources`, next to
/// the executable's folder; this is used when it exists, the working
/// directory otherwise.
pub fn resources_candidate(exe_dir: &str) -> (r: String)
    ensures
        r@ == path_join(exe_dir@, "../Resources"@),
{
    join(exe_dir, "../Resources")
}

/// What `Path::extension` gives for a path.
pub uninterp spec fn std_path_extension(path: Seq<char>) -> Option<Seq<char>>;

/// `Path::extension`, as text. What it returns is named, not restated.
#[verifier::external_body]
pub(crate) fn path_extension(path: &str) -> (r: Option<String>)
    ensures
        match r {
            Some(e) => std_path_extension(path@) == Some(e@),
            None => std_path_extension(path@) is None,
        },
{
    std::path::Path::new(path).extension().map(|e| e.to_string_lossy().into_owned())
}

/// What `Path::parent` gives for a path.
pub uninterp spec fn std_path_parent(path: Seq<char>) -> Option<Seq<char>>;

/// `Path::parent`, as text. What it returns is named, not restated.
#[verifier::external_body]
pub(crate) fn path_parent(path: &str) -> (r: Option<String>)
    ensures
        match r {
            Some(p) => std_path_parent(path@) == Some(p@),
            None => std_path_parent(path@) is None,
        },
{
    std::path::Path::new(path).parent().map(|p| p.to_string_lossy().into_owned())
}

/// What `Path::file_stem` gives for a path.
pub uninterp spec fn std_path_file_stem(path: Seq<char>) -> Option<Seq<char>>;

/// `Path::file_stem`, as text. What it returns is named, not restated.
#[verifier::external_body]
pub(crate) fn path_file_stem(path: &str) -> (r: Option<String>)
    ensures
        match r {
            Some(e) => std_path_file_stem(path@) == Some(e@),
            None => std_path_file_stem(path@) is None,
        },
{
    std::path::Path::new(path).file_stem().map(|e| e.to_string_lossy().into_owned())
}

/// What `Path::file_name` gives for a path.
pub uninterp spec fn std_path_file_name(path: Seq<char>) -> Option<Seq<char>>;

/// `Path::file_name`, as text. What it returns is named, not restated.
#[verifier::external_body]
pub(crate) fn path_file_name(path: &str) -> (r: Option<String>)
    ensures
        match r {
            Some(e) => std_path_file_name(path@) == Some(e@),
            None => std_path_file_name(path@) is None,
        },
{
    std::path::Path::new(path).file_name().map(|e| e.to_string_lossy().into_owned())
}

} // verus!
