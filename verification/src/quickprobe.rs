//! The fast detection pass: exact well-known paths, the executable search
//! path walked name by name, the registry listing, and the platform's
//! default-browser hint, merged unique by path.

use vstd::prelude::*;
use vstd::string::StrSliceExecFns;
use vstd::string::StringExecFns;

use crate::dedup::contains_path;
use crate::dedup::dedup_by_path;
use crate::dedup::lemma_unique_push;
use crate::dedup::seen_path;
use crate::dedup::unique_paths;
use crate::dedup::views_of;
use crate::probe::registry_browsers;
use crate::probe::Platform;
use crate::probe::RegistryEntry;
use crate::sys;
use crate::text::basename;
use crate::text::concat_str;
use crate::text::is_sep_char;
use crate::text::push_char;
use crate::text::seq_eq_nocase;
use crate::text::str_eq_nocase;
use crate::text::strings_view;
use crate::text::take_until;
use crate::text::trim;
use crate::text::trim_spec;
use crate::Browser;

verus! {

/// The executable names, Windows and Unix spellings both, that the fast
/// pass looks for.
pub open spec fn candidate_executables_spec() -> Seq<Seq<char>> {
    seq![
        "chrome.exe"@,
        "google-chrome-stable"@,
        "google-chrome"@,
        "chromium.exe"@,
        "chromium"@,
        "firefox.exe"@,
        "firefox"@,
        "brave.exe"@,
        "brave-browser"@,
        "msedge.exe"@,
        "microsoft-edge"@,
        "opera.exe"@,
        "opera"@,
        "vivaldi.exe"@,
        "vivaldi"@,
    ]
}

pub fn candidate_executables() -> (r: Vec<String>)
    ensures
        strings_view(r@) == candidate_executables_spec(),
{
    let mut v: Vec<String> = Vec::new();
    v.push("chrome.exe".to_owned());
    v.push("google-chrome-stable".to_owned());
    v.push("google-chrome".to_owned());
    v.push("chromium.exe".to_owned());
    v.push("chromium".to_owned());
    v.push("firefox.exe".to_owned());
    v.push("firefox".to_owned());
    v.push("brave.exe".to_owned());
    v.push("brave-browser".to_owned());
    v.push("msedge.exe".to_owned());
    v.push("microsoft-edge".to_owned());
    v.push("opera.exe".to_owned());
    v.push("opera".to_owned());
    v.push("vivaldi.exe".to_owned());
    v.push("vivaldi".to_owned());
    proof {
        assert(strings_view(v@) =~= candidate_executables_spec());
    }
    v
}

/// `s` with `p + suffix` appended when the environment value `p` is set.
pub open spec fn push_if(s: Seq<Seq<char>>, o: Option<Seq<char>>, suffix: Seq<char>) -> Seq<
    Seq<char>,
> {
    match o {
        Some(p) => s.push(p + suffix),
        None => s,
    }
}

/// The exact well-known install paths checked first on Windows, built from
/// whichever of the three environment values are set.
pub open spec fn quick_paths_spec(
    pf: Option<Seq<char>>,
    pfx: Option<Seq<char>>,
    local: Option<Seq<char>>,
) -> Seq<Seq<char>> {
    push_if(
        push_if(
            push_if(
                push_if(
                    push_if(
                        push_if(
                            Seq::<Seq<char>>::empty(),
                            pf,
                            "\\Google\\Chrome\\Application\\chrome.exe"@,
                        ),
                        pfx,
                        "\\Google\\Chrome\\Application\\chrome.exe"@,
                    ),
                    local,
                    "\\Chromium\\Application\\chrome.exe"@,
                ),
                pf,
                "\\BraveSoftware\\Brave-Browser\\Application\\brave.exe"@,
            ),
            pf,
            "\\Mozilla Firefox\\firefox.exe"@,
        ),
        pfx,
        "\\Microsoft\\Edge\\Application\\msedge.exe"@,
    )
}

pub fn candidate_paths_quick(
    pf: &Option<String>,
    pfx: &Option<String>,
    local: &Option<String>,
) -> (r: Vec<String>)
    ensures
        strings_view(r@) == quick_paths_spec(pf.deep_view(), pfx.deep_view(), local.deep_view()),
{
    let mut v: Vec<String> = Vec::new();
    match pf {
        Some(p) => {
            v.push(concat_str(p.as_str(), "\\Google\\Chrome\\Application\\chrome.exe"));
        },
        None => {},
    }
    match pfx {
        Some(p) => {
            v.push(concat_str(p.as_str(), "\\Google\\Chrome\\Application\\chrome.exe"));
        },
        None => {},
    }
    match local {
        Some(l) => {
            v.push(concat_str(l.as_str(), "\\Chromium\\Application\\chrome.exe"));
        },
        None => {},
    }
    match pf {
        Some(p) => {
            v.push(concat_str(p.as_str(), "\\BraveSoftware\\Brave-Browser\\Application\\brave.exe"));
        },
        None => {},
    }
    match pf {
        Some(p) => {
            v.push(concat_str(p.as_str(), "\\Mozilla Firefox\\firefox.exe"));
        },
        None => {},
    }
    match pfx {
        Some(p) => {
            v.push(concat_str(p.as_str(), "\\Microsoft\\Edge\\Application\\msedge.exe"));
        },
        None => {},
    }
    proof {
        assert(strings_view(v@) =~= quick_paths_spec(
            pf.deep_view(),
            pfx.deep_view(),
            local.deep_view(),
        ));
    }
    v
}

/// A directory and a file name joined with the platform's separator; a
/// trailing separator on the directory is not doubled.
pub open spec fn join_path_spec(dir: Seq<char>, name: Seq<char>, platform: Platform) -> Seq<char> {
    let sep: char = if platform is Windows {
        '\\'
    } else {
        '/'
    };
    if dir.len() > 0 && is_sep_char(dir[dir.len() - 1]) {
        dir + name
    } else {
        dir + seq![sep] + name
    }
}

pub fn join_path(dir: &str, name: &str, platform: Platform) -> (r: String)
    ensures
        r@ == join_path_spec(dir@, name@, platform),
{
    let n: usize = dir.unicode_len();
    let mut out = dir.to_owned();
    if n == 0 || {
        let c = dir.get_char(n - 1);
        !(c == '/' || c == '\\')
    } {
        match platform {
            Platform::Windows => push_char(&mut out, '\\'),
            Platform::MacOs => push_char(&mut out, '/'),
            Platform::Unix => push_char(&mut out, '/'),
        }
        proof {
            let sep: char = if platform is Windows {
                '\\'
            } else {
                '/'
            };
            assert(out@ =~= dir@ + seq![sep]);
        }
    }
    out.append(name);
    proof {
        assert(out@ =~= join_path_spec(dir@, name@, platform));
    }
    out
}

/// The fast pass: every exact well-known path that exists, then every
/// candidate executable found in a search-path directory, unique by path.
pub fn probe_quick(quick: &Vec<String>, path_dirs: &Vec<String>, platform: Platform) -> (r: Vec<
    Browser,
>)
    ensures
        unique_paths(views_of(r@)),
        forall|k: int| 0 <= k < r@.len() ==> (#[trigger] views_of(r@)[k]).version is None,
{
    let mut found: Vec<Browser> = Vec::new();
    let mut i: usize = 0;
    while i < quick.len()
        invariant
            forall|k: int|
                0 <= k < found@.len() ==> (#[trigger] views_of(found@)[k]).version is None,
        decreases quick@.len() - i,
    {
        let p = &quick[i];
        if sys::path_exists(p.as_str()) {
            let base = basename(p.as_str());
            let b = if base.as_str().unicode_len() == 0 {
                Browser::new("browser", p.as_str())
            } else {
                Browser::new(base.as_str(), p.as_str())
            };
            let ghost pre = views_of(found@);
            found.push(b);
            proof {
                assert(views_of(found@) =~= pre.push(b@));
            }
        }
        i = i + 1;
    }
    let exes = candidate_executables();
    let mut e: usize = 0;
    while e < exes.len()
        invariant
            forall|k: int|
                0 <= k < found@.len() ==> (#[trigger] views_of(found@)[k]).version is None,
        decreases exes@.len() - e,
    {
        let mut d: usize = 0;
        while d < path_dirs.len()
            invariant
                e < exes@.len(),
                forall|k: int|
                    0 <= k < found@.len() ==> (#[trigger] views_of(found@)[k]).version is None,
            decreases path_dirs@.len() - d,
        {
            let cand = join_path(path_dirs[d].as_str(), exes[e].as_str(), platform);
            if sys::path_exists(cand.as_str()) {
                let b = Browser::new(exes[e].as_str(), cand.as_str());
                let ghost pre = views_of(found@);
                found.push(b);
                proof {
                    assert(views_of(found@) =~= pre.push(b@));
                }
            }
            d = d + 1;
        }
        e = e + 1;
    }
    let ghost w = views_of(found@);
    proof {
        crate::dedup::lemma_dedup_elements(w);
    }
    let out = dedup_by_path(found);
    proof {
        assert forall|k: int| 0 <= k < out@.len() implies (#[trigger] views_of(out@)[k]).version
            is None by {
            let el = crate::dedup::dedup_spec(w)[k];
            assert(views_of(out@)[k] == el);
            let j = choose|j: int| 0 <= j < w.len() && w[j] == el;
            assert(w[j].version is None);
        }
    }
    out
}

/// What executable name a desktop-entry identifier denotes: the part
/// before its first dot.
pub open spec fn desktop_exec_spec(s: Seq<char>) -> Seq<char> {
    take_until(trim_spec(s), |c: char| c == '.')
}

/// The platform's default browser, from what `xdg-settings` printed: the
/// desktop entry's executable name, searched on the executable search
/// path. A failed or empty answer, or a name the search path does not
/// hold, yields nothing.
pub fn default_browser_from_desktop(output: &Option<String>) -> (r: Option<Browser>)
    ensures
        match r {
            Some(b) => (output matches Some(o) && trim_spec(o@).len() > 0 && b@.name
                == desktop_exec_spec(o@) && b@.version is None),
            None => true,
        },
        output is None ==> r is None,
{
    match output {
        Some(o) => {
            let t = trim(o.as_str());
            if t.as_str().unicode_len() == 0 {
                return None;
            }
            let exe = first_until_dot(t.as_str());
            match sys::which_lookup(exe.as_str()) {
                Some(p) => Some(Browser::new(exe.as_str(), p.as_str())),
                None => None,
            }
        },
        None => None,
    }
}

/// The prefix of `s` before its first dot.
fn first_until_dot(s: &str) -> (r: String)
    ensures
        r@ == take_until(s@, |c: char| c == '.'),
{
    let n: usize = s.unicode_len();
    let mut i: usize = 0;
    while i < n && s.get_char(i) != '.'
        invariant
            0 <= i <= n,
            n == s@.len(),
            forall|k: int| 0 <= k < i ==> s@[k] != '.',
        decreases n - i,
    {
        i = i + 1;
    }
    proof {
        crate::text::lemma_take_until_range(s@, |c: char| c == '.', i as int);
    }
    s.substring_char(0, i).to_owned()
}

/// Which executable a Windows URL-association ProgId names, for the
/// default-browser lookup; identifiers are compared without regard to
/// ASCII case.
pub open spec fn progid_exec_spec(prog: Seq<char>) -> Option<Seq<char>> {
    if seq_eq_nocase(prog, "ChromeHTML"@) {
        Some("chrome.exe"@)
    } else if seq_eq_nocase(prog, "FirefoxURL"@) {
        Some("firefox.exe"@)
    } else if seq_eq_nocase(prog, "MSEdgeHTM"@) {
        Some("msedge.exe"@)
    } else if seq_eq_nocase(prog, "OperaStable"@) {
        Some("opera.exe"@)
    } else if seq_eq_nocase(prog, "BraveHTML"@) {
        Some("brave.exe"@)
    } else {
        None
    }
}

pub fn progid_executable(prog_id: &str) -> (r: Option<String>)
    ensures
        r.deep_view() == progid_exec_spec(prog_id@),
{
    if str_eq_nocase(prog_id, "ChromeHTML") {
        Some("chrome.exe".to_owned())
    } else if str_eq_nocase(prog_id, "FirefoxURL") {
        Some("firefox.exe".to_owned())
    } else if str_eq_nocase(prog_id, "MSEdgeHTM") {
        Some("msedge.exe".to_owned())
    } else if str_eq_nocase(prog_id, "OperaStable") {
        Some("opera.exe".to_owned())
    } else if str_eq_nocase(prog_id, "BraveHTML") {
        Some("brave.exe".to_owned())
    } else {
        None
    }
}

/// The executable names the deep directory search looks for: the Windows
/// spellings first, then the Unix ones.
pub open spec fn browser_candidates_spec() -> Seq<Seq<char>> {
    seq![
        "chrome.exe"@,
        "chromium.exe"@,
        "firefox.exe"@,
        "brave.exe"@,
        "msedge.exe"@,
        "opera.exe"@,
        "chrome"@,
        "chromium"@,
        "firefox"@,
        "brave-browser"@,
        "microsoft-edge"@,
        "opera"@,
    ]
}

pub fn browser_candidates() -> (r: Vec<String>)
    ensures
        strings_view(r@) == browser_candidates_spec(),
{
    let mut v: Vec<String> = Vec::new();
    v.push("chrome.exe".to_owned());
    v.push("chromium.exe".to_owned());
    v.push("firefox.exe".to_owned());
    v.push("brave.exe".to_owned());
    v.push("msedge.exe".to_owned());
    v.push("opera.exe".to_owned());
    v.push("chrome".to_owned());
    v.push("chromium".to_owned());
    v.push("firefox".to_owned());
    v.push("brave-browser".to_owned());
    v.push("microsoft-edge".to_owned());
    v.push("opera".to_owned());
    proof {
        assert(strings_view(v@) =~= browser_candidates_spec());
    }
    v
}

/// The directories the deep search starts from, per platform; the caller
/// supplies the user's home directory and the local application-data
/// value where the platform has them.
pub open spec fn candidate_dirs_spec(
    platform: Platform,
    home: Option<Seq<char>>,
    local: Option<Seq<char>>,
) -> Seq<Seq<char>> {
    match platform {
        Platform::Windows => {
            let base = seq!["C:\\Program Files"@, "C:\\Program Files (x86)"@];
            match local {
                Some(l) => base.push(l),
                None => base,
            }
        },
        Platform::Unix => {
            let h = match home {
                Some(h) => h,
                None => "/"@,
            };
            seq!["/usr/bin"@, "/usr/local/bin"@, h + "/.local/share/applications"@]
        },
        Platform::MacOs => {
            let h = match home {
                Some(h) => h,
                None => "/"@,
            };
            seq!["/Applications"@, h + "/Applications"@, "/usr/bin"@, "/usr/local/bin"@]
        },
    }
}

pub fn candidate_dirs_from(
    platform: Platform,
    home: &Option<String>,
    local: &Option<String>,
) -> (r: Vec<String>)
    ensures
        strings_view(r@) == candidate_dirs_spec(platform, home.deep_view(), local.deep_view()),
{
    let mut v: Vec<String> = Vec::new();
    match platform {
        Platform::Windows => {
            v.push("C:\\Program Files".to_owned());
            v.push("C:\\Program Files (x86)".to_owned());
            match local {
                Some(l) => {
                    v.push(l.clone());
                },
                None => {},
            }
        },
        Platform::Unix => {
            let h = home_or_root(home);
            v.push("/usr/bin".to_owned());
            v.push("/usr/local/bin".to_owned());
            v.push(concat_str(h.as_str(), "/.local/share/applications"));
        },
        Platform::MacOs => {
            let h = home_or_root(home);
            v.push("/Applications".to_owned());
            v.push(concat_str(h.as_str(), "/Applications"));
            v.push("/usr/bin".to_owned());
            v.push("/usr/local/bin".to_owned());
        },
    }
    proof {
        assert(strings_view(v@) =~= candidate_dirs_spec(
            platform,
            home.deep_view(),
            local.deep_view(),
        ));
    }
    v
}

fn home_or_root(home: &Option<String>) -> (r: String)
    ensures
        r@ == match home.deep_view() {
            Some(h) => h,
            None => "/"@,
        },
{
    match home {
        Some(h) => h.clone(),
        None => "/".to_owned(),
    }
}

/// The deep search's starting directories, with the home directory asked
/// of the platform: the fixed table for some choice of home directory.
pub fn candidate_dirs(platform: Platform, local: &Option<String>) -> (r: Vec<String>)
    ensures
        exists|home: Option<Seq<char>>|
            strings_view(r@) == candidate_dirs_spec(platform, home, local.deep_view()),
{
    let home = sys::home_dir();
    let r = candidate_dirs_from(platform, &home, local);
    proof {
        assert(strings_view(r@) == candidate_dirs_spec(
            platform,
            home.deep_view(),
            local.deep_view(),
        ));
    }
    r
}

/// Does `name` match one of the candidate executable names, without regard
/// to ASCII case?
pub open spec fn matches_any_nocase(name: Seq<char>, cands: Seq<Seq<char>>) -> bool {
    exists|k: int| 0 <= k < cands.len() && seq_eq_nocase(cands[k], name)
}

pub fn is_browser_executable(name: &str, cands: &Vec<String>) -> (r: bool)
    ensures
        r == matches_any_nocase(name@, strings_view(cands@)),
{
    let n: usize = cands.len();
    let mut i: usize = 0;
    while i < n
        invariant
            0 <= i <= n,
            n == cands@.len(),
            forall|k: int| 0 <= k < i ==> !seq_eq_nocase(strings_view(cands@)[k], name@),
        decreases n - i,
    {
        if str_eq_nocase(cands[i].as_str(), name) {
            assert(seq_eq_nocase(strings_view(cands@)[i as int], name@));
            return true;
        }
        i = i + 1;
    }
    false
}

/// Directories a deep search never descends into on Windows.
pub fn should_skip_dir(name: &str, platform: Platform) -> (r: bool)
    ensures
        r == (platform is Windows && (name@ == "Windows"@ || name@ == "$Recycle.Bin"@ || name@
            == "ProgramData"@)),
{
    match platform {
        Platform::Windows => crate::text::str_eq(name, "Windows") || crate::text::str_eq(
            name,
            "$Recycle.Bin",
        ) || crate::text::str_eq(name, "ProgramData"),
        Platform::MacOs => false,
        Platform::Unix => false,
    }
}

/// One fast detection run: the quick paths and search-path hits, then the
/// registry listing, and finally the platform's default-browser hint put
/// in front — each added only when its path is new.
pub fn detect_all(
    platform: Platform,
    path_dirs: &Vec<String>,
    pf: &Option<String>,
    pfx: &Option<String>,
    local: &Option<String>,
    registry: &Vec<RegistryEntry>,
    default_desktop: &Option<String>,
) -> (r: Vec<Browser>)
    ensures
        unique_paths(views_of(r@)),
        forall|k: int| 0 <= k < r@.len() ==> (#[trigger] views_of(r@)[k]).version is None,
{
    let quick = candidate_paths_quick(pf, pfx, local);
    let mut found = probe_quick(&quick, path_dirs, platform);
    let reg = registry_browsers(registry);
    let mut i: usize = 0;
    while i < reg.len()
        invariant
            unique_paths(views_of(found@)),
            forall|k: int|
                0 <= k < found@.len() ==> (#[trigger] views_of(found@)[k]).version is None,
            forall|k: int| 0 <= k < reg@.len() ==> (#[trigger] views_of(reg@)[k]).version is None,
        decreases reg@.len() - i,
    {
        let b = reg[i].duplicate();
        if !contains_path(&found, b.path.as_str()) {
            let ghost pre = views_of(found@);
            proof {
                lemma_unique_push(pre, b@);
                assert(b@ == views_of(reg@)[i as int]);
            }
            found.push(b);
            proof {
                assert(views_of(found@) =~= pre.push(b@));
            }
        }
        i = i + 1;
    }
    match default_browser_from_desktop(default_desktop) {
        Some(d) => {
            if !contains_path(&found, d.path.as_str()) {
                let ghost pre = views_of(found@);
                let ghost dv = d@;
                found.insert(0, d);
                proof {
                    let cur = views_of(found@);
                    assert(cur =~= pre.insert(0, dv));
                    assert forall|a: int, b: int| 0 <= a < b < cur.len() implies cur[a].path
                        != cur[b].path by {
                        if a == 0 {
                            assert(cur[b] == pre[b - 1]);
                            if cur[0].path == pre[b - 1].path {
                                assert(seen_path(pre, cur[0].path));
                            }
                        } else {
                            assert(cur[a] == pre[a - 1]);
                            assert(cur[b] == pre[b - 1]);
                            assert(pre[a - 1].path != pre[b - 1].path);
                        }
                    }
                    assert forall|k: int| 0 <= k < cur.len() implies (#[trigger] cur[k]).version
                        is None by {
                        if k > 0 {
                            assert(cur[k] == pre[k - 1]);
                        }
                    }
                }
            }
        },
        None => {},
    }
    found
}

} // verus!
