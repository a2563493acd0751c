//! The probes that turn an unknown machine into a list of candidate
//! browsers: the fixed table of logical browsers, the executable-name and
//! install-directory rules per platform, version extraction, and the
//! reading of registry entries.
//!
//! Everything the machine answers — which files exist, what the search
//! path holds, what a subprocess printed — reaches this module as a plain
//! value or through a wrapper in `sys`; the rules applied to those answers
//! are verified.

use vstd::prelude::*;
use vstd::string::StrSliceExecFns;

use crate::dedup::contains_path;
use crate::dedup::dedup_by_path;
use crate::dedup::lemma_unique_push;
use crate::dedup::unique_paths;
use crate::dedup::views_of;
use crate::sys;
use crate::text::basename;
use crate::text::basename_spec;
use crate::text::concat_str;
use crate::text::drop_while_start;
use crate::text::is_space;
use crate::text::is_space_char;
use crate::text::lemma_drop_while_start_range;
use crate::text::lemma_take_until_range;
use crate::text::take_until;
use crate::text::first_line_spec;
use crate::text::first_line;
use crate::text::first_token;
use crate::text::first_token_spec;
use crate::text::stem_of;
use crate::text::stem_spec;
use crate::text::str_eq;
use crate::text::strings_view;
use crate::text::trim;
use crate::text::trim_by;
use crate::text::trim_quotes;
use crate::text::trim_spec;
use crate::Browser;

verus! {

/// The platform whose probing rules apply; detection sources are chosen by
/// value, so a platform without a capability simply supplies no data.
#[derive(Debug, Clone, Copy, PartialEq, Eq, Structural)]
pub enum Platform {
    Windows,
    MacOs,
    Unix,
}

/// The environment values the install-directory tables consult. The caller
/// reads them from the process environment; a variable that is not set is
/// handed over as an empty string, which simply yields paths that do not
/// exist.
#[derive(Debug, Clone)]
pub struct ProbeEnv {
    pub program_files: String,
    pub program_files_x86: String,
    pub local_app_data: String,
}

pub struct ProbeEnvView {
    pub program_files: Seq<char>,
    pub program_files_x86: Seq<char>,
    pub local_app_data: Seq<char>,
}

impl View for ProbeEnv {
    type V = ProbeEnvView;

    open spec fn view(&self) -> ProbeEnvView {
        ProbeEnvView {
            program_files: self.program_files@,
            program_files_x86: self.program_files_x86@,
            local_app_data: self.local_app_data@,
        }
    }
}

/// The platform-correct file name of an executable: Windows appends `.exe`.
pub open spec fn executable_name_spec(base: Seq<char>, platform: Platform) -> Seq<char> {
    if platform is Windows {
        base + ".exe"@
    } else {
        base
    }
}

pub fn executable_name(base: &str, platform: Platform) -> (r: String)
    ensures
        r@ == executable_name_spec(base@, platform),
{
    match platform {
        Platform::Windows => concat_str(base, ".exe"),
        Platform::MacOs => base.to_owned(),
        Platform::Unix => base.to_owned(),
    }
}

/// The fixed table of logical browsers every detection run probes, in
/// emission order: display name and executable base name.
pub open spec fn known_browsers_spec() -> Seq<(Seq<char>, Seq<char>)> {
    seq![
        ("Google Chrome"@, "chrome"@),
        ("Mozilla Firefox"@, "firefox"@),
        ("Brave"@, "brave"@),
        ("Microsoft Edge"@, "msedge"@),
        ("Opera"@, "opera"@),
        ("Chromium"@, "chromium"@),
    ]
}

pub fn known_browsers() -> (r: Vec<(String, String)>)
    ensures
        r@.map_values(|p: (String, String)| (p.0@, p.1@)) == known_browsers_spec(),
{
    let mut v: Vec<(String, String)> = Vec::new();
    v.push(("Google Chrome".to_owned(), "chrome".to_owned()));
    v.push(("Mozilla Firefox".to_owned(), "firefox".to_owned()));
    v.push(("Brave".to_owned(), "brave".to_owned()));
    v.push(("Microsoft Edge".to_owned(), "msedge".to_owned()));
    v.push(("Opera".to_owned(), "opera".to_owned()));
    v.push(("Chromium".to_owned(), "chromium".to_owned()));
    proof {
        assert(v@.map_values(|p: (String, String)| (p.0@, p.1@)) =~= known_browsers_spec());
    }
    v
}

/// The well-known install locations probed for an executable name, in
/// fixed order, per platform.
pub open spec fn common_paths_spec(exec: Seq<char>, platform: Platform, env: ProbeEnvView) -> Seq<
    Seq<char>,
> {
    match platform {
        Platform::Windows => seq![
            env.program_files + "\\Google\\Chrome\\Application\\"@ + exec,
            env.program_files_x86 + "\\Google\\Chrome\\Application\\"@ + exec,
            env.program_files + "\\Mozilla Firefox\\"@ + exec,
            env.program_files_x86 + "\\Microsoft\\Edge\\Application\\"@ + exec,
            env.program_files + "\\BraveSoftware\\Brave-Browser\\Application\\"@ + exec,
            env.local_app_data + "\\Programs\\"@ + exec,
        ],
        Platform::MacOs => if exec == "chrome"@ {
            seq![
                "/Applications/"@ + exec + ".app/Contents/MacOS/"@ + exec,
                "/Applications/Google Chrome.app/Contents/MacOS/Google Chrome"@,
            ]
        } else {
            seq!["/Applications/"@ + exec + ".app/Contents/MacOS/"@ + exec]
        },
        Platform::Unix => seq![
            "/usr/bin/"@ + exec,
            "/usr/local/bin/"@ + exec,
            "/snap/bin/"@ + exec,
            "/opt/"@ + exec + "/"@ + exec,
        ],
    }
}

pub fn common_paths(exec: &str, platform: Platform, env: &ProbeEnv) -> (r: Vec<String>)
    ensures
        strings_view(r@) == common_paths_spec(exec@, platform, env@),
{
    let mut v: Vec<String> = Vec::new();
    match platform {
        Platform::Windows => {
            v.push(
                concat_str(
                    concat_str(env.program_files.as_str(), "\\Google\\Chrome\\Application\\").as_str(),
                    exec,
                ),
            );
            v.push(
                concat_str(
                    concat_str(env.program_files_x86.as_str(), "\\Google\\Chrome\\Application\\").as_str(),
                    exec,
                ),
            );
            v.push(
                concat_str(concat_str(env.program_files.as_str(), "\\Mozilla Firefox\\").as_str(), exec),
            );
            v.push(
                concat_str(
                    concat_str(env.program_files_x86.as_str(), "\\Microsoft\\Edge\\Application\\").as_str(),
                    exec,
                ),
            );
            v.push(
                concat_str(
                    concat_str(
                        env.program_files.as_str(),
                        "\\BraveSoftware\\Brave-Browser\\Application\\",
                    ).as_str(),
                    exec,
                ),
            );
            v.push(concat_str(concat_str(env.local_app_data.as_str(), "\\Programs\\").as_str(), exec));
        },
        Platform::MacOs => {
            v.push(
                concat_str(
                    concat_str(concat_str("/Applications/", exec).as_str(), ".app/Contents/MacOS/").as_str(),
                    exec,
                ),
            );
            if str_eq(exec, "chrome") {
                v.push("/Applications/Google Chrome.app/Contents/MacOS/Google Chrome".to_owned());
            }
        },
        Platform::Unix => {
            v.push(concat_str("/usr/bin/", exec));
            v.push(concat_str("/usr/local/bin/", exec));
            v.push(concat_str("/snap/bin/", exec));
            v.push(concat_str(concat_str(concat_str("/opt/", exec).as_str(), "/").as_str(), exec));
        },
    }
    proof {
        assert(strings_view(v@) =~= common_paths_spec(exec@, platform, env@));
    }
    v
}

/// What the raw output of a version probe yields: the first line, trimmed
/// of whitespace; no version at all when the probe failed or printed
/// nothing.
pub open spec fn version_spec(output: Option<Seq<char>>) -> Option<Seq<char>> {
    match output {
        Some(s) => {
            let v = trim_spec(first_line_spec(s));
            if v.len() == 0 {
                None
            } else {
                Some(v)
            }
        },
        None => None,
    }
}

/// Extract a version string from what a `--version` run printed. A failed
/// probe (`None`) or empty output degrades to "no version available";
/// nothing is ever propagated as an error.
pub fn version_from_output(output: &Option<String>) -> (r: Option<String>)
    ensures
        r.deep_view() == version_spec(output.deep_view()),
{
    match output {
        Some(s) => {
            let line = first_line(s.as_str());
            let v = trim(line.as_str());
            if v.as_str().unicode_len() == 0 {
                None
            } else {
                Some(v)
            }
        },
        None => None,
    }
}

/// The same browser with the outcome of a version probe attached.
pub fn with_version(b: Browser, output: &Option<String>) -> (r: Browser)
    ensures
        r@.name == b@.name,
        r@.path == b@.path,
        r@.version == version_spec(output.deep_view()),
{
    let v = version_from_output(output);
    Browser { name: b.name, path: b.path, version: v }
}

/// Probe one logical browser: a search-path hit first, then every
/// well-known install location that exists and is not already recorded for
/// this browser.
pub fn detect_browser(name: &str, base_exec: &str, platform: Platform, env: &ProbeEnv) -> (r:
    Vec<Browser>)
    ensures
        unique_paths(views_of(r@)),
        forall|k: int|
            0 <= k < r@.len() ==> (#[trigger] views_of(r@)[k]).name == name@ && views_of(
                r@,
            )[k].version is None,
{
    let exec_name = executable_name(base_exec, platform);
    let mut found: Vec<Browser> = Vec::new();
    match sys::which_lookup(exec_name.as_str()) {
        Some(p) => {
            let b = Browser::new(name, p.as_str());
            found.push(b);
        },
        None => {},
    }
    let paths = common_paths(exec_name.as_str(), platform, env);
    let mut i: usize = 0;
    while i < paths.len()
        invariant
            unique_paths(views_of(found@)),
            forall|k: int|
                0 <= k < found@.len() ==> (#[trigger] views_of(found@)[k]).name == name@
                    && views_of(found@)[k].version is None,
        decreases paths@.len() - i,
    {
        let cand = &paths[i];
        if sys::path_exists(cand.as_str()) {
            let b = Browser::new(name, cand.as_str());
            if !contains_path(&found, b.path.as_str()) {
                let ghost pre = views_of(found@);
                proof {
                    lemma_unique_push(pre, b@);
                }
                found.push(b);
                proof {
                    assert(views_of(found@) =~= pre.push(b@));
                }
            }
        }
        i = i + 1;
    }
    found
}

/// One entry of the platform's browser registry, as the platform hands it
/// over: the entry's own name and the "open command" string below it.
#[derive(Debug, Clone)]
pub struct RegistryEntry {
    pub name: String,
    pub command: String,
}

/// What cleaning a registry "open command" yields: a quoted command keeps
/// everything up to its closing quote — a quoted path may contain spaces —
/// and an unquoted one keeps its first whitespace-separated token, with
/// stray quotes removed. Either way the trailing arguments fall off and a
/// bare executable path is left.
pub open spec fn clean_command_spec(val: Seq<char>) -> Seq<char> {
    let t = drop_while_start(val, |c: char| is_space_char(c));
    if t.len() > 0 && t[0] == '"' {
        take_until(t.drop_first(), |c: char| c == '"')
    } else {
        trim_by(first_token_spec(val), |c: char| c == '"')
    }
}

pub fn clean_command_path(val: &str) -> (r: String)
    ensures
        r@ == clean_command_spec(val@),
{
    let n: usize = val.unicode_len();
    let mut i: usize = 0;
    while i < n && is_space(val.get_char(i))
        invariant
            0 <= i <= n,
            n == val@.len(),
            forall|k: int| 0 <= k < i ==> is_space_char(val@[k]),
        decreases n - i,
    {
        i = i + 1;
    }
    proof {
        lemma_drop_while_start_range(val@, |c: char| is_space_char(c), i as int);
    }
    if i < n && val.get_char(i) == '"' {
        let mut j: usize = i + 1;
        while j < n && val.get_char(j) != '"'
            invariant
                i + 1 <= j <= n,
                n == val@.len(),
                forall|k: int| i + 1 <= k < j ==> val@[k] != '"',
            decreases n - j,
        {
            j = j + 1;
        }
        proof {
            let t = val@.subrange(i as int, n as int);
            let inner = val@.subrange(i as int + 1, n as int);
            assert(t.drop_first() =~= inner);
            lemma_take_until_range(inner, |c: char| c == '"', j as int - (i as int + 1));
            assert(inner.subrange(0, j as int - (i as int + 1)) =~= val@.subrange(
                i as int + 1,
                j as int,
            ));
        }
        val.substring_char(i + 1, j).to_owned()
    } else {
        let t = first_token(val);
        trim_quotes(t.as_str())
    }
}

/// The name a registry entry yields: the stem of the command's file name,
/// falling back to the entry's own name where the command has none.
pub open spec fn registry_name_spec(entry_name: Seq<char>, cleaned: Seq<char>) -> Seq<char> {
    let stem = stem_spec(basename_spec(cleaned));
    if stem.len() == 0 {
        entry_name
    } else {
        stem
    }
}

/// Read one registry entry: clean its command into a bare path and emit a
/// browser exactly when that path exists on disk. Unreadable or stale
/// entries yield nothing, never an error.
pub fn registry_browser(entry: &RegistryEntry) -> (r: Option<Browser>)
    ensures
        match r {
            Some(b) => b@.name == registry_name_spec(
                entry.name@,
                clean_command_spec(entry.command@),
            ) && b@.version is None,
            None => true,
        },
{
    let cleaned = clean_command_path(entry.command.as_str());
    if sys::path_exists(cleaned.as_str()) {
        let base = basename(cleaned.as_str());
        let stem = stem_of(base.as_str());
        if stem.as_str().unicode_len() == 0 {
            Some(Browser::new(entry.name.as_str(), cleaned.as_str()))
        } else {
            Some(Browser::new(stem.as_str(), cleaned.as_str()))
        }
    } else {
        None
    }
}

/// Read a whole registry listing; entries that are invalid or point at
/// nothing on disk are skipped.
pub fn registry_browsers(entries: &Vec<RegistryEntry>) -> (r: Vec<Browser>)
    ensures
        forall|k: int| 0 <= k < r@.len() ==> (#[trigger] views_of(r@)[k]).version is None,
{
    let mut out: Vec<Browser> = Vec::new();
    let mut i: usize = 0;
    while i < entries.len()
        invariant
            forall|k: int|
                0 <= k < out@.len() ==> (#[trigger] views_of(out@)[k]).version is None,
        decreases entries@.len() - i,
    {
        match registry_browser(&entries[i]) {
            Some(b) => {
                let ghost pre = views_of(out@);
                out.push(b);
                proof {
                    assert(views_of(out@) =~= pre.push(b@));
                }
            },
            None => {},
        }
        i = i + 1;
    }
    out
}

/// One full detection pass: every logical browser in table order, then the
/// registry listing, merged into a list unique by path. The caller hands
/// over the registry entries; a platform without that capability hands an
/// empty listing.
pub fn detect_all_browsers(platform: Platform, env: &ProbeEnv, registry: &Vec<RegistryEntry>) -> (r:
    Vec<Browser>)
    ensures
        unique_paths(views_of(r@)),
        forall|k: int| 0 <= k < r@.len() ==> (#[trigger] views_of(r@)[k]).version is None,
{
    let table = known_browsers();
    let mut candidates: Vec<Browser> = Vec::new();
    let mut i: usize = 0;
    while i < table.len()
        invariant
            forall|k: int|
                0 <= k < candidates@.len() ==> (#[trigger] views_of(candidates@)[k]).version
                    is None,
        decreases table@.len() - i,
    {
        let ghost pre = views_of(candidates@);
        let mut part = detect_browser(table[i].0.as_str(), table[i].1.as_str(), platform, env);
        let ghost pv = views_of(part@);
        candidates.append(&mut part);
        proof {
            assert(views_of(candidates@) =~= pre + pv);
        }
        i = i + 1;
    }
    let ghost pre = views_of(candidates@);
    let mut reg = registry_browsers(registry);
    let ghost rv = views_of(reg@);
    candidates.append(&mut reg);
    proof {
        assert(views_of(candidates@) =~= pre + rv);
    }
    let ghost w = views_of(candidates@);
    proof {
        crate::dedup::lemma_dedup_elements(w);
    }
    let out = dedup_by_path(candidates);
    proof {
        assert forall|k: int| 0 <= k < out@.len() implies (#[trigger] views_of(out@)[k]).version
            is None by {
            let el = crate::dedup::dedup_spec(w)[k];
            assert(views_of(out@)[k] == el);
            let j = choose|j: int| 0 <= j < w.len() && w[j] == el;
            assert(w[j].version is None);
        }
    }
    out
}

} // verus!
