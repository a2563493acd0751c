//! The config store: the saved browser as a JSON object
//! `{"browser":{"name":...,"path":...,"version":...}}`, rendered and parsed
//! by verified code, and the loading rule that a stored browser whose path
//! has gone stale counts as absent.
//!
//! Reading and writing the file itself is the caller's business; this
//! module fixes what the bytes mean.

use vstd::prelude::*;
use vstd::string::StrSliceExecFns;
use vstd::string::StringExecFns;

use crate::json::escape_string;
use crate::json::expect_tok_at;
use crate::json::lemma_expect_exact;
use crate::json::lemma_quoted_exact;
use crate::json::lemma_string_round_trip;
use crate::json::parse_quoted_at;
use crate::json::parse_string_body;
use crate::json::parse_string_body_at;
use crate::json::render_string;
use crate::json::render_string_spec;
use crate::json::seq_quoted;
use crate::json::seq_tok;
use crate::json::skip_ws;
use crate::json::skip_ws_at;
use crate::sys;
use crate::Browser;
use crate::BrowserView;

verus! {

pub open spec fn key_browser() -> Seq<char> {
    seq!['"', 'b', 'r', 'o', 'w', 's', 'e', 'r', '"']
}

pub open spec fn key_name() -> Seq<char> {
    seq!['"', 'n', 'a', 'm', 'e', '"']
}

pub open spec fn key_path() -> Seq<char> {
    seq!['"', 'p', 'a', 't', 'h', '"']
}

pub open spec fn key_version() -> Seq<char> {
    seq!['"', 'v', 'e', 'r', 's', 'i', 'o', 'n', '"']
}

pub open spec fn null_tok() -> Seq<char> {
    seq!['n', 'u', 'l', 'l']
}

/// What a saved browser looks like on disk.
pub open spec fn render_config_spec(b: BrowserView) -> Seq<char> {
    seq!['{'] + key_browser() + seq![':'] + seq!['{'] + key_name() + seq![':']
        + render_string_spec(b.name) + seq![','] + key_path() + seq![':'] + render_string_spec(
        b.path,
    ) + seq![','] + key_version() + seq![':'] + (match b.version {
        Some(v) => render_string_spec(v),
        None => null_tok(),
    }) + seq!['}'] + seq!['}']
}

/// The version field: a quoted string, or `null` for "no version known".
pub open spec fn parse_version_part(s: Option<Seq<char>>) -> Option<
    (Option<Seq<char>>, Seq<char>),
> {
    match s {
        None => None,
        Some(t0) => {
            let t = skip_ws(t0);
            if t.len() > 0 && t[0] == '"' {
                match parse_string_body(t.drop_first()) {
                    Some(p) => Some((Some(p.0), p.1)),
                    None => None,
                }
            } else if t.len() >= 4 && t.take(4) == null_tok() {
                Some((None, t.skip(4)))
            } else {
                None
            }
        },
    }
}

/// What parsing a config file yields: the saved browser, exactly when the
/// text is the object `{"browser":{"name":...,"path":...,"version":...}}`
/// with nothing but whitespace around its tokens and after it.
pub open spec fn parse_config_spec(s: Seq<char>) -> Option<BrowserView> {
    let a = seq_tok(
        seq_tok(seq_tok(seq_tok(seq_tok(Some(s), seq!['{']), key_browser()), seq![':']), seq!['{']),
        key_name(),
    );
    match seq_quoted(seq_tok(a, seq![':'])) {
        None => None,
        Some(np) => match seq_quoted(
            seq_tok(seq_tok(seq_tok(Some(np.1), seq![',']), key_path()), seq![':']),
        ) {
            None => None,
            Some(pp) => match parse_version_part(
                seq_tok(seq_tok(seq_tok(Some(pp.1), seq![',']), key_version()), seq![':']),
            ) {
                None => None,
                Some(vp) => match seq_tok(seq_tok(Some(vp.1), seq!['}']), seq!['}']) {
                    None => None,
                    Some(r) => if skip_ws(r).len() == 0 {
                        Some(BrowserView { name: np.0, path: pp.0, version: vp.0 })
                    } else {
                        None
                    },
                },
            },
        },
    }
}

/// Serialize the full browser record, overwriting semantics are the
/// caller's; this is the exact text `save` puts in the file.
pub fn render_config(b: &Browser) -> (r: String)
    ensures
        r@ == render_config_spec(b@),
{
    let mut out = "{\"browser\":{\"name\":".to_owned();
    out.append(render_string(b.name.as_str()).as_str());
    out.append(",\"path\":");
    out.append(render_string(b.path.as_str()).as_str());
    out.append(",\"version\":");
    match &b.version {
        Some(v) => {
            out.append(render_string(v.as_str()).as_str());
        },
        None => {
            out.append("null");
        },
    }
    out.append("}}");
    proof {
        reveal_strlit("{\"browser\":{\"name\":");
        reveal_strlit(",\"path\":");
        reveal_strlit(",\"version\":");
        reveal_strlit("null");
        reveal_strlit("}}");
        assert(("{\"browser\":{\"name\":")@ =~= seq!['{'] + key_browser() + seq![':'] + seq!['{']
            + key_name() + seq![':']);
        assert((",\"path\":")@ =~= seq![','] + key_path() + seq![':']);
        assert((",\"version\":")@ =~= seq![','] + key_version() + seq![':']);
        assert(("null")@ =~= null_tok());
        assert(("}}")@ =~= seq!['}'] + seq!['}']);
        assert(out@ =~= render_config_spec(b@));
    }
    out
}

/// The version field, parsed from `pos`: `Some(version, next)` with
/// `version` absent for `null`.
fn parse_version_at(s: &str, pos: usize) -> (r: Option<(Option<String>, usize)>)
    requires
        pos <= s@.len(),
    ensures
        match r {
            Some(p) => p.1 <= s@.len() && parse_version_part(Some(s@.skip(pos as int))) == Some(
                (p.0.deep_view(), s@.skip(p.1 as int)),
            ),
            None => parse_version_part(Some(s@.skip(pos as int))) is None,
        },
{
    let n: usize = s.unicode_len();
    let p = skip_ws_at(s, pos);
    let ghost t = skip_ws(s@.skip(pos as int));
    if p < n && s.get_char(p) == '"' {
        assert(t[0] == '"');
        proof {
            assert(t.drop_first() =~= s@.skip(p as int + 1));
        }
        match parse_string_body_at(s, p + 1) {
            Some((v, q)) => Some((Some(v), q)),
            None => None,
        }
    } else {
        assert(p < n ==> t[0] == s@[p as int] && s@[p as int] != '"');
        if n - p >= 4 {
            if s.get_char(p) == 'n' && s.get_char(p + 1) == 'u' && s.get_char(p + 2) == 'l'
                && s.get_char(p + 3) == 'l' {
                proof {
                    assert(t.take(4) =~= null_tok());
                    assert(t.skip(4) =~= s@.skip(p as int + 4));
                }
                return Some((None, p + 4));
            }
            proof {
                if t.take(4) == null_tok() {
                    assert(t.take(4)[0] == 'n' && t.take(4)[1] == 'u' && t.take(4)[2] == 'l'
                        && t.take(4)[3] == 'l');
                    assert(s@[p as int] == 'n' && s@[p as int + 1] == 'u' && s@[p as int + 2] == 'l'
                        && s@[p as int + 3] == 'l');
                }
            }
            return None;
        }
        assert(t.len() < 4);
        None
    }
}

/// Parse a config file's text back into the saved browser; anything that
/// does not read as the object written by `render_config` yields nothing.
pub fn parse_config(s: &str) -> (r: Option<Browser>)
    ensures
        match r {
            Some(b) => parse_config_spec(s@) == Some(b@),
            None => parse_config_spec(s@) is None,
        },
{
    proof {
        reveal_strlit("{");
        reveal_strlit("}");
        reveal_strlit(":");
        reveal_strlit(",");
        reveal_strlit("\"browser\"");
        reveal_strlit("\"name\"");
        reveal_strlit("\"path\"");
        reveal_strlit("\"version\"");
        assert(("{")@ =~= seq!['{']);
        assert(("}")@ =~= seq!['}']);
        assert((":")@ =~= seq![':']);
        assert((",")@ =~= seq![',']);
        assert(("\"browser\"")@ =~= key_browser());
        assert(("\"name\"")@ =~= key_name());
        assert(("\"path\"")@ =~= key_path());
        assert(("\"version\"")@ =~= key_version());
        assert(s@.skip(0) =~= s@);
    }
    let p1 = match expect_tok_at(s, 0, "{") {
        Some(q) => q,
        None => {
            return None;
        },
    };
    let p2 = match expect_tok_at(s, p1, "\"browser\"") {
        Some(q) => q,
        None => {
            return None;
        },
    };
    let p3 = match expect_tok_at(s, p2, ":") {
        Some(q) => q,
        None => {
            return None;
        },
    };
    let p4 = match expect_tok_at(s, p3, "{") {
        Some(q) => q,
        None => {
            return None;
        },
    };
    let p5 = match expect_tok_at(s, p4, "\"name\"") {
        Some(q) => q,
        None => {
            return None;
        },
    };
    let p6 = match expect_tok_at(s, p5, ":") {
        Some(q) => q,
        None => {
            return None;
        },
    };
    let (name, p7) = match parse_quoted_at(s, p6) {
        Some(x) => x,
        None => {
            return None;
        },
    };
    let p8 = match expect_tok_at(s, p7, ",") {
        Some(q) => q,
        None => {
            return None;
        },
    };
    let p9 = match expect_tok_at(s, p8, "\"path\"") {
        Some(q) => q,
        None => {
            return None;
        },
    };
    let p10 = match expect_tok_at(s, p9, ":") {
        Some(q) => q,
        None => {
            return None;
        },
    };
    let (path, p11) = match parse_quoted_at(s, p10) {
        Some(x) => x,
        None => {
            return None;
        },
    };
    let p12 = match expect_tok_at(s, p11, ",") {
        Some(q) => q,
        None => {
            return None;
        },
    };
    let p13 = match expect_tok_at(s, p12, "\"version\"") {
        Some(q) => q,
        None => {
            return None;
        },
    };
    let p14 = match expect_tok_at(s, p13, ":") {
        Some(q) => q,
        None => {
            return None;
        },
    };
    let (version, p15) = match parse_version_at(s, p14) {
        Some(x) => x,
        None => {
            return None;
        },
    };
    let p16 = match expect_tok_at(s, p15, "}") {
        Some(q) => q,
        None => {
            return None;
        },
    };
    let p17 = match expect_tok_at(s, p16, "}") {
        Some(q) => q,
        None => {
            return None;
        },
    };
    let p18 = skip_ws_at(s, p17);
    let n: usize = s.unicode_len();
    if p18 != n {
        return None;
    }
    Some(Browser { name, path, version })
}

/// Saving then loading gives the browser back: parsing inverts rendering.
#[verifier::rlimit(100)]
pub proof fn lemma_config_round_trip(b: BrowserView)
    ensures
        parse_config_spec(render_config_spec(b)) == Some(b),
{
    let vpart = match b.version {
        Some(v) => render_string_spec(v),
        None => null_tok(),
    };
    let r17 = Seq::<char>::empty();
    let r16 = seq!['}'] + r17;
    let r15 = seq!['}'] + r16;
    let r14 = vpart + r15;
    let r13 = seq![':'] + r14;
    let r12 = key_version() + r13;
    let r11 = seq![','] + r12;
    let r10 = render_string_spec(b.path) + r11;
    let r9 = seq![':'] + r10;
    let r8 = key_path() + r9;
    let r7 = seq![','] + r8;
    let r6 = render_string_spec(b.name) + r7;
    let r5 = seq![':'] + r6;
    let r4 = key_name() + r5;
    let r3 = seq!['{'] + r4;
    let r2 = seq![':'] + r3;
    let r1 = key_browser() + r2;
    let r0 = seq!['{'] + r1;
    assert(render_config_spec(b) =~= r0);
    lemma_expect_exact(seq!['{'], r1);
    lemma_expect_exact(key_browser(), r2);
    lemma_expect_exact(seq![':'], r3);
    lemma_expect_exact(seq!['{'], r4);
    lemma_expect_exact(key_name(), r5);
    lemma_expect_exact(seq![':'], r6);
    assert(r6 =~= seq!['"'] + escape_string(b.name) + seq!['"'] + r7);
    lemma_quoted_exact(b.name, r7);
    lemma_expect_exact(seq![','], r8);
    lemma_expect_exact(key_path(), r9);
    lemma_expect_exact(seq![':'], r10);
    assert(r10 =~= seq!['"'] + escape_string(b.path) + seq!['"'] + r11);
    lemma_quoted_exact(b.path, r11);
    lemma_expect_exact(seq![','], r12);
    lemma_expect_exact(key_version(), r13);
    lemma_expect_exact(seq![':'], r14);
    match b.version {
        Some(v) => {
            assert(r14[0] == '"');
            assert(skip_ws(r14) == r14);
            assert(r14.drop_first() =~= escape_string(v) + seq!['"'] + r15);
            lemma_string_round_trip(v, r15);
            assert(parse_version_part(Some(r14)) == Some((Some(v), r15)));
        },
        None => {
            assert(r14[0] == 'n');
            assert(skip_ws(r14) == r14);
            assert(r14.take(4) =~= null_tok());
            assert(r14.skip(4) =~= r15);
            assert(parse_version_part(Some(r14)) == Some((None::<Seq<char>>, r15)));
        },
    }
    lemma_expect_exact(seq!['}'], r16);
    lemma_expect_exact(seq!['}'], r17);
    assert(skip_ws(r17).len() == 0);
    assert(parse_config_spec(r0) == Some(
        BrowserView { name: b.name, path: b.path, version: b.version },
    ));
    assert(BrowserView { name: b.name, path: b.path, version: b.version } == b);
}

/// Keep a loaded browser only while its path still exists; the caller
/// hands in what the disk answered.
pub fn keep_if_present(b: Browser, exists_on_disk: bool) -> (r: Option<Browser>)
    ensures
        r == if exists_on_disk {
            Some(b)
        } else {
            None::<Browser>
        },
{
    if exists_on_disk {
        Some(b)
    } else {
        None
    }
}

/// Load the saved browser from the config file's text, if any: the text
/// must parse, and the stored path must still exist on disk; a missing,
/// unparseable or stale record degrades to "no saved browser".
pub fn load_config(data: &Option<String>) -> (r: Option<Browser>)
    ensures
        match r {
            Some(b) => (data matches Some(d) && parse_config_spec(d@) == Some(b@)),
            None => true,
        },
        data is None ==> r is None,
        (data matches Some(d) && parse_config_spec(d@) is None) ==> r is None,
{
    match data {
        Some(d) => {
            match parse_config(d.as_str()) {
                Some(b) => {
                    let present = sys::path_exists(b.path.as_str());
                    keep_if_present(b, present)
                },
                None => None,
            }
        },
        None => None,
    }
}

/// Where the config file lives below the per-user configuration directory;
/// the working directory stands in when the platform names none.
pub open spec fn config_path_spec(base: Option<Seq<char>>) -> Seq<char> {
    match base {
        Some(d) => d + "/quick_tabs/browser_config.json"@,
        None => "./quick_tabs/browser_config.json"@,
    }
}

pub fn config_path_from(base: &Option<String>) -> (r: String)
    ensures
        r@ == config_path_spec(base.deep_view()),
{
    match base {
        Some(d) => crate::text::concat_str(d.as_str(), "/quick_tabs/browser_config.json"),
        None => "./quick_tabs/browser_config.json".to_owned(),
    }
}

/// The per-user config file path, from the platform's configuration
/// directory: the fixed layout for whatever base directory the platform
/// names, or its fallback.
pub fn app_config_path() -> (r: String)
    ensures
        exists|base: Option<Seq<char>>| r@ == config_path_spec(base),
{
    let base = sys::config_base_dir();
    let r = config_path_from(&base);
    proof {
        assert(r@ == config_path_spec(base.deep_view()));
    }
    r
}

} // verus!
