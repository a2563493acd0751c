//! The detection report files: after a fresh detection the full candidate
//! list is rendered once as a JSON array of `{"name","path","version"}`
//! objects and once as plain `name = path` lines. Writing them to disk is
//! the caller's business and best-effort.

use vstd::prelude::*;
use vstd::string::StringExecFns;

use crate::config::key_name;
use crate::config::key_path;
use crate::config::key_version;
use crate::config::null_tok;
use crate::dedup::views_of;
use crate::json::render_string;
use crate::json::render_string_spec;
use crate::Browser;
use crate::BrowserView;

verus! {

/// One report entry: the browser as a JSON object.
pub open spec fn render_entry_spec(b: BrowserView) -> Seq<char> {
    seq!['{'] + key_name() + seq![':'] + render_string_spec(b.name) + seq![','] + key_path()
        + seq![':'] + render_string_spec(b.path) + seq![','] + key_version() + seq![':'] + (
    match b.version {
        Some(v) => render_string_spec(v),
        None => null_tok(),
    }) + seq!['}']
}

/// The entries joined with commas.
pub open spec fn entries_joined_spec(s: Seq<BrowserView>) -> Seq<char>
    decreases s.len(),
{
    if s.len() == 0 {
        Seq::<char>::empty()
    } else if s.len() == 1 {
        render_entry_spec(s[0])
    } else {
        entries_joined_spec(s.drop_last()) + seq![','] + render_entry_spec(s.last())
    }
}

/// The whole JSON report: the entries as one array.
pub open spec fn render_report_json_spec(s: Seq<BrowserView>) -> Seq<char> {
    seq!['['] + entries_joined_spec(s) + seq![']']
}

fn render_entry(b: &Browser) -> (r: String)
    ensures
        r@ == render_entry_spec(b@),
{
    let mut out = "{\"name\":".to_owned();
    out.append(render_string(b.name.as_str()).as_str());
    out.append(",\"path\":");
    out.append(render_string(b.path.as_str()).as_str());
    out.append(",\"version\":");
    match &b.version {
        Some(v) => {
            out.append(render_string(v.as_str()).as_str());
        },
        None => {
            out.append("null");
        },
    }
    out.append("}");
    proof {
        reveal_strlit("{\"name\":");
        reveal_strlit(",\"path\":");
        reveal_strlit(",\"version\":");
        reveal_strlit("null");
        reveal_strlit("}");
        assert(("{\"name\":")@ =~= seq!['{'] + key_name() + seq![':']);
        assert((",\"path\":")@ =~= seq![','] + key_path() + seq![':']);
        assert((",\"version\":")@ =~= seq![','] + key_version() + seq![':']);
        assert(("null")@ =~= null_tok());
        assert(("}")@ =~= seq!['}']);
        assert(out@ =~= render_entry_spec(b@));
    }
    out
}

/// Render the JSON report for a detection run's candidate list.
pub fn render_report_json(found: &Vec<Browser>) -> (r: String)
    ensures
        r@ == render_report_json_spec(views_of(found@)),
{
    let mut out = "[".to_owned();
    proof {
        reveal_strlit("[");
        reveal_strlit("]");
        reveal_strlit(",");
    }
    let n: usize = found.len();
    let mut i: usize = 0;
    proof {
        assert(views_of(found@.subrange(0, 0)) =~= Seq::<BrowserView>::empty());
        assert(out@ =~= seq!['['] + entries_joined_spec(views_of(found@.subrange(0, 0))));
    }
    while i < n
        invariant
            0 <= i <= n,
            n == found@.len(),
            out@ == seq!['['] + entries_joined_spec(views_of(found@.subrange(0, i as int))),
        decreases n - i,
    {
        let ghost pre = views_of(found@.subrange(0, i as int));
        let ghost cur = views_of(found@.subrange(0, i as int + 1));
        proof {
            assert(cur.drop_last() =~= pre);
            assert(cur.last() == found@[i as int]@);
        }
        if i > 0 {
            out.append(",");
        }
        out.append(render_entry(&found[i]).as_str());
        proof {
            reveal_strlit(",");
            assert((",")@ =~= seq![',']);
            if i == 0 {
                assert(cur.len() == 1);
                assert(cur[0] == found@[0]@);
                assert(out@ =~= seq!['['] + entries_joined_spec(cur));
            } else {
                assert(out@ =~= seq!['['] + entries_joined_spec(cur));
            }
        }
        i = i + 1;
    }
    out.append("]");
    proof {
        assert(views_of(found@.subrange(0, n as int)) =~= views_of(found@));
        assert(out@ =~= render_report_json_spec(views_of(found@)));
    }
    out
}

/// The plain-text report: one `name = path` line per entry.
pub open spec fn report_lines_spec(s: Seq<BrowserView>) -> Seq<char>
    decreases s.len(),
{
    if s.len() == 0 {
        Seq::<char>::empty()
    } else {
        report_lines_spec(s.drop_last()) + s.last().name + " = "@ + s.last().path + seq!['\n']
    }
}

/// Render the plain-text report for a detection run's candidate list.
pub fn render_report_text(found: &Vec<Browser>) -> (r: String)
    ensures
        r@ == report_lines_spec(views_of(found@)),
{
    let mut out = String::new();
    let n: usize = found.len();
    let mut i: usize = 0;
    proof {
        assert(views_of(found@.subrange(0, 0)) =~= Seq::<BrowserView>::empty());
        assert(out@ =~= report_lines_spec(views_of(found@.subrange(0, 0))));
    }
    while i < n
        invariant
            0 <= i <= n,
            n == found@.len(),
            out@ == report_lines_spec(views_of(found@.subrange(0, i as int))),
        decreases n - i,
    {
        let ghost pre = views_of(found@.subrange(0, i as int));
        let ghost cur = views_of(found@.subrange(0, i as int + 1));
        proof {
            assert(cur.drop_last() =~= pre);
            assert(cur.last() == found@[i as int]@);
        }
        out.append(found[i].name.as_str());
        out.append(" = ");
        out.append(found[i].path.as_str());
        out.append("\n");
        proof {
            reveal_strlit("\n");
            assert(("\n")@ =~= seq!['\n']);
            assert(out@ =~= report_lines_spec(cur));
        }
        i = i + 1;
    }
    proof {
        assert(views_of(found@.subrange(0, n as int)) =~= views_of(found@));
    }
    out
}

} // verus!
