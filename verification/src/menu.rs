//! The interactive launcher's decisions: what each line typed at the main
//! menu or at the browser-preference prompt means, and which browser a
//! launch falls back to. The loop that prints menus and reads lines runs
//! outside; every rule it applies is here.

use vstd::prelude::*;
use vstd::string::StrSliceExecFns;

use crate::dedup::views_of;
use crate::text::lemma_take_until_range;
use crate::text::parse_usize;
use crate::text::parse_usize_spec;
use crate::text::strings_view;
use crate::text::take_until;
use crate::text::trim;
use crate::text::trim_spec;
use crate::Browser;

verus! {

/// One choice at the launcher's main menu.
#[derive(Debug, Clone, Copy, PartialEq, Eq, Structural)]
pub enum MenuAction {
    AddLink,
    ListLinks,
    OpenLinks,
    Redetect,
    ChoosePreferred,
    Quit,
    Unknown,
}

/// What a line typed at the main menu selects.
pub open spec fn menu_action_spec(input: Seq<char>) -> MenuAction {
    let t = trim_spec(input);
    if t == seq!['1'] {
        MenuAction::AddLink
    } else if t == seq!['2'] {
        MenuAction::ListLinks
    } else if t == seq!['3'] {
        MenuAction::OpenLinks
    } else if t == seq!['4'] {
        MenuAction::Redetect
    } else if t == seq!['5'] {
        MenuAction::ChoosePreferred
    } else if t == seq!['6'] {
        MenuAction::Quit
    } else {
        MenuAction::Unknown
    }
}

pub fn menu_action(input: &str) -> (r: MenuAction)
    ensures
        r == menu_action_spec(input@),
{
    let t = trim(input);
    let n: usize = t.as_str().unicode_len();
    if n != 1 {
        return MenuAction::Unknown;
    }
    let c = t.as_str().get_char(0);
    proof {
        assert(t@ =~= seq![c]);
    }
    if c == '1' {
        MenuAction::AddLink
    } else if c == '2' {
        MenuAction::ListLinks
    } else if c == '3' {
        MenuAction::OpenLinks
    } else if c == '4' {
        MenuAction::Redetect
    } else if c == '5' {
        MenuAction::ChoosePreferred
    } else if c == '6' {
        MenuAction::Quit
    } else {
        proof {
            assert(seq![c][0] == c);
        }
        MenuAction::Unknown
    }
}

/// One choice at the browser-preference prompt.
#[derive(Debug, Clone, Copy, PartialEq, Eq, Structural)]
pub enum PreferenceChoice {
    /// `m`: type a path by hand.
    ManualPath,
    /// `k`: keep the current preference.
    KeepCurrent,
    /// A 1-based index within range; the value is the 0-based index.
    Pick(usize),
    /// Anything else changes nothing.
    NoChange,
}

/// What a line typed at the preference prompt means against `count`
/// detected browsers.
pub open spec fn preference_choice_spec(input: Seq<char>, count: int) -> PreferenceChoice {
    let t = trim_spec(input);
    if t == seq!['m'] || t == seq!['M'] {
        PreferenceChoice::ManualPath
    } else if t == seq!['k'] || t == seq!['K'] {
        PreferenceChoice::KeepCurrent
    } else {
        match parse_usize_spec(t) {
            Some(v) => if 1 <= v && v <= count {
                PreferenceChoice::Pick((v - 1) as usize)
            } else {
                PreferenceChoice::NoChange
            },
            None => PreferenceChoice::NoChange,
        }
    }
}

pub fn preference_choice(input: &str, count: usize) -> (r: PreferenceChoice)
    ensures
        r == preference_choice_spec(input@, count as int),
{
    let t = trim(input);
    let n: usize = t.as_str().unicode_len();
    if n == 1 {
        let c = t.as_str().get_char(0);
        proof {
            assert(t@ =~= seq![c]);
        }
        if c == 'm' || c == 'M' {
            return PreferenceChoice::ManualPath;
        }
        if c == 'k' || c == 'K' {
            return PreferenceChoice::KeepCurrent;
        }
    }
    proof {
        if trim_spec(input@) == seq!['m'] || trim_spec(input@) == seq!['M'] || trim_spec(input@)
            == seq!['k'] || trim_spec(input@) == seq!['K'] {
            assert(trim_spec(input@).len() == 1);
            assert(t@[0] == 'm' || t@[0] == 'M' || t@[0] == 'k' || t@[0] == 'K');
        }
    }
    match parse_usize(t.as_str()) {
        Some(v) => {
            if 1 <= v && v <= count {
                PreferenceChoice::Pick(v - 1)
            } else {
                PreferenceChoice::NoChange
            }
        },
        None => PreferenceChoice::NoChange,
    }
}

/// A manually typed browser path counts once trimmed and not empty.
pub fn manual_preference(input: &str) -> (r: Option<String>)
    ensures
        match r {
            Some(p) => p@ == trim_spec(input@) && trim_spec(input@).len() > 0,
            None => trim_spec(input@).len() == 0,
        },
{
    let t = trim(input);
    if t.as_str().unicode_len() == 0 {
        None
    } else {
        Some(t)
    }
}

/// What the saved-links file holds: its lines, each trimmed, the empty
/// ones dropped.
pub open spec fn split_lines_spec(s: Seq<char>) -> Seq<Seq<char>>
    decreases s.len(),
{
    if s.len() == 0 {
        Seq::<Seq<char>>::empty()
    } else {
        let line = take_until(s, |c: char| c == '\n');
        let ll = if line.len() > s.len() {
            s.len() as int
        } else {
            line.len() as int
        };
        let t = trim_spec(line);
        let rest = if ll < s.len() {
            split_lines_spec(s.skip(ll + 1))
        } else {
            Seq::<Seq<char>>::empty()
        };
        if t.len() > 0 {
            seq![t] + rest
        } else {
            rest
        }
    }
}

/// The saved links in a file's text: one per line, trimmed, empty lines
/// skipped.
pub fn parse_link_lines(s: &str) -> (r: Vec<String>)
    ensures
        strings_view(r@) == split_lines_spec(s@),
{
    let n: usize = s.unicode_len();
    let mut out: Vec<String> = Vec::new();
    let mut i: usize = 0;
    proof {
        assert(s@.skip(0) =~= s@);
        assert(strings_view(out@) + split_lines_spec(s@) =~= split_lines_spec(s@));
    }
    while i < n
        invariant
            0 <= i <= n,
            n == s@.len(),
            strings_view(out@) + split_lines_spec(s@.skip(i as int)) == split_lines_spec(s@),
        decreases n - i,
    {
        let mut j: usize = i;
        while j < n && s.get_char(j) != '\n'
            invariant
                i <= j <= n,
                n == s@.len(),
                forall|k: int| i <= k < j ==> s@[k] != '\n',
            decreases n - j,
        {
            j = j + 1;
        }
        let ghost t0 = s@.skip(i as int);
        proof {
            lemma_take_until_range(t0, |c: char| c == '\n', j as int - i as int);
            assert(t0.subrange(0, j as int - i as int) =~= s@.subrange(i as int, j as int));
        }
        let line = s.substring_char(i, j);
        let tl = trim(line);
        let ghost pre_out = strings_view(out@);
        if tl.as_str().unicode_len() > 0 {
            out.push(tl);
            proof {
                assert(strings_view(out@) =~= pre_out.push(trim_spec(s@.subrange(
                    i as int,
                    j as int,
                ))));
            }
        }
        proof {
            if (j as int) < n as int {
                assert(t0.skip(j as int - i as int + 1) =~= s@.skip(j as int + 1));
                if trim_spec(s@.subrange(i as int, j as int)).len() > 0 {
                    assert(split_lines_spec(t0) == seq![
                        trim_spec(s@.subrange(i as int, j as int)),
                    ] + split_lines_spec(s@.skip(j as int + 1)));
                    assert(pre_out + split_lines_spec(t0) =~= strings_view(out@)
                        + split_lines_spec(s@.skip(j as int + 1)));
                } else {
                    assert(split_lines_spec(t0) == split_lines_spec(s@.skip(j as int + 1)));
                }
            } else {
                assert(j == n);
                if trim_spec(s@.subrange(i as int, j as int)).len() > 0 {
                    assert(split_lines_spec(t0) == seq![
                        trim_spec(s@.subrange(i as int, j as int)),
                    ] + Seq::<Seq<char>>::empty());
                    assert(pre_out + split_lines_spec(t0) =~= strings_view(out@));
                    assert(strings_view(out@) + split_lines_spec(s@.skip(n as int))
                        =~= strings_view(out@));
                } else {
                    assert(split_lines_spec(t0) =~= Seq::<Seq<char>>::empty());
                    assert(strings_view(out@) + split_lines_spec(s@.skip(n as int))
                        =~= strings_view(out@) + split_lines_spec(t0));
                }
            }
        }
        if j < n {
            i = j + 1;
        } else {
            i = n;
        }
    }
    proof {
        assert(s@.skip(n as int).len() == 0);
        assert(strings_view(out@) + split_lines_spec(s@.skip(n as int)) =~= strings_view(out@));
    }
    out
}

/// The first detected browser's path, if any browser was detected.
pub open spec fn first_path_spec(found: Seq<crate::BrowserView>) -> Option<Seq<char>> {
    if found.len() > 0 {
        Some(found[0].path)
    } else {
        None
    }
}

/// Which browser an "open links" command uses: the saved preference first,
/// then the one chosen this session, then the first detected; none means
/// nothing can be launched.
pub open spec fn pick_launch_spec(
    preferred: Option<Seq<char>>,
    chosen: Option<Seq<char>>,
    first_found: Option<Seq<char>>,
) -> Option<Seq<char>> {
    if preferred is Some {
        preferred
    } else if chosen is Some {
        chosen
    } else {
        first_found
    }
}

pub fn pick_launch_browser(
    preferred: &Option<String>,
    chosen: &Option<String>,
    found: &Vec<Browser>,
) -> (r: Option<String>)
    ensures
        r.deep_view() == pick_launch_spec(
            preferred.deep_view(),
            chosen.deep_view(),
            first_path_spec(views_of(found@)),
        ),
{
    match preferred {
        Some(p) => Some(p.clone()),
        None => match chosen {
            Some(c) => Some(c.clone()),
            None => {
                if found.len() > 0 {
                    Some(found[0].path.clone())
                } else {
                    None
                }
            },
        },
    }
}

} // verus!
