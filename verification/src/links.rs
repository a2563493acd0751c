//! The link store: tagged URLs kept in insertion order, and the launch
//! rules — which private-browsing flag a browser family takes and what
//! arguments a launch passes.

use vstd::prelude::*;

use crate::text::basename;
use crate::text::basename_spec;
use crate::text::contains_ignore_case;
use crate::text::contains_nocase;
use crate::text::str_eq;
use crate::text::strings_view;

verus! {

/// A tagged URL.
#[derive(Debug)]
pub struct Link {
    pub tag: String,
    pub url: String,
}

impl View for Link {
    type V = (Seq<char>, Seq<char>);

    open spec fn view(&self) -> (Seq<char>, Seq<char>) {
        (self.tag@, self.url@)
    }
}

/// The views of a sequence of links.
pub open spec fn links_view(s: Seq<Link>) -> Seq<(Seq<char>, Seq<char>)> {
    s.map_values(|l: Link| l@)
}

/// `s` without any pair carrying `tag`.
pub open spec fn remove_tag(s: Seq<(Seq<char>, Seq<char>)>, tag: Seq<char>) -> Seq<
    (Seq<char>, Seq<char>),
>
    decreases s.len(),
{
    if s.len() == 0 {
        s
    } else if s.last().0 == tag {
        remove_tag(s.drop_last(), tag)
    } else {
        remove_tag(s.drop_last(), tag).push(s.last())
    }
}

/// The URL of the first pair carrying `tag`, if any.
pub open spec fn lookup_tag(s: Seq<(Seq<char>, Seq<char>)>, tag: Seq<char>) -> Option<Seq<char>>
    decreases s.len(),
{
    if s.len() == 0 {
        None
    } else if s[0].0 == tag {
        Some(s[0].1)
    } else {
        lookup_tag(s.drop_first(), tag)
    }
}

/// `s` with the first pair carrying `tag` taken out, if one is there.
pub open spec fn remove_first_tag(s: Seq<(Seq<char>, Seq<char>)>, tag: Seq<char>) -> Seq<
    (Seq<char>, Seq<char>),
>
    decreases s.len(),
{
    if s.len() == 0 {
        s
    } else if s[0].0 == tag {
        s.drop_first()
    } else {
        seq![s[0]] + remove_first_tag(s.drop_first(), tag)
    }
}

/// A match at the first occurrence pins `lookup_tag` down.
proof fn lemma_lookup_at(s: Seq<(Seq<char>, Seq<char>)>, tag: Seq<char>, i: int)
    requires
        0 <= i < s.len(),
        forall|k: int| 0 <= k < i ==> s[k].0 != tag,
        s[i].0 == tag,
    ensures
        lookup_tag(s, tag) == Some(s[i].1),
    decreases i,
{
    if i > 0 {
        lemma_lookup_at(s.drop_first(), tag, i - 1);
    }
}

proof fn lemma_lookup_none(s: Seq<(Seq<char>, Seq<char>)>, tag: Seq<char>)
    requires
        forall|k: int| 0 <= k < s.len() ==> s[k].0 != tag,
    ensures
        lookup_tag(s, tag) is None,
    decreases s.len(),
{
    if s.len() > 0 {
        lemma_lookup_none(s.drop_first(), tag);
    }
}

proof fn lemma_remove_first_at(s: Seq<(Seq<char>, Seq<char>)>, tag: Seq<char>, i: int)
    requires
        0 <= i < s.len(),
        forall|k: int| 0 <= k < i ==> s[k].0 != tag,
        s[i].0 == tag,
    ensures
        remove_first_tag(s, tag) == s.remove(i),
    decreases i,
{
    if i == 0 {
        assert(s.drop_first() =~= s.remove(0));
    } else {
        lemma_remove_first_at(s.drop_first(), tag, i - 1);
        assert(seq![s[0]] + s.drop_first().remove(i - 1) =~= s.remove(i));
    }
}

proof fn lemma_remove_first_absent(s: Seq<(Seq<char>, Seq<char>)>, tag: Seq<char>)
    requires
        forall|k: int| 0 <= k < s.len() ==> s[k].0 != tag,
    ensures
        remove_first_tag(s, tag) == s,
    decreases s.len(),
{
    if s.len() > 0 {
        lemma_remove_first_absent(s.drop_first(), tag);
        assert(seq![s[0]] + s.drop_first() =~= s);
    }
}

/// The saved links, in insertion order.
#[derive(Debug)]
pub struct LinkConfig {
    pub links: Vec<Link>,
}

impl View for LinkConfig {
    type V = Seq<(Seq<char>, Seq<char>)>;

    open spec fn view(&self) -> Seq<(Seq<char>, Seq<char>)> {
        links_view(self.links@)
    }
}

impl LinkConfig {
    /// An empty store.
    pub fn new() -> (r: LinkConfig)
        ensures
            r@ == Seq::<(Seq<char>, Seq<char>)>::empty(),
    {
        let r = LinkConfig { links: Vec::new() };
        proof {
            assert(r@ =~= Seq::<(Seq<char>, Seq<char>)>::empty());
        }
        r
    }

    /// Save a link under `tag`: any link already carrying the tag is
    /// replaced, and the new pair goes to the end.
    pub fn add_link(&mut self, tag: String, url: String)
        ensures
            final(self)@ == remove_tag(old(self)@, tag@).push((tag@, url@)),
    {
        let n: usize = self.links.len();
        let mut kept: Vec<Link> = Vec::new();
        let mut i: usize = 0;
        proof {
            assert(links_view(kept@) =~= remove_tag(links_view(self.links@.subrange(0, 0)), tag@));
        }
        while i < n
            invariant
                0 <= i <= n,
                n == self.links@.len(),
                links_view(kept@) == remove_tag(links_view(self.links@.subrange(0, i as int)), tag@),
            decreases n - i,
        {
            let ghost pre = links_view(self.links@.subrange(0, i as int));
            let ghost cur = links_view(self.links@.subrange(0, i as int + 1));
            proof {
                assert(cur.drop_last() =~= pre);
                assert(cur.last() == self.links@[i as int]@);
            }
            let l = &self.links[i];
            if !str_eq(l.tag.as_str(), tag.as_str()) {
                let ghost kpre = links_view(kept@);
                kept.push(Link { tag: l.tag.clone(), url: l.url.clone() });
                proof {
                    assert(links_view(kept@) =~= kpre.push(self.links@[i as int]@));
                }
            }
            i = i + 1;
        }
        proof {
            assert(self.links@.subrange(0, n as int) =~= self.links@);
        }
        let ghost whole = links_view(self.links@);
        kept.push(Link { tag, url });
        self.links = kept;
        proof {
            assert(links_view(self.links@) =~= remove_tag(whole, tag@).push((tag@, url@)));
        }
    }

    /// The URL saved under `tag`: the first matching link, as the store
    /// reads it.
    pub fn get_url(&self, tag: &str) -> (r: Option<String>)
        ensures
            r.deep_view() == lookup_tag(self@, tag@),
    {
        let n: usize = self.links.len();
        let mut i: usize = 0;
        while i < n
            invariant
                0 <= i <= n,
                n == self.links@.len(),
                forall|k: int| 0 <= k < i ==> links_view(self.links@)[k].0 != tag@,
            decreases n - i,
        {
            let l = &self.links[i];
            if str_eq(l.tag.as_str(), tag) {
                proof {
                    lemma_lookup_at(links_view(self.links@), tag@, i as int);
                }
                return Some(l.url.clone());
            }
            i = i + 1;
        }
        proof {
            lemma_lookup_none(links_view(self.links@), tag@);
        }
        None
    }

    /// Remove the first link saved under `tag`; whether one was there.
    pub fn remove_link(&mut self, tag: &str) -> (r: bool)
        ensures
            final(self)@ == remove_first_tag(old(self)@, tag@),
            r == (lookup_tag(old(self)@, tag@) is Some),
    {
        let n: usize = self.links.len();
        let mut i: usize = 0;
        while i < n
            invariant
                0 <= i <= n,
                n == self.links@.len(),
                self.links@ == old(self).links@,
                forall|k: int| 0 <= k < i ==> links_view(self.links@)[k].0 != tag@,
            decreases n - i,
        {
            let hit = str_eq(self.links[i].tag.as_str(), tag);
            if hit {
                proof {
                    lemma_lookup_at(links_view(self.links@), tag@, i as int);
                    lemma_remove_first_at(links_view(self.links@), tag@, i as int);
                }
                let ghost whole = links_view(self.links@);
                self.links.remove(i);
                proof {
                    assert(links_view(self.links@) =~= whole.remove(i as int));
                }
                return true;
            }
            i = i + 1;
        }
        proof {
            lemma_lookup_none(links_view(self.links@), tag@);
            lemma_remove_first_absent(links_view(self.links@), tag@);
        }
        false
    }

    /// Every saved URL, in order, for opening all links at once.
    pub fn collect_urls(&self) -> (r: Vec<String>)
        ensures
            strings_view(r@) == self@.map_values(|p: (Seq<char>, Seq<char>)| p.1),
    {
        let n: usize = self.links.len();
        let mut out: Vec<String> = Vec::new();
        let mut i: usize = 0;
        while i < n
            invariant
                0 <= i <= n,
                n == self.links@.len(),
                i == out@.len(),
                forall|k: int| 0 <= k < i ==> strings_view(out@)[k] == links_view(self.links@)[k].1,
            decreases n - i,
        {
            let ghost pre = strings_view(out@);
            out.push(self.links[i].url.clone());
            proof {
                assert(strings_view(out@) =~= pre.push(self.links@[i as int].url@));
            }
            i = i + 1;
        }
        proof {
            assert(strings_view(out@) =~= self@.map_values(|p: (Seq<char>, Seq<char>)| p.1));
        }
        out
    }
}

/// How a launch runs: plainly, or in the browser's private mode.
#[derive(Debug, Clone, Copy, PartialEq, Eq, Structural)]
pub enum LaunchMode {
    Normal,
    Private,
}

/// The private-mode flag for a browser, keyed by substrings of its
/// executable's file name: Firefox, Edge and the Chromium family each have
/// one; an unrecognized family gets none and launches normally.
pub open spec fn private_flags_spec(path: Seq<char>) -> Seq<Seq<char>> {
    let base = basename_spec(path);
    if contains_nocase(base, "firefox"@) {
        seq!["-private-window"@]
    } else if contains_nocase(base, "msedge"@) {
        seq!["--inprivate"@]
    } else if contains_nocase(base, "brave"@) || contains_nocase(base, "chrome"@)
        || contains_nocase(base, "chromium"@) || contains_nocase(base, "vivaldi"@) {
        seq!["--incognito"@]
    } else {
        Seq::<Seq<char>>::empty()
    }
}

/// The private-mode flags for the browser at `browser_path`.
pub fn get_private_flags(browser_path: &str) -> (r: Vec<String>)
    ensures
        strings_view(r@) == private_flags_spec(browser_path@),
{
    let base = basename(browser_path);
    let mut out: Vec<String> = Vec::new();
    if contains_ignore_case(base.as_str(), "firefox") {
        out.push("-private-window".to_owned());
    } else if contains_ignore_case(base.as_str(), "msedge") {
        out.push("--inprivate".to_owned());
    } else if contains_ignore_case(base.as_str(), "brave") || contains_ignore_case(
        base.as_str(),
        "chrome",
    ) || contains_ignore_case(base.as_str(), "chromium") || contains_ignore_case(
        base.as_str(),
        "vivaldi",
    ) {
        out.push("--incognito".to_owned());
    }
    proof {
        assert(strings_view(out@) =~= private_flags_spec(browser_path@));
    }
    out
}

/// What a launch passes to the browser: in private mode the family's
/// flags, then every URL; in normal mode the URLs alone.
pub open spec fn launch_args_spec(path: Seq<char>, urls: Seq<Seq<char>>, mode: LaunchMode) -> Seq<
    Seq<char>,
> {
    if mode is Private {
        private_flags_spec(path) + urls
    } else {
        urls
    }
}

/// The argument list for launching `urls` in the browser at
/// `browser_path`.
pub fn launch_args(browser_path: &str, urls: &Vec<String>, mode: LaunchMode) -> (r: Vec<String>)
    ensures
        strings_view(r@) == launch_args_spec(browser_path@, strings_view(urls@), mode),
{
    let mut out: Vec<String> = Vec::new();
    let ghost flag_part: Seq<Seq<char>>;
    match mode {
        LaunchMode::Private => {
            out = get_private_flags(browser_path);
            proof {
                flag_part = private_flags_spec(browser_path@);
            }
        },
        LaunchMode::Normal => {
            proof {
                flag_part = Seq::<Seq<char>>::empty();
            }
        },
    }
    proof {
        assert(strings_view(out@) =~= flag_part);
    }
    let n: usize = urls.len();
    let mut i: usize = 0;
    while i < n
        invariant
            0 <= i <= n,
            n == urls@.len(),
            out@.len() == flag_part.len() + i,
            strings_view(out@) == flag_part + strings_view(urls@.subrange(0, i as int)),
        decreases n - i,
    {
        let ghost pre = strings_view(out@);
        out.push(urls[i].clone());
        proof {
            assert(strings_view(out@) =~= pre.push(urls@[i as int]@));
            assert(flag_part + strings_view(urls@.subrange(0, i as int + 1)) =~= pre.push(
                urls@[i as int]@,
            ));
        }
        i = i + 1;
    }
    proof {
        assert(urls@.subrange(0, n as int) =~= urls@);
        assert(strings_view(out@) =~= launch_args_spec(browser_path@, strings_view(urls@), mode));
    }
    out
}

} // verus!
