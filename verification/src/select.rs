//! The selection policy: what happens for zero, one, or many candidates,
//! how one line of user input is interpreted, and how a manually entered
//! path becomes a browser record.
//!
//! Reading the input line itself is the caller's business; every decision
//! about what the line means is made here.

use vstd::prelude::*;
use vstd::string::StrSliceExecFns;

use crate::sys;
use crate::text::parse_usize;
use crate::text::parse_usize_spec;
use crate::text::trim;
use crate::text::trim_spec;
use crate::Browser;

verus! {

/// What the policy does for a given number of deduplicated candidates.
#[derive(Debug, Clone, Copy, PartialEq, Eq, Structural)]
pub enum SelectionAction {
    ManualEntry,
    AutoSelect,
    Interactive,
}

/// Zero candidates fall through to manual entry, exactly one is taken
/// without a prompt, and two or more are offered as an enumerated choice.
pub open spec fn selection_action_spec(count: int) -> SelectionAction {
    if count == 0 {
        SelectionAction::ManualEntry
    } else if count == 1 {
        SelectionAction::AutoSelect
    } else {
        SelectionAction::Interactive
    }
}

/// Decide the flow from the number of candidates.
pub fn selection_action(count: usize) -> (r: SelectionAction)
    ensures
        r == selection_action_spec(count as int),
{
    if count == 0 {
        SelectionAction::ManualEntry
    } else if count == 1 {
        SelectionAction::AutoSelect
    } else {
        SelectionAction::Interactive
    }
}

/// The single candidate, taken from the front as the auto-selection.
pub fn take_first(candidates: Vec<Browser>) -> (r: Browser)
    requires
        candidates@.len() >= 1,
    ensures
        r == candidates@[0],
{
    let mut v = candidates;
    v.remove(0)
}

/// How one line of input at the interactive prompt reads.
#[derive(Debug, Clone, Copy, PartialEq, Eq, Structural)]
pub enum ChoiceOutcome {
    /// The manual-entry marker, `m` in either case.
    Manual,
    /// A 1-based index within range; the value is the 0-based index.
    Pick(usize),
    /// Unparseable or out of range; reported and re-routed to manual entry.
    Invalid,
}

/// The case-insensitive manual-entry marker.
pub open spec fn is_manual_marker(t: Seq<char>) -> bool {
    t == seq!['m'] || t == seq!['M']
}

/// What a line of input means against `count` candidates: the marker asks
/// for manual entry; a 1-based in-range number picks that candidate;
/// everything else is invalid.
pub open spec fn interpret_choice_spec(input: Seq<char>, count: int) -> ChoiceOutcome {
    let t = trim_spec(input);
    if is_manual_marker(t) {
        ChoiceOutcome::Manual
    } else {
        match parse_usize_spec(t) {
            Some(v) => if 1 <= v && v <= count {
                ChoiceOutcome::Pick((v - 1) as usize)
            } else {
                ChoiceOutcome::Invalid
            },
            None => ChoiceOutcome::Invalid,
        }
    }
}

/// Interpret one line of input at the interactive prompt.
pub fn interpret_choice(input: &str, count: usize) -> (r: ChoiceOutcome)
    ensures
        r == interpret_choice_spec(input@, count as int),
{
    let t = trim(input);
    let tn: usize = t.as_str().unicode_len();
    if tn == 1 {
        let c = t.as_str().get_char(0);
        if c == 'm' || c == 'M' {
            proof {
                if c == 'm' {
                    assert(t@ =~= seq!['m']);
                } else {
                    assert(t@ =~= seq!['M']);
                }
            }
            return ChoiceOutcome::Manual;
        }
    }
    proof {
        if is_manual_marker(t@) {
            assert(t@.len() == 1);
            assert(t@[0] == 'm' || t@[0] == 'M');
        }
    }
    match parse_usize(t.as_str()) {
        Some(v) => {
            if 1 <= v && v <= count {
                ChoiceOutcome::Pick(v - 1)
            } else {
                ChoiceOutcome::Invalid
            }
        },
        None => ChoiceOutcome::Invalid,
    }
}

/// What resolving the prompt line against the candidate list produced.
#[derive(Debug)]
pub enum ChoiceResolution {
    /// The candidate the input picked.
    Selected(Browser),
    /// The input asked for, or fell back to, manual entry.
    ManualNeeded,
}

/// Resolve one line of prompt input against the candidates: an in-range
/// 1-based number yields that candidate; the marker and anything invalid
/// hand over to manual entry.
pub fn resolve_choice(candidates: Vec<Browser>, input: &str) -> (r: ChoiceResolution)
    ensures
        match interpret_choice_spec(input@, candidates@.len() as int) {
            ChoiceOutcome::Pick(i) => (r matches ChoiceResolution::Selected(b) && b
                == candidates@[i as int]),
            ChoiceOutcome::Manual => r is ManualNeeded,
            ChoiceOutcome::Invalid => r is ManualNeeded,
        },
{
    let count = candidates.len();
    match interpret_choice(input, count) {
        ChoiceOutcome::Pick(i) => {
            let mut v = candidates;
            let b = v.remove(i);
            ChoiceResolution::Selected(b)
        },
        ChoiceOutcome::Manual => ChoiceResolution::ManualNeeded,
        ChoiceOutcome::Invalid => ChoiceResolution::ManualNeeded,
    }
}

/// The name every manually entered browser gets.
pub open spec fn custom_name() -> Seq<char> {
    seq!['C', 'u', 's', 't', 'o', 'm', ' ', 'B', 'r', 'o', 'w', 's', 'e', 'r']
}

/// What manual entry produces once the disk has answered: the trimmed path
/// as a custom browser when it exists, nothing when it does not.
pub open spec fn manual_outcome_spec(path: Seq<char>, exists_on_disk: bool) -> Option<
    crate::BrowserView,
> {
    if exists_on_disk {
        Some(
            crate::BrowserView { name: custom_name(), path: path, version: None },
        )
    } else {
        None
    }
}

/// Turn the answer of the existence probe into the manual-entry outcome.
pub fn manual_entry_outcome(path: String, exists_on_disk: bool) -> (r: Option<Browser>)
    ensures
        match r {
            Some(b) => manual_outcome_spec(path@, exists_on_disk) == Some(b@),
            None => manual_outcome_spec(path@, exists_on_disk) is None,
        },
{
    if exists_on_disk {
        let name = "Custom Browser".to_owned();
        proof {
            reveal_strlit("Custom Browser");
            assert(name@ =~= custom_name());
        }
        Some(Browser { name, path, version: None })
    } else {
        None
    }
}

/// Manual entry: trim the typed path and accept it as a custom browser
/// exactly when something exists on disk at that path.
pub fn manual_select(input: &str) -> (r: Option<Browser>)
    ensures
        match r {
            Some(b) => b@.name == custom_name() && b@.path == trim_spec(input@) && b@.version
                is None,
            None => true,
        },
{
    let path = trim(input);
    let exists_on_disk = sys::path_exists(path.as_str());
    manual_entry_outcome(path, exists_on_disk)
}

} // verus!
