//! The selection policy: the zero/one/many flow, prompt interpretation,
//! and the manual-entry fallback.

use quick_tabs::config::load_config;
use quick_tabs::config::render_config;
use quick_tabs::dedup::dedup_by_path;
use quick_tabs::probe::with_version;
use quick_tabs::select::interpret_choice;
use quick_tabs::select::manual_select;
use quick_tabs::select::resolve_choice;
use quick_tabs::select::selection_action;
use quick_tabs::select::take_first;
use quick_tabs::select::ChoiceOutcome;
use quick_tabs::select::ChoiceResolution;
use quick_tabs::select::SelectionAction;
use quick_tabs::Browser;

fn browser(name: &str, path: &str) -> Browser {
    Browser { name: name.to_string(), path: path.to_string(), version: None }
}

#[test]
fn empty_candidates_go_to_manual_entry() {
    // No candidates: always manual entry, never the indexed choice.
    assert_eq!(selection_action(0), SelectionAction::ManualEntry);
}

#[test]
fn single_candidate_is_auto_selected() {
    assert_eq!(selection_action(1), SelectionAction::AutoSelect);
    let only = browser("Firefox", "/usr/bin/firefox");
    let picked = take_first(vec![only.clone()]);
    assert_eq!(picked, only);
}

#[test]
fn many_candidates_prompt() {
    assert_eq!(selection_action(2), SelectionAction::Interactive);
    assert_eq!(selection_action(17), SelectionAction::Interactive);
}

#[test]
fn numeric_choice_picks_one_based_index() {
    assert_eq!(interpret_choice("3", 5), ChoiceOutcome::Pick(2));
    assert_eq!(interpret_choice(" 2 ", 5), ChoiceOutcome::Pick(1));
    assert_eq!(interpret_choice("5", 5), ChoiceOutcome::Pick(4));
}

#[test]
fn out_of_range_or_unparseable_falls_back() {
    assert_eq!(interpret_choice("99", 5), ChoiceOutcome::Invalid);
    assert_eq!(interpret_choice("abc", 5), ChoiceOutcome::Invalid);
    assert_eq!(interpret_choice("0", 5), ChoiceOutcome::Invalid);
    assert_eq!(interpret_choice("", 5), ChoiceOutcome::Invalid);
    assert_eq!(interpret_choice("2x", 5), ChoiceOutcome::Invalid);
}

#[test]
fn manual_marker_in_either_case() {
    assert_eq!(interpret_choice("m", 4), ChoiceOutcome::Manual);
    assert_eq!(interpret_choice(" M ", 4), ChoiceOutcome::Manual);
    assert_eq!(interpret_choice("mm", 4), ChoiceOutcome::Invalid);
}

#[test]
fn third_of_three_is_returned() {
    let cands = vec![
        browser("A", "/bin/a"),
        browser("B", "/bin/b"),
        browser("C", "/bin/c"),
    ];
    match resolve_choice(cands, "3") {
        ChoiceResolution::Selected(b) => {
            assert_eq!(b.name, "C");
            assert_eq!(b.path, "/bin/c");
        },
        ChoiceResolution::ManualNeeded => panic!("expected the third candidate"),
    }
}

#[test]
fn bad_input_resolves_to_manual() {
    let cands = vec![browser("A", "/bin/a"), browser("B", "/bin/b")];
    assert!(matches!(resolve_choice(cands, "99"), ChoiceResolution::ManualNeeded));
    let cands = vec![browser("A", "/bin/a"), browser("B", "/bin/b")];
    assert!(matches!(resolve_choice(cands, "abc"), ChoiceResolution::ManualNeeded));
}

#[test]
fn manual_entry_accepts_existing_path() {
    let b = manual_select("/bin/sh").expect("an existing path is accepted");
    assert_eq!(b.name, "Custom Browser");
    assert_eq!(b.path, "/bin/sh");
    assert_eq!(b.version, None);
}

#[test]
fn manual_entry_trims_input() {
    let b = manual_select("  /bin/sh \n").unwrap();
    assert_eq!(b.path, "/bin/sh");
}

#[test]
fn manual_entry_rejects_missing_path() {
    assert!(manual_select("/no/such/browser/binary").is_none());
    assert!(manual_select("").is_none());
}

#[test]
fn empty_machine_scenario_ends_in_custom_browser() {
    // No hits from any probe: the merged list is empty, the policy demands
    // manual entry, the typed path exists, and the result is persisted and
    // loads back.
    let detected = dedup_by_path(Vec::new());
    assert!(detected.is_empty());
    assert_eq!(selection_action(detected.len()), SelectionAction::ManualEntry);

    let chosen = manual_select("/bin/sh").expect("manual entry with an existing path");
    let chosen = with_version(chosen, &None);
    assert_eq!(chosen.name, "Custom Browser");
    assert_eq!(chosen.path, "/bin/sh");
    assert_eq!(chosen.version, None);

    let saved = render_config(&chosen);
    let loaded = load_config(&Some(saved)).expect("persisted choice loads back");
    assert_eq!(loaded, chosen);
}
