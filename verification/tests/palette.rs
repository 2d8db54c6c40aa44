use imv_tui::commands::Command;
use imv_tui::palette::{filter_commands, filter_files, FuzzyMatcher};

fn strings(v: &[&str]) -> Vec<String> {
    v.iter().map(|s| s.to_string()).collect()
}

#[test]
fn empty_query_lists_visible_files_in_order() {
    let names = strings(&["a.png", "B.png", "c.png"]);
    let lower = strings(&["a.png", "b.png", "c.png"]);
    let mut m = FuzzyMatcher::new();
    let r = filter_files("", &names, &lower, &mut m, &vec![true, false, true]);
    assert_eq!(r, vec![(0, "a.png".to_string()), (2, "c.png".to_string())]);
}

#[test]
fn query_keeps_matching_visible_files() {
    let names = strings(&["vacation/Lake.png", "work/office.png", "vacation/lake2.png"]);
    let lower = strings(&["vacation/lake.png", "work/office.png", "vacation/lake2.png"]);
    let mut m = FuzzyMatcher::new();
    let r = filter_files("lake", &names, &lower, &mut m, &vec![true, true, true]);
    assert_eq!(r.len(), 2);
    assert!(r.iter().all(|(i, _)| *i == 0 || *i == 2));
    assert_eq!(r[0].1, names[r[0].0]);
    let hidden = filter_files("lake", &names, &lower, &mut m, &vec![false, true, true]);
    assert_eq!(hidden, vec![(2, "vacation/lake2.png".to_string())]);
    let none = filter_files("zzz", &names, &lower, &mut m, &vec![true, true, true]);
    assert!(none.is_empty());
}

#[test]
fn command_search() {
    let mut m = FuzzyMatcher::new();
    assert_eq!(filter_commands("", &mut m).len(), 58);
    let r = filter_commands("quit", &mut m);
    assert_eq!(r[0].cmd, Command::Quit);
    let z = filter_commands("zoom in", &mut m);
    assert!(z.iter().any(|p| p.cmd == Command::ZoomIn));
    assert!(filter_commands("qqqqqq", &mut m).is_empty());
}
