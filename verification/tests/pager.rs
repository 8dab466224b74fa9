use perf_rs::pager::{choose_pager, pager_candidates, Pager};
use std::io::IsTerminal;

#[test]
fn test_pager_new_creates_configuration() {
    let pager = Pager::with_settings(Some("/usr/bin/less".to_string()), false);
    assert!(pager.pager_cmd().is_some(), "new() should detect and set pager_cmd");
}

#[test]
fn test_pager_new_detects_tty() {
    let expected = std::io::stdout().is_terminal();
    let pager = Pager::with_settings(None, expected);
    assert_eq!(pager.is_tty(), expected, "is_tty should match actual terminal status");
}

#[test]
fn test_pager_is_tty_method() {
    let expected = std::io::stdout().is_terminal();
    let pager = Pager::with_settings(Some("/usr/bin/less".to_string()), expected);
    assert_eq!(pager.is_tty(), expected, "is_tty() should return actual terminal status");
}

#[test]
fn test_pager_should_not_use_pager_when_not_tty() {
    let pager = Pager::with_settings(Some("/usr/bin/less".to_string()), false);
    assert!(!pager.should_use_pager(), "should_use_pager() should return false when not TTY");
}

#[test]
fn test_pager_should_not_use_pager_when_no_pager_available() {
    let pager = Pager::with_settings(None, true);
    assert!(!pager.should_use_pager());
}

#[test]
fn test_pager_default() {
    let pager = Pager::with_settings(Some("/usr/bin/less".to_string()), true);
    assert!(pager.pager_cmd().is_some() || !pager.is_tty());
}

#[test]
fn test_pager_pager_cmd_accessor() {
    let pager = Pager::with_settings(Some("/usr/bin/less".to_string()), true);
    assert_eq!(pager.pager_cmd(), Some(&"/usr/bin/less".to_string()));
}

#[test]
fn test_pager_pager_cmd_accessor_none() {
    let pager = Pager::with_settings(None, false);
    assert!(pager.pager_cmd().is_none());
}

#[test]
fn pager_used_on_tty_with_pager() {
    assert!(Pager::with_settings(Some("/bin/cat".to_string()), true).should_use_pager());
}

#[test]
fn less_gets_its_flags() {
    let less = Pager::with_settings(Some("/usr/bin/less".to_string()), true);
    assert_eq!(less.pager_args(), vec!["-X", "-R"]);
    let more = Pager::with_settings(Some("/usr/bin/more".to_string()), true);
    assert!(more.pager_args().is_empty());
}

#[test]
fn pager_candidates_and_choice() {
    assert_eq!(pager_candidates(Some("most")), vec!["most", "less", "more", "most"]);
    assert_eq!(pager_candidates(Some("")), vec!["less", "more", "most"]);
    assert_eq!(pager_candidates(None), vec!["less", "more", "most"]);
    let lookups = vec![None, Some("  \n".to_string()), Some("/usr/bin/more\n".to_string())];
    assert_eq!(choose_pager(&lookups), Some("/usr/bin/more".to_string()));
    assert_eq!(choose_pager(&[None, None]), None);
}

#[test]
fn pager_search_order() {
    let candidates = pager_candidates(Some("bat"));
    assert_eq!(candidates, vec!["bat", "less", "more", "most"]);
    let lookups = vec![None, Some("  \n".to_string()), Some("/usr/bin/more\n".to_string()), None];
    assert_eq!(choose_pager(&lookups), Some("/usr/bin/more".to_string()));
    let lookups = vec![Some("/usr/bin/bat\n".to_string()), Some("/usr/bin/less\n".to_string())];
    assert_eq!(choose_pager(&lookups), Some("/usr/bin/bat".to_string()));
    assert_eq!(pager_candidates(Some("")), vec!["less", "more", "most"]);
}
