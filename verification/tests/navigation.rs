use herdr_smart_nav::json::{parse_reply, Json};
use herdr_smart_nav::nav::{
    advance, begin, direction, focus_changed, invocation, pane_id, pane_workspace, Action, Dir,
    Nav, Phase,
};

const PROCS_NVIM: &str =
    r#"{"result":{"process_info":{"foreground_processes":[{"name":"nvim","argv0":"nvim"}]}}}"#;
const PROCS_SHELL: &str = r#"{"result":{"process_info":{"foreground_processes":[{"name":"zsh","argv0":"-zsh","argv":["zsh"]}]}}}"#;
const PROCS_CLAUDE: &str = r#"{"result":{"process_info":{"foreground_processes":[{"name":"2.1.268","argv0":"assistant","argv":["assistant"]}]}}}"#;
const FOCUS_MOVED: &str = r#"{"result":{"focus":{"changed":true}}}"#;
const FOCUS_EDGE: &str = r#"{"result":{"focus":{"changed":false,"reason":"no_neighbor"}}}"#;
const PANES_W9: &str =
    r#"{"result":{"panes":[{"pane_id":"w9:p1","workspace_id":"w9","tab_id":"w9:t1"}]}}"#;
const TABS_MID: &str = r#"{"result":{"tabs":[
  {"number":1,"tab_id":"w9:t1","focused":false},
  {"number":2,"tab_id":"w9:t2","focused":true},
  {"number":3,"tab_id":"w9:t3","focused":false}
]}}"#;
const TABS_LAST: &str = r#"{"result":{"tabs":[
  {"number":1,"tab_id":"w9:t1","focused":false},
  {"number":2,"tab_id":"w9:t2","focused":true}
]}}"#;
const SPACES_TWO: &str = r#"{"result":{"workspaces":[
  {"number":1,"workspace_id":"w9","focused":true},
  {"number":2,"workspace_id":"wB","focused":false}
]}}"#;
const SPACES_ONE: &str = r#"{"result":{"workspaces":[
  {"number":1,"workspace_id":"w9","focused":true}
]}}"#;

fn doc(text: &str) -> Json {
    parse_reply(text.as_bytes()).unwrap()
}

/// What a stub multiplexer answers: each command's canned reply, looked up
/// by its first two words; `fail_tab_focus` makes `tab focus` fail.
struct Stub<'a> {
    process_info: Option<&'a str>,
    focus: Option<&'a str>,
    pane_list: Option<&'a str>,
    tab_list: Option<&'a str>,
    workspace_list: Option<&'a str>,
    fail_tab_focus: bool,
}

impl<'a> Stub<'a> {
    fn new() -> Self {
        Stub {
            process_info: None,
            focus: None,
            pane_list: None,
            tab_list: None,
            workspace_list: None,
            fail_tab_focus: false,
        }
    }

    fn reply(&self, args: &[String]) -> Option<Json> {
        let canned = match (args[0].as_str(), args[1].as_str()) {
            ("pane", "process-info") => self.process_info,
            ("pane", "focus") => self.focus,
            ("pane", "list") => self.pane_list,
            ("tab", "list") => self.tab_list,
            ("workspace", "list") => self.workspace_list,
            ("tab", "focus") if self.fail_tab_focus => None,
            _ => Some("{}"),
        };
        canned.map(doc)
    }
}

/// Runs a navigation against the stub (the pane is `w9:p1`), returning the
/// exit status and the log of commands run, one per line, each logged as its
/// words with the `--direction` flag left out (`pane focus left --pane ..`).
fn run_nav(args: &[&str], stub: &Stub) -> (i32, String) {
    let args: Vec<String> = args.iter().map(|s| s.to_string()).collect();
    let Some((forward, dir)) = invocation(&args) else {
        return (2, String::new());
    };
    let pane = pane_id(Some("w9:p1".to_string()), None);
    let (mut nav, mut action) = begin(forward, dir, pane, String::new());
    let mut log = String::new();
    let mut calls = 0;
    while let Action::Herdr(command) = action {
        let logged: Vec<&str> = command
            .iter()
            .map(|w| w.as_str())
            .filter(|w| *w != "--direction")
            .collect();
        log.push_str(&logged.join(" "));
        log.push('\n');
        let reply = stub.reply(&command);
        let (next, then) = advance(nav, reply);
        nav = next;
        action = then;
        calls += 1;
        assert!(calls <= 8, "{log}");
    }
    assert!(matches!(nav.phase, Phase::Done));
    (0, log)
}

#[test]
fn vim_pane_forwards_key() {
    let stub = Stub { process_info: Some(PROCS_NVIM), pane_list: Some(PANES_W9), ..Stub::new() };
    let (code, log) = run_nav(&["left"], &stub);
    assert_eq!(code, 0);
    assert!(log.contains("send-keys w9:p1 ctrl+h"), "{log}");
    assert!(!log.contains("focus left"), "{log}");
}

#[test]
fn shell_pane_moves_focus() {
    let stub = Stub {
        process_info: Some(PROCS_SHELL),
        focus: Some(FOCUS_MOVED),
        pane_list: Some(PANES_W9),
        ..Stub::new()
    };
    let (code, log) = run_nav(&["left"], &stub);
    assert_eq!(code, 0);
    assert!(log.contains("focus left"), "{log}");
    assert!(!log.contains("tab list"), "{log}");
}

#[test]
fn pane_edge_moves_tab() {
    let stub = Stub {
        process_info: Some(PROCS_SHELL),
        focus: Some(FOCUS_EDGE),
        pane_list: Some(PANES_W9),
        tab_list: Some(TABS_MID),
        ..Stub::new()
    };
    let (code, log) = run_nav(&["right"], &stub);
    assert_eq!(code, 0);
    assert!(log.contains("tab focus w9:t3"), "{log}");
    assert!(log.contains("tab list --workspace w9"), "{log}");
    assert!(!log.contains("workspace list"), "{log}");
}

#[test]
fn tab_edge_moves_space() {
    let stub = Stub {
        process_info: Some(PROCS_SHELL),
        focus: Some(FOCUS_EDGE),
        pane_list: Some(PANES_W9),
        tab_list: Some(TABS_LAST),
        workspace_list: Some(SPACES_TWO),
        ..Stub::new()
    };
    let (code, log) = run_nav(&["right"], &stub);
    assert_eq!(code, 0);
    assert!(log.contains("workspace focus wB"), "{log}");
}

#[test]
fn tab_focus_failure_falls_to_space() {
    let stub = Stub {
        process_info: Some(PROCS_SHELL),
        focus: Some(FOCUS_EDGE),
        pane_list: Some(PANES_W9),
        tab_list: Some(TABS_MID),
        fail_tab_focus: true,
        workspace_list: Some(SPACES_TWO),
        ..Stub::new()
    };
    let (code, log) = run_nav(&["right"], &stub);
    assert_eq!(code, 0);
    assert!(log.contains("workspace focus wB"), "{log}");
}

#[test]
fn claude_version_name_moves_pane() {
    let stub = Stub {
        process_info: Some(PROCS_CLAUDE),
        focus: Some(FOCUS_MOVED),
        pane_list: Some(PANES_W9),
        ..Stub::new()
    };
    let (code, log) = run_nav(&["left"], &stub);
    assert_eq!(code, 0);
    assert!(log.contains("focus left"), "{log}");
    assert!(!log.contains("send-keys"), "{log}");
}

#[test]
fn cross_skips_vim_forward() {
    let stub = Stub {
        process_info: Some(PROCS_NVIM),
        focus: Some(FOCUS_MOVED),
        pane_list: Some(PANES_W9),
        ..Stub::new()
    };
    let (code, log) = run_nav(&["cross", "left"], &stub);
    assert_eq!(code, 0);
    assert!(!log.contains("send-keys"), "{log}");
    assert!(log.contains("focus left"), "{log}");
}

#[test]
fn single_space_stays_quiet() {
    let stub = Stub {
        process_info: Some(PROCS_SHELL),
        focus: Some(FOCUS_EDGE),
        pane_list: Some(PANES_W9),
        tab_list: Some(TABS_LAST),
        workspace_list: Some(SPACES_ONE),
        ..Stub::new()
    };
    let (code, log) = run_nav(&["right"], &stub);
    assert_eq!(code, 0);
    assert!(!log.contains("workspace focus"), "{log}");
}

#[test]
fn usage_error() {
    let (code, _) = run_nav(&[], &Stub::new());
    assert_eq!(code, 2);
    let (code, _) = run_nav(&["diagonal"], &Stub::new());
    assert_eq!(code, 2);
}

#[test]
fn focus_changed_parsing() {
    assert!(focus_changed(&doc(r#"{"result": {"focus": {"changed": true}}}"#)));
    assert!(!focus_changed(&doc(r#"{"result": {"focus": {"changed": false}}}"#)));
    assert!(focus_changed(&doc(r#"{"result": {"focus": {}}}"#)));
    assert!(focus_changed(&doc("{}")));
}

#[test]
fn direction_words() {
    assert_eq!(direction("left"), Some(("ctrl+h", -1)));
    assert_eq!(direction("down"), Some(("ctrl+j", 1)));
    assert_eq!(direction("up"), Some(("ctrl+k", -1)));
    assert_eq!(direction("right"), Some(("ctrl+l", 1)));
    assert_eq!(direction("Left"), None);
    assert_eq!(direction(""), None);
}

#[test]
fn invocation_forms() {
    let words = |ws: &[&str]| ws.iter().map(|s| s.to_string()).collect::<Vec<_>>();
    assert!(matches!(invocation(&words(&["up"])), Some((true, Dir::Up))));
    assert!(matches!(invocation(&words(&["cross", "down"])), Some((false, Dir::Down))));
    assert!(invocation(&words(&["cross"])).is_none());
    assert!(invocation(&words(&["cross", "cross"])).is_none());
    assert!(invocation(&words(&[])).is_none());
    assert!(matches!(invocation(&words(&["right", "extra"])), Some((true, Dir::Right))));
}

#[test]
fn pane_id_prefers_first_non_empty() {
    assert_eq!(pane_id(Some("a".into()), Some("b".into())), Some("a".to_string()));
    assert_eq!(pane_id(Some(String::new()), Some("b".into())), Some("b".to_string()));
    assert_eq!(pane_id(None, Some("b".into())), Some("b".to_string()));
    assert_eq!(pane_id(None, Some(String::new())), None);
    assert_eq!(pane_id(None, None), None);
}

#[test]
fn workspace_of_pane() {
    let pane = Some("w9:p1".to_string());
    assert_eq!(pane_workspace(&Some(doc(PANES_W9)), &pane), Some("w9".to_string()));
    assert_eq!(pane_workspace(&Some(doc(PANES_W9)), &Some("x".to_string())), None);
    assert_eq!(pane_workspace(&None, &pane), None);
    let current = doc(r#"{"result":{"pane":{"workspace_id":"w3"}}}"#);
    assert_eq!(pane_workspace(&Some(current), &None), Some("w3".to_string()));
    let two = doc(
        r#"{"result":{"panes":[{"pane_id":"p","workspace_id":"w1"},{"pane_id":"p","workspace_id":"w2"}]}}"#,
    );
    assert_eq!(pane_workspace(&Some(two), &Some("p".to_string())), Some("w1".to_string()));
}

#[test]
fn vertical_edge_skips_tabs() {
    let stub = Stub {
        process_info: Some(PROCS_SHELL),
        focus: Some(FOCUS_EDGE),
        pane_list: Some(PANES_W9),
        tab_list: Some(TABS_MID),
        workspace_list: Some(SPACES_TWO),
        ..Stub::new()
    };
    let (_, log) = run_nav(&["up"], &stub);
    assert!(!log.contains("tab list"), "{log}");
    assert!(log.contains("workspace focus wB"), "{log}");
}

#[test]
fn old_herdr_without_changed_counts_as_moved() {
    let stub = Stub {
        process_info: Some(PROCS_SHELL),
        focus: Some("{}"),
        tab_list: Some(TABS_MID),
        ..Stub::new()
    };
    let (_, log) = run_nav(&["right"], &stub);
    assert_eq!(log, "pane process-info --pane w9:p1\npane focus right --pane w9:p1\n");
}

#[test]
fn failed_probe_moves_across() {
    let stub = Stub { focus: Some(FOCUS_MOVED), ..Stub::new() };
    let (_, log) = run_nav(&["down"], &stub);
    assert_eq!(log, "pane process-info --pane w9:p1\npane focus down --pane w9:p1\n");
}

#[test]
fn unknown_pane_uses_current() {
    let (nav, action) = begin(true, Dir::Left, None, String::new());
    assert!(matches!(nav.phase, Phase::PaneFocus));
    match action {
        Action::Herdr(args) => assert_eq!(args, vec!["pane", "focus", "--direction", "left", "--current"]),
        Action::Finish => panic!("expected a command"),
    }
    let (nav, action) = advance(nav, Some(doc(FOCUS_EDGE)));
    assert!(matches!(nav.phase, Phase::PaneLookup));
    match action {
        Action::Herdr(args) => assert_eq!(args, vec!["pane", "current", "--current"]),
        Action::Finish => panic!("expected a command"),
    }
}

#[test]
fn passthrough_program_gets_the_key() {
    let procs = r#"{"result":{"process_info":{"foreground_processes":[{"name":"lazygit"}]}}}"#;
    let (nav, _) = begin(true, Dir::Right, Some("p".into()), "^(lazygit|k9s)$".into());
    let (nav, action) = advance(nav, Some(doc(procs)));
    assert!(matches!(nav.phase, Phase::SendKeys));
    match action {
        Action::Herdr(args) => assert_eq!(args, vec!["pane", "send-keys", "p", "ctrl+l"]),
        Action::Finish => panic!("expected a command"),
    }
    let (nav, action) = advance(nav, None);
    assert!(matches!(nav.phase, Phase::Done));
    assert!(matches!(action, Action::Finish));
    let done = Nav { phase: Phase::Done, ..nav };
    let (_, action) = advance(done, None);
    assert!(matches!(action, Action::Finish));
}
