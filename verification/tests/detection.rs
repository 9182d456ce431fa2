use herdr_smart_nav::json::{parse_reply, Json};
use herdr_smart_nav::process::{identities, is_passthrough_with, is_vim, vim_re};
use herdr_smart_nav::text::base_name;

fn doc(text: &str) -> Json {
    parse_reply(text.as_bytes()).unwrap()
}

#[test]
fn detects_nvim_by_name() {
    assert!(is_vim(&doc(r#"{"name": "nvim"}"#)));
}

#[test]
fn detects_vim_by_argv_path() {
    assert!(is_vim(&doc(r#"{"name": "?", "argv0": "/usr/local/bin/nvim"}"#)));
    assert!(is_vim(&doc(r#"{"name": "?", "argv": ["vim", "file"]}"#)));
    assert!(is_vim(&doc(r#"{"name": "view"}"#)));
    assert!(is_vim(&doc(r#"{"name": "nvimdiff"}"#)));
}

#[test]
fn claude_version_name_is_not_vim() {
    let proc = doc(r#"{"name": "2.1.268", "argv0": "assistant", "argv": ["assistant"]}"#);
    assert!(!is_vim(&proc));
}

#[test]
fn shell_is_not_vim() {
    let proc = doc(r#"{"name": "node", "argv0": "node", "argv": ["node", "x.js"]}"#);
    assert!(!is_vim(&proc));
}

#[test]
fn passthrough_empty_pattern_is_off() {
    assert!(!is_passthrough_with(&doc(r#"{"name": "lazygit"}"#), ""));
}

#[test]
fn passthrough_regex_match() {
    let proc = doc(r#"{"name": "lazygit"}"#);
    assert!(is_passthrough_with(&proc, "^(lazygit|k9s)$"));
    assert!(!is_passthrough_with(&doc(r#"{"name": "nvim"}"#), "^(lazygit|k9s)$"));
}

#[test]
fn passthrough_bad_regex_is_safe() {
    assert!(!is_passthrough_with(&doc(r#"{"name": "lazygit"}"#), "(unclosed"));
}

#[test]
fn base_name_takes_last_component_in_lower_case() {
    assert_eq!(base_name("/usr/local/bin/NVIM"), "nvim");
    assert_eq!(base_name("C:\\Tools\\Vim.exe"), "vim.exe");
    assert_eq!(base_name("nvim"), "nvim");
    assert_eq!(base_name("dir/"), "");
    assert_eq!(base_name(""), "");
    assert_eq!(base_name("-zsh"), "-zsh");
}

#[test]
fn base_name_ignores_directories() {
    assert_eq!(base_name("/opt/x/Lazygit"), base_name("Lazygit"));
    assert_eq!(base_name("a\\b/c"), base_name("c"));
}

#[test]
fn identities_are_name_argv0_then_first_argument() {
    let proc = doc(r#"{"name": "Zsh", "argv0": "/bin/-zsh", "argv": ["/usr/bin/ZSH", "x"]}"#);
    assert_eq!(identities(&proc), vec!["zsh", "-zsh", "zsh"]);
    let partial = doc(r#"{"name": 3, "argv": [1, "vim"]}"#);
    assert!(identities(&partial).is_empty());
    assert!(identities(&doc(r#"{"argv": []}"#)).is_empty());
    assert!(identities(&doc(r#"["nvim"]"#)).is_empty());
}

#[test]
fn vim_pattern_variants() {
    assert!(vim_re().is_some());
    for name in ["vim", "nvim", "vi", "gvim", "vimdiff", "nvimdiff", "view", "gview", "lvim", "vimx"] {
        assert!(is_vim(&doc(&format!(r#"{{"name": "{name}"}}"#))), "{name}");
    }
    for name in ["vimrc", "nvim-qt", "neovide", "emacs", "", "xvim"] {
        assert!(!is_vim(&doc(&format!(r#"{{"name": "{name}"}}"#))), "{name}");
    }
}

#[test]
fn upper_case_and_paths_are_vim_too() {
    assert!(is_vim(&doc(r#"{"name": "?", "argv0": "C:\\Program Files\\NVIM"}"#)));
}

#[test]
fn passthrough_matches_any_identity() {
    let proc = doc(r#"{"name": "?", "argv0": "?", "argv": ["/usr/bin/k9s"]}"#);
    assert!(is_passthrough_with(&proc, "^(lazygit|k9s)$"));
    assert!(!is_passthrough_with(&proc, "^lazygit$"));
}
