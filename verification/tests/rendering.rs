use rustfava_desktop::hostenv::choose_shell;
use rustfava_desktop::hostenv::passwd_shell_field;
use rustfava_desktop::hostenv::prepend_search_path;
use rustfava_desktop::render::decimal_string;
use rustfava_desktop::render::display_name;
use rustfava_desktop::render::tab_id_string;
use rustfava_desktop::render::url_string;

#[test]
fn decimal_renders_exact_values() {
    assert_eq!(decimal_string(0), "0");
    assert_eq!(decimal_string(7), "7");
    assert_eq!(decimal_string(10), "10");
    assert_eq!(decimal_string(42), "42");
    assert_eq!(decimal_string(9000), "9000");
    assert_eq!(decimal_string(65535), "65535");
    assert_eq!(decimal_string(4294967295), "4294967295");
}

#[test]
fn tab_id_renders_prefix_and_digits() {
    assert_eq!(tab_id_string(1), "tab_1");
    assert_eq!(tab_id_string(2), "tab_2");
    assert_eq!(tab_id_string(25), "tab_25");
}

#[test]
fn url_renders_loopback_and_port() {
    assert_eq!(url_string(1), "http://127.0.0.1:1");
    assert_eq!(url_string(9000), "http://127.0.0.1:9000");
    assert_eq!(url_string(65535), "http://127.0.0.1:65535");
}

#[test]
fn display_name_takes_final_component() {
    assert_eq!(display_name(&"/a/b.beancount".to_string()), "b.beancount");
    assert_eq!(display_name(&"/ledger.beancount".to_string()), "ledger.beancount");
    assert_eq!(display_name(&"relative/name.txt".to_string()), "name.txt");
    assert_eq!(display_name(&"bare-name".to_string()), "bare-name");
    assert_eq!(display_name(&"/ends/with/slash/".to_string()), "");
    assert_eq!(display_name(&"".to_string()), "");
}

#[test]
fn search_path_gets_sidecar_prefix() {
    let joined = prepend_search_path(&"/opt/sidecar".to_string(), &"/usr/bin:/bin".to_string());
    assert_eq!(joined, "/opt/sidecar:/usr/bin:/bin");
}

#[test]
fn shell_choice_prefers_login_then_env_then_fallback() {
    let login = Some("/bin/fish".to_string());
    let env = Some("/bin/zsh".to_string());
    let pick = choose_shell(login, env, "/bin/bash".to_string());
    assert_eq!(pick, "/bin/fish");

    let env = Some("/bin/zsh".to_string());
    let pick = choose_shell(None, env, "/bin/bash".to_string());
    assert_eq!(pick, "/bin/zsh");

    let pick = choose_shell(None, None, "/bin/bash".to_string());
    assert_eq!(pick, "/bin/bash");
}

#[test]
fn passwd_line_yields_shell_field() {
    let line = "user:x:1000:1000::/home/user:/bin/zsh".to_string();
    assert_eq!(passwd_shell_field(&line), Some("/bin/zsh".to_string()));
}

#[test]
fn passwd_line_with_empty_shell_yields_none() {
    let line = "user:x:1000:1000::/home/user:".to_string();
    assert_eq!(passwd_shell_field(&line), None);
}
