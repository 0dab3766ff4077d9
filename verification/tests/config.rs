use twitchchat::Config;

fn strings(items: &[&str]) -> Vec<String> {
    items.iter().map(|s| s.to_string()).collect()
}

fn sample() -> Config {
    Config::new(
        "token123".to_string(),
        "botname".to_string(),
        strings(&["alpha", "beta"]),
        strings(&["commands", "tags"]),
    )
}

#[test]
fn new_keeps_its_arguments() {
    let cfg = sample();
    assert_eq!(cfg.pass, "token123");
    assert_eq!(cfg.nick, "botname");
    assert_eq!(cfg.channels, strings(&["alpha", "beta"]));
    assert_eq!(cfg.perms, strings(&["commands", "tags"]));
}

#[test]
fn capability_line() {
    assert_eq!(sample().create_perm_string(), "CAP REQ :twitch.tv/commands twitch.tv/tags \r\n");
}

#[test]
fn capability_line_of_one() {
    let cfg = Config::new(String::new(), String::new(), Vec::new(), strings(&["membership"]));
    assert_eq!(cfg.create_perm_string(), "CAP REQ :twitch.tv/membership \r\n");
}

#[test]
fn capability_line_of_none() {
    let cfg = Config::new(String::new(), String::new(), Vec::new(), Vec::new());
    assert_eq!(cfg.create_perm_string(), "CAP REQ :\r\n");
}

#[test]
fn password_line() {
    assert_eq!(sample().create_pass_string(), "PASS oauth:token123\r\n");
}

#[test]
fn nickname_line() {
    assert_eq!(sample().create_nick_string(), "NICK botname\r\n");
}

#[test]
fn join_line() {
    assert_eq!(sample().create_join_string(), "JOIN #alpha,#beta,\r\n");
}

#[test]
fn join_line_of_one() {
    let cfg = Config::new(String::new(), String::new(), strings(&["solo"]), Vec::new());
    assert_eq!(cfg.create_join_string(), "JOIN #solo,\r\n");
}

#[test]
fn join_line_of_none() {
    let cfg = Config::new(String::new(), String::new(), Vec::new(), Vec::new());
    assert_eq!(cfg.create_join_string(), "JOIN \r\n");
}

#[test]
fn lines_of_empty_credentials() {
    let cfg = Config::new(String::new(), String::new(), Vec::new(), Vec::new());
    assert_eq!(cfg.create_pass_string(), "PASS oauth:\r\n");
    assert_eq!(cfg.create_nick_string(), "NICK \r\n");
}

#[test]
fn lines_keep_non_ascii_text() {
    let cfg = Config::new(
        "t\u{f6}ken".to_string(),
        "n\u{e4}me".to_string(),
        strings(&["caf\u{e9}"]),
        strings(&["t\u{e4}gs"]),
    );
    assert_eq!(cfg.create_pass_string(), "PASS oauth:t\u{f6}ken\r\n");
    assert_eq!(cfg.create_nick_string(), "NICK n\u{e4}me\r\n");
    assert_eq!(cfg.create_join_string(), "JOIN #caf\u{e9},\r\n");
    assert_eq!(cfg.create_perm_string(), "CAP REQ :twitch.tv/t\u{e4}gs \r\n");
}
