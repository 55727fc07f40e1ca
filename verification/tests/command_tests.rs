use shell_core::algebra::CommandExt;
use shell_core::command::{dispatch, Cd, Command, Echo, Exit, Invalid, Pwd, Type};
use shell_core::effect::{Effect, ShellEnv};
use shell_core::find_cmd_in_path;
use shell_core::resolver::split_path;

fn args(words: &[&str]) -> Vec<String> {
    words.iter().map(|w| w.to_string()).collect()
}

fn env_with(home: Option<&str>, cwd: &str, listings: &[&[&str]]) -> ShellEnv {
    ShellEnv {
        home: home.map(|h| h.to_string()),
        cwd: cwd.to_string(),
        listings: listings.iter().map(|d| args(d)).collect(),
    }
}

#[test]
fn test_split_path_at_every_colon() {
    assert_eq!(split_path("/bin:/usr/bin"), vec!["/bin", "/usr/bin"]);
    assert_eq!(split_path("abc"), vec!["abc"]);
    assert_eq!(split_path(""), vec![""]);
    assert_eq!(split_path("/bin::/usr/bin"), vec!["/bin", "", "/usr/bin"]);
    assert_eq!(split_path(":a:"), vec!["", "a", ""]);
}

#[test]
fn test_resolve_missing_command_is_none() {
    let listings = vec![
        args(&["/bin/ls", "/bin/cat"]),
        args(&["/usr/bin/env", "/usr/bin/awk"]),
    ];
    assert_eq!(find_cmd_in_path("missing_cmd_xyz", &listings), None);
}

#[test]
fn test_resolve_first_match_wins() {
    let listings = vec![
        args(&["/dirA/other", "/dirA/name"]),
        args(&["/dirB/name"]),
    ];
    assert_eq!(
        find_cmd_in_path("name", &listings),
        Some("/dirA/name".to_string())
    );
}

#[test]
fn test_resolve_needs_exact_name_after_separator() {
    let listings = vec![args(&["/bin/names", "/bin/xname", "name"])];
    assert_eq!(find_cmd_in_path("name", &listings), None);
    let listings = vec![args(&["/bin/name"])];
    assert_eq!(
        find_cmd_in_path("name", &listings),
        Some("/bin/name".to_string())
    );
}

#[test]
fn test_resolve_skips_empty_listings() {
    let listings = vec![args(&[]), args(&["/sbin/tool"])];
    assert_eq!(
        find_cmd_in_path("tool", &listings),
        Some("/sbin/tool".to_string())
    );
}

#[test]
fn test_registry_lookup_is_exact() {
    assert!(matches!(Command::from_name("cd"), Some(Command::Cd(_))));
    assert!(matches!(Command::from_name("exit"), Some(Command::Exit(_))));
    assert!(matches!(Command::from_name("echo"), Some(Command::Echo(_))));
    assert!(matches!(Command::from_name("pwd"), Some(Command::Pwd(_))));
    assert!(matches!(Command::from_name("type"), Some(Command::Type(_))));
    assert!(Command::from_name("CD").is_none());
    assert!(Command::from_name("ech").is_none());
    assert!(Command::from_name("").is_none());
}

#[test]
fn test_registry_names_round_trip() {
    for name in ["cd", "exit", "echo", "pwd", "type"] {
        assert_eq!(Command::from_name(name).unwrap().name(), name);
    }
}

#[test]
fn test_echo_joins_arguments() {
    let env = env_with(None, "/", &[]);
    let r = Echo.execute(&args(&["echo", "a", "b", "c"]), &env);
    assert_eq!(r, Effect::Print("a b c".to_string()));
}

#[test]
fn test_echo_without_arguments_is_silent() {
    let env = env_with(None, "/", &[]);
    assert_eq!(Echo.execute(&args(&["echo"]), &env), Effect::Silent);
}

#[test]
fn test_exit_terminates() {
    let env = env_with(None, "/", &[]);
    assert_eq!(Exit.execute(&args(&["exit"]), &env), Effect::Exit);
}

#[test]
fn test_pwd_prints_working_directory() {
    let env = env_with(None, "/home/user/src", &[]);
    assert_eq!(
        Pwd.execute(&args(&["pwd"]), &env),
        Effect::Print("/home/user/src".to_string())
    );
}

#[test]
fn test_type_reports_builtin() {
    let env = env_with(None, "/", &[]);
    let r = Type.execute(&args(&["type", "cd"]), &env);
    assert_eq!(r, Effect::Print("cd is a shell builtin".to_string()));
}

#[test]
fn test_type_reports_not_found() {
    let env = env_with(None, "/", &[&["/bin/ls"]]);
    let r = Type.execute(&args(&["type", "nonexistent_xyz"]), &env);
    assert_eq!(r, Effect::Print("nonexistent_xyz: not found".to_string()));
}

#[test]
fn test_type_reports_located_executable() {
    let env = env_with(None, "/", &[&["/usr/bin/ls"]]);
    let r = Type.execute(&args(&["type", "ls"]), &env);
    assert_eq!(r, Effect::Print("ls is /usr/bin/ls".to_string()));
}

#[test]
fn test_type_without_argument_reports_one_line() {
    let env = env_with(None, "/", &[]);
    let r = Type.execute(&args(&["type"]), &env);
    assert_eq!(r, Effect::Print("type: missing argument".to_string()));
}

#[test]
fn test_invalid_reports_location_or_not_found() {
    let env = env_with(None, "/", &[&["/bin/foo"]]);
    let r = Invalid.execute(&args(&["foo"]), &env);
    assert_eq!(r, Effect::Print("foo is /bin/foo".to_string()));
    let r = Invalid.execute(&args(&["bar"]), &env);
    assert_eq!(r, Effect::Print("bar: not found".to_string()));
}

#[test]
fn test_cd_requests_directory_change() {
    let env = env_with(None, "/", &[]);
    let r = Cd {}.execute(&args(&["cd", "/tmp"]), &env);
    assert_eq!(r, Effect::ChangeDir("/tmp".to_string()));
}

#[test]
fn test_cd_expands_tilde_with_home() {
    let env = env_with(Some("/home/user"), "/", &[]);
    let r = Cd {}.execute(&args(&["cd", "~/src"]), &env);
    assert_eq!(r, Effect::ChangeDir("/home/user/src".to_string()));
    let r = Cd {}.execute(&args(&["cd", "~"]), &env);
    assert_eq!(r, Effect::ChangeDir("/home/user".to_string()));
}

#[test]
fn test_cd_with_tilde_and_no_home_aborts() {
    let env = env_with(None, "/", &[]);
    let r = Cd {}.execute(&args(&["cd", "~/src"]), &env);
    assert_eq!(
        r,
        Effect::Abort("environment variable not found".to_string())
    );
}

#[test]
fn test_cd_without_argument_is_silent() {
    let env = env_with(None, "/", &[]);
    assert_eq!(Cd {}.execute(&args(&["cd"]), &env), Effect::Silent);
}

#[test]
fn test_cd_outcome_moves_to_existing_target() {
    let mut cwd = "/start".to_string();
    let msg = Cd::outcome("/tmp".to_string(), true, &mut cwd);
    assert_eq!(msg, None);
    assert_eq!(cwd, "/tmp");
}

#[test]
fn test_cd_outcome_missing_target_keeps_directory_and_reports() {
    let mut cwd = "/start".to_string();
    let msg = Cd::outcome("/no/such/dir".to_string(), false, &mut cwd);
    assert_eq!(
        msg,
        Some("cd: /no/such/dir: No such file or directory".to_string())
    );
    assert_eq!(cwd, "/start");
}

#[test]
fn test_dispatch_runs_builtins() {
    let env = env_with(None, "/here", &[]);
    assert_eq!(
        dispatch(&args(&["echo", "hi", "there"]), &env),
        Effect::Print("hi there".to_string())
    );
    assert_eq!(
        dispatch(&args(&["pwd"]), &env),
        Effect::Print("/here".to_string())
    );
    assert_eq!(dispatch(&args(&["exit"]), &env), Effect::Exit);
}

#[test]
fn test_dispatch_spawns_resolved_externals() {
    let env = env_with(None, "/", &[&["/opt/tools/runme"]]);
    assert_eq!(
        dispatch(&args(&["runme", "x", "y"]), &env),
        Effect::Spawn("/opt/tools/runme".to_string(), args(&["x", "y"]))
    );
    assert_eq!(
        dispatch(&args(&["runme"]), &env),
        Effect::Spawn("/opt/tools/runme".to_string(), Vec::new())
    );
}

#[test]
fn test_dispatch_reports_unknown_command() {
    let env = env_with(None, "/", &[&["/bin/ls"]]);
    assert_eq!(
        dispatch(&args(&["nope_xyz"]), &env),
        Effect::Print("nope_xyz: not found".to_string())
    );
}

#[test]
fn test_dispatch_of_no_tokens_is_silent() {
    let env = env_with(None, "/", &[]);
    assert_eq!(dispatch(&Vec::new(), &env), Effect::Silent);
}

#[test]
fn test_dispatch_prefers_builtin_over_path_entry() {
    let env = env_with(None, "/", &[&["/bin/echo"]]);
    assert_eq!(
        dispatch(&args(&["echo", "hi"]), &env),
        Effect::Print("hi".to_string())
    );
}
