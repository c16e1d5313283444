use quickchange::paths::expand_path;
use quickchange::paths::resolve_config_path;
use quickchange::paths::get_cargo_config_path;
use quickchange::paths::get_backup_dir;
use quickchange::paths::get_user_profile_path;
use quickchange::paths::get_linux_env_file;
use quickchange::paths::get_current_target;
use quickchange::paths::Os;
use quickchange::paths::Arch;
use quickchange::paths::Abi;

fn env(pairs: &[(&str, &str)]) -> Vec<(String, String)> {
    pairs.iter().map(|(k, v)| (k.to_string(), v.to_string())).collect()
}

#[test]
fn tilde_alone_resolves_to_home() {
    let e = env(&[]);
    assert_eq!(expand_path("~", "/home/u", &e, Os::Linux), "/home/u");
    assert_eq!(expand_path("  ~  ", "/home/u", &e, Os::Linux), "/home/u");
}

#[test]
fn tilde_prefix_joins_home() {
    let e = env(&[]);
    assert_eq!(expand_path("~/x/y", "/home/u", &e, Os::Linux), "/home/u/x/y");
    assert_eq!(expand_path("~\\x", "C:\\Users\\u", &e, Os::Windows), "C:\\Users\\u\\x");
}

#[test]
fn dollar_braced_reference_substituted() {
    let e = env(&[("MYDIR", "/opt/d")]);
    assert_eq!(expand_path("${MYDIR}/cfg", "/home/u", &e, Os::Linux), "/opt/d/cfg");
}

#[test]
fn dollar_bare_reference_substituted() {
    let e = env(&[("MYDIR", "/opt/d")]);
    assert_eq!(expand_path("$MYDIR/cfg", "/home/u", &e, Os::Linux), "/opt/d/cfg");
}

#[test]
fn unresolved_reference_left_verbatim() {
    let e = env(&[]);
    assert_eq!(expand_path("${NOPE}/cfg", "/home/u", &e, Os::Linux), "${NOPE}/cfg");
    assert_eq!(expand_path("$NOPE/cfg", "/home/u", &e, Os::Linux), "$NOPE/cfg");
    assert_eq!(expand_path("a$", "/home/u", &e, Os::Linux), "a$");
}

#[test]
fn percent_reference_substituted_and_unresolved_kept() {
    let e = env(&[("APPDATA", "C:\\AD")]);
    assert_eq!(expand_path("%APPDATA%\\f", "C:\\U", &e, Os::Windows), "C:\\AD\\f");
    assert_eq!(expand_path("%NOPE%\\f", "C:\\U", &e, Os::Windows), "%NOPE%\\f");
    assert_eq!(expand_path("%%", "C:\\U", &e, Os::Windows), "%");
    assert_eq!(expand_path("100%", "C:\\U", &e, Os::Windows), "100%");
}

#[test]
fn default_config_path_under_home() {
    assert_eq!(get_cargo_config_path("/home/u", Os::Linux), "/home/u/.cargo/config.toml");
    assert_eq!(
        get_cargo_config_path("C:\\Users\\u", Os::Windows),
        "C:\\Users\\u\\.cargo\\config.toml"
    );
}

#[test]
fn resolve_prefers_non_blank_override() {
    let e = env(&[]);
    assert_eq!(resolve_config_path(Some("/tmp/c.toml"), "/home/u", &e, Os::Linux), "/tmp/c.toml");
    assert_eq!(
        resolve_config_path(Some("   "), "/home/u", &e, Os::Linux),
        "/home/u/.cargo/config.toml"
    );
    assert_eq!(resolve_config_path(None, "/home/u", &e, Os::Linux), "/home/u/.cargo/config.toml");
}

#[test]
fn backup_dir_is_sibling_of_config() {
    let e = env(&[]);
    assert_eq!(
        get_backup_dir(None, "/home/u", &e, Os::Linux),
        "/home/u/.cargo/quickchange-backups"
    );
    assert_eq!(
        get_backup_dir(Some("/data/cfg/config.toml"), "/home/u", &e, Os::Linux),
        "/data/cfg/quickchange-backups"
    );
    assert_eq!(
        get_backup_dir(Some("bare.toml"), "/home/u", &e, Os::Linux),
        "./quickchange-backups"
    );
}

#[test]
fn user_profile_prefers_zprofile_on_mac() {
    assert_eq!(get_user_profile_path("/Users/u", Os::MacOs, true), "/Users/u/.zprofile");
    assert_eq!(get_user_profile_path("/Users/u", Os::MacOs, false), "/Users/u/.profile");
    assert_eq!(get_user_profile_path("/home/u", Os::Linux, true), "/home/u/.profile");
}

#[test]
fn linux_env_file_under_config_dir() {
    assert_eq!(get_linux_env_file("/home/u", Os::Linux), "/home/u/.config/quickchange/rustup.env");
}

#[test]
fn current_target_matrix() {
    assert_eq!(get_current_target(Os::Windows, Arch::X86_64, Abi::Msvc), "x86_64-pc-windows-msvc");
    assert_eq!(get_current_target(Os::Windows, Arch::X86_64, Abi::Gnu), "x86_64-pc-windows-gnu");
    assert_eq!(
        get_current_target(Os::Linux, Arch::X86_64, Abi::OtherAbi),
        "x86_64-unknown-linux-gnu"
    );
    assert_eq!(get_current_target(Os::MacOs, Arch::X86_64, Abi::OtherAbi), "x86_64-apple-darwin");
    assert_eq!(get_current_target(Os::MacOs, Arch::Aarch64, Abi::OtherAbi), "aarch64-apple-darwin");
    assert_eq!(get_current_target(Os::Linux, Arch::Aarch64, Abi::OtherAbi), "unknown");
}
