use quickchange::envtext::parse_env_value_from_lines;
use quickchange::envtext::strip_wrapping_quotes;
use quickchange::envtext::build_export_lines;
use quickchange::envtext::env_file_content;
use quickchange::status::get_rustup_env_status;
use quickchange::status::get_rustup_env_effective;
use quickchange::status::normalize_env_value;
use quickchange::status::plan_env_write;
use quickchange::status::compose_write_result;
use quickchange::status::compose_bulk_write_result;
use quickchange::status::write_applied;
use quickchange::status::PersistedReads;
use quickchange::status::EnvSnapshot;
use quickchange::status::EnvWriteBulk;
use quickchange::admin::get_admin_status;
use quickchange::paths::Os;
use quickchange::winenv::decode_powershell_output;
use quickchange::winenv::looks_like_utf16_le;
use quickchange::winenv::build_snapshot_script;
use quickchange::winenv::build_write_user_script;
use quickchange::winenv::build_write_all_script;

fn cv(s: &str) -> Vec<char> {
    s.chars().collect()
}

fn sv(v: &[char]) -> String {
    v.iter().collect()
}

fn profiles(
    user_dist: Result<Option<String>, String>,
    system_dist: Result<Option<String>, String>,
    user_root: Result<Option<String>, String>,
    system_root: Result<Option<String>, String>,
) -> PersistedReads {
    PersistedReads::Profiles { user_dist, system_dist, user_root, system_root }
}

#[test]
fn parse_env_lines_finds_first_assignment() {
    let text = "# comment\n\nexport RUSTUP_DIST_SERVER=\"https://a\"\nRUSTUP_DIST_SERVER=second\n";
    let v = parse_env_value_from_lines(&cv(text), &cv("RUSTUP_DIST_SERVER")).unwrap();
    assert_eq!(sv(&v), "https://a");
    assert!(parse_env_value_from_lines(&cv(text), &cv("OTHER")).is_none());
}

#[test]
fn parse_env_lines_handles_plain_and_single_quoted() {
    let v = parse_env_value_from_lines(&cv("RUSTUP_UPDATE_ROOT='https://b'"), &cv("RUSTUP_UPDATE_ROOT"));
    assert_eq!(sv(&v.unwrap()), "https://b");
    let w = parse_env_value_from_lines(&cv("RUSTUP_UPDATE_ROOT=bare"), &cv("RUSTUP_UPDATE_ROOT"));
    assert_eq!(sv(&w.unwrap()), "bare");
}

#[test]
fn strip_quotes_only_when_both_ends_match() {
    assert_eq!(sv(&strip_wrapping_quotes(&cv("  \"x\"  "))), "x");
    assert_eq!(sv(&strip_wrapping_quotes(&cv("'x'"))), "x");
    assert_eq!(sv(&strip_wrapping_quotes(&cv("\"x'"))), "\"x'");
    assert_eq!(sv(&strip_wrapping_quotes(&cv("\""))), "\"");
}

#[test]
fn export_lines_escape_values() {
    let r = build_export_lines(Some(&cv("a\\b\"c")), None);
    assert_eq!(sv(&r), "export RUSTUP_DIST_SERVER=\"a\\\\b\\\"c\"");
    let both = build_export_lines(Some(&cv("D")), Some(&cv("R")));
    assert_eq!(
        sv(&both),
        "export RUSTUP_DIST_SERVER=\"D\"\nexport RUSTUP_UPDATE_ROOT=\"R\""
    );
    assert_eq!(sv(&build_export_lines(None, None)), "");
}

#[test]
fn env_file_content_has_banner_and_clears_to_none() {
    assert!(env_file_content(None, None).is_none());
    let c = env_file_content(None, Some(&cv("R"))).unwrap();
    assert_eq!(c, "# Managed by QuickChangeRustInfo\nexport RUSTUP_UPDATE_ROOT=\"R\"\n");
}

#[test]
fn scope_precedence_user_wins() {
    let status = get_rustup_env_status(
        profiles(Ok(Some("A".to_string())), Ok(Some("B".to_string())), Ok(None), Ok(None)),
        None,
        None,
    );
    let (dist, root) = get_rustup_env_effective(status);
    assert_eq!(dist, Some("A".to_string()));
    assert_eq!(root, None);
}

#[test]
fn scope_precedence_system_fills_empty_user() {
    let status = get_rustup_env_status(
        profiles(Ok(None), Ok(Some("B".to_string())), Ok(None), Ok(None)),
        None,
        None,
    );
    let (dist, _) = get_rustup_env_effective(status);
    assert_eq!(dist, Some("B".to_string()));
}

#[test]
fn session_value_fills_user_scope_tagged_session() {
    let status = get_rustup_env_status(
        profiles(Ok(None), Ok(None), Ok(None), Ok(None)),
        Some("C".to_string()),
        None,
    );
    assert_eq!(status.dist.user.value, Some("C".to_string()));
    assert_eq!(status.dist.user.source, Some("session".to_string()));
    assert_eq!(status.root.user.value, None);
}

#[test]
fn persisted_value_wins_over_session() {
    let status = get_rustup_env_status(
        profiles(Ok(Some("P".to_string())), Ok(None), Ok(None), Ok(None)),
        Some("C".to_string()),
        None,
    );
    assert_eq!(status.dist.user.value, Some("P".to_string()));
    assert_eq!(status.dist.user.source, Some("managed".to_string()));
}

#[test]
fn registry_snapshot_normalizes_and_tags() {
    let status = get_rustup_env_status(
        PersistedReads::Registry(Ok(EnvSnapshot {
            user_dist: Some("  https://a  ".to_string()),
            user_root: Some("   ".to_string()),
            system_dist: None,
            system_root: Some("https://r".to_string()),
        })),
        None,
        None,
    );
    assert_eq!(status.dist.user.value, Some("https://a".to_string()));
    assert_eq!(status.dist.user.source, Some("registry".to_string()));
    assert_eq!(status.root.user.value, None);
    assert_eq!(status.root.system.value, Some("https://r".to_string()));
}

#[test]
fn registry_failure_reports_error_on_every_scope() {
    let status = get_rustup_env_status(
        PersistedReads::Registry(Err("boom".to_string())),
        None,
        None,
    );
    assert_eq!(status.dist.user.error, Some("boom".to_string()));
    assert_eq!(status.dist.system.error, Some("boom".to_string()));
    assert_eq!(status.root.user.error, Some("boom".to_string()));
    assert_eq!(status.root.system.error, Some("boom".to_string()));
    assert_eq!(status.dist.user.value, None);
}

#[test]
fn read_failure_on_one_scope_leaves_others() {
    let status = get_rustup_env_status(
        profiles(Err("io".to_string()), Ok(Some("B".to_string())), Ok(None), Ok(None)),
        None,
        None,
    );
    assert_eq!(status.dist.user.error, Some("io".to_string()));
    assert_eq!(status.dist.system.value, Some("B".to_string()));
    assert_eq!(status.dist.system.error, None);
}

#[test]
fn normalize_trims_and_drops_blank() {
    assert_eq!(normalize_env_value(Some("  x  ".to_string())), Some("x".to_string()));
    assert_eq!(normalize_env_value(Some("   ".to_string())), None);
    assert_eq!(normalize_env_value(None), None);
}

#[test]
fn unelevated_write_skips_system_scope() {
    let plan = plan_env_write(Some("D".to_string()), None, false);
    assert!(!plan.write_system);
    assert_eq!(plan.dist, Some("D".to_string()));
    let r = compose_write_result(false, Ok(()), None);
    assert!(r.user.ok && !r.user.skipped);
    assert!(r.system.ok && r.system.skipped);
    assert_eq!(r.system.error, None);
    assert!(write_applied(&r));
}

#[test]
fn elevated_write_reports_scopes_independently() {
    let plan = plan_env_write(None, Some("R".to_string()), true);
    assert!(plan.write_system);
    let r = compose_write_result(true, Ok(()), Some(Err("denied".to_string())));
    assert!(r.user.ok);
    assert!(!r.system.ok && !r.system.skipped);
    assert_eq!(r.system.error, Some("denied".to_string()));
    assert!(write_applied(&r));
    let r2 = compose_write_result(false, Err("no".to_string()), None);
    assert!(!r2.user.ok);
    assert!(!write_applied(&r2));
}

#[test]
fn bulk_write_outcomes() {
    let r = compose_bulk_write_result(Ok(EnvWriteBulk {
        user_ok: true,
        user_error: None,
        system_ok: false,
        system_error: Some("e".to_string()),
    }));
    assert!(r.user.ok && !r.system.ok);
    assert_eq!(r.system.error, Some("e".to_string()));
    let r2 = compose_bulk_write_result(Err("launch".to_string()));
    assert!(!r2.user.ok && !r2.system.ok);
    assert_eq!(r2.user.error, Some("launch".to_string()));
}

#[test]
fn admin_status_hint_only_when_not_elevated() {
    let a = get_admin_status(true, Os::Linux, Some("/bin/app"));
    assert!(a.is_admin);
    assert_eq!(a.hint, "");
    let b = get_admin_status(false, Os::Linux, Some("/bin/my \"app\""));
    assert_eq!(b.hint, "请在终端执行：sudo \"/bin/my \\\"app\\\"\"");
    let c = get_admin_status(false, Os::Windows, None);
    assert_eq!(c.hint, "请右键应用图标并选择“以管理员身份运行”");
    let d = get_admin_status(false, Os::MacOs, None);
    assert_eq!(d.hint, "请在终端执行：sudo <应用路径>");
}

#[test]
fn decode_sniffs_wide_output() {
    let wide: Vec<u8> = "ok\r\n".encode_utf16().flat_map(|w| w.to_le_bytes()).collect();
    assert!(looks_like_utf16_le(&wide));
    assert_eq!(decode_powershell_output(&wide), "ok");
    let narrow: Vec<u8> = b"0\n".to_vec();
    assert!(!looks_like_utf16_le(&narrow));
    assert_eq!(decode_powershell_output(&narrow), "0");
    let mixed: Vec<u8> = b"https://example".to_vec();
    assert!(!looks_like_utf16_le(&mixed));
    assert_eq!(decode_powershell_output(&mixed), "https://example");
}

#[test]
fn scripts_name_both_variables() {
    let q = build_snapshot_script();
    assert!(q.contains("GetEnvironmentVariable('RUSTUP_DIST_SERVER','User')"));
    assert!(q.contains("GetEnvironmentVariable('RUSTUP_UPDATE_ROOT','Machine')"));
    assert!(q.contains("ConvertTo-Json"));
    let w = build_write_user_script(Some(&cv("it's")), None);
    assert!(w.starts_with("$dist = 'it''s'; $root = $null; "));
    assert!(w.contains("SetEnvironmentVariable('RUSTUP_DIST_SERVER', $dist, 'User')"));
    assert!(!w.contains("'Machine'"));
    let wa = build_write_all_script(None, Some(&cv("r")));
    assert!(wa.starts_with("$dist = $null; $root = 'r'; "));
    assert!(wa.contains("'Machine'"));
    assert!(wa.contains("user_ok"));
}
