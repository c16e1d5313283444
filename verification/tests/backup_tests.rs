use quickchange::backup::sanitize_backup_label;
use quickchange::backup::build_backup_name;
use quickchange::backup::bare_file_name;
use quickchange::backup::plan_rename;
use quickchange::backup::select_backups;
use quickchange::backup::select_toml_names;
use quickchange::backup::file_has_toml_ext;
use quickchange::backup::ensure_toml_ext;
use quickchange::backup::BackupEntry;
use quickchange::paths::Os;
use quickchange::atomic::temp_file_name;

fn cv(s: &str) -> Vec<char> {
    s.chars().collect()
}

fn sv(v: &[char]) -> String {
    v.iter().collect()
}

#[test]
fn sanitize_maps_whitespace_and_reserved_to_dashes() {
    let r = sanitize_backup_label(&cv("My Backup: v1.0!"));
    assert_eq!(sv(&r), "My-Backup--v1.0!");
    for c in r.iter() {
        assert!(!c.is_whitespace());
        assert!(!"<>:\"/\\|?*".contains(*c));
        assert!(!c.is_control());
    }
}

#[test]
fn sanitize_all_reserved_falls_back_to_custom() {
    assert_eq!(sv(&sanitize_backup_label(&cv("///"))), "custom");
    assert_eq!(sv(&sanitize_backup_label(&cv(""))), "custom");
    assert_eq!(sv(&sanitize_backup_label(&cv("---"))), "custom");
}

#[test]
fn sanitize_drops_control_characters_and_trims_dashes() {
    assert_eq!(sv(&sanitize_backup_label(&cv("-a\u{1}b-"))), "ab");
    let twice = sanitize_backup_label(&sanitize_backup_label(&cv("  weird*name  ")));
    assert_eq!(sv(&twice), sv(&sanitize_backup_label(&cv("  weird*name  "))));
}

#[test]
fn backup_name_formats() {
    assert_eq!(sv(&build_backup_name(Some(&cv("rel 1")), 123)), "manual-rel-1-123.toml");
    assert_eq!(sv(&build_backup_name(None, 99)), "auto-99.toml");
}

#[test]
fn traversal_names_reduce_to_bare_component() {
    assert_eq!(sv(&bare_file_name(&cv("../../evil"), Os::Linux).unwrap()), "evil");
    assert_eq!(sv(&bare_file_name(&cv("/etc/passwd"), Os::Linux).unwrap()), "passwd");
    assert_eq!(
        sv(&bare_file_name(&cv("..\\..\\up.toml"), Os::Windows).unwrap()),
        "up.toml"
    );
    assert!(bare_file_name(&cv(".."), Os::Linux).is_none());
    assert!(bare_file_name(&cv("a/.."), Os::Linux).is_none());
    assert!(bare_file_name(&cv(""), Os::Linux).is_none());
    assert!(bare_file_name(&cv("x/"), Os::Linux).is_none());
}

#[test]
fn rename_plan_resolves_and_extends() {
    let r = plan_rename(&cv("../old.toml"), &cv("../../new"), Os::Linux).unwrap();
    assert_eq!(sv(&r.0), "old.toml");
    assert_eq!(sv(&r.1), "new.toml");
    let r2 = plan_rename(&cv("a.toml"), &cv("b.toml"), Os::Linux).unwrap();
    assert_eq!(sv(&r2.1), "b.toml");
    let e = plan_rename(&cv(".."), &cv("b"), Os::Linux).unwrap_err();
    assert_eq!(e, "Invalid old backup name");
    let e2 = plan_rename(&cv("a"), &cv("/"), Os::Linux).unwrap_err();
    assert_eq!(e2, "Invalid new backup name");
}

fn entry(name: &str, modified: u64) -> BackupEntry {
    BackupEntry { name: name.to_string(), path: format!("/b/{}", name), modified, size: 1 }
}

#[test]
fn listing_orders_newest_first_and_keeps_only_toml() {
    let entries = vec![
        entry("auto-1.toml", 100),
        entry("auto-3.toml", 300),
        entry("notes.txt", 999),
        entry("auto-2.toml", 200),
        entry(".toml", 500),
    ];
    let r = select_backups(entries);
    let names: Vec<String> = r.iter().map(|e| e.name.clone()).collect();
    assert_eq!(names, vec!["auto-3.toml", "auto-2.toml", "auto-1.toml"]);
    assert!(r[0].modified >= r[1].modified && r[1].modified >= r[2].modified);
}

#[test]
fn clear_selects_every_toml_name() {
    let names = vec![
        "a.toml".to_string(),
        "b.txt".to_string(),
        "c.toml".to_string(),
        ".toml".to_string(),
    ];
    let r = select_toml_names(names);
    assert_eq!(r, vec!["a.toml".to_string(), "c.toml".to_string()]);
}

#[test]
fn toml_extension_checks() {
    assert!(file_has_toml_ext(&cv("x.toml")));
    assert!(!file_has_toml_ext(&cv(".toml")));
    assert!(!file_has_toml_ext(&cv("x.TOML")));
    assert_eq!(sv(&ensure_toml_ext(&cv("x"))), "x.toml");
    assert_eq!(sv(&ensure_toml_ext(&cv("x.toml"))), "x.toml");
    assert_eq!(sv(&ensure_toml_ext(&cv(".toml"))), ".toml");
}

#[test]
fn temp_file_name_carries_stamp() {
    assert_eq!(temp_file_name(0), ".config.tmp-0");
    assert_eq!(temp_file_name(1736900000123), ".config.tmp-1736900000123");
}

#[test]
fn listing_keeps_entries_with_equal_timestamps() {
    let entries = vec![entry("a.toml", 7), entry("b.toml", 7), entry("c.toml", 9)];
    let r = select_backups(entries);
    assert_eq!(r.len(), 3);
    assert_eq!(r[0].name, "c.toml");
    let mut tail: Vec<String> = r[1..].iter().map(|e| e.name.clone()).collect();
    tail.sort();
    assert_eq!(tail, vec!["a.toml".to_string(), "b.toml".to_string()]);
}

#[test]
fn temp_name_handles_largest_stamp() {
    assert_eq!(temp_file_name(u64::MAX), ".config.tmp-18446744073709551615");
    assert_eq!(sv(&build_backup_name(None, u64::MAX)), "auto-18446744073709551615.toml");
}
