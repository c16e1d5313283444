use quickchange::block::apply_managed_block;
use quickchange::block::build_managed_block;
use quickchange::block::extract_managed_block_body;
use quickchange::block::find_managed_block;
use quickchange::block::profile_block_value;
use quickchange::block::profile_update_for;
use quickchange::block::unix_profile_update;

const START: &str = "# >>> quickchange rustup env >>>";
const END: &str = "# <<< quickchange rustup env <<<";

fn cv(s: &str) -> Vec<char> {
    s.chars().collect()
}

fn sv(v: &[char]) -> String {
    v.iter().collect()
}

#[test]
fn write_update_clear_leaves_profile_untouched() {
    let original = "export PATH=\"$PATH:/opt/x\"\nalias ll='ls -l'\n";
    let b1 = build_managed_block(&cv("export A=\"1\""));
    let after_write = apply_managed_block(&cv(original), Some(&b1));
    let b2 = build_managed_block(&cv("export A=\"2\"\nexport B=\"3\""));
    let after_update = apply_managed_block(&after_write, Some(&b2));
    let after_clear = apply_managed_block(&after_update, None);
    assert_eq!(sv(&after_clear), original);
    assert!(!sv(&after_clear).contains(START));
    assert!(!sv(&after_clear).contains(END));
    assert_eq!(
        sv(&after_write),
        format!("{original}{START}\nexport A=\"1\"\n{END}\n")
    );
    assert_eq!(
        sv(&after_update),
        format!("{original}{START}\nexport A=\"2\"\nexport B=\"3\"\n{END}\n")
    );
}

#[test]
fn write_into_empty_profile_and_clear() {
    let b = build_managed_block(&cv("export A=\"1\""));
    let written = apply_managed_block(&cv(""), Some(&b));
    assert_eq!(sv(&written), format!("{START}\nexport A=\"1\"\n{END}\n"));
    let cleared = apply_managed_block(&written, None);
    assert_eq!(sv(&cleared), "");
}

#[test]
fn replace_preserves_text_before_and_after_block() {
    let content = format!("before\n{START}\nexport A=\"1\"\n{END}\nafter\n");
    let b = build_managed_block(&cv("export A=\"9\""));
    let updated = apply_managed_block(&cv(&content), Some(&b));
    assert_eq!(sv(&updated), format!("before\n{START}\nexport A=\"9\"\n{END}\nafter\n"));
}

#[test]
fn clearing_without_block_changes_nothing() {
    let content = "plain\n";
    let r = apply_managed_block(&cv(content), None);
    assert_eq!(sv(&r), content);
}

#[test]
fn appending_adds_newline_before_block_when_missing() {
    let b = build_managed_block(&cv("export A=\"1\""));
    let r = apply_managed_block(&cv("no newline at end"), Some(&b));
    assert_eq!(sv(&r), format!("no newline at end\n{START}\nexport A=\"1\"\n{END}\n"));
}

#[test]
fn find_block_spans_whole_lines() {
    let content = format!("a\n{START}\nbody\n{END}\nz\n");
    let (s, e) = find_managed_block(&cv(&content)).unwrap();
    assert_eq!(s, 2);
    assert_eq!(e, content.chars().count() - 2);
    assert!(find_managed_block(&cv("nothing here")).is_none());
}

#[test]
fn extract_body_trims_and_rejects_blank() {
    let content = format!("{START}\n  export A=\"1\"  \n{END}\n");
    let body = extract_managed_block_body(&cv(&content)).unwrap();
    assert_eq!(sv(&body), "export A=\"1\"");
    let blank = format!("{START}\n   \n{END}\n");
    assert!(extract_managed_block_body(&cv(&blank)).is_none());
}

#[test]
fn profile_block_value_reads_exports() {
    let content = format!("{START}\nexport RUSTUP_DIST_SERVER=\"https://m.example\"\n{END}\n");
    let v = profile_block_value(&cv(&content), &cv("RUSTUP_DIST_SERVER")).unwrap();
    assert_eq!(sv(&v), "https://m.example");
    assert!(profile_block_value(&cv(&content), &cv("RUSTUP_UPDATE_ROOT")).is_none());
}

#[test]
fn profile_update_writes_both_exports_and_clears() {
    let updated = profile_update_for(&cv("x\n"), Some(&cv("D")), Some(&cv("R")));
    assert_eq!(
        sv(&updated),
        format!(
            "x\n{START}\nexport RUSTUP_DIST_SERVER=\"D\"\nexport RUSTUP_UPDATE_ROOT=\"R\"\n{END}\n"
        )
    );
    let cleared = profile_update_for(&updated, None, None);
    assert_eq!(sv(&cleared), "x\n");
}

#[test]
fn unix_profile_block_sources_env_file() {
    let updated = unix_profile_update(&cv(""), Some(&cv("D")), None);
    assert_eq!(
        sv(&updated),
        format!(
            "{START}\nif [ -f \"$HOME/.config/quickchange/rustup.env\" ]; then\n  . \"$HOME/.config/quickchange/rustup.env\"\nfi\n{END}\n"
        )
    );
    let cleared = unix_profile_update(&updated, None, None);
    assert_eq!(sv(&cleared), "");
}

#[test]
fn written_values_read_back() {
    let updated = profile_update_for(&cv("x\n"), Some(&cv("https://d")), Some(&cv("https://r")));
    assert_eq!(
        sv(&profile_block_value(&updated, &cv("RUSTUP_DIST_SERVER")).unwrap()),
        "https://d"
    );
    assert_eq!(
        sv(&profile_block_value(&updated, &cv("RUSTUP_UPDATE_ROOT")).unwrap()),
        "https://r"
    );
    let one = profile_update_for(&updated, None, Some(&cv("only-root")));
    assert!(profile_block_value(&one, &cv("RUSTUP_DIST_SERVER")).is_none());
    assert_eq!(sv(&profile_block_value(&one, &cv("RUSTUP_UPDATE_ROOT")).unwrap()), "only-root");
}
