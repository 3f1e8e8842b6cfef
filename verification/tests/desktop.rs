use spotter::desktop::{
    clean_desktop_exec, expand_index_dir, parse_desktop_fields, parse_desktop_item,
    visible_entry,
};
use spotter::search::ItemKind;

#[test]
fn hidden_and_incomplete_entries_are_skipped() {
    assert!(parse_desktop_item("[Desktop Entry]\nName=A\nExec=a\nNoDisplay=true\n").is_none());
    assert!(parse_desktop_item("[Desktop Entry]\nName=A\nExec=a\nHidden=true\n").is_none());
    assert!(parse_desktop_item("[Desktop Entry]\nName=A\n").is_none());
    assert!(parse_desktop_item("Name=A\nExec=a\n").is_none());
    assert!(parse_desktop_item("[Desktop Entry]\nName=A\nExec=a\nHidden=false\n").is_some());
}

#[test]
fn only_the_desktop_entry_group_counts_and_first_values_win() {
    let fields = parse_desktop_fields(
        "# comment\r\n[Desktop Entry]\r\nName=First\r\nName=Second\r\n  # note\r\nExec = run\r\n[Desktop Action new]\r\nIcon=late\r\n",
    );
    assert_eq!(fields.get("Name").map(String::as_str), Some("First"));
    assert_eq!(fields.get("Exec ").map(String::as_str), Some(" run"));
    assert_eq!(fields.get("Icon"), None);
}

#[test]
fn application_items_use_comment_or_command_as_subtitle() {
    let item = parse_desktop_item("[Desktop Entry]\nName=Editor\nExec=  edit  %F  --new \n")
        .unwrap();
    assert_eq!(item.kind, ItemKind::Application);
    assert_eq!(item.target, "edit --new");
    assert_eq!(item.subtitle, "edit --new");
    assert_eq!(item.tokens, "editor  edit --new");
}

#[test]
fn exec_field_codes_are_removed() {
    assert_eq!(clean_desktop_exec("firefox %u"), "firefox");
    assert_eq!(clean_desktop_exec("  a   %f b  "), "a b");
    assert_eq!(clean_desktop_exec(""), "");
}

#[test]
fn index_directories_expand_like_paths() {
    assert_eq!(expand_index_dir("/home/u", "~"), "/home/u");
    assert_eq!(expand_index_dir("/home/u", "~/Music"), "/home/u/Music");
    assert_eq!(expand_index_dir("/home/u", "/srv/data"), "/srv/data");
    assert_eq!(expand_index_dir("/home/u", "Documents"), "/home/u/Documents");
    assert_eq!(expand_index_dir("/home/u/", "Documents"), "/home/u/Documents");
    assert_eq!(expand_index_dir("/home/u", "~//etc"), "/etc");
}

#[test]
fn dot_entries_are_hidden() {
    assert!(!visible_entry(Some(".cache")));
    assert!(visible_entry(Some("notes")));
    assert!(visible_entry(None));
}
