use file_search::copies::{generate_unique_copy_name, is_nested_path};
use file_search::category::{add_to_category, create_category, delete_category, remove_from_category, Category};
use file_search::commands::{file_metadata, legacy_name_match, new_item_file_name};
use file_search::naming::{decimal_chars, generate_unique_name, ItemInfo};
use file_search::settings::{delete_settings, load_settings, save_settings, SearchSettings, SettingsData};

fn item(name: &str, is_folder: bool) -> ItemInfo {
    ItemInfo { name: name.to_string(), is_folder }
}

#[test]
fn unique_name_numbering() {
    assert_eq!(generate_unique_name(&vec![], "new", true), "new");
    assert_eq!(generate_unique_name(&vec![item("other", true)], "new", true), "new");
    assert_eq!(generate_unique_name(&vec![item("new", true)], "new", true), "new(2)");
    assert_eq!(
        generate_unique_name(&vec![item("new", true), item("new(7)", true), item("new(3)", true)], "new", true),
        "new(8)"
    );
    // items of the other kind do not count
    assert_eq!(generate_unique_name(&vec![item("new(5).txt", false)], "new", true), "new");
    // files: trailing .txt are ignored
    assert_eq!(generate_unique_name(&vec![item("new(5).txt", false)], "new", false), "new(6)");
    assert_eq!(generate_unique_name(&vec![item("new.txt.txt", false)], "new", false), "new(2)");
    // a folder may carry one .txt
    assert_eq!(generate_unique_name(&vec![item("new(2).txt", true)], "new", true), "new(3)");
    // malformed numbers
    assert_eq!(generate_unique_name(&vec![item("new()", true), item("new(x)", true)], "new", true), "new");
    assert_eq!(generate_unique_name(&vec![item("new(99999999999)", true)], "new", true), "new");
    assert_eq!(generate_unique_name(&vec![item("new(007)", true)], "new", true), "new(8)");
    assert_eq!(generate_unique_name(&vec![item("new(4294967295)", true)], "new", true), "new(4294967296)");
}

#[test]
fn decimal_digits() {
    assert_eq!(decimal_chars(0), vec!['0']);
    assert_eq!(decimal_chars(1203).into_iter().collect::<String>(), "1203");
}

#[test]
fn new_item_names_and_metadata() {
    assert_eq!(new_item_file_name("new(2)", true), "new(2)");
    assert_eq!(new_item_file_name("new(2)", false), "new(2).txt");
    let m = file_metadata("/d/a.tar.gz".to_string(), 12, 34);
    assert_eq!(m.file_type, "gz");
    assert_eq!((m.file_size, m.last_modified), (12, 34));
    assert_eq!(file_metadata("/d/Makefile".to_string(), 0, 0).file_type, "unknown");
}

#[test]
fn legacy_match_uses_full_file_name() {
    let hit = legacy_name_match("/d/report.txt", ".txt").unwrap();
    assert_eq!(hit.file_name, "report.txt");
    assert_eq!(hit.file_path, "/d/report.txt");
    assert!(legacy_name_match("/d/report.txt", "zip").is_none());
}

fn cat(num: u32, list: &[&str]) -> Category {
    Category {
        num,
        name: format!("c{}", num),
        description: String::new(),
        color: "red".to_string(),
        list: list.iter().map(|s| s.to_string()).collect(),
    }
}

#[test]
fn categories_numbering_and_lists() {
    let cs = create_category(vec![], "a".to_string(), "d".to_string(), "blue".to_string());
    assert_eq!(cs.len(), 1);
    assert_eq!(cs[0].num, 1);
    let cs = create_category(vec![cat(3, &[]), cat(1, &[])], "b".to_string(), String::new(), String::new());
    assert_eq!(cs[2].num, 4);
    assert!(cs[2].list.is_empty());
    let full = create_category(vec![cat(u32::MAX, &[])], "x".to_string(), String::new(), String::new());
    assert_eq!(full.len(), 1);

    let cs = delete_category(vec![cat(1, &[]), cat(2, &[]), cat(1, &[])], 1);
    assert_eq!(cs.len(), 1);
    assert_eq!(cs[0].num, 2);

    let cs = add_to_category(vec![cat(1, &["/a"]), cat(2, &[])], 1, "/b".to_string());
    assert_eq!(cs[0].list, vec!["/a".to_string(), "/b".to_string()]);
    let cs = add_to_category(cs, 1, "/a".to_string());
    assert_eq!(cs[0].list.len(), 2);
    let cs = add_to_category(cs, 9, "/a".to_string());
    assert_eq!(cs[1].list.len(), 0);

    let cs = remove_from_category(vec![cat(1, &["/a", "/b", "/a"])], 1, "/a".to_string());
    assert_eq!(cs[0].list, vec!["/b".to_string()]);
}

#[test]
fn settings_slots() {
    let mut data = SettingsData::fresh();
    assert_eq!(data.data.len(), 5);
    assert_eq!(data.data[4].number, 5);
    assert_eq!(data.data[0].val.file_max_unit, "B");
    let mut preset = SearchSettings::blank();
    preset.search_scope = "1".to_string();
    assert_eq!(save_settings(&mut data, 2, "mine".to_string(), preset), "Settings saved successfully");
    assert_eq!(data.data[1].name, "mine");
    assert_eq!(data.data[1].val.search_scope, "1");
    assert_eq!(save_settings(&mut data, 9, "none".to_string(), SearchSettings::blank()), "Settings saved successfully");
    assert_eq!(delete_settings(&mut data, 2), "Settings deleted successfully");
    assert_eq!(data.data[1].name, "");
    assert_eq!(data.data[1].val.search_scope, "0");
    let slot = load_settings(data, 3).unwrap();
    assert_eq!(slot.number, 3);
    assert!(load_settings(SettingsData::fresh(), 6).is_none());
}

#[test]
fn copy_names_skip_taken_ones() {
    let none: Vec<ItemInfo> = vec![];
    assert_eq!(generate_unique_copy_name("/t/a.txt", &none, false), Some("/t/a_copy.txt".to_string()));
    assert_eq!(generate_unique_copy_name("/t/dir", &none, true), Some("/t/dir_copy".to_string()));
    let taken = vec![item("a_copy.txt", false), item("a_copy(2).txt", false), item("a_copy(3).txt", true)];
    assert_eq!(generate_unique_copy_name("/t/a.txt", &taken, false), Some("/t/a_copy(3).txt".to_string()));
    assert_eq!(generate_unique_copy_name("/t/a.txt", &taken, true), Some("/t/a_copy.txt".to_string()));
    assert_eq!(generate_unique_copy_name("/", &none, false), None);

    assert_eq!(is_nested_path("/t/a", "/t/a/b/a"), Some(true));
    assert_eq!(is_nested_path("/t/a", "/t/a"), Some(false));
    assert_eq!(is_nested_path("/t/a", "/u/a"), Some(false));
    assert_eq!(is_nested_path("/", "/x"), None);
}

#[test]
fn lowercase_folds_case() {
    assert_eq!(file_search::text::lowercase("AbC"), "abc");
    assert_eq!(file_search::text::split_words("  a\tb  c "), vec!["a".to_string(), "b".to_string(), "c".to_string()]);
}
