use rustfolio::paths::{as_file_stem, get_portfolio_name_interactively, list_data_files};
use rustfolio::text::contains;

#[test]
fn file_stems() {
    assert_eq!(as_file_stem("/home/u/.local/share/rustfolio/savings.csv"), "savings");
    assert_eq!(as_file_stem("a/b.tar.gz"), "b.tar");
    assert_eq!(as_file_stem(".bashrc"), ".bashrc");
    assert_eq!(as_file_stem("dir/.hidden.csv"), ".hidden");
    assert_eq!(as_file_stem("name."), "name");
    assert_eq!(as_file_stem("plain"), "plain");
    assert_eq!(as_file_stem("a/b/"), "b");
    assert_eq!(as_file_stem("a/b/."), "b");
    assert_eq!(as_file_stem("a/.."), "");
    assert_eq!(as_file_stem("/"), "");
    assert_eq!(as_file_stem(""), "");
    assert_eq!(as_file_stem("."), "");
}

#[test]
fn portfolio_names() {
    assert_eq!(get_portfolio_name_interactively("  savings \t"), Ok(String::from("savings")));
    assert_eq!(get_portfolio_name_interactively("my.csv"), Ok(String::from("my")));
    assert_eq!(get_portfolio_name_interactively("x/y/retire.2024"), Ok(String::from("retire")));
    assert_eq!(
        get_portfolio_name_interactively(" .. "),
        Err(String::from("Invalid portfolio name"))
    );
    assert_eq!(get_portfolio_name_interactively("   "), Err(String::from("Invalid portfolio name")));
    assert_eq!(get_portfolio_name_interactively("\u{3000}gold\u{a0}"), Ok(String::from("gold")));
}

#[test]
fn data_files_keep_named_paths() {
    let paths = vec!["d/a.csv", "/", "d/..", "d/b.csv", ""].into_iter().map(String::from).collect();
    assert_eq!(list_data_files(paths), vec![String::from("d/a.csv"), String::from("d/b.csv")]);
}

#[test]
fn containment() {
    assert!(contains("stocks", "ock"));
    assert!(contains("stocks", ""));
    assert!(contains("", ""));
    assert!(!contains("", "a"));
    assert!(!contains("bonds", "Bo"));
    assert!(!contains("ab", "abc"));
    assert!(contains("aab", "ab"));
}
