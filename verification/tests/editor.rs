use dragonfox::ide::{renamed_path, tab_label, MyIDE};

fn s(t: &str) -> String {
    t.to_string()
}

fn with_folder() -> MyIDE {
    let mut ide = MyIDE::new();
    ide.open_folder(s("/proj"), vec![s("/proj/src/Main.rs"), s("/proj/README.md"), s("/proj\\win\\a.rs")]);
    ide
}

#[test]
fn new_editor_is_empty() {
    let ide = MyIDE::new();
    assert!(ide.tabs.is_empty() && ide.files.is_empty() && ide.code.is_empty());
    assert_eq!(ide.current_tab, 0);
    assert_eq!(ide.create_file_target(), None);
    assert_eq!(ide.delete_target(), None);
    assert_eq!(ide.cargo_target(), None);
    assert_eq!(ide.rename_target(), None);
}

#[test]
fn listing_and_search() {
    let mut ide = with_folder();
    let all = ide.visible_files();
    assert_eq!(
        all,
        vec![
            (s("/proj/src/Main.rs"), s("/src/Main.rs")),
            (s("/proj/README.md"), s("/README.md")),
            (s("/proj\\win\\a.rs"), s("/win/a.rs")),
        ]
    );
    ide.search_text = s("MAIN");
    assert_eq!(ide.visible_files(), vec![(s("/proj/src/Main.rs"), s("/src/Main.rs"))]);
    ide.search_text = s("readme");
    assert_eq!(ide.visible_files().len(), 1);
    ide.search_text = s("nothing");
    assert!(ide.visible_files().is_empty());
}

#[test]
fn creating_files_and_folders() {
    let mut ide = with_folder();
    ide.new_file_clicked();
    assert_eq!(ide.output, "Create file feature coming soon");
    ide.new_file_name = s("lib.rs");
    let target = ide.create_file_target().unwrap();
    assert_eq!(target, "/proj/lib.rs");
    ide.file_created(target.clone(), Ok(()));
    assert_eq!(ide.output, "Created lib.rs");
    assert_eq!(ide.files.last().unwrap(), &target);
    assert!(ide.new_file_name.is_empty());

    ide.new_file_name = s("x");
    ide.file_created(s("/proj/x"), Err(s("permission denied")));
    assert_eq!(ide.output, "permission denied");
    assert_eq!(ide.new_file_name, "x");

    ide.new_folder_name = s("docs");
    assert_eq!(ide.create_folder_target(), Some(s("/proj/docs")));
    ide.folder_created(Ok(()));
    assert_eq!(ide.output, "Created folder docs");
    assert!(ide.new_folder_name.is_empty());
    ide.new_folder_name = s("docs");
    ide.folder_created(Err(s("exists")));
    assert_eq!(ide.output, "exists");
}

#[test]
fn opening_files_and_tabs() {
    let mut ide = with_folder();
    ide.open_file(s("/proj/a.rs"), "/a.rs", Ok(s("fn a() {}")));
    assert_eq!(ide.code, "fn a() {}");
    assert_eq!(ide.output, "Opened: /a.rs");
    assert_eq!(ide.delete_file_path, "/proj/a.rs");
    ide.open_file(s("/proj/b.rs"), "/b.rs", Err(s("No such file")));
    assert_eq!(ide.output, "Error: No such file");
    assert_eq!(ide.code, "fn a() {}");
    assert_eq!(ide.file_path, "/proj/b.rs");
    ide.open_file(s("/proj/a.rs"), "/a.rs", Ok(s("fn a() {}")));
    assert_eq!(ide.tabs, vec![s("/proj/a.rs"), s("/proj/b.rs")]);

    ide.select_tab(1, Ok(s("fn b() {}")));
    assert_eq!(ide.current_tab, 1);
    assert_eq!(ide.file_path, "/proj/b.rs");
    assert_eq!(ide.code, "fn b() {}");
    ide.select_tab(0, Err(s("gone")));
    assert_eq!(ide.current_tab, 0);
    assert_eq!(ide.file_path, "/proj/b.rs");

    ide.current_tab = 1;
    ide.close_tab(0);
    assert_eq!(ide.tabs, vec![s("/proj/b.rs")]);
    assert_eq!(ide.current_tab, 0);
    ide.close_tab(0);
    assert!(ide.tabs.is_empty());
    assert_eq!(ide.current_tab, 0);
}

#[test]
fn open_then_close_restores_tabs() {
    let mut ide = with_folder();
    ide.open_file(s("/proj/a.rs"), "/a.rs", Ok(s("")));
    let before = ide.tabs.clone();
    ide.open_file(s("/proj/c.rs"), "/c.rs", Ok(s("")));
    let last = ide.tabs.len() - 1;
    ide.close_tab(last);
    assert_eq!(ide.tabs, before);
}

#[test]
fn renaming() {
    let mut ide = with_folder();
    ide.open_file(s("/proj/src/old.rs"), "/src/old.rs", Ok(s("")));
    ide.open_file(s("/proj/other.rs"), "/other.rs", Ok(s("")));
    ide.select_tab(0, Ok(s("")));
    assert_eq!(ide.rename_target(), None);
    ide.rename_file_name = s("new.rs");
    let target = ide.rename_target().unwrap();
    assert_eq!(target, "/proj/src/new.rs");
    assert!(ide.file_renamed(target.clone(), Ok(())));
    assert_eq!(ide.output, "Renamed /proj/src/old.rs to new.rs");
    assert_eq!(ide.tabs, vec![s("/proj/src/new.rs"), s("/proj/other.rs")]);
    assert_eq!(ide.file_path, "/proj/src/new.rs");
    assert!(ide.rename_file_name.is_empty());

    ide.rename_file_name = s("z.rs");
    assert!(!ide.file_renamed(s("/proj/src/z.rs"), Err(s("busy"))));
    assert_eq!(ide.output, "busy");
    assert_eq!(ide.file_path, "/proj/src/new.rs");

    assert_eq!(renamed_path(&None, "x"), "/x");
    assert_eq!(renamed_path(&Some(s("")), "x"), "/x");
    assert_eq!(renamed_path(&Some(s("/a")), "x"), "/a/x");
}

#[test]
fn rename_in_the_current_directory() {
    let mut ide = MyIDE::new();
    ide.file_path = s("notes.txt");
    ide.rename_file_name = s("n.txt");
    assert_eq!(ide.rename_target(), Some(s("/n.txt")));
}

#[test]
fn tab_labels() {
    assert_eq!(tab_label("/proj/src/main.rs"), "main.rs");
    assert_eq!(tab_label("main.rs"), "main.rs");
    assert_eq!(tab_label("/proj/src/"), "src");
    assert_eq!(tab_label("/"), "");
    assert_eq!(tab_label("a/.."), "");
}

#[test]
fn saving_and_deleting() {
    let mut ide = with_folder();
    ide.file_saved(Ok(()));
    assert_eq!(ide.output, "File saved successfully!");
    ide.file_saved(Err(s("disk full")));
    assert_eq!(ide.output, "Error: disk full");

    ide.open_file(s("/proj/a.rs"), "/a.rs", Ok(s("text")));
    assert_eq!(ide.delete_target(), Some(s("/proj/a.rs")));
    assert!(!ide.file_deleted(Err(s("locked"))));
    assert_eq!(ide.output, "locked");
    assert_eq!(ide.code, "text");
    assert!(ide.file_deleted(Ok(())));
    assert_eq!(ide.output, "Deleted /proj/a.rs");
    assert!(ide.code.is_empty() && ide.file_path.is_empty());
    assert_eq!(ide.delete_target(), None);
}

#[test]
fn cargo_output() {
    let mut ide = with_folder();
    assert_eq!(ide.cargo_target(), Some(s("/proj")));
    ide.cargo_finished(Ok((b"warning: x".to_vec(), b"done".to_vec())));
    assert_eq!(ide.terminal_output, "warning: x");
    ide.cargo_finished(Ok((Vec::new(), b"Hello, world!\n".to_vec())));
    assert_eq!(ide.terminal_output, "Hello, world!\n");
    ide.cargo_finished(Ok((vec![0xff, b'a'], Vec::new())));
    assert_eq!(ide.terminal_output, "\u{fffd}a");
    ide.cargo_finished(Ok((Vec::new(), Vec::new())));
    assert_eq!(ide.terminal_output, "");
    ide.cargo_finished(Err(s("cargo not found")));
    assert_eq!(ide.terminal_output, "cargo not found");
}

#[test]
fn renames_stay_in_the_file_folder() {
    let mut ide = MyIDE::new();
    ide.file_path = s("dir/a.rs");
    ide.rename_file_name = s("b.rs");
    assert_eq!(ide.rename_target(), Some(s("dir/b.rs")));
    ide.file_path = s("/home/me/proj/src/a.rs");
    assert_eq!(ide.rename_target(), Some(s("/home/me/proj/src/b.rs")));
    assert_eq!(tab_label("src/main.rs"), "main.rs");
    assert_eq!(tab_label("a/b/c.tar.gz"), "c.tar.gz");
}
