use dragonfox::ide::{tab_label, MyIDE};

fn s(t: &str) -> String {
    t.to_string()
}

fn rename(file_path: &str, name: &str) -> Option<String> {
    let mut ide = MyIDE::new();
    ide.file_path = s(file_path);
    ide.rename_file_name = s(name);
    ide.rename_target()
}

// The path model of the library, written out in plain Rust so that it can be
// held against `std::path` on many inputs.

fn is_simple(p: &[char]) -> bool {
    !p.iter().any(|c| *c == '\\' || *c == ':') && !(p.len() >= 2 && p[0] == '/' && p[1] == '/')
}

fn starts_at_cur_dir(p: &[char]) -> bool {
    !p.is_empty() && p[0] == '.' && (p.len() == 1 || p[1] == '/')
}

fn body_start(p: &[char]) -> usize {
    if (!p.is_empty() && p[0] == '/') || starts_at_cur_dir(p) {
        1
    } else {
        0
    }
}

fn piece_start(p: &[char], lo: usize, hi: usize) -> usize {
    let mut h = hi;
    while h > lo && p[h - 1] != '/' {
        h -= 1;
    }
    h
}

fn is_component(c: &[char]) -> bool {
    !c.is_empty() && c != ['.']
}

fn last_component(p: &[char], lo: usize, hi: usize) -> Option<(usize, usize)> {
    let mut hi = hi;
    while hi > lo {
        let st = piece_start(p, lo, hi);
        if is_component(&p[st..hi]) {
            return Some((st, hi));
        }
        if st == lo {
            return None;
        }
        hi = st - 1;
    }
    None
}

fn model_parent(p: &[char]) -> Option<String> {
    let lo = body_start(p);
    match last_component(p, lo, p.len()) {
        Some((st, _)) => {
            let end = if st > lo {
                match last_component(p, lo, st - 1) {
                    Some((_, en)) => en,
                    None => lo,
                }
            } else {
                lo
            };
            Some(p[..end].iter().collect())
        }
        None => {
            if starts_at_cur_dir(p) {
                Some(String::new())
            } else {
                None
            }
        }
    }
}

fn model_file_name(p: &[char]) -> Option<String> {
    match last_component(p, body_start(p), p.len()) {
        Some((st, en)) => {
            if &p[st..en] == ['.', '.'] {
                None
            } else {
                Some(p[st..en].iter().collect())
            }
        }
        None => None,
    }
}

fn all_paths(max_len: usize) -> Vec<String> {
    let alphabet = ['a', '.', '/'];
    let mut out = vec![String::new()];
    let mut layer = vec![String::new()];
    for _ in 0..max_len {
        let mut next = Vec::new();
        for p in &layer {
            for c in alphabet {
                let mut q = p.clone();
                q.push(c);
                next.push(q);
            }
        }
        out.extend(next.iter().cloned());
        layer = next;
    }
    out
}

#[test]
fn path_model_agrees_with_std() {
    let mut checked = 0;
    for p in all_paths(7) {
        let cs: Vec<char> = p.chars().collect();
        if !is_simple(&cs) {
            continue;
        }
        let path = std::path::Path::new(&p);
        let std_parent = path.parent().map(|d| d.to_string_lossy().to_string());
        let std_name = path.file_name().map(|n| n.to_string_lossy().to_string());
        assert_eq!(model_parent(&cs), std_parent, "parent of {:?}", p);
        assert_eq!(model_file_name(&cs), std_name, "file name of {:?}", p);
        checked += 1;
    }
    assert!(checked > 1000);
}

#[test]
fn labels_and_renames_follow_the_path_model() {
    for p in all_paths(6) {
        let cs: Vec<char> = p.chars().collect();
        if !is_simple(&cs) {
            continue;
        }
        assert_eq!(tab_label(&p), model_file_name(&cs).unwrap_or_default(), "label of {:?}", p);
        let target = rename(&p, "n.txt");
        if p.is_empty() {
            assert_eq!(target, None);
        } else {
            let dir = model_parent(&cs).unwrap_or_default();
            assert_eq!(target, Some(format!("{}/n.txt", dir)), "rename of {:?}", p);
        }
    }
}

#[test]
fn renames_keep_the_parent_std_gives() {
    assert_eq!(rename("./notes.txt", "n.txt"), Some(s("./n.txt")));
    assert_eq!(rename("../a", "n.txt"), Some(s("../n.txt")));
    assert_eq!(rename("a/b/", "n.txt"), Some(s("a/n.txt")));
    assert_eq!(rename("/a", "n.txt"), Some(s("//n.txt")));
    assert_eq!(rename("a//b", "n.txt"), Some(s("a/n.txt")));
    assert_eq!(rename("a/./b", "n.txt"), Some(s("a/n.txt")));
    assert_eq!(rename(".", "n.txt"), Some(s("/n.txt")));
    assert_eq!(rename("/", "n.txt"), Some(s("/n.txt")));
    assert_eq!(rename("/proj/src/main.rs", "lib.rs"), Some(s("/proj/src/lib.rs")));
}

#[test]
fn labels_of_odd_paths() {
    assert_eq!(tab_label("/proj/src/"), "src");
    assert_eq!(tab_label("a/."), "a");
    assert_eq!(tab_label("./x"), "x");
    assert_eq!(tab_label(".."), "");
    assert_eq!(tab_label("a/.."), "");
    assert_eq!(tab_label("."), "");
    assert_eq!(tab_label(""), "");
    assert_eq!(tab_label("/"), "");
}
