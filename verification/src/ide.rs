use vstd::prelude::*;

use crate::text::{
    concat_text, contains, has_sub, lemma_replaced_absent, lossy_text, lossy_utf8, lowercase,
    owned, replace, replaced, same_text, starts_with, to_lower,
};

verus! {

// ---------------------------------------------------------------------------
// Paths
// ---------------------------------------------------------------------------

/// A path that Unix and Windows read the same way: no `\`, no `:` (so no
/// drive or other prefix), and no leading `//` (which Windows reads as a
/// network share). In such a path `/` is the only separator.
pub open spec fn is_simple_path(p: Seq<char>) -> bool {
    &&& forall|i: int| 0 <= i < p.len() ==> p[i] != '\\' && p[i] != ':'
    &&& !(p.len() >= 2 && p[0] == '/' && p[1] == '/')
}

/// The path starts at the root.
pub open spec fn has_root(p: Seq<char>) -> bool {
    p.len() > 0 && p[0] == '/'
}

/// A path whose first component is `.`: it is `.` alone or starts with `./`.
pub open spec fn starts_at_cur_dir(p: Seq<char>) -> bool {
    &&& p.len() > 0
    &&& p[0] == '.'
    &&& (p.len() == 1 || p[1] == '/')
}

/// Where the path's components after the root or the leading `.` begin.
pub open spec fn body_start(p: Seq<char>) -> int {
    if has_root(p) || starts_at_cur_dir(p) {
        1
    } else {
        0
    }
}

/// Where the last piece of `p[lo..hi]` begins: just after the last `/` in
/// that range, or at `lo` when the range holds none.
pub open spec fn piece_start(p: Seq<char>, lo: int, hi: int) -> int
    decreases hi - lo,
{
    if hi <= lo {
        lo
    } else if p[hi - 1] == '/' {
        hi
    } else {
        piece_start(p, lo, hi - 1)
    }
}

/// The last piece of `p[lo..hi]` begins within that range.
pub proof fn lemma_piece_start_bounds(p: Seq<char>, lo: int, hi: int)
    requires
        lo <= hi,
    ensures
        lo <= piece_start(p, lo, hi) <= hi,
    decreases hi - lo,
{
    if hi > lo && p[hi - 1] != '/' {
        lemma_piece_start_bounds(p, lo, hi - 1);
    }
}

/// A piece between separators that is a component: the empty pieces left by
/// repeated or trailing separators, and `.`, are not.
pub open spec fn is_component(c: Seq<char>) -> bool {
    c.len() > 0 && c != seq!['.']
}

/// The bounds of the last component in `p[lo..hi]`, if there is one.
pub open spec fn last_component(p: Seq<char>, lo: int, hi: int) -> Option<(int, int)>
    decreases hi - lo,
{
    if hi <= lo {
        None
    } else {
        let st = piece_start(p, lo, hi);
        proof {
            lemma_piece_start_bounds(p, lo, hi);
        }
        if is_component(p.subrange(st, hi)) {
            Some((st, hi))
        } else if st > lo {
            last_component(p, lo, st - 1)
        } else {
            None
        }
    }
}

/// The parent of a simple path, as `Path::parent` gives it: the path up to
/// the end of the component before its last one, or up to the root or the
/// leading `.` when the last component is the first one after them, so
/// empty for a relative path of one component. A path whose only component
/// is a leading `.` has the empty parent; one without components (`""`,
/// `/`) has none.
pub open spec fn parent_text(p: Seq<char>) -> Option<Seq<char>> {
    let lo = body_start(p);
    match last_component(p, lo, p.len() as int) {
        Some((st, _)) => {
            let end = if st > lo {
                match last_component(p, lo, st - 1) {
                    Some((_, en)) => en,
                    None => lo,
                }
            } else {
                lo
            };
            Some(p.subrange(0, end))
        },
        None => if starts_at_cur_dir(p) {
            Some(Seq::empty())
        } else {
            None
        },
    }
}

/// The file name of a simple path, as `Path::file_name` gives it: its last
/// component, unless that is `..`.
pub open spec fn file_name_text(p: Seq<char>) -> Option<Seq<char>> {
    match last_component(p, body_start(p), p.len() as int) {
        Some((st, en)) => if p.subrange(st, en) == seq!['.', '.'] {
            None
        } else {
            Some(p.subrange(st, en))
        },
        None => None,
    }
}

/// The directory a file at `p` lies in, as text: its parent, or the empty
/// text when it has none.
pub open spec fn parent_or_empty(p: Seq<char>) -> Seq<char> {
    match parent_text(p) {
        Some(d) => d,
        None => Seq::empty(),
    }
}

/// `Path::parent`, taken as text. When there is one it is a leading part of
/// the path, and the empty path has none. For a simple path it is
/// `parent_text`, as std documents `parent` and `components`. For other
/// paths (with `\`, `:` or a leading `//`) which leading part it is depends
/// on the platform's path syntax and is not stated.
#[verifier::external_body]
fn path_parent(path: &str) -> (r: Option<String>)
    ensures
        r matches Some(p) ==> starts_with(path@, p@),
        path@.len() == 0 ==> r is None,
        is_simple_path(path@) ==> (r is Some <==> parent_text(path@) is Some),
        is_simple_path(path@) && r is Some ==> r.unwrap()@ == parent_text(path@).unwrap(),
{
    match std::path::Path::new(path).parent() {
        Some(p) => Some(p.to_string_lossy().to_string()),
        None => None,
    }
}

/// `Path::file_name`, taken as text: when there is one it is a component of
/// the path, so a piece of its text. For a simple path it is
/// `file_name_text`, as std documents `file_name` and `components`. For
/// other paths which piece it is depends on the platform's path syntax and
/// is not stated.
#[verifier::external_body]
fn path_file_name(path: &str) -> (r: Option<String>)
    ensures
        r matches Some(n) ==> has_sub(path@, n@),
        is_simple_path(path@) ==> (r is Some <==> file_name_text(path@) is Some),
        is_simple_path(path@) && r is Some ==> r.unwrap()@ == file_name_text(path@).unwrap(),
{
    match std::path::Path::new(path).file_name() {
        Some(n) => Some(n.to_string_lossy().to_string()),
        None => None,
    }
}

/// `dir/name`.
pub open spec fn joined_path(dir: Seq<char>, name: Seq<char>) -> Seq<char> {
    dir + "/"@ + name
}

fn join_path(dir: &str, name: &str) -> (r: String)
    ensures
        r@ == joined_path(dir@, name@),
{
    let d = concat_text(dir, "/");
    concat_text(d.as_str(), name)
}

/// The path a file is renamed to: `name` in the directory `parent` (the
/// parent directory's text, or none).
pub fn renamed_path(parent: &Option<String>, name: &str) -> (r: String)
    ensures
        parent matches Some(p) ==> r@ == joined_path(p@, name@),
        parent is None ==> r@ == joined_path(Seq::empty(), name@),
{
    match parent {
        Some(p) => join_path(p.as_str(), name),
        None => {
            proof {
                reveal_strlit("");
            }
            join_path("", name)
        },
    }
}

/// The label of a tab: the file name of its path, or nothing.
pub fn tab_label(tab: &str) -> (r: String)
    ensures
        has_sub(tab@, r@),
        is_simple_path(tab@) && file_name_text(tab@) is Some ==> r@ == file_name_text(
            tab@,
        ).unwrap(),
        is_simple_path(tab@) && file_name_text(tab@) is None ==> r@.len() == 0,
{
    match path_file_name(tab) {
        Some(n) => n,
        None => {
            assert(tab@.subrange(0, 0) =~= Seq::<char>::empty());
            assert(crate::text::occurs_at(tab@, Seq::<char>::empty(), 0));
            String::new()
        },
    }
}

// ---------------------------------------------------------------------------
// Specifications of the editor's state
// ---------------------------------------------------------------------------

/// The texts of a sequence of strings.
pub open spec fn texts(v: Seq<String>) -> Seq<Seq<char>> {
    v.map_values(|s: String| s@)
}

/// The texts of a sequence of pairs of strings.
pub open spec fn text_pairs(v: Seq<(String, String)>) -> Seq<(Seq<char>, Seq<char>)> {
    v.map_values(|p: (String, String)| (p.0@, p.1@))
}

/// The selected tab index is either 0 or a valid index.
pub open spec fn tab_in_range(cur: int, len: int) -> bool {
    cur == 0 || cur < len
}

/// The tab list after a file is opened: the file is added at the end unless
/// it already has a tab.
pub open spec fn tabs_after_open(tabs: Seq<Seq<char>>, path: Seq<char>) -> Seq<Seq<char>> {
    if tabs.contains(path) {
        tabs
    } else {
        tabs.push(path)
    }
}

/// The selected tab index after a tab was closed, leaving `len` tabs.
pub open spec fn tab_after_close(cur: int, len: int) -> int {
    if cur >= len {
        if len > 0 {
            len - 1
        } else {
            0
        }
    } else {
        cur
    }
}

/// `k` is the first position of `x` in `t`.
pub open spec fn first_at(t: Seq<Seq<char>>, x: Seq<char>, k: int) -> bool {
    &&& 0 <= k < t.len()
    &&& t[k] == x
    &&& forall|j: int| 0 <= j < k ==> t[j] != x
}

/// `t` with the first `from` replaced by `to`, if there is one.
pub open spec fn retargeted(t: Seq<Seq<char>>, from: Seq<char>, to: Seq<char>) -> Seq<Seq<char>> {
    if exists|k: int| first_at(t, from, k) {
        t.update(choose|k: int| first_at(t, from, k), to)
    } else {
        t
    }
}

/// A listed file is shown when the search text is empty or occurs in its
/// path, both taken in lower case.
pub open spec fn shown(path: Seq<char>, search: Seq<char>) -> bool {
    search.len() == 0 || has_sub(lowercase(path), lowercase(search))
}

/// The name a listed file is shown under: its path with the folder's path
/// taken out and backslashes turned into slashes.
pub open spec fn display_name(path: Seq<char>, folder: Seq<char>) -> Seq<char> {
    replaced(replaced(path, folder, Seq::empty()), "\\"@, "/"@)
}

/// The files shown, in order, each with its display name.
pub open spec fn listing(paths: Seq<Seq<char>>, folder: Seq<char>, search: Seq<char>) -> Seq<
    (Seq<char>, Seq<char>),
>
    decreases paths.len(),
{
    if paths.len() == 0 {
        Seq::empty()
    } else {
        let rest = listing(paths.drop_last(), folder, search);
        let p = paths.last();
        if shown(p, search) {
            rest.push((p, display_name(p, folder)))
        } else {
            rest
        }
    }
}

/// All tabs are distinct.
pub open spec fn distinct(t: Seq<Seq<char>>) -> bool {
    forall|i: int, j: int| 0 <= i < t.len() && 0 <= j < t.len() && i != j ==> t[i] != t[j]
}

// ---------------------------------------------------------------------------
// Laws of the tab list
// ---------------------------------------------------------------------------

/// Closing a tab never leaves the selection pointing past the tabs.
pub proof fn lemma_close_keeps_selection(cur: int, len: int)
    requires
        0 <= len,
    ensures
        tab_in_range(tab_after_close(cur, len), len),
{
}

/// Opening a file that had no tab and then closing the new last tab gives
/// back the tabs as they were.
pub proof fn lemma_open_then_close(tabs: Seq<Seq<char>>, path: Seq<char>)
    requires
        !tabs.contains(path),
    ensures
        tabs_after_open(tabs, path).remove(tabs.len() as int) == tabs,
{
    assert(tabs.push(path).remove(tabs.len() as int) =~= tabs);
}

/// Opening a file keeps the tabs distinct and gives the file a tab.
pub proof fn lemma_open_keeps_distinct(tabs: Seq<Seq<char>>, path: Seq<char>)
    requires
        distinct(tabs),
    ensures
        distinct(tabs_after_open(tabs, path)),
        tabs_after_open(tabs, path).contains(path),
{
    if !tabs.contains(path) {
        let t = tabs.push(path);
        assert forall|i: int, j: int|
            0 <= i < t.len() && 0 <= j < t.len() && i != j implies t[i] != t[j] by {
            if i == tabs.len() as int {
                assert(tabs[j] == t[j]);
            } else if j == tabs.len() as int {
                assert(tabs[i] == t[i]);
            }
        }
        assert(t[tabs.len() as int] == path);
    }
}

/// Renaming a file retargets the first tab that shows its old path, wherever
/// that tab stands (the last one included), and changes no other tab.
pub proof fn lemma_rename_retargets_first_tab(
    t: Seq<Seq<char>>,
    from: Seq<char>,
    to: Seq<char>,
    k: int,
)
    requires
        0 <= k < t.len(),
        t[k] == from,
        forall|j: int| 0 <= j < k ==> t[j] != from,
    ensures
        retargeted(t, from, to) == t.update(k, to),
{
    assert(first_at(t, from, k));
    let c = choose|c: int| first_at(t, from, c);
    assert(c == k) by {
        if c < k {
            assert(t[c] != from);
        } else if c > k {
            assert(t[k] != from);
        }
    }
}

/// Renaming a file that has no tab leaves the tabs as they are.
pub proof fn lemma_rename_without_tab(t: Seq<Seq<char>>, from: Seq<char>, to: Seq<char>)
    requires
        !t.contains(from),
    ensures
        retargeted(t, from, to) == t,
{
    assert forall|c: int| !first_at(t, from, c) by {
        if first_at(t, from, c) {
            assert(t[c] == from);
            assert(t.contains(from));
        }
    }
}

/// A file whose path is the folder's path followed by a rest that does not
/// hold the folder's path again is shown under that rest, with backslashes
/// turned into slashes; the folder's path is taken out as it was typed, also
/// when it holds backslashes.
pub proof fn lemma_display_name_strips_folder(folder: Seq<char>, rest: Seq<char>)
    requires
        !has_sub(rest, folder),
    ensures
        display_name(folder + rest, folder) == replaced(rest, "\\"@, "/"@),
{
    if folder.len() == 0 {
        assert(rest.subrange(0, 0) =~= folder);
        assert(crate::text::occurs_at(rest, folder, 0));
    }
    let s = folder + rest;
    assert(s.subrange(0, folder.len() as int) =~= folder);
    assert(starts_with(s, folder));
    assert(s.skip(folder.len() as int) =~= rest);
    lemma_replaced_absent(rest, folder, Seq::empty());
    assert(Seq::<char>::empty() + rest =~= rest);
    assert(replaced(s, folder, Seq::empty()) == rest);
}

/// Closing a tab keeps the tabs distinct.
pub proof fn lemma_close_keeps_distinct(tabs: Seq<Seq<char>>, index: int)
    requires
        distinct(tabs),
        0 <= index < tabs.len(),
    ensures
        distinct(tabs.remove(index)),
{
    let t = tabs.remove(index);
    assert forall|i: int, j: int|
        0 <= i < t.len() && 0 <= j < t.len() && i != j implies t[i] != t[j] by {
        let a = if i < index {
            i
        } else {
            i + 1
        };
        let b = if j < index {
            j
        } else {
            j + 1
        };
        assert(t[i] == tabs[a]);
        assert(t[j] == tabs[b]);
    }
}


// ---------------------------------------------------------------------------
// The editor
// ---------------------------------------------------------------------------

/// The state of the editor window: the open file and its text, the folder
/// and its files, the tabs, the messages shown, and the text typed into the
/// side panel's fields.
pub struct MyIDE {
    pub code: String,
    pub file_path: String,
    pub output: String,
    pub folder_path: String,
    pub files: Vec<String>,
    pub tabs: Vec<String>,
    pub current_tab: usize,
    pub terminal_output: String,
    pub search_text: String,
    pub new_file_name: String,
    pub delete_file_path: String,
    pub rename_file_name: String,
    pub new_folder_name: String,
}

impl MyIDE {
    /// The selected tab is 0 or one of the tabs.
    pub open spec fn wf(&self) -> bool {
        tab_in_range(self.current_tab as int, self.tabs.len() as int)
    }

    /// An editor with nothing open.
    pub fn new() -> (r: MyIDE)
        ensures
            r.wf(),
            r.code@.len() == 0,
            r.file_path@.len() == 0,
            r.output@.len() == 0,
            r.folder_path@.len() == 0,
            r.files@.len() == 0,
            r.tabs@.len() == 0,
            r.current_tab == 0,
            r.terminal_output@.len() == 0,
            r.search_text@.len() == 0,
            r.new_file_name@.len() == 0,
            r.delete_file_path@.len() == 0,
            r.rename_file_name@.len() == 0,
            r.new_folder_name@.len() == 0,
    {
        MyIDE {
            code: String::new(),
            file_path: String::new(),
            output: String::new(),
            folder_path: String::new(),
            files: Vec::new(),
            tabs: Vec::new(),
            current_tab: 0,
            terminal_output: String::new(),
            search_text: String::new(),
            new_file_name: String::new(),
            delete_file_path: String::new(),
            rename_file_name: String::new(),
            new_folder_name: String::new(),
        }
    }

    /// A folder was picked and its files were listed.
    pub fn open_folder(&mut self, folder: String, listing: Vec<String>)
        requires
            old(self).wf(),
        ensures
            final(self).wf(),
            *final(self) == (MyIDE { folder_path: folder, files: listing, ..*old(self) }),
    {
        self.folder_path = folder;
        self.files = listing;
    }

    /// The folder's files were listed again.
    pub fn set_files(&mut self, listing: Vec<String>)
        requires
            old(self).wf(),
        ensures
            final(self).wf(),
            *final(self) == (MyIDE { files: listing, ..*old(self) }),
    {
        self.files = listing;
    }

    /// The "New File" button, which only answers with a notice.
    pub fn new_file_clicked(&mut self)
        requires
            old(self).wf(),
        ensures
            final(self).wf(),
            final(self).output@ == "Create file feature coming soon"@,
            *final(self) == (MyIDE { output: final(self).output, ..*old(self) }),
    {
        self.output = owned("Create file feature coming soon");
    }

    /// The path of the file to create: the typed name in the open folder,
    /// when both are given.
    pub fn create_file_target(&self) -> (r: Option<String>)
        ensures
            r is Some <==> (self.folder_path@.len() > 0 && self.new_file_name@.len() > 0),
            r matches Some(p) ==> p@ == joined_path(self.folder_path@, self.new_file_name@),
    {
        if !self.folder_path.as_str().is_empty() && !self.new_file_name.as_str().is_empty() {
            Some(join_path(self.folder_path.as_str(), self.new_file_name.as_str()))
        } else {
            None
        }
    }

    /// The file at `path` was created, or creating it failed with a message.
    pub fn file_created(&mut self, path: String, result: Result<(), String>)
        requires
            old(self).wf(),
        ensures
            final(self).wf(),
            match result {
                Ok(_) => {
                    &&& final(self).output@ == "Created "@ + old(self).new_file_name@
                    &&& final(self).files@ == old(self).files@.push(path)
                    &&& final(self).new_file_name@.len() == 0
                    &&& *final(self) == (MyIDE {
                        output: final(self).output,
                        files: final(self).files,
                        new_file_name: final(self).new_file_name,
                        ..*old(self)
                    })
                },
                Err(e) => *final(self) == (MyIDE { output: e, ..*old(self) }),
            },
    {
        match result {
            Ok(_) => {
                self.output = concat_text("Created ", self.new_file_name.as_str());
                self.files.push(path);
                self.new_file_name = String::new();
            },
            Err(e) => {
                self.output = e;
            },
        }
    }

    /// The path of the folder to create: the typed name in the open folder,
    /// when both are given.
    pub fn create_folder_target(&self) -> (r: Option<String>)
        ensures
            r is Some <==> (self.folder_path@.len() > 0 && self.new_folder_name@.len() > 0),
            r matches Some(p) ==> p@ == joined_path(self.folder_path@, self.new_folder_name@),
    {
        if !self.folder_path.as_str().is_empty() && !self.new_folder_name.as_str().is_empty() {
            Some(join_path(self.folder_path.as_str(), self.new_folder_name.as_str()))
        } else {
            None
        }
    }

    /// The folder was created, or creating it failed with a message.
    pub fn folder_created(&mut self, result: Result<(), String>)
        requires
            old(self).wf(),
        ensures
            final(self).wf(),
            match result {
                Ok(_) => {
                    &&& final(self).output@ == "Created folder "@ + old(self).new_folder_name@
                    &&& final(self).new_folder_name@.len() == 0
                    &&& *final(self) == (MyIDE {
                        output: final(self).output,
                        new_folder_name: final(self).new_folder_name,
                        ..*old(self)
                    })
                },
                Err(e) => *final(self) == (MyIDE { output: e, ..*old(self) }),
            },
    {
        match result {
            Ok(_) => {
                self.output = concat_text("Created folder ", self.new_folder_name.as_str());
                self.new_folder_name = String::new();
            },
            Err(e) => {
                self.output = e;
            },
        }
    }

    /// The path the open file is renamed to: the typed name in the open
    /// file's directory, when both a file and a name are given.
    pub fn rename_target(&self) -> (r: Option<String>)
        ensures
            r is Some <==> (self.file_path@.len() > 0 && self.rename_file_name@.len() > 0),
            r matches Some(p) ==> exists|dir: Seq<char>|
                starts_with(self.file_path@, dir) && p@ == joined_path(dir, self.rename_file_name@),
            r is Some && is_simple_path(self.file_path@) ==> r.unwrap()@ == joined_path(
                parent_or_empty(self.file_path@),
                self.rename_file_name@,
            ),
    {
        if !self.file_path.as_str().is_empty() && !self.rename_file_name.as_str().is_empty() {
            let parent = path_parent(self.file_path.as_str());
            let r = renamed_path(&parent, self.rename_file_name.as_str());
            proof {
                match parent {
                    Some(p) => {
                        assert(starts_with(self.file_path@, p@));
                    },
                    None => {
                        assert(self.file_path@.subrange(0, 0) =~= Seq::<char>::empty());
                        assert(starts_with(self.file_path@, Seq::<char>::empty()));
                    },
                }
            }
            Some(r)
        } else {
            None
        }
    }

    /// The open file was renamed to `new_path`, or renaming failed with a
    /// message. Returns whether the folder's files must be listed again.
    pub fn file_renamed(&mut self, new_path: String, result: Result<(), String>) -> (relist: bool)
        requires
            old(self).wf(),
        ensures
            final(self).wf(),
            relist == (result is Ok),
            match result {
                Ok(_) => {
                    &&& final(self).output@ == "Renamed "@ + old(self).file_path@ + " to "@
                        + old(self).rename_file_name@
                    &&& texts(final(self).tabs@) == retargeted(
                        texts(old(self).tabs@),
                        old(self).file_path@,
                        new_path@,
                    )
                    &&& final(self).file_path == new_path
                    &&& final(self).rename_file_name@.len() == 0
                    &&& *final(self) == (MyIDE {
                        output: final(self).output,
                        tabs: final(self).tabs,
                        file_path: final(self).file_path,
                        rename_file_name: final(self).rename_file_name,
                        ..*old(self)
                    })
                },
                Err(e) => *final(self) == (MyIDE { output: e, ..*old(self) }),
            },
    {
        match result {
            Ok(_) => {
                let a = concat_text("Renamed ", self.file_path.as_str());
                let b = concat_text(a.as_str(), " to ");
                self.output = concat_text(b.as_str(), self.rename_file_name.as_str());
                let ghost t = texts(self.tabs@);
                let ghost from = self.file_path@;
                let n = self.tabs.len();
                let mut k: usize = 0;
                while k < n && !same_text(self.tabs[k].as_str(), self.file_path.as_str())
                    invariant
                        n == self.tabs@.len(),
                        t == texts(self.tabs@),
                        from == self.file_path@,
                        k <= n,
                        forall|j: int| 0 <= j < k ==> t[j] != from,
                    decreases n - k,
                {
                    k += 1;
                }
                proof {
                    if k < n {
                        assert(first_at(t, from, k as int));
                        let c = choose|c: int| first_at(t, from, c);
                        assert(c == k as int) by {
                            if c < k as int {
                                assert(t[c] != from);
                            } else if c > k as int {
                                assert(t[k as int] != from);
                            }
                        }
                    } else {
                        assert(!exists|c: int| first_at(t, from, c));
                    }
                }
                if k < n {
                    self.tabs.set(k, new_path.clone());
                    assert(texts(self.tabs@) =~= t.update(k as int, new_path@));
                }
                self.file_path = new_path;
                self.rename_file_name = String::new();
                true
            },
            Err(e) => {
                self.output = e;
                false
            },
        }
    }

    /// The files shown in the side panel, in order, each with the name it is
    /// shown under.
    pub fn visible_files(&self) -> (r: Vec<(String, String)>)
        ensures
            text_pairs(r@) == listing(texts(self.files@), self.folder_path@, self.search_text@),
    {
        let ghost paths = texts(self.files@);
        let search = to_lower(self.search_text.as_str());
        let mut r: Vec<(String, String)> = Vec::new();
        let n = self.files.len();
        let mut i: usize = 0;
        while i < n
            invariant
                i <= n == self.files@.len(),
                paths == texts(self.files@),
                search@ == lowercase(self.search_text@),
                text_pairs(r@) == listing(paths.take(i as int), self.folder_path@, self.search_text@),
            decreases n - i,
        {
            let path = &self.files[i];
            let ghost before = r@;
            assert(paths.take(i + 1).drop_last() =~= paths.take(i as int));
            assert(paths.take(i + 1).last() == path@);
            if self.search_text.as_str().is_empty() || contains(
                to_lower(path.as_str()).as_str(),
                search.as_str(),
            ) {
                let inner = replace(path.as_str(), self.folder_path.as_str(), "");
                proof {
                    reveal_strlit("");
                    assert(""@ =~= Seq::<char>::empty());
                }
                let name = replace(inner.as_str(), "\\", "/");
                r.push((path.clone(), name));
                assert(text_pairs(r@) =~= text_pairs(before).push((path@, name@)));
            }
            i += 1;
        }
        assert(paths.take(n as int) =~= paths);
        r
    }

    /// A listed file was clicked: it becomes the open file and gets a tab,
    /// and its text is read (`read`), or reading failed with a message.
    /// `name` is the name it is listed under.
    pub fn open_file(&mut self, path: String, name: &str, read: Result<String, String>)
        requires
            old(self).wf(),
        ensures
            final(self).wf(),
            final(self).file_path == path,
            final(self).delete_file_path == path,
            texts(final(self).tabs@) == tabs_after_open(texts(old(self).tabs@), path@),
            match read {
                Ok(content) => final(self).code == content && final(self).output@ == "Opened: "@
                    + name@,
                Err(e) => final(self).code == old(self).code && final(self).output@ == "Error: "@
                    + e@,
            },
            *final(self) == (MyIDE {
                file_path: final(self).file_path,
                delete_file_path: final(self).delete_file_path,
                tabs: final(self).tabs,
                code: final(self).code,
                output: final(self).output,
                ..*old(self)
            }),
    {
        let ghost t = texts(self.tabs@);
        let n = self.tabs.len();
        let mut k: usize = 0;
        while k < n && !same_text(self.tabs[k].as_str(), path.as_str())
            invariant
                n == self.tabs@.len(),
                t == texts(self.tabs@),
                k <= n,
                forall|j: int| 0 <= j < k ==> t[j] != path@,
            decreases n - k,
        {
            k += 1;
        }
        let found = k < n;
        proof {
            if found {
                assert(t[k as int] == path@);
                assert(t.contains(path@));
            } else {
                assert(!t.contains(path@));
            }
        }
        if !found {
            self.tabs.push(path.clone());
            assert(texts(self.tabs@) =~= t.push(path@));
        }
        self.delete_file_path = path.clone();
        self.file_path = path;
        match read {
            Ok(content) => {
                self.code = content;
                self.output = concat_text("Opened: ", name);
            },
            Err(e) => {
                self.output = concat_text("Error: ", e.as_str());
            },
        }
    }

    /// The tab at `index` was clicked: it becomes the selected tab and, when
    /// its file could be read (`read`), the open file with that text.
    pub fn select_tab(&mut self, index: usize, read: Result<String, String>)
        requires
            old(self).wf(),
            index < old(self).tabs.len(),
        ensures
            final(self).wf(),
            final(self).current_tab == index,
            match read {
                Ok(content) => {
                    &&& final(self).code == content
                    &&& final(self).file_path == old(self).tabs@[index as int]
                },
                Err(_) => final(self).code == old(self).code && final(self).file_path
                    == old(self).file_path,
            },
            *final(self) == (MyIDE {
                current_tab: final(self).current_tab,
                code: final(self).code,
                file_path: final(self).file_path,
                ..*old(self)
            }),
    {
        self.current_tab = index;
        match read {
            Ok(content) => {
                self.code = content;
                self.file_path = self.tabs[index].clone();
            },
            Err(_) => {},
        }
    }

    /// The close button of the tab at `index` was clicked.
    pub fn close_tab(&mut self, index: usize)
        requires
            old(self).wf(),
            index < old(self).tabs.len(),
        ensures
            final(self).wf(),
            final(self).tabs@ == old(self).tabs@.remove(index as int),
            final(self).current_tab == tab_after_close(
                old(self).current_tab as int,
                final(self).tabs@.len() as int,
            ),
            *final(self) == (MyIDE {
                tabs: final(self).tabs,
                current_tab: final(self).current_tab,
                ..*old(self)
            }),
    {
        self.tabs.remove(index);
        let len = self.tabs.len();
        if self.current_tab >= len {
            self.current_tab = if len > 0 {
                len - 1
            } else {
                0
            };
        }
    }

    /// The open file was saved, or saving failed with a message.
    pub fn file_saved(&mut self, result: Result<(), String>)
        requires
            old(self).wf(),
        ensures
            final(self).wf(),
            final(self).output@ == match result {
                Ok(_) => "File saved successfully!"@,
                Err(e) => "Error: "@ + e@,
            },
            *final(self) == (MyIDE { output: final(self).output, ..*old(self) }),
    {
        match result {
            Ok(_) => {
                self.output = owned("File saved successfully!");
            },
            Err(e) => {
                self.output = concat_text("Error: ", e.as_str());
            },
        }
    }

    /// The path of the file to delete: the open file, when there is one.
    pub fn delete_target(&self) -> (r: Option<String>)
        ensures
            r is Some <==> self.file_path@.len() > 0,
            r matches Some(p) ==> p == self.file_path,
    {
        if !self.file_path.as_str().is_empty() {
            Some(self.file_path.clone())
        } else {
            None
        }
    }

    /// The open file was deleted, or deleting failed with a message. Returns
    /// whether the folder's files must be listed again.
    pub fn file_deleted(&mut self, result: Result<(), String>) -> (relist: bool)
        requires
            old(self).wf(),
        ensures
            final(self).wf(),
            relist == (result is Ok),
            match result {
                Ok(_) => {
                    &&& final(self).output@ == "Deleted "@ + old(self).file_path@
                    &&& final(self).code@.len() == 0
                    &&& final(self).file_path@.len() == 0
                    &&& *final(self) == (MyIDE {
                        output: final(self).output,
                        code: final(self).code,
                        file_path: final(self).file_path,
                        ..*old(self)
                    })
                },
                Err(e) => *final(self) == (MyIDE { output: e, ..*old(self) }),
            },
    {
        match result {
            Ok(_) => {
                self.output = concat_text("Deleted ", self.file_path.as_str());
                self.code = String::new();
                self.file_path = String::new();
                true
            },
            Err(e) => {
                self.output = e;
                false
            },
        }
    }

    /// The folder `cargo` runs in: the open folder, when there is one.
    pub fn cargo_target(&self) -> (r: Option<String>)
        ensures
            r is Some <==> self.folder_path@.len() > 0,
            r matches Some(p) ==> p == self.folder_path,
    {
        if !self.folder_path.as_str().is_empty() {
            Some(self.folder_path.clone())
        } else {
            None
        }
    }

    /// A `cargo` run finished with the bytes it wrote to its error and
    /// standard output, or could not be started. The terminal shows the
    /// error output, or the standard output when the error output is empty.
    pub fn cargo_finished(&mut self, result: Result<(Vec<u8>, Vec<u8>), String>)
        requires
            old(self).wf(),
        ensures
            final(self).wf(),
            final(self).terminal_output@ == match result {
                Ok((err, out)) => if err@.len() > 0 {
                    lossy_text(err@)
                } else {
                    lossy_text(out@)
                },
                Err(e) => e@,
            },
            *final(self) == (MyIDE { terminal_output: final(self).terminal_output, ..*old(self) }),
    {
        match result {
            Ok((err, out)) => {
                self.terminal_output = lossy_utf8(err.as_slice());
                if self.terminal_output.as_str().is_empty() {
                    self.terminal_output = lossy_utf8(out.as_slice());
                }
            },
            Err(e) => {
                self.terminal_output = e;
            },
        }
    }
}

} // verus!
