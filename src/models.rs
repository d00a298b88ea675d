//! The data held by the clipboard and the folder registry, with the list
//! operations both of them share.
use vstd::prelude::*;
use crate::text::{dec, decimal, same_text};

verus! {

/// One file's captured text, keyed by the path it was read from.
#[derive(Debug)]
pub struct CopiedFile {
    pub display_path: String,
    pub base_path: String,
    pub content: String,
}

impl CopiedFile {
    pub fn new(display_path: String, base_path: String, content: String) -> (r: Self)
        ensures
            r.display_path == display_path,
            r.base_path == base_path,
            r.content == content,
    {
        CopiedFile { display_path, base_path, content }
    }
}

/// The text of one entry in a combined rendering.
pub open spec fn entry_text(f: CopiedFile) -> Seq<char> {
    f.display_path@ + "\n\n"@ + f.content@
}

/// Entries joined in order, separated by a horizontal rule; empty when there
/// are none.
pub open spec fn render(s: Seq<CopiedFile>) -> Seq<char>
    decreases s.len(),
{
    if s.len() == 0 {
        Seq::empty()
    } else if s.len() == 1 {
        entry_text(s[0])
    } else {
        render(s.drop_last()) + "\n\n---\n\n"@ + entry_text(s.last())
    }
}

/// Nothing renders as the empty text, and a single entry as its path, a
/// blank line and its text, with no separator.
pub proof fn lemma_render_small(f: CopiedFile)
    ensures
        render(Seq::<CopiedFile>::empty()).len() == 0,
        render(seq![f]) == f.display_path@ + "\n\n"@ + f.content@,
{
}

/// The entries whose source path differs from `key`, in order.
pub open spec fn without_key(s: Seq<CopiedFile>, key: Seq<char>) -> Seq<CopiedFile>
    decreases s.len(),
{
    if s.len() == 0 {
        s
    } else if s.last().base_path@ == key {
        without_key(s.drop_last(), key)
    } else {
        without_key(s.drop_last(), key).push(s.last())
    }
}

/// The entries whose source path is `key`, in order.
pub open spec fn with_key(s: Seq<CopiedFile>, key: Seq<char>) -> Seq<CopiedFile>
    decreases s.len(),
{
    if s.len() == 0 {
        s
    } else if s.last().base_path@ == key {
        with_key(s.drop_last(), key).push(s.last())
    } else {
        with_key(s.drop_last(), key)
    }
}

/// The list after copying `f`: an older entry for the same path is dropped
/// and `f` goes to the end.
pub open spec fn replaced(s: Seq<CopiedFile>, f: CopiedFile) -> Seq<CopiedFile> {
    without_key(s, f.base_path@).push(f)
}

/// No two entries share a source path.
pub open spec fn keys_unique(s: Seq<CopiedFile>) -> bool {
    forall|i: int, j: int|
        0 <= i < j < s.len() ==> (#[trigger] s[i]).base_path@ != (#[trigger] s[j]).base_path@
}

/// Renders the entries as one block of text.
pub fn render_entries(files: &Vec<CopiedFile>) -> (r: String)
    ensures
        r@ == render(files@),
{
    let mut out = String::new();
    let mut i: usize = 0;
    while i < files.len()
        invariant
            i <= files.len(),
            out@ == render(files@.subrange(0, i as int)),
        decreases files.len() - i,
    {
        let f = &files[i];
        if i > 0 {
            out.append("\n\n---\n\n");
        }
        out.append(f.display_path.as_str());
        out.append("\n\n");
        out.append(f.content.as_str());
        proof {
            let s = files@.subrange(0, i + 1);
            assert(s.drop_last() =~= files@.subrange(0, i as int));
            assert(s.last() == files@[i as int]);
            if i > 0 {
                assert(out@ =~= render(s.drop_last()) + "\n\n---\n\n"@ + entry_text(s.last()));
            } else {
                assert(out@ =~= entry_text(s[0]));
            }
        }
        i = i + 1;
    }
    assert(files@.subrange(0, files@.len() as int) =~= files@);
    out
}

/// Drops every entry whose source path is `key`, keeping the order of the rest.
pub fn remove_key(files: &mut Vec<CopiedFile>, key: &str)
    ensures
        final(files)@ == without_key(old(files)@, key@),
{
    let ghost orig = files@;
    let mut i: usize = 0;
    let ghost mut k: int = 0;
    while i < files.len()
        invariant
            i <= files.len(),
            0 <= k <= orig.len(),
            files@.subrange(0, i as int) == without_key(orig.subrange(0, k), key@),
            files@.subrange(i as int, files@.len() as int) == orig.subrange(k, orig.len() as int),
        decreases files.len() - i,
    {
        let ghost prev = files@;
        assert(prev.subrange(i as int, prev.len() as int).len() == orig.subrange(
            k,
            orig.len() as int,
        ).len());
        assert(k < orig.len());
        assert(prev[i as int] == orig[k]) by {
            assert(prev.subrange(i as int, prev.len() as int)[0] == prev[i as int]);
            assert(orig.subrange(k, orig.len() as int)[0] == orig[k]);
        }
        assert(orig.subrange(0, k + 1).drop_last() =~= orig.subrange(0, k));
        assert(prev.subrange(i + 1, prev.len() as int) =~= prev.subrange(
            i as int,
            prev.len() as int,
        ).subrange(1, prev.len() - i));
        assert(orig.subrange(k + 1, orig.len() as int) =~= orig.subrange(
            k,
            orig.len() as int,
        ).subrange(1, orig.len() - k));
        if same_text(files[i].base_path.as_str(), key) {
            files.remove(i);
            assert(without_key(orig.subrange(0, k + 1), key@) == without_key(
                orig.subrange(0, k),
                key@,
            ));
            assert(files@.subrange(0, i as int) =~= prev.subrange(0, i as int));
            assert(files@.subrange(i as int, files@.len() as int) =~= orig.subrange(
                k + 1,
                orig.len() as int,
            ));
        } else {
            i = i + 1;
            assert(without_key(orig.subrange(0, k + 1), key@) == without_key(
                orig.subrange(0, k),
                key@,
            ).push(orig[k]));
            assert(files@.subrange(0, i as int) =~= prev.subrange(0, i - 1).push(prev[i - 1]));
            assert(files@.subrange(i as int, files@.len() as int) =~= orig.subrange(
                k + 1,
                orig.len() as int,
            ));
        }
        proof {
            k = k + 1;
        }
    }
    assert(orig.subrange(0, k) =~= orig);
    assert(files@.subrange(0, i as int) =~= files@);
}

/// Copies `f` into the list: any older entry for its path is dropped and `f`
/// is appended.
pub fn replace_or_append(files: &mut Vec<CopiedFile>, f: CopiedFile)
    ensures
        final(files)@ == replaced(old(files)@, f),
{
    remove_key(files, f.base_path.as_str());
    files.push(f);
}

/// A line range of a file and the text extracted from it.
#[derive(Debug)]
pub struct FileSelection {
    pub start_line: u32,
    pub end_line: u32,
    pub content: String,
}

/// `path:line` for a single line, `path:start-end` otherwise.
pub open spec fn path_with_lines(path: Seq<char>, start: u32, end: u32) -> Seq<char> {
    if start == end {
        path + ":"@ + dec(start as nat)
    } else {
        path + ":"@ + dec(start as nat) + "-"@ + dec(end as nat)
    }
}

impl FileSelection {
    pub fn new(start_line: u32, end_line: u32, content: String) -> (r: Self)
        ensures
            r.start_line == start_line,
            r.end_line == end_line,
            r.content == content,
    {
        FileSelection { start_line, end_line, content }
    }

    /// The path shown for this selection of the file at `base_path`.
    pub fn format_path_with_lines(&self, base_path: &str) -> (r: String)
        ensures
            r@ == path_with_lines(base_path@, self.start_line, self.end_line),
    {
        let mut r = String::from_str(base_path);
        r.append(":");
        let start = decimal(self.start_line as u64);
        r.append(start.as_str());
        if self.start_line != self.end_line {
            r.append("-");
            let end = decimal(self.end_line as u64);
            r.append(end.as_str());
        }
        r
    }
}

/// A named group of file paths with an optional color.
#[derive(Debug)]
pub struct Folder {
    pub id: String,
    pub name: String,
    pub files: Vec<String>,
    pub color: Option<String>,
}

/// Some path in `files` is `p`.
pub open spec fn has_path(files: Seq<String>, p: Seq<char>) -> bool {
    exists|i: int| 0 <= i < files.len() && (#[trigger] files[i])@ == p
}

/// `i` is the first position of `p` in `files`.
pub open spec fn first_path_at(files: Seq<String>, p: Seq<char>, i: int) -> bool {
    0 <= i < files.len() && files[i]@ == p && forall|j: int| 0 <= j < i ==> (#[trigger] files[j])@ != p
}

/// No path occurs twice.
pub open spec fn paths_unique(files: Seq<String>) -> bool {
    forall|i: int, j: int| 0 <= i < j < files.len() ==> (#[trigger] files[i])@ != (#[trigger] files[j])@
}

/// Where `p` first occurs in `files`.
fn path_position(files: &Vec<String>, p: &str) -> (r: Option<usize>)
    ensures
        match r {
            Some(i) => first_path_at(files@, p@, i as int),
            None => !has_path(files@, p@),
        },
{
    let mut i: usize = 0;
    while i < files.len()
        invariant
            i <= files.len(),
            forall|j: int| 0 <= j < i ==> (#[trigger] files@[j])@ != p@,
        decreases files.len() - i,
    {
        if same_text(files[i].as_str(), p) {
            return Some(i);
        }
        i = i + 1;
    }
    None
}

impl Folder {
    pub fn new(id: String, name: String) -> (r: Self)
        ensures
            r.id == id,
            r.name == name,
            r.files@.len() == 0,
            r.color.is_none(),
    {
        Folder { id, name, files: Vec::new(), color: None }
    }

    /// Appends `file_path` unless it is already present; tells whether it was
    /// added.
    pub fn add_file(&mut self, file_path: String) -> (r: bool)
        ensures
            r == !has_path(old(self).files@, file_path@),
            r ==> final(self).files@ == old(self).files@.push(file_path),
            !r ==> *final(self) == *old(self),
            final(self).id == old(self).id,
            final(self).name == old(self).name,
            final(self).color == old(self).color,
    {
        match path_position(&self.files, file_path.as_str()) {
            Some(_) => false,
            None => {
                self.files.push(file_path);
                true
            },
        }
    }

    /// Removes the first occurrence of `file_path`; tells whether there was one.
    pub fn remove_file(&mut self, file_path: &str) -> (r: bool)
        ensures
            r == has_path(old(self).files@, file_path@),
            r ==> exists|i: int|
                first_path_at(old(self).files@, file_path@, i) && final(self).files@ == old(
                    self,
                ).files@.remove(i),
            !r ==> *final(self) == *old(self),
            final(self).id == old(self).id,
            final(self).name == old(self).name,
            final(self).color == old(self).color,
    {
        match path_position(&self.files, file_path) {
            Some(i) => {
                self.files.remove(i);
                true
            },
            None => false,
        }
    }

    pub fn has_file(&self, file_path: &str) -> (r: bool)
        ensures
            r == has_path(self.files@, file_path@),
    {
        path_position(&self.files, file_path).is_some()
    }

    pub fn file_count(&self) -> (r: usize)
        ensures
            r == self.files@.len(),
    {
        self.files.len()
    }
}

/// Some folder has the id `id`.
pub open spec fn has_id(folders: Seq<Folder>, id: Seq<char>) -> bool {
    exists|i: int| 0 <= i < folders.len() && (#[trigger] folders[i]).id@ == id
}

/// `i` is the first position of a folder with the id `id`.
pub open spec fn first_id_at(folders: Seq<Folder>, id: Seq<char>, i: int) -> bool {
    0 <= i < folders.len() && folders[i].id@ == id && forall|j: int|
        0 <= j < i ==> (#[trigger] folders[j]).id@ != id
}

/// Where the first folder with the id `id` stands.
pub fn folder_position(folders: &Vec<Folder>, id: &str) -> (r: Option<usize>)
    ensures
        match r {
            Some(i) => first_id_at(folders@, id@, i as int),
            None => !has_id(folders@, id@),
        },
{
    let mut i: usize = 0;
    while i < folders.len()
        invariant
            i <= folders.len(),
            forall|j: int| 0 <= j < i ==> (#[trigger] folders@[j]).id@ != id@,
        decreases folders.len() - i,
    {
        if same_text(folders[i].id.as_str(), id) {
            return Some(i);
        }
        i = i + 1;
    }
    None
}

/// The clipboard entries and the folders of one editor session.
#[derive(Debug)]
pub struct ExtensionState {
    pub copied_files: Vec<CopiedFile>,
    pub folders: Vec<Folder>,
}

impl Default for ExtensionState {
    fn default() -> (r: Self)
        ensures
            r.copied_files@.len() == 0,
            r.folders@.len() == 0,
    {
        ExtensionState { copied_files: Vec::new(), folders: Vec::new() }
    }
}

impl ExtensionState {
    pub fn new() -> (r: Self)
        ensures
            r.copied_files@.len() == 0,
            r.folders@.len() == 0,
    {
        ExtensionState { copied_files: Vec::new(), folders: Vec::new() }
    }

    /// Stores `copied_file`, replacing the entry for the same source path.
    pub fn add_copied_file(&mut self, copied_file: CopiedFile)
        ensures
            final(self).copied_files@ == replaced(old(self).copied_files@, copied_file),
            final(self).folders == old(self).folders,
    {
        replace_or_append(&mut self.copied_files, copied_file);
    }

    pub fn clear_copied_files(&mut self)
        ensures
            final(self).copied_files@.len() == 0,
            final(self).folders == old(self).folders,
    {
        self.copied_files.clear();
    }

    pub fn add_folder(&mut self, folder: Folder)
        ensures
            final(self).folders@ == old(self).folders@.push(folder),
            final(self).copied_files == old(self).copied_files,
    {
        self.folders.push(folder);
    }

    /// Removes the first folder with the id `folder_id`; tells whether there
    /// was one.
    pub fn remove_folder(&mut self, folder_id: &str) -> (r: bool)
        ensures
            r == has_id(old(self).folders@, folder_id@),
            r ==> exists|i: int|
                first_id_at(old(self).folders@, folder_id@, i) && final(self).folders@ == old(
                    self,
                ).folders@.remove(i),
            !r ==> final(self).folders@ == old(self).folders@,
            final(self).copied_files == old(self).copied_files,
    {
        match folder_position(&self.folders, folder_id) {
            Some(i) => {
                self.folders.remove(i);
                true
            },
            None => false,
        }
    }

    pub fn find_folder(&self, folder_id: &str) -> (r: Option<&Folder>)
        ensures
            match r {
                Some(f) => exists|i: int|
                    first_id_at(self.folders@, folder_id@, i) && *f == self.folders@[i],
                None => !has_id(self.folders@, folder_id@),
            },
    {
        match folder_position(&self.folders, folder_id) {
            Some(i) => Some(&self.folders[i]),
            None => None,
        }
    }

    pub fn find_folder_mut(&mut self, folder_id: &str) -> (r: Option<&mut Folder>)
        ensures
            match r {
                Some(f) => exists|i: int|
                    first_id_at(old(self).folders@, folder_id@, i) && *f == old(self).folders@[i]
                        && final(self).folders@ == old(self).folders@.update(i, *final(f))
                        && final(self).copied_files == old(self).copied_files,
                None => !has_id(old(self).folders@, folder_id@) && *final(self) == *old(self),
            },
    {
        match folder_position(&self.folders, folder_id) {
            Some(i) => Some(&mut self.folders[i]),
            None => None,
        }
    }

    pub fn generate_combined_content(&self) -> (r: String)
        ensures
            r@ == render(self.copied_files@),
    {
        render_entries(&self.copied_files)
    }

    pub fn copied_files_count(&self) -> (r: usize)
        ensures
            r == self.copied_files@.len(),
    {
        self.copied_files.len()
    }

    pub fn folders_count(&self) -> (r: usize)
        ensures
            r == self.folders@.len(),
    {
        self.folders.len()
    }
}

} // verus!
