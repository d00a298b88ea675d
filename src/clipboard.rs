//! The clipboard: one entry per source file, rendered as a single block of
//! text.
use vstd::prelude::*;
use crate::error::CoreError;
use crate::models::{
    keys_unique, render, render_entries, remove_key, replace_or_append, replaced, with_key,
    without_key, path_with_lines, CopiedFile, FileSelection,
};
use crate::text::{dec, decimal, same_text};

verus! {

/// The clipboard's entries, at most one per source path.
pub struct ClipboardManager {
    pub copied_files: Vec<CopiedFile>,
}

/// The summary line for `n` stored entries.
pub open spec fn status_text(n: nat) -> Seq<char> {
    if n == 0 {
        "No files copied"@
    } else if n == 1 {
        "1 file copied"@
    } else {
        dec(n) + " files copied"@
    }
}

/// The path shown for a copy of `path`, with or without a selection.
pub open spec fn display_for(path: Seq<char>, selection: Option<FileSelection>) -> Seq<char> {
    match selection {
        Some(sel) => path_with_lines(path, sel.start_line, sel.end_line),
        None => path,
    }
}

/// The text stored for a copy, with or without a selection.
pub open spec fn text_for(content: Seq<char>, selection: Option<FileSelection>) -> Seq<char> {
    match selection {
        Some(sel) => sel.content@,
        None => content,
    }
}

/// `new` is `old` after a copy of `path` with the text `content`, or of the
/// selection of it: the new entry stands last, and no other entry has its
/// path.
pub open spec fn copied(
    old: Seq<CopiedFile>,
    path: String,
    content: String,
    selection: Option<FileSelection>,
    new: Seq<CopiedFile>,
) -> bool {
    &&& new.len() > 0
    &&& new.last().base_path@ == path@
    &&& new.last().display_path@ == display_for(path@, selection)
    &&& new.last().content@ == text_for(content@, selection)
    &&& new == replaced(old, new.last())
}

/// The entries after copying each of `calls` in turn.
pub open spec fn copy_all(s: Seq<CopiedFile>, calls: Seq<CopiedFile>) -> Seq<CopiedFile>
    decreases calls.len(),
{
    if calls.len() == 0 {
        s
    } else {
        replaced(copy_all(s, calls.drop_last()), calls.last())
    }
}

/// The entries after storing every readable file of `reads` (a path and, if
/// it could be read, its text) in turn.
pub open spec fn copy_reads(s: Seq<CopiedFile>, reads: Seq<(String, Option<String>)>) -> Seq<
    CopiedFile,
>
    decreases reads.len(),
{
    if reads.len() == 0 {
        s
    } else {
        let prev = copy_reads(s, reads.drop_last());
        match reads.last().1 {
            Some(c) => replaced(
                prev,
                CopiedFile { display_path: reads.last().0, base_path: reads.last().0, content: c },
            ),
            None => prev,
        }
    }
}

/// At least one file of `reads` could be read.
pub open spec fn any_read(reads: Seq<(String, Option<String>)>) -> bool {
    exists|i: int| 0 <= i < reads.len() && (#[trigger] reads[i]).1.is_some()
}

/// Some entry has the source path `key`.
pub open spec fn has_key(s: Seq<CopiedFile>, key: Seq<char>) -> bool {
    exists|i: int| 0 <= i < s.len() && (#[trigger] s[i]).base_path@ == key
}

/// Dropping every entry of `key` leaves no entry of `key`.
pub proof fn lemma_without_key_drops(s: Seq<CopiedFile>, key: Seq<char>)
    ensures
        with_key(without_key(s, key), key).len() == 0,
    decreases s.len(),
{
    if s.len() > 0 {
        lemma_without_key_drops(s.drop_last(), key);
        let w = without_key(s.drop_last(), key);
        if s.last().base_path@ != key {
            assert(w.push(s.last()).drop_last() =~= w);
        }
    }
}

/// Dropping the entries of `key` keeps those of any other path.
pub proof fn lemma_without_key_keeps(s: Seq<CopiedFile>, key: Seq<char>, other: Seq<char>)
    requires
        key != other,
    ensures
        with_key(without_key(s, key), other) == with_key(s, other),
    decreases s.len(),
{
    if s.len() > 0 {
        lemma_without_key_keeps(s.drop_last(), key, other);
        let w = without_key(s.drop_last(), key);
        if s.last().base_path@ != key {
            assert(w.push(s.last()).drop_last() =~= w);
        }
    }
}

/// How many entries are dropped for `key`, and that some are exactly when the
/// path is present.
pub proof fn lemma_without_key_len(s: Seq<CopiedFile>, key: Seq<char>)
    ensures
        without_key(s, key).len() + with_key(s, key).len() == s.len(),
        with_key(s, key).len() > 0 <==> has_key(s, key),
    decreases s.len(),
{
    if s.len() > 0 {
        lemma_without_key_len(s.drop_last(), key);
        if has_key(s.drop_last(), key) {
            let i = choose|i: int|
                0 <= i < s.drop_last().len() && (#[trigger] s.drop_last()[i]).base_path@ == key;
            assert(s[i] == s.drop_last()[i]);
        }
        if has_key(s, key) && s.last().base_path@ != key {
            let i = choose|i: int| 0 <= i < s.len() && (#[trigger] s[i]).base_path@ == key;
            assert(s.drop_last()[i] == s[i]);
        }
        if s.last().base_path@ == key {
            assert(s[s.len() - 1] == s.last());
        }
    }
}

/// Copying a file leaves exactly one entry for its path, the new one, and
/// leaves the entries of every other path as they were.
pub proof fn lemma_copy_replaces(s: Seq<CopiedFile>, f: CopiedFile, other: Seq<char>)
    ensures
        with_key(replaced(s, f), f.base_path@) == seq![f],
        other != f.base_path@ ==> with_key(replaced(s, f), other) == with_key(s, other),
{
    let k = f.base_path@;
    let w = without_key(s, k);
    lemma_without_key_drops(s, k);
    assert(w.push(f).drop_last() =~= w);
    assert(with_key(w, k) =~= Seq::<CopiedFile>::empty());
    assert(Seq::<CopiedFile>::empty().push(f) =~= seq![f]);
    if other != k {
        lemma_without_key_keeps(s, k, other);
    }
}

/// Whatever sequence of copies is made, each path copied at least once has
/// exactly one entry, and it is the one of the latest copy of that path.
pub proof fn lemma_repeated_copies(s: Seq<CopiedFile>, calls: Seq<CopiedFile>, j: int)
    requires
        0 <= j < calls.len(),
        forall|m: int| j < m < calls.len() ==> (#[trigger] calls[m]).base_path@ != calls[j].base_path@,
    ensures
        with_key(copy_all(s, calls), calls[j].base_path@) == seq![calls[j]],
    decreases calls.len(),
{
    let k = calls[j].base_path@;
    if j == calls.len() - 1 {
        lemma_copy_replaces(copy_all(s, calls.drop_last()), calls.last(), k);
    } else {
        assert forall|m: int| j < m < calls.drop_last().len() implies (
        #[trigger] calls.drop_last()[m]).base_path@ != calls.drop_last()[j].base_path@ by {
            assert(calls.drop_last()[m] == calls[m]);
        }
        lemma_repeated_copies(s, calls.drop_last(), j);
        assert(calls[calls.len() - 1] == calls.last());
        lemma_copy_replaces(copy_all(s, calls.drop_last()), calls.last(), k);
    }
}

/// Copying keeps the source paths of the entries distinct.
pub proof fn lemma_replaced_keys_unique(s: Seq<CopiedFile>, f: CopiedFile)
    requires
        keys_unique(s),
    ensures
        keys_unique(replaced(s, f)),
{
    let k = f.base_path@;
    lemma_without_key_unique(s, k);
    let w = without_key(s, k);
    let r = w.push(f);
    assert forall|i: int, j: int| 0 <= i < j < r.len() implies (#[trigger] r[i]).base_path@ != (
    #[trigger] r[j]).base_path@ by {
        if j == r.len() - 1 {
            lemma_without_key_other(s, k, i);
            assert(r[i] == w[i]);
        } else {
            assert(r[i] == w[i] && r[j] == w[j]);
        }
    }
}

/// Each entry left by `without_key` has another path.
proof fn lemma_without_key_other(s: Seq<CopiedFile>, key: Seq<char>, i: int)
    requires
        0 <= i < without_key(s, key).len(),
    ensures
        without_key(s, key)[i].base_path@ != key,
    decreases s.len(),
{
    if s.len() > 0 {
        let w = without_key(s.drop_last(), key);
        if i < w.len() {
            lemma_without_key_other(s.drop_last(), key, i);
        }
    }
}

/// Dropping the entries of a path keeps the source paths distinct.
proof fn lemma_without_key_unique(s: Seq<CopiedFile>, key: Seq<char>)
    requires
        keys_unique(s),
    ensures
        keys_unique(without_key(s, key)),
    decreases s.len(),
{
    if s.len() > 0 {
        let d = s.drop_last();
        assert(keys_unique(d)) by {
            assert forall|i: int, j: int| 0 <= i < j < d.len() implies (#[trigger] d[i]).base_path@
                != (#[trigger] d[j]).base_path@ by {
                assert(d[i] == s[i] && d[j] == s[j]);
            }
        }
        lemma_without_key_unique(d, key);
        let w = without_key(d, key);
        if s.last().base_path@ != key {
            let r = w.push(s.last());
            assert forall|i: int, j: int| 0 <= i < j < r.len() implies (
            #[trigger] r[i]).base_path@ != (#[trigger] r[j]).base_path@ by {
                if j == r.len() - 1 {
                    lemma_without_key_index(d, key, i);
                    let a = choose|a: int| 0 <= a < d.len() && w[i] == d[a];
                    assert(d[a] == s[a]);
                    assert(s[s.len() - 1] == s.last());
                    assert(r[i] == w[i]);
                } else {
                    assert(r[i] == w[i] && r[j] == w[j]);
                }
            }
        }
    }
}

/// Each entry left by `without_key` stands somewhere in the list.
proof fn lemma_without_key_index(s: Seq<CopiedFile>, key: Seq<char>, i: int)
    requires
        0 <= i < without_key(s, key).len(),
    ensures
        exists|a: int| 0 <= a < s.len() && without_key(s, key)[i] == s[a],
    decreases s.len(),
{
    if s.len() > 0 {
        let d = s.drop_last();
        let w = without_key(d, key);
        if i < w.len() {
            lemma_without_key_index(d, key, i);
            let a = choose|a: int| 0 <= a < d.len() && w[i] == d[a];
            assert(s[a] == d[a]);
        } else {
            assert(s[s.len() - 1] == s.last());
        }
    }
}

impl Default for ClipboardManager {
    fn default() -> (r: Self)
        ensures
            r.copied_files@.len() == 0,
    {
        ClipboardManager::new()
    }
}

impl ClipboardManager {
    /// No two entries share a source path.
    pub open spec fn wf(&self) -> bool {
        keys_unique(self.copied_files@)
    }

    pub fn new() -> (r: Self)
        ensures
            r.copied_files@.len() == 0,
            r.wf(),
    {
        ClipboardManager { copied_files: Vec::new() }
    }

    /// Stores the text of `file_path`, or of the selected lines of it, in
    /// place of any earlier copy of that file, and returns the combined text.
    pub fn copy_file_with_content(
        &mut self,
        file_path: String,
        content: String,
        selection: Option<FileSelection>,
    ) -> (r: Result<String, CoreError>)
        ensures
            copied(
                old(self).copied_files@,
                file_path,
                content,
                selection,
                final(self).copied_files@,
            ),
            old(self).wf() ==> final(self).wf(),
            r matches Ok(t) && t@ == render(final(self).copied_files@),
    {
        let display_path = match &selection {
            Some(sel) => sel.format_path_with_lines(file_path.as_str()),
            None => file_path.clone(),
        };
        let file_content = match selection {
            Some(sel) => sel.content,
            None => content,
        };
        let copied_file = CopiedFile::new(display_path, file_path, file_content);
        let ghost f = copied_file;
        proof {
            if old(self).wf() {
                lemma_replaced_keys_unique(old(self).copied_files@, f);
            }
        }
        replace_or_append(&mut self.copied_files, copied_file);
        Ok(render_entries(&self.copied_files))
    }

    /// Stores every file of `files` that could be read (a path, and its text
    /// if reading it succeeded), in order, and returns the combined text; when
    /// none could be read nothing changes and `NoFilesRead` is returned.
    pub fn copy_multiple_files(&mut self, files: Vec<(String, Option<String>)>) -> (r: Result<
        String,
        CoreError,
    >)
        ensures
            !any_read(files@) ==> r == Err::<String, CoreError>(CoreError::NoFilesRead)
                && final(self).copied_files@ == old(self).copied_files@,
            any_read(files@) ==> final(self).copied_files@ == copy_reads(
                old(self).copied_files@,
                files@,
            ) && (r matches Ok(t) && t@ == render(final(self).copied_files@)),
            old(self).wf() ==> final(self).wf(),
    {
        let mut found = false;
        let mut i: usize = 0;
        while i < files.len()
            invariant
                i <= files.len(),
                self.copied_files@ == copy_reads(old(self).copied_files@, files@.subrange(0, i as int)),
                found == any_read(files@.subrange(0, i as int)),
                !found ==> self.copied_files@ == old(self).copied_files@,
                old(self).wf() ==> self.wf(),
            decreases files.len() - i,
        {
            let ghost sub = files@.subrange(0, i + 1);
            assert(sub.drop_last() =~= files@.subrange(0, i as int));
            assert(sub.last() == files@[i as int]);
            match &files[i].1 {
                Some(c) => {
                    let path = files[i].0.clone();
                    let copied_file = CopiedFile::new(path.clone(), path, c.clone());
                    proof {
                        if old(self).wf() {
                            lemma_replaced_keys_unique(self.copied_files@, copied_file);
                        }
                    }
                    replace_or_append(&mut self.copied_files, copied_file);
                    found = true;
                    assert(sub[i as int].1.is_some());
                },
                None => {
                    assert(any_read(sub) == any_read(files@.subrange(0, i as int))) by {
                        if any_read(sub) {
                            let j = choose|j: int| 0 <= j < sub.len() && (#[trigger] sub[j]).1.is_some();
                            assert(files@.subrange(0, i as int)[j] == sub[j]);
                        }
                        if any_read(files@.subrange(0, i as int)) {
                            let j = choose|j: int|
                                0 <= j < i && (#[trigger] files@.subrange(0, i as int)[j]).1.is_some();
                            assert(files@.subrange(0, i as int)[j] == sub[j]);
                        }
                    }
                },
            }
            i = i + 1;
        }
        assert(files@.subrange(0, files@.len() as int) =~= files@);
        if !found {
            return Err(CoreError::NoFilesRead);
        }
        Ok(render_entries(&self.copied_files))
    }

    pub fn clear(&mut self)
        ensures
            final(self).copied_files@.len() == 0,
            final(self).wf(),
    {
        self.copied_files.clear();
    }

    /// The combined text of all entries.
    pub fn generate_combined_content(&self) -> (r: String)
        ensures
            r@ == render(self.copied_files@),
    {
        render_entries(&self.copied_files)
    }

    pub fn get_file_count(&self) -> (r: usize)
        ensures
            r == self.copied_files@.len(),
    {
        self.copied_files.len()
    }

    pub fn has_files(&self) -> (r: bool)
        ensures
            r == (self.copied_files@.len() > 0),
    {
        !self.copied_files.is_empty()
    }

    pub fn get_files(&self) -> (r: &Vec<CopiedFile>)
        ensures
            r == &self.copied_files,
    {
        &self.copied_files
    }

    /// Drops the entry of `base_path`; tells whether there was one.
    pub fn remove_file(&mut self, base_path: &str) -> (r: bool)
        ensures
            r == has_key(old(self).copied_files@, base_path@),
            final(self).copied_files@ == without_key(old(self).copied_files@, base_path@),
            old(self).wf() ==> final(self).wf(),
    {
        let initial_len = self.copied_files.len();
        proof {
            lemma_without_key_len(self.copied_files@, base_path@);
            if old(self).wf() {
                lemma_without_key_unique(self.copied_files@, base_path@);
            }
        }
        remove_key(&mut self.copied_files, base_path);
        self.copied_files.len() != initial_len
    }

    pub fn contains_file(&self, base_path: &str) -> (r: bool)
        ensures
            r == has_key(self.copied_files@, base_path@),
    {
        let mut i: usize = 0;
        while i < self.copied_files.len()
            invariant
                i <= self.copied_files.len(),
                forall|j: int| 0 <= j < i ==> (#[trigger] self.copied_files@[j]).base_path@ != base_path@,
            decreases self.copied_files.len() - i,
        {
            if same_text(self.copied_files[i].base_path.as_str(), base_path) {
                return true;
            }
            i = i + 1;
        }
        false
    }

    /// A one-line summary of how many files are held.
    pub fn get_status_message(&self) -> (r: String)
        ensures
            r@ == status_text(self.copied_files@.len()),
    {
        let count = self.copied_files.len();
        if count == 0 {
            String::from_str("No files copied")
        } else if count == 1 {
            String::from_str("1 file copied")
        } else {
            let mut s = decimal(count as u64);
            s.append(" files copied");
            s
        }
    }
}

} // verus!
