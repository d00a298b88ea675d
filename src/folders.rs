//! The folder registry: named, colorable groups of file paths.
use vstd::prelude::*;
use crate::error::CoreError;
use crate::models::{
    first_id_at, first_path_at, folder_position, has_id, has_path, paths_unique, render,
    render_entries, CopiedFile, Folder,
};
use crate::text::{dec, decimal, is_blank, is_space, same_text, text_is_blank};

verus! {

/// The longest folder name accepted, in characters.
pub const MAX_NAME_LEN: usize = 100;

/// The id given to the folder created when the counter stood at `n`.
pub open spec fn id_text(n: nat) -> Seq<char> {
    "folder_"@ + dec(n)
}

/// `id` was made from a counter value below `next`.
pub open spec fn made_below(id: Seq<char>, next: u64) -> bool {
    exists|k: nat| k < next && id == #[trigger] id_text(k)
}

/// A character that a folder name may not hold.
pub open spec fn is_forbidden(c: char) -> bool {
    c == '/' || c == '\\' || c == ':' || c == '*' || c == '?' || c == '"' || c == '<' || c == '>'
        || c == '|'
}

pub open spec fn has_forbidden(s: Seq<char>) -> bool {
    exists|i: int| 0 <= i < s.len() && is_forbidden(#[trigger] s[i])
}

/// Some folder is named `name`.
pub open spec fn has_name(folders: Seq<Folder>, name: Seq<char>) -> bool {
    exists|i: int| 0 <= i < folders.len() && (#[trigger] folders[i]).name@ == name
}

/// `i` is the first position of a folder named `name`.
pub open spec fn first_name_at(folders: Seq<Folder>, name: Seq<char>, i: int) -> bool {
    0 <= i < folders.len() && folders[i].name@ == name && forall|j: int|
        0 <= j < i ==> (#[trigger] folders[j]).name@ != name
}

/// Some folder other than the one with id `exclude` is named `name`.
pub open spec fn name_clash(folders: Seq<Folder>, name: Seq<char>, exclude: Option<Seq<char>>) -> bool {
    exists|i: int|
        0 <= i < folders.len() && (#[trigger] folders[i]).name@ == name && match exclude {
            Some(x) => folders[i].id@ != x,
            None => true,
        }
}

pub open spec fn opt_view(o: Option<&str>) -> Option<Seq<char>> {
    match o {
        Some(x) => Some(x@),
        None => None,
    }
}

/// The verdict on `name` as a folder name, other than for the folder with id
/// `exclude`.
pub open spec fn name_check(folders: Seq<Folder>, name: Seq<char>, exclude: Option<Seq<char>>) -> Result<
    (),
    CoreError,
> {
    if is_blank(name) {
        Err(CoreError::EmptyName)
    } else if name.len() > MAX_NAME_LEN {
        Err(CoreError::NameTooLong)
    } else if has_forbidden(name) {
        Err(CoreError::InvalidCharacters)
    } else if name_clash(folders, name, exclude) {
        Err(CoreError::DuplicateName)
    } else {
        Ok(())
    }
}

/// `files` in order, without the repeats of a path seen before.
pub open spec fn dedup(files: Seq<String>) -> Seq<String>
    decreases files.len(),
{
    if files.len() == 0 {
        files
    } else if has_path(dedup(files.drop_last()), files.last()@) {
        dedup(files.drop_last())
    } else {
        dedup(files.drop_last()).push(files.last())
    }
}

/// The folders whose files include `p`, in order.
pub open spec fn containing(folders: Seq<Folder>, p: Seq<char>) -> Seq<Folder>
    decreases folders.len(),
{
    if folders.len() == 0 {
        folders
    } else if has_path(folders.last().files@, p) {
        containing(folders.drop_last(), p).push(folders.last())
    } else {
        containing(folders.drop_last(), p)
    }
}

/// The number of file paths over all folders.
pub open spec fn total_files(folders: Seq<Folder>) -> nat
    decreases folders.len(),
{
    if folders.len() == 0 {
        0
    } else {
        total_files(folders.drop_last()) + folders.last().files@.len()
    }
}

/// The entries for the first `n` files of a folder that could be read;
/// `contents[i]` holds the text of `files[i]` where reading it succeeded.
pub open spec fn read_entries(files: Seq<String>, contents: Seq<Option<String>>, n: int) -> Seq<
    CopiedFile,
>
    decreases n,
{
    if n <= 0 {
        Seq::empty()
    } else {
        let prev = read_entries(files, contents, n - 1);
        if n - 1 < contents.len() && contents[n - 1] is Some {
            prev.push(
                CopiedFile {
                    display_path: files[n - 1],
                    base_path: files[n - 1],
                    content: contents[n - 1]->Some_0,
                },
            )
        } else {
            prev
        }
    }
}

/// What `create_folder` leaves and returns.
pub open spec fn create_post(
    old: FolderManager,
    name: String,
    initial_files: Seq<String>,
    new: FolderManager,
    r: Result<String, CoreError>,
) -> bool {
    if is_blank(name@) {
        r == Err::<String, CoreError>(CoreError::EmptyName) && new == old
    } else if has_name(old.folders@, name@) {
        r == Err::<String, CoreError>(CoreError::DuplicateName) && new == old
    } else {
        &&& new.folders@.len() == old.folders@.len() + 1
        &&& new.folders@.drop_last() == old.folders@
        &&& new.folders@.last().id@ == id_text(old.next_id as nat)
        &&& new.folders@.last().name == name
        &&& new.folders@.last().files@ == dedup(initial_files)
        &&& new.folders@.last().color.is_none()
        &&& new.next_id == old.next_id + 1
        &&& r matches Ok(m) && m@ == "Folder '"@ + name@ + "' created successfully"@
    }
}

/// What `delete_folder` leaves and returns.
pub open spec fn delete_post(
    old: FolderManager,
    folder_id: Seq<char>,
    new: FolderManager,
    r: Result<String, CoreError>,
) -> bool {
    &&& new.next_id == old.next_id
    &&& if !has_id(old.folders@, folder_id) {
        r == Err::<String, CoreError>(CoreError::FolderNotFound) && new == old
    } else {
        exists|i: int|
            {
                &&& first_id_at(old.folders@, folder_id, i)
                &&& new.folders@ == old.folders@.remove(i)
                &&& r matches Ok(m) && m@ == "Folder '"@ + old.folders@[i].name@
                    + "' deleted successfully"@
            }
    }
}

/// What `rename_folder` leaves and returns.
pub open spec fn rename_post(
    old: FolderManager,
    folder_id: Seq<char>,
    new_name: String,
    new: FolderManager,
    r: Result<String, CoreError>,
) -> bool {
    &&& new.next_id == old.next_id
    &&& if is_blank(new_name@) {
        r == Err::<String, CoreError>(CoreError::EmptyName) && new == old
    } else if name_clash(old.folders@, new_name@, Some(folder_id)) {
        r == Err::<String, CoreError>(CoreError::DuplicateName) && new == old
    } else if !has_id(old.folders@, folder_id) {
        r == Err::<String, CoreError>(CoreError::FolderNotFound) && new == old
    } else {
        exists|i: int|
            {
                &&& first_id_at(old.folders@, folder_id, i)
                &&& new.folders@ == old.folders@.update(
                    i,
                    (Folder { name: new_name, ..old.folders@[i] }),
                )
                &&& r matches Ok(m) && m@ == "Folder renamed from '"@ + old.folders@[i].name@
                    + "' to '"@ + new_name@ + "'"@
            }
    }
}

/// What `add_file_to_folder` leaves and returns.
pub open spec fn add_file_post(
    old: FolderManager,
    folder_id: Seq<char>,
    file_path: String,
    new: FolderManager,
    r: Result<String, CoreError>,
) -> bool {
    &&& new.next_id == old.next_id
    &&& if !has_id(old.folders@, folder_id) {
        r == Err::<String, CoreError>(CoreError::FolderNotFound) && new == old
    } else {
        exists|i: int|
            {
                &&& first_id_at(old.folders@, folder_id, i)
                &&& if has_path(old.folders@[i].files@, file_path@) {
                    r == Err::<String, CoreError>(CoreError::FileAlreadyInFolder) && new.folders@
                        == old.folders@
                } else {
                    &&& new.folders@ == old.folders@.update(i, new.folders@[i])
                    &&& new.folders@[i].files@ == old.folders@[i].files@.push(file_path)
                    &&& new.folders@[i].id == old.folders@[i].id
                    &&& new.folders@[i].name == old.folders@[i].name
                    &&& new.folders@[i].color == old.folders@[i].color
                    &&& r matches Ok(m) && m@ == "File '"@ + file_path@ + "' added to folder '"@
                        + old.folders@[i].name@ + "'"@
                }
            }
    }
}

/// What `remove_file_from_folder` leaves and returns.
pub open spec fn remove_file_post(
    old: FolderManager,
    folder_id: Seq<char>,
    file_path: Seq<char>,
    new: FolderManager,
    r: Result<String, CoreError>,
) -> bool {
    &&& new.next_id == old.next_id
    &&& if !has_id(old.folders@, folder_id) {
        r == Err::<String, CoreError>(CoreError::FolderNotFound) && new == old
    } else {
        exists|i: int|
            {
                &&& first_id_at(old.folders@, folder_id, i)
                &&& if !has_path(old.folders@[i].files@, file_path) {
                    r == Err::<String, CoreError>(CoreError::FileNotInFolder) && new.folders@
                        == old.folders@
                } else {
                    exists|j: int|
                        {
                            &&& first_path_at(old.folders@[i].files@, file_path, j)
                            &&& new.folders@ == old.folders@.update(i, new.folders@[i])
                            &&& new.folders@[i].files@ == old.folders@[i].files@.remove(j)
                            &&& new.folders@[i].id == old.folders@[i].id
                            &&& new.folders@[i].name == old.folders@[i].name
                            &&& new.folders@[i].color == old.folders@[i].color
                            &&& r matches Ok(m) && m@ == "File '"@ + file_path
                                + "' removed from folder '"@ + old.folders@[i].name@ + "'"@
                        }
                }
            }
    }
}

/// What `set_folder_color` leaves and returns.
pub open spec fn set_color_post(
    old: FolderManager,
    folder_id: Seq<char>,
    color: Option<String>,
    new: FolderManager,
    r: Result<String, CoreError>,
) -> bool {
    &&& new.next_id == old.next_id
    &&& if !has_id(old.folders@, folder_id) {
        r == Err::<String, CoreError>(CoreError::FolderNotFound) && new == old
    } else {
        exists|i: int|
            {
                &&& first_id_at(old.folders@, folder_id, i)
                &&& new.folders@ == old.folders@.update(
                    i,
                    (Folder { color: color, ..old.folders@[i] }),
                )
                &&& r matches Ok(m) && m@ == match color {
                    Some(c) => "Color '"@ + c@ + "' set for folder '"@ + old.folders@[i].name@
                        + "'"@,
                    None => "Color removed from folder '"@ + old.folders@[i].name@ + "'"@,
                }
            }
    }
}

/// What `copy_folder_contents` returns.
pub open spec fn folder_copy_post(
    folders: Seq<Folder>,
    folder_id: Seq<char>,
    contents: Seq<Option<String>>,
    r: Result<String, CoreError>,
) -> bool {
    if !has_id(folders, folder_id) {
        r == Err::<String, CoreError>(CoreError::FolderNotFound)
    } else {
        exists|i: int|
            {
                &&& first_id_at(folders, folder_id, i)
                &&& {
                    let e = read_entries(folders[i].files@, contents, folders[i].files@.len() as int);
                    if e.len() == 0 {
                        r == Err::<String, CoreError>(CoreError::NoReadableFiles)
                    } else {
                        r matches Ok(t) && t@ == render(e)
                    }
                }
            }
    }
}

/// The registry's folders, and the counter from which fresh ids are made.
pub struct FolderManager {
    pub folders: Vec<Folder>,
    pub next_id: u64,
}

impl Default for FolderManager {
    fn default() -> (r: Self)
        ensures
            r.folders@.len() == 0,
            r.next_id == 1,
            r.wf(),
    {
        FolderManager::new()
    }
}

impl FolderManager {
    /// Names and ids are distinct, no folder lists a path twice, and every id
    /// was made from a value below the counter.
    pub open spec fn wf(&self) -> bool {
        &&& forall|i: int, j: int|
            0 <= i < j < self.folders@.len() ==> (#[trigger] self.folders@[i]).name@ != (
            #[trigger] self.folders@[j]).name@
        &&& forall|i: int, j: int|
            0 <= i < j < self.folders@.len() ==> (#[trigger] self.folders@[i]).id@ != (
            #[trigger] self.folders@[j]).id@
        &&& forall|i: int| 0 <= i < self.folders@.len() ==> paths_unique((#[trigger] self.folders@[i]).files@)
        &&& forall|i: int|
            0 <= i < self.folders@.len() ==> made_below((#[trigger] self.folders@[i]).id@, self.next_id)
    }

    pub fn new() -> (r: Self)
        ensures
            r.folders@.len() == 0,
            r.next_id == 1,
            r.wf(),
    {
        FolderManager { folders: Vec::new(), next_id: 1 }
    }

    /// A fresh id, made from the counter, which moves on.
    fn generate_folder_id(&mut self) -> (r: String)
        requires
            old(self).next_id < u64::MAX,
        ensures
            r@ == id_text(old(self).next_id as nat),
            final(self).next_id == old(self).next_id + 1,
            final(self).folders == old(self).folders,
    {
        let mut id = String::from_str("folder_");
        let n = decimal(self.next_id);
        id.append(n.as_str());
        self.next_id = self.next_id + 1;
        id
    }

    /// Whether some folder is named `name`.
    fn name_in_use(&self, name: &str) -> (r: bool)
        ensures
            r == has_name(self.folders@, name@),
    {
        let mut i: usize = 0;
        while i < self.folders.len()
            invariant
                i <= self.folders.len(),
                forall|j: int| 0 <= j < i ==> (#[trigger] self.folders@[j]).name@ != name@,
            decreases self.folders.len() - i,
        {
            if same_text(self.folders[i].name.as_str(), name) {
                return true;
            }
            i = i + 1;
        }
        false
    }

    /// Creates a folder named `name` holding `initial_files` (repeats
    /// dropped), with a fresh id, at the end of the list.
    pub fn create_folder(&mut self, name: String, initial_files: Vec<String>) -> (r: Result<
        String,
        CoreError,
    >)
        requires
            old(self).next_id < u64::MAX,
        ensures
            create_post(*old(self), name, initial_files@, *final(self), r),
            old(self).wf() ==> final(self).wf(),
    {
        if text_is_blank(name.as_str()) {
            return Err(CoreError::EmptyName);
        }
        if self.name_in_use(name.as_str()) {
            return Err(CoreError::DuplicateName);
        }
        let ghost old_next = self.next_id;
        let folder_id = self.generate_folder_id();
        let mut folder = Folder::new(folder_id, name.clone());
        let mut i: usize = 0;
        while i < initial_files.len()
            invariant
                i <= initial_files.len(),
                folder.files@ == dedup(initial_files@.subrange(0, i as int)),
                paths_unique(folder.files@),
                folder.id@ == id_text(old_next as nat),
                folder.name == name,
                folder.color.is_none(),
            decreases initial_files.len() - i,
        {
            let ghost sub = initial_files@.subrange(0, i + 1);
            assert(sub.drop_last() =~= initial_files@.subrange(0, i as int));
            let added = folder.add_file(initial_files[i].clone());
            proof {
                if added {
                    assert forall|a: int, b: int|
                        0 <= a < b < folder.files@.len() implies (#[trigger] folder.files@[a])@
                        != (#[trigger] folder.files@[b])@ by {
                        if b == folder.files@.len() - 1 {
                            assert(folder.files@[a] == dedup(initial_files@.subrange(0, i as int))[a]);
                        }
                    }
                }
            }
            i = i + 1;
        }
        assert(initial_files@.subrange(0, initial_files@.len() as int) =~= initial_files@);
        let ghost before = self.folders@;
        self.folders.push(folder);
        assert(self.folders@.drop_last() =~= before);
        proof {
            if old(self).wf() {
                let fs = self.folders@;
                let n = before.len() as int;
                assert(fs[n].id@ == id_text(old_next as nat));
                assert forall|a: int, b: int| 0 <= a < b < fs.len() implies (#[trigger] fs[a]).id@
                    != (#[trigger] fs[b]).id@ by {
                    assert(fs[a] == before[a]);
                    if b == n {
                        let k = choose|k: nat| k < old_next && before[a].id@ == #[trigger] id_text(k);
                        if id_text(k) == id_text(old_next as nat) {
                            reveal_strlit("folder_");
                            assert(dec(k) =~= id_text(k).subrange(7, id_text(k).len() as int));
                            assert(dec(old_next as nat) =~= id_text(old_next as nat).subrange(
                                7,
                                id_text(old_next as nat).len() as int,
                            ));
                            crate::text::lemma_dec_injective(k, old_next as nat);
                        }
                    } else {
                        assert(fs[b] == before[b]);
                    }
                }
                assert forall|a: int, b: int| 0 <= a < b < fs.len() implies (#[trigger] fs[a]).name@
                    != (#[trigger] fs[b]).name@ by {
                    assert(fs[a] == before[a]);
                    if b < n {
                        assert(fs[b] == before[b]);
                    }
                }
                assert forall|a: int| 0 <= a < fs.len() implies made_below(
                    (#[trigger] fs[a]).id@,
                    self.next_id,
                ) by {
                    if a < n {
                        assert(fs[a] == before[a]);
                        let k = choose|k: nat| k < old_next && before[a].id@ == #[trigger] id_text(k);
                        assert(k < self.next_id && fs[a].id@ == id_text(k));
                    } else {
                        assert(fs[a].id@ == id_text(old_next as nat));
                    }
                }
                assert forall|a: int| 0 <= a < fs.len() implies paths_unique((#[trigger] fs[a]).files@) by {
                    if a < n {
                        assert(fs[a] == before[a]);
                    }
                }
            }
        }
        let mut msg = String::from_str("Folder '");
        msg.append(name.as_str());
        msg.append("' created successfully");
        Ok(msg)
    }

    /// Removes the first folder with id `folder_id`.
    pub fn delete_folder(&mut self, folder_id: &str) -> (r: Result<String, CoreError>)
        ensures
            delete_post(*old(self), folder_id@, *final(self), r),
            old(self).wf() ==> final(self).wf(),
    {
        match folder_position(&self.folders, folder_id) {
            Some(i) => {
                let mut msg = String::from_str("Folder '");
                msg.append(self.folders[i].name.as_str());
                msg.append("' deleted successfully");
                let ghost before = *self;
                self.folders.remove(i);
                proof {
                    if before.wf() {
                        lemma_remove_keeps_wf(before, *self, i as int);
                    }
                }
                Ok(msg)
            },
            None => Err(CoreError::FolderNotFound),
        }
    }

    /// Renames the first folder with id `folder_id`, unless the name is blank
    /// or another folder holds it.
    pub fn rename_folder(&mut self, folder_id: &str, new_name: String) -> (r: Result<
        String,
        CoreError,
    >)
        ensures
            rename_post(*old(self), folder_id@, new_name, *final(self), r),
            old(self).wf() ==> final(self).wf(),
    {
        if text_is_blank(new_name.as_str()) {
            return Err(CoreError::EmptyName);
        }
        if self.name_used_elsewhere(new_name.as_str(), Some(folder_id)) {
            return Err(CoreError::DuplicateName);
        }
        match folder_position(&self.folders, folder_id) {
            Some(i) => {
                let ghost before = *self;
                let mut msg = String::from_str("Folder renamed from '");
                msg.append(self.folders[i].name.as_str());
                msg.append("' to '");
                msg.append(new_name.as_str());
                msg.append("'");
                let folder = &mut self.folders[i];
                folder.name = new_name;
                proof {
                    let fs = self.folders@;
                    assert(fs == before.folders@.update(
                        i as int,
                        (Folder { name: new_name, ..before.folders@[i as int] }),
                    ));
                    if before.wf() {
                        assert forall|a: int, b: int| 0 <= a < b < fs.len() implies (
                        #[trigger] fs[a]).name@ != (#[trigger] fs[b]).name@ by {
                            if a == i {
                                assert(fs[b] == before.folders@[b]);
                                assert(before.folders@[b].id@ != before.folders@[a].id@);
                            } else if b == i {
                                assert(fs[a] == before.folders@[a]);
                                assert(before.folders@[b].id@ != before.folders@[a].id@);
                            } else {
                                assert(fs[a] == before.folders@[a] && fs[b] == before.folders@[b]);
                            }
                        }
                        lemma_update_keeps_wf(before, *self, i as int);
                    }
                }
                Ok(msg)
            },
            None => Err(CoreError::FolderNotFound),
        }
    }

    /// Whether a folder other than the one with id `exclude` is named `name`.
    fn name_used_elsewhere(&self, name: &str, exclude: Option<&str>) -> (r: bool)
        ensures
            r == name_clash(self.folders@, name@, opt_view(exclude)),
    {
        let mut i: usize = 0;
        while i < self.folders.len()
            invariant
                i <= self.folders.len(),
                forall|j: int|
                    0 <= j < i ==> !((#[trigger] self.folders@[j]).name@ == name@ && match opt_view(
                        exclude,
                    ) {
                        Some(x) => self.folders@[j].id@ != x,
                        None => true,
                    }),
            decreases self.folders.len() - i,
        {
            if same_text(self.folders[i].name.as_str(), name) {
                let other = match exclude {
                    Some(x) => !same_text(self.folders[i].id.as_str(), x),
                    None => true,
                };
                if other {
                    return true;
                }
            }
            i = i + 1;
        }
        false
    }

    /// Appends `file_path` to the first folder with id `folder_id`, unless it
    /// is already there.
    pub fn add_file_to_folder(&mut self, folder_id: &str, file_path: String) -> (r: Result<
        String,
        CoreError,
    >)
        ensures
            add_file_post(*old(self), folder_id@, file_path, *final(self), r),
            old(self).wf() ==> final(self).wf(),
    {
        match folder_position(&self.folders, folder_id) {
            Some(i) => {
                let ghost before = *self;
                let mut msg = String::from_str("File '");
                msg.append(file_path.as_str());
                msg.append("' added to folder '");
                msg.append(self.folders[i].name.as_str());
                msg.append("'");
                let folder = &mut self.folders[i];
                if folder.add_file(file_path) {
                    proof {
                        if before.wf() {
                            let f = self.folders@[i as int];
                            let old_files = before.folders@[i as int].files@;
                            assert(paths_unique(old_files));
                            assert forall|a: int, b: int| 0 <= a < b < f.files@.len() implies (
                            #[trigger] f.files@[a])@ != (#[trigger] f.files@[b])@ by {
                                if b == f.files@.len() - 1 {
                                    assert(f.files@[a] == old_files[a]);
                                } else {
                                    assert(f.files@[a] == old_files[a] && f.files@[b] == old_files[b]);
                                }
                            }
                            lemma_update_keeps_wf(before, *self, i as int);
                        }
                    }
                    Ok(msg)
                } else {
                    proof {
                        assert(self.folders@ =~= before.folders@);
                    }
                    Err(CoreError::FileAlreadyInFolder)
                }
            },
            None => Err(CoreError::FolderNotFound),
        }
    }

    /// Removes `file_path` from the first folder with id `folder_id`.
    pub fn remove_file_from_folder(&mut self, folder_id: &str, file_path: &str) -> (r: Result<
        String,
        CoreError,
    >)
        ensures
            remove_file_post(*old(self), folder_id@, file_path@, *final(self), r),
            old(self).wf() ==> final(self).wf(),
    {
        match folder_position(&self.folders, folder_id) {
            Some(i) => {
                let ghost before = *self;
                let mut msg = String::from_str("File '");
                msg.append(file_path);
                msg.append("' removed from folder '");
                msg.append(self.folders[i].name.as_str());
                msg.append("'");
                let folder = &mut self.folders[i];
                if folder.remove_file(file_path) {
                    proof {
                        if before.wf() {
                            let f = self.folders@[i as int];
                            let old_files = before.folders@[i as int].files@;
                            assert(paths_unique(old_files));
                            let j = choose|j: int|
                                first_path_at(old_files, file_path@, j) && f.files@ == old_files.remove(j);
                            assert forall|a: int, b: int| 0 <= a < b < f.files@.len() implies (
                            #[trigger] f.files@[a])@ != (#[trigger] f.files@[b])@ by {
                                let a2 = if a < j { a } else { a + 1 };
                                let b2 = if b < j { b } else { b + 1 };
                                assert(f.files@[a] == old_files[a2] && f.files@[b] == old_files[b2]);
                            }
                            lemma_update_keeps_wf(before, *self, i as int);
                        }
                    }
                    Ok(msg)
                } else {
                    proof {
                        assert(self.folders@ =~= before.folders@);
                    }
                    Err(CoreError::FileNotInFolder)
                }
            },
            None => Err(CoreError::FolderNotFound),
        }
    }

    pub fn get_folder(&self, folder_id: &str) -> (r: Option<&Folder>)
        ensures
            match r {
                Some(f) => exists|i: int|
                    first_id_at(self.folders@, folder_id@, i) && *f == self.folders@[i],
                None => !has_id(self.folders@, folder_id@),
            },
    {
        match folder_position(&self.folders, folder_id) {
            Some(i) => Some(&self.folders[i]),
            None => None,
        }
    }

    pub fn get_folder_mut(&mut self, folder_id: &str) -> (r: Option<&mut Folder>)
        ensures
            match r {
                Some(f) => exists|i: int|
                    first_id_at(old(self).folders@, folder_id@, i) && *f == old(self).folders@[i]
                        && final(self).folders@ == old(self).folders@.update(i, *final(f))
                        && final(self).next_id == old(self).next_id,
                None => !has_id(old(self).folders@, folder_id@) && *final(self) == *old(self),
            },
    {
        match folder_position(&self.folders, folder_id) {
            Some(i) => Some(&mut self.folders[i]),
            None => None,
        }
    }

    pub fn list_folders(&self) -> (r: &Vec<Folder>)
        ensures
            r == &self.folders,
    {
        &self.folders
    }

    pub fn get_folder_count(&self) -> (r: usize)
        ensures
            r == self.folders@.len(),
    {
        self.folders.len()
    }

    /// Renders the readable files of the first folder with id `folder_id`;
    /// `contents[i]` holds the text of the folder's `i`-th file where reading
    /// it succeeded. Fails when the folder is missing or none of its files
    /// could be read.
    pub fn copy_folder_contents(&self, folder_id: &str, contents: &Vec<Option<String>>) -> (r:
        Result<String, CoreError>)
        ensures
            folder_copy_post(self.folders@, folder_id@, contents@, r),
    {
        match folder_position(&self.folders, folder_id) {
            Some(fi) => {
                let folder = &self.folders[fi];
                let mut copied_files: Vec<CopiedFile> = Vec::new();
                let mut i: usize = 0;
                while i < folder.files.len()
                    invariant
                        i <= folder.files.len(),
                        copied_files@ == read_entries(folder.files@, contents@, i as int),
                    decreases folder.files.len() - i,
                {
                    if i < contents.len() {
                        match &contents[i] {
                            Some(c) => {
                                let path = folder.files[i].clone();
                                copied_files.push(CopiedFile::new(path.clone(), path, c.clone()));
                            },
                            None => {},
                        }
                    }
                    i = i + 1;
                }
                if copied_files.len() == 0 {
                    return Err(CoreError::NoReadableFiles);
                }
                Ok(render_entries(&copied_files))
            },
            None => Err(CoreError::FolderNotFound),
        }
    }

    /// The folders whose files include `file_path`, in registry order.
    pub fn find_folders_containing_file(&self, file_path: &str) -> (r: Vec<&Folder>)
        ensures
            r@.len() == containing(self.folders@, file_path@).len(),
            forall|i: int| 0 <= i < r@.len() ==> *r@[i] == containing(self.folders@, file_path@)[i],
    {
        let mut r: Vec<&Folder> = Vec::new();
        let mut i: usize = 0;
        while i < self.folders.len()
            invariant
                i <= self.folders.len(),
                r@.len() == containing(self.folders@.subrange(0, i as int), file_path@).len(),
                forall|j: int|
                    0 <= j < r@.len() ==> *r@[j] == containing(
                        self.folders@.subrange(0, i as int),
                        file_path@,
                    )[j],
            decreases self.folders.len() - i,
        {
            let ghost sub = self.folders@.subrange(0, i + 1);
            assert(sub.drop_last() =~= self.folders@.subrange(0, i as int));
            assert(sub.last() == self.folders@[i as int]);
            if self.folders[i].has_file(file_path) {
                r.push(&self.folders[i]);
            }
            i = i + 1;
        }
        assert(self.folders@.subrange(0, self.folders@.len() as int) =~= self.folders@);
        r
    }

    pub fn get_folder_by_name(&self, name: &str) -> (r: Option<&Folder>)
        ensures
            match r {
                Some(f) => exists|i: int|
                    first_name_at(self.folders@, name@, i) && *f == self.folders@[i],
                None => !has_name(self.folders@, name@),
            },
    {
        let mut i: usize = 0;
        while i < self.folders.len()
            invariant
                i <= self.folders.len(),
                forall|j: int| 0 <= j < i ==> (#[trigger] self.folders@[j]).name@ != name@,
            decreases self.folders.len() - i,
        {
            if same_text(self.folders[i].name.as_str(), name) {
                return Some(&self.folders[i]);
            }
            i = i + 1;
        }
        None
    }

    /// Sets or clears the color of the first folder with id `folder_id`.
    pub fn set_folder_color(&mut self, folder_id: &str, color: Option<String>) -> (r: Result<
        String,
        CoreError,
    >)
        ensures
            set_color_post(*old(self), folder_id@, color, *final(self), r),
            old(self).wf() ==> final(self).wf(),
    {
        match folder_position(&self.folders, folder_id) {
            Some(i) => {
                let ghost before = *self;
                let msg = match &color {
                    Some(c) => {
                        let mut m = String::from_str("Color '");
                        m.append(c.as_str());
                        m.append("' set for folder '");
                        m.append(self.folders[i].name.as_str());
                        m.append("'");
                        m
                    },
                    None => {
                        let mut m = String::from_str("Color removed from folder '");
                        m.append(self.folders[i].name.as_str());
                        m.append("'");
                        m
                    },
                };
                let folder = &mut self.folders[i];
                folder.color = color;
                proof {
                    if before.wf() {
                        let fs = self.folders@;
                        assert forall|a: int, b: int| 0 <= a < b < fs.len() implies (
                        #[trigger] fs[a]).name@ != (#[trigger] fs[b]).name@ by {
                            assert(fs[a].name == before.folders@[a].name);
                            assert(fs[b].name == before.folders@[b].name);
                        }
                        lemma_update_keeps_wf(before, *self, i as int);
                    }
                }
                Ok(msg)
            },
            None => Err(CoreError::FolderNotFound),
        }
    }

    /// Whether the number of files over all folders fits in a `usize`.
    pub fn total_files_fit(&self) -> (r: bool)
        ensures
            r == (total_files(self.folders@) <= usize::MAX),
    {
        let mut total: usize = 0;
        let mut i: usize = 0;
        while i < self.folders.len()
            invariant
                i <= self.folders.len(),
                total == total_files(self.folders@.subrange(0, i as int)),
            decreases self.folders.len() - i,
        {
            let ghost sub = self.folders@.subrange(0, i + 1);
            assert(sub.drop_last() =~= self.folders@.subrange(0, i as int));
            let n = self.folders[i].files.len();
            if total > usize::MAX - n {
                proof {
                    lemma_total_files_prefix(self.folders@, i + 1);
                }
                return false;
            }
            total = total + n;
            i = i + 1;
        }
        assert(self.folders@.subrange(0, self.folders@.len() as int) =~= self.folders@);
        true
    }

    /// The number of file paths over all folders.
    pub fn get_total_files_count(&self) -> (r: usize)
        requires
            total_files(self.folders@) <= usize::MAX,
        ensures
            r == total_files(self.folders@),
    {
        let mut total: usize = 0;
        let mut i: usize = 0;
        while i < self.folders.len()
            invariant
                i <= self.folders.len(),
                total == total_files(self.folders@.subrange(0, i as int)),
                total_files(self.folders@) <= usize::MAX,
            decreases self.folders.len() - i,
        {
            let ghost sub = self.folders@.subrange(0, i + 1);
            assert(sub.drop_last() =~= self.folders@.subrange(0, i as int));
            proof {
                lemma_total_files_prefix(self.folders@, i + 1);
            }
            total = total + self.folders[i].files.len();
            i = i + 1;
        }
        assert(self.folders@.subrange(0, self.folders@.len() as int) =~= self.folders@);
        total
    }

    /// Checks `name` as a name for a folder other than the one with id
    /// `exclude_id`: not blank, at most `MAX_NAME_LEN` characters, none of
    /// `/ \ : * ? " < > |`, and not held by another folder.
    pub fn validate_folder_name(&self, name: &str, exclude_id: Option<&str>) -> (r: Result<
        (),
        CoreError,
    >)
        ensures
            r == name_check(self.folders@, name@, opt_view(exclude_id)),
    {
        if text_is_blank(name) {
            return Err(CoreError::EmptyName);
        }
        let n = name.unicode_len();
        if n > MAX_NAME_LEN {
            return Err(CoreError::NameTooLong);
        }
        let mut i: usize = 0;
        while i < n
            invariant
                n == name@.len(),
                n <= MAX_NAME_LEN,
                !is_blank(name@),
                i <= n,
                forall|j: int| 0 <= j < i ==> !is_forbidden(#[trigger] name@[j]),
            decreases n - i,
        {
            let c = name.get_char(i);
            if c == '/' || c == '\\' || c == ':' || c == '*' || c == '?' || c == '"' || c == '<'
                || c == '>' || c == '|' {
                assert(is_forbidden(name@[i as int]));
                return Err(CoreError::InvalidCharacters);
            }
            i = i + 1;
        }
        if self.name_used_elsewhere(name, exclude_id) {
            return Err(CoreError::DuplicateName);
        }
        Ok(())
    }
}

/// The files of a prefix of the folders are no more than those of all.
proof fn lemma_total_files_prefix(folders: Seq<Folder>, n: int)
    requires
        0 <= n <= folders.len(),
    ensures
        total_files(folders.subrange(0, n)) <= total_files(folders),
    decreases folders.len(),
{
    if n < folders.len() {
        assert(folders.drop_last().subrange(0, n) =~= folders.subrange(0, n));
        lemma_total_files_prefix(folders.drop_last(), n);
    } else {
        assert(folders.subrange(0, n) =~= folders);
    }
}

/// Replacing one folder by one with the same id and name and no repeated
/// path keeps the registry well formed.
proof fn lemma_update_keeps_wf(before: FolderManager, after: FolderManager, i: int)
    requires
        before.wf(),
        0 <= i < before.folders@.len(),
        after.next_id == before.next_id,
        after.folders@ == before.folders@.update(i, after.folders@[i]),
        after.folders@[i].id == before.folders@[i].id,
        paths_unique(after.folders@[i].files@),
        forall|a: int, b: int|
            0 <= a < b < after.folders@.len() ==> (#[trigger] after.folders@[a]).name@ != (
            #[trigger] after.folders@[b]).name@,
    ensures
        after.wf(),
{
    let fs = after.folders@;
    let bs = before.folders@;
    assert forall|a: int, b: int| 0 <= a < b < fs.len() implies (#[trigger] fs[a]).id@ != (
    #[trigger] fs[b]).id@ by {
        assert(fs[a].id == bs[a].id && fs[b].id == bs[b].id);
    }
    assert forall|a: int| 0 <= a < fs.len() implies paths_unique((#[trigger] fs[a]).files@) by {
        if a != i {
            assert(fs[a] == bs[a]);
        }
    }
    assert forall|a: int| 0 <= a < fs.len() implies made_below((#[trigger] fs[a]).id@, after.next_id) by {
        assert(fs[a].id == bs[a].id);
    }
}

/// Removing a folder keeps the registry well formed.
proof fn lemma_remove_keeps_wf(before: FolderManager, after: FolderManager, i: int)
    requires
        before.wf(),
        0 <= i < before.folders@.len(),
        after.next_id == before.next_id,
        after.folders@ == before.folders@.remove(i),
    ensures
        after.wf(),
{
    let fs = after.folders@;
    let bs = before.folders@;
    assert forall|a: int, b: int| 0 <= a < b < fs.len() implies (#[trigger] fs[a]).id@ != (
    #[trigger] fs[b]).id@ by {
        let a2 = if a < i { a } else { a + 1 };
        let b2 = if b < i { b } else { b + 1 };
        assert(fs[a] == bs[a2] && fs[b] == bs[b2]);
    }
    assert forall|a: int, b: int| 0 <= a < b < fs.len() implies (#[trigger] fs[a]).name@ != (
    #[trigger] fs[b]).name@ by {
        let a2 = if a < i { a } else { a + 1 };
        let b2 = if b < i { b } else { b + 1 };
        assert(fs[a] == bs[a2] && fs[b] == bs[b2]);
    }
    assert forall|a: int| 0 <= a < fs.len() implies paths_unique((#[trigger] fs[a]).files@) by {
        let a2 = if a < i { a } else { a + 1 };
        assert(fs[a] == bs[a2]);
    }
    assert forall|a: int| 0 <= a < fs.len() implies made_below((#[trigger] fs[a]).id@, after.next_id) by {
        if a < i {
            assert(fs[a] == bs[a]);
        } else {
            assert(fs[a] == bs[a + 1]);
        }
    }
}

/// A name that is otherwise acceptable is refused for holding any one of
/// the forbidden characters, wherever it stands.
pub proof fn lemma_forbidden_char_rejected(
    folders: Seq<Folder>,
    prefix: Seq<char>,
    c: char,
    suffix: Seq<char>,
    exclude: Option<Seq<char>>,
)
    requires
        is_forbidden(c),
        prefix.len() + 1 + suffix.len() <= MAX_NAME_LEN,
    ensures
        name_check(folders, prefix + seq![c] + suffix, exclude) == Err::<(), CoreError>(
            CoreError::InvalidCharacters,
        ),
{
    let name = prefix + seq![c] + suffix;
    let k = prefix.len() as int;
    assert(name[k] == c);
    assert(!is_space(name[k]));
    assert(is_forbidden(name[k]));
}

/// The folders found for a path are exactly those whose files include it,
/// in registry order: none when no folder holds it.
pub proof fn lemma_containing_exact(folders: Seq<Folder>, p: Seq<char>)
    ensures
        forall|i: int|
            0 <= i < containing(folders, p).len() ==> has_path(
                (#[trigger] containing(folders, p)[i]).files@,
                p,
            ),
        forall|i: int|
            0 <= i < folders.len() && has_path((#[trigger] folders[i]).files@, p) ==> containing(
                folders,
                p,
            ).contains(folders[i]),
        containing(folders, p).len() == 0 <==> forall|i: int|
            0 <= i < folders.len() ==> !has_path((#[trigger] folders[i]).files@, p),
    decreases folders.len(),
{
    if folders.len() > 0 {
        let d = folders.drop_last();
        lemma_containing_exact(d, p);
        let c = containing(d, p);
        assert forall|i: int|
            0 <= i < folders.len() && has_path((#[trigger] folders[i]).files@, p) implies containing(
            folders,
            p,
        ).contains(folders[i]) by {
            if i < folders.len() - 1 {
                assert(d[i] == folders[i]);
                let j = choose|j: int| 0 <= j < c.len() && c[j] == d[i];
                if has_path(folders.last().files@, p) {
                    assert(c.push(folders.last())[j] == folders[i]);
                }
            } else {
                assert(folders[i] == folders.last());
                assert(c.push(folders.last())[c.len() as int] == folders[i]);
            }
        }
        if has_path(folders.last().files@, p) {
            assert(containing(folders, p).len() > 0);
        } else {
            let all_f = forall|i: int|
                0 <= i < folders.len() ==> !has_path((#[trigger] folders[i]).files@, p);
            let all_d = forall|i: int| 0 <= i < d.len() ==> !has_path((#[trigger] d[i]).files@, p);
            assert(all_f == all_d) by {
                if all_d {
                    assert forall|i: int| 0 <= i < folders.len() implies !has_path(
                        (#[trigger] folders[i]).files@,
                        p,
                    ) by {
                        if i < d.len() {
                            assert(d[i] == folders[i]);
                        } else {
                            assert(folders[i] == folders.last());
                        }
                    }
                }
                if all_f {
                    assert forall|i: int| 0 <= i < d.len() implies !has_path(
                        (#[trigger] d[i]).files@,
                        p,
                    ) by {
                        assert(d[i] == folders[i]);
                    }
                }
            }
        }
    }
}

/// Creating a folder under a name that the previous creation just took fails
/// as a duplicate and changes nothing.
pub proof fn lemma_create_same_name_twice(
    m0: FolderManager,
    m1: FolderManager,
    m2: FolderManager,
    name: String,
    first_files: Seq<String>,
    second_files: Seq<String>,
    q1: Result<String, CoreError>,
    q2: Result<String, CoreError>,
)
    requires
        create_post(m0, name, first_files, m1, q1),
        q1 is Ok,
        create_post(m1, name, second_files, m2, q2),
    ensures
        q2 == Err::<String, CoreError>(CoreError::DuplicateName),
        m2 == m1,
{
    let k = m1.folders@.len() - 1;
    assert(m1.folders@[k] == m1.folders@.last());
}

/// Adding a path to a folder a second time fails as a duplicate and leaves
/// the folders as the first attempt left them.
pub proof fn lemma_add_same_file_twice(
    m0: FolderManager,
    m1: FolderManager,
    m2: FolderManager,
    folder_id: Seq<char>,
    file_path: String,
    q1: Result<String, CoreError>,
    q2: Result<String, CoreError>,
)
    requires
        has_id(m0.folders@, folder_id),
        add_file_post(m0, folder_id, file_path, m1, q1),
        add_file_post(m1, folder_id, file_path, m2, q2),
    ensures
        q2 == Err::<String, CoreError>(CoreError::FileAlreadyInFolder),
        m2.folders@ == m1.folders@,
{
    let i = choose|i: int|
        {
            &&& first_id_at(m0.folders@, folder_id, i)
            &&& if has_path(m0.folders@[i].files@, file_path@) {
                q1 == Err::<String, CoreError>(CoreError::FileAlreadyInFolder) && m1.folders@
                    == m0.folders@
            } else {
                &&& m1.folders@ == m0.folders@.update(i, m1.folders@[i])
                &&& m1.folders@[i].files@ == m0.folders@[i].files@.push(file_path)
                &&& m1.folders@[i].id == m0.folders@[i].id
                &&& m1.folders@[i].name == m0.folders@[i].name
                &&& m1.folders@[i].color == m0.folders@[i].color
                &&& q1 matches Ok(m) && m@ == "File '"@ + file_path@ + "' added to folder '"@
                    + m0.folders@[i].name@ + "'"@
            }
        };
    assert(first_id_at(m1.folders@, folder_id, i)) by {
        assert forall|j: int| 0 <= j < i implies (#[trigger] m1.folders@[j]).id@ != folder_id by {
            assert(m1.folders@[j] == m0.folders@[j]);
        }
    }
    assert(has_id(m1.folders@, folder_id));
    assert(has_path(m1.folders@[i].files@, file_path@)) by {
        if !has_path(m0.folders@[i].files@, file_path@) {
            let n = m0.folders@[i].files@.len() as int;
            assert(m1.folders@[i].files@[n] == file_path);
        }
    }
    let i2 = choose|i2: int|
        {
            &&& first_id_at(m1.folders@, folder_id, i2)
            &&& if has_path(m1.folders@[i2].files@, file_path@) {
                q2 == Err::<String, CoreError>(CoreError::FileAlreadyInFolder) && m2.folders@
                    == m1.folders@
            } else {
                &&& m2.folders@ == m1.folders@.update(i2, m2.folders@[i2])
                &&& m2.folders@[i2].files@ == m1.folders@[i2].files@.push(file_path)
                &&& m2.folders@[i2].id == m1.folders@[i2].id
                &&& m2.folders@[i2].name == m1.folders@[i2].name
                &&& m2.folders@[i2].color == m1.folders@[i2].color
                &&& q2 matches Ok(m) && m@ == "File '"@ + file_path@ + "' added to folder '"@
                    + m1.folders@[i2].name@ + "'"@
            }
        };
    assert(i2 == i) by {
        if i2 < i {
            assert(m1.folders@[i2].id@ != folder_id);
        } else if i < i2 {
            assert(m1.folders@[i].id@ != folder_id);
        }
    }
}

} // verus!
