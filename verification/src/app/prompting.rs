//! The prompt: naming, renaming and deleting files, and what is said of it.

use crate::app::browsing::{entries_of, relisted, renewed};
use crate::app::dialogs::dismisses;
use crate::app::finding::copies;
use crate::app::{App, DiskFiles};
use crate::buffer::opt_text;
use crate::dialog::Dialog;
use crate::editline::{
    char_len, delete_selection, handle_key, insert_str, lemma_paste_leaves_the_field,
    selected_text, Edit, Field, FieldRef,
};
use crate::filedialog::texts;
use crate::fstree::collect::{kept_files, marked_files, sorted_paths, walk_view};
use crate::fstree::{listing_view, listings_view};
use crate::keyevent::KeyEvent;
use crate::paths::{
    base_name, file_name, inner_parts, is_same_path, join_path, joined_path,
    law_a_joined_path_is_inside, parent, parent_path, parts, same_path,
};
use crate::prompt::{Prompt, PromptKind, PromptState};
use crate::requests::{flattened, one_line};
use crate::text::{between, trim, trim_text};
use crate::toast::ToastKind;
use vstd::prelude::*;
use vstd::string::*;

verus! {

/// What a confirmed prompt asks of the disk.
#[derive(Debug)]
pub enum Task {
    /// An empty file, with the folders on the way to it.
    CreateFile { path: String, name: String },
    CreateFolder { path: String, name: String },
    Rename { from: String, to: String, name: String },
    /// A file, or a folder with all that is in it.
    Delete { path: String },
}

/// A task as a mathematical value.
#[verifier::ext_equal]
pub enum TaskState {
    CreateFile { path: Seq<char>, name: Seq<char> },
    CreateFolder { path: Seq<char>, name: Seq<char> },
    Rename { from: Seq<char>, to: Seq<char>, name: Seq<char> },
    Delete { path: Seq<char> },
}

impl View for Task {
    type V = TaskState;

    open spec fn view(&self) -> TaskState {
        match self {
            Task::CreateFile { path, name } => TaskState::CreateFile { path: path@, name: name@ },
            Task::CreateFolder { path, name } => TaskState::CreateFolder {
                path: path@,
                name: name@,
            },
            Task::Rename { from, to, name } => TaskState::Rename {
                from: from@,
                to: to@,
                name: name@,
            },
            Task::Delete { path } => TaskState::Delete { path: path@ },
        }
    }
}

/// A task, where there is one.
pub open spec fn opt_task(o: Option<Task>) -> Option<TaskState> {
    match o {
        Some(t) => Some(t@),
        None => None,
    }
}

impl PromptState {
    /// What confirming the prompt asks of the disk. An empty name asks for
    /// nothing, and the prompts that are answered by a choice do not either.
    pub open spec fn task(self) -> Option<TaskState> {
        let name = trim_text(self.input.text);
        if !self.active {
            None
        } else {
            match self.asks {
                Some(PromptKind::NewFile) => if name.len() == 0 {
                    None
                } else {
                    Some(TaskState::CreateFile { path: joined_path(self.target, name), name })
                },
                Some(PromptKind::NewFolder) => if name.len() == 0 {
                    None
                } else {
                    Some(TaskState::CreateFolder { path: joined_path(self.target, name), name })
                },
                Some(PromptKind::Rename) => if name.len() == 0 {
                    None
                } else {
                    Some(
                        TaskState::Rename {
                            from: self.target,
                            to: match parent_path(self.target) {
                                Some(p) => joined_path(p, name),
                                None => name,
                            },
                            name,
                        },
                    )
                },
                Some(PromptKind::Delete) => Some(TaskState::Delete { path: self.target }),
                _ => None,
            }
        }
    }

    /// With another name.
    pub open spec fn with_input(self, input: Field) -> PromptState {
        PromptState { input, ..self }
    }
}

impl TaskState {
    /// What is said once it is done.
    pub open spec fn report(self) -> Seq<char> {
        match self {
            TaskState::CreateFile { name, .. } => "Created "@ + name,
            TaskState::CreateFolder { name, .. } => "Created folder "@ + name,
            TaskState::Rename { name, .. } => "Renamed to "@ + name,
            TaskState::Delete { .. } => "Deleted"@,
        }
    }
}

impl Prompt {
    /// A key in the field.
    pub fn edit_input(&mut self, key: KeyEvent, ctrl: bool, alt: bool, shift: bool) -> (r: Edit)
        requires
            old(self).cursor < usize::MAX,
        ensures
            final(self)@ == old(self)@.with_input(
                old(self)@.input.after_key(key.code, ctrl, alt, shift).0,
            ),
            r == old(self)@.input.after_key(key.code, ctrl, alt, shift).1,
    {
        handle_key(
            FieldRef {
                text: &mut self.input,
                cursor: &mut self.cursor,
                anchor: &mut self.anchor,
            },
            key,
            ctrl,
            alt,
            shift,
        )
    }
}

/// A text after another.
fn after(before: &str, text: &str) -> (r: String)
    ensures
        r@ == before@ + text@,
{
    let mut r = before.to_owned();
    r.append(text);
    r
}

impl App {
    /// Ask for the name of a new file.
    pub fn dialog_new_file(&mut self)
        requires
            old(self).wf(),
        ensures
            *final(self) == (App { prompt: final(self).prompt, ..*old(self) }),
            final(self).prompt@ == PromptState::asking(
                PromptKind::NewFile,
                old(self).base_dir(),
                Seq::empty(),
            ),
            final(self).wf(),
    {
        let base = self.dialog_base_dir();
        let input = String::new();
        assert(input@ =~= Seq::empty());
        self.prompt.open(PromptKind::NewFile, base, input);
    }

    /// Ask for the name of a new folder.
    pub fn dialog_new_folder(&mut self)
        requires
            old(self).wf(),
        ensures
            *final(self) == (App { prompt: final(self).prompt, ..*old(self) }),
            final(self).prompt@ == PromptState::asking(
                PromptKind::NewFolder,
                old(self).base_dir(),
                Seq::empty(),
            ),
            final(self).wf(),
    {
        let base = self.dialog_base_dir();
        let input = String::new();
        assert(input@ =~= Seq::empty());
        self.prompt.open(PromptKind::NewFolder, base, input);
    }

    /// Whether `path` is the open folder.
    pub open spec fn is_root(self, path: Seq<char>) -> bool {
        self.root matches Some(r) && same_path(r@, path)
    }

    fn names_root(&self, path: &str) -> (r: bool)
        ensures
            r == self.is_root(path@),
    {
        match &self.root {
            Some(r) => is_same_path(r.as_str(), path),
            None => false,
        }
    }

    /// Ask for another name for what is selected. The open folder keeps its
    /// name.
    pub fn dialog_rename(&mut self)
        requires
            old(self).wf(),
        ensures
            asks_rename(*old(self), *final(self)),
            final(self).wf(),
    {
        if let Some((p, _)) = self.dialog_selected() {
            if self.names_root(p.as_str()) {
                self.status = "Can't rename the root folder".to_owned();
                return;
            }
            let name = match file_name(p.as_str()) {
                Some(n) => n,
                None => {
                    let n = String::new();
                    assert(n@ =~= Seq::empty());
                    n
                },
            };
            self.prompt.open(PromptKind::Rename, p, name);
        }
    }

    /// Ask whether to delete what is selected. The open folder stays.
    pub fn dialog_delete(&mut self)
        requires
            old(self).wf(),
        ensures
            asks_delete(*old(self), *final(self)),
            final(self).wf(),
    {
        if let Some((p, _)) = self.dialog_selected() {
            if self.names_root(p.as_str()) {
                self.status = "Can't delete the root folder".to_owned();
                return;
            }
            let input = String::new();
            assert(input@ =~= Seq::empty());
            self.prompt.open(PromptKind::Delete, p, input);
        }
    }

    /// What is to be shown in the system's file manager.
    pub fn dialog_reveal_in_finder(&mut self) -> (r: Option<String>)
        requires
            old(self).wf(),
        ensures
            reveals(*old(self), r, *final(self)),
            final(self).wf(),
    {
        match self.dialog_selected() {
            Some((p, _)) => Some(p),
            None => {
                self.notify("Nothing selected".to_owned(), ToastKind::Info);
                None
            },
        }
    }

    /// Copy what is selected in the prompt's field.
    pub fn prompt_copy(&mut self)
        requires
            old(self).wf(),
        ensures
            copies(*old(self), old(self).prompt@.input.selection_text(), *final(self)),
            final(self).wf(),
    {
        if let Some(t) = selected_text(
            self.prompt.input.as_str(),
            self.prompt.cursor,
            self.prompt.anchor,
        ) {
            self.set_clipboard(t);
        }
    }

    /// Cut what is selected in the prompt's field.
    pub fn prompt_cut(&mut self)
        requires
            old(self).wf(),
        ensures
            copies(
                App { prompt: final(self).prompt, ..*old(self) },
                old(self).prompt@.input.selection_text(),
                *final(self),
            ),
            final(self).prompt@ == old(self).prompt@.with_input(old(self).prompt@.input.cut()),
            final(self).wf(),
    {
        self.prompt_copy();
        delete_selection(
            &mut self.prompt.input,
            &mut self.prompt.cursor,
            &mut self.prompt.anchor,
        );
    }

    /// Put what the clipboard holds into the prompt's field, on one line.
    pub fn prompt_paste(&mut self, system: Option<String>)
        requires
            old(self).wf(),
            old(self).prompt.cursor + flattened(old(self).clip(system)).len() <= usize::MAX,
        ensures
            *final(self) == (App { prompt: final(self).prompt, ..*old(self) }),
            ({
                let t = flattened(old(self).clip(system));
                final(self).prompt@ == if t.len() > 0 {
                    old(self).prompt@.with_input(old(self).prompt@.input.typed(t))
                } else {
                    old(self).prompt@
                }
            }),
            final(self).wf(),
    {
        let t = one_line(self.get_clipboard(system));
        if char_len(t.as_str()) > 0 {
            insert_str(
                &mut self.prompt.input,
                &mut self.prompt.cursor,
                &mut self.prompt.anchor,
                t.as_str(),
            );
        }
    }

    fn follow_prompt(&mut self, e: Edit, system: Option<String>)
        requires
            old(self).wf(),
            e == Edit::Paste ==> old(self).prompt.cursor + flattened(old(self).clip(system)).len()
                <= usize::MAX,
        ensures
            prompt_edited(
                *old(self),
                old(self).prompt@.input,
                e,
                flattened(old(self).clip(system)),
                *final(self),
            ),
            final(self).wf(),
    {
        if e == Edit::Copy {
            self.prompt_copy();
            return;
        }
        if e == Edit::Cut {
            self.prompt_cut();
            return;
        }
        if e == Edit::Paste {
            self.prompt_paste(system);
            return;
        }
    }

    /// A key in the prompt's field. What it asks of the clipboard is done too.
    pub fn edit_prompt(&mut self, key: KeyEvent, ctrl: bool, alt: bool, shift: bool, system: Option<
        String,
    >)
        requires
            old(self).wf(),
            old(self).prompt.cursor < usize::MAX,
            old(self).prompt.cursor + flattened(old(self).clip(system)).len() <= usize::MAX,
        ensures
            ({
                let (q, e) = old(self).prompt@.input.after_key(key.code, ctrl, alt, shift);
                prompt_edited(*old(self), q, e, flattened(old(self).clip(system)), *final(self))
            }),
            final(self).wf(),
    {
        let ghost a = *self;
        let e = self.prompt.edit_input(key, ctrl, alt, shift);
        let ghost mid = *self;
        let ghost t = flattened(a.clip(system));
        proof {
            lemma_paste_leaves_the_field(a.prompt@.input, key.code, ctrl, alt, shift);
        }
        self.follow_prompt(e, system);
        proof {
            lemma_prompt_edited(a, mid, mid.prompt@.input, e, t, *self);
        }
    }

    /// Close the prompt and say what it asks of the disk.
    pub fn confirm_prompt(&mut self) -> (r: Option<Task>)
        requires
            old(self).wf(),
        ensures
            *final(self) == (App { prompt: final(self).prompt, ..*old(self) }),
            final(self).prompt@ == PromptState::closed(),
            opt_task(r) == old(self).prompt@.task(),
            final(self).wf(),
    {
        let kind = self.prompt.kind();
        let target = self.prompt.target.clone();
        let name = trim(self.prompt.input.as_str());
        self.prompt.close();
        let empty = char_len(name.as_str()) == 0;
        match kind {
            Some(PromptKind::NewFile) => if empty {
                None
            } else {
                Some(
                    Task::CreateFile { path: join_path(target.as_str(), name.as_str()), name },
                )
            },
            Some(PromptKind::NewFolder) => if empty {
                None
            } else {
                Some(
                    Task::CreateFolder { path: join_path(target.as_str(), name.as_str()), name },
                )
            },
            Some(PromptKind::Rename) => if empty {
                None
            } else {
                let to = match parent(target.as_str()) {
                    Some(p) => join_path(p.as_str(), name.as_str()),
                    None => name.clone(),
                };
                Some(Task::Rename { from: target, to, name })
            },
            Some(PromptKind::Delete) => Some(Task::Delete { path: target }),
            _ => None,
        }
    }

    /// Say what came of a task and show what is on disk now. A file that was made
    /// is to be opened, and the file dialog goes.
    pub fn task_done(&mut self, task: &Task, error: Option<String>, found: &DiskFiles) -> (r:
        Option<String>)
        requires
            old(self).wf(),
        ensures
            task_told(*old(self), task@, opt_text(error), *found, *final(self)),
            opt_text(r) == match (task@, error) {
                (TaskState::CreateFile { path, .. }, None) => Some(path),
                _ => None,
            },
            final(self).wf(),
    {
        let ghost a = *self;
        let open = self.tell_task(task, error);
        let ghost told = *self;
        self.renew_files(found);
        let ghost m = *self;
        if open.is_some() {
            self.dismiss_dialog(Dialog::Files);
        } else {
            self.relist_dialog();
        }
        proof {
            assert(told == App { status: self.status, ..a });
            assert(renewed(App { status: self.status, ..a }, *found, m));
        }
        open
    }

    /// Say what came of a task, and which file is to be opened.
    fn tell_task(&mut self, task: &Task, error: Option<String>) -> (r: Option<String>)
        requires
            old(self).wf(),
        ensures
            *final(self) == (App { status: final(self).status, ..*old(self) }),
            final(self).status@ == told_of(task@, opt_text(error)),
            opt_text(r) == match (task@, error) {
                (TaskState::CreateFile { path, .. }, None) => Some(path),
                _ => None,
            },
            final(self).wf(),
    {
        match error {
            Some(e) => {
                self.status = after("Error: ", e.as_str());
                None
            },
            None => match task {
                Task::CreateFile { path, name } => {
                    self.status = after("Created ", name.as_str());
                    Some(path.clone())
                },
                Task::CreateFolder { path: _, name } => {
                    self.status = after("Created folder ", name.as_str());
                    None
                },
                Task::Rename { from: _, to: _, name } => {
                    self.status = after("Renamed to ", name.as_str());
                    None
                },
                Task::Delete { path: _ } => {
                    self.status = "Deleted".to_owned();
                    None
                },
            },
        }
    }

    /// Say what came of moving a file or folder into the folder `dir`, and show
    /// what is on disk now.
    pub fn entry_moved(&mut self, dir: &str, error: Option<String>, found: &DiskFiles)
        requires
            old(self).wf(),
        ensures
            move_told(*old(self), dir@, opt_text(error), *found, *final(self)),
            final(self).wf(),
    {
        let ghost a = *self;
        match error {
            Some(e) => {
                let m = after("Move failed: ", e.as_str());
                self.notify(m, ToastKind::Error);
            },
            None => {
                let label = match file_name(dir) {
                    Some(n) => n,
                    None => "/".to_owned(),
                };
                self.notify(between("Moved to ", label.as_str(), "/"), ToastKind::Success);
            },
        }
        let ghost told = *self;
        self.renew_files(found);
        let ghost m = *self;
        self.relist_dialog();
        proof {
            assert(told == App { toast: self.toast, ..a });
            assert(renewed(App { toast: self.toast, ..a }, *found, m));
        }
    }
}

/// What the status line says of a task that failed with `error`, or did not.
pub open spec fn told_of(task: TaskState, error: Option<Seq<char>>) -> Seq<char> {
    match error {
        Some(e) => "Error: "@ + e,
        None => task.report(),
    }
}

/// Whether `b` is `a` after a task was done: what came of it is told, what is on
/// disk shows, and a file that was made sends the file dialog away; otherwise its
/// matches are made anew.
pub open spec fn task_told(
    a: App,
    task: TaskState,
    error: Option<Seq<char>>,
    found: DiskFiles,
    b: App,
) -> bool {
    &&& b.status@ == told_of(task, error)
    &&& exists|m: App| #[trigger]
        renewed(App { status: b.status, ..a }, found, m) && (if task is CreateFile
            && error is None {
            dismisses(m, Dialog::Files, b)
        } else {
            relisted(m, b)
        })
}

/// Whether `b` is `a` after something was moved into the folder `dir`: what came
/// of it is told, what is on disk shows, and the matches of the dialog are made
/// anew.
pub open spec fn move_told(
    a: App,
    dir: Seq<char>,
    error: Option<Seq<char>>,
    found: DiskFiles,
    b: App,
) -> bool {
    &&& match error {
        Some(e) => b.tells("Move failed: "@ + e, ToastKind::Error),
        None => b.tells(
            "Moved to "@ + (match base_name(dir) {
                Some(n) => n,
                None => "/"@,
            }) + "/"@,
            ToastKind::Success,
        ),
    }
    &&& exists|m: App| #[trigger]
        renewed(App { toast: b.toast, ..a }, found, m) && relisted(m, b)
}

/// Whether `b` is `a` after a key made `q` of the prompt's field and asked for
/// `e`, the clipboard holding `t`.
pub open spec fn prompt_edited(a: App, q: Field, e: Edit, t: Seq<char>, b: App) -> bool {
    &&& b.prompt@ == a.prompt@.with_input(
        match e {
            Edit::Cut => q.cut(),
            Edit::Paste => if t.len() > 0 {
                q.typed(t)
            } else {
                q
            },
            _ => q,
        },
    )
    &&& if e == Edit::Copy || e == Edit::Cut {
        copies(App { prompt: b.prompt, ..a }, q.selection_text(), b)
    } else {
        b == App { prompt: b.prompt, ..a }
    }
}

/// A change of the field before what a key asks for is done counts as part of
/// it.
proof fn lemma_prompt_edited(a: App, mid: App, q: Field, e: Edit, t: Seq<char>, b: App)
    requires
        mid == (App { prompt: mid.prompt, ..a }),
        mid.prompt@ == a.prompt@.with_input(q),
        prompt_edited(mid, q, e, t, b),
    ensures
        prompt_edited(a, q, e, t, b),
{
}

/// A new file is asked for inside the folder that the prompt is about, however
/// deep its name goes.
pub proof fn law_a_new_file_lies_in_its_folder(p: PromptState)
    requires
        p.active,
        p.asks == Some(PromptKind::NewFile),
        trim_text(p.input.text).len() > 0,
        trim_text(p.input.text)[0] != '/',
        p.target.len() > 0,
    ensures
        p.task() matches Some(TaskState::CreateFile { path, name }) && parts(path) == parts(
            p.target,
        ) + inner_parts(name),
{
    law_a_joined_path_is_inside(p.target, trim_text(p.input.text));
}

/// Whether asking for a new name makes `b` of `a`.
pub open spec fn asks_rename(a: App, b: App) -> bool {
    match a.pick() {
        Some((p, _)) => if a.is_root(p) {
            &&& b == (App { status: b.status, ..a })
            &&& b.status@ == "Can't rename the root folder"@
        } else {
            &&& b == (App { prompt: b.prompt, ..a })
            &&& b.prompt@ == PromptState::asking(
                PromptKind::Rename,
                p,
                crate::app::files::name_or_none(p),
            )
        },
        None => b == a,
    }
}

/// Whether asking whether to delete makes `b` of `a`.
pub open spec fn asks_delete(a: App, b: App) -> bool {
    match a.pick() {
        Some((p, _)) => if a.is_root(p) {
            &&& b == (App { status: b.status, ..a })
            &&& b.status@ == "Can't delete the root folder"@
        } else {
            &&& b == (App { prompt: b.prompt, ..a })
            &&& b.prompt@ == PromptState::asking(
                PromptKind::Delete,
                p,
                Seq::empty(),
            )
        },
        None => b == a,
    }
}

/// Whether asking for the folder of an entry makes `b` of `a`, and which path is to be shown.
pub open spec fn reveals(a: App, r: Option<String>, b: App) -> bool {
    match a.pick() {
        Some((p, _)) => b == a && opt_text(r) == Some(p),
        None => {
            &&& b == (App { toast: b.toast, ..a })
            &&& b.tells("Nothing selected"@, ToastKind::Info)
            &&& r is None
        },
    }
}

/// After a task the tree, the files of the open folder and the lists of the
/// dialog are those on disk, whether the task failed or not, and no open file is
/// touched.
pub proof fn law_a_task_shows_what_is_on_disk(
    a: App,
    task: TaskState,
    error: Option<Seq<char>>,
    found: DiskFiles,
    b: App,
)
    requires
        task_told(a, task, error, found, b),
    ensures
        b.tree@ == a.tree@.refreshed(listing_view(found.listing@), listings_view(found.listings@)),
        a.root matches Some(root) ==> texts(b.files@) == sorted_paths(
            kept_files(walk_view(found.files@)),
        ) && entries_of(
            b.entries,
            root@,
            marked_files(walk_view(found.walk@), walk_view(found.heeding_walk@)),
        ),
        b.root == a.root,
        b.tabs == a.tabs,
{
}

} // verus!
