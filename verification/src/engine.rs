//! The synchronization engine: one pass that loads both populations, plans,
//! and reconciles the launcher's entries with the store's.
//!
//! The engine does no input or output of its own. It names the next piece of
//! work as a [`Command`], the host carries it out and reports back with an
//! [`Event`], and the engine decides what follows. A failure on one shortcut
//! is recorded and the pass goes on with the next; only the update of the
//! launcher's index at the end decides whether the pass succeeded.

use vstd::prelude::*;
use vstd::string::*;
use crate::codec::{
    descriptor_file_name,
    descriptor_file_name_spec,
    descriptor_spec,
    descriptor_text,
    load,
    loaded,
};
use crate::icon::{icon_file_name, icon_file_name_spec, is_icon, is_last_icon, resolve, TreeEntry};
use crate::layout::{join_path, join_spec, Layout};
use crate::planner::{
    distinct_records,
    entries_map,
    lemma_entry_gives_action,
    lemma_second_plan_keeps_all,
    plan,
    plan_spec,
    selected,
    Action,
    PlanEntry,
    ReconcilePlan,
};
use crate::record::{population, RecordView, ShortcutRecord};

verus! {

/// What the engine is waiting for.
#[derive(Clone, Copy, Debug, PartialEq, Eq, Hash, Structural)]
pub enum Stage {
    /// The texts of the store's entries.
    LoadSource,
    /// The texts of the launcher's entries.
    LoadTarget,
    /// An addition: the descriptor is being written.
    WriteDescriptor,
    /// An addition: the store's icon tree is being listed.
    FindIcon,
    /// An addition: the user's icon directory is being created.
    MakeIconDirectory,
    /// An addition: the icon is being copied.
    CopyIcon,
    /// A removal: the descriptor is being deleted.
    RemoveDescriptor,
    /// A removal: the system's icons are being listed.
    FindStaleIcon,
    /// A removal: the icon is being deleted.
    RemoveIcon,
    /// A shortcut that is kept: nothing to do but to say so.
    Skip,
    /// The launcher's index is being updated.
    UpdateIndex,
    /// The pass is over.
    Finished,
}

/// What became of the icon of a shortcut that was added.
#[derive(Clone, Copy, Debug, PartialEq, Eq, Hash, Structural)]
pub enum IconOutcome {
    /// The store holds no icon for the game.
    NotFound,
    /// The user's icon directory could not be created.
    DirectoryFailed,
    /// The icon could not be copied.
    CopyFailed,
    /// The icon was copied.
    Copied,
}

/// What became of the icon of a shortcut that was removed.
#[derive(Clone, Copy, Debug, PartialEq, Eq, Hash, Structural)]
pub enum StaleIconOutcome {
    /// The system holds no icon for the game.
    NotFound,
    /// The icon could not be deleted.
    RemoveFailed,
    /// The icon was deleted.
    Removed,
}

/// What a pass did about one shortcut.
#[derive(Clone, Copy, Debug, PartialEq, Eq, Hash, Structural)]
pub enum Outcome {
    /// The descriptor was written.
    Written { icon: IconOutcome },
    /// The descriptor could not be written; the icon was not looked for.
    WriteFailed,
    /// The descriptor was deleted.
    Removed { stale_icon: StaleIconOutcome },
    /// The descriptor could not be deleted.
    RemoveFailed { stale_icon: StaleIconOutcome },
    /// The shortcut was left alone.
    Kept,
}

/// What the host reports.
#[derive(Debug, PartialEq, Eq)]
pub enum Event {
    /// The texts of the files of the tree that was to be read, one text for
    /// each file that could be read as text.
    Texts(Vec<String>),
    /// The entries of the tree that was to be listed.
    Entries(Vec<TreeEntry>),
    /// The work is done, with success or without.
    Done(bool),
}

/// What the host has to do next.
#[derive(Debug, PartialEq, Eq)]
pub enum Command {
    /// Read every file below `root` as text. A root that does not exist has
    /// no files.
    ReadTree { root: String },
    /// List every entry below `root`.
    ListTree { root: String },
    /// Write `contents` to the file at `path`, over what is there.
    WriteFile { path: String, contents: String },
    /// Create the directory at `path` and those above it.
    CreateDirectory { path: String },
    /// Copy the file at `from` to `to`.
    CopyFile { from: String, to: String },
    /// Delete the file at `path`.
    RemoveFile { path: String },
    /// Update the launcher's index of the entries in `directory`.
    UpdateIndex { directory: String },
    /// Nothing to do for this shortcut; report `Done`.
    Skip,
    /// The pass is over.
    Finish,
}

/// What a [`Command`] stands for in contracts.
pub enum CommandView {
    ReadTree { root: Seq<char> },
    ListTree { root: Seq<char> },
    WriteFile { path: Seq<char>, contents: Seq<char> },
    CreateDirectory { path: Seq<char> },
    CopyFile { from: Seq<char>, to: Seq<char> },
    RemoveFile { path: Seq<char> },
    UpdateIndex { directory: Seq<char> },
    Skip,
    Finish,
}

impl View for Command {
    type V = CommandView;

    open spec fn view(&self) -> CommandView {
        match self {
            Command::ReadTree { root } => CommandView::ReadTree { root: root@ },
            Command::ListTree { root } => CommandView::ListTree { root: root@ },
            Command::WriteFile { path, contents } => CommandView::WriteFile {
                path: path@,
                contents: contents@,
            },
            Command::CreateDirectory { path } => CommandView::CreateDirectory { path: path@ },
            Command::CopyFile { from, to } => CommandView::CopyFile { from: from@, to: to@ },
            Command::RemoveFile { path } => CommandView::RemoveFile { path: path@ },
            Command::UpdateIndex { directory } => CommandView::UpdateIndex {
                directory: directory@,
            },
            Command::Skip => CommandView::Skip,
            Command::Finish => CommandView::Finish,
        }
    }
}

/// One pass in progress.
#[derive(Debug)]
pub struct SyncEngine {
    /// The directories the pass works on.
    pub layout: Layout,
    /// What the engine is waiting for.
    pub stage: Stage,
    /// The store's shortcuts, once they are loaded.
    pub source: Vec<ShortcutRecord>,
    /// The plan, once both sides are loaded.
    pub plan: ReconcilePlan,
    /// The entry of the plan that is in progress.
    pub cursor: usize,
    /// The path of the icon in hand, while one is.
    pub icon: String,
    /// Whether the descriptor of the removal in progress was deleted.
    pub descriptor_removed: bool,
    /// What was done about the entries before the cursor, in their order.
    pub outcomes: Vec<Outcome>,
    /// Whether the launcher's index was updated.
    pub index_updated: bool,
}

/// The account of a pass that is over.
#[derive(Debug, PartialEq, Eq)]
pub struct SyncReport {
    /// What the pass set out to do.
    pub plan: ReconcilePlan,
    /// What it did about each entry of the plan, in the plan's order.
    pub outcomes: Vec<Outcome>,
    /// Whether the launcher's index was updated; without it the pass has
    /// failed.
    pub index_updated: bool,
}

/// The stage that opens the work on entry `cursor`, or the update of the
/// index after the last entry.
pub open spec fn begin(entries: Seq<PlanEntry>, cursor: int) -> Stage {
    if 0 <= cursor < entries.len() {
        match entries[cursor].action {
            Action::Add => Stage::WriteDescriptor,
            Action::Remove => Stage::RemoveDescriptor,
            Action::Keep => Stage::Skip,
        }
    } else {
        Stage::UpdateIndex
    }
}

/// Whether an outcome is one that an action can have.
pub open spec fn fits(action: Action, outcome: Outcome) -> bool {
    match action {
        Action::Add => outcome is Written || outcome is WriteFailed,
        Action::Remove => outcome is Removed || outcome is RemoveFailed,
        Action::Keep => outcome is Kept,
    }
}

/// Every outcome is one that the action of its entry can have.
pub open spec fn outcomes_fit(entries: Seq<PlanEntry>, outcomes: Seq<Outcome>) -> bool {
    &&& outcomes.len() <= entries.len()
    &&& forall|i: int| 0 <= i < outcomes.len() ==> fits(entries[i].action, #[trigger] outcomes[i])
}

/// The outcome of a removal.
pub open spec fn removal(descriptor_removed: bool, stale_icon: StaleIconOutcome) -> Outcome {
    if descriptor_removed {
        Outcome::Removed { stale_icon }
    } else {
        Outcome::RemoveFailed { stale_icon }
    }
}

/// From `pre` to `post` the directories, the store's shortcuts and the plan
/// stay, and so does what is known of the index.
pub open spec fn carries(pre: SyncEngine, post: SyncEngine) -> bool {
    &&& post.layout == pre.layout
    &&& post.source == pre.source
    &&& post.plan == pre.plan
    &&& post.index_updated == pre.index_updated
}

/// From `pre` to `post` the stage becomes `stage`, and nothing else
/// changes.
pub open spec fn moves(pre: SyncEngine, post: SyncEngine, stage: Stage) -> bool {
    &&& carries(pre, post)
    &&& post.stage == stage
    &&& post.cursor == pre.cursor
    &&& post.outcomes == pre.outcomes
    &&& post.icon == pre.icon
    &&& post.descriptor_removed == pre.descriptor_removed
}

/// From `pre` to `post` the stage becomes `stage` and the engine takes in
/// hand the icon of the game `id` that comes last among `entries`; nothing
/// else changes.
pub open spec fn takes_icon(
    pre: SyncEngine,
    post: SyncEngine,
    stage: Stage,
    entries: Seq<TreeEntry>,
    id: Seq<char>,
) -> bool {
    &&& carries(pre, post)
    &&& post.stage == stage
    &&& post.cursor == pre.cursor
    &&& post.outcomes == pre.outcomes
    &&& is_last_icon(entries, id, post.icon@)
    &&& post.descriptor_removed == pre.descriptor_removed
}

/// From `pre` to `post` the entry in progress ends with `outcome`, and the
/// next entry opens.
pub open spec fn closes(pre: SyncEngine, post: SyncEngine, outcome: Outcome) -> bool {
    &&& carries(pre, post)
    &&& post.stage == begin(pre.plan.entries@, pre.cursor + 1)
    &&& post.cursor == pre.cursor + 1
    &&& post.outcomes@ == pre.outcomes@.push(outcome)
    &&& post.icon == pre.icon
    &&& post.descriptor_removed == pre.descriptor_removed
}

/// `entries` hold an icon of the game `id`.
pub open spec fn holds_icon(entries: Seq<TreeEntry>, id: Seq<char>) -> bool {
    exists|j: int| is_icon(entries, j, id)
}

/// The engine's transition: `event` takes `pre` to `post`. An event that
/// does not answer the command of the stage changes nothing.
pub open spec fn steps_to(pre: SyncEngine, event: Event, post: SyncEngine) -> bool {
    let id = pre.plan.entries@[pre.cursor as int].record@.id;
    match (pre.stage, event) {
        (Stage::LoadSource, Event::Texts(texts)) => {
            &&& post.stage == Stage::LoadTarget
            &&& population(post.source@) == loaded(texts@)
            &&& post.layout == pre.layout
            &&& post.plan == pre.plan
            &&& post.cursor == pre.cursor
            &&& post.outcomes == pre.outcomes
            &&& post.index_updated == pre.index_updated
            &&& post.icon == pre.icon
            &&& post.descriptor_removed == pre.descriptor_removed
        },
        (Stage::LoadTarget, Event::Texts(texts)) => {
            &&& post.plan.well_formed()
            &&& post.plan@ == plan_spec(population(pre.source@), loaded(texts@))
            &&& post.stage == begin(post.plan.entries@, 0)
            &&& post.layout == pre.layout
            &&& post.source == pre.source
            &&& post.cursor == pre.cursor
            &&& post.outcomes == pre.outcomes
            &&& post.index_updated == pre.index_updated
            &&& post.icon == pre.icon
            &&& post.descriptor_removed == pre.descriptor_removed
        },
        (Stage::WriteDescriptor, Event::Done(ok)) => if ok {
            moves(pre, post, Stage::FindIcon)
        } else {
            closes(pre, post, Outcome::WriteFailed)
        },
        (Stage::FindIcon, Event::Entries(entries)) => if holds_icon(entries@, id) {
            takes_icon(pre, post, Stage::MakeIconDirectory, entries@, id)
        } else {
            closes(pre, post, Outcome::Written { icon: IconOutcome::NotFound })
        },
        (Stage::MakeIconDirectory, Event::Done(ok)) => if ok {
            moves(pre, post, Stage::CopyIcon)
        } else {
            closes(pre, post, Outcome::Written { icon: IconOutcome::DirectoryFailed })
        },
        (Stage::CopyIcon, Event::Done(ok)) => closes(
            pre,
            post,
            Outcome::Written {
                icon: if ok {
                    IconOutcome::Copied
                } else {
                    IconOutcome::CopyFailed
                },
            },
        ),
        (Stage::RemoveDescriptor, Event::Done(ok)) => {
            &&& carries(pre, post)
            &&& post.stage == Stage::FindStaleIcon
            &&& post.cursor == pre.cursor
            &&& post.outcomes == pre.outcomes
            &&& post.icon == pre.icon
            &&& post.descriptor_removed == ok
        },
        (Stage::FindStaleIcon, Event::Entries(entries)) => if holds_icon(entries@, id) {
            takes_icon(pre, post, Stage::RemoveIcon, entries@, id)
        } else {
            closes(pre, post, removal(pre.descriptor_removed, StaleIconOutcome::NotFound))
        },
        (Stage::RemoveIcon, Event::Done(ok)) => closes(
            pre,
            post,
            removal(
                pre.descriptor_removed,
                if ok {
                    StaleIconOutcome::Removed
                } else {
                    StaleIconOutcome::RemoveFailed
                },
            ),
        ),
        (Stage::Skip, Event::Done(_)) => closes(pre, post, Outcome::Kept),
        (Stage::UpdateIndex, Event::Done(ok)) => {
            &&& post.stage == Stage::Finished
            &&& post.index_updated == ok
            &&& post.layout == pre.layout
            &&& post.source == pre.source
            &&& post.plan == pre.plan
            &&& post.cursor == pre.cursor
            &&& post.outcomes == pre.outcomes
            &&& post.icon == pre.icon
            &&& post.descriptor_removed == pre.descriptor_removed
        },
        _ => post == pre,
    }
}

impl SyncEngine {
    /// What holds of an engine at every step: the plan has one entry for
    /// each shortcut, the entries before the cursor have their outcomes and
    /// no others have, and the stage belongs to the entry at the cursor.
    pub open spec fn wf(&self) -> bool {
        let entries = self.plan.entries@;
        &&& self.plan.well_formed()
        &&& self.cursor <= entries.len()
        &&& self.outcomes@.len() == self.cursor
        &&& outcomes_fit(entries, self.outcomes@)
        &&& match self.stage {
            Stage::LoadSource | Stage::LoadTarget => entries.len() == 0,
            Stage::WriteDescriptor | Stage::FindIcon | Stage::MakeIconDirectory | Stage::CopyIcon => {
                self.cursor < entries.len() && entries[self.cursor as int].action == Action::Add
            },
            Stage::RemoveDescriptor | Stage::FindStaleIcon | Stage::RemoveIcon => {
                self.cursor < entries.len() && entries[self.cursor as int].action
                    == Action::Remove
            },
            Stage::Skip => {
                self.cursor < entries.len() && entries[self.cursor as int].action == Action::Keep
            },
            Stage::UpdateIndex | Stage::Finished => self.cursor == entries.len(),
        }
    }

    /// The command that the stage calls for.
    pub open spec fn command_spec(&self) -> CommandView {
        let record = self.plan.entries@[self.cursor as int].record@;
        let descriptor = join_spec(
            self.layout.target_entries@,
            descriptor_file_name_spec(record.name),
        );
        match self.stage {
            Stage::LoadSource => CommandView::ReadTree { root: self.layout.source_entries@ },
            Stage::LoadTarget => CommandView::ReadTree { root: self.layout.target_entries@ },
            Stage::WriteDescriptor => CommandView::WriteFile {
                path: descriptor,
                contents: descriptor_spec(record),
            },
            Stage::FindIcon => CommandView::ListTree { root: self.layout.source_icons@ },
            Stage::MakeIconDirectory => CommandView::CreateDirectory {
                path: self.layout.target_icons@,
            },
            Stage::CopyIcon => CommandView::CopyFile {
                from: self.icon@,
                to: join_spec(self.layout.target_icons@, icon_file_name_spec(record.id)),
            },
            Stage::RemoveDescriptor => CommandView::RemoveFile { path: descriptor },
            Stage::FindStaleIcon => CommandView::ListTree { root: self.layout.fallback_icons@ },
            Stage::RemoveIcon => CommandView::RemoveFile { path: self.icon@ },
            Stage::Skip => CommandView::Skip,
            Stage::UpdateIndex => CommandView::UpdateIndex {
                directory: self.layout.target_entries@,
            },
            Stage::Finished => CommandView::Finish,
        }
    }

    /// A pass about to begin on the directories of `layout`.
    pub fn new(layout: Layout) -> (engine: SyncEngine)
        ensures
            engine.wf(),
            engine.stage == Stage::LoadSource,
            engine.layout == layout,
            engine.cursor == 0,
            engine.outcomes@.len() == 0,
            !engine.index_updated,
    {
        SyncEngine {
            layout,
            stage: Stage::LoadSource,
            source: Vec::new(),
            plan: ReconcilePlan { entries: Vec::new() },
            cursor: 0,
            icon: String::new(),
            descriptor_removed: false,
            outcomes: Vec::new(),
            index_updated: false,
        }
    }

    /// Whether the pass is over.
    pub fn is_finished(&self) -> (finished: bool)
        ensures
            finished == (self.stage == Stage::Finished),
    {
        match self.stage {
            Stage::Finished => true,
            _ => false,
        }
    }

    /// The work that the host has to do now.
    pub fn command(&self) -> (command: Command)
        requires
            self.wf(),
        ensures
            command@ == self.command_spec(),
    {
        match self.stage {
            Stage::LoadSource => Command::ReadTree { root: self.layout.source_entries.clone() },
            Stage::LoadTarget => Command::ReadTree { root: self.layout.target_entries.clone() },
            Stage::WriteDescriptor => {
                let record = &self.plan.entries[self.cursor].record;
                let file_name = descriptor_file_name(record);
                Command::WriteFile {
                    path: join_path(self.layout.target_entries.as_str(), file_name.as_str()),
                    contents: descriptor_text(record),
                }
            },
            Stage::FindIcon => Command::ListTree { root: self.layout.source_icons.clone() },
            Stage::MakeIconDirectory => Command::CreateDirectory {
                path: self.layout.target_icons.clone(),
            },
            Stage::CopyIcon => {
                let record = &self.plan.entries[self.cursor].record;
                let file_name = icon_file_name(record.id.as_str());
                Command::CopyFile {
                    from: self.icon.clone(),
                    to: join_path(self.layout.target_icons.as_str(), file_name.as_str()),
                }
            },
            Stage::RemoveDescriptor => {
                let record = &self.plan.entries[self.cursor].record;
                let file_name = descriptor_file_name(record);
                Command::RemoveFile {
                    path: join_path(self.layout.target_entries.as_str(), file_name.as_str()),
                }
            },
            Stage::FindStaleIcon => Command::ListTree { root: self.layout.fallback_icons.clone() },
            Stage::RemoveIcon => Command::RemoveFile { path: self.icon.clone() },
            Stage::Skip => Command::Skip,
            Stage::UpdateIndex => Command::UpdateIndex {
                directory: self.layout.target_entries.clone(),
            },
            Stage::Finished => Command::Finish,
        }
    }

    /// The stage that opens the work on entry `cursor`.
    fn begin_at(&self, cursor: usize) -> (stage: Stage)
        ensures
            stage == begin(self.plan.entries@, cursor as int),
    {
        if cursor < self.plan.entries.len() {
            match self.plan.entries[cursor].action {
                Action::Add => Stage::WriteDescriptor,
                Action::Remove => Stage::RemoveDescriptor,
                Action::Keep => Stage::Skip,
            }
        } else {
            Stage::UpdateIndex
        }
    }

    /// Ends the entry in progress with `outcome` and opens the next.
    fn close(&mut self, outcome: Outcome)
        requires
            old(self).wf(),
            old(self).cursor < old(self).plan.entries@.len(),
            fits(old(self).plan.entries@[old(self).cursor as int].action, outcome),
        ensures
            final(self).wf(),
            closes(*old(self), *final(self), outcome),
    {
        self.outcomes.push(outcome);
        self.cursor = self.outcomes.len();
        self.stage = self.begin_at(self.cursor);
    }

    /// Takes the host's report on the command in progress and moves on.
    ///
    /// The pass loads the store's entries, then the launcher's, and plans.
    /// An addition writes the descriptor and then, if that succeeded, looks
    /// for the icon, creates the user's icon directory and copies the icon;
    /// the first of these that fails ends the work on that shortcut. A
    /// removal deletes the descriptor and then, whether or not that
    /// succeeded, the system's icon of the game if there is one. After the
    /// last entry the launcher's index is updated, and the pass is over.
    pub fn step(&mut self, event: Event)
        requires
            old(self).wf(),
        ensures
            final(self).wf(),
            steps_to(*old(self), event, *final(self)),
    {
        match self.stage {
            Stage::LoadSource => match event {
                Event::Texts(texts) => {
                    self.source = load(&texts);
                    self.stage = Stage::LoadTarget;
                },
                _ => {},
            },
            Stage::LoadTarget => match event {
                Event::Texts(texts) => {
                    let target = load(&texts);
                    self.plan = plan(&self.source, &target);
                    self.stage = self.begin_at(0);
                },
                _ => {},
            },
            Stage::WriteDescriptor => match event {
                Event::Done(ok) => {
                    if ok {
                        self.stage = Stage::FindIcon;
                    } else {
                        self.close(Outcome::WriteFailed);
                    }
                },
                _ => {},
            },
            Stage::FindIcon => match event {
                Event::Entries(entries) => {
                    let found = resolve(
                        self.plan.entries[self.cursor].record.id.as_str(),
                        &entries,
                    );
                    match found {
                        Some(path) => {
                            self.icon = path;
                            self.stage = Stage::MakeIconDirectory;
                        },
                        None => {
                            self.close(Outcome::Written { icon: IconOutcome::NotFound });
                        },
                    }
                },
                _ => {},
            },
            Stage::MakeIconDirectory => match event {
                Event::Done(ok) => {
                    if ok {
                        self.stage = Stage::CopyIcon;
                    } else {
                        self.close(Outcome::Written { icon: IconOutcome::DirectoryFailed });
                    }
                },
                _ => {},
            },
            Stage::CopyIcon => match event {
                Event::Done(ok) => {
                    let icon = if ok {
                        IconOutcome::Copied
                    } else {
                        IconOutcome::CopyFailed
                    };
                    self.close(Outcome::Written { icon });
                },
                _ => {},
            },
            Stage::RemoveDescriptor => match event {
                Event::Done(ok) => {
                    self.descriptor_removed = ok;
                    self.stage = Stage::FindStaleIcon;
                },
                _ => {},
            },
            Stage::FindStaleIcon => match event {
                Event::Entries(entries) => {
                    let found = resolve(
                        self.plan.entries[self.cursor].record.id.as_str(),
                        &entries,
                    );
                    match found {
                        Some(path) => {
                            self.icon = path;
                            self.stage = Stage::RemoveIcon;
                        },
                        None => {
                            let outcome = if self.descriptor_removed {
                                Outcome::Removed { stale_icon: StaleIconOutcome::NotFound }
                            } else {
                                Outcome::RemoveFailed { stale_icon: StaleIconOutcome::NotFound }
                            };
                            self.close(outcome);
                        },
                    }
                },
                _ => {},
            },
            Stage::RemoveIcon => match event {
                Event::Done(ok) => {
                    let stale_icon = if ok {
                        StaleIconOutcome::Removed
                    } else {
                        StaleIconOutcome::RemoveFailed
                    };
                    let outcome = if self.descriptor_removed {
                        Outcome::Removed { stale_icon }
                    } else {
                        Outcome::RemoveFailed { stale_icon }
                    };
                    self.close(outcome);
                },
                _ => {},
            },
            Stage::Skip => match event {
                Event::Done(_) => {
                    self.close(Outcome::Kept);
                },
                _ => {},
            },
            Stage::UpdateIndex => match event {
                Event::Done(ok) => {
                    self.index_updated = ok;
                    self.stage = Stage::Finished;
                },
                _ => {},
            },
            Stage::Finished => {},
        }
    }

    /// The account of the pass, once it is over.
    pub fn report(self) -> (report: Option<SyncReport>)
        requires
            self.wf(),
        ensures
            report is Some <==> self.stage == Stage::Finished,
            report matches Some(r) ==> {
                &&& r.plan == self.plan
                &&& r.outcomes == self.outcomes
                &&& r.index_updated == self.index_updated
                &&& r.wf()
            },
    {
        match self.stage {
            Stage::Finished => Some(
                SyncReport {
                    plan: self.plan,
                    outcomes: self.outcomes,
                    index_updated: self.index_updated,
                },
            ),
            _ => None,
        }
    }
}

/// No descriptor failed to be written or deleted.
pub open spec fn clean(outcomes: Seq<Outcome>) -> bool {
    forall|i: int|
        0 <= i < outcomes.len() ==> !((#[trigger] outcomes[i]) is WriteFailed) && !(outcomes[i]
            is RemoveFailed)
}

impl SyncReport {
    /// The report accounts for every entry of its plan.
    pub open spec fn wf(&self) -> bool {
        &&& self.plan.well_formed()
        &&& self.outcomes@.len() == self.plan.entries@.len()
        &&& outcomes_fit(self.plan.entries@, self.outcomes@)
    }

    /// Whether the pass succeeded: whether the launcher's index was updated.
    pub fn succeeded(&self) -> (ok: bool)
        ensures
            ok == self.index_updated,
    {
        self.index_updated
    }

    /// Whether every descriptor that was to be written or deleted was.
    pub fn is_clean(&self) -> (ok: bool)
        ensures
            ok == clean(self.outcomes@),
    {
        let mut i: usize = 0;
        while i < self.outcomes.len()
            invariant
                i <= self.outcomes.len(),
                clean(self.outcomes@.take(i as int)),
            decreases self.outcomes.len() - i,
        {
            match self.outcomes[i] {
                Outcome::WriteFailed | Outcome::RemoveFailed { .. } => {
                    return false;
                },
                _ => {},
            }
            proof {
                assert forall|j: int| 0 <= j < i + 1 implies !((#[trigger] self.outcomes@.take(
                    i + 1,
                )[j]) is WriteFailed) && !(self.outcomes@.take(i + 1)[j] is RemoveFailed) by {
                    if j < i {
                        assert(self.outcomes@.take(i as int)[j] == self.outcomes@[j]);
                    }
                }
            }
            i += 1;
        }
        assert(self.outcomes@.take(i as int) =~= self.outcomes@);
        true
    }
}

/// Entry `i` has its outcome, and it is the entry of the shortcut `r`.
pub open spec fn settled(
    entries: Seq<PlanEntry>,
    outcomes: Seq<Outcome>,
    i: int,
    r: RecordView,
) -> bool {
    0 <= i < outcomes.len() && i < entries.len() && entries[i].record@ == r
}

/// The launcher's shortcuts after a pass with these outcomes, given that it
/// held `target` before: what it held, without those whose descriptor was
/// deleted, and with those whose descriptor was written.
///
/// This takes each descriptor to read back as the record it was written
/// from, which `lemma_written_descriptor_reads_back` shows of every
/// writable record.
pub open spec fn target_after(
    target: Set<RecordView>,
    entries: Seq<PlanEntry>,
    outcomes: Seq<Outcome>,
) -> Set<RecordView> {
    Set::new(
        |r: RecordView|
            (target.contains(r) && !(exists|i: int|
                settled(entries, outcomes, i, r) && outcomes[i] is Removed)) || (exists|i: int|
                settled(entries, outcomes, i, r) && outcomes[i] is Written),
    )
}

/// The outcomes of a pass are only ever added to: a step leaves those that
/// are recorded as they are, and the plan, once made, as it is.
pub proof fn lemma_outcomes_only_grow(pre: SyncEngine, event: Event, post: SyncEngine)
    requires
        pre.wf(),
        steps_to(pre, event, post),
    ensures
        pre.outcomes@.is_prefix_of(post.outcomes@),
        post.outcomes@.len() <= pre.outcomes@.len() + 1,
        pre.stage != Stage::LoadTarget ==> post.plan == pre.plan,
{
    assert(pre.outcomes@.push(Outcome::Kept).subrange(0, pre.outcomes@.len() as int)
        =~= pre.outcomes@);
    assert forall|o: Outcome| #[trigger]
        pre.outcomes@.is_prefix_of(pre.outcomes@.push(o)) by {
        assert(pre.outcomes@.push(o).subrange(0, pre.outcomes@.len() as int) =~= pre.outcomes@);
    }
    assert(pre.outcomes@.subrange(0, pre.outcomes@.len() as int) =~= pre.outcomes@);
}

/// Once the descriptor of an addition is written, no trouble with the icon
/// takes that back: whatever the host reports while the icon is looked for,
/// its directory made or the icon copied, the engine either goes on with
/// the icon or records the shortcut as written.
pub proof fn lemma_icon_trouble_keeps_descriptor(pre: SyncEngine, event: Event, post: SyncEngine)
    requires
        pre.wf(),
        steps_to(pre, event, post),
        pre.stage == Stage::FindIcon || pre.stage == Stage::MakeIconDirectory || pre.stage
            == Stage::CopyIcon,
    ensures
        post.plan == pre.plan,
        (post.cursor == pre.cursor && post.outcomes == pre.outcomes && (post.stage
            == Stage::FindIcon || post.stage == Stage::MakeIconDirectory || post.stage
            == Stage::CopyIcon)) || (post.cursor == pre.cursor + 1 && post.outcomes@.drop_last()
            == pre.outcomes@ && post.outcomes@.len() == pre.cursor + 1
            && post.outcomes@.last() is Written),
{
    assert forall|o: Outcome| #[trigger] pre.outcomes@.push(o).drop_last() == pre.outcomes@ by {
        assert(pre.outcomes@.push(o).drop_last() =~= pre.outcomes@);
    }
}

/// A shortcut whose descriptor was written is kept by the next pass, as
/// long as the store still holds it: it is neither added again nor lost,
/// whatever became of its icon and of the other shortcuts.
pub proof fn lemma_written_shortcut_is_kept(
    source: Set<RecordView>,
    target: Set<RecordView>,
    entries: Seq<PlanEntry>,
    outcomes: Seq<Outcome>,
    i: int,
)
    requires
        distinct_records(entries),
        entries_map(entries) == plan_spec(source, target),
        outcomes_fit(entries, outcomes),
        0 <= i < outcomes.len(),
        outcomes[i] is Written,
    ensures
        source.contains(entries[i].record@),
        target_after(target, entries, outcomes).contains(entries[i].record@),
        plan_spec(source, target_after(target, entries, outcomes)).dom().contains(
            entries[i].record@,
        ),
        plan_spec(source, target_after(target, entries, outcomes))[entries[i].record@]
            == Action::Keep,
{
    let r = entries[i].record@;
    lemma_entry_gives_action(entries, i);
    assert(fits(entries[i].action, outcomes[i]));
    assert(plan_spec(source, target)[r] == Action::Add);
    assert(settled(entries, outcomes, i, r));
}

/// A pass in which no descriptor failed leaves the launcher with the
/// store's shortcuts and no others, so that the pass after it, on an
/// unchanged store, adds nothing and removes nothing.
pub proof fn lemma_clean_pass_converges(
    source: Set<RecordView>,
    target: Set<RecordView>,
    entries: Seq<PlanEntry>,
    outcomes: Seq<Outcome>,
)
    requires
        distinct_records(entries),
        entries_map(entries) == plan_spec(source, target),
        outcomes_fit(entries, outcomes),
        outcomes.len() == entries.len(),
        clean(outcomes),
    ensures
        target_after(target, entries, outcomes) == source,
        selected(plan_spec(source, target_after(target, entries, outcomes)), Action::Add)
            == Set::<RecordView>::empty(),
        selected(plan_spec(source, target_after(target, entries, outcomes)), Action::Remove)
            == Set::<RecordView>::empty(),
{
    let after = target_after(target, entries, outcomes);
    let p = plan_spec(source, target);
    assert forall|r: RecordView| after.contains(r) <==> source.contains(r) by {
        if exists|i: int| settled(entries, outcomes, i, r) && outcomes[i] is Written {
            let i = choose|i: int| settled(entries, outcomes, i, r) && outcomes[i] is Written;
            lemma_entry_gives_action(entries, i);
            assert(fits(entries[i].action, outcomes[i]));
            assert(p[r] == Action::Add);
        }
        if exists|i: int| settled(entries, outcomes, i, r) && outcomes[i] is Removed {
            let i = choose|i: int| settled(entries, outcomes, i, r) && outcomes[i] is Removed;
            lemma_entry_gives_action(entries, i);
            assert(fits(entries[i].action, outcomes[i]));
            assert(p[r] == Action::Remove);
        }
        if source.contains(r) || target.contains(r) {
            assert(p.dom().contains(r));
            let i = choose|i: int| crate::planner::decides(entries, i, r);
            lemma_entry_gives_action(entries, i);
            assert(fits(entries[i].action, outcomes[i]));
            assert(settled(entries, outcomes, i, r));
            assert(!(outcomes[i] is WriteFailed) && !(outcomes[i] is RemoveFailed));
        }
    }
    assert(after =~= source);
    lemma_second_plan_keeps_all(source, target);
}

/// Whether `event` is of the kind that answers the command of `stage`.
pub open spec fn answers(stage: Stage, event: Event) -> bool {
    match stage {
        Stage::LoadSource | Stage::LoadTarget => event is Texts,
        Stage::FindIcon | Stage::FindStaleIcon => event is Entries,
        Stage::Finished => false,
        _ => event is Done,
    }
}

/// The most commands that the work on one entry can still take from
/// `stage` on.
pub open spec fn steps_within(stage: Stage) -> nat {
    match stage {
        Stage::WriteDescriptor => 4,
        Stage::FindIcon | Stage::RemoveDescriptor => 3,
        Stage::MakeIconDirectory | Stage::FindStaleIcon => 2,
        Stage::CopyIcon | Stage::RemoveIcon | Stage::Skip => 1,
        _ => 0,
    }
}

/// The most commands that a planned pass can still take: those of the entry
/// in progress, four for each entry after it, and the update of the index.
pub open spec fn work_left(engine: SyncEngine) -> nat {
    match engine.stage {
        Stage::Finished => 0,
        Stage::UpdateIndex => 1,
        _ => (steps_within(engine.stage) + 4 * (engine.plan.entries@.len() - engine.cursor - 1)
            + 1) as nat,
    }
}

/// A pass that has its plan cannot stall and cannot be cut short: every
/// answer to its command, good news or bad, brings it nearer to its end,
/// and it ends only with the update of the index.
pub proof fn lemma_every_answer_is_progress(pre: SyncEngine, event: Event, post: SyncEngine)
    requires
        pre.wf(),
        steps_to(pre, event, post),
        answers(pre.stage, event),
        pre.stage != Stage::LoadSource,
        pre.stage != Stage::LoadTarget,
    ensures
        work_left(post) < work_left(pre),
        post.stage == Stage::Finished ==> pre.stage == Stage::UpdateIndex,
{
}

} // verus!
