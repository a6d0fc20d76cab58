use std::collections::BTreeMap;
use steam_shortcut_sync::codec::{descriptor_text, load};
use steam_shortcut_sync::engine::{
    Command, Event, IconOutcome, Outcome, StaleIconOutcome, Stage, SyncEngine, SyncReport,
};
use steam_shortcut_sync::icon::TreeEntry;
use steam_shortcut_sync::layout::Layout;
use steam_shortcut_sync::planner::Action;
use steam_shortcut_sync::record::ShortcutRecord;

const SOURCE: &str = "/home/u/.var/app/com.valvesoftware.Steam/data/applications";
const ICONS: &str = "/home/u/.var/app/com.valvesoftware.Steam/data/icons/hicolor";
const TARGET: &str = "/home/u/.local/share/applications";
const USER_ICONS: &str = "/home/u/.icons";
const PIXMAPS: &str = "/usr/share/pixmaps";

fn record(name: &str, id: &str) -> ShortcutRecord {
    ShortcutRecord::new(name.to_string(), id.to_string())
}

/// A disk in memory, with switches for the failures a pass has to survive.
struct Disk {
    files: BTreeMap<String, String>,
    directories: Vec<String>,
    refuse_write: Vec<String>,
    refuse_remove: Vec<String>,
    refuse_copy: bool,
    refuse_directory: bool,
    refuse_index: bool,
    index_updates: usize,
    commands: Vec<Command>,
}

impl Disk {
    fn new() -> Disk {
        Disk {
            files: BTreeMap::new(),
            directories: Vec::new(),
            refuse_write: Vec::new(),
            refuse_remove: Vec::new(),
            refuse_copy: false,
            refuse_directory: false,
            refuse_index: false,
            index_updates: 0,
            commands: Vec::new(),
        }
    }

    fn put(&mut self, path: &str, contents: &str) {
        self.files.insert(path.to_string(), contents.to_string());
    }

    fn store_game(&mut self, name: &str, id: &str) {
        let text = format!("[Desktop Entry]\nName={}\nExec=steam steam://rungameid/{}\nIcon=steam_icon_{}\nType=Application\n", name, id, id);
        self.put(&format!("{}/{}.desktop", SOURCE, name), &text);
    }

    fn below(&self, root: &str) -> Vec<(String, String)> {
        let prefix = format!("{}/", root);
        self.files
            .iter()
            .filter(|(path, _)| path.starts_with(&prefix))
            .map(|(path, text)| (path.clone(), text.clone()))
            .collect()
    }

    fn population(&self, root: &str) -> Vec<ShortcutRecord> {
        let texts: Vec<String> = self.below(root).into_iter().map(|(_, t)| t).collect();
        let mut records = load(&texts);
        records.sort_by(|a, b| (&a.name, &a.id).cmp(&(&b.name, &b.id)));
        records
    }

    fn perform(&mut self, command: &Command) -> Event {
        match command {
            Command::ReadTree { root } => {
                Event::Texts(self.below(root).into_iter().map(|(_, t)| t).collect())
            }
            Command::ListTree { root } => Event::Entries(
                self.below(root)
                    .into_iter()
                    .map(|(path, _)| TreeEntry {
                        file_name: path[path.rfind('/').unwrap() + 1..].to_string(),
                        path,
                    })
                    .collect(),
            ),
            Command::WriteFile { path, contents } => {
                if self.refuse_write.contains(path) {
                    Event::Done(false)
                } else {
                    self.files.insert(path.clone(), contents.clone());
                    Event::Done(true)
                }
            }
            Command::CreateDirectory { path } => {
                if self.refuse_directory {
                    Event::Done(false)
                } else {
                    self.directories.push(path.clone());
                    Event::Done(true)
                }
            }
            Command::CopyFile { from, to } => {
                if self.refuse_copy {
                    Event::Done(false)
                } else {
                    match self.files.get(from).cloned() {
                        Some(contents) => {
                            self.files.insert(to.clone(), contents);
                            Event::Done(true)
                        }
                        None => Event::Done(false),
                    }
                }
            }
            Command::RemoveFile { path } => {
                if self.refuse_remove.contains(path) {
                    Event::Done(false)
                } else {
                    Event::Done(self.files.remove(path).is_some())
                }
            }
            Command::UpdateIndex { .. } => {
                if self.refuse_index {
                    Event::Done(false)
                } else {
                    self.index_updates += 1;
                    Event::Done(true)
                }
            }
            Command::Skip => Event::Done(true),
            Command::Finish => panic!("nothing to perform"),
        }
    }

    fn pass(&mut self) -> SyncReport {
        let mut engine = SyncEngine::new(Layout::for_home("/home/u"));
        self.commands.clear();
        let mut steps = 0;
        while !engine.is_finished() {
            let command = engine.command();
            let event = self.perform(&command);
            self.commands.push(command);
            engine.step(event);
            steps += 1;
            assert!(steps < 10_000);
        }
        assert_eq!(engine.command(), Command::Finish);
        engine.report().unwrap()
    }
}

fn outcome_of(report: &SyncReport, r: &ShortcutRecord) -> Outcome {
    let i = report.plan.entries.iter().position(|e| e.record == *r).unwrap();
    report.outcomes[i]
}

#[test]
fn new_game_is_written_to_the_launcher() {
    let mut disk = Disk::new();
    disk.store_game("Game A", "100");
    let report = disk.pass();
    assert_eq!(report.plan.len(), 1);
    assert_eq!(report.plan.entries[0].record, record("Game A", "100"));
    assert_eq!(report.plan.entries[0].action, Action::Add);
    assert_eq!(report.outcomes, vec![Outcome::Written { icon: IconOutcome::NotFound }]);
    assert!(report.succeeded());
    assert!(report.is_clean());
    assert_eq!(disk.population(TARGET), vec![record("Game A", "100")]);
    assert_eq!(
        disk.files.get(&format!("{}/Game A.desktop", TARGET)),
        Some(&"[Desktop Entry]\nName=Game A\nIcon=steam_icon_100\nType=Application\nExec=xdg-open steam://rungameid/100".to_string())
    );
    assert_eq!(
        disk.commands,
        vec![
            Command::ReadTree { root: SOURCE.to_string() },
            Command::ReadTree { root: TARGET.to_string() },
            Command::WriteFile {
                path: format!("{}/Game A.desktop", TARGET),
                contents: descriptor_text(&record("Game A", "100")),
            },
            Command::ListTree { root: ICONS.to_string() },
            Command::UpdateIndex { directory: TARGET.to_string() },
        ]
    );
    assert_eq!(disk.index_updates, 1);
}

#[test]
fn vanished_game_is_deleted_from_the_launcher() {
    let mut disk = Disk::new();
    disk.put(&format!("{}/Old Game.desktop", TARGET), &descriptor_text(&record("Old Game", "200")));
    let report = disk.pass();
    assert_eq!(report.plan.len(), 1);
    assert_eq!(report.plan.entries[0].record, record("Old Game", "200"));
    assert_eq!(report.plan.entries[0].action, Action::Remove);
    assert_eq!(report.outcomes, vec![Outcome::Removed { stale_icon: StaleIconOutcome::NotFound }]);
    assert_eq!(disk.population(TARGET), vec![]);
    assert!(!disk.files.contains_key(&format!("{}/Old Game.desktop", TARGET)));
    assert_eq!(
        disk.commands,
        vec![
            Command::ReadTree { root: SOURCE.to_string() },
            Command::ReadTree { root: TARGET.to_string() },
            Command::RemoveFile { path: format!("{}/Old Game.desktop", TARGET) },
            Command::ListTree { root: PIXMAPS.to_string() },
            Command::UpdateIndex { directory: TARGET.to_string() },
        ]
    );
}

#[test]
fn icon_of_the_highest_resolution_is_copied() {
    let mut disk = Disk::new();
    disk.store_game("Game C", "300");
    disk.put(&format!("{}/128x128/apps/steam_icon_300.png", ICONS), "small");
    disk.put(&format!("{}/256x256/apps/steam_icon_300.png", ICONS), "large");
    disk.put(&format!("{}/256x256/apps/steam_icon_301.png", ICONS), "other");
    let report = disk.pass();
    assert_eq!(report.outcomes, vec![Outcome::Written { icon: IconOutcome::Copied }]);
    assert_eq!(
        disk.files.get(&format!("{}/steam_icon_300.png", USER_ICONS)),
        Some(&"large".to_string())
    );
    assert_eq!(disk.directories, vec![USER_ICONS.to_string()]);
    assert_eq!(
        disk.commands[3..6],
        [
            Command::ListTree { root: ICONS.to_string() },
            Command::CreateDirectory { path: USER_ICONS.to_string() },
            Command::CopyFile {
                from: format!("{}/256x256/apps/steam_icon_300.png", ICONS),
                to: format!("{}/steam_icon_300.png", USER_ICONS),
            },
        ]
    );
}

#[test]
fn second_pass_adds_and_removes_nothing() {
    let mut disk = Disk::new();
    disk.store_game("Game A", "100");
    disk.store_game("Game B", "101");
    disk.put(&format!("{}/Old Game.desktop", TARGET), &descriptor_text(&record("Old Game", "200")));
    disk.put(&format!("{}/Game B.desktop", TARGET), &descriptor_text(&record("Game B", "101")));
    let first = disk.pass();
    assert!(first.is_clean());
    assert_eq!(outcome_of(&first, &record("Game B", "101")), Outcome::Kept);
    assert_eq!(disk.population(TARGET), disk.population(SOURCE));
    let files_after_first = disk.files.clone();
    let second = disk.pass();
    assert_eq!(second.plan.len(), 2);
    assert!(second.plan.entries.iter().all(|e| e.action == Action::Keep));
    assert_eq!(second.outcomes, vec![Outcome::Kept, Outcome::Kept]);
    assert_eq!(disk.files, files_after_first);
    assert_eq!(
        disk.commands,
        vec![
            Command::ReadTree { root: SOURCE.to_string() },
            Command::ReadTree { root: TARGET.to_string() },
            Command::Skip,
            Command::Skip,
            Command::UpdateIndex { directory: TARGET.to_string() },
        ]
    );
}

#[test]
fn failed_icon_copy_leaves_the_descriptor_written() {
    let mut disk = Disk::new();
    disk.store_game("Game A", "100");
    disk.put(&format!("{}/64x64/apps/steam_icon_100.png", ICONS), "icon");
    disk.refuse_copy = true;
    let first = disk.pass();
    assert_eq!(first.outcomes, vec![Outcome::Written { icon: IconOutcome::CopyFailed }]);
    assert!(first.is_clean());
    assert!(first.succeeded());
    assert!(disk.files.contains_key(&format!("{}/Game A.desktop", TARGET)));
    assert!(!disk.files.contains_key(&format!("{}/steam_icon_100.png", USER_ICONS)));
    let second = disk.pass();
    assert_eq!(second.plan.action_of(&record("Game A", "100")), Some(Action::Keep));
    assert_eq!(second.outcomes, vec![Outcome::Kept]);
}

#[test]
fn failed_icon_directory_leaves_the_descriptor_written() {
    let mut disk = Disk::new();
    disk.store_game("Game A", "100");
    disk.put(&format!("{}/64x64/apps/steam_icon_100.png", ICONS), "icon");
    disk.refuse_directory = true;
    let report = disk.pass();
    assert_eq!(report.outcomes, vec![Outcome::Written { icon: IconOutcome::DirectoryFailed }]);
    assert!(disk.files.contains_key(&format!("{}/Game A.desktop", TARGET)));
    // The copy is not tried without the directory.
    assert!(!disk.commands.iter().any(|c| matches!(c, Command::CopyFile { .. })));
    let second = disk.pass();
    assert_eq!(second.outcomes, vec![Outcome::Kept]);
}

#[test]
fn failed_descriptor_write_skips_the_icon_and_the_pass_goes_on() {
    let mut disk = Disk::new();
    disk.store_game("Game A", "100");
    disk.store_game("Game B", "101");
    disk.put(&format!("{}/64x64/apps/steam_icon_100.png", ICONS), "icon a");
    disk.put(&format!("{}/64x64/apps/steam_icon_101.png", ICONS), "icon b");
    disk.refuse_write.push(format!("{}/Game A.desktop", TARGET));
    let report = disk.pass();
    assert_eq!(outcome_of(&report, &record("Game A", "100")), Outcome::WriteFailed);
    assert_eq!(
        outcome_of(&report, &record("Game B", "101")),
        Outcome::Written { icon: IconOutcome::Copied }
    );
    assert!(!report.is_clean());
    assert!(report.succeeded());
    assert!(!disk.files.contains_key(&format!("{}/steam_icon_100.png", USER_ICONS)));
    assert!(disk.files.contains_key(&format!("{}/steam_icon_101.png", USER_ICONS)));
    assert_eq!(disk.population(TARGET), vec![record("Game B", "101")]);
    // The shortcut that failed is tried again by the next pass.
    disk.refuse_write.clear();
    let second = disk.pass();
    assert_eq!(second.plan.action_of(&record("Game A", "100")), Some(Action::Add));
    assert_eq!(second.plan.action_of(&record("Game B", "101")), Some(Action::Keep));
    assert_eq!(disk.population(TARGET), disk.population(SOURCE));
}

#[test]
fn removal_deletes_the_system_icon_too() {
    let mut disk = Disk::new();
    disk.put(&format!("{}/Old Game.desktop", TARGET), &descriptor_text(&record("Old Game", "200")));
    disk.put(&format!("{}/steam_icon_200.png", PIXMAPS), "icon");
    disk.put(&format!("{}/steam_icon_201.png", PIXMAPS), "other");
    let report = disk.pass();
    assert_eq!(report.outcomes, vec![Outcome::Removed { stale_icon: StaleIconOutcome::Removed }]);
    assert!(!disk.files.contains_key(&format!("{}/steam_icon_200.png", PIXMAPS)));
    assert!(disk.files.contains_key(&format!("{}/steam_icon_201.png", PIXMAPS)));
    assert_eq!(
        disk.commands[2..5],
        [
            Command::RemoveFile { path: format!("{}/Old Game.desktop", TARGET) },
            Command::ListTree { root: PIXMAPS.to_string() },
            Command::RemoveFile { path: format!("{}/steam_icon_200.png", PIXMAPS) },
        ]
    );
}

#[test]
fn removal_reports_an_icon_that_cannot_be_deleted() {
    let mut disk = Disk::new();
    disk.put(&format!("{}/Old Game.desktop", TARGET), &descriptor_text(&record("Old Game", "200")));
    disk.put(&format!("{}/steam_icon_200.png", PIXMAPS), "icon");
    disk.refuse_remove.push(format!("{}/steam_icon_200.png", PIXMAPS));
    let report = disk.pass();
    assert_eq!(
        report.outcomes,
        vec![Outcome::Removed { stale_icon: StaleIconOutcome::RemoveFailed }]
    );
    assert!(report.is_clean());
    assert_eq!(disk.population(TARGET), vec![]);
}

#[test]
fn failed_descriptor_removal_still_looks_for_the_icon() {
    let mut disk = Disk::new();
    disk.put(&format!("{}/Old Game.desktop", TARGET), &descriptor_text(&record("Old Game", "200")));
    disk.put(&format!("{}/Other.desktop", TARGET), &descriptor_text(&record("Other", "201")));
    disk.put(&format!("{}/steam_icon_200.png", PIXMAPS), "icon");
    disk.refuse_remove.push(format!("{}/Old Game.desktop", TARGET));
    let report = disk.pass();
    assert_eq!(
        outcome_of(&report, &record("Old Game", "200")),
        Outcome::RemoveFailed { stale_icon: StaleIconOutcome::Removed }
    );
    assert_eq!(
        outcome_of(&report, &record("Other", "201")),
        Outcome::Removed { stale_icon: StaleIconOutcome::NotFound }
    );
    assert!(!report.is_clean());
    assert!(report.succeeded());
    assert_eq!(disk.population(TARGET), vec![record("Old Game", "200")]);
}

#[test]
fn failed_removal_without_icon_is_reported() {
    let mut disk = Disk::new();
    disk.put(&format!("{}/Old Game.desktop", TARGET), &descriptor_text(&record("Old Game", "200")));
    disk.refuse_remove.push(format!("{}/Old Game.desktop", TARGET));
    let report = disk.pass();
    assert_eq!(
        report.outcomes,
        vec![Outcome::RemoveFailed { stale_icon: StaleIconOutcome::NotFound }]
    );
    disk.put(&format!("{}/steam_icon_200.png", PIXMAPS), "icon");
    disk.refuse_remove.push(format!("{}/steam_icon_200.png", PIXMAPS));
    let report = disk.pass();
    assert_eq!(
        report.outcomes,
        vec![Outcome::RemoveFailed { stale_icon: StaleIconOutcome::RemoveFailed }]
    );
}

#[test]
fn failed_index_update_fails_the_pass() {
    let mut disk = Disk::new();
    disk.store_game("Game A", "100");
    disk.refuse_index = true;
    let report = disk.pass();
    assert!(!report.succeeded());
    assert!(report.is_clean());
    assert_eq!(disk.population(TARGET), vec![record("Game A", "100")]);
}

#[test]
fn empty_trees_make_an_empty_pass() {
    let mut disk = Disk::new();
    let report = disk.pass();
    assert_eq!(report.plan.len(), 0);
    assert_eq!(report.outcomes, vec![]);
    assert!(report.succeeded());
    assert!(report.is_clean());
    assert_eq!(
        disk.commands,
        vec![
            Command::ReadTree { root: SOURCE.to_string() },
            Command::ReadTree { root: TARGET.to_string() },
            Command::UpdateIndex { directory: TARGET.to_string() },
        ]
    );
    assert_eq!(disk.index_updates, 1);
}

#[test]
fn files_that_are_no_descriptors_are_left_alone() {
    let mut disk = Disk::new();
    disk.store_game("Game A", "100");
    disk.put(&format!("{}/editor.desktop", TARGET), "[Desktop Entry]\nName=Editor\nExec=editor %f\n");
    disk.put(&format!("{}/notes.txt", SOURCE), "Name=\nExec=steam://rungameid/x\n");
    let report = disk.pass();
    assert_eq!(report.plan.len(), 1);
    assert!(disk.files.contains_key(&format!("{}/editor.desktop", TARGET)));
    assert_eq!(disk.population(TARGET), vec![record("Game A", "100")]);
}

#[test]
fn mixed_pass_converges() {
    let mut disk = Disk::new();
    for (name, id) in [("A", "1"), ("B", "2"), ("C", "3"), ("D", "4")] {
        disk.store_game(name, id);
    }
    for (name, id) in [("C", "3"), ("D", "4"), ("E", "5"), ("F", "6")] {
        disk.put(&format!("{}/{}.desktop", TARGET, name), &descriptor_text(&record(name, id)));
    }
    let report = disk.pass();
    assert_eq!(report.plan.len(), 6);
    assert_eq!(report.outcomes.len(), 6);
    assert!(report.is_clean());
    for (i, entry) in report.plan.entries.iter().enumerate() {
        match entry.action {
            Action::Add => assert!(matches!(report.outcomes[i], Outcome::Written { .. })),
            Action::Remove => assert!(matches!(report.outcomes[i], Outcome::Removed { .. })),
            Action::Keep => assert_eq!(report.outcomes[i], Outcome::Kept),
        }
    }
    assert_eq!(
        disk.population(TARGET),
        vec![record("A", "1"), record("B", "2"), record("C", "3"), record("D", "4")]
    );
    assert_eq!(disk.index_updates, 1);
}

#[test]
fn renamed_game_replaces_its_descriptor() {
    let mut disk = Disk::new();
    disk.store_game("New Name", "7");
    disk.put(&format!("{}/Old Name.desktop", TARGET), &descriptor_text(&record("Old Name", "7")));
    let report = disk.pass();
    assert_eq!(report.plan.action_of(&record("New Name", "7")), Some(Action::Add));
    assert_eq!(report.plan.action_of(&record("Old Name", "7")), Some(Action::Remove));
    assert_eq!(disk.population(TARGET), vec![record("New Name", "7")]);
}

#[test]
fn an_event_that_answers_another_command_changes_nothing() {
    let mut engine = SyncEngine::new(Layout::for_home("/home/u"));
    assert_eq!(engine.stage, Stage::LoadSource);
    engine.step(Event::Done(true));
    assert_eq!(engine.stage, Stage::LoadSource);
    engine.step(Event::Entries(vec![]));
    assert_eq!(engine.stage, Stage::LoadSource);
    engine.step(Event::Texts(vec!["Name=A\nExec=steam://rungameid/1".to_string()]));
    assert_eq!(engine.stage, Stage::LoadTarget);
    engine.step(Event::Done(false));
    assert_eq!(engine.stage, Stage::LoadTarget);
    engine.step(Event::Texts(vec![]));
    assert_eq!(engine.stage, Stage::WriteDescriptor);
    let command = engine.command();
    engine.step(Event::Texts(vec![]));
    engine.step(Event::Entries(vec![]));
    assert_eq!(engine.stage, Stage::WriteDescriptor);
    assert_eq!(engine.cursor, 0);
    assert_eq!(engine.outcomes, vec![]);
    assert_eq!(engine.command(), command);
    engine.step(Event::Done(true));
    assert_eq!(engine.stage, Stage::FindIcon);
    engine.step(Event::Done(false));
    engine.step(Event::Texts(vec![]));
    assert_eq!(engine.stage, Stage::FindIcon);
    engine.step(Event::Entries(vec![]));
    assert_eq!(engine.stage, Stage::UpdateIndex);
    assert_eq!(engine.outcomes, vec![Outcome::Written { icon: IconOutcome::NotFound }]);
    engine.step(Event::Entries(vec![]));
    assert_eq!(engine.stage, Stage::UpdateIndex);
    assert!(!engine.is_finished());
    engine.step(Event::Done(true));
    assert!(engine.is_finished());
    engine.step(Event::Done(false));
    engine.step(Event::Texts(vec![]));
    assert!(engine.is_finished());
    assert!(engine.index_updated);
    assert_eq!(engine.command(), Command::Finish);
}

#[test]
fn report_comes_only_when_the_pass_is_over() {
    let mut engine = SyncEngine::new(Layout::for_home("/home/u"));
    engine.step(Event::Texts(vec![]));
    assert!(engine.report().is_none());
    let mut engine = SyncEngine::new(Layout::for_home("/home/u"));
    engine.step(Event::Texts(vec![]));
    engine.step(Event::Texts(vec![]));
    engine.step(Event::Done(true));
    let report = engine.report().unwrap();
    assert_eq!(report.plan.len(), 0);
    assert!(report.index_updated);
}

#[test]
fn stages_follow_the_kind_of_each_entry() {
    let mut engine = SyncEngine::new(Layout::for_home("/home/u"));
    engine.step(Event::Texts(vec![
        "Name=A\nExec=steam://rungameid/1".to_string(),
        "Name=B\nExec=steam://rungameid/2".to_string(),
    ]));
    engine.step(Event::Texts(vec![
        "Name=B\nExec=steam://rungameid/2".to_string(),
        "Name=C\nExec=steam://rungameid/3".to_string(),
    ]));
    let mut seen = Vec::new();
    let mut steps = 0;
    while engine.stage != Stage::UpdateIndex {
        let action = engine.plan.entries[engine.cursor].action;
        seen.push((action, engine.stage));
        match engine.stage {
            Stage::FindIcon | Stage::FindStaleIcon => engine.step(Event::Entries(vec![])),
            _ => engine.step(Event::Done(true)),
        }
        steps += 1;
        assert!(steps < 100);
    }
    seen.sort_by_key(|(a, s)| (format!("{:?}", a), format!("{:?}", s)));
    assert_eq!(
        seen,
        vec![
            (Action::Add, Stage::FindIcon),
            (Action::Add, Stage::WriteDescriptor),
            (Action::Keep, Stage::Skip),
            (Action::Remove, Stage::FindStaleIcon),
            (Action::Remove, Stage::RemoveDescriptor),
        ]
    );
    assert_eq!(engine.cursor, 3);
    assert_eq!(engine.outcomes.len(), 3);
}
