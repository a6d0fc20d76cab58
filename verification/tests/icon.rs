use steam_shortcut_sync::icon::{icon_file_name, resolve, TreeEntry};
use steam_shortcut_sync::text::{chars_precede, same_text, to_chars};

fn entry(path: &str) -> TreeEntry {
    let file_name = match path.rfind('/') {
        Some(i) => &path[i + 1..],
        None => path,
    };
    TreeEntry { file_name: file_name.to_string(), path: path.to_string() }
}

fn tree(paths: &[&str]) -> Vec<TreeEntry> {
    paths.iter().map(|p| entry(p)).collect()
}

#[test]
fn icon_file_name_is_built_from_the_id() {
    assert_eq!(icon_file_name("300"), "steam_icon_300.png");
    assert_eq!(icon_file_name(""), "steam_icon_.png");
}

#[test]
fn higher_resolution_directory_wins() {
    let entries = tree(&[
        "/root",
        "/root/hicolor",
        "/root/hicolor/128x128",
        "/root/hicolor/128x128/steam_icon_300.png",
        "/root/hicolor/256x256",
        "/root/hicolor/256x256/steam_icon_300.png",
    ]);
    assert_eq!(
        resolve("300", &entries),
        Some("/root/hicolor/256x256/steam_icon_300.png".to_string())
    );
}

#[test]
fn order_of_the_entries_does_not_matter() {
    let entries = tree(&[
        "/root/hicolor/256x256/steam_icon_300.png",
        "/root/hicolor/128x128/steam_icon_300.png",
        "/root/hicolor/16x16/steam_icon_300.png",
    ]);
    assert_eq!(
        resolve("300", &entries),
        Some("/root/hicolor/256x256/steam_icon_300.png".to_string())
    );
}

#[test]
fn no_icon_gives_none() {
    assert_eq!(resolve("300", &vec![]), None);
    let entries = tree(&[
        "/root/hicolor/128x128/steam_icon_301.png",
        "/root/hicolor/128x128/steam_icon_30.png",
        "/root/hicolor/128x128/steam_icon_3000.png",
        "/root/hicolor/128x128/steam_icon_300.jpg",
        "/root/hicolor/128x128/Steam_icon_300.png",
        "/root/hicolor/128x128/xsteam_icon_300.png",
        "/root/hicolor/128x128/steam_icon_300.png.bak",
        "/root/steam_icon_300.png/other",
    ]);
    assert_eq!(resolve("300", &entries), None);
}

#[test]
fn single_icon_is_returned() {
    let entries = tree(&[
        "/root/hicolor/32x32/steam_icon_10.png",
        "/root/hicolor/32x32/steam_icon_300.png",
        "/root/hicolor/64x64/steam_icon_10.png",
    ]);
    assert_eq!(
        resolve("300", &entries),
        Some("/root/hicolor/32x32/steam_icon_300.png".to_string())
    );
}

#[test]
fn dictionary_order_decides_not_the_size() {
    // 96 sorts after 256: the rule goes by the text of the path.
    let entries = tree(&[
        "/i/256x256/steam_icon_1.png",
        "/i/96x96/steam_icon_1.png",
        "/i/1024x1024/steam_icon_1.png",
    ]);
    assert_eq!(resolve("1", &entries), Some("/i/96x96/steam_icon_1.png".to_string()));
}

#[test]
fn file_name_decides_not_the_path() {
    let entries = vec![
        TreeEntry { file_name: "steam_icon_5.png".to_string(), path: "/a/renamed".to_string() },
        TreeEntry { file_name: "other".to_string(), path: "/z/steam_icon_5.png".to_string() },
    ];
    assert_eq!(resolve("5", &entries), Some("/a/renamed".to_string()));
}

#[test]
fn resolver_returns_what_sorting_returns() {
    let paths = [
        "/i/a/steam_icon_7.png",
        "/i/B/steam_icon_7.png",
        "/i/\u{00e9}/steam_icon_7.png",
        "/i/a/b/steam_icon_7.png",
        "/i/a-/steam_icon_7.png",
        "/i/\u{1f3ae}/steam_icon_7.png",
        "/i/\u{ffff}/steam_icon_7.png",
        "/i/~/steam_icon_7.png",
        "/i/steam_icon_7.png",
    ];
    let entries = tree(&paths);
    let mut sorted: Vec<String> = paths.iter().map(|p| p.to_string()).collect();
    sorted.sort();
    assert_eq!(resolve("7", &entries), sorted.pop());
}

#[test]
fn order_of_texts_is_the_order_of_strings() {
    let texts = [
        "", "a", "b", "ab", "abc", "abd", "B", "~", "\u{7f}", "\u{80}", "\u{00e9}", "\u{7ff}",
        "\u{800}", "\u{ffff}", "\u{10000}", "\u{1f3ae}", "\u{10ffff}", "a\u{00e9}", "a\u{1f3ae}",
        "a\u{ffff}", "/i/128x128/x", "/i/256x256/x", "/i/96x96/x",
    ];
    for a in texts.iter() {
        for b in texts.iter() {
            assert_eq!(chars_precede(&to_chars(a), &to_chars(b)), a <= b, "{:?} {:?}", a, b);
        }
    }
}

#[test]
fn to_chars_gives_every_character() {
    assert_eq!(to_chars(""), Vec::<char>::new());
    assert_eq!(to_chars("a\u{00e9}\u{1f3ae}"), vec!['a', '\u{00e9}', '\u{1f3ae}']);
}

#[test]
fn same_text_compares_every_character() {
    assert!(same_text("", ""));
    assert!(same_text("abc", "abc"));
    assert!(same_text("\u{00e9}\u{1f3ae}", "\u{00e9}\u{1f3ae}"));
    assert!(!same_text("abc", "abd"));
    assert!(!same_text("abc", "ab"));
    assert!(!same_text("ab", "abc"));
    assert!(!same_text("", "a"));
    assert!(!same_text("e\u{0301}", "\u{00e9}"));
}
