use pnw_launcher::paths::{child, is_reserved, sanitize_zip_path};

fn parts(items: &[&str]) -> Vec<String> {
    items.iter().map(|s| s.to_string()).collect()
}

fn below_target(name: &str) -> Vec<String> {
    let target = parts(&["/", "opt", "game"]);
    let path = sanitize_zip_path(&target, name);
    assert_eq!(&path[..3], &target[..]);
    path[3..].to_vec()
}

#[test]
fn child_adds_one_component() {
    assert_eq!(child(&parts(&["a", "b"]), "c"), parts(&["a", "b", "c"]));
    assert_eq!(child(&parts(&[]), "c"), parts(&["c"]));
}

#[test]
fn plain_names_are_joined_onto_the_target() {
    assert_eq!(below_target("Game.exe"), parts(&["Game.exe"]));
    assert_eq!(below_target("data/assets.bin"), parts(&["data", "assets.bin"]));
    assert_eq!(below_target("a/b/c/d.txt"), parts(&["a", "b", "c", "d.txt"]));
}

#[test]
fn both_separators_split() {
    assert_eq!(below_target("a\\b/c"), parts(&["a", "b", "c"]));
    assert_eq!(below_target("data\\maps\\1.rxdata"), parts(&["data", "maps", "1.rxdata"]));
}

#[test]
fn parent_markers_are_dropped() {
    assert_eq!(below_target("../../etc/passwd"), parts(&["etc", "passwd"]));
    assert_eq!(below_target("a/../b"), parts(&["a", "b"]));
    assert_eq!(below_target("dir/.."), parts(&["dir"]));
    assert_eq!(below_target(".."), parts(&[]));
    assert_eq!(below_target("..\\..\\x"), parts(&["x"]));
}

#[test]
fn only_the_exact_parent_marker_is_dropped() {
    assert_eq!(below_target("..."), parts(&["..."]));
    assert_eq!(below_target("."), parts(&["."]));
    assert_eq!(below_target("a/./b"), parts(&["a", ".", "b"]));
    assert_eq!(below_target("..a/b.."), parts(&["..a", "b.."]));
    assert_eq!(below_target(".. "), parts(&[".. "]));
}

#[test]
fn components_with_a_drive_marker_are_dropped() {
    assert_eq!(below_target("C:\\Windows\\system32\\x.dll"), parts(&["Windows", "system32", "x.dll"]));
    assert_eq!(below_target("C:/x"), parts(&["x"]));
    assert_eq!(below_target("foo:bar/baz"), parts(&["baz"]));
    assert_eq!(below_target("a/b:"), parts(&["a"]));
    assert_eq!(below_target(":"), parts(&[]));
}

#[test]
fn empty_components_are_dropped() {
    assert_eq!(below_target(""), parts(&[]));
    assert_eq!(below_target("/"), parts(&[]));
    assert_eq!(below_target("/abs//path/"), parts(&["abs", "path"]));
    assert_eq!(below_target("\\\\server\\share"), parts(&["server", "share"]));
    assert_eq!(below_target("dir/"), parts(&["dir"]));
}

#[test]
fn names_that_are_not_ascii_pass_through() {
    assert_eq!(below_target("Données/été.txt"), parts(&["Données", "été.txt"]));
    assert_eq!(below_target("セーブ/../データ"), parts(&["セーブ", "データ"]));
}

#[test]
fn the_target_is_kept_as_it_is() {
    let target = parts(&["C:", "\\", "Games", "..", ""]);
    assert_eq!(
        sanitize_zip_path(&target, "x/../y"),
        parts(&["C:", "\\", "Games", "..", "", "x", "y"])
    );
    assert_eq!(sanitize_zip_path(&parts(&[]), "../x"), parts(&["x"]));
}

#[test]
fn no_sanitized_component_can_leave_the_target() {
    let hostile = [
        "../../../etc/shadow",
        "..\\..\\Windows\\win.ini",
        "/etc/passwd",
        "C:\\boot.ini",
        "a/../../b",
        "a//b/..//../c:/d",
        "....//....//x",
        "\\..\\/../",
        "..:/..",
    ];
    for name in hostile {
        for c in below_target(name) {
            assert!(!c.is_empty(), "{name}");
            assert_ne!(c, "..", "{name}");
            assert!(!c.contains(':'), "{name}");
            assert!(!c.contains('/'), "{name}");
            assert!(!c.contains('\\'), "{name}");
        }
    }
}

#[test]
fn reserved_name_is_found_among_the_components() {
    assert!(is_reserved(&parts(&["opt", "game", "Saves", "slot1.sav"]), "Saves"));
    assert!(is_reserved(&parts(&["opt", "game", "Saves"]), "Saves"));
    assert!(is_reserved(&parts(&["Saves"]), "Saves"));
    assert!(is_reserved(&parts(&["a", "b", "saves"]), "Saves"));
}

#[test]
fn reserved_name_is_compared_without_regard_to_ascii_case() {
    assert!(is_reserved(&parts(&["x", "SAVES", "y"]), "Saves"));
    assert!(is_reserved(&parts(&["x", "sAvEs"]), "saves"));
    assert!(!is_reserved(&parts(&["x", "Sauvés"]), "SAUVÉS"));
    assert!(is_reserved(&parts(&["x", "sauvÉs"]), "SAUVÉS"));
}

#[test]
fn reserved_name_must_be_a_whole_component() {
    assert!(!is_reserved(&parts(&["opt", "game", "Saves2", "x"]), "Saves"));
    assert!(!is_reserved(&parts(&["opt", "game", "MySaves"]), "Saves"));
    assert!(!is_reserved(&parts(&["opt", "game", "Save"]), "Saves"));
    assert!(!is_reserved(&parts(&["Saves/x"]), "Saves"));
    assert!(!is_reserved(&parts(&[]), "Saves"));
    assert!(!is_reserved(&parts(&["a"]), ""));
    assert!(is_reserved(&parts(&["a", ""]), ""));
}

fn all_names(alphabet: &[char], max_len: usize) -> Vec<String> {
    let mut names = vec![String::new()];
    let mut last = vec![String::new()];
    for _ in 0..max_len {
        let mut next = Vec::new();
        for prefix in &last {
            for c in alphabet {
                let mut s = prefix.clone();
                s.push(*c);
                next.push(s);
            }
        }
        names.extend(next.iter().cloned());
        last = next;
    }
    names
}

#[test]
fn sanitizing_is_splitting_and_dropping() {
    let target = parts(&["t"]);
    for name in all_names(&['a', '.', '/', '\\', ':', 'é'], 6) {
        let mut expected = target.clone();
        for piece in name.split(['\\', '/']) {
            if piece == ".." || piece.contains(':') || piece.is_empty() {
                continue;
            }
            expected.push(piece.to_string());
        }
        assert_eq!(sanitize_zip_path(&target, &name), expected, "{name:?}");
    }
}

#[test]
fn reserved_check_agrees_with_the_standard_comparison() {
    let reserved = ["Saves", "saves", "", "A", "é"];
    for name in all_names(&['s', 'S', 'a', 'A', 'é', 'É'], 3) {
        for other in ["Saves", "x", ""] {
            let path = vec![other.to_string(), name.clone()];
            for r in reserved {
                let expected = path.iter().any(|c| c.eq_ignore_ascii_case(r));
                assert_eq!(is_reserved(&path, r), expected, "{path:?} {r:?}");
            }
        }
    }
}
