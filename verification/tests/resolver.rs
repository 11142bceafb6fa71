use seashell::resolver::find_exe;
use seashell::resolver::find_file_in_path;
use seashell::resolver::DirEntry;

fn entry(name: &str, path: &str, is_dir: bool) -> DirEntry {
    DirEntry {
        name: name.to_string(),
        path: path.to_string(),
        is_dir,
    }
}

#[test]
fn first_listed_match_wins_without_sorting() {
    let listing = vec![
        entry("zz", "/bin/zz", false),
        entry("tool", "/bin/tool.first", false),
        entry("aa", "/bin/aa", false),
        entry("tool", "/bin/tool.second", false),
    ];
    assert_eq!(
        find_file_in_path("tool", &listing),
        Some("/bin/tool.first".to_string())
    );
}

#[test]
fn subdirectories_are_skipped() {
    let listing = vec![
        entry("tool", "/bin/tool.dir", true),
        entry("tool", "/bin/tool.file", false),
    ];
    assert_eq!(
        find_file_in_path("tool", &listing),
        Some("/bin/tool.file".to_string())
    );
    let only_dir = vec![entry("tool", "/bin/tool.dir", true)];
    assert_eq!(find_file_in_path("tool", &only_dir), None);
}

#[test]
fn the_name_must_match_exactly() {
    let listing = vec![entry("tools", "/bin/tools", false)];
    assert_eq!(find_file_in_path("tool", &listing), None);
    assert_eq!(find_file_in_path("", &listing), None);
}

#[test]
fn earlier_directories_shadow_later_ones() {
    let dirs = vec![
        vec![entry("other", "/first/other", false)],
        vec![entry("tool", "/second/tool", false)],
        vec![entry("tool", "/third/tool", false)],
    ];
    assert_eq!(find_exe("tool", &dirs), Some("/second/tool".to_string()));
}

#[test]
fn missing_everywhere_resolves_to_nothing() {
    let dirs = vec![
        Vec::new(),
        vec![entry("present", "/d/present", false)],
    ];
    assert_eq!(find_exe("absent", &dirs), None);
    assert_eq!(find_exe("absent", &Vec::new()), None);
}

#[test]
fn repeated_resolution_is_deterministic() {
    let dirs = vec![
        vec![
            entry("b", "/one/b", false),
            entry("tool", "/one/tool", false),
        ],
        vec![entry("tool", "/two/tool", false)],
    ];
    let first = find_exe("tool", &dirs);
    let second = find_exe("tool", &dirs);
    assert_eq!(first, Some("/one/tool".to_string()));
    assert_eq!(first, second);
}
