use rukata::compiler::{read_only_paths, resolve_files};
use rukata::manifest::{
    manifest_from_fields, parse_difficulty, JsonField, ManifestFields,
};
use rukata::readme::synthesize_readme;
use rukata::{
    build_store, compile_puzzle, get_file_data, get_id_list, load_manifest, CompileError,
    ManifestError, PuzzleData, PuzzleDifficulty, PuzzleManifest,
};

fn strings(items: &[&str]) -> Vec<String> {
    items.iter().map(|s| s.to_string()).collect()
}

fn manifest(id: u16, starter: &[&str], solution: &[&str]) -> PuzzleManifest {
    PuzzleManifest {
        title: "Sum Two".to_string(),
        id,
        starter: strings(starter),
        solution: strings(solution),
        readme_files: vec![],
        difficulty: PuzzleDifficulty::Basic,
        categories: vec![],
        libraries: vec![],
    }
}

fn starter_bytes(path: &str) -> Vec<u8> {
    format!("starter {}", path).into_bytes()
}

fn solution_bytes(path: &str) -> Vec<u8> {
    format!("solution {}", path).into_bytes()
}

fn compile(m: PuzzleManifest) -> Result<PuzzleData, CompileError> {
    let starter = m.starter.iter().map(|p| Some(starter_bytes(p))).collect();
    let solution = m.solution.iter().map(|p| Some(solution_bytes(p))).collect();
    compile_puzzle(m, starter, solution, Some("Add two numbers.".to_string()), vec![])
}

#[test]
fn scenario_single_shared_path() {
    let p = compile(manifest(7, &["src/main.rs"], &["src/main.rs"])).ok().unwrap();
    assert!(p.get_read_only_file_paths().is_empty());
    assert!(p.get_read_only_files().is_empty());
    let store = build_store(vec![p], &strings(&["sum-two"])).ok().unwrap();
    let found = get_file_data(&store, 7).unwrap();
    assert_eq!(*found.get_id(), 7);
    let base = found.get_base_files();
    assert_eq!(base.len(), 2);
    assert_eq!(base[0].get_relative_path(), "src/main.rs");
    assert_eq!(base[0].get_raw_data(), starter_bytes("src/main.rs").as_slice());
    assert_eq!(base[1].get_relative_path(), "README.md");
}

#[test]
fn scenario_helper_is_read_only() {
    let p = compile(manifest(7, &["src/main.rs", "src/helper.rs"], &["src/main.rs"]))
        .ok()
        .unwrap();
    assert_eq!(p.get_read_only_file_paths(), &["src/helper.rs".to_string()][..]);
    let ro = p.get_read_only_files();
    assert_eq!(ro.len(), 1);
    assert_eq!(ro[0].get_relative_path(), "src/helper.rs");
    assert_eq!(ro[0].get_raw_data(), starter_bytes("src/helper.rs").as_slice());
}

#[test]
fn scenario_missing_solution_file() {
    let m = manifest(7, &["src/main.rs"], &["src/main.rs", "src/missing.rs"]);
    let starter = vec![Some(starter_bytes("src/main.rs"))];
    let solution = vec![Some(solution_bytes("src/main.rs")), None];
    let r = compile_puzzle(m, starter, solution, Some(String::new()), vec![]);
    match r {
        Err(CompileError::MissingFile(path)) => assert_eq!(path, "src/missing.rs"),
        _ => panic!("expected a missing file"),
    }
}

#[test]
fn missing_readme_is_reported() {
    let m = manifest(3, &["a.rs"], &["a.rs"]);
    let r = compile_puzzle(m, vec![Some(vec![1])], vec![Some(vec![2])], None, vec![]);
    match r {
        Err(CompileError::MissingFile(path)) => assert_eq!(path, "README.md"),
        _ => panic!("expected a missing readme"),
    }
}

#[test]
fn first_missing_starter_file_wins() {
    let m = manifest(3, &["a.rs", "b.rs", "c.rs"], &["x.rs"]);
    let r = compile_puzzle(m, vec![Some(vec![]), None, None], vec![None], None, vec![]);
    match r {
        Err(CompileError::MissingFile(path)) => assert_eq!(path, "b.rs"),
        _ => panic!("expected a missing file"),
    }
}

#[test]
fn duplicate_ids_fail_in_either_order() {
    for order in [[0usize, 1, 2], [2, 1, 0], [1, 2, 0]] {
        let ids = [4u16, 9, 4];
        let names = ["first", "second", "third"];
        let mut puzzles = Vec::new();
        let mut locations = Vec::new();
        for k in order {
            puzzles.push(compile(manifest(ids[k], &["a.rs"], &["a.rs"])).ok().unwrap());
            locations.push(names[k].to_string());
        }
        match build_store(puzzles, &locations) {
            Err(CompileError::DuplicateId(id, first, second)) => {
                assert_eq!(id, 4);
                let mut pair = vec![first, second];
                pair.sort();
                assert_eq!(pair, vec!["first".to_string(), "third".to_string()]);
            }
            _ => panic!("expected a duplicate id"),
        }
    }
}

#[test]
fn id_list_is_strictly_ascending() {
    let mut puzzles = Vec::new();
    let mut locations = Vec::new();
    for id in [40u16, 3, 65535, 0, 17] {
        puzzles.push(compile(manifest(id, &["a.rs"], &[])).ok().unwrap());
        locations.push(format!("p{}", id));
    }
    let store = build_store(puzzles, &locations).ok().unwrap();
    assert_eq!(get_id_list(&store), vec![0, 3, 17, 40, 65535]);
    assert!(get_file_data(&store, 65535).is_some());
    assert!(get_file_data(&store, 0).is_some());
    assert!(get_file_data(&store, 41).is_none());
}

#[test]
fn empty_store_has_no_ids() {
    let store = build_store(vec![], &vec![]).ok().unwrap();
    assert!(get_id_list(&store).is_empty());
    assert!(get_file_data(&store, 7).is_none());
}

#[test]
fn read_only_files_avoid_solution_paths() {
    let p = compile(manifest(
        5,
        &["src/lib.rs", "tests/t.rs", "Cargo.toml"],
        &["src/lib.rs", "extra.rs"],
    ))
    .ok()
    .unwrap();
    let starter_paths: Vec<&str> =
        p.get_base_files()[..3].iter().map(|f| f.get_relative_path()).collect();
    let ro: Vec<&str> = p.get_read_only_files().iter().map(|f| f.get_relative_path()).collect();
    assert_eq!(ro, vec!["tests/t.rs", "Cargo.toml"]);
    for path in &ro {
        assert!(starter_paths.contains(path));
        assert!(*path != "src/lib.rs" && *path != "extra.rs");
    }
}

#[test]
fn final_files_layout() {
    let mut m = manifest(5, &["src/lib.rs", "data.txt"], &["src/lib.rs"]);
    m.readme_files = strings(&["notes.md"]);
    let r = compile_puzzle(
        m,
        vec![Some(vec![1]), Some(vec![2])],
        vec![Some(vec![3])],
        Some("text".to_string()),
        vec![Some(vec![4])],
    );
    let p = r.ok().unwrap();
    let paths: Vec<&str> = p.get_final_files().iter().map(|f| f.get_relative_path()).collect();
    assert_eq!(paths, vec!["README.md", "notes.md", "data.txt", "src/lib.rs"]);
    let data: Vec<&[u8]> = p.get_final_files().iter().map(|f| f.get_raw_data()).collect();
    assert_eq!(data[3], &[3u8][..]);
    let base: Vec<&str> = p.get_base_files().iter().map(|f| f.get_relative_path()).collect();
    assert_eq!(base, vec!["src/lib.rs", "data.txt", "README.md", "notes.md"]);
    assert_eq!(p.get_readme_files().len(), 1);
}

#[test]
fn readme_is_synthesized() {
    let p = compile(manifest(7, &["a.rs"], &["a.rs"])).ok().unwrap();
    assert_eq!(
        p.get_readme_str(),
        "# Sum Two - Puzzle ID 00007\nAdd two numbers.\n\n### Command\n`rukata generate 7`\n"
    );
    assert_eq!(p.get_title(), "Sum Two");
    assert_eq!(p.get_difficulty(), PuzzleDifficulty::Basic);
}

#[test]
fn readme_normalizes_line_endings() {
    let text = synthesize_readme("a\r\nb\rc\r\r\nd\n", "T", 12345);
    assert_eq!(text, "# T - Puzzle ID 12345\na\nb\nc\n\nd\n\n\n### Command\n`rukata generate 12345`\n");
}

#[test]
fn readme_is_deterministic() {
    let a = synthesize_readme("x\r\ny", "Title", 42);
    let b = synthesize_readme("x\r\ny", "Title", 42);
    assert_eq!(a.as_bytes(), b.as_bytes());
    assert_eq!(a, "# Title - Puzzle ID 00042\nx\ny\n\n### Command\n`rukata generate 42`\n");
}

#[test]
fn readme_of_empty_text_and_zero_id() {
    let text = synthesize_readme("", "", 0);
    assert_eq!(text, "#  - Puzzle ID 00000\n\n\n### Command\n`rukata generate 0`\n");
}

#[test]
fn read_only_paths_keep_starter_order() {
    let r = read_only_paths(&strings(&["c", "a", "b", "a"]), &strings(&["b"]));
    assert_eq!(r, strings(&["c", "a", "a"]));
    assert!(read_only_paths(&strings(&[]), &strings(&["b"])).is_empty());
}

#[test]
fn resolve_files_pairs_paths_and_bytes() {
    let files = resolve_files(&strings(&["x", "y"]), vec![Some(vec![1, 2]), Some(vec![])])
        .ok()
        .unwrap();
    assert_eq!(files[0].get_relative_path(), "x");
    assert_eq!(files[0].get_raw_data(), &[1u8, 2][..]);
    assert!(files[0].check_data(&[1, 2]));
    assert!(!files[0].check_data(&[1, 3]));
    assert!(!files[0].check_data(&[1]));
    assert!(files[1].get_raw_data().is_empty());
}

const MANIFEST: &str = r#"{
    "title": "Sum Two",
    "id": 7,
    "starter": ["src/main.rs"],
    "solution": ["src/main.rs"],
    "readme_files": [],
    "difficulty": "Basic",
    "categories": ["math"],
    "libraries": []
}"#;

#[test]
fn manifest_is_loaded() {
    let m = load_manifest(MANIFEST).ok().unwrap();
    assert_eq!(m.title, "Sum Two");
    assert_eq!(m.id, 7);
    assert_eq!(m.starter, strings(&["src/main.rs"]));
    assert_eq!(m.solution, strings(&["src/main.rs"]));
    assert!(m.readme_files.is_empty());
    assert_eq!(m.difficulty, PuzzleDifficulty::Basic);
    assert_eq!(m.categories, strings(&["math"]));
}

#[test]
fn manifest_without_difficulty_defaults() {
    let text = MANIFEST.replace("\"difficulty\": \"Basic\",", "");
    let m = load_manifest(&text).ok().unwrap();
    assert_eq!(m.difficulty, PuzzleDifficulty::Unspecified);
}

#[test]
fn manifest_errors_name_the_field() {
    match load_manifest(&MANIFEST.replace("\"title\": \"Sum Two\",", "")) {
        Err(ManifestError::Missing(f)) => assert_eq!(f, "title"),
        _ => panic!("expected a missing title"),
    }
    match load_manifest(&MANIFEST.replace("\"id\": 7", "\"id\": 70000")) {
        Err(ManifestError::Malformed(f)) => assert_eq!(f, "id"),
        _ => panic!("expected a malformed id"),
    }
    match load_manifest(&MANIFEST.replace("[\"math\"]", "[3]")) {
        Err(ManifestError::Malformed(f)) => assert_eq!(f, "categories"),
        _ => panic!("expected malformed categories"),
    }
    match load_manifest(&MANIFEST.replace("\"Basic\"", "\"hard\"")) {
        Err(ManifestError::Malformed(f)) => assert_eq!(f, "difficulty"),
        _ => panic!("expected a malformed difficulty"),
    }
    match load_manifest("{ \"title\": ") {
        Err(ManifestError::Syntax(msg)) => assert!(!msg.is_empty()),
        _ => panic!("expected a syntax error"),
    }
    assert!(matches!(load_manifest("[1, 2]"), Err(ManifestError::Syntax(_))));
}

#[test]
fn fields_are_checked_in_order() {
    let fields = ManifestFields {
        title: JsonField::Present("t".to_string()),
        id: JsonField::Mistyped,
        starter: JsonField::Absent,
        solution: JsonField::Present(vec![]),
        readme_files: JsonField::Present(vec![]),
        difficulty: JsonField::Absent,
        categories: JsonField::Present(vec![]),
        libraries: JsonField::Present(vec![]),
    };
    match manifest_from_fields(fields) {
        Err(ManifestError::Malformed(f)) => assert_eq!(f, "id"),
        _ => panic!("expected a malformed id"),
    }
}

#[test]
fn difficulty_tokens_ignore_case() {
    assert_eq!(parse_difficulty("BASIC"), Some(PuzzleDifficulty::Basic));
    assert_eq!(parse_difficulty("Intermediate"), Some(PuzzleDifficulty::Intermediate));
    assert_eq!(parse_difficulty("advanced"), Some(PuzzleDifficulty::Advanced));
    assert_eq!(parse_difficulty("none"), Some(PuzzleDifficulty::Unspecified));
    assert_eq!(parse_difficulty("basics"), None);
    assert_eq!(parse_difficulty(""), None);
}

#[test]
fn manifest_field_types_are_checked() {
    match load_manifest(&MANIFEST.replace("\"id\": 7", "\"id\": \"7\"")) {
        Err(ManifestError::Malformed(f)) => assert_eq!(f, "id"),
        _ => panic!("expected a malformed id"),
    }
    match load_manifest(&MANIFEST.replace("\"id\": 7", "\"id\": -7")) {
        Err(ManifestError::Malformed(f)) => assert_eq!(f, "id"),
        _ => panic!("expected a malformed id"),
    }
    match load_manifest(&MANIFEST.replace("\"starter\": [\"src/main.rs\"]", "\"starter\": \"src/main.rs\"")) {
        Err(ManifestError::Malformed(f)) => assert_eq!(f, "starter"),
        _ => panic!("expected malformed starter"),
    }
    match load_manifest(&MANIFEST.replace("\"libraries\": []", "\"libs\": []")) {
        Err(ManifestError::Missing(f)) => assert_eq!(f, "libraries"),
        _ => panic!("expected missing libraries"),
    }
    match load_manifest(&MANIFEST.replace("\"Basic\"", "null")) {
        Err(ManifestError::Malformed(f)) => assert_eq!(f, "difficulty"),
        _ => panic!("expected a malformed difficulty"),
    }
}
