use ironclad::project::compile_unit::CompileUnit;
use ironclad::project::parse::{
    compile_all, lookup_paths, lookup_paths_for, parsed_outcome, record_outcome, FailureKind,
    FileOutcome, FileReport,
};
use ironclad::project::registry::ModuleRegistry;

fn unit(name: &str, path: &str, tree: u32) -> CompileUnit<u32> {
    CompileUnit::new(name.to_string(), path.to_string(), tree)
}

fn parsed(path: &str, name: &str, tree: u32) -> FileReport<u32> {
    FileReport { path: path.to_string(), outcome: FileOutcome::Parsed { name: name.to_string(), tree } }
}

fn rejected(path: &str, why: &str) -> FileReport<u32> {
    FileReport { path: path.to_string(), outcome: FileOutcome::Rejected(why.to_string()) }
}

fn unreadable(path: &str, why: &str) -> FileReport<u32> {
    FileReport { path: path.to_string(), outcome: FileOutcome::ReadFailed(why.to_string()) }
}

#[test]
fn new_registry_is_empty() {
    let r: ModuleRegistry<u32> = ModuleRegistry::new();
    assert_eq!(r.len(), 0);
    assert!(r.get(&"a".to_string()).is_none());
    assert!(!r.contains(&"a".to_string()));
    assert!(r.snapshot().is_empty());
}

#[test]
fn insert_then_get() {
    let mut r: ModuleRegistry<u32> = ModuleRegistry::new();
    assert!(r.insert(unit("a", "/p/a.erl", 1)).is_ok());
    assert!(r.insert(unit("b", "/p/b.erl", 2)).is_ok());
    assert_eq!(r.len(), 2);
    let a = r.get(&"a".to_string()).unwrap();
    assert_eq!(a.path, "/p/a.erl");
    assert_eq!(a.tree, 1);
    assert_eq!(r.get(&"b".to_string()).unwrap().tree, 2);
    assert!(r.get(&"c".to_string()).is_none());
    assert!(r.contains(&"b".to_string()));
}

#[test]
fn second_unit_of_a_name_is_a_conflict() {
    let mut r: ModuleRegistry<u32> = ModuleRegistry::new();
    assert!(r.insert(unit("m", "/p/one/m.erl", 1)).is_ok());
    let conflict = r.insert(unit("m", "/p/two/m.erl", 2)).err().unwrap();
    assert_eq!(conflict.name, "m");
    assert_eq!(conflict.registered_path, "/p/one/m.erl");
    assert_eq!(conflict.rejected_path, "/p/two/m.erl");
    assert_eq!(r.len(), 1);
    let kept = r.get(&"m".to_string()).unwrap();
    assert_eq!(kept.path, "/p/one/m.erl");
    assert_eq!(kept.tree, 1);
}

#[test]
fn snapshot_is_in_registration_order() {
    let mut r: ModuleRegistry<u32> = ModuleRegistry::new();
    assert!(r.insert(unit("z", "/z", 26)).is_ok());
    assert!(r.insert(unit("a", "/a", 1)).is_ok());
    assert!(r.insert(unit("z", "/z2", 27)).is_err());
    assert!(r.insert(unit("m", "/m", 13)).is_ok());
    let names: Vec<String> = r.snapshot().iter().map(|u| u.name.clone()).collect();
    assert_eq!(names, vec!["z".to_string(), "a".to_string(), "m".to_string()]);
}

#[test]
fn record_outcome_by_kind() {
    let mut r: ModuleRegistry<u32> = ModuleRegistry::new();
    assert!(record_outcome(&mut r, parsed("/p/a.erl", "a", 1)).is_none());
    let f = record_outcome(&mut r, rejected("/p/b.erl", "syntax error")).unwrap();
    assert_eq!(f.path, "/p/b.erl");
    assert_eq!(f.kind, FailureKind::Pipeline);
    assert_eq!(f.detail, "syntax error");
    let f = record_outcome(&mut r, unreadable("/p/c.erl", "denied")).unwrap();
    assert_eq!(f.path, "/p/c.erl");
    assert_eq!(f.kind, FailureKind::Read);
    assert_eq!(f.detail, "denied");
    let f = record_outcome(&mut r, parsed("/q/a.erl", "a", 9)).unwrap();
    assert_eq!(f.path, "/q/a.erl");
    assert_eq!(f.kind, FailureKind::NameConflict);
    assert_eq!(f.detail, "a");
    assert_eq!(r.len(), 1);
    assert_eq!(r.get(&"a".to_string()).unwrap().tree, 1);
}

#[test]
fn a_failing_file_stops_nothing_after_it() {
    let mut r: ModuleRegistry<u32> = ModuleRegistry::new();
    let reports = vec![
        parsed("/p/a.erl", "a", 1),
        rejected("/p/bad.erl", "unexpected token"),
        parsed("/p/b.erl", "b", 2),
        unreadable("/p/gone.erl", "not found"),
        parsed("/p/c.erl", "c", 3),
        parsed("/p/dup/a.erl", "a", 4),
        parsed("/p/d.erl", "d", 5),
    ];
    let failures = compile_all(&mut r, reports).err().unwrap();
    assert_eq!(r.len(), 4);
    let names: Vec<String> = r.snapshot().iter().map(|u| u.name.clone()).collect();
    assert_eq!(names, vec!["a".to_string(), "b".to_string(), "c".to_string(), "d".to_string()]);
    assert_eq!(r.get(&"a".to_string()).unwrap().path, "/p/a.erl");
    assert_eq!(r.get(&"d".to_string()).unwrap().tree, 5);
    assert_eq!(failures.len(), 3);
    assert_eq!(failures[0].path, "/p/bad.erl");
    assert_eq!(failures[0].kind, FailureKind::Pipeline);
    assert_eq!(failures[1].path, "/p/gone.erl");
    assert_eq!(failures[1].kind, FailureKind::Read);
    assert_eq!(failures[2].path, "/p/dup/a.erl");
    assert_eq!(failures[2].kind, FailureKind::NameConflict);
    assert_eq!(failures[2].detail, "a");
}

#[test]
fn compile_all_without_failures_is_ok() {
    let mut r: ModuleRegistry<u32> = ModuleRegistry::new();
    assert!(compile_all(&mut r, vec![parsed("/p/a.erl", "a", 1), parsed("/p/b.erl", "b", 2)]).is_ok());
    assert_eq!(r.len(), 2);
    assert!(compile_all(&mut r, Vec::new()).is_ok());
    assert_eq!(r.len(), 2);
}

#[test]
fn compile_all_keeps_earlier_units() {
    let mut r: ModuleRegistry<u32> = ModuleRegistry::new();
    assert!(r.insert(unit("kept", "/k.erl", 7)).is_ok());
    let failures = compile_all(&mut r, vec![rejected("/p/x.erl", "bad")]).err().unwrap();
    assert_eq!(failures.len(), 1);
    assert_eq!(r.len(), 1);
    assert_eq!(r.get(&"kept".to_string()).unwrap().tree, 7);
}

#[test]
fn own_directory_comes_first() {
    let roots = vec!["inc".to_string(), "lib/inc".to_string()];
    assert_eq!(
        lookup_paths(Some("proj/sub".to_string()), &roots),
        vec!["proj/sub".to_string(), "inc".to_string(), "lib/inc".to_string()]
    );
    assert_eq!(lookup_paths(None, &roots), roots);
    assert_eq!(lookup_paths(None, &Vec::new()), Vec::<String>::new());
}

#[test]
fn lookup_paths_for_a_file() {
    let roots = vec!["inc".to_string()];
    assert_eq!(
        lookup_paths_for("/w/proj/sub/b.erl", &roots),
        vec!["/w/proj/sub".to_string(), "inc".to_string()]
    );
    assert_eq!(lookup_paths_for("", &roots), roots);
    assert_eq!(lookup_paths_for("/", &roots), roots);
}

#[test]
fn parse_inputs_fills_the_projects_modules() {
    let mut p: ironclad::project::ErlProjectImpl<u32> = ironclad::project::ErlProjectImpl::new();
    p.input_files = vec!["/p/a.erl".to_string(), "/p/bad.erl".to_string(), "/p/b.erl".to_string()];
    let failures = p
        .parse_inputs(vec![
            parsed("/p/a.erl", "a", 1),
            rejected("/p/bad.erl", "syntax error"),
            parsed("/p/b.erl", "b", 2),
        ])
        .err()
        .unwrap();
    assert_eq!(failures.len(), 1);
    assert_eq!(failures[0].path, "/p/bad.erl");
    assert_eq!(p.modules.len(), 2);
    assert_eq!(p.modules.get(&"b".to_string()).unwrap().path, "/p/b.erl");
    assert_eq!(p.input_files.len(), 3);
}

#[test]
fn lookup_paths_for_plain_paths() {
    let roots = vec!["inc".to_string(), "lib".to_string()];
    assert_eq!(
        lookup_paths_for("proj/sub/b.erl", &roots),
        vec!["proj/sub".to_string(), "inc".to_string(), "lib".to_string()]
    );
    assert_eq!(
        lookup_paths_for("b.erl", &roots),
        vec!["".to_string(), "inc".to_string(), "lib".to_string()]
    );
    assert_eq!(
        lookup_paths_for("/w/proj/", &Vec::new()),
        vec!["/w".to_string()]
    );
}

#[test]
fn a_parsed_file_with_a_name_is_a_module() {
    match parsed_outcome(Some("m".to_string()), 7u32) {
        FileOutcome::Parsed { name, tree } => {
            assert_eq!(name, "m");
            assert_eq!(tree, 7);
        }
        _ => panic!("a named module must count as parsed"),
    }
}

#[test]
fn a_parsed_file_without_a_name_is_turned_down() {
    match parsed_outcome(None, 7u32) {
        FileOutcome::Rejected(why) => assert_eq!(why, "module declares no name"),
        _ => panic!("a module without a name must be turned down"),
    }
    let mut r: ModuleRegistry<u32> = ModuleRegistry::new();
    let report = FileReport { path: "/p/x.erl".to_string(), outcome: parsed_outcome(None, 1u32) };
    let failure = record_outcome(&mut r, report).unwrap();
    assert_eq!(failure.kind, FailureKind::Pipeline);
    assert_eq!(failure.path, "/p/x.erl");
    assert_eq!(r.len(), 0);
}
