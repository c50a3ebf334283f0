use ironclad::error::{
    completion_exit_code, IroncladError, EXIT_FILE_FAILURES, EXIT_SUCCESS,
};
use ironclad::project::compiler_opts::{
    copy_strings, list_or_empty, CompilerOptions, Define, IroncladProjectFile,
};
use ironclad::project::ErlProjectImpl;
use std::collections::HashMap;

#[test]
fn default_options_are_all_absent() {
    let o = CompilerOptions::default();
    assert!(o.input_paths.is_none());
    assert!(o.input_masks.is_none());
    assert!(o.exclude_prefixes.is_none());
    assert!(o.exclude_suffixes.is_none());
    assert!(o.defines.is_none());
    let f = IroncladProjectFile::default();
    assert!(f.compiler_options.input_masks.is_none());
}

#[test]
fn absent_lists_count_as_empty() {
    assert_eq!(list_or_empty(&None), Vec::<String>::new());
    let v = vec!["a".to_string(), "b".to_string()];
    assert_eq!(list_or_empty(&Some(v.clone())), v);
    assert_eq!(copy_strings(&v), v);
}

#[test]
fn new_project_is_empty() {
    let p: ErlProjectImpl<u32> = ErlProjectImpl::new();
    assert!(p.input_files.is_empty());
    assert_eq!(p.modules.len(), 0);
    assert!(p.exclude_prefixes.is_empty());
    assert!(p.exclude_suffixes.is_empty());
    assert!(p.project_conf.compiler_options.input_paths.is_none());
}

#[test]
fn loading_a_description_normalizes_exclusions() {
    let mut p: ErlProjectImpl<u32> = ErlProjectImpl::new();
    p.input_files.push("/w/a.erl".to_string());
    p.load_project_config(IroncladProjectFile {
        compiler_options: CompilerOptions {
            input_paths: Some(vec!["src".to_string()]),
            input_masks: None,
            exclude_prefixes: None,
            exclude_suffixes: Some(vec!["_test.erl".to_string()]),
            defines: Some(vec![Define { name: "DEBUG".to_string(), value: None }]),
        },
    });
    assert!(p.exclude_prefixes.is_empty());
    assert_eq!(p.exclude_suffixes, vec!["_test.erl".to_string()]);
    assert_eq!(p.project_conf.compiler_options.input_paths, Some(vec!["src".to_string()]));
    assert_eq!(p.input_files, vec!["/w/a.erl".to_string()]);
    assert_eq!(p.project_conf.compiler_options.defines.as_ref().unwrap()[0].name, "DEBUG");
    assert!(p.is_excluded("/w/b_test.erl"));
    assert!(!p.is_excluded("/w/b.erl"));
}

#[test]
fn wrongly_typed_description_is_a_configuration_error() {
    let text = "[compiler_options]\ninput_masks = 5\n";
    let loaded = toml::from_str::<HashMap<String, HashMap<String, Vec<String>>>>(text);
    let e = IroncladError::from(loaded.err().unwrap());
    assert!(matches!(e, IroncladError::TomlConfig(_)));
    assert_eq!(e.get_process_exit_code(), 2);
}

#[test]
fn malformed_description_is_a_configuration_error() {
    let loaded = toml::from_str::<HashMap<String, Vec<String>>>("input_masks = [");
    let e = IroncladError::from(loaded.err().unwrap());
    assert!(matches!(e, IroncladError::TomlConfig(_)));
    assert_ne!(e.get_process_exit_code(), 0);
}

#[test]
fn io_error_exit_code() {
    let e = IroncladError::from(std::io::Error::new(std::io::ErrorKind::Other, "x"));
    assert!(matches!(e, IroncladError::StdIoError(_)));
    assert_eq!(e.get_process_exit_code(), 5);
}

#[test]
fn completion_exit_codes() {
    assert_eq!(completion_exit_code(0), 0);
    assert_eq!(completion_exit_code(1), 1);
    assert_eq!(completion_exit_code(17), 1);
    assert_eq!(EXIT_SUCCESS, 0);
    assert_eq!(EXIT_FILE_FAILURES, 1);
}
