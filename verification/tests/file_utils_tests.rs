use chuda_lexer::chuda_files::{self, CompilerError};
use chuda_lexer::eta_files;
use std::path::PathBuf;

fn create_chuda_path(file_name: &str) -> String {
    let mut prefix = PathBuf::from("chuda_programs/lexer_files/");
    prefix.push(file_name);
    prefix.to_str().expect("valid utf-8").to_string()
}

fn create_eta_path(file_name: &str) -> String {
    let mut prefix = PathBuf::from("eta_programs/lexer_files/");
    prefix.push(file_name);
    prefix.to_str().expect("valid utf-8").to_string()
}

#[test]
fn file_utils_test_verification_pass() -> Result<(), CompilerError> {
    let source_files = vec![
        create_chuda_path("lex_test_1.chuda"),
        create_chuda_path("lex_test_2.chuda"),
        create_chuda_path("lex_interface.chudi"),
    ];
    chuda_files::verify_files(&source_files)
}

#[test]
fn file_utils_test_verfication_multiple_fail() {
    let source_files = vec![
        create_chuda_path("lex_test_1.chuda"),
        create_chuda_path("lex_interface.chuda"),
        create_chuda_path("fail_verification.txt"),
        create_chuda_path("fail_verification_2.txt"),
    ];
    assert!(chuda_files::verify_files(&source_files).is_err())
}

#[test]
fn file_utils_test_single_failure() {
    let source_files = vec![create_chuda_path("fail_verification.txt")];
    assert!(chuda_files::verify_files(&source_files).is_err())
}

#[test]
fn file_utils_test_output_conversion_no_path() {
    let source_files = vec![
        create_chuda_path("lex_test_1.chuda"),
        create_chuda_path("lex_test_2.chuda"),
        create_chuda_path("lex_interface.chudi"),
    ];
    let paths = chuda_files::construct_paths(&source_files, "", "lexed");
    for path in paths {
        assert!(PathBuf::from(path).extension().and_then(|e| e.to_str()) == Some("lexed"))
    }
}

#[test]
fn file_utils_test_output_conversion_with_path() {
    let source_files = vec![
        create_chuda_path("lex_test_1.chuda"),
        create_chuda_path("lex_test_2.chuda"),
        create_chuda_path("lex_interface.chudi"),
    ];
    let targets = vec![
        PathBuf::from("/home/togal/chuda-Compiler/output/chuda_programs/lexer_files/lex_test_1.lexed"),
        PathBuf::from("/home/togal/chuda-Compiler/output/chuda_programs/lexer_files/lex_test_2.lexed"),
        PathBuf::from("/home/togal/chuda-Compiler/output/chuda_programs/lexer_files/lex_interface.lexed"),
    ];
    let paths = chuda_files::construct_paths(&source_files, "/home/togal/chuda-Compiler/output", "lexed");
    assert_eq!(paths.len(), targets.len());
    for (path, target) in paths.into_iter().zip(targets) {
        assert_eq!(PathBuf::from(path), target);
    }
}

#[test]
fn test_verification_pass() -> Result<(), eta_files::CompilerError> {
    let source_files = vec![
        create_eta_path("lex_test_1.eta"),
        create_eta_path("lex_test_2.eta"),
        create_eta_path("lex_interface.eti"),
    ];
    eta_files::verify_files(&source_files)
}

#[test]
fn test_verfication_multiple_fail() {
    let source_files = vec![
        create_eta_path("lex_test_1.eta"),
        create_eta_path("lex_interface.eta"),
        create_eta_path("fail_verification.txt"),
        create_eta_path("fail_verification_2.txt"),
    ];
    assert!(eta_files::verify_files(&source_files).is_err())
}

#[test]
fn test_single_failure() {
    let source_files = vec![create_eta_path("fail_verification.txt")];
    assert!(eta_files::verify_files(&source_files).is_err())
}

#[test]
fn test_output_conversion_no_path() {
    let source_files = vec![
        create_eta_path("lex_test_1.eta"),
        create_eta_path("lex_test_2.eta"),
        create_eta_path("lex_interface.eti"),
    ];
    let paths = eta_files::construct_paths(&source_files, "", "lexed");
    for path in paths {
        assert!(PathBuf::from(path).extension().and_then(|e| e.to_str()) == Some("lexed"))
    }
}

#[test]
fn test_output_conversion_with_path() {
    let source_files = vec![
        create_eta_path("lex_test_1.eta"),
        create_eta_path("lex_test_2.eta"),
        create_eta_path("lex_interface.eti"),
    ];
    let targets = vec![
        PathBuf::from("/home/togal/Eta-Compiler/output/eta_programs/lexer_files/lex_test_1.lexed"),
        PathBuf::from("/home/togal/Eta-Compiler/output/eta_programs/lexer_files/lex_test_2.lexed"),
        PathBuf::from("/home/togal/Eta-Compiler/output/eta_programs/lexer_files/lex_interface.lexed"),
    ];
    let paths = eta_files::construct_paths(&source_files, "/home/togal/Eta-Compiler/output", "lexed");
    assert_eq!(paths.len(), targets.len());
    for (path, target) in paths.into_iter().zip(targets) {
        assert_eq!(PathBuf::from(path), target);
    }
}

#[test]
fn invalid_files_are_listed_in_order() {
    let source_files = vec![
        "a.chuda".to_string(),
        "b.txt".to_string(),
        "c.chudi".to_string(),
        "d.chud".to_string(),
    ];
    match chuda_files::verify_files(&source_files) {
        Err(CompilerError::InvalidFiles(invalids)) => {
            assert_eq!(invalids, vec!["b.txt".to_string(), "d.chud".to_string()])
        }
        other => panic!("unexpected result {:?}", other),
    }
    match eta_files::verify_and_construct(&source_files, "out", "lexed") {
        Err(eta_files::CompilerError::InvalidFilesError(invalids)) => assert_eq!(invalids.len(), 4),
        other => panic!("unexpected result {:?}", other),
    }
}

#[test]
fn verify_and_construct_builds_output_names() {
    let source_files = vec!["dir/prog.chuda".to_string(), "iface.chudi".to_string()];
    let paths = chuda_files::verify_and_construct(&source_files, "out", "lexed").expect("valid files");
    assert_eq!(paths, vec!["out/dir/prog.lexed".to_string(), "out/iface.lexed".to_string()]);
    let empty: Vec<String> = vec![];
    assert_eq!(chuda_files::verify_and_construct(&empty, "out", "lexed").expect("no files").len(), 0);
}

#[test]
fn compiler_error_messages() {
    let e = CompilerError::InvalidFiles(vec!["a.txt".to_string()]);
    assert_eq!(e.to_string(), "Invalid files given: [\"a.txt\"]");
    let e = CompilerError::IORead(
        "x.chuda".to_string(),
        std::io::Error::new(std::io::ErrorKind::NotFound, "gone"),
    );
    assert_eq!(e.to_string(), "Tried reading x.chuda but failed with: gone");
    let e = CompilerError::IOWrite(std::io::Error::new(std::io::ErrorKind::Other, "full"));
    assert_eq!(e.to_string(), "Tried writing output but failed with: full");
}
