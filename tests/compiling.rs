use rustry::compiler::{
    error_diagnostics, literal_source, BinError, BuilderError, Compiler, CompilerError,
    CompilerKinds, CompilerOutput, ContractArtifact, Diagnostic, FileArtifacts, LiteralSource,
    RunCompiler, Severity, ToolchainReply,
};

fn diag(s: Severity, m: &str) -> Diagnostic {
    Diagnostic { severity: s, message: m.to_string() }
}

fn artifact(name: &str, code: &str) -> ContractArtifact {
    ContractArtifact { name: name.to_string(), abi: vec![], bytecode: code.to_string(), errors: vec![] }
}

fn files() -> Vec<FileArtifacts> {
    vec![
        FileArtifacts { file: "a.sol".to_string(), contracts: vec![artifact("A", "01")] },
        FileArtifacts {
            file: "source_code.sol".to_string(),
            contracts: vec![artifact("Other", "02"), artifact("Counter", "03")],
        },
    ]
}

#[test]
fn single_source_jobs_name_their_file() {
    let c = Compiler::single(CompilerKinds::Solc, "contract C {}".to_string());
    assert_eq!(c.sources, vec![("source_code.sol".to_string(), "contract C {}".to_string())]);
    assert_eq!(CompilerKinds::Vyper.source_file(), "source_code.vy");
    assert_eq!(CompilerKinds::Huff.source_file(), "source_code.huff");
}

#[test]
fn toolchain_failures_are_builder_errors() {
    let c = Compiler::single(CompilerKinds::Solc, String::new());
    match c.run(ToolchainReply::NotRun("no solc".to_string())) {
        Err(CompilerError::BuilderError(BuilderError::NotRun(m))) => assert_eq!(m, "no solc"),
        _ => panic!("expected a builder error"),
    }
    match c.run(ToolchainReply::Malformed("eof".to_string())) {
        Err(CompilerError::BuilderError(BuilderError::Malformed(m))) => assert_eq!(m, "eof"),
        _ => panic!("expected a builder error"),
    }
}

#[test]
fn source_errors_are_reported_without_warnings() {
    let c = Compiler::single(CompilerKinds::Solc, String::new());
    let ds = vec![diag(Severity::Warning, "w"), diag(Severity::Error, "e1"), diag(Severity::Info, "i"), diag(Severity::Error, "e2")];
    match RunCompiler::run(&c, ToolchainReply::Finished { files: files(), diagnostics: ds }) {
        Err(CompilerError::BinError(BinError::Diagnostics(v))) => {
            let msgs: Vec<String> = v.iter().map(|d| d.message.clone()).collect();
            assert_eq!(msgs, vec!["e1", "e2"]);
        },
        _ => panic!("expected diagnostics"),
    }
    assert_eq!(error_diagnostics(&vec![diag(Severity::Warning, "w")]).len(), 0);
}

#[test]
fn warnings_alone_let_contracts_through() {
    let c = Compiler::single(CompilerKinds::Vyper, String::new());
    let out = c.run(ToolchainReply::Finished { files: files(), diagnostics: vec![diag(Severity::Warning, "w")] });
    match out {
        Ok(CompilerOutput::Vyper(f)) => assert_eq!(f.len(), 2),
        _ => panic!("expected vyper output"),
    }
}

#[test]
fn contracts_are_found_by_file_and_name() {
    let c = Compiler::single(CompilerKinds::Solc, String::new());
    let out = c.run(ToolchainReply::Finished { files: files(), diagnostics: vec![] }).ok().unwrap();
    assert_eq!(out.contract("source_code.sol", "Counter").unwrap().bytecode, "03");
    assert!(out.contract("a.sol", "Counter").is_none());
    assert!(out.contract("b.sol", "A").is_none());
    assert_eq!(out.contract("a.sol", "A").unwrap().bytecode, "01");
}

#[test]
fn huff_literals_name_files_by_extension() {
    assert_eq!(literal_source("src/Counter.huff".to_string()), LiteralSource::File("src/Counter.huff".to_string()));
    assert_eq!(literal_source("6000".to_string()), LiteralSource::Inline("6000".to_string()));
    assert_eq!(literal_source(".huf".to_string()), LiteralSource::Inline(".huf".to_string()));
}

#[test]
fn errors_convert_into_compiler_errors() {
    match CompilerError::from(BuilderError::NotRun("x".to_string())) {
        CompilerError::BuilderError(BuilderError::NotRun(m)) => assert_eq!(m, "x"),
        _ => panic!("expected a builder error"),
    }
    match CompilerError::from(BinError::Diagnostics(vec![diag(Severity::Error, "e")])) {
        CompilerError::BinError(BinError::Diagnostics(v)) => assert_eq!(v[0].message, "e"),
        _ => panic!("expected diagnostics"),
    }
}
