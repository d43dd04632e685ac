//! The compiler adapter: what is asked of a contract compiler, and how its
//! reply is classified into contracts or errors.
use vstd::prelude::*;
use crate::abi::AbiEntry;
use crate::text::{ends_with, has_suffix, owned, same_text};

verus! {

/// The source dialects that a compiler can be run for.
#[derive(Clone, Copy, Debug, PartialEq, Eq, Structural)]
pub enum CompilerKinds {
    Solc,
    Vyper,
    Huff,
}

/// A compilation job: in-memory sources, as (file name, source text) pairs,
/// and the dialect they are written in.
pub struct Compiler {
    pub sources: Vec<(String, String)>,
    pub kind: CompilerKinds,
}

/// One compiled contract: its interface description, its bytecode as hex
/// text, and the compiler's messages about it.
#[derive(Clone, Debug)]
pub struct ContractArtifact {
    pub name: String,
    pub abi: Vec<AbiEntry>,
    pub bytecode: String,
    pub errors: Vec<Diagnostic>,
}

/// The contracts compiled from one source file.
#[derive(Clone, Debug)]
pub struct FileArtifacts {
    pub file: String,
    pub contracts: Vec<ContractArtifact>,
}

#[derive(Clone, Copy, Debug, PartialEq, Eq, Structural)]
pub enum Severity {
    Error,
    Warning,
    Info,
}

/// A message of the compiler about the sources.
#[derive(Clone, Debug)]
pub struct Diagnostic {
    pub severity: Severity,
    pub message: String,
}

/// What came back from running the compiler toolchain.
pub enum ToolchainReply {
    /// The compiler process could not be run.
    NotRun(String),
    /// The compiler ran, but its output could not be read.
    Malformed(String),
    /// The compiler ran and reported contracts and diagnostics.
    Finished { files: Vec<FileArtifacts>, diagnostics: Vec<Diagnostic> },
}

/// The per-file contracts of a successful compilation, by dialect.
pub enum CompilerOutput {
    Solc(Vec<FileArtifacts>),
    Vyper(Vec<FileArtifacts>),
    Huff(Vec<FileArtifacts>),
}

/// The toolchain could not produce an output.
#[derive(Debug)]
pub enum BuilderError {
    NotRun(String),
    Malformed(String),
}

/// The compiler reported errors in the sources.
#[derive(Debug)]
pub enum BinError {
    Diagnostics(Vec<Diagnostic>),
}

#[derive(Debug)]
pub enum CompilerError {
    BuilderError(BuilderError),
    BinError(BinError),
}

impl From<BinError> for CompilerError {
    fn from(e: BinError) -> (r: Self) {
        CompilerError::BinError(e)
    }
}

impl vstd::std_specs::convert::FromSpecImpl<BinError> for CompilerError {
    open spec fn obeys_from_spec() -> bool {
        true
    }

    open spec fn from_spec(e: BinError) -> Self {
        CompilerError::BinError(e)
    }
}

impl From<BuilderError> for CompilerError {
    fn from(e: BuilderError) -> (r: Self) {
        CompilerError::BuilderError(e)
    }
}

impl vstd::std_specs::convert::FromSpecImpl<BuilderError> for CompilerError {
    open spec fn obeys_from_spec() -> bool {
        true
    }

    open spec fn from_spec(e: BuilderError) -> Self {
        CompilerError::BuilderError(e)
    }
}

/// Running a compilation job on what the toolchain replied.
pub trait RunCompiler {
    fn run(&self, reply: ToolchainReply) -> Result<CompilerOutput, CompilerError>;
}

impl Diagnostic {
    pub fn is_error(&self) -> (r: bool)
        ensures
            r == (self.severity == Severity::Error),
    {
        self.severity == Severity::Error
    }

    pub fn duplicate(&self) -> (r: Diagnostic)
        ensures
            r == *self,
    {
        Diagnostic { severity: self.severity, message: self.message.clone() }
    }
}

/// The diagnostics of `ds` that are errors, in order.
pub open spec fn errors_of(ds: Seq<Diagnostic>) -> Seq<Diagnostic>
    decreases ds.len(),
{
    if ds.len() == 0 {
        Seq::empty()
    } else if ds.last().severity == Severity::Error {
        errors_of(ds.drop_last()).push(ds.last())
    } else {
        errors_of(ds.drop_last())
    }
}

/// The error diagnostics among `ds`, in order.
pub fn error_diagnostics(ds: &Vec<Diagnostic>) -> (r: Vec<Diagnostic>)
    ensures
        r@ == errors_of(ds@),
{
    let mut out: Vec<Diagnostic> = Vec::new();
    let mut i: usize = 0;
    while i < ds.len()
        invariant
            i <= ds@.len(),
            out@ == errors_of(ds@.subrange(0, i as int)),
        decreases ds@.len() - i,
    {
        assert(ds@.subrange(0, i + 1).drop_last() =~= ds@.subrange(0, i as int));
        if ds[i].is_error() {
            out.push(ds[i].duplicate());
        }
        i = i + 1;
    }
    assert(ds@.subrange(0, i as int) =~= ds@);
    out
}

impl Compiler {
    /// Classifies the toolchain's reply to this job: a toolchain failure, the
    /// compiler's error diagnostics, or the compiled contracts.
    pub fn run(&self, reply: ToolchainReply) -> (r: Result<CompilerOutput, CompilerError>)
        ensures
            match reply {
                ToolchainReply::NotRun(m) => r == Err::<CompilerOutput, CompilerError>(
                    CompilerError::BuilderError(BuilderError::NotRun(m))),
                ToolchainReply::Malformed(m) => r == Err::<CompilerOutput, CompilerError>(
                    CompilerError::BuilderError(BuilderError::Malformed(m))),
                ToolchainReply::Finished { files, diagnostics } => {
                    let errs = errors_of(diagnostics@);
                    if errs.len() > 0 {
                        r matches Err(CompilerError::BinError(BinError::Diagnostics(v))) && v@ == errs
                    } else {
                        r == Ok::<CompilerOutput, CompilerError>(match self.kind {
                            CompilerKinds::Solc => CompilerOutput::Solc(files),
                            CompilerKinds::Vyper => CompilerOutput::Vyper(files),
                            CompilerKinds::Huff => CompilerOutput::Huff(files),
                        })
                    }
                },
            },
    {
        match reply {
            ToolchainReply::NotRun(m) => Err(CompilerError::BuilderError(BuilderError::NotRun(m))),
            ToolchainReply::Malformed(m) => Err(CompilerError::BuilderError(BuilderError::Malformed(m))),
            ToolchainReply::Finished { files, diagnostics } => {
                let errs = error_diagnostics(&diagnostics);
                if errs.len() > 0 {
                    Err(CompilerError::BinError(BinError::Diagnostics(errs)))
                } else {
                    Ok(match self.kind {
                        CompilerKinds::Solc => CompilerOutput::Solc(files),
                        CompilerKinds::Vyper => CompilerOutput::Vyper(files),
                        CompilerKinds::Huff => CompilerOutput::Huff(files),
                    })
                }
            },
        }
    }
}

impl RunCompiler for Compiler {
    fn run(&self, reply: ToolchainReply) -> Result<CompilerOutput, CompilerError> {
        Compiler::run(self, reply)
    }
}

impl CompilerOutput {
    pub open spec fn files(&self) -> Seq<FileArtifacts> {
        match self {
            CompilerOutput::Solc(f) => f@,
            CompilerOutput::Vyper(f) => f@,
            CompilerOutput::Huff(f) => f@,
        }
    }

    /// The contract named `name` compiled from file `file`: the first match,
    /// when there is one.
    pub fn contract(&self, file: &str, name: &str) -> (r: Option<&ContractArtifact>)
        ensures
            match r {
                Some(c) => exists|i: int, j: int|
                    0 <= i < self.files().len() && 0 <= j < self.files()[i].contracts@.len()
                    && self.files()[i].file@ == file@ && #[trigger] self.files()[i].contracts@[j] == *c
                    && c.name@ == name@,
                None => forall|i: int, j: int|
                    0 <= i < self.files().len() && self.files()[i].file@ == file@
                    && 0 <= j < self.files()[i].contracts@.len()
                    ==> #[trigger] self.files()[i].contracts@[j].name@ != name@,
            },
    {
        let files = match self {
            CompilerOutput::Solc(f) => f,
            CompilerOutput::Vyper(f) => f,
            CompilerOutput::Huff(f) => f,
        };
        let mut i: usize = 0;
        while i < files.len()
            invariant
                files@ == self.files(),
                i <= files@.len(),
                forall|a: int, j: int|
                    0 <= a < i && files@[a].file@ == file@
                    && 0 <= j < files@[a].contracts@.len()
                    ==> #[trigger] files@[a].contracts@[j].name@ != name@,
            decreases files@.len() - i,
        {
            if same_text(files[i].file.as_str(), file) {
                let cs = &files[i].contracts;
                let mut j: usize = 0;
                while j < cs.len()
                    invariant
                        files@ == self.files(),
                        i < files@.len(),
                        *cs == files@[i as int].contracts,
                        files@[i as int].file@ == file@,
                        j <= cs@.len(),
                        forall|b: int| 0 <= b < j ==> #[trigger] cs@[b].name@ != name@,
                    decreases cs@.len() - j,
                {
                    if same_text(cs[j].name.as_str(), name) {
                        return Some(&cs[j]);
                    }
                    j = j + 1;
                }
            }
            i = i + 1;
        }
        None
    }
}

/// The file name under which a single source of a dialect is compiled.
pub open spec fn source_file_name(kind: CompilerKinds) -> Seq<char> {
    match kind {
        CompilerKinds::Solc => "source_code.sol"@,
        CompilerKinds::Vyper => "source_code.vy"@,
        CompilerKinds::Huff => "source_code.huff"@,
    }
}

impl CompilerKinds {
    /// The file name under which a single source of this dialect is compiled.
    pub fn source_file(&self) -> (r: String)
        ensures
            r@ == source_file_name(*self),
    {
        match self {
            CompilerKinds::Solc => owned("source_code.sol"),
            CompilerKinds::Vyper => owned("source_code.vy"),
            CompilerKinds::Huff => owned("source_code.huff"),
        }
    }
}

impl Compiler {
    /// A job that compiles one source text of the given dialect.
    pub fn single(kind: CompilerKinds, source: String) -> (r: Compiler)
        ensures
            r.kind == kind,
            r.sources@.len() == 1,
            r.sources@[0].0@ == source_file_name(kind),
            r.sources@[0].1 == source,
    {
        let mut sources: Vec<(String, String)> = Vec::new();
        sources.push((kind.source_file(), source));
        Compiler { sources, kind }
    }
}

/// Where the text of a bytecode-literal source comes from.
#[derive(Debug, PartialEq, Eq)]
pub enum LiteralSource {
    /// A path to a file to read, named by its extension.
    File(String),
    /// The source text itself.
    Inline(String),
}

/// A literal ending in `.huff` names a file to read; any other literal is the
/// source itself.
pub fn literal_source(input: String) -> (r: LiteralSource)
    ensures
        has_suffix(input@, ".huff"@) ==> r == LiteralSource::File(input),
        !has_suffix(input@, ".huff"@) ==> r == LiteralSource::Inline(input),
{
    if ends_with(input.as_str(), ".huff") {
        LiteralSource::File(input)
    } else {
        LiteralSource::Inline(input)
    }
}

} // verus!
