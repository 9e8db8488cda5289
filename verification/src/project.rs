//! The project: the contracts that are to be compiled, each with its
//! source.

use vstd::prelude::*;

use crate::evm::assembly::Assembly;
use crate::evm::assembly::AssemblyView;
use crate::solc::output::diagnostic_views;
use crate::solc::output::text_view;
use crate::text::ascending;
use crate::text::comes_before;
use crate::text::lemma_put_ascends;
use crate::text::rank;
use crate::solc::output::Diagnostic;
use crate::solc::output::DiagnosticView;
use crate::version::Version;
use crate::yul::parser::ast::Object;
use crate::yul::parser::ast::ObjectView;

verus! {

/// The source of a contract.
#[derive(Debug, PartialEq, Eq)]
pub enum Source {
    /// The Yul source and the object that was read from it.
    Yul { source: String, object: Object },
    /// The EVM assembly.
    Evm { assembly: Assembly },
}

/// The mathematical value of a [`Source`].
pub ghost enum SourceView {
    Yul { source: Seq<char>, object: ObjectView },
    Evm { assembly: AssemblyView },
}

impl View for Source {
    type V = SourceView;

    open spec fn view(&self) -> SourceView {
        match self {
            Source::Yul { source, object } => SourceView::Yul { source: source@, object: object@ },
            Source::Evm { assembly } => SourceView::Evm { assembly: assembly@ },
        }
    }
}

impl Source {
    /// The Yul source.
    pub fn new_yul(source: String, object: Object) -> (result: Source)
        ensures
            result@ == (SourceView::Yul { source: source@, object: object@ }),
    {
        Source::Yul { source, object }
    }

    /// The EVM source.
    pub fn new_evm(assembly: Assembly) -> (result: Source)
        ensures
            result@ == (SourceView::Evm { assembly: assembly@ }),
    {
        Source::Evm { assembly }
    }
}

/// Why a contract could not be emitted.
#[derive(Debug, PartialEq, Eq)]
pub enum EmissionError {
    /// The failure of the Yul pipeline.
    Yul(crate::yul::error::Error),
    /// The failure of the EVM pipeline.
    Evm(crate::evm::error::Error),
}

/// The mathematical value of an [`EmissionError`].
pub ghost enum EmissionErrorView {
    Yul(crate::yul::error::ErrorView),
    Evm(crate::evm::error::Error),
}

impl View for EmissionError {
    type V = EmissionErrorView;

    open spec fn view(&self) -> EmissionErrorView {
        match self {
            EmissionError::Yul(error) => EmissionErrorView::Yul(error@),
            EmissionError::Evm(error) => EmissionErrorView::Evm(*error),
        }
    }
}

/// What the emission of the source of a contract asks of the sink: for
/// Yul, what its object asks; for the EVM, what its assembly asks.
pub open spec fn emit_source(
    context: crate::generator::context::ContextView,
    source: SourceView,
    version: Version,
) -> Result<crate::generator::context::ContextView, EmissionErrorView> {
    match source {
        SourceView::Yul { object, .. } => match crate::yul::emit::model::emit_object_tree(
            context,
            object,
        ) {
            Ok(after) => Ok(after),
            Err(error) => Err(EmissionErrorView::Yul(error)),
        },
        SourceView::Evm { assembly } => match crate::evm::ethereal_ir::emit::emit_assembly(
            context,
            assembly,
            version,
        ) {
            Ok(after) => Ok(after),
            Err(error) => Err(EmissionErrorView::Evm(error)),
        },
    }
}

impl Source {
    /// Emits the source: see [`emit_source`].
    pub fn into_llvm(self, version: Version, context: &mut crate::generator::context::Context) -> (result:
        Result<(), EmissionError>)
        ensures
            match emit_source(old(context)@, self@, version) {
                Ok(after) => result is Ok && final(context)@ == after,
                Err(error) => result is Err && result->Err_0@ == error,
            },
    {
        match self {
            Source::Yul { source, object } => match object.into_llvm(context) {
                Ok(()) => Ok(()),
                Err(error) => Err(EmissionError::Yul(error)),
            },
            Source::Evm { assembly } => match assembly.into_llvm(version, context) {
                Ok(()) => Ok(()),
                Err(error) => Err(EmissionError::Evm(error)),
            },
        }
    }
}

/// A contract of the project.
#[derive(Debug, PartialEq, Eq)]
pub struct Contract {
    /// The full path.
    pub path: String,
    /// The source.
    pub source: Source,
    /// The interface, as the compiler wrote it.
    pub abi: Option<String>,
}

/// The mathematical value of a [`Contract`].
pub ghost struct ContractView {
    pub path: Seq<char>,
    pub source: SourceView,
    pub abi: Option<Seq<char>>,
}

impl View for Contract {
    type V = ContractView;

    open spec fn view(&self) -> ContractView {
        ContractView { path: self.path@, source: self.source@, abi: text_view(self.abi) }
    }
}

impl Contract {
    /// The contract of the parts.
    pub fn new(path: String, source: Source, abi: Option<String>) -> (contract: Contract)
        ensures
            contract.path == path,
            contract.source == source,
            contract.abi == abi,
    {
        Contract { path, source, abi }
    }
}

/// The address of a library.
#[derive(Debug, PartialEq, Eq)]
pub struct Library {
    /// The path of the file of the library.
    pub file: String,
    /// The name of the library.
    pub name: String,
    /// The address, in hexadecimal.
    pub address: String,
}

/// The project.
#[derive(Debug, PartialEq, Eq)]
pub struct Project {
    /// The version of the Solidity compiler.
    pub version: Version,
    /// The contracts, by ascending full path: see [`ordered`].
    pub contracts: Vec<Contract>,
    /// The addresses of the libraries.
    pub libraries: Vec<Library>,
}

/// The values of the contracts.
pub open spec fn contract_views(contracts: Seq<Contract>) -> Seq<ContractView> {
    contracts.map_values(|contract: Contract| contract@)
}

/// The full paths of the contracts.
pub open spec fn paths(contracts: Seq<ContractView>) -> Seq<Seq<char>> {
    contracts.map_values(|contract: ContractView| contract.path)
}

/// The contracts of a project are ordered where their full paths ascend:
/// no full path stands twice.
pub open spec fn ordered(contracts: Seq<ContractView>) -> bool {
    ascending(paths(contracts))
}

/// The contracts with one more put in at the place of its full path; a
/// contract of the same full path is replaced.
pub open spec fn put(contracts: Seq<ContractView>, contract: ContractView) -> Seq<ContractView> {
    let at = rank(paths(contracts), contract.path, 0);
    if at < contracts.len() && contracts[at].path == contract.path {
        contracts.update(at, contract)
    } else {
        contracts.insert(at, contract)
    }
}

/// Putting a contract in keeps the contracts ordered.
pub proof fn lemma_put_ordered(contracts: Seq<ContractView>, contract: ContractView)
    requires
        ordered(contracts),
    ensures
        ordered(put(contracts, contract)),
{
    let keys = paths(contracts);
    let at = rank(keys, contract.path, 0);
    lemma_put_ascends(keys, contract.path);
    if at < contracts.len() && contracts[at].path == contract.path {
        assert(paths(contracts.update(at, contract)) =~= keys);
    } else {
        assert(paths(contracts.insert(at, contract)) =~= keys.insert(at, contract.path));
    }
}

/// Puts a contract in at the place of its full path: see [`put`].
pub fn put_contract(contracts: &mut Vec<Contract>, contract: Contract)
    ensures
        contract_views(final(contracts)@) == put(contract_views(old(contracts)@), contract@),
        ordered(contract_views(old(contracts)@)) ==> ordered(contract_views(final(contracts)@)),
{
    let ghost before = contract_views(contracts@);
    let ghost keys = paths(before);
    let mut at: usize = 0;
    while at < contracts.len() && comes_before(
        contracts[at].path.as_str(),
        contract.path.as_str(),
    )
        invariant
            at <= contracts.len(),
            before == contract_views(contracts@),
            keys == paths(before),
            rank(keys, contract@.path, 0) == rank(keys, contract@.path, at as int),
        decreases contracts.len() - at,
    {
        assert(keys[at as int] == contracts@[at as int].path@);
        at += 1;
    }
    proof {
        if at < contracts.len() {
            assert(keys[at as int] == contracts@[at as int].path@);
        }
        if ordered(before) {
            lemma_put_ordered(before, contract@);
        }
    }
    if at < contracts.len() && contracts[at].path == contract.path {
        contracts.set(at, contract);
        assert(contract_views(contracts@) =~= before.update(at as int, contract@));
    } else {
        contracts.insert(at, contract);
        assert(contract_views(contracts@) =~= before.insert(at as int, contract@));
    }
}

impl Project {
    /// Puts a contract into the project at the place of its full path; a
    /// contract of the same full path is replaced. An ordered project stays
    /// ordered.
    pub fn insert(&mut self, contract: Contract)
        ensures
            contract_views(final(self).contracts@) == put(
                contract_views(old(self).contracts@),
                contract@,
            ),
            ordered(contract_views(old(self).contracts@)) ==> ordered(
                contract_views(final(self).contracts@),
            ),
            final(self).version == old(self).version,
            final(self).libraries == old(self).libraries,
    {
        put_contract(&mut self.contracts, contract);
    }

    /// The project of the parts.
    pub fn new(version: Version, contracts: Vec<Contract>, libraries: Vec<Library>) -> (project:
        Project)
        ensures
            project.version == version,
            project.contracts == contracts,
            project.libraries == libraries,
    {
        Project { version, contracts, libraries }
    }
}

/// Why no project could be made.
#[derive(Debug, PartialEq, Eq)]
pub enum Error {
    /// The compiler gave no contracts: what it gave as errors instead.
    Assembling { errors: Option<Vec<Diagnostic>> },
    /// The Yul of a contract could not be read.
    Parsing { path: String, error: crate::yul::error::Error },
}

/// The mathematical value of an [`Error`].
pub ghost enum ErrorView {
    Assembling { errors: Option<Seq<DiagnosticView>> },
    Parsing { path: Seq<char>, error: crate::yul::error::ErrorView },
}

impl View for Error {
    type V = ErrorView;

    open spec fn view(&self) -> ErrorView {
        match self {
            Error::Assembling { errors } => ErrorView::Assembling {
                errors: match errors {
                    Some(errors) => Some(diagnostic_views(errors@)),
                    None => None,
                },
            },
            Error::Parsing { path, error } => ErrorView::Parsing { path: path@, error: error@ },
        }
    }
}

} // verus!
