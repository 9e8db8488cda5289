//! The output of the Solidity compiler in its standard JSON form.

use vstd::prelude::*;

use crate::codec::hex_text;
use crate::codec::keccak256;
use crate::evm::assembly::all_relabeled;
use crate::evm::assembly::all_resolved;
use crate::evm::assembly::entry_views;
use crate::evm::assembly::find_runtime;
use crate::evm::assembly::runtime_entry;
use crate::evm::assembly::instruction_views;
use crate::evm::assembly::lemma_assembly_view;
use crate::evm::assembly::Assembly;
use crate::evm::assembly::AssemblyView;
use crate::evm::assembly::Data;
use crate::evm::assembly::DataEntry;
use crate::evm::assembly::DataEntryView;
use crate::evm::assembly::DataView;
use crate::evm::instruction::Instruction;
use crate::evm::instruction::InstructionView;
use crate::evm::mapping::Alias;
use crate::evm::mapping::HashPathMapping;
use crate::project::Project;
use crate::solc::pipeline::Pipeline;
use crate::text::ascending;
use crate::text::full_path;
use crate::text::join_path;
use crate::version::Version;
use crate::yul::lexer::Lexer;
use crate::yul::parser::ast::Object;
use crate::yul::parser::grammar::object;

verus! {

/// An error or a warning of the compiler.
#[derive(Debug, PartialEq, Eq)]
pub struct Diagnostic {
    /// How grave it is: `error` or `warning`.
    pub severity: String,
    /// The message with the place that it is about.
    pub formatted_message: String,
}

/// The mathematical value of a [`Diagnostic`].
pub ghost struct DiagnosticView {
    pub severity: Seq<char>,
    pub formatted_message: Seq<char>,
}

impl View for Diagnostic {
    type V = DiagnosticView;

    open spec fn view(&self) -> DiagnosticView {
        DiagnosticView { severity: self.severity@, formatted_message: self.formatted_message@ }
    }
}

impl Clone for Diagnostic {
    fn clone(&self) -> (copy: Diagnostic)
        ensures
            copy@ == self@,
    {
        Diagnostic {
            severity: self.severity.clone(),
            formatted_message: self.formatted_message.clone(),
        }
    }
}

/// The diagnostic with the path of the source that it is about behind its
/// message.
pub open spec fn tagged(diagnostic: DiagnosticView, path: Seq<char>) -> DiagnosticView {
    DiagnosticView {
        severity: diagnostic.severity,
        formatted_message: diagnostic.formatted_message + "\n--> "@ + path + "\n"@,
    }
}

impl Diagnostic {
    /// Puts the path of the source behind the message.
    pub fn push_contract_path(&mut self, path: &str)
        ensures
            final(self)@ == tagged(old(self)@, path@),
    {
        self.formatted_message.append("\n--> ");
        self.formatted_message.append(path);
        self.formatted_message.append("\n");
    }
}

/// The syntax tree of a source, as far as the project needs it: the
/// warnings that it gives rise to.
#[derive(Debug, PartialEq, Eq)]
pub struct Ast {
    /// The warnings.
    pub warnings: Vec<Diagnostic>,
}

/// A source of the compilation.
#[derive(Debug, PartialEq, Eq)]
pub struct Source {
    /// The path of the source.
    pub path: String,
    /// The syntax tree.
    pub ast: Option<Ast>,
}

/// The values of the diagnostics.
pub open spec fn diagnostic_views(diagnostics: Seq<Diagnostic>) -> Seq<DiagnosticView> {
    diagnostics.map_values(|diagnostic: Diagnostic| diagnostic@)
}

/// The mathematical value of a [`Source`].
pub ghost struct SourceView {
    pub path: Seq<char>,
    pub warnings: Option<Seq<DiagnosticView>>,
}

impl View for Source {
    type V = SourceView;

    open spec fn view(&self) -> SourceView {
        SourceView {
            path: self.path@,
            warnings: match self.ast {
                Some(ast) => Some(diagnostic_views(ast.warnings@)),
                None => None,
            },
        }
    }
}

/// What the compiler gives for the EVM.
#[derive(Debug, PartialEq, Eq)]
pub struct Evm {
    /// The assembly.
    pub assembly: Option<Assembly>,
    /// The deploy bytecode, in hexadecimal.
    pub bytecode: Option<String>,
    /// The runtime bytecode, in hexadecimal.
    pub deployed_bytecode: Option<String>,
}

impl Evm {
    /// The EVM part that holds the bytecodes of the target and nothing else.
    pub fn new_zkevm_bytecode(deploy_bytecode: String, runtime_bytecode: String) -> (evm: Evm)
        ensures
            evm.assembly is None,
            evm.bytecode == Some(deploy_bytecode),
            evm.deployed_bytecode == Some(runtime_bytecode),
    {
        Evm {
            assembly: None,
            bytecode: Some(deploy_bytecode),
            deployed_bytecode: Some(runtime_bytecode),
        }
    }
}

/// A contract of the output.
#[derive(Debug, PartialEq, Eq)]
pub struct Contract {
    /// The name.
    pub name: String,
    /// The interface, as the compiler wrote it.
    pub abi: Option<String>,
    /// The optimized Yul.
    pub ir_optimized: Option<String>,
    /// The EVM part.
    pub evm: Option<Evm>,
    /// The hash of the deploy code.
    pub deploy_hash: Option<String>,
    /// The contracts that the deploy code creates, by hash.
    pub deploy_factory_dependencies: Option<Vec<Alias>>,
    /// The hash of the runtime code.
    pub runtime_hash: Option<String>,
    /// The contracts that the runtime code creates, by hash.
    pub runtime_factory_dependencies: Option<Vec<Alias>>,
}

/// The contracts of a source file.
#[derive(Debug, PartialEq, Eq)]
pub struct File {
    /// The path of the file.
    pub path: String,
    /// The contracts, by ascending name: see [`ordered_files`].
    pub contracts: Vec<Contract>,
}

/// The output of the compiler.
#[derive(Debug, PartialEq, Eq)]
pub struct Output {
    /// The contracts, by ascending path of their files: see [`ordered`].
    pub contracts: Option<Vec<File>>,
    /// The sources, by ascending path: see [`ordered`].
    pub sources: Option<Vec<Source>>,
    /// The errors and warnings.
    pub errors: Option<Vec<Diagnostic>>,
}

/// The value of an optional text.
pub open spec fn text_view(text: Option<String>) -> Option<Seq<char>> {
    match text {
        Some(text) => Some(text@),
        None => None,
    }
}

/// The hashes and the paths of the entries.
pub open spec fn alias_views(aliases: Option<Vec<Alias>>) -> Option<Seq<(Seq<char>, Seq<char>)>> {
    match aliases {
        Some(aliases) => Some(aliases@.map_values(|alias: Alias| (alias.hash@, alias.path@))),
        None => None,
    }
}

/// The mathematical value of an [`Evm`].
pub ghost struct EvmView {
    pub assembly: Option<AssemblyView>,
    pub bytecode: Option<Seq<char>>,
    pub deployed_bytecode: Option<Seq<char>>,
}

impl View for Evm {
    type V = EvmView;

    open spec fn view(&self) -> EvmView {
        EvmView {
            assembly: match self.assembly {
                Some(assembly) => Some(assembly@),
                None => None,
            },
            bytecode: text_view(self.bytecode),
            deployed_bytecode: text_view(self.deployed_bytecode),
        }
    }
}

/// The mathematical value of a [`Contract`].
pub ghost struct ContractView {
    pub name: Seq<char>,
    pub abi: Option<Seq<char>>,
    pub ir_optimized: Option<Seq<char>>,
    pub evm: Option<EvmView>,
    pub deploy_hash: Option<Seq<char>>,
    pub deploy_factory_dependencies: Option<Seq<(Seq<char>, Seq<char>)>>,
    pub runtime_hash: Option<Seq<char>>,
    pub runtime_factory_dependencies: Option<Seq<(Seq<char>, Seq<char>)>>,
}

impl View for Contract {
    type V = ContractView;

    open spec fn view(&self) -> ContractView {
        ContractView {
            name: self.name@,
            abi: text_view(self.abi),
            ir_optimized: text_view(self.ir_optimized),
            evm: match self.evm {
                Some(evm) => Some(evm@),
                None => None,
            },
            deploy_hash: text_view(self.deploy_hash),
            deploy_factory_dependencies: alias_views(self.deploy_factory_dependencies),
            runtime_hash: text_view(self.runtime_hash),
            runtime_factory_dependencies: alias_views(self.runtime_factory_dependencies),
        }
    }
}

/// The values of the contracts.
pub open spec fn contract_views(contracts: Seq<Contract>) -> Seq<ContractView> {
    contracts.map_values(|contract: Contract| contract@)
}

/// The mathematical value of a [`File`].
pub ghost struct FileView {
    pub path: Seq<char>,
    pub contracts: Seq<ContractView>,
}

impl View for File {
    type V = FileView;

    open spec fn view(&self) -> FileView {
        FileView { path: self.path@, contracts: contract_views(self.contracts@) }
    }
}

/// The values of the files.
pub open spec fn file_views(files: Seq<File>) -> Seq<FileView> {
    files.map_values(|file: File| file@)
}

/// The values of the sources.
pub open spec fn source_views(sources: Seq<Source>) -> Seq<SourceView> {
    sources.map_values(|source: Source| source@)
}

/// The mathematical value of an [`Output`].
pub ghost struct OutputView {
    pub contracts: Option<Seq<FileView>>,
    pub sources: Option<Seq<SourceView>>,
    pub errors: Option<Seq<DiagnosticView>>,
}

impl View for Output {
    type V = OutputView;

    open spec fn view(&self) -> OutputView {
        OutputView {
            contracts: match self.contracts {
                Some(files) => Some(file_views(files@)),
                None => None,
            },
            sources: match self.sources {
                Some(sources) => Some(source_views(sources@)),
                None => None,
            },
            errors: match self.errors {
                Some(errors) => Some(diagnostic_views(errors@)),
                None => None,
            },
        }
    }
}

/// The paths of the files.
pub open spec fn file_paths(files: Seq<FileView>) -> Seq<Seq<char>> {
    files.map_values(|file: FileView| file.path)
}

/// The names of the contracts.
pub open spec fn contract_names(contracts: Seq<ContractView>) -> Seq<Seq<char>> {
    contracts.map_values(|contract: ContractView| contract.name)
}

/// The paths of the sources.
pub open spec fn source_paths(sources: Seq<SourceView>) -> Seq<Seq<char>> {
    sources.map_values(|source: SourceView| source.path)
}

/// The files are ordered where their paths ascend and, in each file, the
/// names of its contracts: no file stands twice, and no contract twice in
/// its file.
pub open spec fn ordered_files(files: Seq<FileView>) -> bool {
    &&& ascending(file_paths(files))
    &&& forall|i: int| 0 <= i < files.len() ==> ascending(
        contract_names((#[trigger] files[i]).contracts),
    )
}

/// An output is ordered where its files are and the paths of its sources
/// ascend. The passes of this module keep an ordered output ordered; none of
/// them asks for one.
pub open spec fn ordered(output: OutputView) -> bool {
    &&& output.contracts matches Some(files) ==> ordered_files(files)
    &&& output.sources matches Some(sources) ==> ascending(source_paths(sources))
}

/// Whether two lists of files have the same paths and, file by file, the
/// same names of contracts, in the same order.
pub open spec fn same_keys(first: Seq<FileView>, second: Seq<FileView>) -> bool {
    &&& first.len() == second.len()
    &&& forall|i: int|
        0 <= i < first.len() ==> (#[trigger] first[i]).path == second[i].path && contract_names(
            first[i].contracts,
        ) == contract_names(second[i].contracts)
}

/// Files with the keys of ordered files are ordered.
pub proof fn lemma_same_keys_ordered(first: Seq<FileView>, second: Seq<FileView>)
    requires
        same_keys(first, second),
        ordered_files(first),
    ensures
        ordered_files(second),
{
    assert(file_paths(second) =~= file_paths(first));
    assert forall|i: int| 0 <= i < second.len() implies ascending(
        contract_names((#[trigger] second[i]).contracts),
    ) by {
        assert(ascending(contract_names(first[i].contracts)));
    }
}

/// The warnings, each with the path of its source.
pub open spec fn all_tagged(warnings: Seq<DiagnosticView>, path: Seq<char>) -> Seq<DiagnosticView> {
    Seq::new(warnings.len(), |i: int| tagged(warnings[i], path))
}

/// The warnings of the first `count` sources, each with the path of its
/// source, in the order of the sources.
pub open spec fn warnings_of(sources: Seq<SourceView>, count: int) -> Seq<DiagnosticView>
    decreases count,
{
    if count <= 0 || count > sources.len() {
        Seq::empty()
    } else {
        warnings_of(sources, count - 1) + (match sources[count - 1].warnings {
            Some(warnings) => all_tagged(warnings, sources[count - 1].path),
            None => Seq::empty(),
        })
    }
}

/// The output with the warnings of the sources behind its errors. Without
/// sources it is as it was.
pub open spec fn with_warnings(output: OutputView) -> OutputView {
    match output.sources {
        None => output,
        Some(sources) => OutputView {
            errors: Some(
                (match output.errors {
                    Some(errors) => errors,
                    None => Seq::empty(),
                }) + warnings_of(sources, sources.len() as int),
            ),
            ..output
        },
    }
}

/// The mapping with the hash of the assembly of the contract, if it has
/// one, standing for the full path of the contract.
pub open spec fn with_hash(
    mapping: Map<Seq<char>, Seq<char>>,
    path: Seq<char>,
    contract: ContractView,
) -> Map<Seq<char>, Seq<char>> {
    if contract.evm is Some && contract.evm->0.assembly is Some {
        mapping.insert(
            hex_text(keccak256(contract.evm->0.assembly->0.json)),
            full_path(path, contract.name),
        )
    } else {
        mapping
    }
}

/// The mapping with the hashes of the first `count` contracts of a file.
pub open spec fn with_file_hashes(
    mapping: Map<Seq<char>, Seq<char>>,
    file: FileView,
    count: int,
) -> Map<Seq<char>, Seq<char>>
    decreases count,
{
    if count <= 0 || count > file.contracts.len() {
        mapping
    } else {
        with_hash(with_file_hashes(mapping, file, count - 1), file.path, file.contracts[count - 1])
    }
}

/// The mapping of the hashes of the assemblies of the contracts of the
/// first `count` files to their full paths.
pub open spec fn hash_path_mapping(files: Seq<FileView>, count: int) -> Map<Seq<char>, Seq<char>>
    decreases count,
{
    if count <= 0 || count > files.len() {
        Map::empty()
    } else {
        with_file_hashes(
            hash_path_mapping(files, count - 1),
            files[count - 1],
            files[count - 1].contracts.len() as int,
        )
    }
}

/// The code with dense labels and resolved references.
pub open spec fn rewritten(
    code: Option<Seq<InstructionView>>,
    mapping: Map<Seq<char>, Seq<char>>,
) -> Option<Seq<InstructionView>> {
    match code {
        Some(code) => Some(all_resolved(all_relabeled(code), mapping)),
        None => None,
    }
}

/// The entry with the code of its assembly rewritten, if it holds one.
pub open spec fn rewritten_entry(
    entry: DataEntryView,
    mapping: Map<Seq<char>, Seq<char>>,
) -> DataEntryView {
    match entry.value {
        DataView::Assembly(assembly) => DataEntryView {
            key: entry.key,
            value: DataView::Assembly(
                AssemblyView { code: rewritten(assembly.code, mapping), ..assembly },
            ),
        },
        _ => entry,
    }
}

/// The assembly of a contract after the pass: it bears the full path; its
/// deploy code is rewritten; and so is its runtime code, which is the code
/// of the assembly under the key `0` of its data.
pub open spec fn level(
    assembly: AssemblyView,
    path: Seq<char>,
    mapping: Map<Seq<char>, Seq<char>>,
) -> AssemblyView {
    AssemblyView {
        code: rewritten(assembly.code, mapping),
        data: match assembly.data {
            Some(entries) => match runtime_entry(entries, 0) {
                Some(index) => Some(entries.update(index, rewritten_entry(entries[index], mapping))),
                None => Some(entries),
            },
            None => None,
        },
        full_path: Some(path),
        json: assembly.json,
    }
}

/// The contract with its assembly after the pass.
pub open spec fn contract_level(
    contract: ContractView,
    path: Seq<char>,
    mapping: Map<Seq<char>, Seq<char>>,
) -> ContractView {
    if contract.evm is Some && contract.evm->0.assembly is Some {
        ContractView {
            evm: Some(
                EvmView {
                    assembly: Some(
                        level(
                            contract.evm->0.assembly->0,
                            full_path(path, contract.name),
                            mapping,
                        ),
                    ),
                    ..contract.evm->0
                },
            ),
            ..contract
        }
    } else {
        contract
    }
}

/// The file with the assemblies of its contracts after the pass.
pub open spec fn file_level(file: FileView, mapping: Map<Seq<char>, Seq<char>>) -> FileView {
    FileView {
        path: file.path,
        contracts: Seq::new(
            file.contracts.len(),
            |i: int| contract_level(file.contracts[i], file.path, mapping),
        ),
    }
}

/// The output with the dependencies of its contracts resolved: each hash
/// of an assembly of the output stands for the full path of its contract,
/// and each assembly goes through the pass with that mapping.
pub open spec fn with_dependencies(output: OutputView) -> OutputView {
    match output.contracts {
        None => output,
        Some(files) => OutputView {
            contracts: Some(
                Seq::new(
                    files.len(),
                    |i: int| file_level(files[i], hash_path_mapping(files, files.len() as int)),
                ),
            ),
            ..output
        },
    }
}

/// In the rewritten code, a `PUSH_Data` whose immediate is a hash of the
/// mapping bears the path that the hash stands for, and any other
/// `PUSH_Data` is as it was.
pub proof fn lemma_rewritten_data(
    code: Seq<InstructionView>,
    mapping: Map<Seq<char>, Seq<char>>,
    index: int,
)
    requires
        0 <= index < code.len(),
        code[index].name == crate::evm::instruction::name::Name::PUSH_Data,
    ensures
        rewritten(Some(code), mapping)->0.len() == code.len(),
        rewritten(Some(code), mapping)->0[index] == (if code[index].value is Some
            && mapping.dom().contains(code[index].value->0) {
            InstructionView { name: code[index].name, value: Some(mapping[code[index].value->0]) }
        } else {
            code[index]
        }),
{
}

/// A hash of the mapping of the first contracts of a file stays one.
pub proof fn lemma_file_hashes_stay(
    mapping: Map<Seq<char>, Seq<char>>,
    file: FileView,
    count: int,
    hash: Seq<char>,
)
    requires
        0 <= count <= file.contracts.len(),
        mapping.dom().contains(hash),
    ensures
        with_file_hashes(mapping, file, count).dom().contains(hash),
    decreases count,
{
    if count > 0 {
        lemma_file_hashes_stay(mapping, file, count - 1, hash);
    }
}

/// The hash of the assembly of a contract of a file is a hash of the
/// mapping of the file.
pub proof fn lemma_file_hash_known(
    mapping: Map<Seq<char>, Seq<char>>,
    file: FileView,
    count: int,
    contract: int,
)
    requires
        0 <= contract < count <= file.contracts.len(),
        file.contracts[contract].evm is Some,
        file.contracts[contract].evm->0.assembly is Some,
    ensures
        with_file_hashes(mapping, file, count).dom().contains(
            hex_text(keccak256(file.contracts[contract].evm->0.assembly->0.json)),
        ),
    decreases count,
{
    if contract < count - 1 {
        lemma_file_hash_known(mapping, file, count - 1, contract);
    }
}

/// A hash of the mapping of the first files stays one.
pub proof fn lemma_hashes_stay(files: Seq<FileView>, lower: int, upper: int, hash: Seq<char>)
    requires
        0 <= lower <= upper <= files.len(),
        hash_path_mapping(files, lower).dom().contains(hash),
    ensures
        hash_path_mapping(files, upper).dom().contains(hash),
    decreases upper - lower,
{
    if lower < upper {
        lemma_hashes_stay(files, lower, upper - 1, hash);
        lemma_file_hashes_stay(
            hash_path_mapping(files, upper - 1),
            files[upper - 1],
            files[upper - 1].contracts.len() as int,
            hash,
        );
    }
}

/// The hash of the assembly of every contract of the output is a hash of
/// the mapping that the dependencies are resolved with: so a `PUSH_Data`
/// that bears it is rewritten to a full path.
pub proof fn lemma_hash_known(files: Seq<FileView>, file: int, contract: int)
    requires
        0 <= file < files.len(),
        0 <= contract < files[file].contracts.len(),
        files[file].contracts[contract].evm is Some,
        files[file].contracts[contract].evm->0.assembly is Some,
    ensures
        hash_path_mapping(files, files.len() as int).dom().contains(
            hex_text(keccak256(files[file].contracts[contract].evm->0.assembly->0.json)),
        ),
{
    lemma_file_hash_known(
        hash_path_mapping(files, file),
        files[file],
        files[file].contracts.len() as int,
        contract,
    );
    lemma_hashes_stay(
        files,
        file + 1,
        files.len() as int,
        hex_text(keccak256(files[file].contracts[contract].evm->0.assembly->0.json)),
    );
}

fn rewrite(code: &mut Option<Vec<Instruction>>, mapping: &HashPathMapping)
    ensures
        (match *final(code) {
            Some(code) => Some(instruction_views(code@)),
            None => None,
        }) == rewritten(
            match *old(code) {
                Some(code) => Some(instruction_views(code@)),
                None => None,
            },
            mapping@,
        ),
{
    match code {
        Some(instructions) => {
            Instruction::relabel(instructions);
            Instruction::replace_data_aliases(instructions, mapping);
        },
        None => {},
    }
}

fn rewrite_entry(entry: &mut DataEntry, mapping: &HashPathMapping)
    ensures
        final(entry)@ == rewritten_entry(old(entry)@, mapping@),
{
    match &mut entry.value {
        Data::Assembly(assembly) => {
            proof {
                lemma_assembly_view(*assembly);
            }
            rewrite(&mut assembly.code, mapping);
            proof {
                lemma_assembly_view(*assembly);
            }
        },
        _ => {},
    }
}

impl Output {
    /// Resolves the dependencies of an assembly: see [`level`].
    pub fn preprocess_dependency_level(
        full_path: &str,
        assembly: &mut Assembly,
        hash_path_mapping: &HashPathMapping,
    )
        ensures
            final(assembly)@ == level(old(assembly)@, full_path@, hash_path_mapping@),
    {
        proof {
            lemma_assembly_view(*assembly);
        }
        assembly.set_full_path(full_path.to_owned());
        rewrite(&mut assembly.code, hash_path_mapping);
        match &mut assembly.data {
            Some(entries) => {
                let ghost before = entry_views(entries@);
                match find_runtime(entries) {
                    Some(index) => {
                        rewrite_entry(&mut entries[index], hash_path_mapping);
                        assert(entry_views(entries@) =~= before.update(
                            index as int,
                            rewritten_entry(before[index as int], hash_path_mapping@),
                        ));
                    },
                    None => {},
                }
            },
            None => {},
        }
        proof {
            lemma_assembly_view(*assembly);
        }
    }
}

/// Resolving the dependencies changes no path of a file and no name of a
/// contract.
pub proof fn lemma_dependencies_keep_keys(output: OutputView)
    ensures
        output.contracts matches Some(files) ==> same_keys(
            files,
            with_dependencies(output).contracts->0,
        ),
        with_dependencies(output).sources == output.sources,
{
    match output.contracts {
        Some(files) => {
            let after = with_dependencies(output).contracts->0;
            assert forall|i: int| 0 <= i < files.len() implies (#[trigger] files[i]).path
                == after[i].path && contract_names(files[i].contracts) == contract_names(
                after[i].contracts,
            ) by {
                assert(contract_names(files[i].contracts) =~= contract_names(after[i].contracts));
            }
        },
        None => {},
    }
}

/// What the project takes changes no path of a file and no name of a
/// contract.
pub proof fn lemma_given_keep_keys(files: Seq<FileView>, pipeline: Pipeline)
    ensures
        same_keys(files, all_given(files, pipeline)),
{
    let after = all_given(files, pipeline);
    assert forall|i: int| 0 <= i < files.len() implies (#[trigger] files[i]).path == after[i].path
        && contract_names(files[i].contracts) == contract_names(after[i].contracts) by {
        assert(contract_names(files[i].contracts) =~= contract_names(after[i].contracts));
    }
}

fn append_warnings(messages: &mut Vec<Diagnostic>, source: &Source)
    ensures
        diagnostic_views(final(messages)@) == diagnostic_views(old(messages)@) + (match
            source@.warnings {
            Some(warnings) => all_tagged(warnings, source@.path),
            None => Seq::empty(),
        }),
{
    let ghost before = diagnostic_views(messages@);
    match &source.ast {
        None => {
            assert(before + Seq::<DiagnosticView>::empty() =~= before);
        },
        Some(ast) => {
            let ghost warnings = diagnostic_views(ast.warnings@);
            let mut i: usize = 0;
            assert(before + all_tagged(warnings, source@.path).take(0) =~= before);
            while i < ast.warnings.len()
                invariant
                    i <= ast.warnings.len(),
                    warnings == diagnostic_views(ast.warnings@),
                    diagnostic_views(messages@) == before + all_tagged(
                        warnings,
                        source@.path,
                    ).take(i as int),
                decreases ast.warnings.len() - i,
            {
                let ghost listed = diagnostic_views(messages@);
                let mut warning = ast.warnings[i].clone();
                warning.push_contract_path(source.path.as_str());
                messages.push(warning);
                i += 1;
                assert(diagnostic_views(messages@) =~= before + all_tagged(
                    warnings,
                    source@.path,
                ).take(i as int)) by {
                    assert(diagnostic_views(messages@) =~= listed.push(
                        tagged(warnings[i - 1], source@.path),
                    ));
                    assert(all_tagged(warnings, source@.path).take(i as int) =~= all_tagged(
                        warnings,
                        source@.path,
                    ).take(i - 1).push(tagged(warnings[i - 1], source@.path)));
                }
            }
            assert(all_tagged(warnings, source@.path).take(i as int) =~= all_tagged(
                warnings,
                source@.path,
            ));
        },
    }
}

fn collect_warnings(sources: &Vec<Source>) -> (messages: Vec<Diagnostic>)
    ensures
        diagnostic_views(messages@) == warnings_of(source_views(sources@), sources@.len() as int),
{
    let mut messages: Vec<Diagnostic> = Vec::new();
    let mut i: usize = 0;
    assert(diagnostic_views(messages@) =~= Seq::<DiagnosticView>::empty());
    while i < sources.len()
        invariant
            i <= sources.len(),
            diagnostic_views(messages@) == warnings_of(source_views(sources@), i as int),
        decreases sources.len() - i,
    {
        assert(source_views(sources@)[i as int] == sources@[i as int]@);
        append_warnings(&mut messages, &sources[i]);
        i += 1;
    }
    messages
}

fn append_all(errors: &mut Vec<Diagnostic>, messages: Vec<Diagnostic>)
    ensures
        diagnostic_views(final(errors)@) == diagnostic_views(old(errors)@) + diagnostic_views(
            messages@,
        ),
{
    let ghost before = diagnostic_views(errors@);
    let ghost added = diagnostic_views(messages@);
    let mut i: usize = 0;
    assert(before + added.take(0) =~= before);
    while i < messages.len()
        invariant
            i <= messages.len(),
            added == diagnostic_views(messages@),
            diagnostic_views(errors@) == before + added.take(i as int),
        decreases messages.len() - i,
    {
        let ghost listed = diagnostic_views(errors@);
        errors.push(messages[i].clone());
        i += 1;
        assert(diagnostic_views(errors@) =~= listed.push(added[i - 1]));
        assert(before + added.take(i as int) =~= (before + added.take(i - 1)).push(added[i - 1]));
    }
    assert(added.take(i as int) =~= added);
}

fn add_hash(mapping: &mut HashPathMapping, path: &String, contract: &Contract)
    ensures
        final(mapping)@ == with_hash(old(mapping)@, path@, contract@),
{
    match &contract.evm {
        Some(evm) => match &evm.assembly {
            Some(assembly) => {
                mapping.insert(
                    assembly.keccak256(),
                    join_path(path.as_str(), contract.name.as_str()),
                );
            },
            None => {},
        },
        None => {},
    }
}

fn add_file_hashes(mapping: &mut HashPathMapping, file: &File)
    ensures
        final(mapping)@ == with_file_hashes(old(mapping)@, file@, file@.contracts.len() as int),
{
    let mut i: usize = 0;
    while i < file.contracts.len()
        invariant
            i <= file.contracts.len(),
            mapping@ == with_file_hashes(old(mapping)@, file@, i as int),
        decreases file.contracts.len() - i,
    {
        assert(file@.contracts[i as int] == file.contracts@[i as int]@);
        add_hash(mapping, &file.path, &file.contracts[i]);
        i += 1;
    }
}

fn collect_hashes(files: &Vec<File>) -> (mapping: HashPathMapping)
    ensures
        mapping@ == hash_path_mapping(file_views(files@), files@.len() as int),
{
    let mut mapping = HashPathMapping::new();
    let mut i: usize = 0;
    while i < files.len()
        invariant
            i <= files.len(),
            mapping@ == hash_path_mapping(file_views(files@), i as int),
        decreases files.len() - i,
    {
        assert(file_views(files@)[i as int] == files@[i as int]@);
        add_file_hashes(&mut mapping, &files[i]);
        i += 1;
    }
    mapping
}

fn resolve_contract(contract: &mut Contract, path: &String, mapping: &HashPathMapping)
    ensures
        final(contract)@ == contract_level(old(contract)@, path@, mapping@),
{
    let joined = join_path(path.as_str(), contract.name.as_str());
    match &mut contract.evm {
        Some(evm) => match &mut evm.assembly {
            Some(assembly) => {
                Output::preprocess_dependency_level(joined.as_str(), assembly, mapping);
            },
            None => {},
        },
        None => {},
    }
}

fn resolve_file(file: &mut File, mapping: &HashPathMapping)
    ensures
        final(file)@ == file_level(old(file)@, mapping@),
{
    let ghost before = file@;
    let mut i: usize = 0;
    while i < file.contracts.len()
        invariant
            i <= file.contracts.len(),
            file.path == old(file).path,
            file.contracts.len() == before.contracts.len(),
            before == old(file)@,
            forall|j: int|
                0 <= j < i ==> (#[trigger] file.contracts@[j])@ == contract_level(
                    before.contracts[j],
                    before.path,
                    mapping@,
                ),
            forall|j: int|
                i <= j < file.contracts.len() ==> (#[trigger] file.contracts@[j])@
                    == before.contracts[j],
        decreases file.contracts.len() - i,
    {
        let path = file.path.clone();
        resolve_contract(&mut file.contracts[i], &path, mapping);
        i += 1;
    }
    assert(file@.contracts =~= file_level(before, mapping@).contracts);
}

/// What falls to the project of a contract of the output: nothing where the
/// contract has no source for the pipeline, which for Yul is a source that
/// is not empty; else the contract of the project, with the object read
/// from its Yul or with its assembly, or the error of the reading.
pub open spec fn selected(contract: ContractView, path: Seq<char>, pipeline: Pipeline) -> Option<
    Result<crate::project::ContractView, crate::project::ErrorView>,
> {
    match pipeline {
        Pipeline::Yul => match contract.ir_optimized {
            None => None,
            Some(source) => if source.len() == 0 {
                None
            } else {
                Some(
                    match object(source, 0, None) {
                        Ok((object, _)) => Ok(
                            crate::project::ContractView {
                                path: full_path(path, contract.name),
                                source: crate::project::SourceView::Yul { source, object },
                                abi: contract.abi,
                            },
                        ),
                        Err(error) => Err(
                            crate::project::ErrorView::Parsing {
                                path: full_path(path, contract.name),
                                error,
                            },
                        ),
                    },
                )
            },
        },
        Pipeline::EVM => if contract.evm is Some && contract.evm->0.assembly is Some {
            Some(
                Ok(
                    crate::project::ContractView {
                        path: full_path(path, contract.name),
                        source: crate::project::SourceView::Evm {
                            assembly: contract.evm->0.assembly->0,
                        },
                        abi: contract.abi,
                    },
                ),
            )
        } else {
            None
        },
    }
}

/// The contract of the output after the project has taken what falls to it:
/// for Yul the source, and the interface where the contract is taken up.
pub open spec fn given(contract: ContractView, path: Seq<char>, pipeline: Pipeline) -> ContractView {
    ContractView {
        ir_optimized: if pipeline == Pipeline::Yul {
            None
        } else {
            contract.ir_optimized
        },
        abi: if selected(contract, path, pipeline) is Some {
            None
        } else {
            contract.abi
        },
        ..contract
    }
}

/// The contracts of the project with those put in that fall to it of the
/// first `count` contracts of a file, or the first error: see
/// [`crate::project::put`].
pub open spec fn file_projects(
    listed: Seq<crate::project::ContractView>,
    file: FileView,
    pipeline: Pipeline,
    count: int,
) -> Result<Seq<crate::project::ContractView>, crate::project::ErrorView>
    decreases count,
{
    if count <= 0 || count > file.contracts.len() {
        Ok(listed)
    } else {
        match file_projects(listed, file, pipeline, count - 1) {
            Err(error) => Err(error),
            Ok(before) => match selected(file.contracts[count - 1], file.path, pipeline) {
                None => Ok(before),
                Some(Ok(contract)) => Ok(crate::project::put(before, contract)),
                Some(Err(error)) => Err(error),
            },
        }
    }
}

/// The contracts of the project that fall to it of the first `count` files,
/// by ascending full path, or the first error.
pub open spec fn projects(files: Seq<FileView>, pipeline: Pipeline, count: int) -> Result<
    Seq<crate::project::ContractView>,
    crate::project::ErrorView,
>
    decreases count,
{
    if count <= 0 || count > files.len() {
        Ok(Seq::empty())
    } else {
        match projects(files, pipeline, count - 1) {
            Err(error) => Err(error),
            Ok(before) => file_projects(
                before,
                files[count - 1],
                pipeline,
                files[count - 1].contracts.len() as int,
            ),
        }
    }
}

/// The output as the making of a project starts from it: with the warnings
/// of its sources; with its dependencies resolved, for the EVM pipeline;
/// and without its sources.
pub open spec fn prepared(output: OutputView, pipeline: Pipeline) -> OutputView {
    let warned = with_warnings(output);
    let resolved = if pipeline == Pipeline::EVM {
        with_dependencies(warned)
    } else {
        warned
    };
    OutputView { sources: None, ..resolved }
}

/// The files after the project has taken what falls to it.
pub open spec fn all_given(files: Seq<FileView>, pipeline: Pipeline) -> Seq<FileView> {
    Seq::new(
        files.len(),
        |i: int|
            FileView {
                path: files[i].path,
                contracts: Seq::new(
                    files[i].contracts.len(),
                    |j: int| given(files[i].contracts[j], files[i].path, pipeline),
                ),
            },
    )
}

fn select(contract: &mut Contract, path: &String, pipeline: Pipeline) -> (result: Result<
    Option<crate::project::Contract>,
    crate::project::Error,
>)
    ensures
        match selected(old(contract)@, path@, pipeline) {
            None => result is Ok && result->Ok_0 is None && final(contract)@ == given(
                old(contract)@,
                path@,
                pipeline,
            ),
            Some(Ok(taken)) => result is Ok && result->Ok_0 is Some && result->Ok_0->0@ == taken
                && final(contract)@ == given(old(contract)@, path@, pipeline),
            Some(Err(error)) => result is Err && result->Err_0@ == error,
        },
{
    let joined = join_path(path.as_str(), contract.name.as_str());
    let source = match pipeline {
        Pipeline::Yul => {
            let ir_optimized = match contract.ir_optimized.take() {
                Some(ir_optimized) => ir_optimized,
                None => {
                    return Ok(None);
                },
            };
            if ir_optimized.as_str().unicode_len() == 0 {
                return Ok(None);
            }
            let mut lexer = Lexer::new(ir_optimized.clone());
            match Object::parse(&mut lexer, None) {
                Ok(object) => crate::project::Source::new_yul(ir_optimized, object),
                Err(error) => {
                    return Err(crate::project::Error::Parsing { path: joined, error });
                },
            }
        },
        Pipeline::EVM => {
            let assembly = match &contract.evm {
                Some(evm) => match &evm.assembly {
                    Some(assembly) => assembly.clone(),
                    None => {
                        return Ok(None);
                    },
                },
                None => {
                    return Ok(None);
                },
            };
            crate::project::Source::new_evm(assembly)
        },
    };
    Ok(Some(crate::project::Contract::new(joined, source, contract.abi.take())))
}

fn select_into(
    contract: &mut Contract,
    path: &String,
    pipeline: Pipeline,
    contracts: &mut Vec<crate::project::Contract>,
) -> (result: Result<(), crate::project::Error>)
    ensures
        match selected(old(contract)@, path@, pipeline) {
            None => result is Ok && crate::project::contract_views(final(contracts)@)
                == crate::project::contract_views(old(contracts)@) && final(contract)@ == given(
                old(contract)@,
                path@,
                pipeline,
            ),
            Some(Ok(taken)) => result is Ok && crate::project::contract_views(final(contracts)@)
                == crate::project::put(crate::project::contract_views(old(contracts)@), taken)
                && final(contract)@ == given(old(contract)@, path@, pipeline),
            Some(Err(error)) => result is Err && result->Err_0@ == error,
        },
        result is Ok && crate::project::ordered(crate::project::contract_views(old(contracts)@))
            ==> crate::project::ordered(crate::project::contract_views(final(contracts)@)),
{
    match select(contract, path, pipeline)? {
        None => {},
        Some(taken) => {
            crate::project::put_contract(contracts, taken);
        },
    }
    Ok(())
}

#[verifier::rlimit(60)]
fn select_file(
    file: &mut File,
    pipeline: Pipeline,
    contracts: &mut Vec<crate::project::Contract>,
) -> (result: Result<(), crate::project::Error>)
    ensures
        match file_projects(
            crate::project::contract_views(old(contracts)@),
            old(file)@,
            pipeline,
            old(file)@.contracts.len() as int,
        ) {
            Ok(all) => result is Ok && crate::project::contract_views(final(contracts)@) == all
                && final(file)@ == (FileView {
                path: old(file)@.path,
                contracts: Seq::new(
                    old(file)@.contracts.len(),
                    |j: int| given(old(file)@.contracts[j], old(file)@.path, pipeline),
                ),
            }),
            Err(error) => result is Err && result->Err_0@ == error,
        },
        result is Ok && crate::project::ordered(crate::project::contract_views(old(contracts)@))
            ==> crate::project::ordered(crate::project::contract_views(final(contracts)@)),
{
    let ghost before = file@;
    let ghost listed = crate::project::contract_views(contracts@);
    let mut i: usize = 0;
    while i < file.contracts.len()
        invariant
            i <= file.contracts.len(),
            file.path == old(file).path,
            file.contracts.len() == before.contracts.len(),
            before == old(file)@,
            listed == crate::project::contract_views(old(contracts)@),
            file_projects(listed, before, pipeline, i as int) == Ok::<
                Seq<crate::project::ContractView>,
                crate::project::ErrorView,
            >(crate::project::contract_views(contracts@)),
            crate::project::ordered(listed) ==> crate::project::ordered(
                crate::project::contract_views(contracts@),
            ),
            forall|j: int|
                0 <= j < i ==> (#[trigger] file.contracts@[j])@ == given(
                    before.contracts[j],
                    before.path,
                    pipeline,
                ),
            forall|j: int|
                i <= j < file.contracts.len() ==> (#[trigger] file.contracts@[j])@
                    == before.contracts[j],
        decreases file.contracts.len() - i,
    {
        let path = file.path.clone();
        match select_into(&mut file.contracts[i], &path, pipeline, contracts) {
            Err(error) => {
                proof {
                    lemma_file_projects_fails(listed, before, pipeline, i + 1);
                }
                return Err(error);
            },
            Ok(()) => {},
        }
        i += 1;
    }
    assert(file@.contracts =~= Seq::new(
        before.contracts.len(),
        |j: int| given(before.contracts[j], before.path, pipeline),
    ));
    Ok(())
}

/// An error among the first contracts of a file is the error of the file.
pub proof fn lemma_file_projects_fails(
    listed: Seq<crate::project::ContractView>,
    file: FileView,
    pipeline: Pipeline,
    count: int,
)
    requires
        0 <= count <= file.contracts.len(),
        file_projects(listed, file, pipeline, count) is Err,
    ensures
        file_projects(listed, file, pipeline, file.contracts.len() as int) == file_projects(
            listed,
            file,
            pipeline,
            count,
        ),
    decreases file.contracts.len() - count,
{
    if count < file.contracts.len() {
        lemma_file_projects_fails(listed, file, pipeline, count + 1);
    }
}

/// An error among the first files is the error of all.
pub proof fn lemma_projects_fails(files: Seq<FileView>, pipeline: Pipeline, count: int)
    requires
        0 <= count <= files.len(),
        projects(files, pipeline, count) is Err,
    ensures
        projects(files, pipeline, files.len() as int) == projects(files, pipeline, count),
    decreases files.len() - count,
{
    if count < files.len() {
        lemma_projects_fails(files, pipeline, count + 1);
    }
}

fn select_all(files: &mut Vec<File>, pipeline: Pipeline) -> (result: Result<
    Vec<crate::project::Contract>,
    crate::project::Error,
>)
    ensures
        match projects(file_views(old(files)@), pipeline, old(files)@.len() as int) {
            Ok(contracts) => result is Ok && crate::project::contract_views(result->Ok_0@)
                == contracts && crate::project::ordered(contracts) && file_views(final(files)@)
                == all_given(file_views(old(files)@), pipeline),
            Err(error) => result is Err && result->Err_0@ == error,
        },
{
    let ghost before = file_views(files@);
    let mut contracts: Vec<crate::project::Contract> = Vec::new();
    let mut i: usize = 0;
    assert(crate::project::contract_views(contracts@) =~= Seq::<
        crate::project::ContractView,
    >::empty());
    assert(crate::project::paths(Seq::<crate::project::ContractView>::empty()) =~= Seq::<
        Seq<char>,
    >::empty());
    while i < files.len()
        invariant
            i <= files.len(),
            files.len() == before.len(),
            before == file_views(old(files)@),
            projects(before, pipeline, i as int) == Ok::<
                Seq<crate::project::ContractView>,
                crate::project::ErrorView,
            >(crate::project::contract_views(contracts@)),
            crate::project::ordered(crate::project::contract_views(contracts@)),
            forall|j: int|
                0 <= j < i ==> (#[trigger] files@[j])@ == all_given(before, pipeline)[j],
            forall|j: int| i <= j < files.len() ==> (#[trigger] files@[j])@ == before[j],
        decreases files.len() - i,
    {
        match select_file(&mut files[i], pipeline, &mut contracts) {
            Err(error) => {
                proof {
                    lemma_projects_fails(before, pipeline, i + 1);
                }
                return Err(error);
            },
            Ok(()) => {},
        }
        i += 1;
    }
    assert(file_views(files@) =~= all_given(before, pipeline));
    Ok(contracts)
}

fn copy_diagnostics(diagnostics: &Vec<Diagnostic>) -> (copy: Vec<Diagnostic>)
    ensures
        diagnostic_views(copy@) == diagnostic_views(diagnostics@),
{
    let mut copy: Vec<Diagnostic> = Vec::new();
    let mut i: usize = 0;
    while i < diagnostics.len()
        invariant
            i <= diagnostics.len(),
            copy.len() == i,
            forall|j: int| 0 <= j < i ==> copy@[j]@ == diagnostics@[j]@,
        decreases diagnostics.len() - i,
    {
        copy.push(diagnostics[i].clone());
        i += 1;
    }
    assert(diagnostic_views(copy@) =~= diagnostic_views(diagnostics@));
    copy
}

impl Output {
    /// Puts the warnings of the sources behind the errors: see
    /// [`with_warnings`].
    pub fn preprocess_ast(&mut self)
        ensures
            final(self)@ == with_warnings(old(self)@),
            ordered(old(self)@) ==> ordered(final(self)@),
    {
        let messages = match &self.sources {
            Some(sources) => collect_warnings(sources),
            None => {
                return ;
            },
        };
        match &mut self.errors {
            Some(errors) => {
                append_all(errors, messages);
            },
            None => {
                assert(Seq::<DiagnosticView>::empty() + diagnostic_views(messages@)
                    =~= diagnostic_views(messages@));
                self.errors = Some(messages);
            },
        }
    }

    /// Resolves the dependencies of the contracts: see
    /// [`with_dependencies`].
    pub fn preprocess_dependencies(&mut self)
        ensures
            final(self)@ == with_dependencies(old(self)@),
            ordered(old(self)@) ==> ordered(final(self)@),
    {
        proof {
            lemma_dependencies_keep_keys(self@);
            if self@.contracts is Some && ordered(self@) {
                lemma_same_keys_ordered(
                    self@.contracts->0,
                    with_dependencies(self@).contracts->0,
                );
            }
        }
        match &mut self.contracts {
            None => {},
            Some(files) => {
                let ghost before = file_views(files@);
                let mapping = collect_hashes(files);
                let mut i: usize = 0;
                while i < files.len()
                    invariant
                        i <= files.len(),
                        files.len() == before.len(),
                        mapping@ == hash_path_mapping(before, before.len() as int),
                        forall|j: int|
                            0 <= j < i ==> (#[trigger] files@[j])@ == file_level(
                                before[j],
                                mapping@,
                            ),
                        forall|j: int| i <= j < files.len() ==> (#[trigger] files@[j])@ == before[j],
                    decreases files.len() - i,
                {
                    resolve_file(&mut files[i], &mapping);
                    i += 1;
                }
                assert(file_views(files@) =~= Seq::new(
                    before.len(),
                    |i: int| file_level(before[i], hash_path_mapping(before, before.len() as int)),
                ));
            },
        }
    }

    /// Makes the project of the output: the output is prepared, see
    /// [`prepared`]; without contracts there is no project; else each
    /// contract that has a source for the pipeline is taken up, see
    /// [`selected`].
    pub fn try_to_project(
        &mut self,
        libraries: Vec<crate::project::Library>,
        pipeline: Pipeline,
        version: Version,
    ) -> (result: Result<Project, crate::project::Error>)
        ensures
            match prepared(old(self)@, pipeline).contracts {
                None => result is Err && result->Err_0@ == (crate::project::ErrorView::Assembling {
                    errors: prepared(old(self)@, pipeline).errors,
                }) && final(self)@ == prepared(old(self)@, pipeline),
                Some(files) => match projects(files, pipeline, files.len() as int) {
                    Err(error) => result is Err && result->Err_0@ == error,
                    Ok(contracts) => result is Ok && crate::project::contract_views(
                        result->Ok_0.contracts@,
                    ) == contracts && crate::project::ordered(contracts)
                        && result->Ok_0.version == version && result->Ok_0.libraries
                        == libraries && final(self)@ == (OutputView {
                        contracts: Some(all_given(files, pipeline)),
                        ..prepared(old(self)@, pipeline)
                    }),
                },
            },
            result is Ok && ordered(old(self)@) ==> ordered(final(self)@),
    {
        self.preprocess_ast();
        match pipeline {
            Pipeline::EVM => {
                self.preprocess_dependencies();
            },
            Pipeline::Yul => {},
        }
        self.sources = None;
        proof {
            if self@.contracts is Some {
                lemma_given_keep_keys(self@.contracts->0, pipeline);
                if ordered(self@) {
                    lemma_same_keys_ordered(
                        self@.contracts->0,
                        all_given(self@.contracts->0, pipeline),
                    );
                }
            }
        }
        let contracts = match &mut self.contracts {
            Some(files) => select_all(files, pipeline)?,
            None => {
                return Err(
                    crate::project::Error::Assembling {
                        errors: match &self.errors {
                            Some(errors) => Some(copy_diagnostics(errors)),
                            None => None,
                        },
                    },
                );
            },
        };
        Ok(Project::new(version, contracts, libraries))
    }
}

} // verus!
