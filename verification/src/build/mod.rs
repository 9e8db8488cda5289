//! The build of a project: what was compiled of each contract, and where it
//! goes.

use vstd::prelude::*;

use crate::codec::hex_text;
use crate::codec::to_hex;
use crate::evm::mapping::Alias;
use crate::solc::output::alias_views;
use crate::solc::output::file_views;
use crate::solc::output::text_view;
use crate::solc::output::ContractView;
use crate::solc::output::Evm;
use crate::solc::output::EvmView;
use crate::solc::output::File;
use crate::solc::output::FileView;
use crate::solc::output::Output;
use crate::solc::output::OutputView;
use crate::text::ascending;
use crate::text::chars_of;
use crate::text::comes_before;
use crate::text::lemma_put_ascends;
use crate::text::rank;
use crate::text::full_path;
use crate::text::join_path;

verus! {

/// What was compiled of one part of a contract.
#[derive(Debug, PartialEq, Eq)]
pub struct CodeBuild {
    /// The bytecode.
    pub bytecode: Vec<u8>,
    /// The hash of the bytecode.
    pub hash: String,
    /// The contracts that the code creates, by hash.
    pub factory_dependencies: Vec<Alias>,
}

/// What was compiled of a contract.
#[derive(Debug, PartialEq, Eq)]
pub struct Contract {
    /// The full path of the contract.
    pub path: String,
    /// The name of the contract.
    pub name: String,
    /// The build of the deploy code.
    pub deploy_build: CodeBuild,
    /// The build of the runtime code.
    pub runtime_build: CodeBuild,
    /// The assembly of the target, as text.
    pub assembly_text: String,
    /// The interface, as the compiler wrote it.
    pub abi: Option<String>,
}

/// What was compiled of a project.
#[derive(Debug, PartialEq, Eq)]
pub struct Build {
    /// The contracts, by ascending full path: see [`ordered`].
    pub contracts: Vec<Contract>,
}

/// The mathematical value of a [`CodeBuild`].
pub ghost struct CodeBuildView {
    pub bytecode: Seq<u8>,
    pub hash: Seq<char>,
    pub factory_dependencies: Seq<(Seq<char>, Seq<char>)>,
}

impl View for CodeBuild {
    type V = CodeBuildView;

    open spec fn view(&self) -> CodeBuildView {
        CodeBuildView {
            bytecode: self.bytecode@,
            hash: self.hash@,
            factory_dependencies: self.factory_dependencies@.map_values(
                |alias: Alias| (alias.hash@, alias.path@),
            ),
        }
    }
}

/// The mathematical value of a [`Contract`].
pub ghost struct BuildView {
    pub path: Seq<char>,
    pub name: Seq<char>,
    pub deploy_build: CodeBuildView,
    pub runtime_build: CodeBuildView,
    pub assembly_text: Seq<char>,
    pub abi: Option<Seq<char>>,
}

impl View for Contract {
    type V = BuildView;

    open spec fn view(&self) -> BuildView {
        BuildView {
            path: self.path@,
            name: self.name@,
            deploy_build: self.deploy_build@,
            runtime_build: self.runtime_build@,
            assembly_text: self.assembly_text@,
            abi: text_view(self.abi),
        }
    }
}

/// The values of the contracts.
pub open spec fn build_views(contracts: Seq<Contract>) -> Seq<BuildView> {
    contracts.map_values(|contract: Contract| contract@)
}

/// The full paths of the contracts.
pub open spec fn build_paths(contracts: Seq<BuildView>) -> Seq<Seq<char>> {
    contracts.map_values(|contract: BuildView| contract.path)
}

/// The contracts of a build are ordered where their full paths ascend: no
/// full path stands twice. The empty build is ordered and
/// [`Build::insert`] keeps a build ordered; the writers take the contracts
/// in the order in which they stand, and ask for no order.
pub open spec fn ordered(contracts: Seq<BuildView>) -> bool {
    ascending(build_paths(contracts))
}

/// The contracts with one more put in at the place of its full path; a
/// contract of the same full path is replaced.
pub open spec fn put(contracts: Seq<BuildView>, contract: BuildView) -> Seq<BuildView> {
    let at = rank(build_paths(contracts), contract.path, 0);
    if at < contracts.len() && contracts[at].path == contract.path {
        contracts.update(at, contract)
    } else {
        contracts.insert(at, contract)
    }
}

/// Putting a contract in keeps the contracts ordered.
pub proof fn lemma_put_ordered(contracts: Seq<BuildView>, contract: BuildView)
    requires
        ordered(contracts),
    ensures
        ordered(put(contracts, contract)),
{
    let keys = build_paths(contracts);
    let at = rank(keys, contract.path, 0);
    lemma_put_ascends(keys, contract.path);
    if at < contracts.len() && contracts[at].path == contract.path {
        assert(build_paths(contracts.update(at, contract)) =~= keys);
    } else {
        assert(build_paths(contracts.insert(at, contract)) =~= keys.insert(at, contract.path));
    }
}

/// What is written to a file.
#[derive(Debug, PartialEq, Eq)]
pub enum Contents {
    /// A text.
    Text(String),
    /// Bytes.
    Bytes(Vec<u8>),
}

/// The mathematical value of [`Contents`].
pub ghost enum ContentsView {
    Text(Seq<char>),
    Bytes(Seq<u8>),
}

impl View for Contents {
    type V = ContentsView;

    open spec fn view(&self) -> ContentsView {
        match self {
            Contents::Text(text) => ContentsView::Text(text@),
            Contents::Bytes(bytes) => ContentsView::Bytes(bytes@),
        }
    }
}

/// A file that is to be written.
#[derive(Debug, PartialEq, Eq)]
pub struct FileWrite {
    /// The path of the file.
    pub path: String,
    /// What is written.
    pub contents: Contents,
    /// Whether a file that is there already is written over; else it is an
    /// error that one is there.
    pub overwrite: bool,
}

/// The mathematical value of a [`FileWrite`].
pub ghost struct FileWriteView {
    pub path: Seq<char>,
    pub contents: ContentsView,
    pub overwrite: bool,
}

impl View for FileWrite {
    type V = FileWriteView;

    open spec fn view(&self) -> FileWriteView {
        FileWriteView { path: self.path@, contents: self.contents@, overwrite: self.overwrite }
    }
}

/// The values of the writes.
pub open spec fn write_views(writes: Seq<FileWrite>) -> Seq<FileWriteView> {
    writes.map_values(|write: FileWrite| write@)
}

/// The path of a file of a contract in the directory.
pub open spec fn file_path(directory: Seq<char>, name: Seq<char>, extension: Seq<char>) -> Seq<char> {
    directory + seq!['/'] + name + seq!['.'] + extension
}

/// The files of a contract: its assembly as `zasm`, its deploy bytecode as
/// `zbin`, and its interface, if it has one, as `abi`; each where it is
/// asked for, in this order.
pub open spec fn contract_writes(
    contract: BuildView,
    directory: Seq<char>,
    output_assembly: bool,
    output_binary: bool,
    output_abi: bool,
    overwrite: bool,
) -> Seq<FileWriteView> {
    (if output_assembly {
        seq![
            FileWriteView {
                path: file_path(directory, contract.name, "zasm"@),
                contents: ContentsView::Text(contract.assembly_text),
                overwrite,
            },
        ]
    } else {
        Seq::empty()
    }) + (if output_binary {
        seq![
            FileWriteView {
                path: file_path(directory, contract.name, "zbin"@),
                contents: ContentsView::Bytes(contract.deploy_build.bytecode),
                overwrite,
            },
        ]
    } else {
        Seq::empty()
    }) + (if output_abi && contract.abi is Some {
        seq![
            FileWriteView {
                path: file_path(directory, contract.name, "abi"@),
                contents: ContentsView::Text(contract.abi->0),
                overwrite,
            },
        ]
    } else {
        Seq::empty()
    })
}

/// The files of the first `count` contracts, in order.
pub open spec fn all_writes(
    contracts: Seq<BuildView>,
    count: int,
    directory: Seq<char>,
    output_assembly: bool,
    output_binary: bool,
    output_abi: bool,
    overwrite: bool,
) -> Seq<FileWriteView>
    decreases count,
{
    if count <= 0 || count > contracts.len() {
        Seq::empty()
    } else {
        all_writes(
            contracts,
            count - 1,
            directory,
            output_assembly,
            output_binary,
            output_abi,
            overwrite,
        ) + contract_writes(
            contracts[count - 1],
            directory,
            output_assembly,
            output_binary,
            output_abi,
            overwrite,
        )
    }
}

fn path_in(directory: &str, name: &str, extension: &str) -> (path: String)
    ensures
        path@ == file_path(directory@, name@, extension@),
{
    let mut path = directory.to_owned();
    path.push('/');
    path.append(name);
    path.push('.');
    path.append(extension);
    assert(path@ =~= file_path(directory@, name@, extension@));
    path
}

/// A contract of the combined JSON of the Solidity compiler.
#[derive(Debug, PartialEq, Eq)]
pub struct CombinedContract {
    /// The path under which the contract stands.
    pub path: String,
    /// The deploy bytecode, in hexadecimal.
    pub bin: Option<String>,
    /// The runtime bytecode, in hexadecimal.
    pub bin_runtime: Option<String>,
    /// The contracts that the contract creates, by hash.
    pub factory_deps: Option<Vec<Alias>>,
}

/// The combined JSON of the Solidity compiler.
#[derive(Debug, PartialEq, Eq)]
pub struct CombinedJson {
    /// The contracts, by ascending path: see [`combined_ordered`].
    pub contracts: Vec<CombinedContract>,
}

/// The mathematical value of a [`CombinedContract`].
pub ghost struct CombinedView {
    pub path: Seq<char>,
    pub bin: Option<Seq<char>>,
    pub bin_runtime: Option<Seq<char>>,
    pub factory_deps: Option<Seq<(Seq<char>, Seq<char>)>>,
}

impl View for CombinedContract {
    type V = CombinedView;

    open spec fn view(&self) -> CombinedView {
        CombinedView {
            path: self.path@,
            bin: text_view(self.bin),
            bin_runtime: text_view(self.bin_runtime),
            factory_deps: alias_views(self.factory_deps),
        }
    }
}

/// The values of the contracts.
pub open spec fn combined_views(contracts: Seq<CombinedContract>) -> Seq<CombinedView> {
    contracts.map_values(|contract: CombinedContract| contract@)
}

/// The paths under which the contracts stand.
pub open spec fn combined_paths(contracts: Seq<CombinedView>) -> Seq<Seq<char>> {
    contracts.map_values(|contract: CombinedView| contract.path)
}

/// The contracts of a combined JSON are ordered where their paths ascend:
/// no path stands twice. Writing a build changes no path, so it keeps them
/// ordered; it asks for no order.
pub open spec fn combined_ordered(contracts: Seq<CombinedView>) -> bool {
    ascending(combined_paths(contracts))
}

/// A contract of a build that no contract of the combined JSON stands for.
#[derive(Debug, PartialEq, Eq)]
pub struct NotFound {
    /// The full path of the contract.
    pub path: String,
}

/// Whether the text ends with the suffix.
pub open spec fn ends_with(text: Seq<char>, suffix: Seq<char>) -> bool {
    suffix.len() <= text.len() && text.subrange(text.len() - suffix.len(), text.len() as int)
        == suffix
}

/// The index of the first of the contracts, at or behind `from`, whose path
/// the full path ends with.
pub open spec fn combined_of(contracts: Seq<CombinedView>, path: Seq<char>, from: int) -> Option<int>
    decreases contracts.len() - from,
{
    if 0 <= from < contracts.len() {
        if ends_with(path, contracts[from].path) {
            Some(from)
        } else {
            combined_of(contracts, path, from + 1)
        }
    } else {
        None
    }
}

/// The contract of the combined JSON with the build written to it: both
/// bytecodes in hexadecimal, and the contracts that the deploy code
/// creates.
pub open spec fn combined_written(contract: CombinedView, build: BuildView) -> CombinedView {
    CombinedView {
        path: contract.path,
        bin: Some(hex_text(build.deploy_build.bytecode)),
        bin_runtime: Some(hex_text(build.runtime_build.bytecode)),
        factory_deps: Some(build.deploy_build.factory_dependencies),
    }
}

/// The contracts of the combined JSON with the first `count` builds
/// written to them, each to the first contract whose path its full path
/// ends with; or the full path of the first build that none stands for.
pub open spec fn all_combined(contracts: Seq<CombinedView>, builds: Seq<BuildView>, count: int) -> Result<
    Seq<CombinedView>,
    Seq<char>,
>
    decreases count,
{
    if count <= 0 || count > builds.len() {
        Ok(contracts)
    } else {
        match all_combined(contracts, builds, count - 1) {
            Err(path) => Err(path),
            Ok(before) => match combined_of(before, builds[count - 1].path, 0) {
                None => Err(builds[count - 1].path),
                Some(index) => Ok(
                    before.update(index, combined_written(before[index], builds[count - 1])),
                ),
            },
        }
    }
}

/// The contracts of the combined JSON with as many of the first `count`
/// builds written to them as there are before the first that none stands
/// for; with all of them, where every one has a contract.
pub open spec fn combined_so_far(
    contracts: Seq<CombinedView>,
    builds: Seq<BuildView>,
    count: int,
) -> Seq<CombinedView>
    decreases count,
{
    if count <= 0 || count > builds.len() {
        contracts
    } else {
        match all_combined(contracts, builds, count) {
            Ok(written) => written,
            Err(_) => combined_so_far(contracts, builds, count - 1),
        }
    }
}

/// Behind the first build that no contract stands for, the error and what
/// is written stay as they are there.
pub proof fn lemma_all_combined_fails(
    contracts: Seq<CombinedView>,
    builds: Seq<BuildView>,
    failing: int,
    count: int,
)
    requires
        0 < failing <= count <= builds.len(),
        all_combined(contracts, builds, failing) is Err,
        all_combined(contracts, builds, failing - 1) is Ok,
    ensures
        all_combined(contracts, builds, count) == all_combined(contracts, builds, failing),
        combined_so_far(contracts, builds, count) == all_combined(
            contracts,
            builds,
            failing - 1,
        )->Ok_0,
    decreases count - failing,
{
    if failing < count {
        lemma_all_combined_fails(contracts, builds, failing, count - 1);
    } else {
        assert(combined_so_far(contracts, builds, count) == combined_so_far(
            contracts,
            builds,
            count - 1,
        ));
        if count - 1 > 0 {
            assert(combined_so_far(contracts, builds, count - 1) == all_combined(
                contracts,
                builds,
                count - 1,
            )->Ok_0);
        } else {
            assert(all_combined(contracts, builds, 0) == Ok::<Seq<CombinedView>, Seq<char>>(
                contracts,
            ));
        }
    }
}

fn text_ends_with(text: &String, suffix: &String) -> (yes: bool)
    ensures
        yes == ends_with(text@, suffix@),
{
    let whole = chars_of(text.as_str());
    let end = chars_of(suffix.as_str());
    if end.len() > whole.len() {
        return false;
    }
    let start = whole.len() - end.len();
    let mut i: usize = 0;
    while i < end.len()
        invariant
            i <= end.len(),
            whole@ == text@,
            end@ == suffix@,
            start + end.len() == whole.len(),
            forall|j: int| 0 <= j < i ==> whole@[start + j] == end@[j],
        decreases end.len() - i,
    {
        if whole[start + i] != end[i] {
            assert(whole@.subrange(start as int, whole@.len() as int)[i as int] != end@[i as int]);
            return false;
        }
        i += 1;
    }
    assert(whole@.subrange(start as int, whole@.len() as int) =~= end@);
    true
}

fn find_combined(contracts: &Vec<CombinedContract>, path: &String) -> (index: Option<usize>)
    ensures
        match combined_of(combined_views(contracts@), path@, 0) {
            Some(at) => index == Some(at as usize) && 0 <= at < contracts.len(),
            None => index is None,
        },
{
    let ghost views = combined_views(contracts@);
    let mut i: usize = 0;
    while i < contracts.len()
        invariant
            i <= contracts.len(),
            views == combined_views(contracts@),
            combined_of(views, path@, 0) == combined_of(views, path@, i as int),
        decreases contracts.len() - i,
    {
        assert(views[i as int] == contracts@[i as int]@);
        if text_ends_with(path, &contracts[i].path) {
            return Some(i);
        }
        i += 1;
    }
    None
}

fn copy_aliases(aliases: &Vec<Alias>) -> (copy: Vec<Alias>)
    ensures
        copy@.map_values(|alias: Alias| (alias.hash@, alias.path@)) == aliases@.map_values(
            |alias: Alias| (alias.hash@, alias.path@),
        ),
{
    let mut copy: Vec<Alias> = Vec::new();
    let mut i: usize = 0;
    while i < aliases.len()
        invariant
            i <= aliases.len(),
            copy.len() == i,
            forall|j: int|
                0 <= j < i ==> copy@[j].hash@ == aliases@[j].hash@ && copy@[j].path@
                    == aliases@[j].path@,
        decreases aliases.len() - i,
    {
        copy.push(Alias { hash: aliases[i].hash.clone(), path: aliases[i].path.clone() });
        i += 1;
    }
    assert(copy@.map_values(|alias: Alias| (alias.hash@, alias.path@)) =~= aliases@.map_values(
        |alias: Alias| (alias.hash@, alias.path@),
    ));
    copy
}

impl Contract {
    /// Writes the build to the contract of the combined JSON: see
    /// [`combined_written`].
    pub fn write_to_combined_json(&self, combined: &mut CombinedContract)
        ensures
            final(combined)@ == combined_written(old(combined)@, self@),
    {
        combined.bin = Some(to_hex(&self.deploy_build.bytecode));
        combined.bin_runtime = Some(to_hex(&self.runtime_build.bytecode));
        combined.factory_deps = Some(copy_aliases(&self.deploy_build.factory_dependencies));
    }

    /// The files of the contract: see [`contract_writes`].
    pub fn write_to_directory(
        &self,
        output_directory: &str,
        output_assembly: bool,
        output_binary: bool,
        output_abi: bool,
        overwrite: bool,
        writes: &mut Vec<FileWrite>,
    )
        ensures
            write_views(final(writes)@) == write_views(old(writes)@) + contract_writes(
                self@,
                output_directory@,
                output_assembly,
                output_binary,
                output_abi,
                overwrite,
            ),
    {
        let ghost before = write_views(writes@);
        if output_assembly {
            writes.push(
                FileWrite {
                    path: path_in(output_directory, self.name.as_str(), "zasm"),
                    contents: Contents::Text(self.assembly_text.clone()),
                    overwrite,
                },
            );
        }
        if output_binary {
            let mut bytes: Vec<u8> = Vec::new();
            let mut i: usize = 0;
            while i < self.deploy_build.bytecode.len()
                invariant
                    i <= self.deploy_build.bytecode.len(),
                    bytes@ == self.deploy_build.bytecode@.take(i as int),
                decreases self.deploy_build.bytecode.len() - i,
            {
                bytes.push(self.deploy_build.bytecode[i]);
                i += 1;
                assert(bytes@ =~= self.deploy_build.bytecode@.take(i as int));
            }
            assert(self.deploy_build.bytecode@.take(i as int) =~= self.deploy_build.bytecode@);
            writes.push(
                FileWrite {
                    path: path_in(output_directory, self.name.as_str(), "zbin"),
                    contents: Contents::Bytes(bytes),
                    overwrite,
                },
            );
        }
        if output_abi {
            match &self.abi {
                Some(abi) => {
                    writes.push(
                        FileWrite {
                            path: path_in(output_directory, self.name.as_str(), "abi"),
                            contents: Contents::Text(abi.clone()),
                            overwrite,
                        },
                    );
                },
                None => {},
            }
        }
        assert(write_views(writes@) =~= before + contract_writes(
            self@,
            output_directory@,
            output_assembly,
            output_binary,
            output_abi,
            overwrite,
        ));
    }
}

impl Default for Build {
    fn default() -> (build: Build)
        ensures
            build.contracts@.len() == 0,
            ordered(build_views(build.contracts@)),
    {
        let build = Build { contracts: Vec::new() };
        assert(build_paths(build_views(build.contracts@)) =~= Seq::<Seq<char>>::empty());
        build
    }
}

impl Build {
    /// Puts a contract into the build at the place of its full path; a
    /// contract of the same full path is replaced: see [`put`]. An ordered
    /// build stays ordered.
    pub fn insert(&mut self, contract: Contract)
        ensures
            build_views(final(self).contracts@) == put(build_views(old(self).contracts@), contract@),
            ordered(build_views(old(self).contracts@)) ==> ordered(
                build_views(final(self).contracts@),
            ),
    {
        let ghost before = build_views(self.contracts@);
        let ghost keys = build_paths(before);
        let mut at: usize = 0;
        while at < self.contracts.len() && comes_before(
            self.contracts[at].path.as_str(),
            contract.path.as_str(),
        )
            invariant
                at <= self.contracts.len(),
                *self == *old(self),
                before == build_views(self.contracts@),
                keys == build_paths(before),
                rank(keys, contract@.path, 0) == rank(keys, contract@.path, at as int),
            decreases self.contracts.len() - at,
        {
            assert(keys[at as int] == self.contracts@[at as int].path@);
            at += 1;
        }
        proof {
            if at < self.contracts.len() {
                assert(keys[at as int] == self.contracts@[at as int].path@);
            }
            if ordered(before) {
                lemma_put_ordered(before, contract@);
            }
        }
        if at < self.contracts.len() && self.contracts[at].path == contract.path {
            self.contracts.set(at, contract);
            assert(build_views(self.contracts@) =~= before.update(at as int, contract@));
        } else {
            self.contracts.insert(at, contract);
            assert(build_views(self.contracts@) =~= before.insert(at as int, contract@));
        }
    }

    /// The build of the contracts.
    pub fn new(contracts: Vec<Contract>) -> (build: Build)
        ensures
            build.contracts == contracts,
    {
        Build { contracts }
    }

    /// The files that the build is written to in the directory: see
    /// [`all_writes`].
    pub fn write_to_directory(
        self,
        output_directory: &str,
        output_assembly: bool,
        output_binary: bool,
        output_abi: bool,
        overwrite: bool,
    ) -> (writes: Vec<FileWrite>)
        ensures
            write_views(writes@) == all_writes(
                build_views(self.contracts@),
                self.contracts@.len() as int,
                output_directory@,
                output_assembly,
                output_binary,
                output_abi,
                overwrite,
            ),
    {
        let mut writes: Vec<FileWrite> = Vec::new();
        let mut i: usize = 0;
        assert(write_views(writes@) =~= Seq::<FileWriteView>::empty());
        while i < self.contracts.len()
            invariant
                i <= self.contracts.len(),
                write_views(writes@) == all_writes(
                    build_views(self.contracts@),
                    i as int,
                    output_directory@,
                    output_assembly,
                    output_binary,
                    output_abi,
                    overwrite,
                ),
            decreases self.contracts.len() - i,
        {
            assert(build_views(self.contracts@)[i as int] == self.contracts@[i as int]@);
            self.contracts[i].write_to_directory(
                output_directory,
                output_assembly,
                output_binary,
                output_abi,
                overwrite,
                &mut writes,
            );
            i += 1;
        }
        writes
    }

    /// Writes the build to the combined JSON: see [`all_combined`]. Where a
    /// build has no contract there, the builds before it are written, and
    /// nothing else is changed: see [`combined_so_far`].
    pub fn write_to_combined_json(self, combined_json: &mut CombinedJson) -> (result: Result<
        (),
        NotFound,
    >)
        ensures
            match all_combined(
                combined_views(old(combined_json).contracts@),
                build_views(self.contracts@),
                self.contracts@.len() as int,
            ) {
                Ok(contracts) => result is Ok && combined_views(final(combined_json).contracts@)
                    == contracts,
                Err(path) => result is Err && result->Err_0.path@ == path,
            },
            combined_views(final(combined_json).contracts@) == combined_so_far(
                combined_views(old(combined_json).contracts@),
                build_views(self.contracts@),
                self.contracts@.len() as int,
            ),
            combined_paths(combined_views(final(combined_json).contracts@)) == combined_paths(
                combined_views(old(combined_json).contracts@),
            ),
    {
        let ghost start = combined_views(combined_json.contracts@);
        let ghost builds = build_views(self.contracts@);
        let mut i: usize = 0;
        while i < self.contracts.len()
            invariant
                i <= self.contracts.len(),
                start == combined_views(old(combined_json).contracts@),
                builds == build_views(self.contracts@),
                all_combined(start, builds, i as int) == Ok::<Seq<CombinedView>, Seq<char>>(
                    combined_views(combined_json.contracts@),
                ),
                combined_paths(combined_views(combined_json.contracts@)) == combined_paths(start),
            decreases self.contracts.len() - i,
        {
            let ghost before = combined_views(combined_json.contracts@);
            assert(builds[i as int] == self.contracts@[i as int]@);
            match find_combined(&combined_json.contracts, &self.contracts[i].path) {
                None => {
                    proof {
                        lemma_all_combined_fails(start, builds, i + 1, builds.len() as int);
                    }
                    return Err(NotFound { path: self.contracts[i].path.clone() });
                },
                Some(index) => {
                    self.contracts[i].write_to_combined_json(&mut combined_json.contracts[index]);
                    assert(combined_views(combined_json.contracts@) =~= before.update(
                        index as int,
                        combined_written(before[index as int], builds[i as int]),
                    ));
                    assert(combined_paths(combined_views(combined_json.contracts@))
                        =~= combined_paths(before));
                },
            }
            i += 1;
        }
        Ok(())
    }
}

/// The index of the first of the builds, at or behind `from`, of the full
/// path.
pub open spec fn build_of(builds: Seq<BuildView>, path: Seq<char>, from: int) -> Option<int>
    decreases builds.len() - from,
{
    if 0 <= from < builds.len() {
        if builds[from].path == path {
            Some(from)
        } else {
            build_of(builds, path, from + 1)
        }
    } else {
        None
    }
}

/// The contract of the output with the build written to it: it loses its
/// Yul; its EVM part holds the bytecodes in hexadecimal and nothing else;
/// and it gets the hashes and the created contracts of both codes.
pub open spec fn standard_written(contract: ContractView, build: BuildView) -> ContractView {
    ContractView {
        ir_optimized: None,
        evm: Some(
            EvmView {
                assembly: None,
                bytecode: Some(hex_text(build.deploy_build.bytecode)),
                deployed_bytecode: Some(hex_text(build.runtime_build.bytecode)),
            },
        ),
        deploy_hash: Some(build.deploy_build.hash),
        deploy_factory_dependencies: Some(build.deploy_build.factory_dependencies),
        runtime_hash: Some(build.runtime_build.hash),
        runtime_factory_dependencies: Some(build.runtime_build.factory_dependencies),
        ..contract
    }
}

/// The contract of the output with its build written to it, if one of the
/// builds is of its full path; and the builds that are left.
pub open spec fn write_contract(contract: ContractView, path: Seq<char>, builds: Seq<BuildView>) -> (
    ContractView,
    Seq<BuildView>,
) {
    match build_of(builds, full_path(path, contract.name), 0) {
        Some(index) => (standard_written(contract, builds[index]), builds.remove(index)),
        None => (contract, builds),
    }
}

/// The first `count` contracts of a file with their builds written to
/// them, and the builds that are left.
pub open spec fn write_contracts(
    contracts: Seq<ContractView>,
    path: Seq<char>,
    builds: Seq<BuildView>,
    count: int,
) -> (Seq<ContractView>, Seq<BuildView>)
    decreases count,
{
    if count <= 0 || count > contracts.len() {
        (Seq::empty(), builds)
    } else {
        let (before, left) = write_contracts(contracts, path, builds, count - 1);
        let (written, rest) = write_contract(contracts[count - 1], path, left);
        (before.push(written), rest)
    }
}

/// The first `count` files with the builds written to their contracts, and
/// the builds that are left.
pub open spec fn write_files(files: Seq<FileView>, builds: Seq<BuildView>, count: int) -> (
    Seq<FileView>,
    Seq<BuildView>,
)
    decreases count,
{
    if count <= 0 || count > files.len() {
        (Seq::empty(), builds)
    } else {
        let (before, left) = write_files(files, builds, count - 1);
        let (written, rest) = write_contracts(
            files[count - 1].contracts,
            files[count - 1].path,
            left,
            files[count - 1].contracts.len() as int,
        );
        (before.push(FileView { path: files[count - 1].path, contracts: written }), rest)
    }
}

/// Writing the builds changes no name of a contract.
pub proof fn lemma_write_contracts_names(
    contracts: Seq<ContractView>,
    path: Seq<char>,
    builds: Seq<BuildView>,
    count: int,
)
    requires
        0 <= count <= contracts.len(),
    ensures
        crate::solc::output::contract_names(write_contracts(contracts, path, builds, count).0)
            == crate::solc::output::contract_names(contracts.take(count)),
    decreases count,
{
    if count > 0 {
        lemma_write_contracts_names(contracts, path, builds, count - 1);
        let before = write_contracts(contracts, path, builds, count - 1);
        let written = write_contract(contracts[count - 1], path, before.1).0;
        assert(written.name == contracts[count - 1].name);
        assert(crate::solc::output::contract_names(before.0.push(written))
            =~= crate::solc::output::contract_names(before.0).push(written.name));
        assert(crate::solc::output::contract_names(contracts.take(count))
            =~= crate::solc::output::contract_names(contracts.take(count - 1)).push(
            contracts[count - 1].name,
        ));
    } else {
        assert(crate::solc::output::contract_names(
            write_contracts(contracts, path, builds, count).0,
        ) =~= crate::solc::output::contract_names(contracts.take(count)));
    }
}

/// Writing the builds changes no path of a file and no name of a contract.
pub proof fn lemma_write_files_keys(files: Seq<FileView>, builds: Seq<BuildView>, count: int)
    requires
        0 <= count <= files.len(),
    ensures
        crate::solc::output::same_keys(files.take(count), write_files(files, builds, count).0),
    decreases count,
{
    if count > 0 {
        lemma_write_files_keys(files, builds, count - 1);
        let before = write_files(files, builds, count - 1);
        let file = files[count - 1];
        lemma_write_contracts_names(
            file.contracts,
            file.path,
            before.1,
            file.contracts.len() as int,
        );
        assert(file.contracts.take(file.contracts.len() as int) =~= file.contracts);
        let after = write_files(files, builds, count).0;
        assert forall|i: int| 0 <= i < count implies (#[trigger] files.take(count)[i]).path
            == after[i].path && crate::solc::output::contract_names(files.take(count)[i].contracts)
            == crate::solc::output::contract_names(after[i].contracts) by {
            if i < count - 1 {
                assert(files.take(count - 1)[i] == files[i]);
                assert(after[i] == before.0[i]);
            }
        }
    }
}

fn find_build(builds: &Vec<Contract>, path: &String) -> (index: Option<usize>)
    ensures
        match build_of(build_views(builds@), path@, 0) {
            Some(at) => index == Some(at as usize) && 0 <= at < builds.len(),
            None => index is None,
        },
{
    let ghost views = build_views(builds@);
    let mut i: usize = 0;
    while i < builds.len()
        invariant
            i <= builds.len(),
            views == build_views(builds@),
            build_of(views, path@, 0) == build_of(views, path@, i as int),
        decreases builds.len() - i,
    {
        assert(views[i as int] == builds@[i as int]@);
        if builds[i].path == *path {
            return Some(i);
        }
        i += 1;
    }
    None
}

fn write_standard(contract: &mut crate::solc::output::Contract, path: &String, builds: &mut Vec<Contract>)
    ensures
        (final(contract)@, build_views(final(builds)@)) == write_contract(
            old(contract)@,
            path@,
            build_views(old(builds)@),
        ),
{
    let ghost before = build_views(builds@);
    let full_name = join_path(path.as_str(), contract.name.as_str());
    match find_build(builds, &full_name) {
        None => {},
        Some(index) => {
            let data = builds.remove(index);
            assert(build_views(builds@) =~= before.remove(index as int));
            assert(data@ == before[index as int]);
            let deploy_bytecode = to_hex(&data.deploy_build.bytecode);
            let runtime_bytecode = to_hex(&data.runtime_build.bytecode);
            contract.ir_optimized = None;
            contract.evm = Some(Evm::new_zkevm_bytecode(deploy_bytecode, runtime_bytecode));
            contract.deploy_hash = Some(data.deploy_build.hash);
            contract.deploy_factory_dependencies = Some(data.deploy_build.factory_dependencies);
            contract.runtime_hash = Some(data.runtime_build.hash);
            contract.runtime_factory_dependencies = Some(data.runtime_build.factory_dependencies);
        },
    }
}

fn write_standard_file(file: &mut File, builds: &mut Vec<Contract>)
    ensures
        (final(file)@.contracts, build_views(final(builds)@)) == write_contracts(
            old(file)@.contracts,
            old(file)@.path,
            build_views(old(builds)@),
            old(file)@.contracts.len() as int,
        ),
        final(file)@.path == old(file)@.path,
{
    let ghost before = file@;
    let ghost start = build_views(builds@);
    let mut i: usize = 0;
    while i < file.contracts.len()
        invariant
            i <= file.contracts.len(),
            file.path == old(file).path,
            file.contracts.len() == before.contracts.len(),
            before == old(file)@,
            start == build_views(old(builds)@),
            write_contracts(before.contracts, before.path, start, i as int).1 == build_views(
                builds@,
            ),
            write_contracts(before.contracts, before.path, start, i as int).0
                == file@.contracts.take(i as int),
            forall|j: int|
                i <= j < file.contracts.len() ==> (#[trigger] file.contracts@[j])@
                    == before.contracts[j],
        decreases file.contracts.len() - i,
    {
        let path = file.path.clone();
        let ghost taken = file@.contracts.take(i as int);
        write_standard(&mut file.contracts[i], &path, builds);
        i += 1;
        assert(file@.contracts.take(i as int) =~= taken.push(file.contracts@[i - 1]@));
    }
    assert(file@.contracts.take(i as int) =~= file@.contracts);
}

impl Build {
    /// Writes the build to the output of the compiler: each contract of the
    /// output takes the build of its full path: see [`write_files`].
    pub fn write_to_standard_json(self, standard_json: &mut Output)
        ensures
            final(standard_json)@ == (OutputView {
                contracts: match old(standard_json)@.contracts {
                    Some(files) => Some(
                        write_files(files, build_views(self.contracts@), files.len() as int).0,
                    ),
                    None => None,
                },
                ..old(standard_json)@
            }),
            crate::solc::output::ordered(old(standard_json)@) ==> crate::solc::output::ordered(
                final(standard_json)@,
            ),
    {
        proof {
            match standard_json@.contracts {
                Some(files) => {
                    lemma_write_files_keys(
                        files,
                        build_views(self.contracts@),
                        files.len() as int,
                    );
                    assert(files.take(files.len() as int) =~= files);
                    if crate::solc::output::ordered(standard_json@) {
                        crate::solc::output::lemma_same_keys_ordered(
                            files,
                            write_files(files, build_views(self.contracts@), files.len() as int).0,
                        );
                    }
                },
                None => {},
            }
        }
        let mut builds = self.contracts;
        match &mut standard_json.contracts {
            None => {},
            Some(files) => {
                let ghost before = file_views(files@);
                let ghost start = build_views(builds@);
                let mut i: usize = 0;
                while i < files.len()
                    invariant
                        i <= files.len(),
                        files.len() == before.len(),
                        write_files(before, start, i as int).1 == build_views(builds@),
                        write_files(before, start, i as int).0 == file_views(files@).take(i as int),
                        forall|j: int| i <= j < files.len() ==> (#[trigger] files@[j])@ == before[j],
                    decreases files.len() - i,
                {
                    let ghost taken = file_views(files@).take(i as int);
                    write_standard_file(&mut files[i], &mut builds);
                    i += 1;
                    assert(file_views(files@).take(i as int) =~= taken.push(files@[i - 1]@));
                }
                assert(file_views(files@).take(i as int) =~= file_views(files@));
            },
        }
    }
}

} // verus!
