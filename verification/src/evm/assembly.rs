//! The assembly of a contract as the Solidity compiler gives it: the deploy
//! code, and the data under it, of which the entry `0` is the assembly of
//! the runtime code.

use vstd::prelude::*;

use crate::codec::hex_text;
use crate::codec::keccak256;
use crate::codec::keccak256_hex;
use crate::evm::instruction::name::Name;
use crate::evm::instruction::Instruction;
use crate::evm::instruction::InstructionView;
use crate::evm::mapping::HashPathMapping;
use crate::text::decimal_text;
use crate::text::to_decimal;

verus! {

/// What stands under a key of the data of an assembly.
#[derive(Debug, PartialEq, Eq)]
pub enum Data {
    /// The assembly of a contract.
    Assembly(Assembly),
    /// A hash or other literal data, in hexadecimal.
    Hash(String),
    /// The full path of a contract.
    Path(String),
}

/// An entry of the data of an assembly.
#[derive(Debug, PartialEq, Eq)]
pub struct DataEntry {
    /// The key.
    pub key: String,
    /// The value.
    pub value: Data,
}

/// The assembly of a contract.
#[derive(Debug, PartialEq, Eq)]
pub struct Assembly {
    /// The instructions of the code.
    pub code: Option<Vec<Instruction>>,
    /// The data, by key.
    pub data: Option<Vec<DataEntry>>,
    /// The full path of the contract, once it is set.
    pub full_path: Option<String>,
    /// The assembly as the compiler wrote it: the bytes that its hash is
    /// taken of.
    pub json: Vec<u8>,
}

/// The mathematical value of [`Data`].
pub ghost enum DataView {
    Assembly(AssemblyView),
    Hash(Seq<char>),
    Path(Seq<char>),
}

/// The mathematical value of a [`DataEntry`].
pub ghost struct DataEntryView {
    pub key: Seq<char>,
    pub value: DataView,
}

/// The mathematical value of an [`Assembly`].
pub ghost struct AssemblyView {
    pub code: Option<Seq<InstructionView>>,
    pub data: Option<Seq<DataEntryView>>,
    pub full_path: Option<Seq<char>>,
    pub json: Seq<u8>,
}

/// The values of the instructions.
pub open spec fn instruction_views(instructions: Seq<Instruction>) -> Seq<InstructionView> {
    instructions.map_values(|instruction: Instruction| instruction@)
}

/// The value of an assembly.
pub open spec fn assembly_view(assembly: Assembly) -> AssemblyView
    decreases assembly,
{
    AssemblyView {
        code: match assembly.code {
            Some(code) => Some(instruction_views(code@)),
            None => None,
        },
        data: match assembly.data {
            Some(data) => Some(
                Seq::new(
                    data@.len(),
                    |i: int|
                        if 0 <= i < data@.len() {
                            DataEntryView { key: data@[i].key@, value: data_view(data@[i].value) }
                        } else {
                            DataEntryView { key: Seq::empty(), value: DataView::Hash(Seq::empty()) }
                        },
                ),
            ),
            None => None,
        },
        full_path: match assembly.full_path {
            Some(path) => Some(path@),
            None => None,
        },
        json: assembly.json@,
    }
}

/// The value of a datum.
pub open spec fn data_view(data: Data) -> DataView
    decreases data,
{
    match data {
        Data::Assembly(assembly) => DataView::Assembly(assembly_view(assembly)),
        Data::Hash(hash) => DataView::Hash(hash@),
        Data::Path(path) => DataView::Path(path@),
    }
}

impl View for Assembly {
    type V = AssemblyView;

    open spec fn view(&self) -> AssemblyView {
        assembly_view(*self)
    }
}

impl View for Data {
    type V = DataView;

    open spec fn view(&self) -> DataView {
        data_view(*self)
    }
}

impl View for DataEntry {
    type V = DataEntryView;

    open spec fn view(&self) -> DataEntryView {
        DataEntryView { key: self.key@, value: self.value@ }
    }
}

/// The values of the entries.
pub open spec fn entry_views(entries: Seq<DataEntry>) -> Seq<DataEntryView> {
    entries.map_values(|entry: DataEntry| entry@)
}

/// The value of an assembly is made of the values of its parts.
pub proof fn lemma_assembly_view(assembly: Assembly)
    ensures
        assembly@.code == (match assembly.code {
            Some(code) => Some(instruction_views(code@)),
            None => None,
        }),
        assembly@.data == (match assembly.data {
            Some(data) => Some(entry_views(data@)),
            None => None,
        }),
        assembly@.full_path == (match assembly.full_path {
            Some(path) => Some(path@),
            None => None,
        }),
        assembly@.json == assembly.json@,
{
    match assembly.data {
        Some(data) => {
            assert(assembly@.data->0 =~= entry_views(data@));
        },
        None => {},
    }
}

/// The instruction with its reference resolved: a `PUSH_Data` or a
/// `PUSH_ContractHash` whose immediate is a hash of the mapping gets the
/// path that the hash stands for. Any other instruction is as it was.
pub open spec fn resolved(
    instruction: InstructionView,
    mapping: Map<Seq<char>, Seq<char>>,
) -> InstructionView {
    if (instruction.name == Name::PUSH_Data || instruction.name == Name::PUSH_ContractHash)
        && instruction.value is Some && mapping.dom().contains(instruction.value->0) {
        InstructionView { name: instruction.name, value: Some(mapping[instruction.value->0]) }
    } else {
        instruction
    }
}

/// The instructions with their references resolved.
pub open spec fn all_resolved(
    instructions: Seq<InstructionView>,
    mapping: Map<Seq<char>, Seq<char>>,
) -> Seq<InstructionView> {
    Seq::new(instructions.len(), |i: int| resolved(instructions[i], mapping))
}

/// The immediates of the labels of the instructions up to the given
/// number, in order.
pub open spec fn labels(instructions: Seq<InstructionView>, count: int) -> Seq<Seq<char>>
    decreases count,
{
    if count <= 0 || count > instructions.len() {
        Seq::empty()
    } else if instructions[count - 1].name == Name::Tag && instructions[count - 1].value is Some {
        labels(instructions, count - 1).push(instructions[count - 1].value->0)
    } else {
        labels(instructions, count - 1)
    }
}

/// The index of the first of the labels, at or behind `from`, that bears
/// the immediate.
pub open spec fn first_place(tags: Seq<Seq<char>>, value: Seq<char>, from: int) -> Option<int>
    decreases tags.len() - from,
{
    if 0 <= from < tags.len() {
        if tags[from] == value {
            Some(from)
        } else {
            first_place(tags, value, from + 1)
        }
    } else {
        None
    }
}

/// The dense label of an immediate: the place of the first label that bears
/// it, counted from 1.
pub open spec fn dense(tags: Seq<Seq<char>>, value: Seq<char>) -> Option<nat> {
    match first_place(tags, value, 0) {
        Some(place) => Some((place + 1) as nat),
        None => None,
    }
}

/// The first place of an immediate lies among the labels.
pub proof fn lemma_first_place(tags: Seq<Seq<char>>, value: Seq<char>, from: int)
    requires
        0 <= from,
    ensures
        first_place(tags, value, from) matches Some(place) ==> from <= place < tags.len(),
    decreases tags.len() - from,
{
    if from < tags.len() && tags[from] != value {
        lemma_first_place(tags, value, from + 1);
    }
}

/// The instruction with its label made dense: a `Tag` or a `PUSH_Tag` whose
/// immediate is that of a label of the code gets the dense label, in
/// decimal. Any other instruction is as it was.
pub open spec fn relabeled(instruction: InstructionView, tags: Seq<Seq<char>>) -> InstructionView {
    if (instruction.name == Name::Tag || instruction.name == Name::PUSH_Tag) && instruction.value
        is Some && dense(tags, instruction.value->0) is Some {
        InstructionView {
            name: instruction.name,
            value: Some(decimal_text(dense(tags, instruction.value->0)->0)),
        }
    } else {
        instruction
    }
}

/// The code with dense labels.
pub open spec fn all_relabeled(instructions: Seq<InstructionView>) -> Seq<InstructionView> {
    Seq::new(
        instructions.len(),
        |i: int| relabeled(instructions[i], labels(instructions, instructions.len() as int)),
    )
}

fn find_label(tags: &Vec<String>, value: &String) -> (place: Option<usize>)
    ensures
        match dense(tags@.map_values(|tag: String| tag@), value@) {
            Some(label) => place == Some((label - 1) as usize) && 0 < label <= tags.len(),
            None => place is None,
        },
{
    let ghost views = tags@.map_values(|tag: String| tag@);
    let mut i: usize = 0;
    proof {
        lemma_first_place(views, value@, 0);
    }
    while i < tags.len()
        invariant
            i <= tags.len(),
            views == tags@.map_values(|tag: String| tag@),
            first_place(views, value@, 0) == first_place(views, value@, i as int),
        decreases tags.len() - i,
    {
        assert(views[i as int] == tags@[i as int]@);
        if tags[i] == *value {
            return Some(i);
        }
        i += 1;
    }
    None
}

/// The index of the first entry, at or behind `from`, of the key `0`.
pub open spec fn runtime_entry(entries: Seq<DataEntryView>, from: int) -> Option<int>
    decreases entries.len() - from,
{
    if 0 <= from < entries.len() {
        if entries[from].key == "0"@ {
            Some(from)
        } else {
            runtime_entry(entries, from + 1)
        }
    } else {
        None
    }
}

fn is_runtime_key(key: &String) -> (yes: bool)
    ensures
        yes == (key@ == "0"@),
{
    crate::text::equals(key, "0")
}

/// Finds the entry of the key `0`.
pub fn find_runtime(entries: &Vec<DataEntry>) -> (index: Option<usize>)
    ensures
        match runtime_entry(entry_views(entries@), 0) {
            Some(at) => index == Some(at as usize) && 0 <= at < entries.len(),
            None => index is None,
        },
{
    let ghost views = entry_views(entries@);
    let mut i: usize = 0;
    while i < entries.len()
        invariant
            i <= entries.len(),
            views == entry_views(entries@),
            runtime_entry(views, 0) == runtime_entry(views, i as int),
        decreases entries.len() - i,
    {
        assert(views[i as int] == entries@[i as int]@);
        if is_runtime_key(&entries[i].key) {
            return Some(i);
        }
        i += 1;
    }
    None
}

impl Instruction {
    /// Resolves the references of the instructions: see [`resolved`].
    pub fn replace_data_aliases(instructions: &mut Vec<Instruction>, mapping: &HashPathMapping)
        ensures
            instruction_views(final(instructions)@) == all_resolved(
                instruction_views(old(instructions)@),
                mapping@,
            ),
    {
        let ghost before = instruction_views(instructions@);
        let mut i: usize = 0;
        while i < instructions.len()
            invariant
                i <= instructions.len(),
                instructions.len() == before.len(),
                forall|j: int| 0 <= j < i ==> (#[trigger] instructions@[j])@ == resolved(
                    before[j],
                    mapping@,
                ),
                forall|j: int| i <= j < instructions.len() ==> (#[trigger] instructions@[j])@
                    == before[j],
            decreases instructions.len() - i,
        {
            let name = instructions[i].name;
            if name == Name::PUSH_Data || name == Name::PUSH_ContractHash {
                let path = match &instructions[i].value {
                    Some(value) => match mapping.get(value) {
                        Some(path) => Some(path.clone()),
                        None => None,
                    },
                    None => None,
                };
                match path {
                    Some(path) => {
                        instructions.set(i, Instruction { name, value: Some(path) });
                    },
                    None => {},
                }
            }
            i += 1;
        }
        assert(instruction_views(instructions@) =~= all_resolved(before, mapping@));
    }

    /// Gives the labels of the code dense numbers: see [`relabeled`].
    pub fn relabel(instructions: &mut Vec<Instruction>)
        ensures
            instruction_views(final(instructions)@) == all_relabeled(
                instruction_views(old(instructions)@),
            ),
    {
        let ghost before = instruction_views(instructions@);
        let mut tags: Vec<String> = Vec::new();
        let mut k: usize = 0;
        assert(tags@.map_values(|tag: String| tag@) =~= labels(before, 0));
        while k < instructions.len()
            invariant
                k <= instructions.len(),
                before == instruction_views(instructions@),
                tags@.map_values(|tag: String| tag@) == labels(before, k as int),
            decreases instructions.len() - k,
        {
            let ghost listed = tags@.map_values(|tag: String| tag@);
            assert(before[k as int] == instructions@[k as int]@);
            if instructions[k].name == Name::Tag {
                match &instructions[k].value {
                    Some(value) => {
                        tags.push(value.clone());
                        assert(tags@.map_values(|tag: String| tag@) =~= listed.push(value@));
                    },
                    None => {},
                }
            }
            k += 1;
        }
        let ghost all = labels(before, before.len() as int);
        let mut i: usize = 0;
        while i < instructions.len()
            invariant
                i <= instructions.len(),
                instructions.len() == before.len(),
                all == labels(before, before.len() as int),
                tags@.map_values(|tag: String| tag@) == all,
                forall|j: int| 0 <= j < i ==> (#[trigger] instructions@[j])@ == relabeled(
                    before[j],
                    all,
                ),
                forall|j: int| i <= j < instructions.len() ==> (#[trigger] instructions@[j])@
                    == before[j],
            decreases instructions.len() - i,
        {
            let name = instructions[i].name;
            if name == Name::Tag || name == Name::PUSH_Tag {
                let place = match &instructions[i].value {
                    Some(value) => find_label(&tags, value),
                    None => None,
                };
                match place {
                    Some(place) => {
                        instructions.set(
                            i,
                            Instruction { name, value: Some(to_decimal(place + 1)) },
                        );
                    },
                    None => {},
                }
            }
            i += 1;
        }
        assert(instruction_views(instructions@) =~= all_relabeled(before));
    }
}

impl Assembly {
    /// The assembly of the parts, with no path yet.
    pub fn new(code: Option<Vec<Instruction>>, data: Option<Vec<DataEntry>>, json: Vec<u8>) -> (assembly:
        Assembly)
        ensures
            assembly.code == code,
            assembly.data == data,
            assembly.full_path is None,
            assembly.json == json,
    {
        Assembly { code, data, full_path: None, json }
    }

    /// The hash of the assembly: the Keccak-256 digest of the bytes that the
    /// compiler wrote, in hexadecimal.
    pub fn keccak256(&self) -> (hash: String)
        ensures
            hash@ == hex_text(keccak256(self.json@)),
    {
        keccak256_hex(&self.json)
    }

    /// Sets the full path of the contract.
    pub fn set_full_path(&mut self, full_path: String)
        ensures
            final(self).full_path == Some(full_path),
            final(self).code == old(self).code,
            final(self).data == old(self).data,
            final(self).json == old(self).json,
    {
        self.full_path = Some(full_path);
    }
}

fn copy_instructions(instructions: &Vec<Instruction>) -> (copy: Vec<Instruction>)
    ensures
        instruction_views(copy@) == instruction_views(instructions@),
{
    let mut copy: Vec<Instruction> = Vec::new();
    let mut i: usize = 0;
    while i < instructions.len()
        invariant
            i <= instructions.len(),
            copy.len() == i,
            forall|j: int| 0 <= j < i ==> copy@[j]@ == instructions@[j]@,
        decreases instructions.len() - i,
    {
        copy.push(instructions[i].clone());
        i += 1;
    }
    assert(instruction_views(copy@) =~= instruction_views(instructions@));
    copy
}

fn copy_bytes(bytes: &Vec<u8>) -> (copy: Vec<u8>)
    ensures
        copy@ == bytes@,
{
    let mut copy: Vec<u8> = Vec::new();
    let mut i: usize = 0;
    while i < bytes.len()
        invariant
            i <= bytes.len(),
            copy@ == bytes@.take(i as int),
        decreases bytes.len() - i,
    {
        copy.push(bytes[i]);
        i += 1;
        assert(copy@ =~= bytes@.take(i as int));
    }
    assert(bytes@.take(i as int) =~= bytes@);
    copy
}

fn copy_entries(entries: &Vec<DataEntry>, from: usize, copy: &mut Vec<DataEntry>)
    requires
        from <= entries.len(),
        old(copy)@.len() == from,
        forall|i: int| 0 <= i < from ==> old(copy)@[i]@ == entries@[i]@,
    ensures
        entry_views(final(copy)@) == entry_views(entries@),
    decreases entries, entries.len() - from,
{
    if from < entries.len() {
        let value = match &entries[from].value {
            Data::Assembly(assembly) => Data::Assembly(assembly.clone()),
            Data::Hash(hash) => Data::Hash(hash.clone()),
            Data::Path(path) => Data::Path(path.clone()),
        };
        let head = DataEntry { key: entries[from].key.clone(), value };
        assert(head@ == entries@[from as int]@);
        copy.push(head);
        copy_entries(entries, from + 1, copy);
    } else {
        assert(entry_views(copy@) =~= entry_views(entries@));
    }
}

impl Clone for Assembly {
    fn clone(&self) -> (copy: Assembly)
        ensures
            copy@ == self@,
        decreases self,
    {
        let copy = Assembly {
            code: match &self.code {
                Some(code) => Some(copy_instructions(code)),
                None => None,
            },
            data: match &self.data {
                Some(entries) => {
                    let mut copied: Vec<DataEntry> = Vec::new();
                    copy_entries(entries, 0, &mut copied);
                    Some(copied)
                },
                None => None,
            },
            full_path: match &self.full_path {
                Some(path) => Some(path.clone()),
                None => None,
            },
            json: copy_bytes(&self.json),
        };
        proof {
            lemma_assembly_view(copy);
            lemma_assembly_view(*self);
        }
        copy
    }
}

} // verus!
