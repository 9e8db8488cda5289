use compiler_solidity::build::Build;
use compiler_solidity::build::CodeBuild;
use compiler_solidity::build::CombinedContract;
use compiler_solidity::build::CombinedJson;
use compiler_solidity::build::Contents;
use compiler_solidity::build::FileWrite;
use compiler_solidity::build::NotFound;
use compiler_solidity::codec::keccak256_hex;
use compiler_solidity::codec::to_hex;
use compiler_solidity::evm::assembly::Assembly;
use compiler_solidity::evm::assembly::Data;
use compiler_solidity::evm::assembly::DataEntry;
use compiler_solidity::evm::instruction::name::Name;
use compiler_solidity::evm::instruction::Instruction;
use compiler_solidity::evm::mapping::Alias;
use compiler_solidity::evm::mapping::HashPathMapping;
use compiler_solidity::project::Error;
use compiler_solidity::project::Contract as ProjectContract;
use compiler_solidity::project::Library;
use compiler_solidity::project::Source as ProjectSource;
use compiler_solidity::solc::output::Ast;
use compiler_solidity::solc::output::Contract;
use compiler_solidity::solc::output::Diagnostic;
use compiler_solidity::solc::output::Evm;
use compiler_solidity::solc::output::File;
use compiler_solidity::solc::output::Output;
use compiler_solidity::solc::output::Source;
use compiler_solidity::solc::pipeline::Pipeline;
use compiler_solidity::text::comes_before;
use compiler_solidity::text::join_path;
use compiler_solidity::text::parse_decimal;
use compiler_solidity::text::to_decimal;
use compiler_solidity::version::Version;
use compiler_solidity::yul::error::Error as YulError;

fn with(name: Name, value: &str) -> Instruction {
    Instruction::new(name, Some(value.to_owned()))
}

fn plain(name: Name) -> Instruction {
    Instruction::new(name, None)
}

fn contract(name: &str) -> Contract {
    Contract {
        name: name.to_owned(),
        abi: None,
        ir_optimized: None,
        evm: None,
        deploy_hash: None,
        deploy_factory_dependencies: None,
        runtime_hash: None,
        runtime_factory_dependencies: None,
    }
}

fn with_assembly(name: &str, assembly: Assembly) -> Contract {
    let mut contract = contract(name);
    contract.evm = Some(Evm { assembly: Some(assembly), bytecode: None, deployed_bytecode: None });
    contract
}

fn assembly_of(contract: &Contract) -> &Assembly {
    contract.evm.as_ref().unwrap().assembly.as_ref().unwrap()
}

#[test]
fn keccak256_of_known_inputs() {
    assert_eq!(
        keccak256_hex(&vec![]),
        "c5d2460186f7233c927e7db2dcc703c0e500b653ca82273b7bfad8045d85a470"
    );
    assert_eq!(
        keccak256_hex(&b"abc".to_vec()),
        "4e03657aea45a94fc7d47ba826c8d667c0d1e6e33a64a036ec44f58fa12d6c45"
    );
    let assembly = Assembly::new(None, None, b"abc".to_vec());
    assert_eq!(
        assembly.keccak256(),
        "4e03657aea45a94fc7d47ba826c8d667c0d1e6e33a64a036ec44f58fa12d6c45"
    );
}

#[test]
fn hexadecimal_text() {
    assert_eq!(to_hex(&vec![]), "");
    assert_eq!(to_hex(&vec![1, 2, 3, 15, 16]), "0102030f10");
    assert_eq!(to_hex(&vec![0xf9, 0xb4, 0xca, 0x00, 0xff]), "f9b4ca00ff");
}

#[test]
fn decimal_text_round_trip() {
    assert_eq!(to_decimal(0), "0");
    assert_eq!(to_decimal(7), "7");
    assert_eq!(to_decimal(10), "10");
    assert_eq!(to_decimal(1234567890), "1234567890");
    assert_eq!(to_decimal(usize::MAX), usize::MAX.to_string());
    assert_eq!(parse_decimal("0"), Some(0));
    assert_eq!(parse_decimal("0042"), Some(42));
    assert_eq!(parse_decimal(&usize::MAX.to_string()), Some(usize::MAX));
    assert_eq!(parse_decimal("18446744073709551616000"), None);
    assert_eq!(parse_decimal(""), None);
    assert_eq!(parse_decimal("+1"), None);
    assert_eq!(parse_decimal("1a"), None);
    assert_eq!(join_path("a.sol", "A"), "a.sol:A");
}

#[test]
fn mapping_keeps_the_later_entry() {
    let mut mapping = HashPathMapping::new();
    assert_eq!(mapping.get(&"h".to_owned()), None);
    mapping.insert("h".to_owned(), "first".to_owned());
    mapping.insert("g".to_owned(), "other".to_owned());
    mapping.insert("h".to_owned(), "second".to_owned());
    assert_eq!(mapping.get(&"h".to_owned()), Some(&"second".to_owned()));
    assert_eq!(mapping.get(&"g".to_owned()), Some(&"other".to_owned()));
    assert_eq!(mapping.get(&"f".to_owned()), None);
}

#[test]
fn data_aliases_are_replaced_and_the_rest_is_kept() {
    let mut mapping = HashPathMapping::new();
    mapping.insert("aa".to_owned(), "a.sol:A".to_owned());
    let mut code = vec![
        with(Name::PUSH_Data, "aa"),
        with(Name::PUSH_Data, "bb"),
        with(Name::PUSH_ContractHash, "aa"),
        with(Name::PUSH_ContractHashSize, "aa"),
        with(Name::PUSH, "aa"),
        plain(Name::PUSH_Data),
    ];
    Instruction::replace_data_aliases(&mut code, &mapping);
    assert_eq!(
        code,
        vec![
            with(Name::PUSH_Data, "a.sol:A"),
            with(Name::PUSH_Data, "bb"),
            with(Name::PUSH_ContractHash, "a.sol:A"),
            with(Name::PUSH_ContractHashSize, "aa"),
            with(Name::PUSH, "aa"),
            plain(Name::PUSH_Data),
        ]
    );
}

#[test]
fn labels_become_dense() {
    let mut code = vec![
        with(Name::PUSH_Tag, "17"),
        plain(Name::JUMP),
        with(Name::Tag, "40"),
        with(Name::PUSH_Tag, "40"),
        with(Name::PUSH_Tag, "99"),
        with(Name::Tag, "17"),
        with(Name::Tag, "40"),
        with(Name::PUSH, "17"),
    ];
    Instruction::relabel(&mut code);
    assert_eq!(
        code,
        vec![
            with(Name::PUSH_Tag, "2"),
            plain(Name::JUMP),
            with(Name::Tag, "1"),
            with(Name::PUSH_Tag, "1"),
            with(Name::PUSH_Tag, "99"),
            with(Name::Tag, "2"),
            with(Name::Tag, "1"),
            with(Name::PUSH, "17"),
        ]
    );
}

#[test]
fn dependency_rewrite() {
    let a = Assembly::new(Some(vec![plain(Name::STOP)]), None, b"{\"code\":\"a\"}".to_vec());
    let hash = a.keccak256();
    assert_eq!(hash.len(), 64);
    let runtime = Assembly::new(
        Some(vec![with(Name::PUSH_Data, &hash), with(Name::PUSH_Data, "00")]),
        None,
        b"runtime".to_vec(),
    );
    let b = Assembly::new(
        Some(vec![with(Name::PUSH_Data, &hash), plain(Name::STOP)]),
        Some(vec![
            DataEntry { key: "1".to_owned(), value: Data::Hash(hash.clone()) },
            DataEntry { key: "0".to_owned(), value: Data::Assembly(runtime) },
        ]),
        b"{\"code\":\"b\"}".to_vec(),
    );
    let mut mapping = HashPathMapping::new();
    mapping.insert(hash.clone(), "path_A:A".to_owned());

    let mut level = b.clone();
    Output::preprocess_dependency_level("path_B:B", &mut level, &mapping);
    assert_eq!(level.full_path, Some("path_B:B".to_owned()));
    assert_eq!(
        level.code,
        Some(vec![with(Name::PUSH_Data, "path_A:A"), plain(Name::STOP)])
    );
    match &level.data.as_ref().unwrap()[1].value {
        Data::Assembly(runtime) => {
            assert_eq!(
                runtime.code,
                Some(vec![with(Name::PUSH_Data, "path_A:A"), with(Name::PUSH_Data, "00")])
            );
            assert_eq!(runtime.full_path, None);
        }
        other => panic!("expected an assembly, found {:?}", other),
    }
    assert_eq!(level.data.as_ref().unwrap()[0].value, Data::Hash(hash.clone()));

    let mut output = Output {
        contracts: Some(vec![
            File { path: "path_A".to_owned(), contracts: vec![with_assembly("A", a)] },
            File {
                path: "path_B".to_owned(),
                contracts: vec![with_assembly("B", b), contract("C")],
            },
        ]),
        sources: None,
        errors: None,
    };
    output.preprocess_dependencies();
    let files = output.contracts.as_ref().unwrap();
    assert_eq!(assembly_of(&files[0].contracts[0]).full_path, Some("path_A:A".to_owned()));
    assert_eq!(
        assembly_of(&files[1].contracts[0]).code,
        Some(vec![with(Name::PUSH_Data, "path_A:A"), plain(Name::STOP)])
    );
    assert_eq!(files[1].contracts[1], contract("C"));
}

#[test]
fn warnings_are_tagged_and_appended() {
    let warning = |message: &str| Diagnostic {
        severity: "warning".to_owned(),
        formatted_message: message.to_owned(),
    };
    let mut output = Output {
        contracts: None,
        sources: Some(vec![
            Source {
                path: "a.sol".to_owned(),
                ast: Some(Ast { warnings: vec![warning("one"), warning("two")] }),
            },
            Source { path: "b.sol".to_owned(), ast: None },
            Source { path: "c.sol".to_owned(), ast: Some(Ast { warnings: vec![warning("x")] }) },
        ]),
        errors: Some(vec![Diagnostic {
            severity: "error".to_owned(),
            formatted_message: "first".to_owned(),
        }]),
    };
    output.preprocess_ast();
    let messages: Vec<String> = output
        .errors
        .as_ref()
        .unwrap()
        .iter()
        .map(|diagnostic| diagnostic.formatted_message.clone())
        .collect();
    assert_eq!(
        messages,
        vec!["first", "one\n--> a.sol\n", "two\n--> a.sol\n", "x\n--> c.sol\n"]
    );

    let mut bare = Output { contracts: None, sources: None, errors: None };
    bare.preprocess_ast();
    assert_eq!(bare.errors, None);
    let mut fresh = Output { contracts: None, sources: Some(vec![]), errors: None };
    fresh.preprocess_ast();
    assert_eq!(fresh.errors, Some(vec![]));
}

#[test]
fn project_of_yul() {
    let mut yul = contract("Y");
    yul.ir_optimized = Some("object \"Y\" { code { } object \"Y_deployed\" { code { leave } } }".to_owned());
    yul.abi = Some("[]".to_owned());
    let mut empty = contract("Empty");
    empty.ir_optimized = Some(String::new());
    empty.abi = Some("[1]".to_owned());
    let mut output = Output {
        contracts: Some(vec![File {
            path: "y.sol".to_owned(),
            contracts: vec![empty, contract("None"), yul],
        }]),
        sources: Some(vec![]),
        errors: None,
    };
    let libraries = vec![Library {
        file: "l.sol".to_owned(),
        name: "L".to_owned(),
        address: "0x01".to_owned(),
    }];
    let project = output
        .try_to_project(libraries, Pipeline::Yul, Version::new(0, 8, 1))
        .expect("the project is made");
    assert_eq!(project.version, Version::new(0, 8, 1));
    assert_eq!(project.libraries.len(), 1);
    assert_eq!(project.contracts.len(), 1);
    assert_eq!(project.contracts[0].path, "y.sol:Y");
    assert_eq!(project.contracts[0].abi, Some("[]".to_owned()));
    match &project.contracts[0].source {
        ProjectSource::Yul { source, object } => {
            assert!(source.starts_with("object"));
            assert_eq!(object.name, "Y");
            assert_eq!(object.nested_object.as_ref().unwrap().name, "Y_deployed");
            assert!(object.dependencies.is_empty());
        }
        other => panic!("expected a Yul source, found {:?}", other),
    }
    assert_eq!(output.sources, None);
    assert_eq!(output.errors, Some(vec![]));
    let contracts = &output.contracts.as_ref().unwrap()[0].contracts;
    assert_eq!(contracts[0].ir_optimized, None);
    assert_eq!(contracts[0].abi, Some("[1]".to_owned()));
    assert_eq!(contracts[2].ir_optimized, None);
    assert_eq!(contracts[2].abi, None);
}

#[test]
fn project_of_evm_and_failures() {
    let assembly = Assembly::new(Some(vec![plain(Name::STOP)]), None, b"x".to_vec());
    let mut output = Output {
        contracts: Some(vec![File {
            path: "e.sol".to_owned(),
            contracts: vec![with_assembly("E", assembly), contract("N")],
        }]),
        sources: None,
        errors: None,
    };
    let project = output
        .try_to_project(vec![], Pipeline::EVM, Version::new(0, 8, 1))
        .expect("the project is made");
    assert_eq!(project.contracts.len(), 1);
    match &project.contracts[0].source {
        ProjectSource::Evm { assembly } => {
            assert_eq!(assembly.full_path, Some("e.sol:E".to_owned()));
        }
        other => panic!("expected an EVM source, found {:?}", other),
    }

    let mut none = Output {
        contracts: None,
        sources: None,
        errors: Some(vec![Diagnostic {
            severity: "error".to_owned(),
            formatted_message: "broken".to_owned(),
        }]),
    };
    match none.try_to_project(vec![], Pipeline::Yul, Version::new(0, 8, 1)) {
        Err(Error::Assembling { errors }) => {
            assert_eq!(errors.unwrap()[0].formatted_message, "broken");
        }
        other => panic!("expected an assembling error, found {:?}", other),
    }

    let mut bad = contract("Bad");
    bad.ir_optimized = Some("object \"Bad\" { code { switch x } }".to_owned());
    let mut output = Output {
        contracts: Some(vec![File { path: "b.sol".to_owned(), contracts: vec![bad] }]),
        sources: None,
        errors: None,
    };
    match output.try_to_project(vec![], Pipeline::Yul, Version::new(0, 8, 1)) {
        Err(Error::Parsing { path, error: YulError::Syntax { expected, .. } }) => {
            assert_eq!(path, "b.sol:Bad");
            assert_eq!(expected, vec!["case", "default"]);
        }
        other => panic!("expected a parsing error, found {:?}", other),
    }
}

fn code(bytes: &[u8], hash: &str) -> CodeBuild {
    CodeBuild { bytecode: bytes.to_vec(), hash: hash.to_owned(), factory_dependencies: vec![] }
}

fn built(path: &str, name: &str) -> compiler_solidity::build::Contract {
    compiler_solidity::build::Contract {
        path: path.to_owned(),
        name: name.to_owned(),
        deploy_build: CodeBuild {
            bytecode: vec![0xde, 0x01],
            hash: "dh".to_owned(),
            factory_dependencies: vec![Alias { hash: "h".to_owned(), path: "p".to_owned() }],
        },
        runtime_build: code(&[0xab], "rh"),
        assembly_text: "asm".to_owned(),
        abi: Some("[]".to_owned()),
    }
}

#[test]
fn build_lists_the_files_to_write() {
    let mut second = built("b.sol:B", "B");
    second.abi = None;
    let build = Build::new(vec![built("a.sol:A", "A"), second]);
    let writes = build.write_to_directory("out", true, true, true, false);
    assert_eq!(
        writes,
        vec![
            FileWrite {
                path: "out/A.zasm".to_owned(),
                contents: Contents::Text("asm".to_owned()),
                overwrite: false,
            },
            FileWrite {
                path: "out/A.zbin".to_owned(),
                contents: Contents::Bytes(vec![0xde, 0x01]),
                overwrite: false,
            },
            FileWrite {
                path: "out/A.abi".to_owned(),
                contents: Contents::Text("[]".to_owned()),
                overwrite: false,
            },
            FileWrite {
                path: "out/B.zasm".to_owned(),
                contents: Contents::Text("asm".to_owned()),
                overwrite: false,
            },
            FileWrite {
                path: "out/B.zbin".to_owned(),
                contents: Contents::Bytes(vec![0xde, 0x01]),
                overwrite: false,
            },
        ]
    );
    let build = Build::new(vec![built("a.sol:A", "A")]);
    let writes = build.write_to_directory("d", false, true, false, true);
    assert_eq!(writes.len(), 1);
    assert!(writes[0].overwrite);
    assert_eq!(Build::new(vec![]).write_to_directory("d", true, true, true, true), vec![]);
}

#[test]
fn build_goes_to_the_combined_json() {
    let entry = |path: &str| CombinedContract {
        path: path.to_owned(),
        bin: None,
        bin_runtime: None,
        factory_deps: None,
    };
    let mut combined = CombinedJson { contracts: vec![entry("x.sol:X"), entry("a.sol:A")] };
    let build = Build::new(vec![built("/project/a.sol:A", "A")]);
    assert_eq!(build.write_to_combined_json(&mut combined), Ok(()));
    assert_eq!(combined.contracts[0], entry("x.sol:X"));
    assert_eq!(combined.contracts[1].bin, Some("de01".to_owned()));
    assert_eq!(combined.contracts[1].bin_runtime, Some("ab".to_owned()));
    assert_eq!(
        combined.contracts[1].factory_deps,
        Some(vec![Alias { hash: "h".to_owned(), path: "p".to_owned() }])
    );

    let mut combined = CombinedJson { contracts: vec![entry("x.sol:X")] };
    let build = Build::new(vec![built("a.sol:A", "A")]);
    assert_eq!(
        build.write_to_combined_json(&mut combined),
        Err(NotFound { path: "a.sol:A".to_owned() })
    );
}

#[test]
fn build_goes_to_the_standard_json() {
    let mut kept = contract("K");
    kept.ir_optimized = Some("{ }".to_owned());
    let mut taken = contract("A");
    taken.ir_optimized = Some("{ }".to_owned());
    taken.abi = Some("[]".to_owned());
    let mut output = Output {
        contracts: Some(vec![File { path: "a.sol".to_owned(), contracts: vec![taken, kept] }]),
        sources: None,
        errors: None,
    };
    Build::new(vec![built("a.sol:A", "A"), built("z.sol:Z", "Z")])
        .write_to_standard_json(&mut output);
    let contracts = &output.contracts.as_ref().unwrap()[0].contracts;
    assert_eq!(contracts[0].ir_optimized, None);
    assert_eq!(contracts[0].abi, Some("[]".to_owned()));
    assert_eq!(
        contracts[0].evm,
        Some(Evm {
            assembly: None,
            bytecode: Some("de01".to_owned()),
            deployed_bytecode: Some("ab".to_owned()),
        })
    );
    assert_eq!(contracts[0].deploy_hash, Some("dh".to_owned()));
    assert_eq!(contracts[0].runtime_hash, Some("rh".to_owned()));
    assert_eq!(
        contracts[0].deploy_factory_dependencies,
        Some(vec![Alias { hash: "h".to_owned(), path: "p".to_owned() }])
    );
    assert_eq!(contracts[0].runtime_factory_dependencies, Some(vec![]));
    assert_eq!(contracts[1].ir_optimized, Some("{ }".to_owned()));
    assert_eq!(contracts[1].evm, None);

    let mut bare = Output { contracts: None, sources: None, errors: None };
    Build::new(vec![built("a.sol:A", "A")]).write_to_standard_json(&mut bare);
    assert_eq!(bare, Output { contracts: None, sources: None, errors: None });
}

#[test]
fn a_build_without_a_contract_leaves_the_earlier_ones_written() {
    let entry = |path: &str| CombinedContract {
        path: path.to_owned(),
        bin: None,
        bin_runtime: None,
        factory_deps: None,
    };
    let mut combined = CombinedJson { contracts: vec![entry("a.sol:A"), entry("c.sol:C")] };
    let build = Build::new(vec![
        built("a.sol:A", "A"),
        built("b.sol:B", "B"),
        built("c.sol:C", "C"),
    ]);
    assert_eq!(
        build.write_to_combined_json(&mut combined),
        Err(NotFound { path: "b.sol:B".to_owned() })
    );
    assert_eq!(combined.contracts.len(), 2);
    assert_eq!(combined.contracts[0].path, "a.sol:A");
    assert_eq!(combined.contracts[0].bin, Some("de01".to_owned()));
    assert_eq!(combined.contracts[1], entry("c.sol:C"));
}

#[test]
fn the_order_of_texts() {
    assert!(comes_before("", "a"));
    assert!(!comes_before("", ""));
    assert!(!comes_before("a", ""));
    assert!(comes_before("a", "b"));
    assert!(comes_before("a", "ab"));
    assert!(!comes_before("ab", "a"));
    assert!(!comes_before("abc", "abc"));
    assert!(comes_before("a.b:c", "a:z"));
    assert!(comes_before("Z", "a"));
    let mut texts = vec!["b", "a:z", "", "a.b:c", "a", "ab"];
    texts.sort();
    for i in 0..texts.len() {
        for j in 0..texts.len() {
            assert_eq!(comes_before(texts[i], texts[j]), i < j);
        }
    }
}

#[test]
fn a_build_keeps_its_contracts_by_ascending_path() {
    let mut build = Build::default();
    assert!(build.contracts.is_empty());
    build.insert(built("m.sol:M", "M"));
    build.insert(built("a.sol:A", "A"));
    build.insert(built("z.sol:Z", "Z"));
    build.insert(built("b.sol:B", "B"));
    let mut again = built("m.sol:M", "Other");
    again.abi = None;
    build.insert(again);
    let paths: Vec<&str> = build.contracts.iter().map(|contract| contract.path.as_str()).collect();
    assert_eq!(paths, vec!["a.sol:A", "b.sol:B", "m.sol:M", "z.sol:Z"]);
    assert_eq!(build.contracts[2].name, "Other");
    assert_eq!(build.contracts[2].abi, None);
}

#[test]
fn a_project_keeps_its_contracts_by_ascending_full_path() {
    let assembly = |text: &[u8]| Assembly::new(Some(vec![plain(Name::STOP)]), None, text.to_vec());
    let mut output = Output {
        contracts: Some(vec![
            File { path: "a".to_owned(), contracts: vec![with_assembly("z", assembly(b"1"))] },
            File {
                path: "a.b".to_owned(),
                contracts: vec![with_assembly("c", assembly(b"2")), with_assembly("d", assembly(b"3"))],
            },
        ]),
        sources: None,
        errors: None,
    };
    let mut project = output
        .try_to_project(vec![], Pipeline::EVM, Version::new(0, 8, 1))
        .expect("the project is made");
    let paths: Vec<&str> =
        project.contracts.iter().map(|contract| contract.path.as_str()).collect();
    assert_eq!(paths, vec!["a.b:c", "a.b:d", "a:z"]);

    project.insert(ProjectContract::new(
        "a.b:d".to_owned(),
        ProjectSource::new_evm(assembly(b"4")),
        Some("[]".to_owned()),
    ));
    project.insert(ProjectContract::new(
        "a.b:cc".to_owned(),
        ProjectSource::new_evm(assembly(b"5")),
        None,
    ));
    let paths: Vec<&str> =
        project.contracts.iter().map(|contract| contract.path.as_str()).collect();
    assert_eq!(paths, vec!["a.b:c", "a.b:cc", "a.b:d", "a:z"]);
    assert_eq!(project.contracts[2].abi, Some("[]".to_owned()));
}
