use flashthing::config::{
    DataOrFile, FlashConfig, FlashStep, ReadMemoryValue, StringOrFile, ValidatePartitionSizeValue, WaitValue,
};
use flashthing::decode::read_step;
use flashthing::error::Error;
use flashthing::json::Json;

const NIXOS_SUPERBIRD: &str = r#"
        {
          "$schema": "/dev/null",
          "metadataVersion": 1,
          "name": "nixos-superbird",
          "version": "0.2.0",
          "description": "nixos superbird.",
          "steps": [
            {
              "type": "bulkcmd",
              "value": "amlmmc key"
            },
            {
              "type": "writeLargeMemory",
              "value": {
                "address": 0,
                "data": { "filePath": "./bootfs.bin" },
                "blockLength": 4096
              }
            },
            {
              "type": "writeLargeMemory",
              "value": {
                "address": 319488,
                "data": { "filePath": "./rootfs.img" },
                "blockLength": 4096
              }
            },
            {
              "type": "writeEnv",
              "value": { "filePath": "./env.txt" }
            },
            {
              "type": "bulkcmd",
              "value": "saveenv"
            }
          ]
        }
        "#;

#[test]
fn test_nixos_superbird() {
    let config = FlashConfig::from_standalone(NIXOS_SUPERBIRD).expect("Failed to parse nixos-superbird config");
    assert_eq!(config.name, "nixos-superbird");
    assert_eq!(config.version, "0.2.0");
    assert_eq!(config.steps.len(), 5);
}

#[test]
#[should_panic]
fn test_simple_firmware() {
    let json = r#"
        {
          "name": "Simple Firmware",
          "version": "1.0.0",
          "description": "This is an example Superbird flashing configuration file.",
          "steps": [
            {
              "type": "bulkcmd",
              "value": "amlmmc env"
            },
            {
              "type": "identify",
              "variable": "myIdentifyVar"
            },
            {
              "type": "log",
              "value": "My variable is ${myIdentifyVar}"
            }
          ],
          "metadataVersion": 1
        }
        "#;
    let config = FlashConfig::from_standalone(json).expect("Failed to parse Simple Firmware config");
    assert_eq!(config.name, "Simple Firmware");
    assert_eq!(config.version, "1.0.0");
    assert_eq!(config.steps.len(), 3);
}

#[test]
#[should_panic]
fn test_kitchen_sink() {
    let json = r#"
        {
          "name": "Example Superbird flashing configuration",
          "version": "1.0.0",
          "description": "This is an example Superbird flashing configuration file.",
          "steps": [
            {
              "type": "identify"
            },
            {
              "type": "bulkcmd",
              "value": "echo \"Hello World!\""
            },
            {
              "type": "run",
              "value": {
                "address": 268435456,
                "keepPower": true
              }
            },
            {
              "type": "writeSimpleMemory",
              "value": {
                "address": 268435456,
                "data": { "filePath": "path/to/file.bin" }
              }
            },
            {
              "type": "readSimpleMemory",
              "value": {
                "address": 268435456,
                "length": 1024
              },
              "variable": "readData"
            },
            {
              "type": "readLargeMemory",
              "value": {
                "address": 268435456,
                "length": 1024
              },
              "variable": "readData"
            },
            {
              "type": "getBootAMLC",
              "variable": "bootAMLC"
            },
            {
              "type": "writeAMLCData",
              "value": {
                "seq": 0,
                "amlcOffset": 268435456,
                "data": { "filePath": "path/to/file.bin" }
              }
            },
            {
              "type": "bl2Boot",
              "value": {
                "bl2": { "filePath": "path/to/bl2.bin" },
                "bootloader": { "filePath": "path/to/bootloader.bin" }
              }
            },
            {
              "type": "validatePartitionSize",
              "value": {
                "name": "bootloader"
              }
            },
            {
              "type": "restorePartition",
              "value": {
                "name": "bootloader",
                "data": { "filePath": "path/to/bootloader.bin" }
              }
            }
          ],
          "variables": {
            "readData": 0
          },
          "metadataVersion": 1
        }
        "#;
    let config = FlashConfig::from_standalone(json).expect("Failed to parse Example Superbird config");
    assert_eq!(config.name, "Example Superbird flashing configuration");
    assert_eq!(config.version, "1.0.0");
    assert_eq!(config.steps.len(), 11);
    let vars = config.variables.expect("Missing variables");
    assert_eq!(vars[0], ("readData".to_string(), 0));
}

#[test]
fn nixos_superbird_steps_are_read_in_order() {
    let config = FlashConfig::from_standalone(NIXOS_SUPERBIRD).unwrap();
    assert_eq!(config.description, "nixos superbird.");
    assert_eq!(config.metadata_version, 1);
    assert!(config.variables.is_none());
    match &config.steps[0] {
        FlashStep::Bulkcmd { value } => assert_eq!(value, "amlmmc key"),
        other => panic!("unexpected step {:?}", other),
    }
    match &config.steps[1] {
        FlashStep::WriteLargeMemory { value } => {
            assert_eq!(value.address, 0);
            assert_eq!(value.block_length, 4096);
            assert_eq!(value.append_zeros, None);
            match &value.data {
                DataOrFile::File(file) => {
                    assert_eq!(file.file_path, "./bootfs.bin");
                    assert_eq!(file.encoding, None);
                }
                other => panic!("unexpected data {:?}", other),
            }
        }
        other => panic!("unexpected step {:?}", other),
    }
    match &config.steps[2] {
        FlashStep::WriteLargeMemory { value } => assert_eq!(value.address, 319488),
        other => panic!("unexpected step {:?}", other),
    }
    match &config.steps[3] {
        FlashStep::WriteEnv { value: StringOrFile::File(file) } => assert_eq!(file.file_path, "./env.txt"),
        other => panic!("unexpected step {:?}", other),
    }
    match &config.steps[4] {
        FlashStep::Bulkcmd { value } => assert_eq!(value, "saveenv"),
        other => panic!("unexpected step {:?}", other),
    }
}

#[test]
fn identify_step_is_refused_as_unsupported_feature() {
    let json = NIXOS_SUPERBIRD.replace(
        r#""steps": ["#,
        r#""steps": [ { "type": "identify", "variable": "id" },"#,
    );
    match FlashConfig::from_standalone(&json) {
        Err(Error::UnsupportedFeature(FlashStep::Identify { variable })) => {
            assert_eq!(variable, Some("id".to_string()))
        }
        other => panic!("unexpected result {:?}", other),
    }
}

fn descriptor(version: u32, steps: &str) -> String {
    format!(
        r#"{{ "name": "n", "version": "v", "description": "d", "metadataVersion": {}, "steps": [{}] }}"#,
        version, steps
    )
}

#[test]
fn other_metadata_versions_are_refused() {
    for version in [0u32, 2, 3, 100] {
        match FlashConfig::from_standalone(&descriptor(version, "")) {
            Err(Error::UnsupportedVersion(v)) => assert_eq!(v, version as usize),
            other => panic!("unexpected result {:?}", other),
        }
    }
    assert!(FlashConfig::from_standalone(&descriptor(1, "")).is_ok());
}

#[test]
fn version_is_checked_before_the_steps() {
    let json = descriptor(2, r#"{ "type": "identify" }"#);
    assert!(matches!(FlashConfig::from_standalone(&json), Err(Error::UnsupportedVersion(2))));
}

#[test]
fn every_unsupported_kind_is_refused() {
    let refused = [
        r#"{ "type": "identify" }"#,
        r#"{ "type": "bulkcmdStat", "value": "x" }"#,
        r#"{ "type": "readSimpleMemory", "value": { "address": 1, "length": 2 } }"#,
        r#"{ "type": "readLargeMemory", "value": { "address": 1, "length": 2 } }"#,
        r#"{ "type": "getBootAMLC" }"#,
        r#"{ "type": "validatePartitionSize", "value": { "name": "env" } }"#,
        r#"{ "type": "wait", "value": { "type": "userInput", "message": "go" } }"#,
    ];
    for step in refused {
        let json = descriptor(1, step);
        assert!(
            matches!(FlashConfig::from_standalone(&json), Err(Error::UnsupportedFeature(_))),
            "{}",
            step
        );
    }
}

#[test]
fn every_supported_kind_is_accepted() {
    let steps = r#"
        { "type": "bulkcmd", "value": "amlmmc key" },
        { "type": "run", "value": { "address": 16, "keepPower": false } },
        { "type": "writeSimpleMemory", "value": { "address": 1, "data": [1, 2, 255] } },
        { "type": "writeLargeMemory", "value": { "address": 1, "data": [0], "blockLength": 512, "appendZeros": true } },
        { "type": "writeAMLCData", "value": { "seq": 7, "amlcOffset": 8192, "data": [] } },
        { "type": "bl2Boot", "value": { "bl2": [1], "bootloader": { "filePath": "b.img", "encoding": "none" } } },
        { "type": "restorePartition", "value": { "name": "env", "data": { "filePath": "env.dump" } } },
        { "type": "writeEnv", "value": "a=b" },
        { "type": "log", "value": "hello" },
        { "type": "wait", "value": { "type": "time", "time": 250 } }
    "#;
    let config = FlashConfig::from_standalone(&descriptor(1, steps)).unwrap();
    assert_eq!(config.num_steps(), 10);
    assert!(config.check_config_supported().is_ok());
    match &config.steps[1] {
        FlashStep::Run { value } => {
            assert_eq!(value.address, 16);
            assert_eq!(value.keep_power, Some(false));
        }
        other => panic!("unexpected step {:?}", other),
    }
    match &config.steps[2] {
        FlashStep::WriteSimpleMemory { value } => match &value.data {
            DataOrFile::Data(bytes) => assert_eq!(bytes, &vec![1u8, 2, 255]),
            other => panic!("unexpected data {:?}", other),
        },
        other => panic!("unexpected step {:?}", other),
    }
    match &config.steps[5] {
        FlashStep::Bl2Boot { value } => match &value.bootloader {
            DataOrFile::File(file) => assert_eq!(file.encoding, Some("none".to_string())),
            other => panic!("unexpected data {:?}", other),
        },
        other => panic!("unexpected step {:?}", other),
    }
    match &config.steps[7] {
        FlashStep::WriteEnv { value: StringOrFile::String(text) } => assert_eq!(text, "a=b"),
        other => panic!("unexpected step {:?}", other),
    }
    match &config.steps[9] {
        FlashStep::Wait { value: WaitValue::Time { time } } => assert_eq!(*time, 250),
        other => panic!("unexpected step {:?}", other),
    }
}

#[test]
fn malformed_documents_are_json_errors() {
    let bad = [
        "",
        "not json",
        "[]",
        r#"{ "name": "n" }"#,
        r#"{ "name": "n", "version": "v", "description": "d", "metadataVersion": -1, "steps": [] }"#,
        r#"{ "name": "n", "version": "v", "description": "d", "metadataVersion": 1.5, "steps": [] }"#,
        r#"{ "name": "n", "version": "v", "description": "d", "metadataVersion": 1, "steps": {} }"#,
        r#"{ "name": 5, "version": "v", "description": "d", "metadataVersion": 1, "steps": [] }"#,
    ];
    for text in bad {
        assert!(matches!(FlashConfig::from_standalone(text), Err(Error::Json(_))), "{}", text);
    }
    let steps = [
        r#"{ "value": "x" }"#,
        r#"{ "type": "noSuchStep" }"#,
        r#"{ "type": "bulkcmd" }"#,
        r#"{ "type": "run", "value": { "address": 4294967296 } }"#,
        r#"{ "type": "writeSimpleMemory", "value": { "address": 1, "data": [256] } }"#,
        r#"{ "type": "writeAMLCData", "value": { "seq": 256, "amlcOffset": 0, "data": [] } }"#,
        r#"{ "type": "wait", "value": { "type": "forever" } }"#,
    ];
    for step in steps {
        let json = descriptor(1, step);
        assert!(matches!(FlashConfig::from_standalone(&json), Err(Error::Json(_))), "{}", step);
    }
}

#[test]
fn variables_are_read_and_null_members_count_as_missing() {
    let json = r#"{ "name": "n", "version": "v", "description": "d", "metadataVersion": 1,
        "variables": { "a": 1, "b": 22 },
        "steps": [ { "type": "run", "value": { "address": 1, "keepPower": null } } ] }"#;
    let config = FlashConfig::from_standalone(json).unwrap();
    let mut vars = config.variables.unwrap();
    vars.sort();
    assert_eq!(vars, vec![("a".to_string(), 1usize), ("b".to_string(), 22usize)]);
    match &config.steps[0] {
        FlashStep::Run { value } => assert_eq!(value.keep_power, None),
        other => panic!("unexpected step {:?}", other),
    }
}

#[test]
fn duplicate_keeps_every_field() {
    let config = FlashConfig::from_standalone(NIXOS_SUPERBIRD).unwrap();
    for step in &config.steps {
        assert_eq!(format!("{:?}", step.duplicate()), format!("{:?}", step));
    }
}

const ALL_KINDS: &str = r#"{ "name": "all", "version": "1", "description": "every kind of step", "metadataVersion": 1,
    "variables": { "x": 3 },
    "steps": [
        { "type": "bulkcmd", "value": "amlmmc key" },
        { "type": "run", "value": { "address": 16, "keepPower": false } },
        { "type": "run", "value": { "address": 4294967295 } },
        { "type": "writeSimpleMemory", "value": { "address": 1, "data": [0, 1, 2, 255] } },
        { "type": "writeLargeMemory", "value": { "address": 1, "data": { "filePath": "./a.bin" }, "blockLength": 512, "appendZeros": true } },
        { "type": "writeLargeMemory", "value": { "address": 2, "data": [], "blockLength": 4096 } },
        { "type": "writeAMLCData", "value": { "seq": 255, "amlcOffset": 8192, "data": [9] } },
        { "type": "bl2Boot", "value": { "bl2": [1], "bootloader": { "filePath": "b.img", "encoding": "none" } } },
        { "type": "restorePartition", "value": { "name": "env", "data": { "filePath": "env.dump" } } },
        { "type": "writeEnv", "value": "a=b" },
        { "type": "writeEnv", "value": { "filePath": "env.txt" } },
        { "type": "log", "value": "hello" },
        { "type": "wait", "value": { "type": "time", "time": 18446744073709551615 } }
    ] }"#;

#[test]
fn a_descriptor_written_and_read_back_is_the_same() {
    for text in [NIXOS_SUPERBIRD, ALL_KINDS] {
        let config = FlashConfig::from_standalone(text).unwrap();
        let again = FlashConfig::from_document(&config.to_document()).unwrap();
        assert_eq!(format!("{:?}", again), format!("{:?}", config));
        assert_eq!(format!("{:?}", again.steps), format!("{:?}", config.steps));
        assert_eq!(again.steps.len(), config.steps.len());
    }
}

#[test]
fn unsupported_steps_are_written_and_read_back_too() {
    let steps = vec![
        FlashStep::Identify { variable: Some("id".to_string()) },
        FlashStep::Identify { variable: None },
        FlashStep::BulkcmdStat { value: "x".to_string(), variable: None },
        FlashStep::ReadSimpleMemory { value: ReadMemoryValue { address: 1, length: 2 }, variable: Some("v".to_string()) },
        FlashStep::ReadLargeMemory { value: ReadMemoryValue { address: 3, length: 4 }, variable: None },
        FlashStep::GetBootAMLC { variable: None },
        FlashStep::ValidatePartitionSize {
            value: ValidatePartitionSizeValue { name: "data".to_string() },
            variable: Some("size".to_string()),
        },
        FlashStep::Wait { value: WaitValue::UserInput { message: "press".to_string() } },
    ];
    for step in steps {
        let again = read_step(&step.to_json()).unwrap();
        assert_eq!(format!("{:?}", again), format!("{:?}", step));
    }
}

#[test]
fn a_written_document_names_its_members_in_camel_case() {
    let config = FlashConfig::from_standalone(ALL_KINDS).unwrap();
    let members = match config.to_document() {
        Json::Object(members) => members,
        other => panic!("unexpected document {:?}", other),
    };
    let names: Vec<&str> = members.iter().map(|(name, _)| name.as_str()).collect();
    assert_eq!(names, ["name", "version", "description", "steps", "variables", "metadataVersion"]);
    let steps = match &members[3].1 {
        Json::Array(steps) => steps,
        other => panic!("unexpected steps {:?}", other),
    };
    match &steps[4] {
        Json::Object(step) => {
            assert!(matches!(&step[0], (key, Json::Text(tag)) if key == "type" && tag == "writeLargeMemory"));
            match &step[1] {
                (key, Json::Object(value)) if key == "value" => {
                    let keys: Vec<&str> = value.iter().map(|(name, _)| name.as_str()).collect();
                    assert_eq!(keys, ["address", "data", "blockLength", "appendZeros"]);
                    assert!(matches!(value[2].1, Json::Number(Some(512))));
                    assert!(matches!(value[3].1, Json::Bool(true)));
                }
                other => panic!("unexpected member {:?}", other),
            }
        }
        other => panic!("unexpected step {:?}", other),
    }
    match &steps[5] {
        Json::Object(step) => match &step[1] {
            (_, Json::Object(value)) => assert_eq!(value.len(), 3),
            other => panic!("unexpected member {:?}", other),
        },
        other => panic!("unexpected step {:?}", other),
    }
}

fn member(name: &str, value: Json) -> (String, Json) {
    (name.to_string(), value)
}

fn document_with_variables(variables: Vec<(String, Json)>) -> Json {
    Json::Object(vec![
        member("name", Json::Text("n".to_string())),
        member("version", Json::Text("v".to_string())),
        member("description", Json::Text("d".to_string())),
        member("metadataVersion", Json::Number(Some(1))),
        member("steps", Json::Array(vec![])),
        member("variables", Json::Object(variables)),
    ])
}

#[test]
fn no_variable_is_named_twice() {
    let doc = document_with_variables(vec![
        member("a", Json::Number(Some(1))),
        member("b", Json::Number(Some(2))),
        member("a", Json::Number(Some(3))),
        member("c", Json::Number(Some(4))),
        member("b", Json::Number(Some(5))),
        member("a", Json::Number(Some(6))),
    ]);
    let config = FlashConfig::from_document(&doc).unwrap();
    assert_eq!(
        config.variables,
        Some(vec![("c".to_string(), 4usize), ("b".to_string(), 5), ("a".to_string(), 6)])
    );
    let text = r#"{ "name": "n", "version": "v", "description": "d", "metadataVersion": 1, "steps": [],
        "variables": { "x": 1, "y": 2, "x": 3 } }"#;
    let mut vars = FlashConfig::from_standalone(text).unwrap().variables.unwrap();
    vars.sort();
    assert_eq!(vars, vec![("x".to_string(), 3usize), ("y".to_string(), 2)]);
}

#[test]
fn every_seed_must_be_a_whole_number_even_one_that_does_not_count() {
    let doc = document_with_variables(vec![
        member("a", Json::Text("one".to_string())),
        member("a", Json::Number(Some(3))),
    ]);
    assert!(matches!(FlashConfig::from_document(&doc), Err(Error::Json(_))));
    let doc = document_with_variables(vec![member("a", Json::Number(None))]);
    assert!(matches!(FlashConfig::from_document(&doc), Err(Error::Json(_))));
    let doc = document_with_variables(vec![]);
    assert_eq!(FlashConfig::from_document(&doc).unwrap().variables, Some(vec![]));
}
