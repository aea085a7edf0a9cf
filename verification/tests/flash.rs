use flashthing::aml::AmlogicSoC;
use flashthing::config::{DataOrFile, FlashConfig, FlashStep, MetaFile, StringOrFile};
use flashthing::error::Error;
use flashthing::flash::{
    locate, plan_step, restore_size, validation_outcome, FileSource, FlashMode, FlashOutcome, FlashTurn, Flasher,
    StepPlan,
};
use flashthing::partitions::partition;

fn soc() -> AmlogicSoC {
    AmlogicSoC::new(0, 0x81, 0x02)
}

const PROGRAM: &str = r#"{ "name": "n", "version": "v", "description": "d", "metadataVersion": 1, "steps": [
    { "type": "bulkcmd", "value": "amlmmc key" },
    { "type": "run", "value": { "address": 16 } },
    { "type": "writeLargeMemory", "value": { "address": 0, "data": { "filePath": "./bootfs.bin" }, "blockLength": 4096 } },
    { "type": "writeLargeMemory", "value": { "address": 9, "data": [1, 2], "blockLength": 512, "appendZeros": false } },
    { "type": "wait", "value": { "type": "time", "time": 1500 } },
    { "type": "log", "value": "done" }
] }"#;

#[test]
fn steps_come_in_order_with_their_numbers() {
    let mut flasher = Flasher::from_json(PROGRAM).unwrap();
    assert_eq!(flasher.num_steps(), 6);
    assert_eq!(flasher.current_step(), 1);
    let mut seen = Vec::new();
    let mut last = 0;
    loop {
        match flasher.flash() {
            FlashTurn::Step { index, step, plan } => {
                assert_eq!(index, last + 1);
                assert_eq!(flasher.step, index);
                assert_eq!(format!("{:?}", step), format!("{:?}", flasher.config.steps[index - 1]));
                last = index;
                seen.push(plan);
            }
            FlashTurn::Finished => break,
        }
    }
    assert_eq!(last, 6);
    assert_eq!(flasher.current_step(), 7);
    assert!(matches!(flasher.flash(), FlashTurn::Finished));
    assert_eq!(flasher.step, 6);
    match &seen[0] {
        StepPlan::Bulkcmd { command } => assert_eq!(command, "amlmmc key"),
        other => panic!("unexpected plan {:?}", other),
    }
    assert!(matches!(seen[1], StepPlan::Run { address: 16, keep_power: true }));
    match &seen[2] {
        StepPlan::WriteLargeMemory { address: 0, data: DataOrFile::File(file), block_length: 4096, append_zeros: true } => {
            assert_eq!(file.file_path, "./bootfs.bin")
        }
        other => panic!("unexpected plan {:?}", other),
    }
    match &seen[3] {
        StepPlan::WriteLargeMemory { address: 9, data: DataOrFile::Data(bytes), block_length: 512, append_zeros: false } => {
            assert_eq!(bytes, &vec![1u8, 2])
        }
        other => panic!("unexpected plan {:?}", other),
    }
    assert!(matches!(seen[4], StepPlan::Wait { ms: 1500 }));
    match &seen[5] {
        StepPlan::Log { message } => assert_eq!(message, "done"),
        other => panic!("unexpected plan {:?}", other),
    }
}

#[test]
fn a_flasher_is_made_only_of_a_supported_descriptor() {
    let config = FlashConfig {
        name: "n".to_string(),
        version: "v".to_string(),
        description: "d".to_string(),
        steps: vec![FlashStep::GetBootAMLC { variable: None }],
        variables: None,
        metadata_version: 1,
    };
    assert!(matches!(
        Flasher::new(config, FlashMode::Archive),
        Err(Error::UnsupportedFeature(FlashStep::GetBootAMLC { variable: None }))
    ));
    let config = FlashConfig {
        name: "n".to_string(),
        version: "v".to_string(),
        description: "d".to_string(),
        steps: vec![],
        variables: None,
        metadata_version: 3,
    };
    assert!(matches!(Flasher::new(config, FlashMode::Standalone), Err(Error::UnsupportedVersion(3))));
    assert!(matches!(Flasher::from_json("{"), Err(Error::Json(_))));
    let flasher = Flasher::from_json(PROGRAM).unwrap();
    assert!(matches!(flasher.mode, FlashMode::Standalone));
    assert_eq!(flasher.step, 0);
}

#[test]
fn other_steps_are_planned_as_they_stand() {
    let step = FlashStep::Run { value: flashthing::config::RunValue { address: 7, keep_power: Some(false) } };
    assert!(matches!(plan_step(&step), StepPlan::Run { address: 7, keep_power: false }));
    let step = FlashStep::WriteEnv { value: StringOrFile::String("a=b".to_string()) };
    match plan_step(&step) {
        StepPlan::WriteEnv { value: StringOrFile::String(text) } => assert_eq!(text, "a=b"),
        other => panic!("unexpected plan {:?}", other),
    }
    let step = FlashStep::WriteAMLCData {
        value: flashthing::config::WriteAMLCDataValue { seq: 7, amlc_offset: 0x2000, data: DataOrFile::Data(vec![9]) },
    };
    match plan_step(&step) {
        StepPlan::WriteAmlcData { seq: 7, amlc_offset: 0x2000, data: DataOrFile::Data(bytes) } => {
            assert_eq!(bytes, vec![9])
        }
        other => panic!("unexpected plan {:?}", other),
    }
    let step = FlashStep::RestorePartition {
        value: flashthing::config::RestorePartitionValue { name: "env".to_string(), data: DataOrFile::Data(vec![]) },
    };
    match plan_step(&step) {
        StepPlan::RestorePartition { name, .. } => assert_eq!(name, "env"),
        other => panic!("unexpected plan {:?}", other),
    }
}

fn file(path: &str) -> MetaFile {
    MetaFile { file_path: path.to_string(), encoding: None }
}

#[test]
fn files_are_located_by_the_mode() {
    match locate(&FlashMode::Standalone, &file("./a/b.bin")) {
        FileSource::WorkingDir { path } => assert_eq!(path, "./a/b.bin"),
        other => panic!("unexpected source {:?}", other),
    }
    match locate(&FlashMode::Directory("/base".to_string()), &file("./a/b.bin")) {
        FileSource::Under { base, path } => {
            assert_eq!(base, "/base");
            assert_eq!(path, "./a/b.bin");
        }
        other => panic!("unexpected source {:?}", other),
    }
    for (path, name) in [
        ("./a/b.bin", "a/b.bin"),
        ("a/b.bin", "a/b.bin"),
        ("././x", "./x"),
        ("./", ""),
        (".", "."),
        ("", ""),
        ("../x", "../x"),
        ("./\u{e9}t\u{e9}.img", "\u{e9}t\u{e9}.img"),
        ("a/./b", "a/./b"),
    ] {
        match locate(&FlashMode::Archive, &file(path)) {
            FileSource::Entry { name: n } => assert_eq!(n, name, "{}", path),
            other => panic!("unexpected source {:?}", other),
        }
    }
}

#[test]
fn environment_must_be_ascii() {
    match soc().write_env("bootdelay=1\u{e9}") {
        Err(Error::InvalidOperation(message)) => assert_eq!(message, "env data must be ascii"),
        other => panic!("unexpected result {:?}", other),
    }
    let text = "bootdelay=1\nbootcmd=run storeboot\n";
    let write = soc().write_env(text).unwrap();
    assert_eq!(write.open, "amlmmc env");
    assert_eq!(write.import, "env import -t 0x1080000 0x22");
    assert_eq!(write.upload.header.value, 4096);
    assert_eq!(write.upload.header.index, 1);
    assert_eq!(&write.upload.header.data[0..4], &0x0108_0000u32.to_le_bytes());
    assert_eq!(write.upload.blocks.len(), 1);
    assert_eq!(&write.upload.blocks[0].data[..text.len()], text.as_bytes());
    assert!(write.upload.blocks[0].data[text.len()..].iter().all(|b| *b == 0));
    let empty = soc().write_env("").unwrap();
    assert_eq!(empty.import, "env import -t 0x1080000 0x0");
    assert!(empty.upload.blocks.is_empty());
}

#[test]
fn partitions_are_probed_before_a_restore() {
    let (info, command, probe) = soc().probe_partition("logo").unwrap();
    assert_eq!(info, partition("logo").unwrap());
    assert_eq!(command, "amlmmc read logo 0x1080000 0x7ffe00 0x200");
    assert_eq!(probe.size, 16384 * 512);
    assert_eq!(probe.name, "logo");
    assert!(soc().probe_partition("cache").is_none());
    assert!(soc().probe_partition("reserved").is_none());
    assert!(soc().probe_partition("nonesuch").is_none());
    let (_, _, probe) = soc().probe_partition("data").unwrap();
    assert_eq!(probe.fallback, Some(4378448 * 512));
}

#[test]
fn restore_needs_a_validated_size() {
    let info = partition("env").unwrap();
    let found = validation_outcome(Some((8388608, info)));
    assert!(matches!(found, FlashOutcome::ValidatePartitionResult(Some(8388608), Some(237568))));
    assert_eq!(restore_size(&found).unwrap(), 8388608);
    let missing = validation_outcome(None);
    assert!(matches!(missing, FlashOutcome::ValidatePartitionResult(None, None)));
    for outcome in [
        missing,
        FlashOutcome::Normal,
        FlashOutcome::ValidatePartitionResult(Some(1), None),
        FlashOutcome::ValidatePartitionResult(None, Some(1)),
    ] {
        match restore_size(&outcome) {
            Err(Error::InvalidOperation(message)) => assert_eq!(message, "Failed to validate partition size!"),
            other => panic!("unexpected result {:?}", other),
        }
    }
}
