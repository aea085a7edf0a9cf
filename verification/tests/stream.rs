use flashthing::aml::AmlogicSoC;
use flashthing::error::Error;
use flashthing::partitions::{partition, PartitionInfo};
use flashthing::stream::{
    build_env_import, Committed, SizeStep, StreamCommit, StreamLoad, StreamPrime, StreamStep, StreamUpload,
};

const MIB: usize = 1024 * 1024;

fn soc() -> AmlogicSoC {
    AmlogicSoC::new(0, 0x81, 0x02)
}

fn expect_prime(step: StreamStep, command: &str) -> StreamPrime {
    match step {
        StreamStep::Prime { command: c, next } => {
            assert_eq!(c, command);
            next
        }
        other => panic!("unexpected step {:?}", other),
    }
}

fn expect_load(step: StreamStep, pause: u64, length: usize) -> StreamLoad {
    match step {
        StreamStep::Load { pause_ms, length: l, next } => {
            assert_eq!(pause_ms, pause);
            assert_eq!(l, length);
            next
        }
        other => panic!("unexpected step {:?}", other),
    }
}

fn expect_upload(step: StreamStep, blocks: usize, block_length: usize) -> StreamUpload {
    match step {
        StreamStep::Upload { write, next } => {
            assert_eq!(write.header.request, 0x11);
            assert_eq!(write.header.value as usize, block_length);
            assert_eq!(write.header.index as usize, blocks);
            assert_eq!(&write.header.data[0..4], &0x0108_0000u32.to_le_bytes());
            assert_eq!(write.blocks.len(), blocks);
            next
        }
        other => panic!("unexpected step {:?}", other),
    }
}

fn expect_commit(step: StreamStep, pause: u64, command: &str) -> StreamCommit {
    match step {
        StreamStep::Commit { pause_ms, command: c, next } => {
            assert_eq!(pause_ms, pause);
            assert_eq!(c, command);
            next
        }
        other => panic!("unexpected step {:?}", other),
    }
}

fn expect_finish(step: StreamStep, pause: u64) -> Result<(), Error> {
    match step {
        StreamStep::Finish { pause_ms, result } => {
            assert_eq!(pause_ms, pause);
            result
        }
        other => panic!("unexpected step {:?}", other),
    }
}

#[test]
fn disk_stream_stages_and_commits_piece_by_piece() {
    let total = 8 * MIB + 4096 + 100;
    let prime = expect_prime(soc().write_large_memory_to_disk(0x4e000, total, 4096, true), "mmc dev 1");
    let prime = expect_prime(prime.primed(Ok(())), "amlmmc key");
    let load = expect_load(prime.primed(Ok(())), 0, 8 * MIB);
    let upload = expect_upload(load.loaded(Ok(vec![0x11; 8 * MIB])), 2048, 4096);
    let commit = expect_commit(upload.uploaded(Ok(())), 0, "mmc write 0x1080000 0x270 0x4000");
    let (done, step) = commit.committed(Ok(1200));
    assert_eq!(done, Some(Committed { offset: 8 * MIB, total, length: 8 * MIB }));
    let load = expect_load(step, 0, 4196);
    let upload = expect_upload(load.loaded(Ok(vec![0x22; 4196])), 2, 4096);
    let commit = expect_commit(upload.uploaded(Ok(())), 0, "mmc write 0x1080000 0x4270 0x8");
    let (done, step) = commit.committed(Ok(3001));
    assert_eq!(done, Some(Committed { offset: total, total, length: 4196 }));
    assert!(expect_finish(step, 5000).is_ok());
}

#[test]
fn slow_commit_is_followed_by_a_cooldown() {
    let prime = expect_prime(soc().write_large_memory_to_disk(0, 1024, 512, true), "mmc dev 1");
    let prime = expect_prime(prime.primed(Ok(())), "amlmmc key");
    let load = expect_load(prime.primed(Ok(())), 0, 1024);
    let upload = expect_upload(load.loaded(Ok(vec![1; 1024])), 2, 512);
    let commit = expect_commit(upload.uploaded(Ok(())), 0, "mmc write 0x1080000 0x0 0x2");
    let (_, step) = commit.committed(Ok(3000));
    assert!(expect_finish(step, 0).is_ok());
}

#[test]
fn empty_stream_ends_after_priming() {
    let prime = expect_prime(soc().write_large_memory_to_disk(0, 0, 4096, true), "mmc dev 1");
    let prime = expect_prime(prime.primed(Ok(())), "amlmmc key");
    assert!(expect_finish(prime.primed(Ok(())), 0).is_ok());
}

#[test]
fn priming_errors_end_the_stream() {
    let prime = expect_prime(soc().write_large_memory_to_disk(0, 10, 4096, true), "mmc dev 1");
    assert!(matches!(expect_finish(prime.primed(Err(Error::NotFound)), 0), Err(Error::NotFound)));
    let prime = expect_prime(soc().write_large_memory_to_disk(0, 10, 4096, true), "mmc dev 1");
    let prime = expect_prime(prime.primed(Ok(())), "amlmmc key");
    assert!(matches!(expect_finish(prime.primed(Err(Error::WrongMode)), 0), Err(Error::WrongMode)));
}

#[test]
fn commit_is_tried_three_times_in_all() {
    let prime = expect_prime(soc().write_large_memory_to_disk(512, 512, 512, false), "mmc dev 1");
    let prime = expect_prime(prime.primed(Ok(())), "amlmmc key");
    let load = expect_load(prime.primed(Ok(())), 0, 512);
    let upload = expect_upload(load.loaded(Ok(vec![1; 512])), 1, 512);
    let commit = expect_commit(upload.uploaded(Ok(())), 0, "mmc write 0x1080000 0x1 0x1");
    let (done, step) = commit.committed(Err(Error::NotFound));
    assert_eq!(done, None);
    let commit = expect_commit(step, 5000, "mmc write 0x1080000 0x1 0x1");
    let (done, step) = commit.committed(Err(Error::NotFound));
    assert_eq!(done, None);
    let commit = expect_commit(step, 5000, "mmc write 0x1080000 0x1 0x1");
    let (done, step) = commit.committed(Err(Error::Utf8Error));
    assert_eq!(done, None);
    assert!(matches!(expect_finish(step, 0), Err(Error::Utf8Error)));
}

#[test]
fn a_retried_commit_can_still_go_through() {
    let prime = expect_prime(soc().write_large_memory_to_disk(0, 512, 512, false), "mmc dev 1");
    let prime = expect_prime(prime.primed(Ok(())), "amlmmc key");
    let load = expect_load(prime.primed(Ok(())), 0, 512);
    let upload = expect_upload(load.loaded(Ok(vec![1; 512])), 1, 512);
    let commit = expect_commit(upload.uploaded(Ok(())), 0, "mmc write 0x1080000 0x0 0x1");
    let (_, step) = commit.committed(Err(Error::NotFound));
    let commit = expect_commit(step, 5000, "mmc write 0x1080000 0x0 0x1");
    let (done, step) = commit.committed(Ok(5400));
    assert_eq!(done, Some(Committed { offset: 512, total: 512, length: 512 }));
    assert!(expect_finish(step, 5000).is_ok());
}

#[test]
fn loading_and_staging_errors_end_the_stream() {
    let load = |total: usize, block: usize, zeros: bool| {
        let prime = expect_prime(soc().write_large_memory_to_disk(0, total, block, zeros), "mmc dev 1");
        let prime = expect_prime(prime.primed(Ok(())), "amlmmc key");
        expect_load(prime.primed(Ok(())), 0, total)
    };
    assert!(matches!(
        expect_finish(load(100, 512, true).loaded(Err(Error::IoError("gone".to_string()))), 0),
        Err(Error::IoError(_))
    ));
    match expect_finish(load(100, 512, true).loaded(Ok(vec![0; 99])), 0) {
        Err(Error::IoError(message)) => assert_eq!(message, "failed to fill whole buffer"),
        other => panic!("unexpected result {:?}", other),
    }
    assert!(matches!(
        expect_finish(load(100, 512, false).loaded(Ok(vec![0; 100])), 0),
        Err(Error::InvalidOperation(_))
    ));
    let upload = expect_upload(load(100, 512, true).loaded(Ok(vec![0; 100])), 1, 512);
    assert!(matches!(expect_finish(upload.uploaded(Err(Error::WrongMode)), 0), Err(Error::WrongMode)));
}

#[test]
fn partition_restore_commits_by_name_with_retries() {
    let step = soc().restore_partition("env", 16384 * 512, 5000).unwrap();
    let prime = expect_prime(step, "amlmmc key");
    let load = expect_load(prime.primed(Ok(())), 0, 5000);
    let upload = expect_upload(load.loaded(Ok(vec![3; 5000])), 2, 4096);
    let commit = expect_commit(upload.uploaded(Ok(())), 0, "amlmmc write env 0x1080000 0x0 0x1388");
    let (done, step) = commit.committed(Err(Error::NotFound));
    assert_eq!(done, None);
    let commit = expect_commit(step, 5000, "amlmmc write env 0x1080000 0x0 0x1388");
    let (done, step) = commit.committed(Ok(10));
    assert_eq!(done, Some(Committed { offset: 5000, total: 5000, length: 5000 }));
    assert!(expect_finish(step, 0).is_ok());
}

#[test]
fn partition_restore_uses_the_offset_within_the_partition() {
    let total = 8 * MIB + 512;
    let step = soc().restore_partition("system_a", 1056856 * 512, total).unwrap();
    let prime = expect_prime(step, "amlmmc key");
    let load = expect_load(prime.primed(Ok(())), 0, 8 * MIB);
    let upload = expect_upload(load.loaded(Ok(vec![3; 8 * MIB])), 2048, 4096);
    let commit = expect_commit(upload.uploaded(Ok(())), 0, "amlmmc write system_a 0x1080000 0x0 0x800000");
    let (_, step) = commit.committed(Ok(4000));
    let load = expect_load(step, 5000, 512);
    let upload = expect_upload(load.loaded(Ok(vec![3; 512])), 1, 4096);
    expect_commit(upload.uploaded(Ok(())), 0, "amlmmc write system_a 0x1080000 0x800000 0x200");
}

#[test]
fn bootloader_commit_is_tried_once_whatever_comes_back() {
    for outcome in [Err(Error::InvalidOperation("timeout".to_string())), Ok(9000u64)] {
        let step = soc().restore_partition("bootloader", 4096 * 512, 4 * MIB).unwrap();
        let prime = expect_prime(step, "amlmmc key");
        let load = expect_load(prime.primed(Ok(())), 0, 4 * MIB);
        let upload = expect_upload(load.loaded(Ok(vec![3; 4 * MIB])), 1024, 4096);
        let commit = expect_commit(upload.uploaded(Ok(())), 0, "amlmmc write bootloader 0x1080000 0x0 0x400000");
        let (done, step) = commit.committed(outcome);
        assert_eq!(done, Some(Committed { offset: 4 * MIB, total: 4 * MIB, length: 4 * MIB }));
        assert!(expect_finish(step, 2000).is_ok());
    }
}

#[test]
fn larger_files_are_refused_but_for_the_bootloader() {
    for name in ["env", "logo", "data", "misc"] {
        let info = partition(name).unwrap();
        let bytes = info.size * 512;
        assert!(soc().restore_partition(name, bytes, bytes).is_ok());
        match soc().restore_partition(name, bytes, bytes + 1) {
            Err(Error::InvalidOperation(message)) => assert_eq!(
                message,
                format!("file is larger than target partition: {} bytes vs {} bytes", bytes + 1, bytes)
            ),
            other => panic!("unexpected result {:?}", other),
        }
    }
    assert!(soc().restore_partition("bootloader", 4096 * 512, 2 * MIB + 1).is_ok());
    assert!(soc().restore_partition("bootloader", 4096 * 512, 64 * MIB).is_ok());
}

#[test]
fn partition_table_holds_the_known_partitions() {
    assert_eq!(partition("bootloader"), Some(PartitionInfo { offset: 0, size: 4096, size_alt: None }));
    assert_eq!(partition("reserved"), Some(PartitionInfo { offset: 73728, size: 131072, size_alt: None }));
    assert_eq!(partition("cache"), Some(PartitionInfo { offset: 221184, size: 0, size_alt: None }));
    assert_eq!(partition("env"), Some(PartitionInfo { offset: 237568, size: 16384, size_alt: None }));
    assert_eq!(partition("fip_a"), Some(PartitionInfo { offset: 270336, size: 8192, size_alt: None }));
    assert_eq!(partition("fip_b"), Some(PartitionInfo { offset: 294912, size: 8192, size_alt: None }));
    assert_eq!(partition("logo"), Some(PartitionInfo { offset: 319488, size: 16384, size_alt: None }));
    assert_eq!(partition("dtbo_a"), Some(PartitionInfo { offset: 352256, size: 8192, size_alt: None }));
    assert_eq!(partition("dtbo_b"), Some(PartitionInfo { offset: 376832, size: 8192, size_alt: None }));
    assert_eq!(partition("vbmeta_a"), Some(PartitionInfo { offset: 401408, size: 2048, size_alt: None }));
    assert_eq!(partition("vbmeta_b"), Some(PartitionInfo { offset: 419840, size: 2048, size_alt: None }));
    assert_eq!(partition("boot_a"), Some(PartitionInfo { offset: 438272, size: 32768, size_alt: None }));
    assert_eq!(partition("boot_b"), Some(PartitionInfo { offset: 487424, size: 32768, size_alt: None }));
    assert_eq!(partition("system_a"), Some(PartitionInfo { offset: 536576, size: 1056856, size_alt: None }));
    assert_eq!(partition("system_b"), Some(PartitionInfo { offset: 1609816, size: 1056856, size_alt: None }));
    assert_eq!(partition("misc"), Some(PartitionInfo { offset: 2683056, size: 16384, size_alt: None }));
    assert_eq!(partition("settings"), Some(PartitionInfo { offset: 2715824, size: 524288, size_alt: None }));
    assert_eq!(
        partition("data"),
        Some(PartitionInfo { offset: 3256496, size: 4476752, size_alt: Some(4378448) })
    );
    assert_eq!(partition("Data"), None);
    assert_eq!(partition(""), None);
    assert_eq!(partition("boot"), None);
}

#[test]
fn size_probe_reads_the_last_sector() {
    let info = partition("env").unwrap();
    let (command, probe) = soc().validate_partition_size("env", &info).unwrap();
    assert_eq!(command, "amlmmc read env 0x1080000 0x7ffe00 0x200");
    assert_eq!(probe.size, 16384 * 512);
    assert_eq!(probe.fallback, None);
    assert!(matches!(probe.answered(Ok(())), SizeStep::Found(8388608)));
    let (_, probe) = soc().validate_partition_size("env", &info).unwrap();
    assert!(matches!(probe.answered(Err(Error::NotFound)), SizeStep::Failed(Error::NotFound)));
}

#[test]
fn data_partition_has_a_second_size_to_probe() {
    let info = partition("data").unwrap();
    let (command, probe) = soc().validate_partition_size("data", &info).unwrap();
    assert_eq!(command, "amlmmc read data 0x1080000 0x889e9e00 0x200");
    assert_eq!(probe.fallback, Some(4378448 * 512));
    let probe = match probe.answered(Err(Error::NotFound)) {
        SizeStep::Probe { command, next } => {
            assert_eq!(command, "amlmmc read data 0x1080000 0x859e9e00 0x200");
            next
        }
        other => panic!("unexpected step {:?}", other),
    };
    assert!(matches!(probe.answered(Ok(())), SizeStep::Found(2241765376)));
    let (_, probe) = soc().validate_partition_size("data", &info).unwrap();
    let probe = match probe.answered(Err(Error::NotFound)) {
        SizeStep::Probe { next, .. } => next,
        other => panic!("unexpected step {:?}", other),
    };
    assert!(matches!(probe.answered(Err(Error::WrongMode)), SizeStep::Failed(Error::WrongMode)));
    let other = PartitionInfo { offset: 0, size: 100, size_alt: Some(50) };
    let (_, probe) = soc().validate_partition_size("logo", &other).unwrap();
    assert_eq!(probe.fallback, None);
}

#[test]
fn cache_and_reserved_are_refused() {
    match soc().validate_partition_size("cache", &partition("cache").unwrap()) {
        Err(Error::InvalidOperation(message)) => assert_eq!(message, "Cache partition is zero-length"),
        other => panic!("unexpected result {:?}", other),
    }
    match soc().validate_partition_size("reserved", &partition("reserved").unwrap()) {
        Err(Error::InvalidOperation(message)) => assert_eq!(message, "Reserved partition cannot be accessed"),
        other => panic!("unexpected result {:?}", other),
    }
}

#[test]
fn env_import_command_names_the_length_in_upper_case_hex() {
    assert_eq!(build_env_import(0), "env import -t 0x1080000 0x0");
    assert_eq!(build_env_import(0x1abc), "env import -t 0x1080000 0x1ABC");
    assert_eq!(build_env_import(255), "env import -t 0x1080000 0xFF");
    assert_eq!(build_env_import(16), "env import -t 0x1080000 0x10");
}

#[test]
fn oversize_message_names_both_sizes_in_decimal() {
    match soc().restore_partition("logo", 8388608, 10000001) {
        Err(Error::InvalidOperation(message)) => {
            assert_eq!(message, "file is larger than target partition: 10000001 bytes vs 8388608 bytes")
        }
        other => panic!("unexpected result {:?}", other),
    }
    match soc().restore_partition("x", 0, 1) {
        Err(Error::InvalidOperation(message)) => {
            assert_eq!(message, "file is larger than target partition: 1 bytes vs 0 bytes")
        }
        other => panic!("unexpected result {:?}", other),
    }
}

#[test]
fn partition_commit_writes_its_numbers_in_upper_case_hex() {
    let step = soc().restore_partition("env", 16384 * 512, 10).unwrap();
    let prime = expect_prime(step, "amlmmc key");
    let load = expect_load(prime.primed(Ok(())), 0, 10);
    let upload = expect_upload(load.loaded(Ok(vec![3; 10])), 1, 4096);
    expect_commit(upload.uploaded(Ok(())), 0, "amlmmc write env 0x1080000 0x0 0xA");

    let total = 8 * MIB + 0xabc;
    let step = soc().restore_partition("data", 4476752 * 512, total).unwrap();
    let prime = expect_prime(step, "amlmmc key");
    let load = expect_load(prime.primed(Ok(())), 0, 8 * MIB);
    let upload = expect_upload(load.loaded(Ok(vec![3; 8 * MIB])), 2048, 4096);
    let commit = expect_commit(upload.uploaded(Ok(())), 0, "amlmmc write data 0x1080000 0x0 0x800000");
    let (_, step) = commit.committed(Ok(1));
    let load = expect_load(step, 0, 0xabc);
    let upload = expect_upload(load.loaded(Ok(vec![3; 0xabc])), 1, 4096);
    expect_commit(upload.uploaded(Ok(())), 0, "amlmmc write data 0x1080000 0x800000 0xABC");
}

#[test]
fn first_probe_decides_whatever_the_alternative_size_is() {
    for size_alt in [None, Some(0), Some(1), Some(50), Some(100), Some(5000)] {
        let info = PartitionInfo { offset: 0, size: 100, size_alt };
        let (command, probe) = soc().validate_partition_size("logo", &info).unwrap();
        assert_eq!(command, "amlmmc read logo 0x1080000 0xc600 0x200");
        assert_eq!(probe.fallback, None);
        assert!(matches!(probe.answered(Ok(())), SizeStep::Found(51200)));
    }
    for size_alt in [Some(1), Some(50), Some(100), Some(5000)] {
        let info = PartitionInfo { offset: 0, size: 100, size_alt };
        let (_, probe) = soc().validate_partition_size("data", &info).unwrap();
        assert!(matches!(probe.answered(Ok(())), SizeStep::Found(51200)));
    }
}

#[test]
fn second_probe_of_data_reads_the_last_sector_of_the_alternative_size() {
    let info = PartitionInfo { offset: 0, size: 100, size_alt: Some(5000) };
    let (command, probe) = soc().validate_partition_size("data", &info).unwrap();
    assert_eq!(command, "amlmmc read data 0x1080000 0xc600 0x200");
    assert_eq!(probe.fallback, Some(5000 * 512));
    let probe = match probe.answered(Err(Error::NotFound)) {
        SizeStep::Probe { command, next } => {
            assert_eq!(command, "amlmmc read data 0x1080000 0x270e00 0x200");
            next
        }
        other => panic!("unexpected step {:?}", other),
    };
    assert!(matches!(probe.answered(Ok(())), SizeStep::Found(2560000)));
    let info = PartitionInfo { offset: 0, size: 100, size_alt: Some(1) };
    let (_, probe) = soc().validate_partition_size("data", &info).unwrap();
    let probe = match probe.answered(Err(Error::NotFound)) {
        SizeStep::Probe { command, next } => {
            assert_eq!(command, "amlmmc read data 0x1080000 0x0 0x200");
            next
        }
        other => panic!("unexpected step {:?}", other),
    };
    assert!(matches!(probe.answered(Err(Error::WrongMode)), SizeStep::Failed(Error::WrongMode)));
}
