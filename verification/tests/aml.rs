use flashthing::aml::AmlogicSoC;
use flashthing::error::Error;
use flashthing::usb::{split_address, BulkIn, ControlIn};

fn soc() -> AmlogicSoC {
    AmlogicSoC::new(0, 0x81, 0x02)
}

#[test]
fn address_is_split_into_value_and_index() {
    assert_eq!(split_address(0x0108_0000), (0x0108, 0x0000));
    assert_eq!(split_address(0xfffa_1234), (0xfffa, 0x1234));
    assert_eq!(split_address(0), (0, 0));
    assert_eq!(split_address(u32::MAX), (0xffff, 0xffff));
}

#[test]
fn write_simple_memory_frames_up_to_64_bytes() {
    for len in [0usize, 1, 63, 64] {
        let data: Vec<u8> = (0..len).map(|i| i as u8).collect();
        let request = soc().write_simple_memory(0x1234_5678, &data).unwrap();
        assert_eq!(request.request_type, 0x40);
        assert_eq!(request.request, 0x01);
        assert_eq!(request.value, 0x1234);
        assert_eq!(request.index, 0x5678);
        assert_eq!(request.data, data);
        assert_eq!(request.timeout_ms, 10_000);
    }
}

#[test]
fn write_simple_memory_refuses_more_than_64_bytes() {
    for len in [65usize, 66, 1000] {
        match soc().write_simple_memory(0, &vec![0u8; len]) {
            Err(Error::InvalidOperation(message)) => assert_eq!(message, "Maximum size of 64 bytes"),
            other => panic!("unexpected result {:?}", other),
        }
    }
}

#[test]
fn write_memory_goes_in_chunks_of_64() {
    let data: Vec<u8> = (0..150u32).map(|i| i as u8).collect();
    let plan = soc().write_memory(0x0001_ffc0, &data);
    assert_eq!(plan.len(), 3);
    assert_eq!((plan[0].value, plan[0].index), (0x0001, 0xffc0));
    assert_eq!((plan[1].value, plan[1].index), (0x0002, 0x0000));
    assert_eq!((plan[2].value, plan[2].index), (0x0002, 0x0040));
    assert_eq!(plan[0].data, data[0..64]);
    assert_eq!(plan[1].data, data[64..128]);
    assert_eq!(plan[2].data, data[128..150]);
    assert!(plan.iter().all(|r| r.request == 0x01 && r.request_type == 0x40));
    assert!(soc().write_memory(5, &[]).is_empty());
    assert_eq!(soc().write_memory(5, &data[..64]).len(), 1);
}

#[test]
fn read_simple_memory_asks_for_up_to_64_bytes() {
    assert_eq!(soc().read_simple_memory(0x10, 0).unwrap(), None);
    assert_eq!(
        soc().read_simple_memory(0xabcd_0123, 64).unwrap(),
        Some(ControlIn {
            request_type: 0xC0,
            request: 0x02,
            value: 0xabcd,
            index: 0x0123,
            length: 64,
            timeout_ms: 10_000
        })
    );
    assert!(matches!(soc().read_simple_memory(0x10, 65), Err(Error::InvalidOperation(_))));
    assert_eq!(soc().read_simple_memory_reply(3, vec![1, 2, 3]).unwrap(), vec![1, 2, 3]);
    match soc().read_simple_memory_reply(3, vec![1, 2]) {
        Err(Error::InvalidOperation(message)) => assert_eq!(message, "Incomplete read"),
        other => panic!("unexpected result {:?}", other),
    }
}

#[test]
fn run_keeps_the_power_on_unless_told_otherwise() {
    let kept = soc().run(0xfffa_0000, None);
    assert_eq!(kept.request, 0x05);
    assert_eq!((kept.value, kept.index), (0xfffa, 0x0000));
    assert_eq!(kept.data, vec![0x10, 0x00, 0xfa, 0xff]);
    assert_eq!(soc().run(0xfffa_0000, Some(true)).data, vec![0x10, 0x00, 0xfa, 0xff]);
    assert_eq!(soc().run(0xfffa_0000, Some(false)).data, vec![0x00, 0x00, 0xfa, 0xff]);
    assert_eq!(soc().run(0x0102_0304, Some(false)).data, vec![0x04, 0x03, 0x02, 0x01]);
}

#[test]
fn identify_reads_eight_bytes_of_text() {
    let request = soc().identify();
    assert_eq!((request.request_type, request.request, request.length), (0xC0, 0x20, 8));
    assert_eq!((request.value, request.index), (0, 0));
    assert_eq!(soc().identify_reply(b"GXL-v1.0".to_vec()).unwrap(), "GXL-v1.0");
    assert!(matches!(soc().identify_reply(vec![0; 7]), Err(Error::InvalidOperation(_))));
    assert!(matches!(soc().identify_reply(vec![0xff; 8]), Err(Error::Utf8Error)));
}

#[test]
fn bulkcmd_sends_the_text_and_a_zero_byte() {
    let (request, reply) = soc().bulkcmd("mmc dev 1");
    assert_eq!(request.request_type, 0x40);
    assert_eq!(request.request, 0x34);
    assert_eq!((request.value, request.index), (0, 0));
    assert_eq!(request.data, b"mmc dev 1\0");
    assert_eq!(reply, BulkIn { endpoint: 0x81, length: 512, timeout_ms: 10_000 });
    let (raw, _) = soc().bulkcmd_bytes(b"saveenv");
    assert_eq!(raw.data, b"saveenv\0");
}

#[test]
fn bulkcmd_reply_is_accepted_when_it_mentions_success() {
    assert_eq!(soc().bulkcmd_reply(b"success\0\0").unwrap(), "success");
    assert_eq!(soc().bulkcmd_reply(b"\0\0Success: done\0").unwrap(), "Success: done");
    assert_eq!(soc().bulkcmd_reply(b"it was a SUCCESS").unwrap(), "it was a SUCCESS");
    assert_eq!(soc().bulkcmd_reply(b"a\0success").unwrap(), "a\0success");
}

#[test]
fn bulkcmd_reply_is_refused_otherwise() {
    match soc().bulkcmd_reply(b"failure: timeout") {
        Err(Error::InvalidOperation(message)) => {
            assert_eq!(message, "Bulk command failed, response did not contain 'success': failure: timeout")
        }
        other => panic!("unexpected result {:?}", other),
    }
    match soc().bulkcmd_reply(b"") {
        Err(Error::InvalidOperation(message)) => assert_eq!(message, "No response received for bulk command"),
        other => panic!("unexpected result {:?}", other),
    }
    assert!(matches!(soc().bulkcmd_reply(&[0, 0, 0]), Err(Error::InvalidOperation(_))));
    assert!(matches!(soc().bulkcmd_reply(b"succes"), Err(Error::InvalidOperation(_))));
    assert!(matches!(soc().bulkcmd_reply(b"success \xff"), Err(Error::Utf8Error)));
    assert!(matches!(soc().bulkcmd_reply(b"\xff\xfe"), Err(Error::Utf8Error)));
}

#[test]
fn large_memory_framing() {
    let write = soc().write_large_memory(0x0108_0000, &vec![0u8; 4097], 4096, true).unwrap();
    assert_eq!(write.header.request_type, 0x40);
    assert_eq!(write.header.request, 0x11);
    assert_eq!(write.header.value, 4096);
    assert_eq!(write.header.index, 2);
    assert_eq!(
        write.header.data,
        vec![0x00, 0x00, 0x08, 0x01, 0x00, 0x20, 0x00, 0x00, 0, 0, 0, 0, 0, 0, 0, 0]
    );
    assert_eq!(write.blocks.len(), 2);
    for block in &write.blocks {
        assert_eq!(block.endpoint, 0x02);
        assert_eq!(block.timeout_ms, 2000);
        assert_eq!(block.data, vec![0u8; 4096]);
    }
}

#[test]
fn large_memory_is_padded_to_whole_blocks() {
    for (len, block) in [(0usize, 512usize), (1, 512), (511, 512), (512, 512), (513, 512), (1000, 7), (4096, 4096)] {
        let data: Vec<u8> = (0..len).map(|i| (i % 251) as u8 + 1).collect();
        let write = soc().write_large_memory(0x100, &data, block, true).unwrap();
        let total: usize = write.blocks.iter().map(|b| b.data.len()).sum();
        assert_eq!(total % block, 0);
        assert!(len <= total && total < len + block);
        assert_eq!(write.header.value as usize, block);
        assert_eq!(write.header.index as usize, total / block);
        assert_eq!(write.header.data[4..8], (total as u32).to_le_bytes());
        let sent: Vec<u8> = write.blocks.iter().flat_map(|b| b.data.clone()).collect();
        assert_eq!(sent[..len], data[..]);
        assert!(sent[len..].iter().all(|b| *b == 0));
        assert!(write.blocks.iter().all(|b| b.data.len() == block));
    }
}

#[test]
fn large_memory_without_padding_must_fill_its_blocks() {
    assert!(matches!(
        soc().write_large_memory(0, &[0u8; 513], 512, false),
        Err(Error::InvalidOperation(_))
    ));
    let write = soc().write_large_memory(0, &[7u8; 1024], 512, false).unwrap();
    assert_eq!(write.blocks.len(), 2);
    assert_eq!(write.header.index, 2);
}

#[test]
fn large_memory_refuses_what_the_header_cannot_hold() {
    assert!(matches!(soc().write_large_memory(0, &[1, 2, 3], 0, true), Err(Error::InvalidOperation(_))));
    assert!(matches!(soc().write_large_memory(0, &[1, 2, 3], 65536, true), Err(Error::InvalidOperation(_))));
    assert!(matches!(soc().write_large_memory(0, &vec![0u8; 65536], 1, true), Err(Error::InvalidOperation(_))));
    assert_eq!(soc().write_large_memory(0, &vec![0u8; 65535], 1, true).unwrap().blocks.len(), 65535);
}

fn amlc_block(tag: &[u8], length: u32, offset: u32) -> Vec<u8> {
    let mut block = vec![0u8; 512];
    block[..4].copy_from_slice(tag);
    block[8..12].copy_from_slice(&length.to_le_bytes());
    block[12..16].copy_from_slice(&offset.to_le_bytes());
    block
}

#[test]
fn get_boot_amlc_reads_length_and_offset() {
    let (request, reply) = soc().get_boot_amlc();
    assert_eq!((request.request_type, request.request, request.value, request.index), (0x40, 0x50, 0x200, 0));
    assert!(request.data.is_empty());
    assert_eq!(reply, BulkIn { endpoint: 0x81, length: 512, timeout_ms: 2000 });
    let ((length, offset), ack) = soc().get_boot_amlc_reply(&amlc_block(b"AMLC", 0x4000, 0x0001_8000)).unwrap();
    assert_eq!((length, offset), (0x4000, 0x0001_8000));
    assert_eq!(ack.endpoint, 0x02);
    assert_eq!(ack.timeout_ms, 2000);
    assert_eq!(ack.data, b"OKAY\0\0\0\0\0\0\0\0\0\0\0\0");
}

#[test]
fn get_boot_amlc_refuses_other_blocks() {
    match soc().get_boot_amlc_reply(&amlc_block(b"AMLC", 1, 2)[..511]) {
        Err(Error::InvalidOperation(message)) => assert_eq!(message, "No amlc data received"),
        other => panic!("unexpected result {:?}", other),
    }
    match soc().get_boot_amlc_reply(&amlc_block(b"AMLS", 1, 2)) {
        Err(Error::InvalidOperation(message)) => assert_eq!(message, "invalid amlc request: AMLS"),
        other => panic!("unexpected result {:?}", other),
    }
    assert!(matches!(
        soc().get_boot_amlc_reply(&amlc_block(&[0xff, 0xff, 0xff, 0xff], 1, 2)),
        Err(Error::Utf8Error)
    ));
}

#[test]
fn read_memory_asks_in_chunks_of_64() {
    let plan = soc().read_memory(0x0001_ffc0, 150);
    assert_eq!(plan.len(), 3);
    assert_eq!((plan[0].value, plan[0].index, plan[0].length), (0x0001, 0xffc0, 64));
    assert_eq!((plan[1].value, plan[1].index, plan[1].length), (0x0002, 0x0000, 64));
    assert_eq!((plan[2].value, plan[2].index, plan[2].length), (0x0002, 0x0040, 22));
    assert!(plan.iter().all(|r| r.request == 0x02 && r.request_type == 0xC0 && r.timeout_ms == 10_000));
    assert!(soc().read_memory(7, 0).is_empty());
    assert_eq!(soc().read_memory(7, 64).len(), 1);
    assert_eq!(soc().read_memory(7, 65).len(), 2);
}

#[test]
fn read_memory_joins_the_pieces() {
    let data: Vec<u8> = (0..150u32).map(|i| i as u8).collect();
    let pieces = vec![data[0..64].to_vec(), data[64..128].to_vec(), data[128..150].to_vec()];
    assert_eq!(soc().read_memory_reply(150, &pieces).unwrap(), data);
    assert_eq!(soc().read_memory_reply(0, &vec![]).unwrap(), Vec::<u8>::new());
    let short = vec![data[0..64].to_vec(), data[64..128].to_vec(), data[128..149].to_vec()];
    let missing = vec![data[0..64].to_vec(), data[64..128].to_vec()];
    let uneven = vec![data[0..63].to_vec(), data[63..128].to_vec(), data[128..150].to_vec()];
    let extra = vec![data[0..64].to_vec(), data[64..128].to_vec(), data[128..150].to_vec(), vec![]];
    for bad in [short, missing, uneven, extra] {
        match soc().read_memory_reply(150, &bad) {
            Err(Error::InvalidOperation(message)) => assert_eq!(message, "Incomplete read"),
            other => panic!("unexpected result {:?}", other),
        }
    }
}
