use flashthing::aml::AmlogicSoC;
use flashthing::boot::{BootAsk, BootSend, BootStep};
use flashthing::device::{
    connect_failed, find_amlogic, find_device, init_plan, mode_of_product, ConnectStep, DeviceId, DeviceMode, EndpointInfo,
    InitPlan, InterfaceInfo, Sighting,
};
use flashthing::error::Error;

fn soc() -> AmlogicSoC {
    AmlogicSoC::new(0, 0x81, 0x02)
}

fn bootloader() -> Vec<u8> {
    (0..3000u32).map(|i| (i % 251) as u8).collect()
}

fn expect_send(step: BootStep, seq: u8, offset: u32, data: &[u8]) -> BootSend {
    match step {
        BootStep::Send { seq: s, offset: o, data: d, next } => {
            assert_eq!(s, seq);
            assert_eq!(o, offset);
            assert_eq!(d, data);
            next
        }
        other => panic!("unexpected step {:?}", other),
    }
}

fn expect_ask(step: BootStep, pause: u64) -> BootAsk {
    match step {
        BootStep::Ask { pause_ms, next } => {
            assert_eq!(pause_ms, pause);
            next
        }
        other => panic!("unexpected step {:?}", other),
    }
}

#[test]
fn bl2_boot_uploads_and_starts_bl2() {
    let bl2 = vec![0xabu8; 5000];
    let start = soc().bl2_boot(&bl2, bootloader()).unwrap();
    assert_eq!(start.upload.header.request, 0x11);
    assert_eq!(start.upload.header.value, 4096);
    assert_eq!(start.upload.header.index, 2);
    assert_eq!(&start.upload.header.data[0..4], &0xfffa_0000u32.to_le_bytes());
    assert_eq!(&start.upload.header.data[4..8], &8192u32.to_le_bytes());
    assert_eq!(start.upload.blocks.len(), 2);
    assert_eq!(start.run.request, 0x05);
    assert_eq!((start.run.value, start.run.index), (0xfffa, 0));
    assert_eq!(start.run.data, vec![0x10, 0x00, 0xfa, 0xff]);
    assert_eq!(start.settle_ms, 2000);
    assert_eq!((start.next.seq, start.next.iterations, start.next.retry_count), (0, 1, 0));
}

#[test]
fn bl2_handshake_termination() {
    let image = bootloader();
    let start = soc().bl2_boot(&[1, 2, 3], image.clone()).unwrap();
    let send = expect_send(start.next.asked(Ok((1024, 0))), 0, 0, &image[0..1024]);
    let ask = expect_ask(send.sent(Ok(())), 100);
    let send = expect_send(ask.asked(Ok((1024, 1024))), 1, 1024, &image[1024..2048]);
    let ask = expect_ask(send.sent(Ok(())), 100);
    match ask.asked(Ok((1024, 1024))) {
        BootStep::Finish(Ok(())) => {}
        other => panic!("unexpected step {:?}", other),
    }
}

#[test]
fn handshake_serves_what_is_left_and_nothing_behind_the_end() {
    let image = bootloader();
    let start = soc().bl2_boot(&[1], image.clone()).unwrap();
    let send = expect_send(start.next.asked(Ok((1024, 2500))), 0, 2500, &image[2500..3000]);
    let ask = expect_ask(send.sent(Ok(())), 100);
    let send = expect_send(ask.asked(Ok((1024, 3000))), 1, 3000, &[]);
    let ask = expect_ask(send.sent(Ok(())), 100);
    let send = expect_send(ask.asked(Ok((16, 1_000_000))), 2, 1_000_000, &[]);
    let ask = expect_ask(send.sent(Ok(())), 100);
    expect_send(ask.asked(Ok((0, 7))), 3, 7, &[]);
}

#[test]
fn handshake_ends_at_once_on_a_request_for_nothing_at_zero() {
    let start = soc().bl2_boot(&[1], bootloader()).unwrap();
    assert!(matches!(start.next.asked(Ok((0, 0))), BootStep::Finish(Ok(()))));
}

#[test]
fn handshake_asks_three_times_in_all() {
    let start = soc().bl2_boot(&[1], bootloader()).unwrap();
    let ask = expect_ask(start.next.asked(Err(Error::NotFound)), 500);
    assert_eq!(ask.retry_count, 1);
    let ask = expect_ask(ask.asked(Err(Error::NotFound)), 500);
    assert_eq!(ask.retry_count, 2);
    assert!(matches!(ask.asked(Err(Error::WrongMode)), BootStep::Finish(Err(Error::WrongMode))));
}

#[test]
fn handshake_passes_a_send_error_on() {
    let start = soc().bl2_boot(&[1], bootloader()).unwrap();
    let send = expect_send(start.next.asked(Ok((10, 0))), 0, 0, &bootloader()[0..10]);
    assert!(matches!(send.sent(Err(Error::Utf8Error)), BootStep::Finish(Err(Error::Utf8Error))));
}

#[test]
fn handshake_stops_after_fifty_requests_and_wraps_its_sequence_number() {
    let image = bootloader();
    let mut ask = soc().bl2_boot(&[1], image.clone()).unwrap().next;
    for round in 0..50u32 {
        assert_eq!(ask.iterations, round as usize + 1);
        let send = expect_send(ask.asked(Ok((1, round + 1))), round as u8, round + 1, &image[round as usize + 1..round as usize + 2]);
        match send.sent(Ok(())) {
            BootStep::Ask { pause_ms: 100, next } if round < 49 => ask = next,
            BootStep::Finish(Err(Error::InvalidOperation(message))) if round == 49 => {
                assert_eq!(message, "maximum iterations reached in bl2_boot");
                return;
            }
            other => panic!("unexpected step {:?}", other),
        }
    }
    panic!("the handshake did not stop");
}

#[test]
fn sequence_number_wraps_at_256() {
    let send = BootSend { bootloader: vec![], seq: 255, prev_length: 1, prev_offset: 1, iterations: 3 };
    let ask = expect_ask(send.sent(Ok(())), 100);
    assert_eq!(ask.seq, 0);
    assert_eq!(ask.iterations, 4);
}

fn id(vendor_id: u16, product_id: u16) -> Option<DeviceId> {
    Some(DeviceId { vendor_id, product_id })
}

#[test]
fn devices_are_told_by_their_ids() {
    assert_eq!(find_device(&[]), Sighting::Nothing);
    assert_eq!(find_device(&[id(1, 2), None, id(0x18d1, 0xc003), id(0x1b8e, 0x4e40)]), Sighting::Nothing);
    assert_eq!(find_device(&[id(1, 2), id(0x18d1, 0x4e40), id(0x1b8e, 0xc003)]), Sighting::Normal);
    assert_eq!(find_device(&[None, id(1, 2), id(0x1b8e, 0xc003), id(0x18d1, 0x4e40)]), Sighting::Amlogic(2));
}

#[test]
fn mode_is_told_by_the_product_string() {
    assert_eq!(mode_of_product(Some("GX-CHIP")), DeviceMode::Usb);
    assert_eq!(mode_of_product(Some("gx-chip")), DeviceMode::UsbBurn);
    assert_eq!(mode_of_product(Some("")), DeviceMode::UsbBurn);
    assert_eq!(mode_of_product(None), DeviceMode::UsbBurn);
}

#[test]
fn init_goes_by_the_mode() {
    assert_eq!(init_plan(DeviceMode::Usb).unwrap(), InitPlan::BootThenConnect);
    assert_eq!(init_plan(DeviceMode::UsbBurn).unwrap(), InitPlan::Connect);
    assert!(matches!(init_plan(DeviceMode::Normal), Err(Error::WrongMode)));
    assert!(matches!(init_plan(DeviceMode::NotFound), Err(Error::NotFound)));
}

#[test]
fn connecting_is_tried_three_times_in_all() {
    for failures in 0..2usize {
        match connect_failed(failures, Error::NotFound) {
            ConnectStep::Retry { pause_ms: 1000, failures: f } => assert_eq!(f, failures + 1),
            other => panic!("unexpected step {:?}", other),
        }
    }
    assert!(matches!(connect_failed(2, Error::WrongMode), ConnectStep::GiveUp(Error::WrongMode)));
    assert!(matches!(connect_failed(3, Error::NotFound), ConnectStep::GiveUp(Error::NotFound)));
    assert!(matches!(connect_failed(usize::MAX, Error::NotFound), ConnectStep::GiveUp(Error::NotFound)));
}

#[test]
fn a_run_of_failed_connections_ends_after_the_third() {
    let mut attempts = 0;
    let mut failures = 0;
    loop {
        attempts += 1;
        match connect_failed(failures, Error::NotFound) {
            ConnectStep::Retry { failures: now, .. } => failures = now,
            ConnectStep::GiveUp(_) => break,
        }
    }
    assert_eq!(attempts, 3);
}

#[test]
fn the_soc_is_found_by_its_ids() {
    assert_eq!(find_amlogic(&[]), None);
    assert_eq!(find_amlogic(&[id(1, 2), None, id(0x18d1, 0x4e40), id(0x1b8e, 0x4e40), id(0x18d1, 0xc003)]), None);
    assert_eq!(find_amlogic(&[id(0x18d1, 0x4e40), None, id(0x1b8e, 0xc003), id(0x1b8e, 0xc003)]), Some(2));
    assert_eq!(find_amlogic(&[id(0x1b8e, 0xc003)]), Some(0));
}

fn endpoint(address: u8, is_in: bool) -> EndpointInfo {
    EndpointInfo { address, is_in }
}

#[test]
fn connect_takes_the_first_endpoints_of_interface_zero() {
    let interfaces = vec![
        InterfaceInfo { number: 1, alt_settings: vec![vec![endpoint(0x85, true), endpoint(0x05, false)]] },
        InterfaceInfo {
            number: 0,
            alt_settings: vec![
                vec![endpoint(0x02, false), endpoint(0x81, true), endpoint(0x83, true), endpoint(0x04, false)],
                vec![endpoint(0x86, true), endpoint(0x06, false)],
            ],
        },
    ];
    assert_eq!(AmlogicSoC::connect(&interfaces).unwrap(), AmlogicSoC::new(0, 0x81, 0x02));
}

fn connect_error(interfaces: &[InterfaceInfo]) -> String {
    match AmlogicSoC::connect(interfaces) {
        Err(Error::InvalidOperation(message)) => message,
        other => panic!("unexpected result {:?}", other),
    }
}

#[test]
fn connect_names_what_is_missing() {
    assert_eq!(connect_error(&[]), "Interface not found");
    assert_eq!(
        connect_error(&[InterfaceInfo { number: 2, alt_settings: vec![vec![endpoint(1, true)]] }]),
        "Interface not found"
    );
    assert_eq!(connect_error(&[InterfaceInfo { number: 0, alt_settings: vec![] }]), "No alt setting");
    assert_eq!(
        connect_error(&[InterfaceInfo { number: 0, alt_settings: vec![vec![endpoint(2, false)]] }]),
        "IN endpoint not found"
    );
    assert_eq!(
        connect_error(&[InterfaceInfo { number: 0, alt_settings: vec![vec![endpoint(0x81, true)]] }]),
        "OUT endpoint not found"
    );
    assert_eq!(connect_error(&[InterfaceInfo { number: 0, alt_settings: vec![vec![]] }]), "IN endpoint not found");
}
