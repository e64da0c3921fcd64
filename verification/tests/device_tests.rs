use quincy_tun::batch::{
    check_virtio_len, default_write_order, recv_target, record_single_packet, send_batch_start, send_offset,
    BatchError, BatchSend, RecvTarget, SendAction,
};
use quincy_tun::builder::{ConfigStep, DeviceBuilder};
use quincy_tun::error::{AddressError, DeviceError};
use quincy_tun::fd::{iov_count_ok, syscall_amount, Fd};
use quincy_tun::mobile;
use quincy_tun::netmask::{ipv4_prefix_from_len, ipv6_prefix_from_len};
use quincy_tun::wintun;

#[test]
fn builder_defaults_to_enabled() {
    let plan = DeviceBuilder::<AddressError>::new().config();
    assert_eq!(plan.steps, vec![ConfigStep::Enable(true)]);
    assert_eq!(plan.failure, None);
}

#[test]
fn builder_plan_order_and_last_write_wins() {
    let plan = DeviceBuilder::<AddressError>::new()
        .enable(false)
        .ipv6(Ok(1), ipv6_prefix_from_len(64))
        .mtu(1500)
        .mtu(1400)
        .ipv4(Ok(1), ipv4_prefix_from_len(8), None)
        .ipv4(Ok(0x0A00_0001), ipv4_prefix_from_len(24), Some(Ok(0x0A00_0002)))
        .ipv6(Ok(2), ipv6_prefix_from_len(128))
        .config();
    assert_eq!(
        plan.steps,
        vec![
            ConfigStep::SetMtu(1400),
            ConfigStep::SetNetworkAddress { address: 0x0A00_0001, prefix: 24, destination: Some(0x0A00_0002) },
            ConfigStep::AddAddressV6 { address: 1, prefix: 64 },
            ConfigStep::AddAddressV6 { address: 2, prefix: 128 },
            ConfigStep::Enable(false),
        ]
    );
    assert_eq!(plan.failure, None);
}

#[test]
fn builder_plan_stops_at_first_refusal() {
    // the prefix is looked at before the address
    let plan = DeviceBuilder::<AddressError>::new()
        .mtu(1400)
        .ipv4(Err(AddressError::InvalidIpv4Str), ipv4_prefix_from_len(33), None)
        .ipv6(Ok(1), ipv6_prefix_from_len(64))
        .config();
    assert_eq!(plan.steps, vec![ConfigStep::SetMtu(1400)]);
    assert_eq!(plan.failure, Some(AddressError::InvalidPrefixLength));

    let plan = DeviceBuilder::<AddressError>::new()
        .ipv4(Ok(1), Ok(24), Some(Err(AddressError::InvalidAddress)))
        .config();
    assert_eq!(plan.steps, vec![]);
    assert_eq!(plan.failure, Some(AddressError::InvalidAddress));

    let plan = DeviceBuilder::<AddressError>::new()
        .ipv6(Ok(1), Ok(64))
        .ipv6(Err(AddressError::InvalidIpv6Str), Ok(64))
        .ipv6(Ok(3), Ok(64))
        .config();
    assert_eq!(plan.steps, vec![ConfigStep::AddAddressV6 { address: 1, prefix: 64 }]);
    assert_eq!(plan.failure, Some(AddressError::InvalidIpv6Str));
}

#[test]
fn build_config_moves_settings_out() {
    let mut builder = DeviceBuilder::<AddressError>::new().name("tun7".to_string()).packet_information(true).offload(true);
    let config = builder.build_config();
    assert_eq!(config.dev_name.as_deref(), Some("tun7"));
    assert_eq!(config.packet_information, Some(true));
    assert_eq!(config.offload, Some(true));
    assert!(!config.ignore_packet_info());
    assert_eq!(config.wintun_file_name(), "wintun.dll");
    assert_eq!(config.ring_capacity_or_default(), 0x20_0000);
    assert!(!config.wintun_log_enabled());
    assert!(!config.delete_driver_enabled());
    let again = builder.build_config();
    assert_eq!(again.dev_name, None);
    assert_eq!(again.packet_information, None);
    assert!(again.ignore_packet_info());
}

#[test]
fn mobile_device_is_unsupported() {
    let dev = mobile::DeviceImpl::from_fd(5);
    assert_eq!(dev.raw_fd(), 5);
    assert_eq!(dev.name(), Err(DeviceError::Unsupported));
    assert_eq!(dev.enabled(true), Err(DeviceError::Unsupported));
    assert_eq!(dev.mtu(), Err(DeviceError::Unsupported));
}

#[test]
fn wintun_device_requests() {
    let dev = wintun::DeviceImpl::from_index(12);
    assert_eq!(dev.if_index(), 12);
    assert!(dev.set_name("tun0", "tun0").is_none());
    let req = dev.set_name("tun0", "vpn").unwrap();
    assert_eq!((req.from.as_str(), req.to.as_str()), ("tun0", "vpn"));
    assert_eq!(dev.mtu_query(), wintun::MtuQuery { if_index: 12, ipv4: true });
    assert_eq!(dev.mtu_v6_query(), wintun::MtuQuery { if_index: 12, ipv4: false });
    assert_eq!(dev.mtu(1500), 1500);
    assert_eq!(dev.mtu_v6(70_000), 4464);
    assert_eq!(dev.set_mtu(1400), wintun::MtuRequest { if_index: 12, mtu: 1400, ipv4: true });
    assert_eq!(dev.set_mtu_v6(1280), wintun::MtuRequest { if_index: 12, mtu: 1280, ipv4: false });
    assert_eq!(dev.set_metric(5), wintun::MetricRequest { if_index: 12, metric: 5 });
    assert_eq!(dev.mac_address(), Err(DeviceError::Unsupported));
    assert_eq!(dev.set_mac_address([0; 6]), Err(DeviceError::Unsupported));
    assert_eq!(wintun::ETHER_ADDR_LEN, 6);
}

#[test]
fn recv_target_validation() {
    assert_eq!(recv_target(0, 0, false, 1500, 0), Err(BatchError::BufsMismatch));
    assert_eq!(recv_target(2, 3, false, 1500, 0), Err(BatchError::BufsMismatch));
    assert_eq!(recv_target(65536, 65536, false, 1500, 0), Err(BatchError::TooManyBuffers));
    assert_eq!(recv_target(4, 4, true, 1500, 2000), Ok(RecvTarget::Original));
    assert_eq!(recv_target(4, 4, false, 1500, 2000), Err(BatchError::InvalidOffset));
    assert_eq!(recv_target(4, 4, false, 1500, 1500), Ok(RecvTarget::FirstBuffer { offset: 1500 }));
    assert!(BatchError::InvalidOffset.is_invalid_input());
    assert!(!BatchError::BufsMismatch.is_invalid_input());
}

#[test]
fn virtio_length_and_single_packet() {
    assert_eq!(check_virtio_len(10), Err(BatchError::ShortPacket { len: 10 }));
    assert_eq!(check_virtio_len(11), Ok(()));
    let mut sizes = vec![0, 0, 0];
    assert_eq!(record_single_packet(&mut sizes, 77), 1);
    assert_eq!(sizes, vec![77, 0, 0]);
}

#[test]
fn send_batch_start_and_offsets() {
    assert_eq!(send_batch_start(0), Some(Ok(0)));
    assert_eq!(send_batch_start(65536), Some(Err(BatchError::TooManyBuffers)));
    assert_eq!(send_batch_start(3), None);
    assert_eq!(send_offset(12, true), 2);
    assert_eq!(send_offset(12, false), 12);
    assert_eq!(default_write_order(3), vec![0, 1, 2]);
}

#[test]
fn batch_send_accumulates_and_remembers_errors() {
    let mut send: BatchSend<&str> = BatchSend::new(vec![0, 1, 2, 3], vec![100, 100, 100, 100], 10);
    assert_eq!(send.action(), SendAction::Send { index: 0, start: 10 });
    send.sent(90);
    assert_eq!(send.action(), SendAction::Send { index: 1, start: 10 });
    assert_eq!(send.send_failed("first", false), None);
    assert_eq!(send.action(), SendAction::Send { index: 2, start: 10 });
    assert_eq!(send.send_failed("second", false), None);
    assert_eq!(send.action(), SendAction::Send { index: 3, start: 10 });
    send.sent(50);
    assert_eq!(send.total_sent(), 140);
    assert_eq!(send.action(), SendAction::Done);
    // the error of the last failed send is reported
    assert_eq!(send.outcome(), Err("second"));

    let mut ok: BatchSend<&str> = BatchSend::new(vec![1, 0], vec![40, 60], 0);
    ok.sent(60);
    ok.sent(40);
    assert_eq!(ok.action(), SendAction::Done);
    assert_eq!(ok.outcome(), Ok(100));
}

#[test]
fn batch_send_stops_on_bad_descriptor_and_bad_offset() {
    let mut send: BatchSend<&str> = BatchSend::new(vec![0, 1], vec![100, 5], 10);
    assert_eq!(send.send_failed("closed", true), Some("closed"));
    assert_eq!(send.action(), SendAction::Send { index: 0, start: 10 });
    send.sent(90);
    assert_eq!(send.action(), SendAction::InvalidOffset);
}

#[test]
fn fd_ownership() {
    assert!(Fd::new(-1).is_none());
    let mut fd = Fd::new(3).unwrap();
    assert_eq!(fd.as_raw_fd(), 3);
    assert_eq!(fd.into_raw_fd(), 3);
    assert_eq!(fd.release(), None);

    let mut owned = Fd::new_unchecked(4);
    assert_eq!(owned.release(), Some(4));
    assert_eq!(owned.release(), None);

    let mut borrowed = Fd::new_unchecked_with_borrow(5, true);
    assert_eq!(borrowed.release(), None);
    assert_eq!(borrowed.as_raw_fd(), 5);
}

#[test]
fn syscall_outcomes() {
    assert_eq!(syscall_amount(-1), None);
    assert_eq!(syscall_amount(0), Some(0));
    assert_eq!(syscall_amount(1500), Some(1500));
    assert!(iov_count_ok(1024));
    assert!(!iov_count_ok(1025));
}
