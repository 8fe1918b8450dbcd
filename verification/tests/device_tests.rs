use lib::block::{
    assign_block_device, capacity, check_completion, finish_read, read, transfer_plan, BlockDevice,
    BufferDirection, CompletionError, Transfer, SECTOR_SIZE,
};
use lib::errors::Errno;
use lib::net_device::{FrameError, MacAddress, NetworkDevice, NetworkStack, NET_HDR_LEN};
use lib::virtio::{
    find_capability, is_virtio_device, DeviceKind, InitAction, InitError, InitEvent, InitFailure,
    InitPhase, VirtioCap, VirtioInit, VIRTIO_PCI_CAP_COMMON_CFG, VIRTIO_PCI_CAP_DEVICE_CFG,
    VIRTIO_PCI_CAP_NOTIFY_CFG,
};

fn cap(cfg_type: u8, bar: u8, offset: u32, length: u32, mult: u32) -> VirtioCap {
    VirtioCap { id: 9, cfg_type, bar, offset, length, notify_off_multiplier: mult }
}

fn block_caps() -> Vec<VirtioCap> {
    vec![
        cap(VIRTIO_PCI_CAP_COMMON_CFG, 0, 0x100, 0x38, 0),
        cap(VIRTIO_PCI_CAP_NOTIFY_CFG, 1, 0x200, 0x100, 4),
        cap(VIRTIO_PCI_CAP_DEVICE_CFG, 2, 0x300, 8, 0),
    ]
}

#[test]
fn capabilities_are_found_by_kind() {
    let mut caps = block_caps();
    caps.insert(0, VirtioCap { id: 5, cfg_type: 1, bar: 3, offset: 0, length: 0, notify_off_multiplier: 0 });
    assert_eq!(find_capability(&caps, VIRTIO_PCI_CAP_COMMON_CFG), Some(1));
    assert_eq!(find_capability(&caps, VIRTIO_PCI_CAP_DEVICE_CFG), Some(3));
    assert_eq!(find_capability(&caps, 7), None);
}

#[test]
fn virtio_ids() {
    assert!(is_virtio_device(0x1AF4, 0x1001, 2, 2));
    assert!(!is_virtio_device(0x1AF4, 0x1080, 2, 2));
    assert!(!is_virtio_device(0x8086, 0x1001, 2, 2));
    assert!(BlockDevice::is_virtio_block(0x1AF4, 0x1042, 2));
    assert!(!BlockDevice::is_virtio_block(0x1AF4, 0x1042, 1));
}

#[test]
fn block_device_comes_up() {
    let mut init = BlockDevice::initialize(block_caps());
    assert!(matches!(init.step(InitEvent::Begin), InitAction::MapBar(0)));
    assert!(matches!(init.step(InitEvent::BarMapped(0x1000)), InitAction::Reset(0x1100)));
    assert!(matches!(init.step(InitEvent::StatusRead(3)), InitAction::ReadStatus));
    assert!(matches!(init.step(InitEvent::StatusRead(0)), InitAction::SetStatus(1)));
    assert!(matches!(init.step(InitEvent::StatusRead(1)), InitAction::SetStatus(2)));
    assert!(matches!(init.step(InitEvent::StatusRead(3)), InitAction::ReadFeatures(0)));
    assert!(matches!(init.step(InitEvent::FeatureWord(0x20)), InitAction::ReadFeatures(1)));
    assert!(matches!(init.step(InitEvent::FeatureWord(1)), InitAction::WriteFeatures(0, 1)));
    assert!(matches!(init.step(InitEvent::Done), InitAction::SetStatus(8)));
    assert!(matches!(init.step(InitEvent::StatusRead(11)), InitAction::MapBar(1)));
    assert!(matches!(init.step(InitEvent::BarMapped(0x2000)), InitAction::CreateQueues(1)));
    assert!(matches!(
        init.step(InitEvent::QueueNotifyOffset(3)),
        InitAction::ConfigureQueues(0x220c, 0)
    ));
    assert!(matches!(init.step(InitEvent::Done), InitAction::MapBar(2)));
    assert!(matches!(init.step(InitEvent::BarMapped(0x3000)), InitAction::ReadCapacity(0x3300)));
    assert!(BlockDevice::from_init(&init).is_none());
    assert!(matches!(init.step(InitEvent::CapacityRead(2048)), InitAction::SetStatus(4)));
    assert!(matches!(init.step(InitEvent::StatusRead(15)), InitAction::EnableBusMaster));
    assert!(matches!(init.step(InitEvent::Done), InitAction::Finished));
    assert_eq!(init.phase(), InitPhase::Ready);
    assert_eq!(init.capacity(), 2048);
    let dev = BlockDevice::from_init(&init).unwrap();
    assert_eq!(dev.capacity_bytes(), 2048 * 512);
}

#[test]
fn block_bring_up_failures() {
    let mut init = BlockDevice::initialize(vec![]);
    assert!(matches!(
        init.step(InitEvent::Begin),
        InitAction::Error(InitError::CommonCfgMissing)
    ));
    assert_eq!(init.phase(), InitPhase::Stopped);

    let mut init = BlockDevice::initialize(block_caps());
    init.step(InitEvent::Begin);
    init.step(InitEvent::BarMapped(0x1000));
    init.step(InitEvent::StatusRead(0));
    assert!(matches!(
        init.step(InitEvent::StatusRead(128)),
        InitAction::Fail(InitFailure::DeviceFailed)
    ));

    let mut init = BlockDevice::initialize(block_caps());
    init.step(InitEvent::Begin);
    init.step(InitEvent::BarMapped(0x1000));
    init.step(InitEvent::StatusRead(0));
    init.step(InitEvent::StatusRead(1));
    init.step(InitEvent::StatusRead(3));
    init.step(InitEvent::FeatureWord(0));
    assert!(matches!(
        init.step(InitEvent::FeatureWord(0)),
        InitAction::Fail(InitFailure::Version1Unsupported)
    ));

    let mut init = BlockDevice::initialize(block_caps());
    assert!(matches!(
        init.step(InitEvent::Done),
        InitAction::Fail(InitFailure::UnexpectedEvent)
    ));
}

#[test]
fn features_must_be_accepted() {
    let mut init = BlockDevice::initialize(block_caps());
    init.step(InitEvent::Begin);
    init.step(InitEvent::BarMapped(0x1000));
    init.step(InitEvent::StatusRead(0));
    init.step(InitEvent::StatusRead(1));
    init.step(InitEvent::StatusRead(3));
    init.step(InitEvent::FeatureWord(0));
    init.step(InitEvent::FeatureWord(1));
    init.step(InitEvent::Done);
    assert!(matches!(
        init.step(InitEvent::StatusRead(3)),
        InitAction::Fail(InitFailure::FeaturesNotAccepted)
    ));
}

fn net_caps() -> Vec<VirtioCap> {
    vec![
        cap(VIRTIO_PCI_CAP_COMMON_CFG, 4, 0, 0x38, 0),
        cap(VIRTIO_PCI_CAP_NOTIFY_CFG, 4, 0x3000, 0x1000, 4),
        cap(VIRTIO_PCI_CAP_DEVICE_CFG, 4, 0x2000, 0x100, 0),
    ]
}

#[test]
fn network_device_comes_up() {
    let mut init = NetworkDevice::initialize(net_caps());
    assert_eq!(init.device_kind(), DeviceKind::Network);
    assert!(matches!(init.step(InitEvent::Begin), InitAction::MapBar(4)));
    assert!(matches!(init.step(InitEvent::BarMapped(0x4000)), InitAction::Reset(0x4000)));
    assert!(matches!(init.step(InitEvent::StatusRead(0)), InitAction::SetStatus(1)));
    assert!(matches!(init.step(InitEvent::StatusRead(1)), InitAction::SetStatus(2)));
    assert!(matches!(init.step(InitEvent::StatusRead(3)), InitAction::ReadFeatures(0)));
    assert!(matches!(init.step(InitEvent::FeatureWord(0x20)), InitAction::ReadFeatures(1)));
    assert!(matches!(init.step(InitEvent::FeatureWord(1)), InitAction::WriteFeatures(0x20, 1)));
    assert!(matches!(init.step(InitEvent::Done), InitAction::SetStatus(8)));
    assert!(matches!(init.step(InitEvent::StatusRead(11)), InitAction::MapBar(4)));
    assert!(matches!(init.step(InitEvent::BarMapped(0x4000)), InitAction::CreateQueues(2)));
    assert!(matches!(
        init.step(InitEvent::QueueNotifyOffset(1)),
        InitAction::ConfigureQueues(0x7004, 1)
    ));
    assert!(matches!(init.step(InitEvent::Done), InitAction::SetStatus(4)));
    assert!(matches!(init.step(InitEvent::StatusRead(15)), InitAction::MapBar(4)));
    assert!(matches!(
        init.step(InitEvent::BarMapped(0x4000)),
        InitAction::FillReceiveQueue(0x6000)
    ));
    let mac = [0x52, 0x54, 0, 0x12, 0x34, 0x56];
    assert!(matches!(init.step(InitEvent::MacRead(mac)), InitAction::Finished));
    assert_eq!(init.phase(), InitPhase::Ready);
    let dev = NetworkDevice::from_init(&init).unwrap();
    assert_eq!(dev.get_mac_address().0, mac);
}

#[test]
fn network_needs_mac_feature_and_driver_ok() {
    let mut init = NetworkDevice::initialize(net_caps());
    init.step(InitEvent::Begin);
    init.step(InitEvent::BarMapped(0x4000));
    init.step(InitEvent::StatusRead(0));
    init.step(InitEvent::StatusRead(1));
    init.step(InitEvent::StatusRead(3));
    init.step(InitEvent::FeatureWord(0));
    assert!(matches!(
        init.step(InitEvent::FeatureWord(1)),
        InitAction::Fail(InitFailure::FeaturesUnsupported)
    ));

    let mut caps = net_caps();
    caps[1].notify_off_multiplier = 3;
    let mut init = NetworkDevice::initialize(caps);
    init.step(InitEvent::Begin);
    init.step(InitEvent::BarMapped(0x4000));
    init.step(InitEvent::StatusRead(0));
    init.step(InitEvent::StatusRead(1));
    init.step(InitEvent::StatusRead(3));
    init.step(InitEvent::FeatureWord(0x20));
    init.step(InitEvent::FeatureWord(1));
    init.step(InitEvent::Done);
    assert!(matches!(
        init.step(InitEvent::StatusRead(11)),
        InitAction::Fail(InitFailure::BadNotifyMultiplier)
    ));
}

#[test]
fn block_transfer_plans() {
    let mut slot: Option<BlockDevice> = None;
    assert_eq!(transfer_plan(&slot, 0, 10), Err(Errno::ENODEV));
    assign_block_device(&mut slot, BlockDevice::new(4));
    assert_eq!(capacity(&slot), 2048);
    assert_eq!(
        transfer_plan(&slot, 510, 4),
        Ok(Some(Transfer { start_sector: 0, offset_in_first_sector: 510, len: 4, num_sectors: 2 }))
    );
    assert_eq!(
        transfer_plan(&slot, 2000, 100),
        Ok(Some(Transfer { start_sector: 3, offset_in_first_sector: 464, len: 48, num_sectors: 1 }))
    );
    assert_eq!(transfer_plan(&slot, 2048, 1), Ok(None));
    assert_eq!(transfer_plan(&slot, 0, 0), Ok(None));
}

#[test]
fn block_read_and_write_requests() {
    let dev = BlockDevice::new(8);
    let chain = dev.read_sectors(2, 1024);
    assert_eq!(chain.len(), 3);
    assert_eq!(chain[0].0, vec![0, 0, 0, 0, 0, 0, 0, 0, 2, 0, 0, 0, 0, 0, 0, 0]);
    assert_eq!(chain[0].1, BufferDirection::DriverWritable);
    assert_eq!(chain[1].0, vec![0u8; 1024]);
    assert_eq!(chain[1].1, BufferDirection::DeviceWritable);
    assert_eq!(chain[2].0, vec![0u8]);
    let data = vec![7u8; SECTOR_SIZE];
    let chain = dev.write_sectors(5, &data);
    assert_eq!(chain[0].0, vec![1, 0, 0, 0, 0, 0, 0, 0, 5, 0, 0, 0, 0, 0, 0, 0]);
    assert_eq!(chain[1].0, data);
    assert_eq!(chain[1].1, BufferDirection::DriverWritable);
    assert_eq!(chain[2].1, BufferDirection::DeviceWritable);
}

#[test]
fn block_completion_checks() {
    let ok = vec![vec![0u8; 16], vec![0u8; 512], vec![0u8]];
    assert_eq!(check_completion(1, &ok), Ok(()));
    assert_eq!(check_completion(0, &ok), Err(CompletionError::NotSingle));
    assert_eq!(check_completion(1, &vec![vec![0u8]]), Err(CompletionError::NotThreeBuffers));
    let bad = vec![vec![0u8; 16], vec![0u8; 512], vec![2u8]];
    assert_eq!(check_completion(1, &bad), Err(CompletionError::Status(2)));
}

#[test]
fn block_read_copies_the_transferred_bytes() {
    let slot = Some(BlockDevice::new(2));
    let mut sectors = vec![0u8; 1024];
    for (i, b) in sectors.iter_mut().enumerate() {
        *b = (i % 251) as u8;
    }
    let mut buf = [0xAAu8; 6];
    assert_eq!(read(&slot, 510, &mut buf, &sectors), Ok(6));
    assert_eq!(buf, [sectors[510], sectors[511], sectors[512], sectors[513], sectors[514], sectors[515]]);
    let mut buf = [0xAAu8; 4];
    assert_eq!(read(&slot, 1022, &mut buf, &sectors[512..]), Ok(2));
    assert_eq!(buf, [sectors[1022], sectors[1023], 0xAA, 0xAA]);
    assert_eq!(read(&None, 0, &mut buf, &[]), Err(Errno::ENODEV));
}

#[test]
fn block_partial_write_keeps_the_rest_of_the_sector() {
    let slot = Some(BlockDevice::new(2));
    let existing = vec![9u8; 512];
    let (n, w) = lib::block::write(&slot, 100, &[1, 2, 3], &existing).unwrap();
    assert_eq!(n, 3);
    let w = w.unwrap();
    assert_eq!(w.start_sector, 0);
    let mut expected = vec![9u8; 512];
    expected[100] = 1;
    expected[101] = 2;
    expected[102] = 3;
    assert_eq!(w.data, expected);
    let whole = vec![5u8; 512];
    let (n, w) = lib::block::write(&slot, 512, &whole, &[]).unwrap();
    assert_eq!(n, 512);
    let w = w.unwrap();
    assert_eq!(w.start_sector, 1);
    assert_eq!(w.data, whole);
    let (n, w) = lib::block::write(&slot, 4096, &[1], &[]).unwrap();
    assert_eq!(n, 0);
    assert!(w.is_none());
}

#[test]
fn network_frames() {
    let buf = NetworkDevice::receive_buffer();
    assert_eq!(buf.len(), 1526);
    assert!(buf.iter().all(|b| *b == 0xff));
    let mut frame = vec![0u8; NET_HDR_LEN];
    frame.extend_from_slice(&[1, 2, 3]);
    assert_eq!(NetworkDevice::receive_packet(&frame), Ok(vec![1, 2, 3]));
    assert_eq!(NetworkDevice::receive_packet(&[0u8; 5]), Err(FrameError::TooShort));
    let mut flagged = frame.clone();
    flagged[0] = 1;
    assert_eq!(NetworkDevice::receive_packet(&flagged), Err(FrameError::UnsupportedHeader));

    let mut dev = NetworkDevice::new(MacAddress([1, 2, 3, 4, 5, 6]));
    let sent = dev.send_packet(vec![9, 8]);
    let mut expected = vec![0u8; NET_HDR_LEN];
    expected.extend_from_slice(&[9, 8]);
    assert_eq!(sent, expected);
    assert_eq!(dev.receive_packets(&vec![sent.clone(), frame.clone()]), Ok(vec![vec![9, 8], vec![1, 2, 3]]));
    assert_eq!(dev.receive_packets(&vec![frame, flagged]), Err(FrameError::UnsupportedHeader));
}

#[test]
fn network_stack_uses_the_assigned_device() {
    let mut stack = NetworkStack::new();
    assert_eq!(stack.ip_addr(), [10, 0, 2, 15]);
    stack.assign_network_device(NetworkDevice::new(MacAddress([6, 5, 4, 3, 2, 1])));
    assert_eq!(stack.current_mac_address().0, [6, 5, 4, 3, 2, 1]);
    let out = stack.send_packet(vec![42]);
    assert_eq!(out.len(), NET_HDR_LEN + 1);
    assert_eq!(out[NET_HDR_LEN], 42);
}

#[test]
fn bring_up_started_by_hand() {
    let init = VirtioInit::new(DeviceKind::Block, block_caps());
    assert_eq!(init.phase(), InitPhase::Start);
    assert_eq!(init.capacity(), 0);
    assert_eq!(init.mac(), [0; 6]);
}

#[test]
fn finished_reads_copy_the_data() {
    let done = vec![vec![0u8; 16], vec![7u8, 8, 9], vec![0u8]];
    let mut buf = [0u8; 3];
    assert_eq!(finish_read(1, &done, &mut buf), Ok(()));
    assert_eq!(buf, [7, 8, 9]);
    let failed = vec![vec![0u8; 16], vec![1u8, 2, 3], vec![1u8]];
    let mut buf = [0u8; 3];
    assert_eq!(finish_read(1, &failed, &mut buf), Err(CompletionError::Status(1)));
    assert_eq!(buf, [0, 0, 0]);
    assert_eq!(finish_read(2, &done, &mut buf), Err(CompletionError::NotSingle));
    assert_eq!(BlockDevice::new(9).capacity_sectors(), 9);
}
