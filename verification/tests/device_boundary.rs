use ethernet_driver::device::{
    device_error, mac_address_registers, EthernetDevice, MacAddress, PortInUse,
};
use ethernet_driver::dma::{transmit_poll_action, TransmitPollAction};
use ethernet_driver::i2c;
use ethernet_driver::rx::{RxConfig, RxDescriptor, RxDevice};
use ethernet_driver::sockets::{tcp_echo_reply, udp_echo_reply};
use ethernet_driver::tx::TxConfig;
use ethernet_driver::{Error, InitError, ReceiveError, MTU};

fn small_device() -> EthernetDevice {
    EthernetDevice::new(
        RxConfig {
            buffer_size: 256,
            number_of_descriptors: 4,
            default_descriptor_buffer_size: 64,
        },
        TxConfig {
            number_of_descriptors: 4,
        },
        MacAddress {
            bytes: [0x00, 0x08, 0xdc, 0xab, 0xcd, 0xef],
        },
    )
    .unwrap()
}

fn frame_status(first: bool, last: bool, frame_len: usize) -> RxDescriptor {
    RxDescriptor {
        own: false,
        first,
        last,
        frame_len,
        checksum_error: false,
        error: false,
        crc_error: false,
        receive_error: false,
        watchdog_timeout_error: false,
        late_collision_error: false,
        giant_frame_error: false,
        overflow_error: false,
        descriptor_error: false,
        end_of_ring: false,
        capacity: 0,
    }
}

#[test]
fn mac_address_register_values() {
    let address = MacAddress {
        bytes: [0x00, 0x08, 0xdc, 0xab, 0xcd, 0xef],
    };
    let (low, high) = mac_address_registers(&address);
    assert_eq!(low, 0xabdc0800);
    assert_eq!(high, 0xefcd);
}

#[test]
fn device_rejects_bad_ring_geometry() {
    let r = EthernetDevice::new(
        RxConfig {
            buffer_size: 10,
            number_of_descriptors: 4,
            default_descriptor_buffer_size: 64,
        },
        TxConfig::default(),
        MacAddress { bytes: [0; 6] },
    );
    assert!(matches!(
        r,
        Err(Error::Initialization(InitError::InvalidConfiguration))
    ));
    let r = EthernetDevice::new(
        RxConfig::default(),
        TxConfig {
            number_of_descriptors: 0,
        },
        MacAddress { bytes: [0; 6] },
    );
    assert!(matches!(
        r,
        Err(Error::Initialization(InitError::InvalidConfiguration))
    ));
}

#[test]
fn device_advertises_the_mtu() {
    let device = small_device();
    assert_eq!(device.capabilities(), MTU);
    assert_eq!(device.capabilities(), 1536);
}

#[test]
fn poll_receive_roundtrip() {
    let mut device = small_device();
    assert!(!device.receive_available());
    let r = device.poll_receive(|data: &[u8]| Ok::<Vec<u8>, Error>(data.to_vec()));
    assert!(r.is_none());
    // the hardware delivers a frame
    let payload: Vec<u8> = (10..40).collect();
    device.rx.dma_write_buffer(0, &payload);
    device.rx.dma_write_descriptor(0, frame_status(true, true, 30));
    assert!(device.receive_available());
    let r = device.poll_receive(|data: &[u8]| Ok::<Vec<u8>, Error>(data.to_vec()));
    assert_eq!(r, Some(Ok(payload)));
    assert_eq!(device.rx.next_descriptor, 1);
}

#[test]
fn poll_receive_collapses_hardware_errors() {
    let mut device = small_device();
    let mut d = frame_status(true, true, 10);
    d.error = true;
    d.crc_error = true;
    device.rx.dma_write_descriptor(0, d);
    let r = device.poll_receive(|data: &[u8]| Ok::<Vec<u8>, Error>(data.to_vec()));
    // at the stack boundary every hardware defect is the generic signal
    assert_eq!(r, Some(Err(Error::Truncated)));

    let mut device = small_device();
    let mut d = frame_status(true, true, 10);
    d.checksum_error = true;
    device.rx.dma_write_descriptor(0, d);
    let r = device.poll_receive(|data: &[u8]| Ok::<Vec<u8>, Error>(data.to_vec()));
    assert_eq!(r, Some(Err(Error::Checksum)));
}

#[test]
fn poll_receive_passes_consumer_error_verbatim() {
    let mut device = small_device();
    device.rx.dma_write_descriptor(0, frame_status(true, true, 8));
    let r = device.poll_receive(|_data: &[u8]| Err::<(), Error>(Error::NoIp));
    assert_eq!(r, Some(Err(Error::NoIp)));
}

#[test]
fn poll_transmit_fills_and_queues() {
    let mut device = small_device();
    let r = device.poll_transmit(5, |mut buffer: Vec<u8>| {
        assert_eq!(buffer, vec![0u8; 5]);
        buffer[1] = 7;
        Ok::<(Vec<u8>, u32), Error>((buffer, 99))
    });
    assert_eq!(r, Some(Ok(99)));
    assert!(device.tx.descriptor_at(0).own);
    assert!(device.tx.has_buffer(0));
    assert_eq!(device.tx.next_descriptor, 1);
}

#[test]
fn poll_transmit_producer_error_leaves_ring_alone() {
    let mut device = small_device();
    let r = device.poll_transmit(5, |_buffer: Vec<u8>| {
        Err::<(Vec<u8>, u32), Error>(Error::Unknown)
    });
    assert_eq!(r, Some(Err(Error::Unknown)));
    assert!(!device.tx.descriptor_at(0).own);
    assert!(!device.tx.has_buffer(0));
    assert_eq!(device.tx.next_descriptor, 0);
}

#[test]
fn poll_transmit_none_when_ring_full() {
    let mut device = small_device();
    for k in 0..4u8 {
        assert!(device.transmit_available());
        device.tx.insert(vec![k]);
    }
    assert!(!device.transmit_available());
    let r = device.poll_transmit(3, |buffer: Vec<u8>| Ok::<(Vec<u8>, ()), Error>((buffer, ())));
    assert!(r.is_none());
}

#[test]
fn transmit_poll_action_state_machine() {
    assert_eq!(transmit_poll_action(0), TransmitPollAction::FatalStopped);
    assert_eq!(transmit_poll_action(1), TransmitPollAction::NoAction);
    assert_eq!(transmit_poll_action(2), TransmitPollAction::NoAction);
    assert_eq!(transmit_poll_action(3), TransmitPollAction::NoAction);
    assert_eq!(transmit_poll_action(4), TransmitPollAction::FatalUnexpected);
    assert_eq!(transmit_poll_action(5), TransmitPollAction::FatalUnexpected);
    assert_eq!(transmit_poll_action(6), TransmitPollAction::PollDemand);
    assert_eq!(transmit_poll_action(7), TransmitPollAction::NoAction);
}

#[test]
fn receive_errors_translate_at_the_boundary() {
    assert_eq!(device_error(ReceiveError::Crc), Error::Truncated);
    assert_eq!(device_error(ReceiveError::Receive), Error::Truncated);
    assert_eq!(device_error(ReceiveError::WatchdogTimeout), Error::Truncated);
    assert_eq!(device_error(ReceiveError::LateCollision), Error::Truncated);
    assert_eq!(device_error(ReceiveError::GiantFrame), Error::Truncated);
    assert_eq!(device_error(ReceiveError::Overflow), Error::Truncated);
    assert_eq!(device_error(ReceiveError::Descriptor), Error::Truncated);
    assert_eq!(
        device_error(ReceiveError::Processing(Error::Exhausted)),
        Error::Exhausted
    );
    assert_eq!(
        device_error(ReceiveError::Processing(Error::NoIp)),
        Error::NoIp
    );
}

#[test]
fn error_conversions() {
    assert_eq!(
        Error::from(InitError::BringUpFailed),
        Error::Initialization(InitError::BringUpFailed)
    );
    assert_eq!(Error::from(()), Error::Unknown);
}

#[test]
fn port_in_use_keeps_its_fields() {
    let p = PortInUse::new(true, 15, ());
    assert!(p.tcp);
    assert_eq!(p.port, 15);
}

#[test]
fn i2c_register_bus_encoding() {
    assert_eq!(i2c::u16_register_bytes(0xabcd), (0xab, 0xcd));
    assert_eq!(i2c::u16_register_value(0xab, 0xcd), 0xabcd);
    assert_eq!(i2c::u16_register_bytes(0x00ff), (0x00, 0xff));
    assert_eq!(i2c::u16_register_value(0x00, 0xff), 0x00ff);
}

#[test]
fn i2c_address_and_wait_decisions() {
    assert_eq!(i2c::Address::bits_7(0x12).0, 0x24);
    assert_eq!(i2c::Address::bits_7(0x7f).0, 0xfe);
    assert_eq!(i2c::wait_step(true, true), i2c::WaitOutcome::Nack);
    assert_eq!(i2c::wait_step(true, false), i2c::WaitOutcome::Nack);
    assert_eq!(i2c::wait_step(false, true), i2c::WaitOutcome::Ready);
    assert_eq!(i2c::wait_step(false, false), i2c::WaitOutcome::Pending);
}

#[test]
fn udp_echo_reverses_all_but_last_byte() {
    let reply = udp_echo_reply(&vec![1, 2, 3, 4]);
    assert_eq!(reply, vec![3, 2, 1, 4]);
    let reply = udp_echo_reply(&vec![7]);
    assert_eq!(reply, vec![7]);
}

#[test]
fn tcp_echo_prefixes_and_reverses() {
    let reply = tcp_echo_reply(&b"hi!".to_vec()).unwrap();
    assert_eq!(reply, b"tcp: ih!".to_vec());
    assert_eq!(tcp_echo_reply(&Vec::new()), None);
}

#[test]
fn overrun_stops_device_polling() {
    let mut device = small_device();
    for i in 0..4 {
        device
            .rx
            .dma_write_descriptor(i, frame_status(i == 0, false, 0));
    }
    // the poll loop must halt instead of calling receive
    assert!(!device.rx.is_receive_safe());
}
