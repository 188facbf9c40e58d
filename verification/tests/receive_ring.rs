use ethernet_driver::rx::{RxConfig, RxDescriptor, RxDevice};
use ethernet_driver::{Error, InitError, ReceiveError};

fn small_ring() -> RxDevice {
    RxDevice::new(RxConfig {
        buffer_size: 256,
        number_of_descriptors: 4,
        default_descriptor_buffer_size: 64,
    })
    .unwrap()
}

fn status(own: bool, first: bool, last: bool, frame_len: usize) -> RxDescriptor {
    RxDescriptor {
        own,
        first,
        last,
        frame_len,
        checksum_error: false,
        error: false,
        crc_error: false,
        receive_error: false,
        watchdog_timeout_error: false,
        late_collision_error: false,
        giant_frame_error: false,
        overflow_error: false,
        descriptor_error: false,
        end_of_ring: false,
        capacity: 0,
    }
}

fn collect(data: &[u8]) -> Result<Vec<u8>, Error> {
    Ok(data.to_vec())
}

#[test]
fn empty_ring_reports_exhausted() {
    let mut rx = small_ring();
    assert!(!rx.new_data_received());
    let r = rx.receive(collect);
    assert_eq!(r, Err(ReceiveError::Processing(Error::Exhausted)));
    assert_eq!(rx.next_descriptor, 0);
    // every descriptor is still armed for the hardware
    for i in 0..4 {
        assert!(rx.descriptor_at(i).own);
    }
}

#[test]
fn single_descriptor_roundtrip() {
    let mut rx = small_ring();
    let payload: Vec<u8> = (1..=20).collect();
    rx.dma_write_buffer(0, &payload);
    rx.dma_write_descriptor(0, status(false, true, true, 20));
    assert!(rx.new_data_received());
    assert!(rx.is_receive_safe());
    let got = rx.receive(collect).unwrap();
    assert_eq!(got, payload);
    let d0 = rx.descriptor_at(0);
    assert!(d0.own && !d0.first && !d0.last && d0.frame_len == 0);
    assert_eq!(d0.capacity, 64);
    assert_eq!(rx.next_descriptor, 1);
}

#[test]
fn multi_descriptor_frame() {
    let mut rx = small_ring();
    let payload: Vec<u8> = (0..150).map(|i| (i % 251) as u8).collect();
    rx.dma_write_buffer(0, &payload);
    rx.dma_write_descriptor(0, status(false, true, false, 0));
    rx.dma_write_descriptor(1, status(false, false, false, 0));
    rx.dma_write_descriptor(2, status(false, false, true, 150));
    assert!(rx.is_receive_safe());
    let got = rx.receive(collect).unwrap();
    assert_eq!(got.len(), 150);
    assert_eq!(got, payload);
    for i in 0..3 {
        let d = rx.descriptor_at(i);
        assert!(d.own && !d.first && !d.last);
    }
    assert_eq!(rx.next_descriptor, 3);
}

#[test]
fn partial_frame_stays_pending() {
    let mut rx = small_ring();
    rx.dma_write_descriptor(0, status(false, true, false, 0));
    // the second descriptor of the chain is still hardware-owned
    let r = rx.receive(collect);
    assert_eq!(r, Err(ReceiveError::Processing(Error::Exhausted)));
    let d0 = rx.descriptor_at(0);
    assert!(!d0.own && d0.first);
    assert_eq!(rx.next_descriptor, 0);
    // once the hardware hands the rest over, the frame comes out whole
    let payload: Vec<u8> = (0..80).map(|i| i as u8).collect();
    rx.dma_write_buffer(0, &payload);
    rx.dma_write_descriptor(1, status(false, false, true, 80));
    let got = rx.receive(collect).unwrap();
    assert_eq!(got, payload);
    assert_eq!(rx.next_descriptor, 2);
}

#[test]
fn checksum_failure_consumes_nothing() {
    let mut rx = small_ring();
    let mut d = status(false, true, true, 10);
    d.checksum_error = true;
    rx.dma_write_descriptor(0, d);
    let r = rx.receive(collect);
    assert_eq!(r, Err(ReceiveError::Processing(Error::Checksum)));
    // the chain was not walked and nothing was recycled
    let d0 = rx.descriptor_at(0);
    assert!(!d0.own && d0.first && d0.checksum_error);
    assert_eq!(rx.next_descriptor, 0);
}

#[test]
fn crc_error_beats_overflow() {
    let mut rx = small_ring();
    let mut d = status(false, true, true, 10);
    d.error = true;
    d.crc_error = true;
    d.overflow_error = true;
    rx.dma_write_descriptor(0, d);
    let r = rx.receive(collect);
    assert_eq!(r, Err(ReceiveError::Crc));
    // the defective frame was dropped and its descriptor recycled
    assert!(rx.descriptor_at(0).own);
    assert_eq!(rx.next_descriptor, 1);
}

#[test]
fn every_error_flag_classified() {
    let cases: [(fn(&mut RxDescriptor), ReceiveError); 6] = [
        (|d| d.receive_error = true, ReceiveError::Receive),
        (|d| d.watchdog_timeout_error = true, ReceiveError::WatchdogTimeout),
        (|d| d.late_collision_error = true, ReceiveError::LateCollision),
        (|d| d.giant_frame_error = true, ReceiveError::GiantFrame),
        (|d| d.overflow_error = true, ReceiveError::Overflow),
        (|d| d.descriptor_error = true, ReceiveError::Descriptor),
    ];
    for (set_flag, expected) in cases {
        let mut rx = small_ring();
        let mut d = status(false, true, true, 10);
        d.error = true;
        set_flag(&mut d);
        rx.dma_write_descriptor(0, d);
        assert_eq!(rx.receive(collect), Err(expected));
        assert_eq!(rx.next_descriptor, 1);
    }
}

#[test]
fn summary_bit_gates_error_flags() {
    let mut rx = small_ring();
    let payload: Vec<u8> = vec![5; 16];
    rx.dma_write_buffer(0, &payload);
    let mut d = status(false, true, true, 16);
    d.crc_error = true; // without the summary bit this flag counts for nothing
    rx.dma_write_descriptor(0, d);
    let got = rx.receive(collect).unwrap();
    assert_eq!(got, payload);
}

#[test]
fn consumer_error_still_recycles() {
    let mut rx = small_ring();
    rx.dma_write_buffer(0, &[9u8; 12]);
    rx.dma_write_descriptor(0, status(false, true, true, 12));
    let r = rx.receive(|_data: &[u8]| Err::<(), Error>(Error::NoIp));
    assert_eq!(r, Err(ReceiveError::Processing(Error::NoIp)));
    // a failed parse does not leak descriptors
    assert!(rx.descriptor_at(0).own);
    assert_eq!(rx.next_descriptor, 1);
}

#[test]
fn ring_overrun_is_detected() {
    let mut rx = small_ring();
    assert!(rx.is_receive_safe());
    // a frame larger than the remaining regions: the hardware filled every
    // descriptor to the ring's end without ever finding room to finish
    rx.dma_write_descriptor(0, status(false, true, false, 0));
    rx.dma_write_descriptor(1, status(false, false, false, 0));
    rx.dma_write_descriptor(2, status(false, false, false, 0));
    rx.dma_write_descriptor(3, status(false, false, false, 0));
    assert!(!rx.is_receive_safe());
}

#[test]
fn frame_length_past_chain_is_detected() {
    let mut rx = small_ring();
    // a single-descriptor frame whose recorded length runs past its region
    rx.dma_write_descriptor(0, status(false, true, true, 100));
    assert!(!rx.is_receive_safe());
}

#[test]
fn invalid_config_rejected() {
    let r = RxDevice::new(RxConfig {
        buffer_size: 192, // leaves the last region empty: 3 * 64 == 192
        number_of_descriptors: 4,
        default_descriptor_buffer_size: 64,
    });
    assert!(matches!(
        r,
        Err(Error::Initialization(InitError::InvalidConfiguration))
    ));
    let r = RxDevice::new(RxConfig {
        buffer_size: 256,
        number_of_descriptors: 0,
        default_descriptor_buffer_size: 64,
    });
    assert!(matches!(
        r,
        Err(Error::Initialization(InitError::InvalidConfiguration))
    ));
}

#[test]
fn default_config_geometry() {
    let config = RxConfig::default();
    assert_eq!(config.number_of_descriptors, 128);
    assert_eq!(config.default_descriptor_buffer_size, 64);
    assert_eq!(config.buffer_size, 64 * 127 + 1536);
    assert_eq!(config.descriptor_buffer_size(0), 64);
    assert_eq!(config.descriptor_buffer_size(127), 1536);
    assert_eq!(config.descriptor_buffer_offset(127), 64 * 127);
    // the regions cover the buffer exactly
    assert_eq!(
        config.descriptor_buffer_offset(127) + config.descriptor_buffer_size(127),
        config.buffer_size
    );
}

#[test]
fn end_of_ring_mark_sits_on_last_descriptor() {
    let rx = small_ring();
    for i in 0..4 {
        assert_eq!(rx.descriptor_at(i).end_of_ring, i == 3);
    }
}
