use blockade_recon::address::HardwareAddress;
use blockade_recon::tag::ManagementTag;
use blockade_recon::wifi::{
    read_le16, read_le32, read_le64, ControlFrame, Error, Frame, FrameType, ManagementFields,
};

const DESTINATION: [u8; 6] = [0xff, 0xff, 0xff, 0xff, 0xff, 0xff];
const SOURCE: [u8; 6] = [0x00, 0x1a, 0x2b, 0x3c, 0x4d, 0x5e];
const BSSID: [u8; 6] = [0x02, 0x00, 0x5e, 0x10, 0x20, 0x30];

fn beacon_with(elements: &[u8]) -> Vec<u8> {
    let mut bytes = vec![0x80, 0x00, 0x34, 0x12];
    bytes.extend_from_slice(&DESTINATION);
    bytes.extend_from_slice(&SOURCE);
    bytes.extend_from_slice(&BSSID);
    bytes.extend_from_slice(&[0x70, 0x01]);
    bytes.extend_from_slice(&[0x08, 0x07, 0x06, 0x05, 0x04, 0x03, 0x02, 0x01]);
    bytes.extend_from_slice(&[0x64, 0x00]);
    bytes.extend_from_slice(&[0x11, 0x04]);
    bytes.extend_from_slice(elements);
    bytes.extend_from_slice(&[0xef, 0xbe, 0xad, 0xde]);
    bytes
}

fn data_frame(flags: u8, len: usize) -> Vec<u8> {
    let mut bytes = vec![0u8; len];
    bytes[0] = 0x08;
    bytes[1] = flags;
    for slot in 0..4usize {
        let start = if slot == 3 { 24 } else { 4 + 6 * slot };
        for offset in 0..6usize {
            if start + offset < len {
                bytes[start + offset] = (0x10 * (slot as u8 + 1)) + offset as u8;
            }
        }
    }
    if len >= 24 {
        bytes[22] = 0xcd;
        bytes[23] = 0xab;
    }
    bytes
}

fn slot(number: u8) -> HardwareAddress {
    let base = 0x10 * number;
    HardwareAddress::new([base, base + 1, base + 2, base + 3, base + 4, base + 5])
}

fn data_of(bytes: &[u8]) -> blockade_recon::wifi::DataFrame {
    match Frame::new(bytes).expect("a data frame").frame_type {
        FrameType::Data(data) => data,
        other => panic!("not a data frame: {:?}", other),
    }
}

#[test]
fn ten_zero_octets_decode_to_an_unknown_frame() {
    let bytes = [0u8; 10];
    let frame = Frame::new(&bytes).expect("ten zero octets are a frame");
    assert_eq!(frame.frame_type, FrameType::Unknown);
    assert_eq!(frame.duration, 0);
    assert_eq!(frame.body, &[0u8; 6][..]);
    assert_eq!(frame.fcs, 0);
}

#[test]
fn short_buffers_are_truncated_frames() {
    for len in 0..10usize {
        let bytes = vec![0u8; len];
        assert_eq!(Frame::new(&bytes), Err(Error::TruncatedFrame));
    }
}

#[test]
fn nonzero_version_is_unsupported() {
    for version in 1..4u8 {
        let mut bytes = beacon_with(&[0x00, 0x00]);
        bytes[0] |= version;
        assert_eq!(Frame::new(&bytes), Err(Error::UnsupportedVersion(version)));
    }
}

#[test]
fn length_is_checked_before_version() {
    let bytes = [0x03u8; 9];
    assert_eq!(Frame::new(&bytes), Err(Error::TruncatedFrame));
}

#[test]
fn unfamiliar_kinds_are_unknown() {
    let mut probe_request = beacon_with(&[0x00, 0x00]);
    probe_request[0] = 0x40;
    assert_eq!(Frame::new(&probe_request).unwrap().frame_type, FrameType::Unknown);
    let mut extension = [0u8; 12];
    extension[0] = 0x0c;
    assert_eq!(Frame::new(&extension).unwrap().frame_type, FrameType::Unknown);
    let mut null_data = data_frame(0, 34);
    null_data[0] = 0x48;
    assert_eq!(Frame::new(&null_data).unwrap().frame_type, FrameType::Unknown);
}

#[test]
fn ack_names_its_receiver() {
    let mut bytes = vec![0xd4, 0x00, 0x3a, 0x01];
    bytes.extend_from_slice(&SOURCE);
    bytes.extend_from_slice(&[0x04, 0x03, 0x02, 0x01]);
    let frame = Frame::new(&bytes).unwrap();
    assert_eq!(
        frame.frame_type,
        FrameType::Control(ControlFrame::Ack { receiver: HardwareAddress::new(SOURCE) })
    );
    assert_eq!(frame.duration, 0x013a);
    assert_eq!(frame.fcs, 0x0102_0304);
    assert_eq!(frame.body, &bytes[..10]);
}

#[test]
fn ack_of_ten_octets_is_accepted() {
    let mut bytes = vec![0xd4, 0x00, 0x00, 0x00];
    bytes.extend_from_slice(&SOURCE);
    let frame = Frame::new(&bytes).unwrap();
    assert_eq!(
        frame.frame_type,
        FrameType::Control(ControlFrame::Ack { receiver: HardwareAddress::new(SOURCE) })
    );
}

#[test]
fn data_without_ds_flags() {
    let data = data_of(&data_frame(0b00, 34));
    assert_eq!(data.destination, slot(1));
    assert_eq!(data.source, slot(2));
    assert_eq!(data.bssid, Some(slot(3)));
    assert_eq!(data.receiver, slot(1));
    assert_eq!(data.transmitter, slot(2));
    assert_eq!(data.sequence_control, 0xabcd);
}

#[test]
fn data_from_ds() {
    let data = data_of(&data_frame(0b10, 34));
    assert_eq!(data.destination, slot(1));
    assert_eq!(data.source, slot(3));
    assert_eq!(data.bssid, Some(slot(2)));
}

#[test]
fn data_to_ds() {
    let data = data_of(&data_frame(0b01, 34));
    assert_eq!(data.destination, slot(3));
    assert_eq!(data.source, slot(2));
    assert_eq!(data.bssid, Some(slot(1)));
}

#[test]
fn data_between_access_points() {
    let data = data_of(&data_frame(0b11, 40));
    assert_eq!(data.destination, slot(3));
    assert_eq!(data.source, slot(4));
    assert_eq!(data.bssid, None);
    assert_eq!(data.receiver, slot(1));
    assert_eq!(data.transmitter, slot(2));
}

#[test]
fn other_flag_bits_do_not_change_addressing() {
    let data = data_of(&data_frame(0b1111_1100, 34));
    assert_eq!(data.destination, slot(1));
    assert_eq!(data.source, slot(2));
    assert_eq!(data.bssid, Some(slot(3)));
}

#[test]
fn data_needs_its_addresses() {
    for flags in 0..4u8 {
        assert_eq!(Frame::new(&data_frame(flags, 33)), Err(Error::TruncatedFrame));
    }
    for len in 34..40usize {
        assert_eq!(Frame::new(&data_frame(0b11, len)), Err(Error::TruncatedFrame));
        assert!(Frame::new(&data_frame(0b01, len)).is_ok());
    }
    assert!(Frame::new(&data_frame(0b11, 40)).is_ok());
}

#[test]
fn beacon_with_ssid_and_other_tags() {
    let elements = [
        0x01, 0x02, 0x82, 0x84, // supported rates
        0x00, 0x04, b'h', b'o', b'm', b'e', // SSID
        0x07, 0x03, b'D', b'E', 0x20, // country
        0xdd, 0x04, 0x00, 0x50, 0xf2, 0x01, // vendor specific
        0x2a, 0x01, 0x00, // not interpreted
        0x00, 0x01, b'x', // a second SSID, which does not count
    ];
    let bytes = beacon_with(&elements);
    let frame = Frame::new(&bytes).unwrap();
    assert_eq!(frame.duration, 0x1234);
    assert_eq!(frame.fcs, 0xdead_beef);
    assert_eq!(frame.body, &bytes[..bytes.len() - 4]);
    let management = match frame.frame_type {
        FrameType::Management(management) => management,
        other => panic!("not a management frame: {:?}", other),
    };
    assert_eq!(management.receiver, HardwareAddress::new(DESTINATION));
    assert_eq!(management.transmitter, HardwareAddress::new(SOURCE));
    assert_eq!(management.bssid, HardwareAddress::new(BSSID));
    assert_eq!(management.sequence_control, 0x0170);
    assert_eq!(
        management.fields,
        ManagementFields::Beacon {
            timestamp: 0x0102_0304_0506_0708,
            ssid: "home".to_string(),
            tags: vec![
                ManagementTag::SupportedRates(vec![0x82, 0x84]),
                ManagementTag::Ssid("home".to_string()),
                ManagementTag::Country { code: [b'D', b'E'] },
                ManagementTag::VendorSpecific { vendor: [0x00, 0x50, 0xf2] },
                ManagementTag::Unknown,
                ManagementTag::Ssid("x".to_string()),
            ],
        }
    );
}

#[test]
fn beacon_with_empty_ssid() {
    let bytes = beacon_with(&[0x00, 0x00]);
    assert_eq!(bytes.len(), 42);
    match Frame::new(&bytes).unwrap().frame_type {
        FrameType::Management(management) => match management.fields {
            ManagementFields::Beacon { ssid, tags, .. } => {
                assert_eq!(ssid, "");
                assert_eq!(tags, vec![ManagementTag::Ssid(String::new())]);
            }
            other => panic!("not a beacon: {:?}", other),
        },
        other => panic!("not a management frame: {:?}", other),
    }
}

#[test]
fn beacon_without_ssid_is_refused() {
    assert_eq!(Frame::new(&beacon_with(&[])), Err(Error::MissingMandatoryTag("SSID")));
    let others = [0x01, 0x01, 0x82, 0x07, 0x02, b'U', b'S', 0xdd, 0x03, 1, 2, 3, 0x30, 0x00];
    assert_eq!(Frame::new(&beacon_with(&others)), Err(Error::MissingMandatoryTag("SSID")));
}

#[test]
fn beacon_without_supported_rates_is_accepted() {
    assert!(Frame::new(&beacon_with(&[0x00, 0x02, b'o', b'k'])).is_ok());
}

#[test]
fn beacon_shorter_than_its_fixed_part_is_truncated() {
    let whole = beacon_with(&[]);
    assert_eq!(whole.len(), 40);
    for len in 10..40usize {
        assert_eq!(Frame::new(&whole[..len]), Err(Error::TruncatedFrame));
    }
}

#[test]
fn beacon_with_overrunning_tag_is_truncated() {
    let elements = [0x00, 0x02, b'o', b'k', 0x01, 0x08, 0x82, 0x84];
    assert_eq!(Frame::new(&beacon_with(&elements)), Err(Error::TruncatedFrame));
    assert_eq!(Frame::new(&beacon_with(&[0x00, 0x02, b'o', b'k', 0x01])), Err(Error::TruncatedFrame));
}

#[test]
fn ssid_with_invalid_utf8_is_kept_with_replacements() {
    let bytes = [0x00u8, 4, b'a', 0xff, b'b', 0xc3];
    assert_eq!(
        ManagementTag::parse_all(&bytes),
        Ok(vec![ManagementTag::Ssid("a\u{fffd}b\u{fffd}".to_string())])
    );
    let accented = [0x00u8, 3, b'c', 0xc3, 0xa9];
    assert_eq!(
        ManagementTag::parse_all(&accented),
        Ok(vec![ManagementTag::Ssid("c\u{e9}".to_string())])
    );
}

#[test]
fn parse_moves_past_one_element() {
    let bytes = [0x00u8, 3, b'a', b'b', b'c', 0x01, 1, 0x82];
    let mut rest: &[u8] = &bytes;
    assert_eq!(ManagementTag::parse(&mut rest), Ok(ManagementTag::Ssid("abc".to_string())));
    assert_eq!(rest, &[0x01u8, 1, 0x82][..]);
    assert_eq!(ManagementTag::parse(&mut rest), Ok(ManagementTag::SupportedRates(vec![0x82])));
    assert!(rest.is_empty());
    assert_eq!(ManagementTag::parse(&mut rest), Err(Error::TruncatedFrame));
}

#[test]
fn parse_skips_unfamiliar_elements_by_their_length() {
    let bytes = [0x99u8, 3, 0x00, 0x02, 0x41, 0x00, 1, b'z'];
    let mut rest: &[u8] = &bytes;
    assert_eq!(ManagementTag::parse(&mut rest), Ok(ManagementTag::Unknown));
    assert_eq!(rest, &[0x00u8, 1, b'z'][..]);
    assert_eq!(
        ManagementTag::parse_all(&bytes),
        Ok(vec![ManagementTag::Unknown, ManagementTag::Ssid("z".to_string())])
    );
}

#[test]
fn parse_leaves_the_buffer_on_failure() {
    let bytes = [0x01u8, 9, 1, 2, 3];
    let mut rest: &[u8] = &bytes;
    assert_eq!(ManagementTag::parse(&mut rest), Err(Error::TruncatedFrame));
    assert_eq!(rest, &bytes[..]);
    let mut one: &[u8] = &bytes[..1];
    assert_eq!(ManagementTag::parse(&mut one), Err(Error::TruncatedFrame));
    assert_eq!(one, &bytes[..1]);
}

#[test]
fn country_and_vendor_take_their_first_octets() {
    let bytes = [0x07u8, 4, b'F', b'R', 1, 2, 0xdd, 3, 0xaa, 0xbb, 0xcc];
    assert_eq!(
        ManagementTag::parse_all(&bytes),
        Ok(vec![
            ManagementTag::Country { code: [b'F', b'R'] },
            ManagementTag::VendorSpecific { vendor: [0xaa, 0xbb, 0xcc] },
        ])
    );
}

#[test]
fn country_and_vendor_need_their_first_octets() {
    assert_eq!(ManagementTag::parse_all(&[0x07, 1, b'F']), Err(Error::TruncatedFrame));
    assert_eq!(ManagementTag::parse_all(&[0x07, 0]), Err(Error::TruncatedFrame));
    assert_eq!(ManagementTag::parse_all(&[0xdd, 2, 1, 2]), Err(Error::TruncatedFrame));
    assert!(ManagementTag::parse_all(&[0x07, 2, b'F', b'R']).is_ok());
    assert!(ManagementTag::parse_all(&[0xdd, 3, 1, 2, 3]).is_ok());
}

#[test]
fn parse_all_of_nothing_is_no_tags() {
    assert_eq!(ManagementTag::parse_all(&[]), Ok(vec![]));
    assert_eq!(ManagementTag::parse_all(&[0x01, 0]), Ok(vec![ManagementTag::SupportedRates(vec![])]));
}

#[test]
fn tag_decoder_survives_arbitrary_buffers() {
    let mut state: u32 = 0x2545_f491;
    for len in 0..=64usize {
        for _ in 0..200 {
            let mut bytes = Vec::with_capacity(len);
            for _ in 0..len {
                state = state.wrapping_mul(1_664_525).wrapping_add(1_013_904_223);
                bytes.push((state >> 24) as u8);
            }
            let mut rest: &[u8] = &bytes;
            match ManagementTag::parse(&mut rest) {
                Ok(_) => assert_eq!(rest.len(), len - 2 - bytes[1] as usize),
                Err(error) => {
                    assert_eq!(error, Error::TruncatedFrame);
                    assert_eq!(rest.len(), len);
                }
            }
            match ManagementTag::parse_all(&bytes) {
                Ok(tags) => assert!(tags.len() <= len / 2),
                Err(error) => assert_eq!(error, Error::TruncatedFrame),
            }
            let _ = Frame::new(&bytes);
        }
    }
}

#[test]
fn little_endian_numbers() {
    let bytes = [0x01u8, 0x02, 0x03, 0x04, 0x05, 0x06, 0x07, 0x08, 0xff];
    assert_eq!(read_le16(&bytes, 0), Ok(0x0201));
    assert_eq!(read_le16(&bytes, 7), Ok(0xff08));
    assert_eq!(read_le32(&bytes, 1), Ok(0x0504_0302));
    assert_eq!(read_le64(&bytes, 0), Ok(0x0807_0605_0403_0201));
    assert_eq!(read_le64(&[0xff; 8], 0), Ok(u64::MAX));
    assert_eq!(read_le32(&[0xff; 4], 0), Ok(u32::MAX));
}

#[test]
fn numbers_past_the_end_are_truncated() {
    let bytes = [0u8; 9];
    assert_eq!(read_le16(&bytes, 8), Err(Error::TruncatedFrame));
    assert_eq!(read_le32(&bytes, 6), Err(Error::TruncatedFrame));
    assert_eq!(read_le64(&bytes, 2), Err(Error::TruncatedFrame));
    assert_eq!(read_le64(&bytes, 1), Ok(0));
    assert_eq!(read_le16(&bytes, usize::MAX), Err(Error::TruncatedFrame));
    assert_eq!(read_le16(&[], 0), Err(Error::TruncatedFrame));
}

#[test]
fn hex_strings_use_lower_case_pairs() {
    let address = HardwareAddress::new([0x00, 0x1a, 0x2b, 0x3c, 0xfd, 0x5e]);
    assert_eq!(address.to_hex_string(), "00:1a:2b:3c:fd:5e");
    assert_eq!(address.to_canonical(), "00-1a-2b-3c-fd-5e");
}

#[test]
fn address_numbers_read_the_first_octet_as_most_significant() {
    assert_eq!(HardwareAddress::new([0x00, 0x1a, 0x2b, 0x3c, 0xfd, 0x5e]).key(), 0x001a_2b3c_fd5e);
    assert_eq!(HardwareAddress::new([0xff; 6]).key(), 0xffff_ffff_ffff);
    assert_eq!(HardwareAddress::new([0, 0, 0, 0, 0, 1]).key(), 1);
    assert_eq!(HardwareAddress::new([1, 0, 0, 0, 0, 0]).key(), 1 << 40);
}

#[test]
fn addresses_are_read_in_wire_order() {
    let bytes = [9u8, 1, 2, 3, 4, 5, 6, 9];
    assert_eq!(HardwareAddress::read(&bytes, 1), Ok(HardwareAddress::new([1, 2, 3, 4, 5, 6])));
    assert_eq!(HardwareAddress::read(&bytes, 2).unwrap().octets, [2, 3, 4, 5, 6, 9]);
}

#[test]
fn addresses_past_the_end_are_truncated() {
    let bytes = [9u8, 1, 2, 3, 4, 5, 6, 9];
    assert_eq!(HardwareAddress::read(&bytes, 3), Err(Error::TruncatedFrame));
    assert_eq!(HardwareAddress::read(&bytes[..5], 0), Err(Error::TruncatedFrame));
    assert_eq!(HardwareAddress::read(&bytes, usize::MAX), Err(Error::TruncatedFrame));
}

#[test]
fn written_addresses_read_back() {
    let address = HardwareAddress::new([0xde, 0xad, 0xbe, 0xef, 0x00, 0x01]);
    let mut buffer = vec![7u8, 8];
    address.write(&mut buffer);
    assert_eq!(buffer, vec![7, 8, 0xde, 0xad, 0xbe, 0xef, 0x00, 0x01]);
    assert_eq!(HardwareAddress::read(&buffer, 2), Ok(address));
}
