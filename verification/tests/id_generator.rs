use napoleon_amp_core::hex::{from_hex_char, from_hex_chars, to_hex_chars};
use napoleon_amp_core::id_generator::{is_header, Id, IdGenerator};

fn sample_id() -> Id {
    Id {
        header: 0,
        increment: 0x2A,
        time: 0xBEEF,
        data: [0x00, 0x01, 0x02, 0x03, 0x04, 0x05, 0x06, 0x07, 0x08, 0x09, 0xAB, 0xFF],
    }
}

#[test]
fn test_id_gen() {
    let mut idgen = IdGenerator::new();

    for _ in 0..300 {
        println!("{}", idgen.generate_new_id().to_string());
    }
}

#[test]
fn test_string() {
    let mut idgen = IdGenerator::new();

    let id = idgen.generate_new_id();

    let id_str = id.to_string();

    println!("id string: {}", id_str);

    let id_from_str = Id::try_from_str(&id_str).expect("parse from str");

    println!("from str: {}", id_from_str.to_string());

    assert_eq!(id, id_from_str);
}

#[test]
fn hex_digits_are_upper_case() {
    assert_eq!(to_hex_chars(0x00), ['0', '0']);
    assert_eq!(to_hex_chars(0x9A), ['9', 'A']);
    assert_eq!(to_hex_chars(0xFF), ['F', 'F']);
}

#[test]
fn hex_digits_are_read_in_either_case() {
    assert_eq!(from_hex_char('7'), Some(7));
    assert_eq!(from_hex_char('a'), Some(10));
    assert_eq!(from_hex_char('F'), Some(15));
    assert_eq!(from_hex_char('g'), None);
    assert_eq!(from_hex_char('-'), None);
    assert_eq!(from_hex_chars('a', 'B'), Some(0xAB));
    assert_eq!(from_hex_chars('0', 'x'), None);
}

#[test]
fn every_byte_survives_hex() {
    for byte in 0..=255u8 {
        let chars = to_hex_chars(byte);
        assert_eq!(from_hex_chars(chars[0], chars[1]), Some(byte));
    }
}

#[test]
fn header_is_the_high_bit() {
    assert!(!is_header(0));
    assert!(!is_header(127));
    assert!(is_header(128));
    assert!(is_header(255));
}

#[test]
fn text_form_without_header() {
    let id = sample_id();
    assert_eq!(id.to_string(), "2A-BEEF-00010203040506070809ABFF");
    assert!(!id.has_header());
    assert_eq!(id.header(), None);
}

#[test]
fn text_form_with_header() {
    let id = Id { header: 0x81, ..sample_id() };
    assert_eq!(id.to_string(), "81-2A-BEEF-00010203040506070809ABFF");
    assert!(id.has_header());
    assert_eq!(id.header(), Some(0x81));
}

#[test]
fn parse_reads_both_forms() {
    let plain = Id::try_from_str("2A-BEEF-00010203040506070809ABFF").expect("without header");
    assert_eq!(plain, sample_id());
    assert_eq!(plain.header, 0);
    assert_eq!(plain.increment, 0x2A);
    assert_eq!(plain.time, 0xBEEF);
    assert_eq!(plain.data, sample_id().data);

    let headed = Id::try_from_str("81-2A-BEEF-00010203040506070809ABFF").expect("with header");
    assert_eq!(headed, sample_id());
    assert_eq!(headed.header, 0x81);
}

#[test]
fn parse_reads_lower_case_and_skips_hyphens_anywhere() {
    let id = Id::try_from_str("2abeef00010203040506070809abff").expect("lower case");
    assert_eq!(id, sample_id());
    let id = Id::try_from_str("2-A-B-E-E-F-00010203040506070809ABFF").expect("hyphens");
    assert_eq!(id, sample_id());
}

#[test]
fn parse_rejects_wrong_lengths_and_digits() {
    assert!(Id::try_from_str("").is_none());
    assert!(Id::try_from_str("2A-BEEF-00010203040506070809ABF").is_none());
    assert!(Id::try_from_str("2A-BEEF-00010203040506070809ABFF0").is_none());
    assert!(Id::try_from_str("2A-BEEF-00010203040506070809ABFF00FF").is_none());
    assert!(Id::try_from_str("2A-BEEF-00010203040506070809ABFG").is_none());
    assert!(Id::try_from_str("ZZ-BEEF-00010203040506070809ABFF").is_none());
}

#[test]
fn parse_rejects_a_length_that_does_not_fit_the_first_byte() {
    // Sixteen bytes whose first is no header.
    assert!(Id::try_from_str("01-2A-BEEF-00010203040506070809ABFF").is_none());
    // Fifteen bytes whose first is a header.
    assert!(Id::try_from_str("81-BEEF-00010203040506070809ABFF").is_none());
}

#[test]
fn equality_leaves_the_header_out() {
    let plain = sample_id();
    let headed = Id { header: 0x90, ..sample_id() };
    assert_eq!(plain, headed);
    assert_ne!(plain, Id { increment: 0x2B, ..sample_id() });
    assert_ne!(plain, Id { time: 0xBEEE, ..sample_id() });
    let mut data = sample_id().data;
    data[11] = 0xFE;
    assert_ne!(plain, Id { data, ..sample_id() });
}

#[test]
fn headerless_bytes_are_counter_clock_payload() {
    let bytes = sample_id().headerless_bytes();
    assert_eq!(
        bytes,
        [0x2A, 0xBE, 0xEF, 0x00, 0x01, 0x02, 0x03, 0x04, 0x05, 0x06, 0x07, 0x08, 0x09, 0xAB, 0xFF]
    );
}

#[test]
fn key_is_the_number_of_the_headerless_bytes() {
    let id = Id { header: 0, increment: 1, time: 2, data: [0; 12] };
    let expected: u128 = (1u128 << 112) + (2u128 << 96);
    assert_eq!(id.key(), expected);
    assert_eq!(id.key(), Id { header: 0x80, ..id }.key());
    assert_ne!(id.key(), Id { time: 3, ..id }.key());
}

#[test]
fn binary_form_round_trip_without_header() {
    let id = sample_id();
    let mut buf = vec![0xEE];
    id.to_buf(&mut buf);
    assert_eq!(buf.len(), 16);
    assert_eq!(buf[0], 0xEE);
    assert_eq!(&buf[1..], &id.headerless_bytes()[..]);
    let (read, taken) = Id::from_buf(&buf[1..]).expect("decode");
    assert_eq!(taken, 15);
    assert_eq!(read, id);
    assert_eq!(read.header, 0);
}

#[test]
fn binary_form_round_trip_with_header() {
    let id = Id { header: 0xC3, ..sample_id() };
    let mut buf = Vec::new();
    id.to_buf(&mut buf);
    buf.push(0x11);
    assert_eq!(buf.len(), 17);
    assert_eq!(buf[0], 0xC3);
    let (read, taken) = Id::from_buf(&buf).expect("decode");
    assert_eq!(taken, 16);
    assert_eq!(read, id);
    assert_eq!(read.header, 0xC3);
}

#[test]
fn binary_form_needs_all_its_bytes() {
    let id = sample_id();
    let mut buf = Vec::new();
    id.to_buf(&mut buf);
    assert!(Id::from_buf(&buf[..14]).is_none());
    assert!(Id::from_buf(&[]).is_none());
    let headed = Id { header: 0x80, ..sample_id() };
    let mut buf = Vec::new();
    headed.to_buf(&mut buf);
    assert!(Id::from_buf(&buf[..15]).is_none());
}

#[test]
fn generated_ids_survive_both_forms() {
    let mut idgen = IdGenerator::new();
    for _ in 0..300 {
        let id = idgen.generate_new_id();
        assert_eq!(Id::try_from_str(&id.to_string()), Some(id));
        let mut buf = Vec::new();
        id.to_buf(&mut buf);
        assert_eq!(Id::from_buf(&buf), Some((id, 15)));
    }
}

#[test]
fn generator_counts_up_and_starts_again_after_126() {
    let mut idgen = IdGenerator::new();
    assert_eq!(idgen.increment(), 0);
    for turn in 0..300u32 {
        let id = idgen.generate_new_id();
        assert_eq!(id.increment as u32, turn % 127);
        assert!(!id.has_header());
        assert!(id.increment < 127);
    }
    assert_eq!(idgen.increment() as u32, 300 % 127);
}

#[test]
fn next_id_takes_the_clock_modulo_65536() {
    let mut idgen = IdGenerator::new();
    let data = [7u8; 12];
    let id = idgen.next_id(65536 * 5 + 0x1234, data);
    assert_eq!(id.time, 0x1234);
    assert_eq!(id.increment, 0);
    assert_eq!(id.header, 0);
    assert_eq!(id.data, data);
    let id = idgen.next_id(65535, data);
    assert_eq!(id.time, 65535);
    assert_eq!(id.increment, 1);
}

#[test]
fn ids_from_file_stems_pass_over_other_names() {
    let stems = vec![
        "2A-BEEF-00010203040506070809ABFF".to_string(),
        "notes".to_string(),
        "81-2A-BEEF-00010203040506070809AB00".to_string(),
    ];
    let ids = Id::from_file_stems(&stems);
    assert_eq!(ids.len(), 2);
    assert_eq!(ids[0], sample_id());
    assert_eq!(ids[1].header, 0x81);
    assert_eq!(ids[1].data[11], 0);
}

#[test]
fn payloads_differ_from_one_another() {
    let mut idgen = IdGenerator::new();
    let first = idgen.generate_new_id();
    let mut differs = false;
    for _ in 0..50 {
        if idgen.generate_new_id().data != first.data {
            differs = true;
        }
    }
    assert!(differs);
}
