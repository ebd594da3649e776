use steam_broker::protocol::{
    build_frame, parse_frame, write_field, PlayerField, Relationship, CONNECT_RESPONSE_HEADER,
    FIELD_HEADER_SIZE, FRAME_HEADER, FRAME_HEADER_SIZE, FRAME_LENGTH_SIZE, MAX_PAYLOAD_SIZE,
    PLAYER_RESPONSE_HEADER,
};
use steam_broker::BrokerError;

#[test]
fn constants_spell_what_goes_over_the_wire() {
    assert_eq!(&FRAME_HEADER, b"SBRK");
    assert_eq!(FRAME_HEADER_SIZE, 4);
    assert_eq!(FRAME_LENGTH_SIZE, 2);
    assert_eq!(MAX_PAYLOAD_SIZE, 4096);
    assert_eq!(FIELD_HEADER_SIZE, 5);
    assert_eq!(&CONNECT_RESPONSE_HEADER, b"sb_connect\n");
    assert_eq!(&PLAYER_RESPONSE_HEADER, b"sb_playerx\n");
}

#[test]
fn frame_is_magic_length_and_payload() {
    assert_eq!(build_frame(b"hi").unwrap(), b"SBRK\x02\x00hi");
    assert_eq!(build_frame(b"").unwrap(), b"SBRK\x00\x00");
    let frame = build_frame(&[7; 0x123]).unwrap();
    assert_eq!(&frame[..6], b"SBRK\x23\x01");
    assert_eq!(frame.len(), 6 + 0x123);
}

#[test]
fn payload_of_the_longest_kind_fits_into_a_frame() {
    let payload = vec![0xab; 4096];
    let frame = build_frame(&payload).unwrap();
    assert_eq!(&frame[..6], b"SBRK\x00\x10");
    assert_eq!(parse_frame(&frame), Ok(Some((4102, payload))));
}

#[test]
fn payload_beyond_the_limit_gets_no_frame() {
    assert_eq!(
        build_frame(&[0; 4097]),
        Err(BrokerError::Custom("response payload too large"))
    );
}

#[test]
fn frame_parses_back_whatever_follows() {
    let mut buf = build_frame(b"sb_terminate").unwrap();
    buf.extend_from_slice(b"and more");
    assert_eq!(parse_frame(&buf), Ok(Some((18, b"sb_terminate".to_vec()))));
}

#[test]
fn beginning_of_a_frame_is_incomplete() {
    let frame = build_frame(b"sb_gamedir valve").unwrap();
    for k in 0..frame.len() {
        assert_eq!(parse_frame(&frame[..k]), Ok(None));
    }
    assert_eq!(
        parse_frame(&frame),
        Ok(Some((frame.len(), b"sb_gamedir valve".to_vec())))
    );
}

#[test]
fn bad_magic_is_reported_once_the_header_is_there() {
    assert_eq!(parse_frame(b"XXXXX"), Ok(None));
    assert_eq!(
        parse_frame(b"SBRX\x00\x00"),
        Err(BrokerError::Custom("invalid frame magic"))
    );
    for i in 0..4 {
        let mut frame = build_frame(b"x").unwrap();
        frame[i] ^= 1;
        assert_eq!(
            parse_frame(&frame),
            Err(BrokerError::Custom("invalid frame magic"))
        );
    }
}

#[test]
fn announced_length_beyond_the_limit_is_reported_at_once() {
    assert_eq!(
        parse_frame(b"SBRK\x01\x10"),
        Err(BrokerError::Custom("frame too large"))
    );
    assert_eq!(
        parse_frame(b"SBRK\xff\xff"),
        Err(BrokerError::Custom("frame too large"))
    );
    assert_eq!(parse_frame(b"SBRK\x00\x10"), Ok(None));
}

#[test]
fn more_bytes_do_not_change_an_answer() {
    for start in [
        b"SBRK\x02\x00hi".to_vec(),
        b"SBRK\x01\x10".to_vec(),
        b"NOPE\x00\x00".to_vec(),
    ] {
        let answer = parse_frame(&start);
        let mut longer = start.clone();
        longer.extend_from_slice(b"SBRK\x00\x00");
        assert_eq!(parse_frame(&longer), answer);
    }
}

#[test]
fn stream_of_frames_reads_back_in_order() {
    let sent: [&[u8]; 3] = [b"one", b"", b"three"];
    let mut buf: Vec<u8> = Vec::new();
    for payload in sent {
        buf.extend_from_slice(&build_frame(payload).unwrap());
    }
    buf.extend_from_slice(b"SBRK");
    let mut at = 0;
    for payload in sent {
        let (consumed, read) = parse_frame(&buf[at..]).unwrap().unwrap();
        assert_eq!(read, payload);
        assert_eq!(buf[at..at + consumed].to_vec(), build_frame(&read).unwrap());
        at += consumed;
    }
    assert_eq!(&buf[at..], b"SBRK");
    assert_eq!(parse_frame(&buf[at..]), Ok(None));
}

#[test]
fn type_tags_and_bits_of_the_fields() {
    let fields = [
        PlayerField::Name,
        PlayerField::AvatarSmall,
        PlayerField::AvatarMedium,
        PlayerField::AvatarLarge,
        PlayerField::Relationship,
        PlayerField::Country,
        PlayerField::Game,
        PlayerField::RichPresence,
        PlayerField::PersonaState,
    ];
    for (i, field) in fields.into_iter().enumerate() {
        assert_eq!(field.wire_type() as usize, i + 1);
        assert_eq!(field.flag_bit(), 1 << i);
    }
}

#[test]
fn field_is_written_as_tag_length_and_data() {
    let mut payload = b"p".to_vec();
    let mut flags = 1;
    assert!(write_field(&mut payload, &mut flags, PlayerField::Game, b"abc"));
    assert_eq!(payload, b"p\x07\x03\x00\x00\x00abc");
    assert_eq!(flags, 0x41);
}

#[test]
fn field_is_left_out_where_it_does_not_fit() {
    let mut payload = vec![0; 4096 - 5 - 10];
    let mut flags = 0;
    assert!(!write_field(&mut payload, &mut flags, PlayerField::Name, &[1; 11]));
    assert_eq!(payload.len(), 4096 - 15);
    assert_eq!(flags, 0);
    assert!(write_field(&mut payload, &mut flags, PlayerField::Name, &[1; 10]));
    assert_eq!(payload.len(), 4096);
    assert_eq!(flags, 1);
    assert!(!write_field(&mut payload, &mut flags, PlayerField::Country, b""));
    assert_eq!(payload.len(), 4096);
    assert_eq!(flags, 1);
}

#[test]
fn bytes_of_the_relationships() {
    assert_eq!(Relationship::NoRelation.wire_byte(), 0);
    assert_eq!(Relationship::Friend.wire_byte(), 1);
    assert_eq!(Relationship::Blocked.wire_byte(), 2);
    assert_eq!(Relationship::FriendshipRequested.wire_byte(), 3);
    assert_eq!(Relationship::RequestingFriendship.wire_byte(), 4);
}
