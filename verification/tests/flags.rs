use mesh_wire::message::protocol::ExchangeFlags;
use mesh_wire::message::{DSIZ, MessageFlags, SecurityFlags, SessionType};

#[test]
fn dsiz_from_is_total_over_all_bytes() {
    for b in 0u16..256 {
        let b = b as u8;
        let expected = match b & 0x03 {
            0 => DSIZ::NotPresent,
            1 => DSIZ::NodeID,
            2 => DSIZ::GroupID,
            _ => DSIZ::Reserved,
        };
        assert_eq!(DSIZ::from(b), expected);
    }
}

#[test]
fn session_type_from_is_total_over_all_bytes() {
    for b in 0u16..256 {
        let b = b as u8;
        let expected = match b & 0x03 {
            0 => SessionType::Unicast,
            1 => SessionType::Group,
            _ => SessionType::Reserved,
        };
        assert_eq!(SessionType::from(b), expected);
    }
}

#[test]
fn dsiz_codes_round_trip_exactly() {
    assert_eq!(u8::from(DSIZ::NotPresent), 0);
    assert_eq!(u8::from(DSIZ::NodeID), 1);
    assert_eq!(u8::from(DSIZ::GroupID), 2);
    assert_eq!(u8::from(DSIZ::Reserved), 3);
    for code in 0u8..4 {
        assert_eq!(u8::from(DSIZ::from(code)), code);
    }
}

#[test]
fn session_type_reserved_canonicalizes_to_three() {
    assert_eq!(u8::from(SessionType::Unicast), 0);
    assert_eq!(u8::from(SessionType::Group), 1);
    // Both unassigned wire patterns decode to Reserved, and Reserved always
    // re-encodes to the catch-all slot 3: a wire value of 2 does not
    // round-trip bit-exactly, by the format's own convention.
    assert_eq!(SessionType::from(2u8), SessionType::Reserved);
    assert_eq!(SessionType::from(3u8), SessionType::Reserved);
    assert_eq!(u8::from(SessionType::from(2u8)), 3);
    assert_eq!(u8::from(SessionType::from(3u8)), 3);
}

#[test]
fn message_flags_accessors_read_their_ranges() {
    let f = MessageFlags(0b0001_0010);
    assert_eq!(f.version(), 1);
    assert!(!f.s());
    assert_eq!(f.dsiz(), DSIZ::GroupID);
    let g = MessageFlags(0b1111_0101);
    assert_eq!(g.version(), 0x0F);
    assert!(g.s());
    assert_eq!(g.dsiz(), DSIZ::NodeID);
}

#[test]
fn message_flags_mutators_leave_other_ranges_alone() {
    let mut f = MessageFlags(0xFF);
    f.set_s(false);
    assert_eq!(f.0, 0xFB);
    assert_eq!(f.version(), 0x0F);
    assert_eq!(f.dsiz(), DSIZ::Reserved);
    f.set_dsiz(DSIZ::NotPresent);
    assert_eq!(f.0, 0xF8);
    assert_eq!(f.version(), 0x0F);
    assert!(!f.s());
    f.set_version(0);
    assert_eq!(f.0, 0x08);
    assert_eq!(f.dsiz(), DSIZ::NotPresent);
    assert!(!f.s());

    let mut z = MessageFlags(0x00);
    z.set_version(0x0A);
    z.set_s(true);
    z.set_dsiz(DSIZ::GroupID);
    assert_eq!(z.0, 0b1010_0110);
}

#[test]
fn security_flags_accessors_and_mutators() {
    let s = SecurityFlags(0b1010_0001);
    assert!(s.p());
    assert!(!s.c());
    assert!(s.mx());
    assert_eq!(s.session_type(), SessionType::Group);

    let mut t = SecurityFlags(0x00);
    t.set_p(true);
    assert_eq!(t.0, 0x80);
    t.set_c(true);
    assert_eq!(t.0, 0xC0);
    t.set_mx(true);
    assert_eq!(t.0, 0xE0);
    t.set_session_type(SessionType::Group);
    assert_eq!(t.0, 0xE1);
    assert!(t.p() && t.c() && t.mx());
    t.set_session_type(SessionType::Reserved);
    assert_eq!(t.0, 0xE3);
    // the reserved bits 4:2 are preserved verbatim
    let mut r = SecurityFlags(0b0001_1100);
    r.set_p(true);
    r.set_mx(true);
    r.set_session_type(SessionType::Unicast);
    assert_eq!(r.0, 0b1011_1100);
}

#[test]
fn exchange_flags_accessors_and_mutators() {
    let e = ExchangeFlags(0b0000_0011);
    assert!(e.i());
    assert!(e.a());
    assert!(!e.r());
    assert!(!e.sx());
    assert!(!e.v());

    let mut f = ExchangeFlags(0xFF);
    f.set_a(false);
    assert_eq!(f.0, 0xFD);
    assert!(f.i() && f.r() && f.sx() && f.v());
    f.set_i(false);
    f.set_r(false);
    f.set_sx(false);
    f.set_v(false);
    // bits 7:5 are reserved and survive every mutator
    assert_eq!(f.0, 0xE0);
    let mut g = ExchangeFlags(0x00);
    g.set_v(true);
    g.set_sx(true);
    assert_eq!(g.0, 0x18);
}
