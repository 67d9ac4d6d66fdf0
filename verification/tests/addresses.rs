use ersatz::ipv4::{Addr, IntErrorKind, ParseAddrError};
use ersatz::ping;

fn std_kind(s: &str) -> IntErrorKind {
    match s.parse::<u8>().unwrap_err().kind() {
        std::num::IntErrorKind::Empty => IntErrorKind::Empty,
        std::num::IntErrorKind::InvalidDigit => IntErrorKind::InvalidDigit,
        std::num::IntErrorKind::PosOverflow => IntErrorKind::PosOverflow,
        k => panic!("unexpected {:?}", k),
    }
}

#[test]
fn dotted_addresses() {
    assert_eq!("192.168.0.1".parse::<Addr>().unwrap(), Addr([192, 168, 0, 1]));
    assert_eq!(Addr::from_dotted("+1.02.003.255").unwrap(), Addr([1, 2, 3, 255]));
    assert_eq!(Addr::from_dotted("1.2.3"), Err(ParseAddrError::NotEnoughParts));
    assert_eq!(Addr::from_dotted("1.2.3.4.5"), Err(ParseAddrError::TooManyParts));
    assert_eq!(Addr::from_dotted("1.2.3.4."), Err(ParseAddrError::TooManyParts));
    assert_eq!(
        Addr::from_dotted("1.2..4"),
        Err(ParseAddrError::ParseIntError(IntErrorKind::Empty))
    );
    assert_eq!(
        Addr::from_dotted("1.2.3.x"),
        Err(ParseAddrError::ParseIntError(IntErrorKind::InvalidDigit))
    );
    assert_eq!(
        Addr::from_dotted("1.2.3.256"),
        Err(ParseAddrError::ParseIntError(IntErrorKind::PosOverflow))
    );
    // The first bad part decides.
    assert_eq!(
        Addr::from_dotted("x.999"),
        Err(ParseAddrError::ParseIntError(IntErrorKind::InvalidDigit))
    );
    assert_eq!(Addr::from_dotted(""), Err(ParseAddrError::ParseIntError(IntErrorKind::Empty)));
}

#[test]
fn byte_reading_agrees_with_std() {
    let cases = [
        "", "+", "-", "-0", "+0", "0", "00000255", "255", "256", "999x", "99x", "1a", "+12",
        "1 ", " 1", "٣", "25", "2555",
    ];
    for s in cases.iter() {
        let b = s.as_bytes();
        let ours = ersatz::ipv4::parse_u8_decimal(b, 0, b.len());
        match s.parse::<u8>() {
            Ok(v) => assert_eq!(ours, Ok(v), "{:?}", s),
            Err(_) => assert_eq!(ours, Err(std_kind(s)), "{:?}", s),
        }
    }
}

#[test]
fn ping_addresses() {
    let a = ping::ipv4::Addr::parse("10.0.0.138").unwrap();
    assert_eq!(a.0, [10, 0, 0, 138]);
    assert_eq!(a.to_string(), "10.0.0.138");
    // Parts after the fourth are not looked at.
    assert_eq!(ping::ipv4::Addr::parse("1.2.3.4.junk").unwrap().0, [1, 2, 3, 4]);
    assert_eq!(
        ping::ipv4::Addr::parse("1.2").err(),
        Some(ping::ipv4::ParseAddrError::NotEnoughParts)
    );
    assert_eq!(
        ping::ipv4::Addr::parse("1.2.300.4").err(),
        Some(ping::ipv4::ParseAddrError::ParseIntError(IntErrorKind::PosOverflow))
    );
    for a in [[0u8, 0, 0, 0], [255, 255, 255, 255], [1, 22, 133, 9]].iter() {
        let text = ping::ipv4::Addr(*a).to_string();
        assert_eq!(ping::ipv4::Addr::parse(&text).unwrap().0, *a);
        assert_eq!(text.parse::<Addr>().unwrap().0, *a);
    }
}
