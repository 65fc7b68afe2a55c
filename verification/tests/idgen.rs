use rtoolkit::idgen::{
    checksum_char, date8_string, make_id18, parse_date, random_seq, seq_for_gender,
    validate_region, Date, Gender, IdError,
};

#[test]
fn test_checksum_known() {
    let id17 = "11010119900101001";
    let c = checksum_char(id17);
    assert!("10X98765432".contains(c));
}

#[test]
fn test_parse_date() {
    let date = parse_date("19900520").unwrap();
    assert_eq!(date, Date { year: 1990, month: 5, day: 20 });

    let date = parse_date("1990-05-20").unwrap();
    assert_eq!(date, Date { year: 1990, month: 5, day: 20 });

    let err = parse_date("20230230").unwrap_err();
    match err {
        IdError::InvalidDate(s) => assert_eq!(s, "20230230"),
        _ => panic!("expected InvalidDate error"),
    }

    let date = parse_date("20200229").unwrap();
    assert_eq!(date, Date { year: 2020, month: 2, day: 29 });

    let d1 = parse_date("19000101").unwrap();
    let d2 = parse_date("20991231").unwrap();
    assert_eq!(d1.year, 1900);
    assert_eq!(d2.year, 2099);
}

#[test]
fn test_checksum_exact_value() {
    assert_eq!(checksum_char("11010119900101001"), '5');
}

#[test]
fn test_parse_date_rejects_odd_shapes() {
    assert!(matches!(
        parse_date("199005"),
        Err(IdError::InvalidDate(_))
    ));
    assert!(matches!(
        parse_date("1990-13-01"),
        Err(IdError::InvalidDate(_))
    ));
    assert!(matches!(
        parse_date("1990/05/20"),
        Err(IdError::InvalidDate(_))
    ));
    assert!(matches!(
        parse_date("19000229"),
        Err(IdError::InvalidDate(_))
    ));
}

#[test]
fn test_validate_region() {
    assert!(validate_region("110000").is_ok());
    assert!(matches!(
        validate_region("11000a"),
        Err(IdError::InvalidRegion)
    ));
    assert!(matches!(
        validate_region("12345"),
        Err(IdError::InvalidRegion)
    ));
    assert!(matches!(
        validate_region("1234567"),
        Err(IdError::InvalidRegion)
    ));
}

#[test]
fn test_seq_for_gender() {
    assert_eq!(seq_for_gender(10, Gender::Male), 11);
    assert_eq!(seq_for_gender(11, Gender::Male), 11);
    assert_eq!(seq_for_gender(8, Gender::Female), 8);
    assert_eq!(seq_for_gender(7, Gender::Female), 8);
    assert_eq!(seq_for_gender(999, Gender::Female), 0);
    assert_eq!(seq_for_gender(42, Gender::Any), 42);
}

#[test]
fn test_random_seq_shape_and_parity() {
    for _ in 0..20 {
        let s = random_seq(Gender::Male);
        assert_eq!(s.len(), 3);
        let n: u32 = s.parse().unwrap();
        assert_eq!(n % 2, 1);
        let s = random_seq(Gender::Female);
        assert_eq!(s.len(), 3);
        let n: u32 = s.parse().unwrap();
        assert_eq!(n % 2, 0);
        let s = random_seq(Gender::Any);
        assert_eq!(s.len(), 3);
        assert!(s.parse::<u32>().unwrap() <= 999);
    }
}

#[test]
fn test_date8_string() {
    assert_eq!(date8_string(Date { year: 2020, month: 2, day: 29 }), "20200229");
    assert_eq!(date8_string(Date { year: 1, month: 12, day: 3 }), "00011203");
}

#[test]
fn test_make_id18() {
    let id = make_id18("110101", Date { year: 1990, month: 1, day: 1 }, "001");
    assert_eq!(id, "110101199001010015");
    assert_eq!(id.len(), 18);
    let body: String = id.chars().take(17).collect();
    let check = id.chars().last().unwrap();
    assert_eq!(checksum_char(&body), check);
}
