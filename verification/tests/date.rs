use liter2::{Date, ErrorKind};

#[test]
fn parse_mdy() {
    assert_eq!(
        Date {
            year: 2017,
            month: 10,
            day: 3,
        },
        Date::parse_mdy("10/03/17").unwrap()
    );
    assert_eq!(
        Date {
            year: 1997,
            month: 3,
            day: 17,
        },
        Date::parse_mdy("03/17/97").unwrap()
    );
}

#[test]
fn parse_mdy_century_boundary() {
    assert_eq!(
        Date {
            year: 2050,
            month: 1,
            day: 2,
        },
        Date::parse_mdy("01/02/50").unwrap()
    );
    assert_eq!(
        Date {
            year: 1951,
            month: 1,
            day: 2,
        },
        Date::parse_mdy("01/02/51").unwrap()
    );
}

#[test]
fn parse_ymd() {
    assert_eq!(
        Date {
            year: 2017,
            month: 10,
            day: 3,
        },
        Date::parse_ymd("2017/10/03").unwrap()
    );
    assert_eq!(
        Date {
            year: 1997,
            month: 3,
            day: 17,
        },
        Date::parse_ymd("1997/03/17").unwrap()
    );
}

#[test]
fn format_parse_round_trip() {
    let d = Date {
        year: 2017,
        month: 10,
        day: 3,
    };
    assert_eq!("2017/10/03", d.format_ymd());
    assert_eq!(d, Date::parse_ymd(d.format_ymd().as_str()).unwrap());
    let e = Date {
        year: 3,
        month: 1,
        day: 31,
    };
    assert_eq!("0003/01/31", e.format_ymd());
    assert_eq!(e, Date::parse_ymd(e.format_ymd().as_str()).unwrap());
}

#[test]
fn parse_errors_are_date_parse() {
    assert_eq!(ErrorKind::DateParse, Date::parse_mdy("13/40/17").unwrap_err().kind);
    assert_eq!(ErrorKind::DateParse, Date::parse_mdy("1/2/17").unwrap_err().kind);
    assert_eq!(ErrorKind::DateParse, Date::parse_mdy("aa/bb/cc").unwrap_err().kind);
    assert_eq!(ErrorKind::DateParse, Date::parse_ymd("17/10/03").unwrap_err().kind);
}

#[test]
fn dates_order_by_year_month_day() {
    let a = Date {
        year: 1997,
        month: 12,
        day: 31,
    };
    let b = Date {
        year: 2017,
        month: 1,
        day: 1,
    };
    let c = Date {
        year: 2017,
        month: 1,
        day: 2,
    };
    assert!(a < b);
    assert!(b < c);
    assert!(a < c);
}
