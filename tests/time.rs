use remotefs_ssh::time::parse_lstime_in_year;
use remotefs_ssh::{fmt_time_utc, parse_lstime};

#[test]
fn should_fmt_time() {
    assert_eq!(
        fmt_time_utc(0, "%Y-%m-%d %H:%M").unwrap(),
        String::from("1970-01-01 00:00")
    );
}

#[test]
fn fmt_time_rejects_what_cannot_be_formatted() {
    assert!(fmt_time_utc(0, "%Q").is_none());
    assert!(fmt_time_utc(u64::MAX, "%Y").is_none());
    assert_eq!(fmt_time_utc(1541376000, "%Y-%m-%d").unwrap(), "2018-11-05");
}

#[test]
fn should_parse_lstime() {
    // Good cases
    assert_eq!(
        fmt_time_utc(
            parse_lstime("Nov 5 16:32", "%b %d %Y", "%b %d %H:%M").ok().unwrap(),
            "%m %d %M"
        )
        .unwrap()
        .as_str(),
        "11 05 32"
    );
    assert_eq!(
        fmt_time_utc(
            parse_lstime("Dec 2 21:32", "%b %d %Y", "%b %d %H:%M").ok().unwrap(),
            "%m %d %M"
        )
        .unwrap()
        .as_str(),
        "12 02 32"
    );
    assert_eq!(
        parse_lstime("Nov 5 2018", "%b %d %Y", "%b %d %H:%M").ok().unwrap(),
        1541376000
    );
    assert_eq!(
        parse_lstime("Mar 18 2018", "%b %d %Y", "%b %d %H:%M").ok().unwrap(),
        1521331200
    );
    // bad cases
    assert!(parse_lstime("Oma 31 2018", "%b %d %Y", "%b %d %H:%M").is_err());
    assert!(parse_lstime("Feb 31 2018", "%b %d %Y", "%b %d %H:%M").is_err());
    assert!(parse_lstime("Feb 15 25:32", "%b %d %Y", "%b %d %H:%M").is_err());
}

#[test]
fn lstime_in_a_given_year() {
    assert_eq!(
        parse_lstime_in_year("Nov 5 16:32", "%b %d %Y", "%b %d %H:%M", 2018).ok().unwrap(),
        1541376000 + 16 * 3600 + 32 * 60
    );
    assert_eq!(
        parse_lstime_in_year("Jan 1 00:00", "%b %d %Y", "%b %d %H:%M", 1970).ok().unwrap(),
        0
    );
    assert_eq!(
        parse_lstime_in_year("Dec 31 2018", "%b %d %Y", "%b %d %H:%M", 1970).ok().unwrap(),
        1546214400
    );
    assert_eq!(
        parse_lstime_in_year("Dec 31 1969", "%b %d %Y", "%b %d %H:%M", 2000).ok().unwrap(),
        0
    );
}
