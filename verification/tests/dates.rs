use formula::DateVal;
use formula::Error;
use formula::Expr;
use formula::Formula;
use formula::Num;
use formula::TimeVal;

fn num(n: i64, d: i64) -> Expr {
    Expr::Number(Num::new(n, d).unwrap())
}

fn date(y: i64, m: i64, d: i64) -> Expr {
    Expr::Date(DateVal::make(y, m, d).unwrap())
}

fn time(h: i64, m: i64, s: i64) -> Expr {
    Expr::Time(TimeVal::make(h, m, s).unwrap())
}

#[test]
fn test_parse_date_and_time_types() {
    let formula = Formula::new("=DATE(2020,2,3)").unwrap();
    let value = formula.parse().unwrap();
    assert_eq!(value, date(2020, 2, 3));

    let formula =
        Formula::new("=DATE(YEAR('1/30/2020'),MONTH('1/30/2020'),DAY('1/30/2020'))".trim())
            .unwrap();
    let value = formula.parse().unwrap();
    assert_eq!(value, date(2020, 1, 30));

    let formula = Formula::new("=YEAR('1/30/2020')").unwrap();
    let value = formula.parse().unwrap();
    assert_eq!(value, num(2020, 1));

    let formula = Formula::new("=MONTH('1/30/2020')").unwrap();
    let value = formula.parse().unwrap();
    assert_eq!(value, num(1, 1));

    let formula = Formula::new("=DAY('1/30/2020')").unwrap();
    let value = formula.parse().unwrap();
    assert_eq!(value, num(30, 1));

    let formula = Formula::new("=DATEVALUE('1/30/2020')").unwrap();
    let value = formula.parse().unwrap();
    assert_eq!(value, date(2020, 1, 30));

    let formula = Formula::new("=DAYS('3/30/2020', '1/30/2020')").unwrap();
    let value = formula.parse().unwrap();
    assert_eq!(value, num(60, 1));

    let formula = Formula::new("=DAYS(10, 5)").unwrap();
    let value = formula.parse().unwrap();
    assert_eq!(value, num(5, 1));

    let formula = Formula::new("=DAYS(DATE(2020,1,6), DATE(2020,1,1))").unwrap();
    let value = formula.parse().unwrap();
    assert_eq!(value, num(5, 1));

    let formula = Formula::new("=EDATE('1/30/2020', 5)").unwrap();
    let value = formula.parse().unwrap();
    assert_eq!(value, date(2020, 6, 30));

    let formula = Formula::new("=EDATE(DATE(2020,8,25),27)").unwrap();
    let value = formula.parse().unwrap();
    assert_eq!(value, date(2022, 11, 25));

    let formula = Formula::new("=EOMONTH('1/20/2020', 5)").unwrap();
    let value = formula.parse().unwrap();
    assert_eq!(value, date(2020, 6, 30));

    let formula = Formula::new("=EOMONTH(DATE(2020,8,31),27)").unwrap();
    let value = formula.parse().unwrap();
    assert_eq!(value, date(2022, 11, 30));

    let formula = Formula::new("=HOUR('02:30:00')").unwrap();
    let value = formula.parse().unwrap();
    assert_eq!(value, num(2, 1));

    let formula = Formula::new("=MINUTE('02:30:00')").unwrap();
    let value = formula.parse().unwrap();
    assert_eq!(value, num(30, 1));

    let formula = Formula::new("=SECOND('02:30:00')").unwrap();
    let value = formula.parse().unwrap();
    assert_eq!(value, num(0, 1));

    let formula = Formula::new("=ISOWEEKNUM('1/30/2020')").unwrap();
    let value = formula.parse().unwrap();
    assert_eq!(value, num(5, 1));

    let formula = Formula::new("=TIME(2,30,0)").unwrap();
    let value = formula.parse().unwrap();
    assert_eq!(value, time(2, 30, 0));

    let formula = Formula::new("=TIMEVALUE('02:30:00')").unwrap();
    let value = formula.parse().unwrap();
    assert_eq!(value, time(2, 30, 0));

    let formula = Formula::new("=WEEKDAY(DATE(2020,1,1))").unwrap();
    let value = formula.parse().unwrap();
    assert_eq!(value, num(2, 1));
}

#[test]
fn leap_years_are_respected() {
    let formula = Formula::new("=DAY(EOMONTH(DATE(2020,2,1), 0))").unwrap();
    let value = formula.parse().unwrap();
    assert_eq!(value, num(29, 1));

    let formula = Formula::new("=DAY(EOMONTH(DATE(1900,2,1), 0))").unwrap();
    let value = formula.parse().unwrap();
    assert_eq!(value, num(28, 1));

    let formula = Formula::new("=DAY(EOMONTH(DATE(2000,2,1), 0))").unwrap();
    let value = formula.parse().unwrap();
    assert_eq!(value, num(29, 1));
}

#[test]
fn an_impossible_date_is_a_parser_error() {
    let formula = Formula::new("=DATE(2021,2,29)").unwrap();
    assert_eq!(
        formula.parse().unwrap_err(),
        Error::Parser("date".to_string())
    );

    let formula = Formula::new("=DATEVALUE('13/40/2020')").unwrap();
    assert_eq!(
        formula.parse().unwrap_err(),
        Error::Parser("datevalue".to_string())
    );

    let formula = Formula::new("=TIME(25,0,0)").unwrap();
    assert_eq!(
        formula.parse().unwrap_err(),
        Error::Parser("time".to_string())
    );
}

#[test]
fn mixed_operands_to_days_are_an_error() {
    let formula = Formula::new("=DAYS(DATE(2020,1,6), 5)").unwrap();
    assert_eq!(
        formula.parse().unwrap_err(),
        Error::Parser("days".to_string())
    );
}

#[test]
fn weekday_accepts_date_strings() {
    let formula = Formula::new("=WEEKDAY('1/1/2020')").unwrap();
    let value = formula.parse().unwrap();
    assert_eq!(value, num(2, 1));

    let formula = Formula::new("=WEEKDAY('1/30/2020')").unwrap();
    let value = formula.parse().unwrap();
    assert_eq!(value, num(3, 1));

    let formula = Formula::new("=WEEKDAY(5)").unwrap();
    assert_eq!(
        formula.parse().unwrap_err(),
        Error::Parser("weekday".to_string())
    );
}

#[test]
fn date_and_time_values_have_display_text() {
    assert_eq!(DateVal::make(2020, 2, 3).unwrap().text(), "2020-02-03");
    assert_eq!(TimeVal::make(2, 30, 0).unwrap().text(), "02:30:00");
}
