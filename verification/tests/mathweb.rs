use formula::Error;
use formula::Expr;
use formula::Fetcher;
use formula::Formula;
use formula::Num;

fn num(n: i64, d: i64) -> Expr {
    Expr::Number(Num::new(n, d).unwrap())
}

#[test]
fn test_parse_math_types() {
    let formula = Formula::new("=ABS(-1)").unwrap();
    let value = formula.parse().unwrap();
    assert_eq!(value, num(1, 1));

    let formula = Formula::new("=SIGN(LOG10(SQRT(SUM(1,2,3,3))))").unwrap();
    let value = formula.parse().unwrap();
    assert_eq!(value, num(1, 1));
}

struct CannedFetcher;

impl Fetcher for CannedFetcher {
    fn fetch(&mut self, _url: &str) -> Result<String, Error> {
        Ok("test".to_string())
    }
}

#[test]
fn web_test_parse_web_types() {
    let formula =
        Formula::new("=ENCODEURL('http://contoso.sharepoint.com/Finance/Profit and Loss Statement.xlsx')").unwrap();
    let value = formula.parse().unwrap();
    assert_eq!(
        value,
        Expr::String(
            "http%3A%2F%2Fcontoso.sharepoint.com%2FFinance%2FProfit%20and%20Loss%20Statement.xlsx".to_string()
        )
    );

    let formula = Formula::new("=WEBSERVICE('https://gist.githubusercontent.com/omid/3b4ec57e04dded792b14681b9aa1f724/raw/d6400777873f5a0ef7e916a46810a9a9af93dede/test')").unwrap();
    let mut fetcher = CannedFetcher;
    let value = formula.parse_with(&mut fetcher).unwrap();
    assert_eq!(value, Expr::String("test".to_string()));
}

struct FailingFetcher;

impl Fetcher for FailingFetcher {
    fn fetch(&mut self, _url: &str) -> Result<String, Error> {
        Err(Error::Parser("transport".to_string()))
    }
}

#[test]
fn webservice_failure_is_a_parser_error() {
    let formula = Formula::new("=WEBSERVICE('x')").unwrap();
    let mut fetcher = FailingFetcher;
    assert_eq!(
        formula.parse_with(&mut fetcher).unwrap_err(),
        Error::Parser("webservice".to_string())
    );
}

#[test]
fn exact_math_stays_exact() {
    let formula = Formula::new("=SQRT(9)").unwrap();
    assert_eq!(formula.parse().unwrap(), num(3, 1));

    let formula = Formula::new("=SQRT(F.DIV(9, 4))").unwrap();
    assert_eq!(formula.parse().unwrap(), num(3, 2));

    let formula = Formula::new("=SQRT(-1)").unwrap();
    assert_eq!(formula.parse().unwrap(), Expr::Null);

    let formula = Formula::new("=POWER(2, 10)").unwrap();
    assert_eq!(formula.parse().unwrap(), num(1024, 1));

    let formula = Formula::new("=POWER(2, F.NEGATE(2))").unwrap();
    assert_eq!(formula.parse().unwrap(), num(1, 4));

    let formula = Formula::new("=MOD(7, 3)").unwrap();
    assert_eq!(formula.parse().unwrap(), num(1, 1));

    let formula = Formula::new("=MOD(F.NEGATE(7), 3)").unwrap();
    assert_eq!(formula.parse().unwrap(), num(-1, 1));

    let formula = Formula::new("=SUM(1, 2, F.DIV(1, 2))").unwrap();
    assert_eq!(formula.parse().unwrap(), num(7, 2));
}

#[test]
fn approximate_math_lands_close() {
    // ln e is one, up to the fixed-point resolution
    let formula = Formula::new("=LN(2.718281828459045)").unwrap();
    let value = formula.parse().unwrap();
    match value {
        Expr::Number(q) => {
            let (n, d) = q.parts();
            let x = n as f64 / d as f64;
            assert!((x - 1.0).abs() < 1e-9, "LN gave {x}");
        }
        other => panic!("LN gave {other:?}"),
    }

    let formula = Formula::new("=SIN(PI())").unwrap();
    let value = formula.parse().unwrap();
    match value {
        Expr::Number(q) => {
            let (n, d) = q.parts();
            let x = n as f64 / d as f64;
            assert!(x.abs() < 1e-9, "SIN gave {x}");
        }
        other => panic!("SIN gave {other:?}"),
    }

    let formula = Formula::new("=COS(0)").unwrap();
    let value = formula.parse().unwrap();
    match value {
        Expr::Number(q) => {
            let (n, d) = q.parts();
            let x = n as f64 / d as f64;
            assert!((x - 1.0).abs() < 1e-9, "COS gave {x}");
        }
        other => panic!("COS gave {other:?}"),
    }

    let formula = Formula::new("=EXP(1)").unwrap();
    let value = formula.parse().unwrap();
    match value {
        Expr::Number(q) => {
            let (n, d) = q.parts();
            let x = n as f64 / d as f64;
            assert!((x - 2.718281828459045).abs() < 1e-9, "EXP gave {x}");
        }
        other => panic!("EXP gave {other:?}"),
    }

    let formula = Formula::new("=ATAN(1)").unwrap();
    let value = formula.parse().unwrap();
    match value {
        Expr::Number(q) => {
            let (n, d) = q.parts();
            let x = n as f64 / d as f64;
            assert!((x - std::f64::consts::FRAC_PI_4).abs() < 1e-9, "ATAN gave {x}");
        }
        other => panic!("ATAN gave {other:?}"),
    }
}

#[test]
fn rand_stays_in_the_unit_interval() {
    let formula = Formula::new("=RAND()").unwrap();
    match formula.parse().unwrap() {
        Expr::Number(q) => {
            let (n, d) = q.parts();
            assert!(n >= 0);
            assert!((n as i128) < d as i128);
        }
        other => panic!("RAND gave {other:?}"),
    }
}

#[test]
fn pi_is_the_double_precision_constant() {
    let formula = Formula::new("=PI()").unwrap();
    match formula.parse().unwrap() {
        Expr::Number(q) => {
            let (n, d) = q.parts();
            assert_eq!(n as f64 / d as f64, std::f64::consts::PI);
        }
        other => panic!("PI gave {other:?}"),
    }
}

#[test]
fn now_and_today_have_the_right_shapes() {
    let formula = Formula::new("=NOW()").unwrap();
    assert!(matches!(formula.parse().unwrap(), Expr::Datetime(_)));

    let formula = Formula::new("=TODAY()").unwrap();
    assert!(matches!(formula.parse().unwrap(), Expr::Date(_)));
}

#[test]
fn overflowing_arithmetic_collapses_to_null() {
    let formula = Formula::new("=F.MUL(900000000000000000, 900000000000000000)").unwrap();
    assert_eq!(formula.parse().unwrap(), Expr::Null);
}
