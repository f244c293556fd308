use formula::Error;
use formula::Expr;
use formula::Formula;
use formula::Num;

fn num(n: i64, d: i64) -> Expr {
    Expr::Number(Num::new(n, d).unwrap())
}

#[test]
fn test_parse_basic_types() {
    let formula = Formula::new("=TRUE").unwrap();
    let value = formula.parse().unwrap();
    assert_eq!(value, Expr::Bool(true));

    let formula = Formula::new("=TRUE()").unwrap();
    let value = formula.parse().unwrap();
    assert_eq!(value, Expr::Bool(true));

    let formula = Formula::new("=25").unwrap();
    let value = formula.parse().unwrap();
    assert_eq!(value, num(25, 1));

    let formula = Formula::new("='TEST'").unwrap();
    let value = formula.parse().unwrap();
    assert_eq!(value, Expr::String("TEST".to_string()));

    let formula = Formula::new("={}").unwrap();
    let value = formula.parse().unwrap();
    assert_eq!(value, Expr::Array(vec![]));

    let formula = Formula::new("={'TEST', 1}").unwrap();
    let value = formula.parse().unwrap();
    assert_eq!(
        value,
        Expr::Array(vec![Expr::String("TEST".to_string()), num(1, 1)]),
    );

    let formula = Formula::new("={'TEST', 1; 2, TRUE}").unwrap();
    let value = formula.parse().unwrap();
    assert_eq!(
        value,
        Expr::Array(vec![
            Expr::Array(vec![Expr::String("TEST".to_string()), num(1, 1)]),
            Expr::Array(vec![num(2, 1), Expr::Bool(true)]),
        ])
    );
}

#[test]
fn test_parse_bool_types() {
    let formula = Formula::new("=AND(TRUE, FALSE(), TRUE)").unwrap();
    let value = formula.parse().unwrap();
    assert_eq!(value, Expr::Bool(false));

    let formula = Formula::new("=AND(TRUE, TRUE(), TRUE)").unwrap();
    let value = formula.parse().unwrap();
    assert_eq!(value, Expr::Bool(true));

    let formula = Formula::new("=OR(TRUE, FALSE(), TRUE)").unwrap();
    let value = formula.parse().unwrap();
    assert_eq!(value, Expr::Bool(true));

    let formula = Formula::new("=OR(TRUE, TRUE(), TRUE)").unwrap();
    let value = formula.parse().unwrap();
    assert_eq!(value, Expr::Bool(true));

    let formula = Formula::new("=XOR(TRUE, FALSE(), FALSE)").unwrap();
    let value = formula.parse().unwrap();
    assert_eq!(value, Expr::Bool(true));

    let formula = Formula::new("=XOR(TRUE, TRUE())").unwrap();
    let value = formula.parse().unwrap();
    assert_eq!(value, Expr::Bool(false));

    let formula = Formula::new("=OR(TRUE, TRUE(), NOT(FALSE()))").unwrap();
    let value = formula.parse().unwrap();
    assert_eq!(value, Expr::Bool(true));

    let formula = Formula::new("=IFERROR(NOT('a'), 'err')").unwrap();
    let value = formula.parse().unwrap();
    assert_eq!(value, Expr::String("err".to_string()));

    let formula = Formula::new("=IF(TRUE, 'true', 'false')").unwrap();
    let value = formula.parse().unwrap();
    assert_eq!(value, Expr::String("true".to_string()));
}

#[test]
fn operator_test_parse_web_types() {
    let formula = Formula::new("=F.ADD(5,6)").unwrap();
    let value = formula.parse().unwrap();
    assert_eq!(value, num(11, 1));

    let formula = Formula::new("=F.SUB(5,6)").unwrap();
    let value = formula.parse().unwrap();
    assert_eq!(value, num(-1, 1));

    let formula = Formula::new("=F.MUL(5,6)").unwrap();
    let value = formula.parse().unwrap();
    assert_eq!(value, num(30, 1));

    let formula = Formula::new("=F.DIV(10,2)").unwrap();
    let value = formula.parse().unwrap();
    assert_eq!(value, num(5, 1));

    let formula = Formula::new("=F.DIV(10,0)").unwrap();
    let value = formula.parse().unwrap();
    assert_eq!(value, Expr::Null);

    let formula = Formula::new("=F.MUL(5,6)").unwrap();
    let value = formula.parse().unwrap();
    assert_eq!(value, num(30, 1));

    let formula = Formula::new("=F.POW(5,2)").unwrap();
    let value = formula.parse().unwrap();
    assert_eq!(value, num(25, 1));

    let formula = Formula::new("=F.EQ(5,2)").unwrap();
    let value = formula.parse().unwrap();
    assert_eq!(value, Expr::Bool(false));

    let formula = Formula::new("=F.NE('a','a')").unwrap();
    let value = formula.parse().unwrap();
    assert_eq!(value, Expr::Bool(false));

    let formula = Formula::new("=F.GT('a','a')").unwrap();
    let value = formula.parse().unwrap();
    assert_eq!(value, Expr::Bool(false));

    let formula = Formula::new("=F.LT(5,6)").unwrap();
    let value = formula.parse().unwrap();
    assert_eq!(value, Expr::Bool(true));

    let formula = Formula::new("=F.GTE(5,5)").unwrap();
    let value = formula.parse().unwrap();
    assert_eq!(value, Expr::Bool(true));

    let formula = Formula::new("=F.LTE(6,5)").unwrap();
    let value = formula.parse().unwrap();
    assert_eq!(value, Expr::Bool(false));

    let formula = Formula::new("=F.PERCENT(5)").unwrap();
    let value = formula.parse().unwrap();
    assert_eq!(value, num(5, 100));

    let formula = Formula::new("=F.NEGATE(5)").unwrap();
    let value = formula.parse().unwrap();
    assert_eq!(value, num(-5, 1));
}

#[test]
fn bad_formula_is_a_root_parser_error() {
    assert_eq!(
        Formula::new("=)(").unwrap_err(),
        Error::Parser("root".to_string())
    );
    assert!(Formula::new("").is_err());
    assert!(Formula::new("=NOSUCHFUNCTION(1)").is_err());
}

#[test]
fn type_mismatch_is_a_parser_error() {
    let formula = Formula::new("=F.ADD(1, 'a')").unwrap();
    assert_eq!(
        formula.parse().unwrap_err(),
        Error::Parser("add".to_string())
    );

    let formula = Formula::new("=NOT('a')").unwrap();
    assert_eq!(
        formula.parse().unwrap_err(),
        Error::Parser("not".to_string())
    );

    let formula = Formula::new("=F.GT(TRUE, FALSE)").unwrap();
    assert_eq!(formula.parse().unwrap_err(), Error::Parser("gt".to_string()));
}

#[test]
fn unimplemented_functions_say_so() {
    let formula = Formula::new("=ROUND(1.5)").unwrap();
    assert_eq!(
        formula.parse().unwrap_err(),
        Error::NotImplemented("round".to_string())
    );

    let formula = Formula::new("=FILTERXML('a', 'b')").unwrap();
    assert_eq!(
        formula.parse().unwrap_err(),
        Error::NotImplemented("filterxml".to_string())
    );

    let formula = Formula::new("=SUBSTITUTE('a', 'b', 'c')").unwrap();
    assert_eq!(
        formula.parse().unwrap_err(),
        Error::NotImplemented("substitute".to_string())
    );

    // the promise holds whatever the arguments are, volatile included
    let formula = Formula::new("=ROUND(RAND())").unwrap();
    assert_eq!(
        formula.parse().unwrap_err(),
        Error::NotImplemented("round".to_string())
    );
}

#[test]
fn evaluation_is_repeatable() {
    let a = Formula::new("=CONCAT(UPPER(TRIM('   Hello ')), ' ', 'world!')")
        .unwrap()
        .parse()
        .unwrap();
    let b = Formula::new("=CONCAT(UPPER(TRIM('   Hello ')), ' ', 'world!')")
        .unwrap()
        .parse()
        .unwrap();
    assert_eq!(a, b);
    assert_eq!(a, Expr::String("HELLO world!".to_string()));

    let c = Formula::new("=F.DIV(10,3)").unwrap().parse().unwrap();
    let d = Formula::new("=F.DIV(10,3)").unwrap().parse().unwrap();
    assert_eq!(c, d);
    assert_eq!(c, num(10, 3));
}

#[test]
fn out_of_range_literals_are_null() {
    // a well-formed literal whose whole part exceeds the numeric
    // range is the Null domain value, not an error
    let formula = Formula::new("=9999999999999999999").unwrap();
    assert_eq!(formula.parse().unwrap(), Expr::Null);

    // fractional digits past eighteen significant places are dropped
    let formula = Formula::new("=0.123456789012345678901").unwrap();
    assert_eq!(
        formula.parse().unwrap(),
        num(12345678901234567, 100000000000000000)
    );
}

#[test]
fn if_false_takes_the_other_branch() {
    let formula = Formula::new("=IF(FALSE, 'true', 'false')").unwrap();
    let value = formula.parse().unwrap();
    assert_eq!(value, Expr::String("false".to_string()));

    // both branches default to zero when left out
    let formula = Formula::new("=IF(FALSE, 'true')").unwrap();
    let value = formula.parse().unwrap();
    assert_eq!(value, num(0, 1));
}

#[test]
fn ifna_passes_values_through() {
    let formula = Formula::new("=IFNA(F.DIV(1,0), 'fallback')").unwrap();
    let value = formula.parse().unwrap();
    assert_eq!(value, Expr::String("fallback".to_string()));

    let formula = Formula::new("=IFNA(5, 'fallback')").unwrap();
    let value = formula.parse().unwrap();
    assert_eq!(value, num(5, 1));
}
