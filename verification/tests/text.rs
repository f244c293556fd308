use formula::Error;
use formula::Expr;
use formula::Formula;
use formula::Num;

fn num(n: i64, d: i64) -> Expr {
    Expr::Number(Num::new(n, d).unwrap())
}

#[test]
fn test_parse_text_types() {
    let formula = Formula::new("=LEFT('hello')").unwrap();
    let value = formula.parse().unwrap();
    assert_eq!(value, Expr::String("h".to_string()));

    let formula = Formula::new("=LEFT('hello', 2)").unwrap();
    let value = formula.parse().unwrap();
    assert_eq!(value, Expr::String("he".to_string()));

    let formula = Formula::new("=LEFTB('hello')").unwrap();
    let value = formula.parse().unwrap();
    assert_eq!(value, Expr::String("h".to_string()));

    let formula = Formula::new("=RIGHT('hello')").unwrap();
    let value = formula.parse().unwrap();
    assert_eq!(value, Expr::String("o".to_string()));

    let formula = Formula::new("=RIGHT('hello', 2)").unwrap();
    let value = formula.parse().unwrap();
    assert_eq!(value, Expr::String("lo".to_string()));

    let formula = Formula::new("=RIGHTB('hello')").unwrap();
    let value = formula.parse().unwrap();
    assert_eq!(value, Expr::String("o".to_string()));

    let formula = Formula::new("=MID('Fluid Flow', 7, 20)").unwrap();
    let value = formula.parse().unwrap();
    assert_eq!(value, Expr::String("Flow".to_string()));

    let formula = Formula::new("=MID('Fluid Flow', 20, 5)").unwrap();
    let value = formula.parse().unwrap();
    assert_eq!(value, Expr::String(String::new()));

    let formula = Formula::new("=MIDB('Fluid Flow', 7, 20)").unwrap();
    let value = formula.parse().unwrap();
    assert_eq!(value, Expr::String("Flow".to_string()));

    let formula = Formula::new("=CODE('A')").unwrap();
    let value = formula.parse().unwrap();
    assert_eq!(value, num(65, 1));

    let formula = Formula::new("=CHAR(65)").unwrap();
    let value = formula.parse().unwrap();
    assert_eq!(value, Expr::String("A".to_string()));

    let formula = Formula::new("=CONCAT('hello', ' ', 'world')").unwrap();
    let value = formula.parse().unwrap();
    assert_eq!(value, Expr::String("hello world".to_string()));

    let formula = Formula::new("=CONCATENATE('hello', ' ', 'world')").unwrap();
    let value = formula.parse().unwrap();
    assert_eq!(value, Expr::String("hello world".to_string()));

    let formula = Formula::new("=EXACT('hello', 'hello')").unwrap();
    let value = formula.parse().unwrap();
    assert_eq!(value, Expr::Bool(true));

    let formula = Formula::new("=EXACT('hello', 'Hello')").unwrap();
    let value = formula.parse().unwrap();
    assert_eq!(value, Expr::Bool(false));

    let formula = Formula::new("=FIND('a', 'abca')").unwrap();
    let value = formula.parse().unwrap();
    assert_eq!(value, num(1, 1));

    let formula = Formula::new("=FIND('a', 'abca', 2)").unwrap();
    let value = formula.parse().unwrap();
    assert_eq!(value, num(4, 1));

    let formula = Formula::new("=SEARCH('a', 'ABCA')").unwrap();
    let value = formula.parse().unwrap();
    assert_eq!(value, num(1, 1));

    let formula = Formula::new("=SEARCH('a', 'ABCA', 2)").unwrap();
    let value = formula.parse().unwrap();
    assert_eq!(value, num(4, 1));

    let formula = Formula::new("=FIXED(123456.673, 2)").unwrap();
    let value = formula.parse().unwrap();
    assert_eq!(value, Expr::String("123,456.67".to_string()));

    let formula = Formula::new("=FIXED(123456.673, -2)").unwrap();
    let value = formula.parse().unwrap();
    assert_eq!(value, Expr::String("123,400".to_string()));

    let formula = Formula::new("=FIXED(123456.673, 0)").unwrap();
    let value = formula.parse().unwrap();
    assert_eq!(value, Expr::String("123,457".to_string()));

    let formula = Formula::new("=FIXED(123456.673, 2, true)").unwrap();
    let value = formula.parse().unwrap();
    assert_eq!(value, Expr::String("123456.67".to_string()));

    let formula = Formula::new("=LEN('hello')").unwrap();
    let value = formula.parse().unwrap();
    assert_eq!(value, num(5, 1));

    let formula = Formula::new("=LEN('سلام')").unwrap();
    let value = formula.parse().unwrap();
    assert_eq!(value, num(4, 1));

    let formula = Formula::new("=LENB('سلام')").unwrap();
    let value = formula.parse().unwrap();
    assert_eq!(value, num(8, 1));

    let formula = Formula::new("=LOWER('Hello')").unwrap();
    let value = formula.parse().unwrap();
    assert_eq!(value, Expr::String("hello".to_string()));

    let formula = Formula::new("=UPPER('Hello')").unwrap();
    let value = formula.parse().unwrap();
    assert_eq!(value, Expr::String("HELLO".to_string()));

    let formula = Formula::new("=REPT('H', 5)").unwrap();
    let value = formula.parse().unwrap();
    assert_eq!(value, Expr::String("HHHHH".to_string()));

    let formula = Formula::new("=REPT('H', 0)").unwrap();
    let value = formula.parse().unwrap();
    assert_eq!(value, Expr::String(String::new()));

    let formula = Formula::new("=REPLACE('abcdefghijk', 6, 5, '*')").unwrap();
    let value = formula.parse().unwrap();
    assert_eq!(value, Expr::String("abcde*k".to_string()));

    let formula = Formula::new("=REPLACEB('123456', 1, 3, '@')").unwrap();
    let value = formula.parse().unwrap();
    assert_eq!(value, Expr::String("@456".to_string()));

    let formula = Formula::new("=UPPER(TRIM('   Hello '))").unwrap();
    let value = formula.parse().unwrap();
    assert_eq!(value, Expr::String("HELLO".to_string()));

    let formula = Formula::new("=T('Hello')").unwrap();
    let value = formula.parse().unwrap();
    assert_eq!(value, Expr::String("Hello".to_string()));

    let formula = Formula::new("=T(true)").unwrap();
    let value = formula.parse().unwrap();
    assert_eq!(value, Expr::String(String::new()));

    let formula = Formula::new("=PROPER('this is a TITLE')").unwrap();
    let value = formula.parse().unwrap();
    assert_eq!(value, Expr::String("This Is A Title".to_string()));
}

#[test]
fn nested_text_functions_compose() {
    let formula = Formula::new("=CONCAT(UPPER(TRIM('   Hello ')), ' ', 'world!')").unwrap();
    let value = formula.parse().unwrap();
    assert_eq!(value, Expr::String("HELLO world!".to_string()));
}

#[test]
fn failed_search_is_a_parser_error() {
    let formula = Formula::new("=FIND('z', 'abca')").unwrap();
    assert_eq!(
        formula.parse().unwrap_err(),
        Error::Parser("find".to_string())
    );

    // a start position outside the text is an error too
    let formula = Formula::new("=FIND('a', 'abca', 9)").unwrap();
    assert_eq!(
        formula.parse().unwrap_err(),
        Error::Parser("find".to_string())
    );

    let formula = Formula::new("=FIND('a', 'abca', 0)").unwrap();
    assert_eq!(
        formula.parse().unwrap_err(),
        Error::Parser("find".to_string())
    );
}

#[test]
fn textjoin_skips_empty_pieces_on_request() {
    let formula = Formula::new("=TEXTJOIN('-', TRUE, 'a', '', 'b')").unwrap();
    let value = formula.parse().unwrap();
    assert_eq!(value, Expr::String("a-b".to_string()));

    let formula = Formula::new("=TEXTJOIN('-', FALSE, 'a', '', 'b')").unwrap();
    let value = formula.parse().unwrap();
    assert_eq!(value, Expr::String("a--b".to_string()));
}

#[test]
fn missing_required_argument_is_a_parser_error() {
    let formula = Formula::new("=MID('abc', 1)").unwrap();
    assert_eq!(
        formula.parse().unwrap_err(),
        Error::Parser("mid".to_string())
    );

    let formula = Formula::new("=REPT('abc')").unwrap();
    assert_eq!(
        formula.parse().unwrap_err(),
        Error::Parser("rept".to_string())
    );
}

#[test]
fn byte_functions_redecode_lossily() {
    // the first byte of a two-byte character is not valid UTF-8 on
    // its own and comes back as the replacement character
    let formula = Formula::new("=LEFTB('س', 1)").unwrap();
    let value = formula.parse().unwrap();
    assert_eq!(value, Expr::String("\u{FFFD}".to_string()));

    let formula = Formula::new("=LEFTB('س', 2)").unwrap();
    let value = formula.parse().unwrap();
    assert_eq!(value, Expr::String("س".to_string()));
}

#[test]
fn boundary_strings_render_values() {
    let value = Formula::new("={'TEST', 1; 2, TRUE}").unwrap().parse().unwrap();
    assert_eq!(
        value.to_boundary_string(),
        "[[\"TEST\",1],[2,true]]".to_string()
    );

    let value = Formula::new("=F.DIV(1, 4)").unwrap().parse().unwrap();
    assert_eq!(value.to_boundary_string(), "0.25".to_string());

    let value = Formula::new("=DATE(2020,2,3)").unwrap().parse().unwrap();
    assert_eq!(value.to_boundary_string(), "\"2020-02-03\"".to_string());

    let value = Formula::new("=TIME(2,30,0)").unwrap().parse().unwrap();
    assert_eq!(value.to_boundary_string(), "\"02:30:00\"".to_string());

    let value = Formula::new("=F.DIV(1, 0)").unwrap().parse().unwrap();
    assert_eq!(value.to_boundary_string(), "null".to_string());
}

#[test]
fn numeric_literals_round_trip() {
    let expect = |text: &str, n: i64, d: i64| {
        let value = Formula::new(text).unwrap().parse().unwrap();
        assert_eq!(value, num(n, d), "{text}");
    };
    expect("=0.5", 1, 2);
    expect("=-2.75", -11, 4);
    expect("=.5", 1, 2);
    expect("=5.", 5, 1);
    expect("=-0", 0, 1);
    expect("=1000000", 1000000, 1);
    expect("=0.125", 1, 8);
}

#[test]
fn char_and_code_truncate_as_casts_do() {
    // CHAR saturates its operand into a byte
    let formula = Formula::new("=CHAR(300)").unwrap();
    assert_eq!(formula.parse().unwrap(), Expr::String("\u{FF}".to_string()));

    let formula = Formula::new("=CHAR(F.NEGATE(5))").unwrap();
    assert_eq!(formula.parse().unwrap(), Expr::String("\u{0}".to_string()));

    // CODE keeps only the low byte of the first scalar value
    let formula = Formula::new("=CODE('Ā')").unwrap();
    assert_eq!(formula.parse().unwrap(), num(0, 1));

    let formula = Formula::new("=CODE('')").unwrap();
    assert_eq!(
        formula.parse().unwrap_err(),
        Error::Parser("code".to_string())
    );
}

#[test]
fn proper_collapses_whitespace_runs() {
    let formula = Formula::new("=PROPER('  hello   wORLD ')").unwrap();
    assert_eq!(
        formula.parse().unwrap(),
        Expr::String("Hello World".to_string())
    );
}

#[test]
fn find_and_search_count_by_scalar_values() {
    // positions are Unicode scalar positions, not byte offsets
    let formula = Formula::new("=FIND('é', 'café')").unwrap();
    assert_eq!(formula.parse().unwrap(), num(4, 1));

    let formula = Formula::new("=FIND('ñana', 'mañana')").unwrap();
    assert_eq!(formula.parse().unwrap(), num(3, 1));

    let formula = Formula::new("=FIND('a', 'mañana', 4)").unwrap();
    assert_eq!(formula.parse().unwrap(), num(4, 1));

    let formula = Formula::new("=FIND('z', 'café')").unwrap();
    assert_eq!(
        formula.parse().unwrap_err(),
        Error::Parser("find".to_string())
    );

    // SEARCH is FIND over the lower-case folds of both strings
    let formula = Formula::new("=SEARCH('É', 'le café')").unwrap();
    assert_eq!(formula.parse().unwrap(), num(7, 1));

    let formula = Formula::new("=SEARCH('l', 'İstanbul', 9)").unwrap();
    assert_eq!(formula.parse().unwrap(), num(9, 1));

    // the start bound goes by the folded text's scalar count
    let formula = Formula::new("=SEARCH('b', 'İstanbul', 10)").unwrap();
    assert_eq!(
        formula.parse().unwrap_err(),
        Error::Parser("search".to_string())
    );
}

#[test]
fn replace_truncates_the_summed_cut() {
    // the cut position truncates start plus length as one number
    let formula = Formula::new("=REPLACE('abcdef', 1.5, 1.7, 'X')").unwrap();
    assert_eq!(formula.parse().unwrap(), Expr::String("Xcdef".to_string()));
}

#[test]
fn fixed_survives_deeply_negative_decimals() {
    let formula = Formula::new("=FIXED(5, -20)").unwrap();
    assert_eq!(formula.parse().unwrap(), Expr::String("0".to_string()));

    let formula = Formula::new("=FIXED(F.NEGATE(5), -20, true)").unwrap();
    assert_eq!(
        formula.parse().unwrap(),
        Expr::String("-100000000000000000000".to_string())
    );

    let formula = Formula::new("=FIXED(F.NEGATE(5), -20)").unwrap();
    assert_eq!(
        formula.parse().unwrap(),
        Expr::String("-,100,000,000,000,000,000,000".to_string())
    );
}

#[test]
fn errors_carry_their_diagnostic_text() {
    assert_eq!(
        Formula::new("=((").unwrap_err().text(),
        "Parser Error: Invalid `root` expression"
    );
    assert_eq!(
        Formula::new("=ROUND(1.5)").unwrap().parse().unwrap_err().text(),
        "Not Implemented Yet: `round` function is not implemented yet"
    );
}
