//! The closed catalog of grammar rules.
//!
//! Every parse-tree node carries one of these tags; the evaluator
//! dispatches on them.  Functions the grammar recognizes but the
//! evaluator does not yet implement are listed by `is_unimplemented`.

use vstd::prelude::*;
use vstd::string::StrSliceExecFns;

verus! {

/// Grammar-production tags.  The names follow the grammar itself,
/// which spells rules in lower case.
#[allow(non_camel_case_types)]
#[derive(Debug, Clone, Copy, PartialEq, Eq, Structural)]
pub enum Rule {
    add,
    sub,
    mul,
    div,
    pow,
    eq,
    ne,
    gt,
    lt,
    gte,
    lte,
    percent,
    negate,
    date,
    time,
    year,
    month,
    day,
    days,
    edate,
    eomonth,
    datevalue,
    timevalue,
    hour,
    minute,
    second,
    isoweeknum,
    weeknum,
    weekday,
    now,
    today,
    networkdays,
    networkdaysintl,
    workdays,
    workdaysintl,
    yearfrac,
    days360,
    datediff,
    left,
    leftb,
    right,
    rightb,
    mid,
    midb,
    char_t,
    unichar,
    code,
    unicode,
    concat,
    concatenate,
    exact,
    find,
    findb,
    search,
    searchb,
    fixed,
    len,
    lenb,
    lower,
    upper,
    rept,
    replace,
    replaceb,
    textjoin,
    trim,
    t,
    proper,
    arraytotext,
    asc,
    clean,
    dbcs,
    dollar,
    jis,
    text,
    numbervalue,
    phonetic,
    substitute,
    textafter,
    textbefore,
    textsplit,
    value,
    valuetotext,
    bahttext,
    and,
    or,
    xor,
    not,
    if_,
    ifna,
    iferror,
    let_,
    bycol,
    byrow,
    makearray,
    reduce,
    scan,
    map_,
    lambda,
    switch,
    ifs,
    abs,
    acos,
    acosh,
    asin,
    asinh,
    cos,
    cosh,
    sin,
    sinh,
    tan,
    tanh,
    atan,
    atan2,
    atanh,
    pi,
    power,
    mod_,
    log,
    log10,
    ln,
    sqrt,
    sqrtpi,
    rand,
    sign,
    exp,
    sum,
    ceiling,
    round,
    floor,
    acot,
    acoth,
    aggregate,
    arabic,
    base,
    ceiling_math,
    ceiling_precise,
    combin,
    combina,
    cot,
    coth,
    csc,
    csch,
    decimal,
    degrees,
    even,
    fact,
    factdouble,
    floor_math,
    floor_precise,
    gcd,
    int_,
    iso_ceiling,
    lcm,
    mdeterm,
    minverse,
    mmult,
    mround,
    multinomial,
    munit,
    odd,
    product,
    quotient,
    radians,
    randarray,
    randbetween,
    roman,
    rounddown,
    roundup,
    sec,
    sech,
    sequence,
    seriessum,
    subtotal,
    sumif,
    sumifs,
    sumproduct,
    sumsq,
    sumx2my2,
    sumx2py2,
    sumxmy2,
    trunc,
    encodeurl,
    filterxml,
    webservice,
    num,
    string,
    bool_true,
    bool_false,
    array,
    array_col_sep,
    array_row_sep,
}

/// The diagnostic name a rule is reported under in errors.
#[verifier::opaque]
pub open spec fn rule_name_spec(r: Rule) -> Seq<char> {
    match r {
        Rule::add => "add"@,
        Rule::sub => "sub"@,
        Rule::mul => "mul"@,
        Rule::div => "div"@,
        Rule::pow => "pow"@,
        Rule::eq => "eq"@,
        Rule::ne => "ne"@,
        Rule::gt => "gt"@,
        Rule::lt => "lt"@,
        Rule::gte => "gte"@,
        Rule::lte => "lte"@,
        Rule::percent => "percent"@,
        Rule::negate => "negate"@,
        Rule::date => "date"@,
        Rule::time => "time"@,
        Rule::year => "year"@,
        Rule::month => "month"@,
        Rule::day => "day"@,
        Rule::days => "days"@,
        Rule::edate => "edate"@,
        Rule::eomonth => "eomonth"@,
        Rule::datevalue => "datevalue"@,
        Rule::timevalue => "timevalue"@,
        Rule::hour => "hour"@,
        Rule::minute => "minute"@,
        Rule::second => "second"@,
        Rule::isoweeknum => "isoweeknum"@,
        Rule::weeknum => "weeknum"@,
        Rule::weekday => "weekday"@,
        Rule::now => "now"@,
        Rule::today => "today"@,
        Rule::networkdays => "networkdays"@,
        Rule::networkdaysintl => "networkdaysintl"@,
        Rule::workdays => "workdays"@,
        Rule::workdaysintl => "workdaysintl"@,
        Rule::yearfrac => "yearfrac"@,
        Rule::days360 => "days360"@,
        Rule::datediff => "datediff"@,
        Rule::left => "left"@,
        Rule::leftb => "leftb"@,
        Rule::right => "right"@,
        Rule::rightb => "rightb"@,
        Rule::mid => "mid"@,
        Rule::midb => "midb"@,
        Rule::char_t => "char_t"@,
        Rule::unichar => "unichar"@,
        Rule::code => "code"@,
        Rule::unicode => "unicode"@,
        Rule::concat => "concat"@,
        Rule::concatenate => "concatenate"@,
        Rule::exact => "exact"@,
        Rule::find => "find"@,
        Rule::findb => "findb"@,
        Rule::search => "search"@,
        Rule::searchb => "searchb"@,
        Rule::fixed => "fixed"@,
        Rule::len => "len"@,
        Rule::lenb => "lenb"@,
        Rule::lower => "lower"@,
        Rule::upper => "upper"@,
        Rule::rept => "rept"@,
        Rule::replace => "replace"@,
        Rule::replaceb => "replaceb"@,
        Rule::textjoin => "textjoin"@,
        Rule::trim => "trim"@,
        Rule::t => "t"@,
        Rule::proper => "proper"@,
        Rule::arraytotext => "arraytotext"@,
        Rule::asc => "asc"@,
        Rule::clean => "clean"@,
        Rule::dbcs => "dbcs"@,
        Rule::dollar => "dollar"@,
        Rule::jis => "jis"@,
        Rule::text => "text"@,
        Rule::numbervalue => "numbervalue"@,
        Rule::phonetic => "phonetic"@,
        Rule::substitute => "substitute"@,
        Rule::textafter => "textafter"@,
        Rule::textbefore => "textbefore"@,
        Rule::textsplit => "textsplit"@,
        Rule::value => "value"@,
        Rule::valuetotext => "valuetotext"@,
        Rule::bahttext => "bahttext"@,
        Rule::and => "and"@,
        Rule::or => "or"@,
        Rule::xor => "xor"@,
        Rule::not => "not"@,
        Rule::if_ => "if_"@,
        Rule::ifna => "ifna"@,
        Rule::iferror => "iferror"@,
        Rule::let_ => "let_"@,
        Rule::bycol => "bycol"@,
        Rule::byrow => "byrow"@,
        Rule::makearray => "makearray"@,
        Rule::reduce => "reduce"@,
        Rule::scan => "scan"@,
        Rule::map_ => "map_"@,
        Rule::lambda => "lambda"@,
        Rule::switch => "switch"@,
        Rule::ifs => "ifs"@,
        Rule::abs => "abs"@,
        Rule::acos => "acos"@,
        Rule::acosh => "acosh"@,
        Rule::asin => "asin"@,
        Rule::asinh => "asinh"@,
        Rule::cos => "cos"@,
        Rule::cosh => "cosh"@,
        Rule::sin => "sin"@,
        Rule::sinh => "sinh"@,
        Rule::tan => "tan"@,
        Rule::tanh => "tanh"@,
        Rule::atan => "atan"@,
        Rule::atan2 => "atan2"@,
        Rule::atanh => "atanh"@,
        Rule::pi => "pi"@,
        Rule::power => "power"@,
        Rule::mod_ => "mod_"@,
        Rule::log => "log"@,
        Rule::log10 => "log10"@,
        Rule::ln => "ln"@,
        Rule::sqrt => "sqrt"@,
        Rule::sqrtpi => "sqrtpi"@,
        Rule::rand => "rand"@,
        Rule::sign => "sign"@,
        Rule::exp => "exp"@,
        Rule::sum => "sum"@,
        Rule::ceiling => "ceiling"@,
        Rule::round => "round"@,
        Rule::floor => "floor"@,
        Rule::acot => "acot"@,
        Rule::acoth => "acoth"@,
        Rule::aggregate => "aggregate"@,
        Rule::arabic => "arabic"@,
        Rule::base => "base"@,
        Rule::ceiling_math => "ceiling_math"@,
        Rule::ceiling_precise => "ceiling_precise"@,
        Rule::combin => "combin"@,
        Rule::combina => "combina"@,
        Rule::cot => "cot"@,
        Rule::coth => "coth"@,
        Rule::csc => "csc"@,
        Rule::csch => "csch"@,
        Rule::decimal => "decimal"@,
        Rule::degrees => "degrees"@,
        Rule::even => "even"@,
        Rule::fact => "fact"@,
        Rule::factdouble => "factdouble"@,
        Rule::floor_math => "floor_math"@,
        Rule::floor_precise => "floor_precise"@,
        Rule::gcd => "gcd"@,
        Rule::int_ => "int_"@,
        Rule::iso_ceiling => "iso_ceiling"@,
        Rule::lcm => "lcm"@,
        Rule::mdeterm => "mdeterm"@,
        Rule::minverse => "minverse"@,
        Rule::mmult => "mmult"@,
        Rule::mround => "mround"@,
        Rule::multinomial => "multinomial"@,
        Rule::munit => "munit"@,
        Rule::odd => "odd"@,
        Rule::product => "product"@,
        Rule::quotient => "quotient"@,
        Rule::radians => "radians"@,
        Rule::randarray => "randarray"@,
        Rule::randbetween => "randbetween"@,
        Rule::roman => "roman"@,
        Rule::rounddown => "rounddown"@,
        Rule::roundup => "roundup"@,
        Rule::sec => "sec"@,
        Rule::sech => "sech"@,
        Rule::sequence => "sequence"@,
        Rule::seriessum => "seriessum"@,
        Rule::subtotal => "subtotal"@,
        Rule::sumif => "sumif"@,
        Rule::sumifs => "sumifs"@,
        Rule::sumproduct => "sumproduct"@,
        Rule::sumsq => "sumsq"@,
        Rule::sumx2my2 => "sumx2my2"@,
        Rule::sumx2py2 => "sumx2py2"@,
        Rule::sumxmy2 => "sumxmy2"@,
        Rule::trunc => "trunc"@,
        Rule::encodeurl => "encodeurl"@,
        Rule::filterxml => "filterxml"@,
        Rule::webservice => "webservice"@,
        Rule::num => "num"@,
        Rule::string => "string"@,
        Rule::bool_true => "bool_true"@,
        Rule::bool_false => "bool_false"@,
        Rule::array => "array"@,
        Rule::array_col_sep => "array_col_sep"@,
        Rule::array_row_sep => "array_row_sep"@,
    }
}

/// Exec twin of `rule_name_spec`.
#[verifier::rlimit(100)]
pub fn rule_name(r: Rule) -> (s: String)
    ensures
        s@ == rule_name_spec(r),
{
    proof {
        reveal(rule_name_spec);
    }
    match r {
        Rule::add => "add".to_owned(),
        Rule::sub => "sub".to_owned(),
        Rule::mul => "mul".to_owned(),
        Rule::div => "div".to_owned(),
        Rule::pow => "pow".to_owned(),
        Rule::eq => "eq".to_owned(),
        Rule::ne => "ne".to_owned(),
        Rule::gt => "gt".to_owned(),
        Rule::lt => "lt".to_owned(),
        Rule::gte => "gte".to_owned(),
        Rule::lte => "lte".to_owned(),
        Rule::percent => "percent".to_owned(),
        Rule::negate => "negate".to_owned(),
        Rule::date => "date".to_owned(),
        Rule::time => "time".to_owned(),
        Rule::year => "year".to_owned(),
        Rule::month => "month".to_owned(),
        Rule::day => "day".to_owned(),
        Rule::days => "days".to_owned(),
        Rule::edate => "edate".to_owned(),
        Rule::eomonth => "eomonth".to_owned(),
        Rule::datevalue => "datevalue".to_owned(),
        Rule::timevalue => "timevalue".to_owned(),
        Rule::hour => "hour".to_owned(),
        Rule::minute => "minute".to_owned(),
        Rule::second => "second".to_owned(),
        Rule::isoweeknum => "isoweeknum".to_owned(),
        Rule::weeknum => "weeknum".to_owned(),
        Rule::weekday => "weekday".to_owned(),
        Rule::now => "now".to_owned(),
        Rule::today => "today".to_owned(),
        Rule::networkdays => "networkdays".to_owned(),
        Rule::networkdaysintl => "networkdaysintl".to_owned(),
        Rule::workdays => "workdays".to_owned(),
        Rule::workdaysintl => "workdaysintl".to_owned(),
        Rule::yearfrac => "yearfrac".to_owned(),
        Rule::days360 => "days360".to_owned(),
        Rule::datediff => "datediff".to_owned(),
        Rule::left => "left".to_owned(),
        Rule::leftb => "leftb".to_owned(),
        Rule::right => "right".to_owned(),
        Rule::rightb => "rightb".to_owned(),
        Rule::mid => "mid".to_owned(),
        Rule::midb => "midb".to_owned(),
        Rule::char_t => "char_t".to_owned(),
        Rule::unichar => "unichar".to_owned(),
        Rule::code => "code".to_owned(),
        Rule::unicode => "unicode".to_owned(),
        Rule::concat => "concat".to_owned(),
        Rule::concatenate => "concatenate".to_owned(),
        Rule::exact => "exact".to_owned(),
        Rule::find => "find".to_owned(),
        Rule::findb => "findb".to_owned(),
        Rule::search => "search".to_owned(),
        Rule::searchb => "searchb".to_owned(),
        Rule::fixed => "fixed".to_owned(),
        Rule::len => "len".to_owned(),
        Rule::lenb => "lenb".to_owned(),
        Rule::lower => "lower".to_owned(),
        Rule::upper => "upper".to_owned(),
        Rule::rept => "rept".to_owned(),
        Rule::replace => "replace".to_owned(),
        Rule::replaceb => "replaceb".to_owned(),
        Rule::textjoin => "textjoin".to_owned(),
        Rule::trim => "trim".to_owned(),
        Rule::t => "t".to_owned(),
        Rule::proper => "proper".to_owned(),
        Rule::arraytotext => "arraytotext".to_owned(),
        Rule::asc => "asc".to_owned(),
        Rule::clean => "clean".to_owned(),
        Rule::dbcs => "dbcs".to_owned(),
        Rule::dollar => "dollar".to_owned(),
        Rule::jis => "jis".to_owned(),
        Rule::text => "text".to_owned(),
        Rule::numbervalue => "numbervalue".to_owned(),
        Rule::phonetic => "phonetic".to_owned(),
        Rule::substitute => "substitute".to_owned(),
        Rule::textafter => "textafter".to_owned(),
        Rule::textbefore => "textbefore".to_owned(),
        Rule::textsplit => "textsplit".to_owned(),
        Rule::value => "value".to_owned(),
        Rule::valuetotext => "valuetotext".to_owned(),
        Rule::bahttext => "bahttext".to_owned(),
        Rule::and => "and".to_owned(),
        Rule::or => "or".to_owned(),
        Rule::xor => "xor".to_owned(),
        Rule::not => "not".to_owned(),
        Rule::if_ => "if_".to_owned(),
        Rule::ifna => "ifna".to_owned(),
        Rule::iferror => "iferror".to_owned(),
        Rule::let_ => "let_".to_owned(),
        Rule::bycol => "bycol".to_owned(),
        Rule::byrow => "byrow".to_owned(),
        Rule::makearray => "makearray".to_owned(),
        Rule::reduce => "reduce".to_owned(),
        Rule::scan => "scan".to_owned(),
        Rule::map_ => "map_".to_owned(),
        Rule::lambda => "lambda".to_owned(),
        Rule::switch => "switch".to_owned(),
        Rule::ifs => "ifs".to_owned(),
        Rule::abs => "abs".to_owned(),
        Rule::acos => "acos".to_owned(),
        Rule::acosh => "acosh".to_owned(),
        Rule::asin => "asin".to_owned(),
        Rule::asinh => "asinh".to_owned(),
        Rule::cos => "cos".to_owned(),
        Rule::cosh => "cosh".to_owned(),
        Rule::sin => "sin".to_owned(),
        Rule::sinh => "sinh".to_owned(),
        Rule::tan => "tan".to_owned(),
        Rule::tanh => "tanh".to_owned(),
        Rule::atan => "atan".to_owned(),
        Rule::atan2 => "atan2".to_owned(),
        Rule::atanh => "atanh".to_owned(),
        Rule::pi => "pi".to_owned(),
        Rule::power => "power".to_owned(),
        Rule::mod_ => "mod_".to_owned(),
        Rule::log => "log".to_owned(),
        Rule::log10 => "log10".to_owned(),
        Rule::ln => "ln".to_owned(),
        Rule::sqrt => "sqrt".to_owned(),
        Rule::sqrtpi => "sqrtpi".to_owned(),
        Rule::rand => "rand".to_owned(),
        Rule::sign => "sign".to_owned(),
        Rule::exp => "exp".to_owned(),
        Rule::sum => "sum".to_owned(),
        Rule::ceiling => "ceiling".to_owned(),
        Rule::round => "round".to_owned(),
        Rule::floor => "floor".to_owned(),
        Rule::acot => "acot".to_owned(),
        Rule::acoth => "acoth".to_owned(),
        Rule::aggregate => "aggregate".to_owned(),
        Rule::arabic => "arabic".to_owned(),
        Rule::base => "base".to_owned(),
        Rule::ceiling_math => "ceiling_math".to_owned(),
        Rule::ceiling_precise => "ceiling_precise".to_owned(),
        Rule::combin => "combin".to_owned(),
        Rule::combina => "combina".to_owned(),
        Rule::cot => "cot".to_owned(),
        Rule::coth => "coth".to_owned(),
        Rule::csc => "csc".to_owned(),
        Rule::csch => "csch".to_owned(),
        Rule::decimal => "decimal".to_owned(),
        Rule::degrees => "degrees".to_owned(),
        Rule::even => "even".to_owned(),
        Rule::fact => "fact".to_owned(),
        Rule::factdouble => "factdouble".to_owned(),
        Rule::floor_math => "floor_math".to_owned(),
        Rule::floor_precise => "floor_precise".to_owned(),
        Rule::gcd => "gcd".to_owned(),
        Rule::int_ => "int_".to_owned(),
        Rule::iso_ceiling => "iso_ceiling".to_owned(),
        Rule::lcm => "lcm".to_owned(),
        Rule::mdeterm => "mdeterm".to_owned(),
        Rule::minverse => "minverse".to_owned(),
        Rule::mmult => "mmult".to_owned(),
        Rule::mround => "mround".to_owned(),
        Rule::multinomial => "multinomial".to_owned(),
        Rule::munit => "munit".to_owned(),
        Rule::odd => "odd".to_owned(),
        Rule::product => "product".to_owned(),
        Rule::quotient => "quotient".to_owned(),
        Rule::radians => "radians".to_owned(),
        Rule::randarray => "randarray".to_owned(),
        Rule::randbetween => "randbetween".to_owned(),
        Rule::roman => "roman".to_owned(),
        Rule::rounddown => "rounddown".to_owned(),
        Rule::roundup => "roundup".to_owned(),
        Rule::sec => "sec".to_owned(),
        Rule::sech => "sech".to_owned(),
        Rule::sequence => "sequence".to_owned(),
        Rule::seriessum => "seriessum".to_owned(),
        Rule::subtotal => "subtotal".to_owned(),
        Rule::sumif => "sumif".to_owned(),
        Rule::sumifs => "sumifs".to_owned(),
        Rule::sumproduct => "sumproduct".to_owned(),
        Rule::sumsq => "sumsq".to_owned(),
        Rule::sumx2my2 => "sumx2my2".to_owned(),
        Rule::sumx2py2 => "sumx2py2".to_owned(),
        Rule::sumxmy2 => "sumxmy2".to_owned(),
        Rule::trunc => "trunc".to_owned(),
        Rule::encodeurl => "encodeurl".to_owned(),
        Rule::filterxml => "filterxml".to_owned(),
        Rule::webservice => "webservice".to_owned(),
        Rule::num => "num".to_owned(),
        Rule::string => "string".to_owned(),
        Rule::bool_true => "bool_true".to_owned(),
        Rule::bool_false => "bool_false".to_owned(),
        Rule::array => "array".to_owned(),
        Rule::array_col_sep => "array_col_sep".to_owned(),
        Rule::array_row_sep => "array_row_sep".to_owned(),
    }
}

/// Rules the grammar recognizes whose evaluation is deliberately
/// absent: they always evaluate to a `NotImplemented` error.
#[verifier::opaque]
pub open spec fn is_unimplemented(r: Rule) -> bool {
    match r {
        Rule::networkdays
        | Rule::networkdaysintl
        | Rule::workdays
        | Rule::workdaysintl
        | Rule::yearfrac
        | Rule::days360
        | Rule::datediff
        | Rule::arraytotext
        | Rule::asc
        | Rule::clean
        | Rule::dbcs
        | Rule::dollar
        | Rule::jis
        | Rule::text
        | Rule::numbervalue
        | Rule::phonetic
        | Rule::substitute
        | Rule::textafter
        | Rule::textbefore
        | Rule::textsplit
        | Rule::value
        | Rule::valuetotext
        | Rule::bahttext
        | Rule::let_
        | Rule::bycol
        | Rule::byrow
        | Rule::makearray
        | Rule::reduce
        | Rule::scan
        | Rule::map_
        | Rule::lambda
        | Rule::switch
        | Rule::ifs
        | Rule::ceiling
        | Rule::round
        | Rule::floor
        | Rule::acot
        | Rule::acoth
        | Rule::aggregate
        | Rule::arabic
        | Rule::base
        | Rule::ceiling_math
        | Rule::ceiling_precise
        | Rule::combin
        | Rule::combina
        | Rule::cot
        | Rule::coth
        | Rule::csc
        | Rule::csch
        | Rule::decimal
        | Rule::degrees
        | Rule::even
        | Rule::fact
        | Rule::factdouble
        | Rule::floor_math
        | Rule::floor_precise
        | Rule::gcd
        | Rule::int_
        | Rule::iso_ceiling
        | Rule::lcm
        | Rule::mdeterm
        | Rule::minverse
        | Rule::mmult
        | Rule::mround
        | Rule::multinomial
        | Rule::munit
        | Rule::odd
        | Rule::product
        | Rule::quotient
        | Rule::radians
        | Rule::randarray
        | Rule::randbetween
        | Rule::roman
        | Rule::rounddown
        | Rule::roundup
        | Rule::sec
        | Rule::sech
        | Rule::sequence
        | Rule::seriessum
        | Rule::subtotal
        | Rule::sumif
        | Rule::sumifs
        | Rule::sumproduct
        | Rule::sumsq
        | Rule::sumx2my2
        | Rule::sumx2py2
        | Rule::sumxmy2
        | Rule::trunc
        | Rule::weeknum
        | Rule::filterxml => true,
        _ => false,
    }
}

/// No unimplemented rule is one of the four volatile leaves.
pub proof fn lemma_unimplemented_not_volatile(r: Rule)
    ensures
        is_unimplemented(r) ==> r != Rule::rand && r != Rule::now && r != Rule::today && r
            != Rule::webservice,
{
    reveal(is_unimplemented);
}

/// Array separators, which appear only among the children of an
/// `array` node.
pub open spec fn is_separator(r: Rule) -> bool {
    r == Rule::array_col_sep || r == Rule::array_row_sep
}

/// The catalog function a (already upper-cased) name calls, if any.
#[verifier::opaque]
pub open spec fn classify_spec(t: Seq<char>) -> Option<Rule> {
    if t == "F.ADD"@ {
        Some(Rule::add)
    } else if t == "F.SUB"@ {
        Some(Rule::sub)
    } else if t == "F.MUL"@ {
        Some(Rule::mul)
    } else if t == "F.DIV"@ {
        Some(Rule::div)
    } else if t == "F.POW"@ {
        Some(Rule::pow)
    } else if t == "F.EQ"@ {
        Some(Rule::eq)
    } else if t == "F.NE"@ {
        Some(Rule::ne)
    } else if t == "F.GT"@ {
        Some(Rule::gt)
    } else if t == "F.LT"@ {
        Some(Rule::lt)
    } else if t == "F.GTE"@ {
        Some(Rule::gte)
    } else if t == "F.LTE"@ {
        Some(Rule::lte)
    } else if t == "F.PERCENT"@ {
        Some(Rule::percent)
    } else if t == "F.NEGATE"@ {
        Some(Rule::negate)
    } else if t == "DATE"@ {
        Some(Rule::date)
    } else if t == "TIME"@ {
        Some(Rule::time)
    } else if t == "YEAR"@ {
        Some(Rule::year)
    } else if t == "MONTH"@ {
        Some(Rule::month)
    } else if t == "DAY"@ {
        Some(Rule::day)
    } else if t == "DAYS"@ {
        Some(Rule::days)
    } else if t == "EDATE"@ {
        Some(Rule::edate)
    } else if t == "EOMONTH"@ {
        Some(Rule::eomonth)
    } else if t == "DATEVALUE"@ {
        Some(Rule::datevalue)
    } else if t == "TIMEVALUE"@ {
        Some(Rule::timevalue)
    } else if t == "HOUR"@ {
        Some(Rule::hour)
    } else if t == "MINUTE"@ {
        Some(Rule::minute)
    } else if t == "SECOND"@ {
        Some(Rule::second)
    } else if t == "ISOWEEKNUM"@ {
        Some(Rule::isoweeknum)
    } else if t == "WEEKNUM"@ {
        Some(Rule::weeknum)
    } else if t == "WEEKDAY"@ {
        Some(Rule::weekday)
    } else if t == "NOW"@ {
        Some(Rule::now)
    } else if t == "TODAY"@ {
        Some(Rule::today)
    } else if t == "NETWORKDAYS"@ {
        Some(Rule::networkdays)
    } else if t == "NETWORKDAYS.INTL"@ {
        Some(Rule::networkdaysintl)
    } else if t == "WORKDAY"@ {
        Some(Rule::workdays)
    } else if t == "WORKDAY.INTL"@ {
        Some(Rule::workdaysintl)
    } else if t == "YEARFRAC"@ {
        Some(Rule::yearfrac)
    } else if t == "DAYS360"@ {
        Some(Rule::days360)
    } else if t == "DATEDIF"@ {
        Some(Rule::datediff)
    } else if t == "LEFT"@ {
        Some(Rule::left)
    } else if t == "LEFTB"@ {
        Some(Rule::leftb)
    } else if t == "RIGHT"@ {
        Some(Rule::right)
    } else if t == "RIGHTB"@ {
        Some(Rule::rightb)
    } else if t == "MID"@ {
        Some(Rule::mid)
    } else if t == "MIDB"@ {
        Some(Rule::midb)
    } else if t == "CHAR"@ {
        Some(Rule::char_t)
    } else if t == "UNICHAR"@ {
        Some(Rule::unichar)
    } else if t == "CODE"@ {
        Some(Rule::code)
    } else if t == "UNICODE"@ {
        Some(Rule::unicode)
    } else if t == "CONCAT"@ {
        Some(Rule::concat)
    } else if t == "CONCATENATE"@ {
        Some(Rule::concatenate)
    } else if t == "EXACT"@ {
        Some(Rule::exact)
    } else if t == "FIND"@ {
        Some(Rule::find)
    } else if t == "FINDB"@ {
        Some(Rule::findb)
    } else if t == "SEARCH"@ {
        Some(Rule::search)
    } else if t == "SEARCHB"@ {
        Some(Rule::searchb)
    } else if t == "FIXED"@ {
        Some(Rule::fixed)
    } else if t == "LEN"@ {
        Some(Rule::len)
    } else if t == "LENB"@ {
        Some(Rule::lenb)
    } else if t == "LOWER"@ {
        Some(Rule::lower)
    } else if t == "UPPER"@ {
        Some(Rule::upper)
    } else if t == "REPT"@ {
        Some(Rule::rept)
    } else if t == "REPLACE"@ {
        Some(Rule::replace)
    } else if t == "REPLACEB"@ {
        Some(Rule::replaceb)
    } else if t == "TEXTJOIN"@ {
        Some(Rule::textjoin)
    } else if t == "TRIM"@ {
        Some(Rule::trim)
    } else if t == "T"@ {
        Some(Rule::t)
    } else if t == "PROPER"@ {
        Some(Rule::proper)
    } else if t == "ARRAYTOTEXT"@ {
        Some(Rule::arraytotext)
    } else if t == "ASC"@ {
        Some(Rule::asc)
    } else if t == "CLEAN"@ {
        Some(Rule::clean)
    } else if t == "DBCS"@ {
        Some(Rule::dbcs)
    } else if t == "DOLLAR"@ {
        Some(Rule::dollar)
    } else if t == "JIS"@ {
        Some(Rule::jis)
    } else if t == "TEXT"@ {
        Some(Rule::text)
    } else if t == "NUMBERVALUE"@ {
        Some(Rule::numbervalue)
    } else if t == "PHONETIC"@ {
        Some(Rule::phonetic)
    } else if t == "SUBSTITUTE"@ {
        Some(Rule::substitute)
    } else if t == "TEXTAFTER"@ {
        Some(Rule::textafter)
    } else if t == "TEXTBEFORE"@ {
        Some(Rule::textbefore)
    } else if t == "TEXTSPLIT"@ {
        Some(Rule::textsplit)
    } else if t == "VALUE"@ {
        Some(Rule::value)
    } else if t == "VALUETOTEXT"@ {
        Some(Rule::valuetotext)
    } else if t == "BAHTTEXT"@ {
        Some(Rule::bahttext)
    } else if t == "AND"@ {
        Some(Rule::and)
    } else if t == "OR"@ {
        Some(Rule::or)
    } else if t == "XOR"@ {
        Some(Rule::xor)
    } else if t == "NOT"@ {
        Some(Rule::not)
    } else if t == "IF"@ {
        Some(Rule::if_)
    } else if t == "IFNA"@ {
        Some(Rule::ifna)
    } else if t == "IFERROR"@ {
        Some(Rule::iferror)
    } else if t == "LET"@ {
        Some(Rule::let_)
    } else if t == "BYCOL"@ {
        Some(Rule::bycol)
    } else if t == "BYROW"@ {
        Some(Rule::byrow)
    } else if t == "MAKEARRAY"@ {
        Some(Rule::makearray)
    } else if t == "REDUCE"@ {
        Some(Rule::reduce)
    } else if t == "SCAN"@ {
        Some(Rule::scan)
    } else if t == "MAP"@ {
        Some(Rule::map_)
    } else if t == "LAMBDA"@ {
        Some(Rule::lambda)
    } else if t == "SWITCH"@ {
        Some(Rule::switch)
    } else if t == "IFS"@ {
        Some(Rule::ifs)
    } else if t == "ABS"@ {
        Some(Rule::abs)
    } else if t == "ACOS"@ {
        Some(Rule::acos)
    } else if t == "ACOSH"@ {
        Some(Rule::acosh)
    } else if t == "ASIN"@ {
        Some(Rule::asin)
    } else if t == "ASINH"@ {
        Some(Rule::asinh)
    } else if t == "COS"@ {
        Some(Rule::cos)
    } else if t == "COSH"@ {
        Some(Rule::cosh)
    } else if t == "SIN"@ {
        Some(Rule::sin)
    } else if t == "SINH"@ {
        Some(Rule::sinh)
    } else if t == "TAN"@ {
        Some(Rule::tan)
    } else if t == "TANH"@ {
        Some(Rule::tanh)
    } else if t == "ATAN"@ {
        Some(Rule::atan)
    } else if t == "ATAN2"@ {
        Some(Rule::atan2)
    } else if t == "ATANH"@ {
        Some(Rule::atanh)
    } else if t == "PI"@ {
        Some(Rule::pi)
    } else if t == "POWER"@ {
        Some(Rule::power)
    } else if t == "MOD"@ {
        Some(Rule::mod_)
    } else if t == "LOG"@ {
        Some(Rule::log)
    } else if t == "LOG10"@ {
        Some(Rule::log10)
    } else if t == "LN"@ {
        Some(Rule::ln)
    } else if t == "SQRT"@ {
        Some(Rule::sqrt)
    } else if t == "SQRTPI"@ {
        Some(Rule::sqrtpi)
    } else if t == "RAND"@ {
        Some(Rule::rand)
    } else if t == "SIGN"@ {
        Some(Rule::sign)
    } else if t == "EXP"@ {
        Some(Rule::exp)
    } else if t == "SUM"@ {
        Some(Rule::sum)
    } else if t == "CEILING"@ {
        Some(Rule::ceiling)
    } else if t == "ROUND"@ {
        Some(Rule::round)
    } else if t == "FLOOR"@ {
        Some(Rule::floor)
    } else if t == "ACOT"@ {
        Some(Rule::acot)
    } else if t == "ACOTH"@ {
        Some(Rule::acoth)
    } else if t == "AGGREGATE"@ {
        Some(Rule::aggregate)
    } else if t == "ARABIC"@ {
        Some(Rule::arabic)
    } else if t == "BASE"@ {
        Some(Rule::base)
    } else if t == "CEILING.MATH"@ {
        Some(Rule::ceiling_math)
    } else if t == "CEILING.PRECISE"@ {
        Some(Rule::ceiling_precise)
    } else if t == "COMBIN"@ {
        Some(Rule::combin)
    } else if t == "COMBINA"@ {
        Some(Rule::combina)
    } else if t == "COT"@ {
        Some(Rule::cot)
    } else if t == "COTH"@ {
        Some(Rule::coth)
    } else if t == "CSC"@ {
        Some(Rule::csc)
    } else if t == "CSCH"@ {
        Some(Rule::csch)
    } else if t == "DECIMAL"@ {
        Some(Rule::decimal)
    } else if t == "DEGREES"@ {
        Some(Rule::degrees)
    } else if t == "EVEN"@ {
        Some(Rule::even)
    } else if t == "FACT"@ {
        Some(Rule::fact)
    } else if t == "FACTDOUBLE"@ {
        Some(Rule::factdouble)
    } else if t == "FLOOR.MATH"@ {
        Some(Rule::floor_math)
    } else if t == "FLOOR.PRECISE"@ {
        Some(Rule::floor_precise)
    } else if t == "GCD"@ {
        Some(Rule::gcd)
    } else if t == "INT"@ {
        Some(Rule::int_)
    } else if t == "ISO.CEILING"@ {
        Some(Rule::iso_ceiling)
    } else if t == "LCM"@ {
        Some(Rule::lcm)
    } else if t == "MDETERM"@ {
        Some(Rule::mdeterm)
    } else if t == "MINVERSE"@ {
        Some(Rule::minverse)
    } else if t == "MMULT"@ {
        Some(Rule::mmult)
    } else if t == "MROUND"@ {
        Some(Rule::mround)
    } else if t == "MULTINOMIAL"@ {
        Some(Rule::multinomial)
    } else if t == "MUNIT"@ {
        Some(Rule::munit)
    } else if t == "ODD"@ {
        Some(Rule::odd)
    } else if t == "PRODUCT"@ {
        Some(Rule::product)
    } else if t == "QUOTIENT"@ {
        Some(Rule::quotient)
    } else if t == "RADIANS"@ {
        Some(Rule::radians)
    } else if t == "RANDARRAY"@ {
        Some(Rule::randarray)
    } else if t == "RANDBETWEEN"@ {
        Some(Rule::randbetween)
    } else if t == "ROMAN"@ {
        Some(Rule::roman)
    } else if t == "ROUNDDOWN"@ {
        Some(Rule::rounddown)
    } else if t == "ROUNDUP"@ {
        Some(Rule::roundup)
    } else if t == "SEC"@ {
        Some(Rule::sec)
    } else if t == "SECH"@ {
        Some(Rule::sech)
    } else if t == "SEQUENCE"@ {
        Some(Rule::sequence)
    } else if t == "SERIESSUM"@ {
        Some(Rule::seriessum)
    } else if t == "SUBTOTAL"@ {
        Some(Rule::subtotal)
    } else if t == "SUMIF"@ {
        Some(Rule::sumif)
    } else if t == "SUMIFS"@ {
        Some(Rule::sumifs)
    } else if t == "SUMPRODUCT"@ {
        Some(Rule::sumproduct)
    } else if t == "SUMSQ"@ {
        Some(Rule::sumsq)
    } else if t == "SUMX2MY2"@ {
        Some(Rule::sumx2my2)
    } else if t == "SUMX2PY2"@ {
        Some(Rule::sumx2py2)
    } else if t == "SUMXMY2"@ {
        Some(Rule::sumxmy2)
    } else if t == "TRUNC"@ {
        Some(Rule::trunc)
    } else if t == "ENCODEURL"@ {
        Some(Rule::encodeurl)
    } else if t == "FILTERXML"@ {
        Some(Rule::filterxml)
    } else if t == "WEBSERVICE"@ {
        Some(Rule::webservice)
    } else {
        None
    }
}

/// Exec twin of `classify_spec`, on the upper-cased name token.
#[verifier::rlimit(100)]
pub fn classify(t: &Vec<char>) -> (r: Option<Rule>)
    ensures
        r == classify_spec(t@),
{
    proof {
        reveal(classify_spec);
    }
    if name_is(t, "F.ADD") {
        Some(Rule::add)
    } else if name_is(t, "F.SUB") {
        Some(Rule::sub)
    } else if name_is(t, "F.MUL") {
        Some(Rule::mul)
    } else if name_is(t, "F.DIV") {
        Some(Rule::div)
    } else if name_is(t, "F.POW") {
        Some(Rule::pow)
    } else if name_is(t, "F.EQ") {
        Some(Rule::eq)
    } else if name_is(t, "F.NE") {
        Some(Rule::ne)
    } else if name_is(t, "F.GT") {
        Some(Rule::gt)
    } else if name_is(t, "F.LT") {
        Some(Rule::lt)
    } else if name_is(t, "F.GTE") {
        Some(Rule::gte)
    } else if name_is(t, "F.LTE") {
        Some(Rule::lte)
    } else if name_is(t, "F.PERCENT") {
        Some(Rule::percent)
    } else if name_is(t, "F.NEGATE") {
        Some(Rule::negate)
    } else if name_is(t, "DATE") {
        Some(Rule::date)
    } else if name_is(t, "TIME") {
        Some(Rule::time)
    } else if name_is(t, "YEAR") {
        Some(Rule::year)
    } else if name_is(t, "MONTH") {
        Some(Rule::month)
    } else if name_is(t, "DAY") {
        Some(Rule::day)
    } else if name_is(t, "DAYS") {
        Some(Rule::days)
    } else if name_is(t, "EDATE") {
        Some(Rule::edate)
    } else if name_is(t, "EOMONTH") {
        Some(Rule::eomonth)
    } else if name_is(t, "DATEVALUE") {
        Some(Rule::datevalue)
    } else if name_is(t, "TIMEVALUE") {
        Some(Rule::timevalue)
    } else if name_is(t, "HOUR") {
        Some(Rule::hour)
    } else if name_is(t, "MINUTE") {
        Some(Rule::minute)
    } else if name_is(t, "SECOND") {
        Some(Rule::second)
    } else if name_is(t, "ISOWEEKNUM") {
        Some(Rule::isoweeknum)
    } else if name_is(t, "WEEKNUM") {
        Some(Rule::weeknum)
    } else if name_is(t, "WEEKDAY") {
        Some(Rule::weekday)
    } else if name_is(t, "NOW") {
        Some(Rule::now)
    } else if name_is(t, "TODAY") {
        Some(Rule::today)
    } else if name_is(t, "NETWORKDAYS") {
        Some(Rule::networkdays)
    } else if name_is(t, "NETWORKDAYS.INTL") {
        Some(Rule::networkdaysintl)
    } else if name_is(t, "WORKDAY") {
        Some(Rule::workdays)
    } else if name_is(t, "WORKDAY.INTL") {
        Some(Rule::workdaysintl)
    } else if name_is(t, "YEARFRAC") {
        Some(Rule::yearfrac)
    } else if name_is(t, "DAYS360") {
        Some(Rule::days360)
    } else if name_is(t, "DATEDIF") {
        Some(Rule::datediff)
    } else if name_is(t, "LEFT") {
        Some(Rule::left)
    } else if name_is(t, "LEFTB") {
        Some(Rule::leftb)
    } else if name_is(t, "RIGHT") {
        Some(Rule::right)
    } else if name_is(t, "RIGHTB") {
        Some(Rule::rightb)
    } else if name_is(t, "MID") {
        Some(Rule::mid)
    } else if name_is(t, "MIDB") {
        Some(Rule::midb)
    } else if name_is(t, "CHAR") {
        Some(Rule::char_t)
    } else if name_is(t, "UNICHAR") {
        Some(Rule::unichar)
    } else if name_is(t, "CODE") {
        Some(Rule::code)
    } else if name_is(t, "UNICODE") {
        Some(Rule::unicode)
    } else if name_is(t, "CONCAT") {
        Some(Rule::concat)
    } else if name_is(t, "CONCATENATE") {
        Some(Rule::concatenate)
    } else if name_is(t, "EXACT") {
        Some(Rule::exact)
    } else if name_is(t, "FIND") {
        Some(Rule::find)
    } else if name_is(t, "FINDB") {
        Some(Rule::findb)
    } else if name_is(t, "SEARCH") {
        Some(Rule::search)
    } else if name_is(t, "SEARCHB") {
        Some(Rule::searchb)
    } else if name_is(t, "FIXED") {
        Some(Rule::fixed)
    } else if name_is(t, "LEN") {
        Some(Rule::len)
    } else if name_is(t, "LENB") {
        Some(Rule::lenb)
    } else if name_is(t, "LOWER") {
        Some(Rule::lower)
    } else if name_is(t, "UPPER") {
        Some(Rule::upper)
    } else if name_is(t, "REPT") {
        Some(Rule::rept)
    } else if name_is(t, "REPLACE") {
        Some(Rule::replace)
    } else if name_is(t, "REPLACEB") {
        Some(Rule::replaceb)
    } else if name_is(t, "TEXTJOIN") {
        Some(Rule::textjoin)
    } else if name_is(t, "TRIM") {
        Some(Rule::trim)
    } else if name_is(t, "T") {
        Some(Rule::t)
    } else if name_is(t, "PROPER") {
        Some(Rule::proper)
    } else if name_is(t, "ARRAYTOTEXT") {
        Some(Rule::arraytotext)
    } else if name_is(t, "ASC") {
        Some(Rule::asc)
    } else if name_is(t, "CLEAN") {
        Some(Rule::clean)
    } else if name_is(t, "DBCS") {
        Some(Rule::dbcs)
    } else if name_is(t, "DOLLAR") {
        Some(Rule::dollar)
    } else if name_is(t, "JIS") {
        Some(Rule::jis)
    } else if name_is(t, "TEXT") {
        Some(Rule::text)
    } else if name_is(t, "NUMBERVALUE") {
        Some(Rule::numbervalue)
    } else if name_is(t, "PHONETIC") {
        Some(Rule::phonetic)
    } else if name_is(t, "SUBSTITUTE") {
        Some(Rule::substitute)
    } else if name_is(t, "TEXTAFTER") {
        Some(Rule::textafter)
    } else if name_is(t, "TEXTBEFORE") {
        Some(Rule::textbefore)
    } else if name_is(t, "TEXTSPLIT") {
        Some(Rule::textsplit)
    } else if name_is(t, "VALUE") {
        Some(Rule::value)
    } else if name_is(t, "VALUETOTEXT") {
        Some(Rule::valuetotext)
    } else if name_is(t, "BAHTTEXT") {
        Some(Rule::bahttext)
    } else if name_is(t, "AND") {
        Some(Rule::and)
    } else if name_is(t, "OR") {
        Some(Rule::or)
    } else if name_is(t, "XOR") {
        Some(Rule::xor)
    } else if name_is(t, "NOT") {
        Some(Rule::not)
    } else if name_is(t, "IF") {
        Some(Rule::if_)
    } else if name_is(t, "IFNA") {
        Some(Rule::ifna)
    } else if name_is(t, "IFERROR") {
        Some(Rule::iferror)
    } else if name_is(t, "LET") {
        Some(Rule::let_)
    } else if name_is(t, "BYCOL") {
        Some(Rule::bycol)
    } else if name_is(t, "BYROW") {
        Some(Rule::byrow)
    } else if name_is(t, "MAKEARRAY") {
        Some(Rule::makearray)
    } else if name_is(t, "REDUCE") {
        Some(Rule::reduce)
    } else if name_is(t, "SCAN") {
        Some(Rule::scan)
    } else if name_is(t, "MAP") {
        Some(Rule::map_)
    } else if name_is(t, "LAMBDA") {
        Some(Rule::lambda)
    } else if name_is(t, "SWITCH") {
        Some(Rule::switch)
    } else if name_is(t, "IFS") {
        Some(Rule::ifs)
    } else if name_is(t, "ABS") {
        Some(Rule::abs)
    } else if name_is(t, "ACOS") {
        Some(Rule::acos)
    } else if name_is(t, "ACOSH") {
        Some(Rule::acosh)
    } else if name_is(t, "ASIN") {
        Some(Rule::asin)
    } else if name_is(t, "ASINH") {
        Some(Rule::asinh)
    } else if name_is(t, "COS") {
        Some(Rule::cos)
    } else if name_is(t, "COSH") {
        Some(Rule::cosh)
    } else if name_is(t, "SIN") {
        Some(Rule::sin)
    } else if name_is(t, "SINH") {
        Some(Rule::sinh)
    } else if name_is(t, "TAN") {
        Some(Rule::tan)
    } else if name_is(t, "TANH") {
        Some(Rule::tanh)
    } else if name_is(t, "ATAN") {
        Some(Rule::atan)
    } else if name_is(t, "ATAN2") {
        Some(Rule::atan2)
    } else if name_is(t, "ATANH") {
        Some(Rule::atanh)
    } else if name_is(t, "PI") {
        Some(Rule::pi)
    } else if name_is(t, "POWER") {
        Some(Rule::power)
    } else if name_is(t, "MOD") {
        Some(Rule::mod_)
    } else if name_is(t, "LOG") {
        Some(Rule::log)
    } else if name_is(t, "LOG10") {
        Some(Rule::log10)
    } else if name_is(t, "LN") {
        Some(Rule::ln)
    } else if name_is(t, "SQRT") {
        Some(Rule::sqrt)
    } else if name_is(t, "SQRTPI") {
        Some(Rule::sqrtpi)
    } else if name_is(t, "RAND") {
        Some(Rule::rand)
    } else if name_is(t, "SIGN") {
        Some(Rule::sign)
    } else if name_is(t, "EXP") {
        Some(Rule::exp)
    } else if name_is(t, "SUM") {
        Some(Rule::sum)
    } else if name_is(t, "CEILING") {
        Some(Rule::ceiling)
    } else if name_is(t, "ROUND") {
        Some(Rule::round)
    } else if name_is(t, "FLOOR") {
        Some(Rule::floor)
    } else if name_is(t, "ACOT") {
        Some(Rule::acot)
    } else if name_is(t, "ACOTH") {
        Some(Rule::acoth)
    } else if name_is(t, "AGGREGATE") {
        Some(Rule::aggregate)
    } else if name_is(t, "ARABIC") {
        Some(Rule::arabic)
    } else if name_is(t, "BASE") {
        Some(Rule::base)
    } else if name_is(t, "CEILING.MATH") {
        Some(Rule::ceiling_math)
    } else if name_is(t, "CEILING.PRECISE") {
        Some(Rule::ceiling_precise)
    } else if name_is(t, "COMBIN") {
        Some(Rule::combin)
    } else if name_is(t, "COMBINA") {
        Some(Rule::combina)
    } else if name_is(t, "COT") {
        Some(Rule::cot)
    } else if name_is(t, "COTH") {
        Some(Rule::coth)
    } else if name_is(t, "CSC") {
        Some(Rule::csc)
    } else if name_is(t, "CSCH") {
        Some(Rule::csch)
    } else if name_is(t, "DECIMAL") {
        Some(Rule::decimal)
    } else if name_is(t, "DEGREES") {
        Some(Rule::degrees)
    } else if name_is(t, "EVEN") {
        Some(Rule::even)
    } else if name_is(t, "FACT") {
        Some(Rule::fact)
    } else if name_is(t, "FACTDOUBLE") {
        Some(Rule::factdouble)
    } else if name_is(t, "FLOOR.MATH") {
        Some(Rule::floor_math)
    } else if name_is(t, "FLOOR.PRECISE") {
        Some(Rule::floor_precise)
    } else if name_is(t, "GCD") {
        Some(Rule::gcd)
    } else if name_is(t, "INT") {
        Some(Rule::int_)
    } else if name_is(t, "ISO.CEILING") {
        Some(Rule::iso_ceiling)
    } else if name_is(t, "LCM") {
        Some(Rule::lcm)
    } else if name_is(t, "MDETERM") {
        Some(Rule::mdeterm)
    } else if name_is(t, "MINVERSE") {
        Some(Rule::minverse)
    } else if name_is(t, "MMULT") {
        Some(Rule::mmult)
    } else if name_is(t, "MROUND") {
        Some(Rule::mround)
    } else if name_is(t, "MULTINOMIAL") {
        Some(Rule::multinomial)
    } else if name_is(t, "MUNIT") {
        Some(Rule::munit)
    } else if name_is(t, "ODD") {
        Some(Rule::odd)
    } else if name_is(t, "PRODUCT") {
        Some(Rule::product)
    } else if name_is(t, "QUOTIENT") {
        Some(Rule::quotient)
    } else if name_is(t, "RADIANS") {
        Some(Rule::radians)
    } else if name_is(t, "RANDARRAY") {
        Some(Rule::randarray)
    } else if name_is(t, "RANDBETWEEN") {
        Some(Rule::randbetween)
    } else if name_is(t, "ROMAN") {
        Some(Rule::roman)
    } else if name_is(t, "ROUNDDOWN") {
        Some(Rule::rounddown)
    } else if name_is(t, "ROUNDUP") {
        Some(Rule::roundup)
    } else if name_is(t, "SEC") {
        Some(Rule::sec)
    } else if name_is(t, "SECH") {
        Some(Rule::sech)
    } else if name_is(t, "SEQUENCE") {
        Some(Rule::sequence)
    } else if name_is(t, "SERIESSUM") {
        Some(Rule::seriessum)
    } else if name_is(t, "SUBTOTAL") {
        Some(Rule::subtotal)
    } else if name_is(t, "SUMIF") {
        Some(Rule::sumif)
    } else if name_is(t, "SUMIFS") {
        Some(Rule::sumifs)
    } else if name_is(t, "SUMPRODUCT") {
        Some(Rule::sumproduct)
    } else if name_is(t, "SUMSQ") {
        Some(Rule::sumsq)
    } else if name_is(t, "SUMX2MY2") {
        Some(Rule::sumx2my2)
    } else if name_is(t, "SUMX2PY2") {
        Some(Rule::sumx2py2)
    } else if name_is(t, "SUMXMY2") {
        Some(Rule::sumxmy2)
    } else if name_is(t, "TRUNC") {
        Some(Rule::trunc)
    } else if name_is(t, "ENCODEURL") {
        Some(Rule::encodeurl)
    } else if name_is(t, "FILTERXML") {
        Some(Rule::filterxml)
    } else if name_is(t, "WEBSERVICE") {
        Some(Rule::webservice)
    } else {
        None
    }
}

/// Whether the characters of `t` are exactly those of `lit`.
pub fn name_is(t: &Vec<char>, lit: &str) -> (r: bool)
    ensures
        r == (t@ == lit@),
{
    let n = lit.unicode_len();
    if t.len() != n {
        proof {
            assert(t@.len() != lit@.len());
        }
        return false;
    }
    let mut i: usize = 0;
    while i < n
        invariant
            0 <= i <= n,
            n == lit@.len(),
            n == t@.len(),
            forall|j: int| 0 <= j < i ==> t@[j] == lit@[j],
        decreases n - i,
    {
        if t[i] != lit.get_char(i) {
            proof {
                assert(t@[i as int] != lit@[i as int]);
            }
            return false;
        }
        i += 1;
    }
    proof {
        assert(t@ =~= lit@);
    }
    true
}


/// Exec twin of `is_unimplemented`.
#[verifier::rlimit(100)]
pub fn is_unimplemented_x(r: Rule) -> (b: bool)
    ensures
        b == is_unimplemented(r),
{
    proof {
        reveal(is_unimplemented);
    }
    match r {
        Rule::networkdays
        | Rule::networkdaysintl
        | Rule::workdays
        | Rule::workdaysintl
        | Rule::yearfrac
        | Rule::days360
        | Rule::datediff
        | Rule::arraytotext
        | Rule::asc
        | Rule::clean
        | Rule::dbcs
        | Rule::dollar
        | Rule::jis
        | Rule::text
        | Rule::numbervalue
        | Rule::phonetic
        | Rule::substitute
        | Rule::textafter
        | Rule::textbefore
        | Rule::textsplit
        | Rule::value
        | Rule::valuetotext
        | Rule::bahttext
        | Rule::let_
        | Rule::bycol
        | Rule::byrow
        | Rule::makearray
        | Rule::reduce
        | Rule::scan
        | Rule::map_
        | Rule::lambda
        | Rule::switch
        | Rule::ifs
        | Rule::ceiling
        | Rule::round
        | Rule::floor
        | Rule::acot
        | Rule::acoth
        | Rule::aggregate
        | Rule::arabic
        | Rule::base
        | Rule::ceiling_math
        | Rule::ceiling_precise
        | Rule::combin
        | Rule::combina
        | Rule::cot
        | Rule::coth
        | Rule::csc
        | Rule::csch
        | Rule::decimal
        | Rule::degrees
        | Rule::even
        | Rule::fact
        | Rule::factdouble
        | Rule::floor_math
        | Rule::floor_precise
        | Rule::gcd
        | Rule::int_
        | Rule::iso_ceiling
        | Rule::lcm
        | Rule::mdeterm
        | Rule::minverse
        | Rule::mmult
        | Rule::mround
        | Rule::multinomial
        | Rule::munit
        | Rule::odd
        | Rule::product
        | Rule::quotient
        | Rule::radians
        | Rule::randarray
        | Rule::randbetween
        | Rule::roman
        | Rule::rounddown
        | Rule::roundup
        | Rule::sec
        | Rule::sech
        | Rule::sequence
        | Rule::seriessum
        | Rule::subtotal
        | Rule::sumif
        | Rule::sumifs
        | Rule::sumproduct
        | Rule::sumsq
        | Rule::sumx2my2
        | Rule::sumx2py2
        | Rule::sumxmy2
        | Rule::trunc
        | Rule::weeknum
        | Rule::filterxml => true,
        _ => false,
    }
}

} // verus!
