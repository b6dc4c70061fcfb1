use rpgdata_crypt::crypto::CryptoParams;
use rpgdata_crypt::mv::extract_mv_params_from_str;
use rpgdata_crypt::mz::extract_mz_params_from_str;
use rpgdata_crypt::param_parser::{parse_crypto_params, parse_decimal, perfect_square_root, ParamError};

const MZ_LOADER: &str = "DataManager.loadDataFile = function(name, src) {\n\
    window._K = (Math.sqrt(61009)|0);\n\
    var n = src.split(/[\\/\\\\]/).pop().replace('.json', '').toLowerCase();\n\
    for (var i = len - 1; i >= 0; i--) {\n\
    var _c=(fk|82)&~(fk&82), _m=(i%128), _p=((ls<<2)|(ls>>>4))&~((ls<<2)&(ls>>>4)); var _k=((((_c+_m+_p)|146)&~(((_c+_m+_p)&146)))+46)&255;\n\
    }\n};\n";

const MV_LOADER: &str = "window._K=(Math.sqrt(23104)|0);var n=src.split(/\\//).pop().replace('.json', '');\
var _c = (fk|85)&~(fk&85), _m = (i%128), _p = ((ls<<2)|(ls>>>4))&~((ls<<2)&(ls>>>4));\n\
var _k = ((((_c+_m+_p)|180)&~(((_c+_m+_p)&180)))+36)&255;";

#[test]
fn extracts_mz_params_from_fixture() {
    let params = extract_mz_params_from_str(MZ_LOADER).unwrap();
    assert_eq!(
        params,
        CryptoParams {
            k_value: 247,
            xor_c: 82,
            left_shift_p: 2,
            right_shift_p: 4,
            xor_k: 146,
            add_k: 46,
            lowercase_filename: true,
        }
    );
}

#[test]
fn extracts_mv_params_from_fixture() {
    let params = extract_mv_params_from_str(MV_LOADER).unwrap();
    assert_eq!(
        params,
        CryptoParams {
            k_value: 152,
            xor_c: 85,
            left_shift_p: 2,
            right_shift_p: 4,
            xor_k: 180,
            add_k: 36,
            lowercase_filename: false,
        }
    );
}

#[test]
fn missing_k_assignment_is_reported() {
    let text = MZ_LOADER.replace("window._K", "window._Q");
    assert_eq!(parse_crypto_params(&text), Err(ParamError::KAssignmentMissing));
}

#[test]
fn non_square_k_is_reported() {
    let text = MZ_LOADER.replace("61009", "61010");
    assert_eq!(parse_crypto_params(&text), Err(ParamError::NotPerfectSquare(61010)));
}

#[test]
fn missing_filename_line_is_reported() {
    let text = MZ_LOADER.replace("src.split", "src.splice");
    assert_eq!(parse_crypto_params(&text), Err(ParamError::FilenamePatternMissing));
}

#[test]
fn missing_loop_is_reported() {
    let text = MZ_LOADER.replace("_m=(i%128)", "_m=(i%64)");
    assert_eq!(parse_crypto_params(&text), Err(ParamError::LoopPatternMissing));
}

#[test]
fn oversized_numeral_is_reported() {
    let text = MZ_LOADER.replace("(fk|82)", "(fk|99999999999)");
    assert_eq!(parse_crypto_params(&text), Err(ParamError::BadNumber));
    let text = MZ_LOADER.replace("61009", "99999999999");
    assert_eq!(parse_crypto_params(&text), Err(ParamError::BadNumber));
}

#[test]
fn non_ascii_digits_are_reported() {
    // `\d` matches other decimal digits, which do not parse as numbers
    let text = MZ_LOADER.replace("(fk|82)", "(fk|\u{0668}\u{0662})");
    assert_eq!(parse_crypto_params(&text), Err(ParamError::BadNumber));
}

#[test]
fn k_checks_come_before_the_loop() {
    let text = MZ_LOADER.replace("61009", "61010").replace("_m=(i%128)", "_m=(i%64)");
    assert_eq!(parse_crypto_params(&text), Err(ParamError::NotPerfectSquare(61010)));
}

#[test]
fn shift_counts_may_exceed_signed_range() {
    let text = MZ_LOADER.replace("(ls>>>4))&~", "(ls>>>3000000000))&~");
    let p = parse_crypto_params(&text).unwrap();
    assert_eq!(p.right_shift_p, 3000000000);
}

#[test]
fn parse_decimal_cases() {
    assert_eq!(parse_decimal("0", 10), Some(0));
    assert_eq!(parse_decimal("0082", 100), Some(82));
    assert_eq!(parse_decimal("2147483647", 2147483647), Some(2147483647));
    assert_eq!(parse_decimal("2147483648", 2147483647), None);
    assert_eq!(parse_decimal("", 10), None);
    assert_eq!(parse_decimal("+1", 10), None);
    assert_eq!(parse_decimal("1a", 10), None);
    assert_eq!(parse_decimal("11", 10), None);
    assert_eq!(parse_decimal("18446744073709551615", u64::MAX), Some(u64::MAX));
    assert_eq!(parse_decimal("18446744073709551616", u64::MAX), None);
    assert_eq!(parse_decimal("\u{0661}", 10), None);
}

#[test]
fn perfect_square_root_cases() {
    assert_eq!(perfect_square_root(0), Some(0));
    assert_eq!(perfect_square_root(1), Some(1));
    assert_eq!(perfect_square_root(61009), Some(247));
    assert_eq!(perfect_square_root(23104), Some(152));
    assert_eq!(perfect_square_root(2), None);
    assert_eq!(perfect_square_root(2147395600), Some(46340));
    assert_eq!(perfect_square_root(i32::MAX), None);
    assert_eq!(perfect_square_root(-4), None);
}
