use classroom_auth::decimal::{i64_to_decimal, u64_to_decimal};
use classroom_auth::preimage::join_with_colons;

#[test]
fn single_digits_are_written() {
    let expected = ["0", "1", "2", "3", "4", "5", "6", "7", "8", "9"];
    for (n, text) in expected.iter().enumerate() {
        assert_eq!(u64_to_decimal(n as u64), *text);
    }
}

#[test]
fn unsigned_numbers_are_written_in_decimal() {
    assert_eq!(u64_to_decimal(10), "10");
    assert_eq!(u64_to_decimal(99), "99");
    assert_eq!(u64_to_decimal(100), "100");
    assert_eq!(u64_to_decimal(1000), "1000");
    assert_eq!(u64_to_decimal(1_700_000_000), "1700000000");
    assert_eq!(u64_to_decimal(9_007_199_254_740_993), "9007199254740993");
    assert_eq!(u64_to_decimal(u64::MAX), "18446744073709551615");
}

#[test]
fn unsigned_numbers_are_written_as_the_formatter_writes_them() {
    for n in 0u64..2_000 {
        assert_eq!(u64_to_decimal(n), format!("{}", n));
    }
    let mut n = 1u64;
    while n < u64::MAX / 7 {
        assert_eq!(u64_to_decimal(n), n.to_string());
        assert_eq!(u64_to_decimal(n - 1), (n - 1).to_string());
        n *= 7;
    }
}

#[test]
fn signed_numbers_are_written_in_decimal() {
    assert_eq!(i64_to_decimal(0), "0");
    assert_eq!(i64_to_decimal(1), "1");
    assert_eq!(i64_to_decimal(-1), "-1");
    assert_eq!(i64_to_decimal(-10), "-10");
    assert_eq!(i64_to_decimal(42), "42");
    assert_eq!(i64_to_decimal(i64::MAX), "9223372036854775807");
    assert_eq!(i64_to_decimal(i64::MIN), "-9223372036854775808");
    assert_eq!(i64_to_decimal(i64::MIN + 1), "-9223372036854775807");
    for i in -300i64..300 {
        assert_eq!(i64_to_decimal(i), format!("{}", i));
    }
}

#[test]
fn fields_are_joined_by_colons() {
    assert_eq!(join_with_colons("a", "b", "c"), "a:b:c");
    assert_eq!(join_with_colons("u1", "1000", "super_secret_code"), "u1:1000:super_secret_code");
    assert_eq!(join_with_colons("", "", ""), "::");
    assert_eq!(join_with_colons("a:b", "", "c"), "a:b::c");
    assert_eq!(join_with_colons("Émile", "☃", "ключ"), "Émile:☃:ключ");
}
