use classroom_auth::auth::{verify, verify_at, verify_bearer, verify_on};
use classroom_auth::clock::unix_seconds;
use classroom_auth::replay::TokenStorage;

const SECRET: &str = "super_secret_code";

fn mint(identity: &str, second: u64) -> String {
    sha256::digest(format!("{}:{}:{}", identity, second, SECRET))
}

fn bearer(identity: &str, access_token: &str, external: &str) -> String {
    format!("Bearer {}", sha256::digest(format!("{}:{}:{}", identity, access_token, external)))
}

#[test]
fn end_to_end_scenario() {
    let mut storage = TokenStorage::new();
    let token = mint("u1", 1000);
    assert_eq!(token, "bd4dd8fcec242a773f725a9dac60c52ebd8f9facb2dd619b54ccef91b55c87ce");
    assert!(verify_at(&mut storage, "u1", &token, 1000));
    assert!(!verify_at(&mut storage, "u1", &token, 1001));
    let token2 = mint("u1", 1003);
    assert_eq!(token2, "f8b369c9b83aa0e15d461d2750e8629e7a8b948afedf34c8b88302c177e8e61b");
    assert!(verify_at(&mut storage, "u1", &token2, 1005));
    assert!(!verify_at(&mut storage, "u1", &token2, 1006));
}

#[test]
fn two_calls_in_one_second_give_exactly_one_acceptance() {
    let mut storage = TokenStorage::new();
    let token = mint("u1", 1000);
    let first = verify_at(&mut storage, "u1", &token, 1002);
    let second = verify_at(&mut storage, "u1", &token, 1002);
    assert!(first);
    assert!(!second);
    assert_eq!([first, second].iter().filter(|ok| **ok).count(), 1);
}

#[test]
fn invalid_token_is_refused_both_times() {
    let mut storage = TokenStorage::new();
    assert!(!verify_at(&mut storage, "u1", "junk", 1000));
    assert!(!verify_at(&mut storage, "u1", "junk", 1000));
}

#[test]
fn token_is_recorded_even_when_it_is_not_valid() {
    let mut storage = TokenStorage::new();
    let early = mint("u1", 1005);
    assert!(!verify_at(&mut storage, "u1", &early, 1000));
    assert!(storage.has_recorded("u1", &early));
    assert_eq!(storage.window_start("u1"), Some(1000));
    assert!(!verify_at(&mut storage, "u1", &early, 1005));
}

#[test]
fn expired_token_is_refused_and_recorded() {
    let mut storage = TokenStorage::new();
    let token = mint("u1", 1000);
    assert!(!verify_at(&mut storage, "u1", &token, 1008));
    assert!(storage.has_recorded("u1", &token));
}

#[test]
fn reset_lets_the_same_token_value_through_again() {
    let mut storage = TokenStorage::new();
    let token = mint("x", 1005);
    assert!(verify_at(&mut storage, "x", &token, 1005));
    assert!(!verify_at(&mut storage, "x", &token, 1006));
    assert!(verify_at(&mut storage, "x", &mint("x", 1010), 1014));
    assert_eq!(storage.window_start("x"), Some(1014));
    assert!(!storage.has_recorded("x", &token));
    assert!(!verify_at(&mut storage, "x", &token, 1014));
    assert!(storage.has_recorded("x", &token));
}

#[test]
fn token_minted_late_in_a_window_passes_after_the_reset() {
    let mut storage = TokenStorage::new();
    let opener = mint("x", 2000);
    assert!(verify_at(&mut storage, "x", &opener, 2000));
    let late = mint("x", 2004);
    assert!(verify_at(&mut storage, "x", &late, 2004));
    assert!(!verify_at(&mut storage, "x", &late, 2008));
    assert!(verify_at(&mut storage, "x", &late, 2009));
    assert_eq!(storage.window_start("x"), Some(2009));
    assert!(!verify_at(&mut storage, "x", &late, 2010));
}

#[test]
fn what_one_identity_presents_does_not_block_another() {
    let mut storage = TokenStorage::new();
    let for_x = mint("x", 1000);
    let for_y = mint("y", 1000);
    assert!(verify_at(&mut storage, "x", &for_x, 1000));
    assert!(!verify_at(&mut storage, "y", &for_x, 1000));
    assert!(verify_at(&mut storage, "y", &for_y, 1001));
    assert!(!verify_at(&mut storage, "x", &for_y, 1001));
    assert!(!verify_at(&mut storage, "x", &for_x, 1001));
    assert!(storage.has_recorded("x", &for_y));
    assert!(storage.has_recorded("y", &for_x));
}

#[test]
fn empty_identity_is_refused_by_the_facade() {
    let mut storage = TokenStorage::new();
    let token = mint("", 1000);
    assert!(!verify_at(&mut storage, "", &token, 1000));
    assert!(!verify_at(&mut storage, "", "", 1000));
    assert!(!verify_at(&mut storage, "u1", "", 1000));
}

#[test]
fn clock_is_read_in_seconds_of_unix_time() {
    let before = std::time::SystemTime::now()
        .duration_since(std::time::UNIX_EPOCH)
        .unwrap()
        .as_secs();
    let read = unix_seconds();
    let after = std::time::SystemTime::now()
        .duration_since(std::time::UNIX_EPOCH)
        .unwrap()
        .as_secs();
    let second = read.unwrap();
    assert!(before <= second && second <= after);
    assert!(second > 1_600_000_000);
}

#[test]
fn verify_takes_a_token_minted_now_once() {
    let mut storage = TokenStorage::new();
    let now = unix_seconds().unwrap();
    let token = mint("u1", now);
    assert!(verify(&mut storage, "u1", &token));
    assert!(!verify(&mut storage, "u1", &token));
    assert!(storage.has_recorded("u1", &token));
    let start = storage.window_start("u1").unwrap();
    assert!(now <= start && start <= now + 7);
}

#[test]
fn verify_refuses_a_token_minted_long_ago() {
    let mut storage = TokenStorage::new();
    let token = mint("u1", 1000);
    assert!(!verify(&mut storage, "u1", &token));
    assert!(storage.has_recorded("u1", &token));
    assert!(!verify(&mut storage, "u1", "junk"));
    assert!(!verify(&mut storage, "", &token));
}

#[test]
fn bearer_of_known_digest_is_accepted() {
    let header = "Bearer bdd882e5d447ceeb589e10d1b16eef583b443bfb3375a3f1e66627552f682a11";
    assert!(verify_bearer("u1", "tok", header, "ext"));
}

#[test]
fn bearer_made_from_the_same_values_is_accepted() {
    let cases = [
        ("u1", "tok", "ext"),
        ("class-7", "bd4dd8fcec242a773f725a9dac60c52ebd8f9facb2dd619b54ccef91b55c87ce", ""),
        ("", "", ""),
        ("a:b", "c", "d:e"),
        ("Émile", "☃", "ключ"),
    ];
    for (identity, access_token, external) in cases {
        let header = bearer(identity, access_token, external);
        assert!(verify_bearer(identity, access_token, &header, external));
    }
    assert_eq!(
        bearer("class-7", "bd4dd8fcec242a773f725a9dac60c52ebd8f9facb2dd619b54ccef91b55c87ce", ""),
        "Bearer 9d2360c92a56d3880a8d81281db3782d955519627319ef7be0f2672651cd5c26"
    );
    assert_eq!(
        bearer("", "", ""),
        "Bearer 71546855d6279ef70d20909b292c42c2dcb02cd06bde01485da52d13e304ebf4"
    );
}

#[test]
fn bearer_with_an_altered_identity_is_refused() {
    let header = bearer("u1", "tok", "ext");
    assert!(!verify_bearer("u2", "tok", &header, "ext"));
    assert!(!verify_bearer("U1", "tok", &header, "ext"));
    assert!(!verify_bearer("u", "tok", &header, "ext"));
    assert!(!verify_bearer("u11", "tok", &header, "ext"));
    assert!(!verify_bearer("", "tok", &header, "ext"));
}

#[test]
fn bearer_with_an_altered_access_token_is_refused() {
    let header = bearer("u1", "tok", "ext");
    assert!(!verify_bearer("u1", "tik", &header, "ext"));
    assert!(!verify_bearer("u1", "to", &header, "ext"));
    assert!(!verify_bearer("u1", "tokk", &header, "ext"));
    assert!(!verify_bearer("u1", "", &header, "ext"));
}

#[test]
fn bearer_with_an_altered_external_token_is_refused() {
    let header = bearer("u1", "tok", "ext");
    assert!(!verify_bearer("u1", "tok", &header, "exu"));
    assert!(!verify_bearer("u1", "tok", &header, "ex"));
    assert!(!verify_bearer("u1", "tok", &header, "ext "));
    assert!(!verify_bearer("u1", "tok", &header, ""));
}

#[test]
fn bearer_with_an_altered_header_is_refused() {
    let header = bearer("u1", "tok", "ext");
    for i in 0..header.len() {
        let mut bytes = header.clone().into_bytes();
        bytes[i] = if bytes[i] == b'x' { b'y' } else { b'x' };
        let altered = String::from_utf8(bytes).unwrap();
        assert!(!verify_bearer("u1", "tok", &altered, "ext"), "position {}", i);
    }
    assert!(!verify_bearer("u1", "tok", &header[7..], "ext"));
    assert!(!verify_bearer("u1", "tok", &header.to_lowercase(), "ext"));
    assert!(!verify_bearer("u1", "tok", &header.replace("Bearer ", "Bearer"), "ext"));
    assert!(!verify_bearer("u1", "tok", &format!("{} ", header), "ext"));
    assert!(!verify_bearer("u1", "tok", "", "ext"));
    assert!(!verify_bearer("u1", "tok", "Bearer ", "ext"));
}

#[test]
fn bearer_is_not_the_digest_of_the_fields_in_another_order() {
    let header = bearer("tok", "u1", "ext");
    assert!(!verify_bearer("u1", "tok", &header, "ext"));
    let header = bearer("u1", "ext", "tok");
    assert!(!verify_bearer("u1", "tok", &header, "ext"));
}

#[test]
fn bearer_check_is_the_same_on_every_call() {
    let header = bearer("u1", "tok", "ext");
    for _ in 0..5 {
        assert!(verify_bearer("u1", "tok", &header, "ext"));
        assert!(!verify_bearer("u1", "tok", &header, "other"));
    }
}

#[test]
fn bearer_check_after_verify_admits_a_privileged_request() {
    let mut storage = TokenStorage::new();
    let token = mint("u1", 1000);
    let header = bearer("u1", &token, "firebase");
    assert!(verify_at(&mut storage, "u1", &token, 1003));
    assert!(verify_bearer("u1", &token, &header, "firebase"));
    assert!(!verify_at(&mut storage, "u1", &token, 1003));
    assert!(verify_bearer("u1", &token, &header, "firebase"));
}

#[test]
fn verification_without_a_clock_reading_refuses_and_records_nothing() {
    let mut storage = TokenStorage::new();
    let token = mint("u1", 1000);
    assert!(!verify_on(&mut storage, "u1", &token, None));
    assert_eq!(storage.window_start("u1"), None);
    assert!(!storage.has_recorded("u1", &token));
    assert!(verify_on(&mut storage, "u1", &token, Some(1000)));
    assert!(!verify_on(&mut storage, "u1", &mint("u1", 1001), None));
    assert_eq!(storage.recorded_count("u1"), 1);
    assert_eq!(storage.window_start("u1"), Some(1000));
}

#[test]
fn verification_on_a_reading_is_the_verification_at_that_second() {
    let mut on_reading = TokenStorage::new();
    let mut at_second = TokenStorage::new();
    let token = mint("u1", 1003);
    for (presented, second) in [(&token, 1002u64), (&token, 1005), (&token, 1011), (&token, 1012)] {
        assert_eq!(
            verify_on(&mut on_reading, "u1", presented, Some(second)),
            verify_at(&mut at_second, "u1", presented, second)
        );
        assert_eq!(on_reading.window_start("u1"), at_second.window_start("u1"));
        assert_eq!(on_reading.recorded_count("u1"), at_second.recorded_count("u1"));
    }
    assert!(verify_on(&mut TokenStorage::new(), "u1", &token, Some(1010)));
    assert!(!verify_on(&mut TokenStorage::new(), "u1", &token, Some(1011)));
}
