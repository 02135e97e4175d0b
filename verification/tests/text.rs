use nskit::format::{canonicalize_name, nation_link, prettify_name, region_link, rmb_link};
use nskit::parse::{parse_policy, parse_u64, u64_to_decimal};
use nskit::types::{split_members, PostStatus};
use nskit::ua::UserAgent;

#[test]
fn parse_u64_accepts_plain_and_signed_decimals() {
    assert_eq!(parse_u64("50"), Some(50));
    assert_eq!(parse_u64("+7"), Some(7));
    assert_eq!(parse_u64("0"), Some(0));
    assert_eq!(parse_u64("007"), Some(7));
    assert_eq!(parse_u64("18446744073709551615"), Some(u64::MAX));
}

#[test]
fn parse_u64_rejects_junk_and_overflow() {
    assert_eq!(parse_u64(""), None);
    assert_eq!(parse_u64("+"), None);
    assert_eq!(parse_u64("abc"), None);
    assert_eq!(parse_u64("1e3"), None);
    assert_eq!(parse_u64("-5"), None);
    assert_eq!(parse_u64("5 "), None);
    assert_eq!(parse_u64("18446744073709551616"), None);
}

#[test]
fn parse_policy_reads_both_fields() {
    assert_eq!(parse_policy("50;w=30"), Some((Some(50), Some(30))));
    assert_eq!(parse_policy("1;w=1"), Some((Some(1), Some(1))));
}

#[test]
fn parse_policy_rejects_wrong_shapes() {
    assert_eq!(parse_policy("abc"), None);
    assert_eq!(parse_policy("50"), None);
    assert_eq!(parse_policy("50;w="), None);
    assert_eq!(parse_policy(";w=30"), None);
    assert_eq!(parse_policy("50;x=30"), None);
    assert_eq!(parse_policy("50;w=30 "), None);
    assert_eq!(parse_policy("50;w=30;w=2"), None);
}

#[test]
fn parse_policy_overflowing_field_is_none() {
    assert_eq!(
        parse_policy("99999999999999999999999;w=30"),
        Some((None, Some(30)))
    );
}

#[test]
fn decimal_rendering_is_exact() {
    assert_eq!(u64_to_decimal(0), "0");
    assert_eq!(u64_to_decimal(7), "7");
    assert_eq!(u64_to_decimal(30), "30");
    assert_eq!(u64_to_decimal(1234567890), "1234567890");
    assert_eq!(u64_to_decimal(u64::MAX), "18446744073709551615");
}

#[test]
fn decimal_parse_render_round_trip() {
    let samples = [0u64, 1, 9, 10, 42, 12345, u64::MAX];
    for n in samples {
        assert_eq!(parse_u64(&u64_to_decimal(n)), Some(n));
    }
}

#[test]
fn canonicalize_lowers_and_underscores() {
    assert_eq!(canonicalize_name("Testlandia Prime"), "testlandia_prime");
    assert_eq!(canonicalize_name("already_canonical"), "already_canonical");
    assert_eq!(canonicalize_name(""), "");
}

#[test]
fn prettify_title_cases_words() {
    assert_eq!(prettify_name("testlandia_prime"), "Testlandia Prime");
    assert_eq!(prettify_name("the_north_pacific"), "the North Pacific");
}

#[test]
fn prettify_keeps_short_words_lowered() {
    assert_eq!(prettify_name("land_of_the_free"), "Land of the Free");
    assert_eq!(prettify_name("an_apple"), "an Apple");
    assert_eq!(prettify_name("a"), "a");
}

#[test]
fn nation_and_region_links_canonicalize() {
    assert_eq!(
        nation_link("Testlandia"),
        "https://www.nationstates.net/nation=testlandia"
    );
    assert_eq!(
        region_link("The North Pacific"),
        "https://www.nationstates.net/region=the_north_pacific"
    );
}

#[test]
fn rmb_link_carries_post_id_twice() {
    assert_eq!(
        rmb_link("The North Pacific", "123"),
        "https://www.nationstates.net/page=display_region_rmb/region=the_north_pacific?postid=123#p123"
    );
}

#[test]
fn user_agent_lines_are_exact() {
    let ua = UserAgent::new("prog", "1.0", "auth", "Test User");
    assert_eq!(ua.user, "test_user");
    assert_eq!(ua.api(), "prog/1.0 by auth, in use by test_user");
    assert_eq!(ua.web(), "prog__1.0__by_auth__usedBy_test_user");
}

#[test]
fn split_members_cuts_at_commas() {
    assert_eq!(split_members("a,b,c"), vec!["a", "b", "c"]);
    assert_eq!(split_members("solo"), vec!["solo"]);
    assert_eq!(split_members(""), vec![""]);
    assert_eq!(split_members("a,,c"), vec!["a", "", "c"]);
    assert_eq!(split_members("a,b,"), vec!["a", "b", ""]);
}

#[test]
fn post_status_codes_round_trip() {
    let all = [
        PostStatus::Regular,
        PostStatus::Suppressed,
        PostStatus::SelfDeleted,
        PostStatus::ModDeleted,
    ];
    for status in all {
        assert_eq!(PostStatus::from_code(status.code()), Some(status));
    }
    assert_eq!(PostStatus::from_code(3), None);
    assert_eq!(PostStatus::from_code(9), Some(PostStatus::ModDeleted));
}
