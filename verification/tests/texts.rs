use matrirc::args::AutoJoinOptions;
use matrirc::matrix::percent::percent_encode;
use matrirc::matrix::room_target::sanitize;
use matrirc::name_map::NameMap;
use matrirc::text::{behind_last, decimal_of, replace_all, split, strip_prefix, trim_end};

#[test]
fn autojoin_options() {
    assert!(AutoJoinOptions::All.join_queries());
    assert!(AutoJoinOptions::All.join_channels());
    assert!(AutoJoinOptions::Queries.join_queries());
    assert!(!AutoJoinOptions::Queries.join_channels());
    assert!(!AutoJoinOptions::Channels.join_queries());
    assert!(AutoJoinOptions::Channels.join_channels());
    assert!(!AutoJoinOptions::Nothing.join_queries());
    assert!(!AutoJoinOptions::Nothing.join_channels());
}

#[test]
fn splitting_keeps_empty_pieces() {
    assert_eq!(split("a b", ' '), vec!["a", "b"]);
    assert_eq!(split("", ' '), vec![""]);
    assert_eq!(split(" a ", ' '), vec!["", "a", ""]);
    assert_eq!(split("één\ntwee\n", '\n').join("\n"), "één\ntwee\n");
}

#[test]
fn decimals() {
    assert_eq!(decimal_of(0), "0");
    assert_eq!(decimal_of(9), "9");
    assert_eq!(decimal_of(10), "10");
    assert_eq!(decimal_of(18446744073709551615), "18446744073709551615");
}

#[test]
fn prefixes_ends_and_replacements() {
    assert_eq!(strip_prefix("#chan", "#"), Some("chan".to_string()));
    assert_eq!(strip_prefix("##chan", "#"), Some("#chan".to_string()));
    assert_eq!(strip_prefix("chan", "#"), None);
    assert_eq!(strip_prefix("", "#"), None);
    assert_eq!(trim_end("https://a.b///", '/'), "https://a.b");
    assert_eq!(trim_end("https://a.b", '/'), "https://a.b");
    assert_eq!(behind_last("a/b/c.png", '/'), "c.png");
    assert_eq!(behind_last("c.png", '/'), "c.png");
    assert_eq!(behind_last("a/", '/'), "");
    assert_eq!(replace_all("mxc://a/mxc://", "mxc://", "x"), "xa/x");
    assert_eq!(replace_all("aaa", "aa", "b"), "ba");
}

#[test]
fn names_are_deduped() {
    let mut map: NameMap<u32> = NameMap::new();
    assert_eq!(map.insert_deduped("bob", 1), "bob");
    assert_eq!(map.insert_deduped("bob", 2), "bob_2");
    assert_eq!(map.insert_deduped("bob", 3), "bob_3");
    assert_eq!(map.remove("bob_2"), Some(2));
    assert_eq!(map.insert_deduped("bob", 4), "bob_2");
    assert_eq!(map.insert_deduped("bob_2", 5), "bob_2_2");
    assert_eq!(map.get("bob_2"), Some(&4));
    assert_eq!(map.get("alice"), None);
    assert_eq!(map.remove("alice"), None);
}

#[test]
fn many_variations_are_tried() {
    let mut map: NameMap<u32> = NameMap::new();
    let mut last = String::new();
    for i in 0..120 {
        last = map.insert_deduped("x", i);
    }
    assert_eq!(last, "x_120");
    assert_eq!(map.names().len(), 120);
}

#[test]
fn values_change_in_place() {
    let mut map: NameMap<u32> = NameMap::new();
    map.insert("a".to_string(), 1);
    map.insert("b".to_string(), 2);
    if let Some(v) = map.get_mut("a") {
        *v = 7;
    }
    assert!(map.get_mut("c").is_none());
    assert_eq!(map.get("a"), Some(&7));
    assert_eq!(map.get("b"), Some(&2));
    map.insert("a".to_string(), 8);
    assert_eq!(map.names(), vec!["a", "b"]);
    assert_eq!(map.get("a"), Some(&8));
}

#[test]
fn names_are_sanitized() {
    assert_eq!(sanitize("Bob Älice-42_x!"), "Boblice-_x");
    assert_eq!(sanitize("@user:matrix.org"), "usermatrixorg");
    assert_eq!(sanitize("123"), "");
    assert_eq!(sanitize(&sanitize("a b c")), "abc");
}

#[test]
fn file_names_are_percent_encoded() {
    assert_eq!(percent_encode("plain-name_1.png"), "plain-name_1.png");
    assert_eq!(percent_encode("a b\"c<d>e`f"), "a%20b%22c%3Cd%3Ee%60f");
    assert_eq!(percent_encode("é%#?"), "%C3%A9%#?");
    assert_eq!(percent_encode("\u{1}\u{7f}~"), "%01%7F~");
    assert_eq!(percent_encode(""), "");
}
