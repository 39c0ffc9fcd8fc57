use ecstasy::collection::format_collection_name;
use ecstasy::collector::Collection;
use ecstasy::collector::CollectionUploader;
use ecstasy::config::collection_path_for;
use ecstasy::config::game_path_from_launch_command;
use ecstasy::config::songs_path_for;
use ecstasy::check_concurrency_bound;
use ecstasy::text::i32_to_string;
use ecstasy::text::parse_u32;
use ecstasy::text::replace_all;
use ecstasy::text::str_contains;
use ecstasy::text::str_eq;
use ecstasy::text::u32_to_string;

fn sample_collection(id: i32, name: &str, author: &str) -> Collection {
    Collection {
        id,
        name: name.to_string(),
        uploader: CollectionUploader { username: author.to_string() },
        beatmap_count: 0,
        beatmapsets: Vec::new(),
    }
}

#[test]
fn renders_small_numbers() {
    assert_eq!(u32_to_string(0), "0");
    assert_eq!(u32_to_string(7), "7");
    assert_eq!(u32_to_string(10), "10");
    assert_eq!(u32_to_string(4294967295), "4294967295");
}

#[test]
fn renders_signed_numbers() {
    assert_eq!(i32_to_string(0), "0");
    assert_eq!(i32_to_string(2147483647), "2147483647");
    assert_eq!(i32_to_string(-1), "-1");
    assert_eq!(i32_to_string(-2147483648), "-2147483648");
}

#[test]
fn parses_digit_strings() {
    assert_eq!(parse_u32("0"), Some(0));
    assert_eq!(parse_u32("123"), Some(123));
    assert_eq!(parse_u32("007"), Some(7));
    assert_eq!(parse_u32("4294967295"), Some(4294967295));
}

#[test]
fn rejects_bad_digit_strings() {
    assert_eq!(parse_u32(""), None);
    assert_eq!(parse_u32("12a"), None);
    assert_eq!(parse_u32("-3"), None);
    assert_eq!(parse_u32("4294967296"), None);
    assert_eq!(parse_u32("99999999999999999999"), None);
}

#[test]
fn finds_substrings() {
    assert!(str_contains("application/json; charset=utf-8", "application/json"));
    assert!(str_contains("abc", ""));
    assert!(str_contains("abc", "abc"));
    assert!(!str_contains("text/html", "application/json"));
    assert!(!str_contains("ab", "abc"));
}

#[test]
fn compares_strings() {
    assert!(str_eq("abc", "abc"));
    assert!(!str_eq("abc", "abd"));
    assert!(!str_eq("abc", "ab"));
    assert!(str_eq("", ""));
}

#[test]
fn replaces_left_to_right_without_rescanning() {
    assert_eq!(replace_all("aaa", "aa", "b"), "ba");
    assert_eq!(replace_all("hello world", "o", "0"), "hell0 w0rld");
    assert_eq!(replace_all("abc", "", "x"), "abc");
    assert_eq!(replace_all("abab", "ab", "ba"), "baba");
    assert_eq!(replace_all("abc", "xyz", "q"), "abc");
}

#[test]
fn formats_collection_names() {
    let collection = sample_collection(44, "Jump Maps", "alice");
    let out = format_collection_name(
        "{collection_author} - {collection_title} ({collection_id})",
        &collection,
    );
    assert_eq!(out, "alice - Jump Maps (44)");
}

#[test]
fn formats_collection_names_without_placeholders() {
    let collection = sample_collection(9, "x", "y");
    assert_eq!(format_collection_name("plain", &collection), "plain");
}

#[test]
fn derives_game_paths() {
    assert_eq!(songs_path_for("C:\\osu"), "C:\\osu\\Songs");
    assert_eq!(collection_path_for("C:\\osu"), "C:\\osu\\collection.db");
}

#[test]
fn extracts_game_path_from_launch_command() {
    let value = "\"C:\\osu\\osu!.exe\" \"%1\"";
    assert_eq!(game_path_from_launch_command(value), "C:\\osu");
}

#[test]
fn enforces_concurrency_cap() {
    assert!(check_concurrency_bound(1));
    assert!(check_concurrency_bound(6));
    assert!(!check_concurrency_bound(7));
}

#[test]
fn holds_a_whole_run_configuration() {
    let config = ecstasy::config::Config {
        user: ecstasy::config::UserConfig {
            mirror_type: ecstasy::mirrors::MirrorType::Catboy(ecstasy::mirrors::Catboy),
            collection_name_format: "{collection_title}".to_string(),
            concurrent_downloads: 4,
        },
        collector: ecstasy::config::CollectorConfig { id: 5180 },
        osu: ecstasy::config::OsuConfig::default(),
    };
    assert_eq!(config.user.mirror_type.get_name(), "catboy.best");
    assert_eq!(config.collector.id, 5180);
    assert_eq!(config.osu.songs_path, "");
    let args = ecstasy::config::Args { speedtest: false };
    assert!(!args.speedtest);
}
