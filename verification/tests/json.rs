use uf::bookmarks::{load_chromium_bookmarks, load_safari_bookmarks};
use uf::json::{parse_json, Json};
use uf::property_list::{can_read, parse_plist, Plist};
use uf::models::Entry;

fn text(t: &str) -> Json {
    Json::Text(t.to_string())
}

#[test]
fn json_is_read_into_plain_values() {
    let value = parse_json("{\"b\": [1, -1, 1.5, true, null], \"a\": \"x\\u0041\"}").unwrap();
    assert_eq!(value.text_at("a"), Some(&"xA".to_string()));
    assert_eq!(
        value.items_at("b"),
        Some(&vec![
            Json::Number(Some(1)),
            Json::Number(None),
            Json::Number(None),
            Json::Bool(true),
            Json::Null,
        ])
    );
    assert_eq!(value.get("c"), None);
    assert_eq!(value.number_at("a"), None);
    assert_eq!(text("t").get("t"), None);
}

#[test]
fn the_last_of_two_equal_keys_counts() {
    let value = parse_json("{\"a\": 1, \"a\": 2}").unwrap();
    assert_eq!(value.number_at("a"), Some(2));
}

#[test]
fn broken_json_is_refused_with_a_reason() {
    assert_eq!(
        parse_json(""),
        Err("EOF while parsing a value at line 1 column 0".to_string())
    );
    assert!(parse_json("[1,").is_err());
}

const BOOKMARKS: &str = r#"{"roots": {
    "bookmark_bar": {"children": [
        {"type": "url", "name": " One ", "url": "https://one"},
        {"type": "url", "name": "No address"},
        {"type": "folder", "name": "Work", "children": [
            {"type": "url", "url": "https://two\t"},
            {"type": "folder", "name": "Deep", "children": [
                {"type": "url", "name": "Three", "url": "https://three"}
            ]}
        ]}
    ], "name": "Bookmarks bar", "type": "folder"},
    "synced": {"children": []}
}}"#;

#[test]
fn chromium_bookmarks_carry_their_folders() {
    let entries = load_chromium_bookmarks(BOOKMARKS).unwrap();
    assert_eq!(
        entries,
        vec![
            Entry::new("One", "https://one", "bookmark", ""),
            Entry::new("https://two", "https://two ", "bookmark", "Work"),
            Entry::new("Three", "https://three", "bookmark", "Work/Deep"),
        ]
    );
}

#[test]
fn broken_chromium_bookmarks_are_an_error() {
    assert_eq!(
        load_chromium_bookmarks("x"),
        Err("parse bookmarks JSON: expected value at line 1 column 1".to_string())
    );
    assert_eq!(load_chromium_bookmarks("[]"), Ok(Vec::new()));
}

const PROPERTY_LIST: &str = r#"<?xml version="1.0" encoding="UTF-8"?>
<!DOCTYPE plist PUBLIC "-//Apple//DTD PLIST 1.0//EN" "http://www.apple.com/DTDs/PropertyList-1.0.dtd">
<plist version="1.0"><dict>
    <key>Title</key><string>Root</string>
    <key>Version</key><integer>1</integer>
    <key>Children</key><array>
        <dict>
            <key>URLString</key><string>https://one</string>
            <key>URIDictionary</key><dict><key>title</key><string>One</string></dict>
        </dict>
        <dict>
            <key>Title</key><string>Sub</string>
            <key>Children</key><array>
                <dict><key>URLString</key><string>https://two</string></dict>
            </array>
        </dict>
    </array>
</dict></plist>"#;

#[test]
fn property_lists_are_read_into_plain_values() {
    let value = parse_plist(&PROPERTY_LIST.as_bytes().to_vec()).unwrap();
    match value {
        Plist::Dictionary(fields) => {
            assert_eq!(fields[0], ("Title".to_string(), Plist::Text("Root".to_string())));
            assert_eq!(fields[1], ("Version".to_string(), Plist::Other));
            assert_eq!(fields.len(), 3);
        }
        other => panic!("{other:?}"),
    }
}

#[test]
fn safari_bookmarks_carry_their_folders() {
    let entries = load_safari_bookmarks(&PROPERTY_LIST.as_bytes().to_vec()).unwrap();
    assert_eq!(
        entries,
        vec![
            Entry::new("One", "https://one", "bookmark", "Root"),
            Entry::new("https://two", "https://two", "bookmark", "Root/Sub"),
        ]
    );
}

#[test]
fn broken_property_lists_are_an_error() {
    assert!(load_safari_bookmarks(&b"<plist>".to_vec()).is_err());
    assert!(parse_plist(&Vec::new()).is_err());
}

fn dated(content: &str) -> Vec<u8> {
    format!("<plist version=\"1.0\">{content}</plist>").into_bytes()
}

#[test]
fn dates_past_the_last_year_are_refused() {
    for content in [
        "<date>9999-12-31T23:59:59-01:00</date>",
        "<date>&#57;999-12-31T23:59:59-01:00</date>",
        "<date>99<!-- -->99-12-31T23:59:59-01:00</date>",
        "<date>9999-12-31T22:59:59-01:01</date>",
        "<date >9999-12-31T23:59:59-01:00</date >",
        "<date a=\"b\">9999-12-31T23:59:59-01:00</date>",
        "<date a='>'>9999-12-31T23:59:59-01:00</date>",
        "<p:date>9999-12-31T23:59:59-01:00</p:date>",
        "<x\">\":date>9999-12-31T23:59:59-01:00</x\">\":date>",
    ] {
        let bytes = dated(content);
        assert!(!can_read(&bytes), "{content}");
        assert_eq!(
            load_safari_bookmarks(&bytes),
            Err("property list holds a date that cannot be read".to_string())
        );
    }
}

#[test]
fn other_dates_are_read() {
    for content in [
        "<date>2014-05-01T00:00:00Z</date>",
        "<date>9999-12-30T23:59:59-01:00</date>",
        "<date>0000-12-30T00:00:00Z</date>",
        "<date>9998-12-31T23:59:59-23:59</date>",
        "<date>9999-12-31T00:00:00Z</date>",
        "<date>9999-12-31T23:59:59Z</date>",
        "<date>9999-12-31T23:59:59+01:00</date>",
        "<date>9999-12-31T23:59:59-00:00</date>",
        "<date>9999-12-31T00:00:00-01:00</date>",
        "<date>9999-12-31T22:59:59-01:00</date>",
        "<date a=\"b\">2014-05-01T00:00:00Z</date>",
        "<date a='>'>2014-05-01T00:00:00Z</date>",
        "<date a=\"b\">9999-12-31T00:00:00Z</date>",
    ] {
        let bytes = dated(content);
        assert!(can_read(&bytes), "{content}");
        assert_eq!(parse_plist(&bytes), Ok(Plist::Other));
    }
    for content in ["<date/>", "<date></date>", "<date>9999", "<dates>9999-12-31"] {
        let bytes = dated(content);
        assert!(can_read(&bytes), "{content}");
        assert!(load_safari_bookmarks(&bytes).is_err());
    }
    assert!(can_read(&b"bplist00<date>9999-12-31".to_vec()));
}
