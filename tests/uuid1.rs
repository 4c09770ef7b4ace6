use uuid::Uuid;
use uuid1::config::node_from_machine_id;
use uuid1::{Config, Uuid1};

fn is_hyphenated_hex(s: &str) -> bool {
    s.len() == 36
        && s.char_indices().all(|(i, c)| {
            if i == 8 || i == 13 || i == 18 || i == 23 {
                c == '-'
            } else {
                c.is_ascii_digit() || ('a'..='f').contains(&c)
            }
        })
}

#[test]
fn ordered_uuid_is_some() {
    let config = Config::new(None);
    let uuid = Uuid::v1(&config).unwrap();
    assert!(uuid.ordered().is_some());
}

#[test]
fn generated_has_version_one_and_the_node() {
    let config = Config::with_node(7, [9, 8, 7, 6, 5, 4]);
    let uuid = Uuid::v1(&config).unwrap();
    assert_eq!(uuid.get_version_num(), 1);
    assert_eq!(&uuid.as_bytes()[10..], &[9, 8, 7, 6, 5, 4]);
}

#[test]
fn v1_at_matches_the_standard_layout() {
    let config = Config::with_node(0, [1, 2, 3, 4, 5, 6]);
    let first = Uuid::v1_at(&config, 1_496_854_535, 812_946_000).unwrap();
    assert_eq!(first.to_string(), "20616934-4ba2-11e7-8000-010203040506");
    let second = Uuid::v1_at(&config, 1_496_854_535, 812_946_000).unwrap();
    assert_eq!(second.to_string(), "20616934-4ba2-11e7-8001-010203040506");
}

#[test]
fn v1_at_refuses_times_outside_the_range() {
    let config = Config::with_node(0, [1, 2, 3, 4, 5, 6]);
    assert!(Uuid::v1_at(&config, -1, 0).is_none());
    assert!(Uuid::v1_at(&config, i64::MAX, 0).is_none());
    assert!(Uuid::v1_at(&config, 1_832_455_114_571, 0).is_none());
    assert!(Uuid::v1_at(&config, 1_832_455_114_570, 0).is_some());
    assert!(Uuid::v1_at(&config, 1_832_455_114_570, 1_999_999_999).is_none());
    assert!(Uuid::v1_at(&config, 0, 1_999_999_999).is_some());
}

#[test]
fn generated_is_always_eligible() {
    let config = Config::new(None);
    for _ in 0..100 {
        let uuid = Uuid::v1(&config).unwrap();
        assert!(uuid.ordered().is_some());
    }
}

#[test]
fn other_versions_are_refused() {
    assert!(Uuid::new_v4().ordered().is_none());
    assert!(Uuid::nil().ordered().is_none());
    let v3 = Uuid::parse_str("6fa459ea-ee8a-3ca4-894e-db77e160355e").unwrap();
    assert!(v3.ordered().is_none());
}

#[test]
fn permutation_of_fixed_bytes() {
    let input = Uuid::from_bytes([
        0x11, 0x22, 0x33, 0x44, 0x55, 0x66, 0x17, 0x88, 0x99, 0xAA, 0xBB, 0xCC, 0xDD, 0xEE, 0xFF,
        0x00,
    ]);
    let ordered = input.ordered().unwrap();
    assert_eq!(ordered.render(), "17885566-1122-3344-99aa-bbccddeeff00");
}

#[test]
fn later_times_sort_later() {
    let config = Config::with_node(0x3fff, [0xff; 6]);
    let later_config = Config::with_node(0, [0; 6]);
    let early = Uuid::v1_at(&config, 1_600_000_268, 584_524_800).unwrap();
    let late = Uuid::v1_at(&later_config, 1_600_000_268, 584_576_000).unwrap();
    assert!(early.as_bytes() > late.as_bytes());
    let a = early.ordered().unwrap().render();
    let b = late.ordered().unwrap().render();
    assert!(a < b);
}

#[test]
fn successive_generations_sort_in_order() {
    let config = Config::new(None);
    let mut previous = Uuid::v1(&config).unwrap().ordered().unwrap().render();
    for _ in 0..50 {
        let next = Uuid::v1(&config).unwrap().ordered().unwrap().render();
        assert!(previous[..18] <= next[..18]);
        previous = next;
    }
}

#[test]
fn one_context_gives_one_node() {
    let config = Config::new(None);
    let a = Uuid::v1(&config).unwrap();
    let b = Uuid::v1(&config).unwrap();
    assert_eq!(a.as_bytes()[10..], b.as_bytes()[10..]);
    assert_eq!(a.as_bytes()[10..], config.node());
}

#[test]
fn render_has_the_hyphenated_shape() {
    let config = Config::new(None);
    for _ in 0..20 {
        let rendered = Uuid::v1(&config).unwrap().ordered().unwrap().render();
        assert!(is_hyphenated_hex(&rendered));
    }
    let zeros = Uuid::from_bytes([0x10, 0, 0, 0, 0, 0, 0x10, 0, 0, 0, 0, 0, 0, 0, 0, 0]);
    assert_eq!(zeros.ordered().unwrap().render(), "10000000-1000-0000-0000-000000000000");
    let ones = Uuid::from_bytes([0xff, 0xff, 0xff, 0xff, 0xff, 0xff, 0x1f, 0xff, 0xff, 0xff, 0xff, 0xff, 0xff, 0xff, 0xff, 0xff]);
    let text = ones.ordered().unwrap().render();
    assert_eq!(text, "1fffffff-ffff-ffff-ffff-ffffffffffff");
    assert!(is_hyphenated_hex(&text));
}

#[test]
fn machine_id_gives_the_node() {
    let text = "  0123456789abcdef0123456789abcdef\n";
    assert_eq!(node_from_machine_id(text), Some([0x01, 0x23, 0x45, 0x67, 0x89, 0xab]));
    let config = Config::new(Some(text));
    assert_eq!(config.node(), [0x01, 0x23, 0x45, 0x67, 0x89, 0xab]);
    let uuid = Uuid::v1(&config).unwrap();
    assert_eq!(uuid.as_bytes()[10..], [0x01, 0x23, 0x45, 0x67, 0x89, 0xab]);
}

#[test]
fn unreadable_machine_id_falls_back() {
    assert_eq!(node_from_machine_id("not an identifier"), None);
    assert_eq!(node_from_machine_id(""), None);
    let first = Config::new(Some("not an identifier"));
    let second = Config::new(None);
    assert!(first.node() != second.node() || first.node() != [0; 6]);
}

#[test]
fn ordered_debug_names_the_type() {
    let uuid = Uuid::from_bytes([0, 0, 0, 0, 0, 0, 0x10, 0, 0, 0, 0, 0, 0, 0, 0, 0]);
    let text = format!("{:?}", uuid.ordered().unwrap());
    assert!(text.starts_with("OrderedUuid"));
}
