use apify_crawler::storage::{Location, Storage, FALLBACK_DATASET_ID};
use apify_crawler::text::{format_padded8, join_strings};

fn s(v: &str) -> String {
    v.to_string()
}

#[test]
fn padded_keys_have_eight_digits() {
    assert_eq!(format_padded8(0), "00000000");
    assert_eq!(format_padded8(1), "00000001");
    assert_eq!(format_padded8(42), "00000042");
    assert_eq!(format_padded8(12345678), "12345678");
    assert_eq!(format_padded8(99999999), "99999999");
}

#[test]
fn padded_keys_are_never_truncated() {
    assert_eq!(format_padded8(100000000), "100000000");
    assert_eq!(format_padded8(u32::MAX), "4294967295");
}

#[test]
fn padded_keys_match_std_formatting() {
    for n in [0u32, 7, 10, 99, 100, 1000, 65536, 9999999, 10000000, 123456789, u32::MAX] {
        assert_eq!(format_padded8(n), format!("{:08}", n));
    }
}

#[test]
fn join_puts_separator_between_parts() {
    assert_eq!(join_strings(&vec![], "+"), "");
    assert_eq!(join_strings(&vec![s("a")], "+"), "a");
    assert_eq!(join_strings(&vec![s("a"), s("bc"), s("")], "--"), "a--bc--");
}

#[test]
fn on_apify_only_when_setting_is_one() {
    assert!(Storage::get_is_on_apify(Some(s("1"))));
    assert!(!Storage::get_is_on_apify(Some(s("0"))));
    assert!(!Storage::get_is_on_apify(Some(s("11"))));
    assert!(!Storage::get_is_on_apify(Some(s(""))));
    assert!(!Storage::get_is_on_apify(None));
}

#[test]
fn new_storage_has_written_nothing() {
    let storage = Storage::new(true);
    assert!(storage.force_cloud());
    assert_eq!(storage.inner_key(), 0);
    let storage = Storage::new(false);
    assert!(!storage.force_cloud());
}

#[test]
fn local_records_get_successive_files() {
    let mut storage = Storage::new(false);
    let first = storage.push_data_location(false, None, None);
    let second = storage.push_data_location(false, None, None);
    assert_eq!(
        first,
        Location::Local {
            path: s("apify_storage/datasets/default/00000001.json")
        }
    );
    assert_eq!(
        second,
        Location::Local {
            path: s("apify_storage/datasets/default/00000002.json")
        }
    );
    assert_eq!(storage.inner_key(), 2);
}

#[test]
fn records_on_apify_go_to_the_dataset() {
    let mut storage = Storage::new(false);
    let loc = storage.push_data_location(true, Some(s("myset")), Some(s("tok")));
    assert_eq!(
        loc,
        Location::Remote {
            url: s("https://api.apify.com/v2/datasets/myset/items?token=tok")
        }
    );
    assert_eq!(storage.inner_key(), 0);
}

#[test]
fn forced_cloud_falls_back_to_the_default_dataset() {
    let mut storage = Storage::new(true);
    let loc = storage.push_data_location(false, None, Some(s("tok")));
    assert_eq!(
        loc,
        Location::Remote {
            url: format!(
                "https://api.apify.com/v2/datasets/{}/items?token=tok",
                FALLBACK_DATASET_ID
            )
        }
    );
    assert_eq!(
        loc,
        Location::Remote {
            url: s("https://api.apify.com/v2/datasets/w7xbAHYhyoz3v8K8r/items?token=tok")
        }
    );
    let named = storage.push_data_location(false, Some(s("d")), Some(s("t")));
    assert_eq!(
        named,
        Location::Remote {
            url: s("https://api.apify.com/v2/datasets/d/items?token=t")
        }
    );
}

#[test]
fn values_are_read_from_the_store() {
    assert_eq!(
        Storage::get_value_location(true, Some(s("kv1")), "INPUT"),
        Location::Remote {
            url: s("https://api.apify.com/v2/key-value-stores/kv1/records/INPUT")
        }
    );
    assert_eq!(
        Storage::get_value_location(false, None, "INPUT"),
        Location::Local {
            path: s("apify_storage/key_value_stores/default/INPUT.json")
        }
    );
}

#[test]
fn values_are_written_where_they_are_read() {
    assert_eq!(
        Storage::set_value_location(true, Some(s("kv1")), Some(s("tok")), "OUTPUT"),
        Location::Remote {
            url: s("https://api.apify.com/v2/key-value-stores/kv1/records/OUTPUT?token=tok")
        }
    );
    assert_eq!(
        Storage::set_value_location(false, None, None, "OUTPUT"),
        Storage::get_value_location(false, None, "OUTPUT")
    );
}

#[test]
fn local_record_paths_increase() {
    let mut storage = Storage::new(false);
    let mut previous = String::new();
    for _ in 0..12 {
        match storage.push_data_location(false, None, None) {
            Location::Local { path } => {
                assert!(previous < path);
                previous = path;
            }
            Location::Remote { .. } => panic!("expected a local path"),
        }
    }
    assert_eq!(previous, "apify_storage/datasets/default/00000012.json");
}
