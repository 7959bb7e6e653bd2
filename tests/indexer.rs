use datalake_indexer::config::Config;
use datalake_indexer::error::IndexError;
use datalake_indexer::file_data::{extract_all, FileData, UTC_MAX_SECS, UTC_MIN_SECS};
use datalake_indexer::indexer::index_listing;
use datalake_indexer::listing::{ListStep, Listing, ListingEntry};
use datalake_indexer::path::{file_name, file_path, file_type, file_url};
use datalake_indexer::table::ColumnKind;

fn entry(size: Option<i64>, last_modified: Option<i64>) -> ListingEntry {
    ListingEntry { size, last_modified }
}

fn page(items: &[(&str, ListingEntry)]) -> Vec<(String, ListingEntry)> {
    items.iter().map(|(k, e)| (k.to_string(), *e)).collect()
}

fn lookup(listing: &Listing, key: &str) -> Option<ListingEntry> {
    for i in 0..listing.len() {
        let (k, e) = listing.get(i);
        if k == key {
            return Some(e);
        }
    }
    None
}

fn some(s: &str) -> Option<String> {
    Some(s.to_string())
}

#[test]
fn config_new_keeps_every_value() {
    let c = Config::new(some("src"), some("dst"), some("in/"), some("out/"), some("item")).unwrap();
    assert_eq!(c.bucket_source, "src");
    assert_eq!(c.bucket_target, "dst");
    assert_eq!(c.prefix_source, "in/");
    assert_eq!(c.prefix_target, "out/");
    assert_eq!(c.item_name, "item");
}

#[test]
fn config_new_names_the_first_missing_value() {
    let cases = [
        (Config::new(None, None, some("a"), some("b"), some("c")), "bucket_source"),
        (Config::new(some("a"), None, some("b"), None, some("c")), "bucket_target"),
        (Config::new(some("a"), some("b"), None, some("c"), some("d")), "prefix_source"),
        (Config::new(some("a"), some("b"), some("c"), None, None), "prefix_target"),
        (Config::new(some("a"), some("b"), some("c"), some("d"), None), "item_name"),
    ];
    for (r, name) in cases {
        match r {
            Err(IndexError::ConfigMissing(k)) => assert_eq!(k, name),
            other => panic!("unexpected {:?}", other),
        }
    }
}

#[test]
fn config_create_and_derived_strings() {
    let c = Config::create("src", "dst", "raw/", "index/", "logs").unwrap();
    assert_eq!(c.source_prefix(), "raw/logs");
    assert_eq!(c.output_key("run1"), "index/logs/id=run1-table=data_indexer.parquet");
    assert_eq!(
        c.describe(),
        "config: item_name: logs bucket_source: src bucket_target: dst prefix_source: raw/ prefix_target: index/"
    );
}

#[test]
fn two_runs_store_under_distinct_keys() {
    let c = Config::create("src", "dst", "raw/", "index/", "logs").unwrap();
    let a = c.fresh_output_key();
    let b = c.fresh_output_key();
    assert_ne!(a, b);
    for k in [&a, &b] {
        assert!(k.starts_with("index/logs/id="));
        assert!(k.ends_with("-table=data_indexer.parquet"));
        assert_eq!(k.len(), "index/logs/id=".len() + 36 + "-table=data_indexer.parquet".len());
    }
    assert_ne!(c.output_key("x"), c.output_key("y"));
}

#[test]
fn key_parts_of_nested_key() {
    assert_eq!(file_name("a/b/c.txt"), some("c.txt"));
    assert_eq!(file_type("a/b/c.txt"), some("txt"));
    assert_eq!(file_path("a/b/c.txt"), some("a/b"));
}

#[test]
fn key_without_dot_has_no_type() {
    assert_eq!(file_type("a/b/README"), None);
    assert_eq!(file_type("a.d/README"), None);
    assert_eq!(file_name("a.d/README"), some("README"));
}

#[test]
fn key_parts_edge_cases() {
    assert_eq!(file_name(""), None);
    assert_eq!(file_path(""), None);
    assert_eq!(file_type(""), None);
    assert_eq!(file_name("/"), None);
    assert_eq!(file_path("/"), None);
    assert_eq!(file_name("single.csv"), some("single.csv"));
    assert_eq!(file_path("single.csv"), None);
    assert_eq!(file_name("logs/2024/"), some("2024"));
    assert_eq!(file_path("logs/2024/"), some("logs"));
    assert_eq!(file_type("x/archive.tar.gz"), some("gz"));
    assert_eq!(file_name("/top"), some("top"));
    assert_eq!(file_path("/top"), None);
}

#[test]
fn url_names_scheme_bucket_and_key() {
    assert_eq!(file_url("bucket", "a/b.csv"), "s3://bucket/a/b.csv");
}

#[test]
fn listing_of_distinct_keys_has_one_entry_each() {
    let mut l = Listing::new();
    let step = l.receive_page(
        page(&[("p/a", entry(Some(1), Some(10))), ("p/b", entry(Some(2), None))]),
        some("t1"),
    );
    match step {
        ListStep::Continue(t) => assert_eq!(t, "t1"),
        ListStep::Finished => panic!("expected another page"),
    }
    let step = l.receive_page(page(&[("p/c", entry(None, Some(30)))]), None);
    assert!(matches!(step, ListStep::Finished));
    assert_eq!(l.len(), 3);
    assert_eq!(lookup(&l, "p/a"), Some(entry(Some(1), Some(10))));
    assert_eq!(lookup(&l, "p/b"), Some(entry(Some(2), None)));
    assert_eq!(lookup(&l, "p/c"), Some(entry(None, Some(30))));
}

#[test]
fn repeated_key_keeps_last_listing() {
    let mut l = Listing::new();
    l.receive_page(page(&[("k", entry(Some(1), Some(1))), ("j", entry(Some(5), None))]), some("n"));
    l.receive_page(page(&[("k", entry(Some(2), Some(2))), ("k", entry(Some(3), Some(3)))]), None);
    assert_eq!(l.len(), 2);
    assert_eq!(lookup(&l, "k"), Some(entry(Some(3), Some(3))));
    assert_eq!(lookup(&l, "j"), Some(entry(Some(5), None)));
}

#[test]
fn empty_listing_is_not_an_error() {
    let mut l = Listing::new();
    let step = l.receive_page(Vec::new(), None);
    assert!(matches!(step, ListStep::Finished));
    assert_eq!(l.len(), 0);
    let records = extract_all("b", &l).unwrap();
    assert!(records.is_empty());
}

#[test]
fn extract_renders_time_in_utc() {
    let d = FileData::extract("b", "logs/2024/a.csv", entry(Some(100), Some(1700000000)), "id1".to_string())
        .unwrap();
    assert_eq!(d.id, "id1");
    assert_eq!(d.dt, Some(1700000000));
    assert_eq!(d.dt_fmt, some("2023-11-14 22:13:20 UTC"));
    assert_eq!(d.file_size, Some(100));
    assert_eq!(d.file_url, "s3://b/logs/2024/a.csv");
}

#[test]
fn rendered_time_parses_back_to_the_same_instant() {
    for secs in [0i64, 1700000000, -1, 951782400, 4102444800] {
        let d = FileData::extract("b", "k", entry(None, Some(secs)), "i".to_string()).unwrap();
        let text = d.dt_fmt.expect("rendered time");
        assert!(text.ends_with(" UTC"));
        let naive = chrono::NaiveDateTime::parse_from_str(&text[..text.len() - 4], "%Y-%m-%d %H:%M:%S").unwrap();
        assert_eq!(naive.and_utc().timestamp(), secs);
    }
}

#[test]
fn absent_time_has_no_rendering() {
    let d = FileData::extract("b", "logs/2024/b.csv", entry(Some(0), None), "id2".to_string()).unwrap();
    assert_eq!(d.dt, None);
    assert_eq!(d.dt_fmt, None);
}

#[test]
fn time_out_of_range_names_the_key() {
    for secs in [UTC_MAX_SECS + 1, UTC_MIN_SECS - 1, i64::MAX, i64::MIN] {
        match FileData::extract("b", "bad/key", entry(None, Some(secs)), "i".to_string()) {
            Err(IndexError::TimestampRange(k)) => assert_eq!(k, "bad/key"),
            other => panic!("unexpected {:?}", other),
        }
    }
    for secs in [UTC_MAX_SECS, UTC_MIN_SECS] {
        let d = FileData::extract("b", "k", entry(None, Some(secs)), "i".to_string()).unwrap();
        assert!(d.dt_fmt.is_some());
    }
}

#[test]
fn new_keeps_the_given_fields() {
    let d = FileData::new("i", Some("a.csv"), Some("csv"), None, Some(3), "s3://b/a.csv", None, None);
    assert_eq!(d.id, "i");
    assert_eq!(d.file_name, some("a.csv"));
    assert_eq!(d.file_type, some("csv"));
    assert_eq!(d.file_path, None);
    assert_eq!(d.file_size, Some(3));
    assert_eq!(d.file_url, "s3://b/a.csv");
}

#[test]
fn empty_table_keeps_full_schema() {
    let t = FileData::to_df(&Vec::new());
    assert_eq!(t.num_rows(), 0);
    let names: Vec<&str> = t.schema.iter().map(|c| c.name.as_str()).collect();
    assert_eq!(
        names,
        vec!["id", "file_name", "file_type", "file_size", "file_path", "file_url", "dt", "dt_fmt"]
    );
    assert_eq!(t.schema[3].kind, ColumnKind::Int64);
    assert_eq!(t.schema[6].kind, ColumnKind::Int64);
    assert_eq!(t.schema[7].kind, ColumnKind::Utf8);
    assert!(!t.schema[0].nullable);
    assert!(!t.schema[5].nullable);
    assert!(t.schema[1].nullable);
}

#[test]
fn table_rows_follow_record_order() {
    let a = FileData::extract("b", "x/a.csv", entry(Some(1), None), "1".to_string()).unwrap();
    let b = FileData::extract("b", "y", entry(None, Some(0)), "2".to_string()).unwrap();
    let t = FileData::to_df(&vec![a, b]);
    assert_eq!(t.num_rows(), 2);
    assert_eq!(t.ids, vec!["1".to_string(), "2".to_string()]);
    assert_eq!(t.file_names, vec![some("a.csv"), some("y")]);
    assert_eq!(t.file_types, vec![some("csv"), None]);
    assert_eq!(t.file_paths, vec![some("x"), None]);
    assert_eq!(t.file_sizes, vec![Some(1), None]);
    assert_eq!(t.dts, vec![None, Some(0)]);
    assert_eq!(t.dt_fmts, vec![None, some("1970-01-01 00:00:00 UTC")]);
    assert_eq!(t.file_urls, vec!["s3://b/x/a.csv".to_string(), "s3://b/y".to_string()]);
}

#[test]
fn two_logs_scenario() {
    let mut l = Listing::new();
    l.receive_page(
        page(&[
            ("logs/2024/a.csv", entry(Some(100), Some(1700000000))),
            ("logs/2024/b.csv", entry(Some(0), None)),
        ]),
        None,
    );
    let records = extract_all("src", &l).unwrap();
    assert_eq!(records.len(), 2);
    let a = records.iter().find(|r| r.file_name.as_deref() == Some("a.csv")).unwrap();
    let b = records.iter().find(|r| r.file_name.as_deref() == Some("b.csv")).unwrap();
    for r in [a, b] {
        assert_eq!(r.file_path, some("logs/2024"));
        assert_eq!(r.file_type, some("csv"));
        assert_eq!(r.id.len(), 36);
    }
    assert_ne!(a.id, b.id);
    assert_eq!(a.dt_fmt, some("2023-11-14 22:13:20 UTC"));
    assert_eq!(a.file_size, Some(100));
    assert_eq!(b.dt, None);
    assert_eq!(b.dt_fmt, None);
    assert_eq!(b.file_size, Some(0));

    let t = index_listing("src", &l).unwrap();
    assert_eq!(t.num_rows(), 2);
    assert_eq!(t.schema.len(), 8);
}

#[test]
fn index_fails_on_one_bad_time() {
    let mut l = Listing::new();
    l.receive_page(
        page(&[("ok", entry(None, Some(5))), ("bad", entry(None, Some(i64::MAX)))]),
        None,
    );
    match index_listing("src", &l) {
        Err(IndexError::TimestampRange(k)) => assert_eq!(k, "bad"),
        other => panic!("unexpected {:?}", other.map(|t| t.num_rows())),
    }
}
