use std::collections::HashMap;

use atenda::config::Config;
use atenda::logger::{filter_from_usize, LevelFilter};
use atenda::modules::{DbError, Error};
use atenda::prerouting_modules::filters::FilterAction;
use atenda::util::command::CommandOutput;
use atenda::util::response::content_disposition;
use atenda::util::unsafe_utils::Sendable;
use atenda::modules::FssaModule;
use atenda::util::{clean_url, count_map, count_strings, trim_trailing_slash, AppError};

#[test]
fn count_map_counts_strings() {
    let m = count_map(vec!["ES".to_string(), "PT".to_string(), "ES".to_string()]);
    let mut want = HashMap::new();
    want.insert("ES".to_string(), 2usize);
    want.insert("PT".to_string(), 1usize);
    assert_eq!(m, want);
}

#[test]
fn count_map_empty_and_numbers() {
    assert!(count_map(Vec::<u64>::new()).is_empty());
    let m = count_map(vec![3u64, 3, 3, 1]);
    assert_eq!(m.get(&3), Some(&3));
    assert_eq!(m.get(&1), Some(&1));
    assert_eq!(m.len(), 2);
}

#[test]
fn clean_url_decodes_and_drops_one_slash() {
    assert_eq!(clean_url("/a%20b/"), "/a b");
    assert_eq!(clean_url("/x//"), "/x/");
    assert_eq!(clean_url("/plain"), "/plain");
    assert_eq!(clean_url("/"), "");
    assert_eq!(clean_url(""), "");
    assert_eq!(clean_url("/%2F"), "/");
}

#[test]
fn app_error_statuses() {
    assert!(matches!(AppError::server_error(), AppError::StatusCode(500)));
    assert!(matches!(AppError::bad_request(), AppError::StatusCode(400)));
    assert!(matches!(AppError::forbidden(), AppError::StatusCode(403)));
    assert!(matches!(AppError::not_found(), AppError::StatusCode(404)));
    assert_eq!(AppError::StatusCode(418).status_page(), 418);
    assert_eq!(AppError::Dev("oops").status_page(), 500);
    assert_eq!(AppError::Generic("io".to_string()).status_page(), 500);
}

#[test]
fn app_error_logging() {
    assert!(!AppError::StatusCode(404).is_logged());
    assert!(AppError::Dev("x").is_logged());
    assert!(AppError::Generic("x".to_string()).is_logged());
}

#[test]
fn app_error_from_module_error() {
    let db: AppError = Error::DbError(DbError { code: Some(1), message: None }).into();
    assert!(matches!(db, AppError::StatusCode(500)));
    let input: AppError = Error::InvalidInput.into();
    assert!(matches!(input, AppError::StatusCode(400)));
    let op: AppError = Error::InvalidOperation.into();
    assert!(matches!(op, AppError::StatusCode(400)));
}

#[test]
fn log_levels() {
    assert_eq!(filter_from_usize(0), Some(LevelFilter::Off));
    assert_eq!(filter_from_usize(1), Some(LevelFilter::Error));
    assert_eq!(filter_from_usize(2), Some(LevelFilter::Warn));
    assert_eq!(filter_from_usize(3), Some(LevelFilter::Info));
    assert_eq!(filter_from_usize(4), Some(LevelFilter::Debug));
    assert_eq!(filter_from_usize(5), Some(LevelFilter::Trace));
    assert_eq!(filter_from_usize(6), None);
    assert_eq!(filter_from_usize(255), None);
}

#[test]
fn command_output_reads_bytes_as_text() {
    let o = CommandOutput::new("exit status: 0".to_string(), b"warn", &[b'o', 0xff, b'k']);
    assert_eq!(o.status(), "exit status: 0");
    assert_eq!(o.stderr(), "warn");
    assert_eq!(o.stdout(), "o\u{FFFD}k");
}

#[test]
fn content_disposition_names_file() {
    assert_eq!(content_disposition("a.jar"), "inline; filename=\"a.jar\"");
}

#[test]
fn filter_actions_absorbed() {
    let mut mods: Vec<u8> = vec![];
    assert_eq!(FilterAction::<&str, u8>::Continue.absorb(&mut mods), None);
    assert_eq!(FilterAction::<&str, u8>::Modify(7).absorb(&mut mods), None);
    assert_eq!(mods, vec![7]);
    assert_eq!(FilterAction::<&str, u8>::Return("stop").absorb(&mut mods), Some("stop"));
    assert_eq!(mods, vec![7]);
}

#[test]
fn config_getters() {
    let c = Config { port: 8080, log_level: 3, console: true, origin: "http://h".to_string() };
    assert_eq!(c.port(), 8080);
    assert_eq!(c.log_level(), 3);
    assert!(c.console());
}

#[test]
fn sendable_derefs() {
    let s = Sendable(5u32);
    assert_eq!(*s, 5);
}

#[test]
fn trim_trailing_slash_drops_one_slash() {
    assert_eq!(trim_trailing_slash("/docs/".to_string()), "/docs");
    assert_eq!(trim_trailing_slash("/docs//".to_string()), "/docs/");
    assert_eq!(trim_trailing_slash("/docs".to_string()), "/docs");
    assert_eq!(trim_trailing_slash("/".to_string()), "");
    assert_eq!(trim_trailing_slash(String::new()), "");
    assert_eq!(trim_trailing_slash("/ñ/".to_string()), "/ñ");
}

#[test]
fn clean_url_of_plain_path_only_trims() {
    assert_eq!(clean_url("/docs/"), "/docs");
    assert_eq!(clean_url("/api/fssa/mod/x.jar"), "/api/fssa/mod/x.jar");
}

#[test]
fn clean_url_decodes_utf8_and_keeps_bad_escapes() {
    assert_eq!(clean_url("/espa%C3%A7o/"), "/espaço");
    assert_eq!(clean_url("/100%"), "/100%");
    assert_eq!(clean_url("/%zz"), "/%zz");
    assert_eq!(clean_url("/%ff"), "/\u{FFFD}");
}

fn mod_link(name: &str) -> String {
    let m = FssaModule::new("", vec![], vec![name.to_string()], vec![], vec![]);
    m.list().mods[0].download.clone()
}

#[test]
fn mod_links_keep_plain_names() {
    assert_eq!(mod_link("mod.jar"), "/api/fssa/mod/mod.jar");
    assert_eq!(mod_link("a-b_c~d"), "/api/fssa/mod/a-b_c~d");
}

#[test]
fn mod_links_escape_path_bytes() {
    assert_eq!(mod_link("a b#c?d"), "/api/fssa/mod/a%20b%23c%3Fd");
    assert_eq!(mod_link("ç"), "/api/fssa/mod/%C3%A7");
    assert_eq!(mod_link("{^}`\"<>"), "/api/fssa/mod/%7B%5E%7D%60%22%3C%3E");
    assert_eq!(mod_link("100%"), "/api/fssa/mod/100%");
}

#[test]
fn mod_link_cleans_back_to_its_name() {
    for s in ["mod.jar", "a b#c", "espaço ñ", "{x}"] {
        assert_eq!(clean_url(&mod_link(s)), format!("/api/fssa/mod/{}", s));
    }
}

#[test]
fn level_filters_are_ordered() {
    assert!(LevelFilter::Off < LevelFilter::Error);
    assert!(LevelFilter::Error < LevelFilter::Warn);
    assert!(LevelFilter::Warn < LevelFilter::Info);
    assert!(LevelFilter::Info < LevelFilter::Debug);
    assert!(LevelFilter::Debug < LevelFilter::Trace);
    assert_eq!(LevelFilter::Trace.max(LevelFilter::Off), LevelFilter::Trace);
}

#[test]
fn app_error_text_is_one_word() {
    assert_eq!(AppError::not_found().to_string(), "PETOU");
    assert_eq!(AppError::Dev("x").to_string(), "PETOU");
    assert_eq!(AppError::Generic("io".to_string()).to_string(), "PETOU");
}

#[test]
fn count_strings_counts_each_text_once() {
    let items = vec!["ES".to_string(), "PT".to_string(), "ES".to_string(), "FR".to_string(), "ES".to_string()];
    let got: HashMap<String, usize> = count_strings(&items).into_iter().collect();
    let mut want = HashMap::new();
    want.insert("ES".to_string(), 3usize);
    want.insert("PT".to_string(), 1usize);
    want.insert("FR".to_string(), 1usize);
    assert_eq!(got, want);
    assert_eq!(count_strings(&items).len(), 3);
    assert!(count_strings(&Vec::new()).is_empty());
}

#[test]
fn level_filter_ranks_follow_the_order() {
    let all = [
        LevelFilter::Off,
        LevelFilter::Error,
        LevelFilter::Warn,
        LevelFilter::Info,
        LevelFilter::Debug,
        LevelFilter::Trace,
    ];
    for (i, f) in all.iter().enumerate() {
        assert_eq!(f.rank() as usize, i);
        assert_eq!(filter_from_usize(f.rank()), Some(*f));
        for (j, g) in all.iter().enumerate() {
            assert_eq!(f.partial_cmp(g), i.partial_cmp(&j));
            assert_eq!(f.cmp(g), i.cmp(&j));
        }
    }
    assert_eq!(filter_from_usize(6), None);
}
