use tharsis::config::{choose_download_dir, data_dir, database_url, ping, BUSY_TIMEOUT_MS, MAX_REDIRECTS, USER_AGENT};
use tharsis::text::Platform;
use tharsis::status::{chunk_status_error, head_failed_text, head_rejected_text, is_success};
use tharsis::urls::{file_name_from_path, file_name_from_url};

#[test]
fn file_name_is_the_last_path_segment() {
    assert_eq!(file_name_from_path("/a/b/c.zip"), "c.zip");
    assert_eq!(file_name_from_path("/c.zip"), "c.zip");
    assert_eq!(file_name_from_path("/"), "download");
    assert_eq!(file_name_from_path("/a/"), "download");
    assert_eq!(file_name_from_path(""), "download");
    assert_eq!(file_name_from_path("x/y"), "download");
}

#[test]
fn file_name_from_url_uses_the_parsed_path() {
    assert_eq!(
        file_name_from_url("https://example.com/files/report.pdf?x=1#top"),
        Ok("report.pdf".to_string())
    );
    assert_eq!(file_name_from_url("https://example.com"), Ok("download".to_string()));
    assert_eq!(
        file_name_from_url("https://example.com/countries/viet nam"),
        Ok("viet%20nam".to_string())
    );
    assert_eq!(file_name_from_url("mailto:someone@example.com"), Ok("download".to_string()));
    assert_eq!(
        file_name_from_url("not a url"),
        Err("relative URL without a base".to_string())
    );
}

#[test]
fn status_texts() {
    assert!(is_success(200));
    assert!(is_success(299));
    assert!(!is_success(199));
    assert!(!is_success(300));
    assert_eq!(head_rejected_text(404), "Server rejected HEAD with HTTP 404");
    assert_eq!(head_failed_text("timed out"), "HEAD request failed: timed out");
    assert_eq!(chunk_status_error(206), None);
    assert_eq!(chunk_status_error(404), Some("HTTP 404 — Not Found".to_string()));
    assert_eq!(chunk_status_error(416), Some("HTTP 416 — Range Not Satisfiable".to_string()));
    assert_eq!(chunk_status_error(599), Some("HTTP 599 — error".to_string()));
    assert_eq!(chunk_status_error(42), Some("HTTP 42 — error".to_string()));
}

#[test]
fn database_location() {
    let some = |s: &'static str| Some(s);
    assert_eq!(
        data_dir(Platform::Linux, None, some("/home/u"), some("/w")),
        Some("/home/u/.local/share/tharsis".to_string())
    );
    assert_eq!(
        data_dir(Platform::MacOs, None, some("/Users/u"), some("/w")),
        Some("/Users/u/Library/Application Support/tharsis".to_string())
    );
    assert_eq!(
        data_dir(Platform::Linux, some("/appdata"), some("/home/u"), None),
        Some("/appdata/tharsis".to_string())
    );
    assert_eq!(
        data_dir(Platform::Linux, None, some("rel"), some("/w")),
        Some("/w/rel/.local/share/tharsis".to_string())
    );
    assert_eq!(data_dir(Platform::Linux, None, None, some("/w")), Some("/w/tharsis".to_string()));
    assert_eq!(data_dir(Platform::Linux, None, None, None), None);
    assert_eq!(data_dir(Platform::Linux, None, some("rel"), None), None);
    assert_eq!(data_dir(Platform::Linux, None, None, some("rel")), None);
    assert_eq!(
        database_url(Platform::Linux, "/home/u/.local/share/tharsis"),
        "sqlite:/home/u/.local/share/tharsis/tharsis.db"
    );
}

#[test]
fn database_location_on_windows() {
    let some = |s: &'static str| Some(s);
    let w = Platform::Windows;
    assert_eq!(
        data_dir(w, some("C:\\Users\\u\\AppData\\Roaming"), some("C:\\Users\\u"), some("C:\\work")),
        Some("C:\\Users\\u\\AppData\\Roaming\\tharsis".to_string())
    );
    assert_eq!(
        data_dir(w, None, some("C:\\Users\\u"), some("C:\\work")),
        Some("C:\\Users\\u\\AppData\\Roaming\\tharsis".to_string())
    );
    assert_eq!(data_dir(w, None, None, some("C:\\work")), Some("C:\\work\\tharsis".to_string()));
    assert_eq!(data_dir(w, some("rel"), None, some("D:\\w")), Some("D:\\w\\rel\\tharsis".to_string()));
    assert_eq!(data_dir(w, None, None, None), None);
    assert_eq!(
        database_url(w, "C:\\Users\\u\\AppData\\Roaming\\tharsis"),
        "sqlite:C:\\Users\\u\\AppData\\Roaming\\tharsis\\tharsis.db"
    );
}

#[test]
fn download_directory_fallbacks() {
    assert_eq!(choose_download_dir(Some("/d".to_string()), Some("/h".to_string())), "/d");
    assert_eq!(choose_download_dir(None, Some("/h".to_string())), "/h");
    assert_eq!(choose_download_dir(None, None), ".");
}

#[test]
fn fixed_settings() {
    assert_eq!(ping(), "pong");
    assert_eq!(MAX_REDIRECTS, 10);
    assert_eq!(BUSY_TIMEOUT_MS, 5000);
    assert!(USER_AGENT.starts_with("Mozilla/5.0 (Windows NT 10.0; Win64; x64) AppleWebKit"));
    assert!(USER_AGENT.ends_with("Chrome/124.0.0.0 Safari/537.36"));
}
