use rbot::downloader::Builder;
use rbot::error::Error;
use rbot::persist::{
    media_basename, media_dir, media_file_path, now_raw_file_name, on_media_response, raw_dir,
    raw_file_name, raw_file_path, raw_name_from_parts, Timestamp,
};
use rbot::urls::rewrite_url;

fn ts(year: u32, month: u32, day: u32, hour: u32, minute: u32, second: u32, micro: u32) -> Timestamp {
    Timestamp { year, month, day, hour, minute, second, micro }
}

#[test]
fn rewrite_prefixes_through_proxy() {
    let proxy = Some("http://p.example".to_string());
    let r = rewrite_url(&proxy, "https://t.example/a/b");
    assert_eq!(r, "http://p.example/proxy/https://t.example/a/b");
}

#[test]
fn rewrite_without_proxy_is_identity() {
    let r = rewrite_url(&None, "https://t.example/a/b");
    assert_eq!(r, "https://t.example/a/b");
}

#[test]
fn rewrite_is_deterministic_per_call() {
    let proxy = Some("http://p".to_string());
    let a = rewrite_url(&proxy, "https://t/x");
    let b = rewrite_url(&proxy, "https://t/x");
    assert_eq!(a, b);
}

#[test]
fn build_routes_all_three_endpoints_identically() {
    let d = Builder::new("alice".to_string()).http_proxy("http://p").build();
    assert_eq!(d.profile_url, "http://p/proxy/https://www.mystalk.net/profile/alice/");
    assert_eq!(d.load_more_url, "http://p/proxy/https://www.mystalk.net/ajax/load-more/");
    assert_eq!(d.detail_url, "http://p/proxy/https://www.mystalk.net/detail/");
}

#[test]
fn build_without_proxy_uses_bare_endpoints() {
    let d = Builder::new("alice".to_string()).build();
    assert_eq!(d.profile_url, "https://www.mystalk.net/profile/alice/");
    assert_eq!(d.load_more_url, "https://www.mystalk.net/ajax/load-more/");
    assert_eq!(d.detail_url, "https://www.mystalk.net/detail/");
    assert_eq!(d.save_path, "");
}

#[test]
fn detail_request_url_appends_pk_and_slash() {
    let d = Builder::new("alice".to_string()).http_proxy("http://p").build();
    assert_eq!(
        d.detail_request_url("987"),
        "http://p/proxy/https://www.mystalk.net/detail/987/"
    );
}

#[test]
fn raw_file_name_is_zero_padded_stamp() {
    let t = ts(2024, 1, 2, 3, 4, 5, 6);
    assert_eq!(raw_file_name(&t), "20240102030405000006_loadmore.json");
}

#[test]
fn raw_file_name_full_fields() {
    let t = ts(1999, 12, 31, 23, 59, 59, 999_999);
    assert_eq!(raw_file_name(&t), "19991231235959999999_loadmore.json");
}

#[test]
fn raw_file_names_increase_with_the_clock() {
    let earlier = raw_file_name(&ts(2024, 6, 30, 12, 0, 0, 999_999));
    let later = raw_file_name(&ts(2024, 6, 30, 12, 0, 1, 0));
    assert!(earlier < later);
    assert_ne!(earlier, later);
}

#[test]
fn raw_file_names_differ_by_one_microsecond() {
    let a = raw_file_name(&ts(2024, 6, 30, 12, 0, 0, 500_000));
    let b = raw_file_name(&ts(2024, 6, 30, 12, 0, 0, 500_001));
    assert!(a < b);
    assert_ne!(a, b);
}

#[test]
fn raw_name_from_parts_stamps_the_given_reading() {
    let r = raw_name_from_parts(2024, 1, 2, 3, 4, 5, 6);
    assert_eq!(r.unwrap(), "20240102030405000006_loadmore.json");
}

#[test]
fn raw_name_from_parts_rejects_a_five_digit_year() {
    assert!(raw_name_from_parts(10_000, 1, 2, 3, 4, 5, 6).is_none());
    assert!(raw_name_from_parts(-1, 1, 2, 3, 4, 5, 6).is_none());
}

#[test]
fn raw_name_from_parts_rejects_a_leap_second_reading() {
    assert!(raw_name_from_parts(2024, 6, 30, 23, 59, 59, 1_500_000).is_none());
}

#[test]
fn now_raw_file_name_has_the_stamp_shape() {
    let name = now_raw_file_name().expect("the test clock is within the name shape");
    assert_eq!(name.len(), 34);
    assert!(name.ends_with("_loadmore.json"));
    assert!(name[..20].chars().all(|c| c.is_ascii_digit()));
}

#[test]
fn paths_join_under_the_output_root() {
    assert_eq!(raw_dir("out"), "out/instagram/raw");
    assert_eq!(media_dir("out"), "out/instagram/media");
    assert_eq!(raw_file_path("out", "x.json"), "out/instagram/raw/x.json");
    assert_eq!(media_file_path("out", "pic.jpg"), "out/instagram/media/pic.jpg");
}

#[test]
fn empty_root_keeps_paths_relative() {
    assert_eq!(raw_dir(""), "instagram/raw");
    assert_eq!(raw_file_path("", "x.json"), "instagram/raw/x.json");
}

#[test]
fn media_basename_is_final_path_segment() {
    let r = media_basename("https://cdn.example.com/a/b/pic.jpg");
    assert_eq!(r.unwrap(), "pic.jpg");
}

#[test]
fn media_basename_ignores_query() {
    let r = media_basename("https://cdn.example.com/v/clip.mp4?sig=abc");
    assert_eq!(r.unwrap(), "clip.mp4");
}

#[test]
fn media_basename_of_invalid_url_is_extraction_error() {
    let r = media_basename("definitely not a url");
    assert_eq!(r.unwrap_err(), Error::ExtractionError);
}

#[test]
fn media_download_needs_200() {
    assert!(on_media_response(200).is_ok());
    assert_eq!(on_media_response(404).unwrap_err(), Error::IoError);
}
