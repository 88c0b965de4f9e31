use rbot::downloader::Builder;
use rbot::error::Error;
use rbot::json::JsonValue;
use rbot::page::{page_from_response, Paginator};
use rbot::resolve::{on_detail_response, resolve_item, MediaPlan};
use rbot::session::on_profile_response;

fn photo_item(urls: &[&str]) -> JsonValue {
    JsonValue::Obj(vec![
        ("media_type".to_string(), JsonValue::Int(1)),
        (
            "image_versions2".to_string(),
            JsonValue::Obj(vec![(
                "candidates".to_string(),
                JsonValue::Arr(
                    urls.iter()
                        .map(|u| {
                            JsonValue::Obj(vec![(
                                "url".to_string(),
                                JsonValue::Str(u.to_string()),
                            )])
                        })
                        .collect(),
                ),
            )]),
        ),
    ])
}

fn carousel_item(children: Vec<JsonValue>) -> JsonValue {
    JsonValue::Obj(vec![
        ("media_type".to_string(), JsonValue::Int(8)),
        ("carousel_media".to_string(), JsonValue::Arr(children)),
    ])
}

fn strip_type(child: JsonValue) -> JsonValue {
    // carousel children carry no media_type of their own in these fixtures
    match child {
        JsonValue::Obj(entries) => JsonValue::Obj(
            entries.into_iter().filter(|(k, _)| k != "media_type").collect(),
        ),
        other => other,
    }
}

#[test]
fn profile_non_200_is_session_error() {
    // scenario E: a 404 on the profile fetch aborts the run before any
    // pagination request is ever issued
    let mut pagination_requests = 0;
    match on_profile_response(404, "<html><input value=\"tok\"></html>") {
        Ok(token) => {
            let d = Builder::new("alice".to_string()).build();
            let pag = Paginator::new(token);
            if pag.more {
                let _ = d.page_request(&pag);
                pagination_requests += 1;
            }
        }
        Err(e) => assert_eq!(e, Error::SessionError),
    }
    assert_eq!(pagination_requests, 0);
}

#[test]
fn profile_token_is_first_input_value() {
    let html = "<html><body><form><input value=\"csrf-123\"><input value=\"other\"></form></body></html>";
    let r = on_profile_response(200, html);
    assert_eq!(r.unwrap(), "csrf-123");
}

#[test]
fn profile_without_input_is_session_error() {
    let r = on_profile_response(200, "<html><body><p>nothing here</p></body></html>");
    assert_eq!(r.unwrap_err(), Error::SessionError);
}

#[test]
fn single_empty_page_makes_one_request() {
    // scenario A: one all-done page: one request, one raw capture, no media
    let d = Builder::new("alice".to_string()).build();
    let mut pag = Paginator::new("tok".to_string());
    let responses = vec!["{\"more_available\": false, \"next_max_id\": \"\", \"items\": []}"];
    let mut requests = 0;
    let mut raw_captures: Vec<String> = Vec::new();
    while pag.more {
        let req = d.page_request(&pag);
        assert_eq!(req.url, "https://www.mystalk.net/ajax/load-more/");
        assert_eq!(req.token, "tok");
        assert_eq!(req.name, "alice");
        let body = responses[requests];
        requests += 1;
        raw_captures.push(body.to_string());
        let page = page_from_response(200, body).unwrap();
        pag.apply_page(page);
    }
    assert_eq!(requests, 1);
    assert_eq!(raw_captures.len(), 1);
    assert_eq!(pag.items.len(), 0);
}

#[test]
fn pagination_stops_on_first_false_and_echoes_cursor() {
    // two continue-flagged pages, then a stop: three requests in all
    let d = Builder::new("bob".to_string()).build();
    let mut pag = Paginator::new("tok".to_string());
    let responses = vec![
        "{\"more_available\": true, \"next_max_id\": \"c1\", \"items\": [1, 2]}",
        "{\"more_available\": true, \"next_max_id\": \"c2\", \"items\": [3]}",
        "{\"more_available\": false, \"next_max_id\": \"\", \"items\": []}",
    ];
    let mut cursors_sent: Vec<String> = Vec::new();
    let mut requests = 0;
    while pag.more {
        let req = d.page_request(&pag);
        cursors_sent.push(req.page);
        let body = responses[requests];
        requests += 1;
        let page = page_from_response(200, body).unwrap();
        pag.apply_page(page);
    }
    assert_eq!(requests, 3);
    assert_eq!(cursors_sent, vec!["".to_string(), "c1".to_string(), "c2".to_string()]);
    assert_eq!(pag.items.len(), 3);
}

#[test]
fn page_non_200_is_pagination_error() {
    let r = page_from_response(500, "{\"more_available\": false, \"next_max_id\": \"\", \"items\": []}");
    assert_eq!(r.unwrap_err(), Error::PaginationError);
}

#[test]
fn page_malformed_json_is_pagination_error() {
    let r = page_from_response(200, "this is not json");
    assert_eq!(r.unwrap_err(), Error::PaginationError);
}

#[test]
fn page_missing_field_is_pagination_error() {
    let r = page_from_response(200, "{\"next_max_id\": \"\", \"items\": []}");
    assert_eq!(r.unwrap_err(), Error::PaginationError);
}

#[test]
fn page_wrong_kind_is_pagination_error() {
    let r = page_from_response(200, "{\"more_available\": \"yes\", \"next_max_id\": \"\", \"items\": []}");
    assert_eq!(r.unwrap_err(), Error::PaginationError);
}

#[test]
fn photo_resolution_picks_candidate_index_2() {
    // scenario B: one photo item, three candidates: one download, candidate 2
    let body = "{\"more_available\": false, \"next_max_id\": \"\", \"items\": [{\"media_type\": 1, \"image_versions2\": {\"candidates\": [{\"url\": \"http://h/low.jpg\"}, {\"url\": \"http://h/mid.jpg\"}, {\"url\": \"http://h/full.jpg\"}]}}]}";
    let page = page_from_response(200, body).unwrap();
    assert_eq!(page.items.len(), 1);
    let mut downloads: Vec<String> = Vec::new();
    for item in page.items.iter() {
        match resolve_item(item, &None).unwrap() {
            MediaPlan::Direct(urls) => downloads.extend(urls),
            MediaPlan::Detail(_) => panic!("photo item needs no detail fetch"),
        }
    }
    assert_eq!(downloads, vec!["http://h/full.jpg".to_string()]);
}

#[test]
fn photo_with_short_candidate_list_is_extraction_error() {
    let item = photo_item(&["http://h/only.jpg", "http://h/two.jpg"]);
    let r = resolve_item(&item, &None);
    assert_eq!(r.unwrap_err(), Error::ExtractionError);
}

#[test]
fn photo_without_candidates_is_extraction_error() {
    let item = JsonValue::Obj(vec![("media_type".to_string(), JsonValue::Int(1))]);
    let r = resolve_item(&item, &None);
    assert_eq!(r.unwrap_err(), Error::ExtractionError);
}

#[test]
fn photo_url_is_proxy_rewritten() {
    let item = photo_item(&["http://h/a.jpg", "http://h/b.jpg", "http://h/c.jpg"]);
    let proxy = Some("http://proxy.local".to_string());
    match resolve_item(&item, &proxy).unwrap() {
        MediaPlan::Direct(urls) => {
            assert_eq!(urls, vec!["http://proxy.local/proxy/http://h/c.jpg".to_string()]);
        }
        MediaPlan::Detail(_) => panic!("photo item needs no detail fetch"),
    }
}

#[test]
fn carousel_yields_one_reference_per_child_in_order() {
    // scenario C: a carousel of two photo children: exactly two downloads
    let children = vec![
        strip_type(photo_item(&["http://h/a0.jpg", "http://h/a1.jpg", "http://h/a2.jpg"])),
        strip_type(photo_item(&["http://h/b0.jpg", "http://h/b1.jpg", "http://h/b2.jpg"])),
    ];
    let item = carousel_item(children);
    match resolve_item(&item, &None).unwrap() {
        MediaPlan::Direct(urls) => {
            assert_eq!(urls, vec!["http://h/a2.jpg".to_string(), "http://h/b2.jpg".to_string()]);
        }
        MediaPlan::Detail(_) => panic!("carousel needs no detail fetch"),
    }
}

#[test]
fn carousel_with_failing_child_is_extraction_error() {
    let children = vec![
        strip_type(photo_item(&["http://h/a0.jpg", "http://h/a1.jpg", "http://h/a2.jpg"])),
        strip_type(photo_item(&["http://h/b0.jpg"])),
    ];
    let item = carousel_item(children);
    assert_eq!(resolve_item(&item, &None).unwrap_err(), Error::ExtractionError);
}

#[test]
fn unsupported_media_type_aborts_after_earlier_items() {
    // scenario D: photo, then a discriminant-3 item: the first download
    // stands, the run stops at the stranger
    let items = vec![
        photo_item(&["http://h/p0.jpg", "http://h/p1.jpg", "http://h/p2.jpg"]),
        JsonValue::Obj(vec![("media_type".to_string(), JsonValue::Int(3))]),
        photo_item(&["http://h/q0.jpg", "http://h/q1.jpg", "http://h/q2.jpg"]),
    ];
    let mut downloads: Vec<String> = Vec::new();
    let mut failure: Option<Error> = None;
    for item in items.iter() {
        match resolve_item(item, &None) {
            Ok(MediaPlan::Direct(urls)) => downloads.extend(urls),
            Ok(MediaPlan::Detail(_)) => panic!("no video in this scenario"),
            Err(e) => {
                failure = Some(e);
                break;
            }
        }
    }
    assert_eq!(failure, Some(Error::UnsupportedMediaTypeError));
    assert_eq!(downloads, vec!["http://h/p2.jpg".to_string()]);
}

#[test]
fn video_item_asks_for_its_detail_page() {
    let item = JsonValue::Obj(vec![
        ("media_type".to_string(), JsonValue::Int(2)),
        ("pk".to_string(), JsonValue::Str("12345".to_string())),
    ]);
    match resolve_item(&item, &None).unwrap() {
        MediaPlan::Detail(pk) => assert_eq!(pk, "12345"),
        MediaPlan::Direct(_) => panic!("video resolution needs the detail page"),
    }
}

#[test]
fn video_without_pk_is_extraction_error() {
    let item = JsonValue::Obj(vec![("media_type".to_string(), JsonValue::Int(2))]);
    assert_eq!(resolve_item(&item, &None).unwrap_err(), Error::ExtractionError);
}

#[test]
fn detail_page_yields_video_source() {
    let html = "<html><body><video controls><source src=\"http://h/clip.mp4\"></video></body></html>";
    let r = on_detail_response(200, html, &None);
    assert_eq!(r.unwrap(), "http://h/clip.mp4");
}

#[test]
fn detail_page_source_is_proxy_rewritten() {
    let html = "<html><video><source src=\"http://h/clip.mp4\"></video></html>";
    let proxy = Some("http://p".to_string());
    let r = on_detail_response(200, html, &proxy);
    assert_eq!(r.unwrap(), "http://p/proxy/http://h/clip.mp4");
}

#[test]
fn detail_page_without_video_is_extraction_error() {
    let r = on_detail_response(200, "<html><body>no players</body></html>", &None);
    assert_eq!(r.unwrap_err(), Error::ExtractionError);
}

#[test]
fn detail_non_200_is_extraction_error() {
    let r = on_detail_response(503, "<html><video><source src=\"x\"></video></html>", &None);
    assert_eq!(r.unwrap_err(), Error::ExtractionError);
}

#[test]
fn missing_media_type_is_extraction_error() {
    let item = JsonValue::Obj(vec![("pk".to_string(), JsonValue::Str("1".to_string()))]);
    assert_eq!(resolve_item(&item, &None).unwrap_err(), Error::ExtractionError);
}
