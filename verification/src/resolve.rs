use vstd::prelude::*;

use soup::{NodeExt, QueryBuilderExt, Soup};

use crate::error::Error;
use crate::json::{json_get, spec_get, JsonValue};
use crate::urls::{rewrite_spec, rewrite_url, spec_proxy};

verus! {

/// The photo discriminant.
pub const MEDIA_TYPE_PHOTO: i64 = 1;

/// The video discriminant.
pub const MEDIA_TYPE_VIDEO: i64 = 2;

/// The carousel discriminant.
pub const MEDIA_TYPE_CAROUSEL: i64 = 8;

/// The item's media-type discriminant, when it carries an integer one.
pub open spec fn media_type_of(item: JsonValue) -> Option<i64> {
    match spec_get(item, "media_type"@) {
        Some(JsonValue::Int(t)) => Some(t),
        _ => None,
    }
}

/// The item's unique identifier, when it carries a string one.
pub open spec fn pk_of(item: JsonValue) -> Option<Seq<char>> {
    match spec_get(item, "pk"@) {
        Some(JsonValue::Str(s)) => Some(s@),
        _ => None,
    }
}

/// The item's carousel sub-items, when it carries them.
pub open spec fn carousel_of(item: JsonValue) -> Option<Seq<JsonValue>> {
    match spec_get(item, "carousel_media"@) {
        Some(JsonValue::Arr(cs)) => Some(cs@),
        _ => None,
    }
}

/// The URL of a photo item: the url field of candidate index 2 of the
/// item's image-candidate list -- the mirror's fixed mid-tier resolution.
pub open spec fn photo_url_of(item: JsonValue) -> Option<Seq<char>> {
    match spec_get(item, "image_versions2"@) {
        Some(iv) => match spec_get(iv, "candidates"@) {
            Some(JsonValue::Arr(cands)) => if cands@.len() >= 3 {
                match spec_get(cands@[2], "url"@) {
                    Some(JsonValue::Str(u)) => Some(u@),
                    _ => None,
                }
            } else {
                None
            },
            _ => None,
        },
        None => None,
    }
}

/// Selects candidate index 2 of the item's image-candidate list. A missing
/// field, a wrong kind or a list of fewer than three candidates is the
/// extraction error -- never a silent fall-back to another index.
pub fn photo_url<'a>(item: &'a JsonValue) -> (r: Result<&'a String, Error>)
    ensures
        match r {
            Ok(u) => photo_url_of(*item) == Some(u@),
            Err(e) => photo_url_of(*item) is None && e == Error::ExtractionError,
        },
{
    let iv = match json_get(item, "image_versions2") {
        Some(x) => x,
        None => {
            return Err(Error::ExtractionError);
        },
    };
    let cands = match json_get(iv, "candidates") {
        Some(JsonValue::Arr(c)) => c,
        _ => {
            return Err(Error::ExtractionError);
        },
    };
    if cands.len() < 3 {
        return Err(Error::ExtractionError);
    }
    match json_get(&cands[2], "url") {
        Some(JsonValue::Str(u)) => Ok(u),
        _ => Err(Error::ExtractionError),
    }
}

/// What downloading one feed item takes: either concrete media URLs, ready
/// to fetch in the given order, or -- for a video -- the pk whose detail
/// page must be fetched and scraped first.
#[derive(Debug)]
pub enum MediaPlan {
    Direct(Vec<String>),
    Detail(String),
}

/// Resolves one feed item by its media-type discriminant: a photo yields
/// its candidate-2 URL, a carousel the candidate-2 URL of every sub-item in
/// order, and a video the detail fetch it needs; every URL produced here is
/// proxy-rewritten. An unrecognized discriminant aborts the run rather than
/// being skipped.
pub fn resolve_item(item: &JsonValue, proxy: &Option<String>) -> (r: Result<MediaPlan, Error>)
    ensures
        media_type_of(*item) is None ==> r == Err::<MediaPlan, Error>(Error::ExtractionError),
        media_type_of(*item) == Some(MEDIA_TYPE_PHOTO) ==> (match photo_url_of(*item) {
            Some(u) => r matches Ok(MediaPlan::Direct(v)) && v@.len() == 1 && v@[0]@
                == rewrite_spec(spec_proxy(*proxy), u),
            None => r == Err::<MediaPlan, Error>(Error::ExtractionError),
        }),
        media_type_of(*item) == Some(MEDIA_TYPE_VIDEO) ==> (match pk_of(*item) {
            Some(pk) => r matches Ok(MediaPlan::Detail(p)) && p@ == pk,
            None => r == Err::<MediaPlan, Error>(Error::ExtractionError),
        }),
        media_type_of(*item) == Some(MEDIA_TYPE_CAROUSEL) ==> (match carousel_of(*item) {
            Some(cs) => if forall|q: int| 0 <= q < cs.len() ==> photo_url_of(#[trigger] cs[q]) is Some {
                r matches Ok(MediaPlan::Direct(v)) && v@.len() == cs.len() && forall|q: int|
                    0 <= q < cs.len() ==> (#[trigger] v@[q])@
                    == rewrite_spec(spec_proxy(*proxy), photo_url_of(cs[q]).unwrap())
            } else {
                r == Err::<MediaPlan, Error>(Error::ExtractionError)
            },
            None => r == Err::<MediaPlan, Error>(Error::ExtractionError),
        }),
        (match media_type_of(*item) {
            Some(t) => t != MEDIA_TYPE_PHOTO && t != MEDIA_TYPE_VIDEO && t != MEDIA_TYPE_CAROUSEL,
            None => false,
        }) ==> r == Err::<MediaPlan, Error>(Error::UnsupportedMediaTypeError),
{
    let t = match json_get(item, "media_type") {
        Some(JsonValue::Int(t)) => *t,
        _ => {
            return Err(Error::ExtractionError);
        },
    };
    if t == MEDIA_TYPE_PHOTO {
        match photo_url(item) {
            Ok(u) => {
                let mut v: Vec<String> = Vec::new();
                v.push(rewrite_url(proxy, u.as_str()));
                Ok(MediaPlan::Direct(v))
            },
            Err(e) => Err(e),
        }
    } else if t == MEDIA_TYPE_VIDEO {
        match json_get(item, "pk") {
            Some(JsonValue::Str(s)) => Ok(MediaPlan::Detail(s.clone())),
            _ => Err(Error::ExtractionError),
        }
    } else if t == MEDIA_TYPE_CAROUSEL {
        match json_get(item, "carousel_media") {
            Some(JsonValue::Arr(cs)) => {
                let mut v: Vec<String> = Vec::new();
                let mut j: usize = 0;
                while j < cs.len()
                    invariant
                        j <= cs@.len(),
                        media_type_of(*item) == Some(MEDIA_TYPE_CAROUSEL),
                        carousel_of(*item) == Some(cs@),
                        v@.len() == j,
                        forall|q: int| 0 <= q < j ==> photo_url_of(#[trigger] cs@[q]) is Some,
                        forall|q: int| 0 <= q < j ==> (#[trigger] v@[q])@
                            == rewrite_spec(spec_proxy(*proxy), photo_url_of(cs@[q]).unwrap()),
                    decreases cs@.len() - j,
                {
                    match photo_url(&cs[j]) {
                        Ok(u) => {
                            v.push(rewrite_url(proxy, u.as_str()));
                        },
                        Err(e) => {
                            return Err(e);
                        },
                    }
                    j = j + 1;
                }
                Ok(MediaPlan::Direct(v))
            },
            _ => Err(Error::ExtractionError),
        }
    } else {
        Err(Error::UnsupportedMediaTypeError)
    }
}

/// What scraping a video detail page yields: the src attribute of the first
/// <source> inside the document's first <video> element. Left unstated: it
/// names the result of the soup query, a function of the document text
/// alone.
pub uninterp spec fn video_source_src_of(html: Seq<char>) -> Option<Seq<char>>;

/// Relies on soup (Soup::new, tag("video"), tag("source"), find, get):
/// the src attribute of the first <source> element nested in the first
/// <video> element, determined by the document text alone; None when either
/// element or the attribute is absent.
#[verifier::external_body]
fn scrape_video_src(html: &str) -> (r: Option<String>)
    ensures
        r is Some <==> video_source_src_of(html@) is Some,
        r matches Some(s) ==> video_source_src_of(html@) == Some(s@),
{
    Soup::new(html).tag("video").find()?.tag("source").find()?.get("src")
}

/// Finishes resolving a video item from its fetched detail page: the fetch
/// must have come back 200 and the page must carry the video source, whose
/// URL is returned proxy-rewritten; anything else is the extraction error.
pub fn on_detail_response(status: u16, body: &str, proxy: &Option<String>) -> (r: Result<
    String,
    Error,
>)
    ensures
        status != 200 ==> r == Err::<String, Error>(Error::ExtractionError),
        status == 200 ==> match video_source_src_of(body@) {
            Some(src) => r matches Ok(u) && u@ == rewrite_spec(spec_proxy(*proxy), src),
            None => r == Err::<String, Error>(Error::ExtractionError),
        },
{
    if status != 200 {
        return Err(Error::ExtractionError);
    }
    match scrape_video_src(body) {
        Some(src) => Ok(rewrite_url(proxy, src.as_str())),
        None => Err(Error::ExtractionError),
    }
}

} // verus!
