use vstd::prelude::*;

use crate::error::Error;
use crate::json::{entries_get, json_of, lemma_entries_get_push, parse_json, spec_get, JsonValue};

verus! {

/// One parsed load-more response: whether more pages follow, the cursor to
/// echo on the next request, and the page's feed items in arrival order.
#[derive(Debug)]
pub struct Page {
    pub more_available: bool,
    pub next_max_id: String,
    pub items: Vec<JsonValue>,
}

/// What a well-formed load-more body means: an object with a boolean
/// `more_available`, a string `next_max_id` and an array `items`.
pub open spec fn page_of(v: JsonValue) -> Option<Page> {
    match (
        spec_get(v, "more_available"@),
        spec_get(v, "next_max_id"@),
        spec_get(v, "items"@),
    ) {
        (
            Some(JsonValue::Bool(m)),
            Some(JsonValue::Str(id)),
            Some(JsonValue::Arr(items)),
        ) => Some(Page { more_available: m, next_max_id: id, items: items }),
        _ => None,
    }
}

/// Reads the three required fields out of one parsed load-more body; any
/// missing field or wrong kind is the malformed-response error.
pub fn interpret_page(v: JsonValue) -> (r: Result<Page, Error>)
    ensures
        match page_of(v) {
            Some(p) => r == Ok::<Page, Error>(p),
            None => r == Err::<Page, Error>(Error::PaginationError),
        },
{
    let ghost v0 = v;
    match v {
        JsonValue::Obj(mut entries) => {
            let ghost orig = entries@;
            let key_more = "more_available".to_owned();
            let key_id = "next_max_id".to_owned();
            let key_items = "items".to_owned();
            proof {
                reveal_strlit("more_available");
                reveal_strlit("next_max_id");
                reveal_strlit("items");
                assert(orig.take(0) =~= Seq::<(String, JsonValue)>::empty());
                assert(orig.skip(0) =~= orig);
                assert("more_available"@.len() == 14);
                assert("next_max_id"@.len() == 11);
                assert("items"@.len() == 5);
            }
            let total = entries.len();
            proof {
                assert(total == orig.len());
            }
            let mut slot_more: Option<JsonValue> = None;
            let mut slot_id: Option<JsonValue> = None;
            let mut slot_items: Option<JsonValue> = None;
            let mut i: usize = 0;
            while entries.len() > 0
                invariant
                    i <= orig.len() <= usize::MAX,
                    i + entries@.len() == orig.len(),
                    entries@ == orig.skip(i as int),
                    slot_more == entries_get(orig.take(i as int), "more_available"@),
                    slot_id == entries_get(orig.take(i as int), "next_max_id"@),
                    slot_items == entries_get(orig.take(i as int), "items"@),
                    key_more@ == "more_available"@,
                    key_id@ == "next_max_id"@,
                    key_items@ == "items"@,
                    "more_available"@ != "next_max_id"@,
                    "more_available"@ != "items"@,
                    "next_max_id"@ != "items"@,
                decreases entries@.len(),
            {
                proof {
                    assert(entries@[0] == orig[i as int]);
                    assert(entries@.remove(0) =~= orig.skip(i as int + 1));
                    assert(orig.take(i as int + 1) =~= orig.take(i as int).push(orig[i as int]));
                    lemma_entries_get_push(orig.take(i as int), orig[i as int], "more_available"@);
                    lemma_entries_get_push(orig.take(i as int), orig[i as int], "next_max_id"@);
                    lemma_entries_get_push(orig.take(i as int), orig[i as int], "items"@);
                }
                let (k, val) = entries.remove(0);
                if k == key_more {
                    if slot_more.is_none() {
                        slot_more = Some(val);
                    }
                } else if k == key_id {
                    if slot_id.is_none() {
                        slot_id = Some(val);
                    }
                } else if k == key_items {
                    if slot_items.is_none() {
                        slot_items = Some(val);
                    }
                }
                i = i + 1;
            }
            proof {
                assert(orig.take(i as int) =~= orig);
                assert(spec_get(v0, "more_available"@) == entries_get(orig, "more_available"@));
            }
            match (slot_more, slot_id, slot_items) {
                (
                    Some(JsonValue::Bool(m)),
                    Some(JsonValue::Str(id)),
                    Some(JsonValue::Arr(items)),
                ) => Ok(Page { more_available: m, next_max_id: id, items: items }),
                _ => Err(Error::PaginationError),
            }
        },
        _ => Err(Error::PaginationError),
    }
}

/// Turns one raw load-more answer into a page: a non-200 status or a body
/// that serde_json rejects, or that lacks the required fields, is the
/// pagination error that aborts the run.
pub fn page_from_response(status: u16, body: &str) -> (r: Result<Page, Error>)
    ensures
        status != 200 ==> r == Err::<Page, Error>(Error::PaginationError),
        status == 200 ==> match json_of(body@) {
            None => r == Err::<Page, Error>(Error::PaginationError),
            Some(v) => match page_of(v) {
                Some(p) => r == Ok::<Page, Error>(p),
                None => r == Err::<Page, Error>(Error::PaginationError),
            },
        },
{
    if status != 200 {
        return Err(Error::PaginationError);
    }
    match parse_json(body) {
        None => Err(Error::PaginationError),
        Some(v) => interpret_page(v),
    }
}

/// The items of a run of pages, concatenated in arrival order.
pub open spec fn flat_items(h: Seq<Page>) -> Seq<JsonValue>
    decreases h.len(),
{
    if h.len() == 0 {
        Seq::empty()
    } else {
        flat_items(h.drop_last()) + h.last().items@
    }
}

/// The cursor-driven pagination engine. The driving loop issues a request
/// exactly while `more` holds, echoing `cursor`, and folds each answer in
/// with `apply_page`; the anti-forgery token rides along on every request.
pub struct Paginator {
    pub token: String,
    pub cursor: String,
    pub more: bool,
    pub items: Vec<JsonValue>,
    pub history: Ghost<Seq<Page>>,
}

impl Paginator {
    /// The engine mirrors the last page received: its continue flag, its
    /// cursor (initially: continue, with an empty cursor), and the items of
    /// all pages so far in arrival order.
    pub open spec fn wf(self) -> bool {
        &&& self.more == if self.history@.len() == 0 {
            true
        } else {
            self.history@.last().more_available
        }
        &&& self.cursor@ == if self.history@.len() == 0 {
            Seq::<char>::empty()
        } else {
            self.history@.last().next_max_id@
        }
        &&& self.items@ == flat_items(self.history@)
    }

    /// A fresh engine: an empty-but-continuing cursor, so that the first
    /// request is always issued.
    pub fn new(token: String) -> (r: Self)
        ensures
            r.wf(),
            r.token == token,
            r.more,
            r.cursor@ == Seq::<char>::empty(),
            r.items@ == Seq::<JsonValue>::empty(),
            r.history@ == Seq::<Page>::empty(),
    {
        Paginator {
            token,
            cursor: String::new(),
            more: true,
            items: Vec::new(),
            history: Ghost(Seq::empty()),
        }
    }

    /// Folds one answered page into the engine: the items are appended in
    /// order, and flag and cursor move to what the page reported.
    pub fn apply_page(&mut self, page: Page)
        requires
            old(self).wf(),
        ensures
            final(self).wf(),
            final(self).token == old(self).token,
            final(self).more == page.more_available,
            final(self).cursor == page.next_max_id,
            final(self).items@ == old(self).items@ + page.items@,
            final(self).history@ == old(self).history@ + seq![page],
    {
        let ghost p0 = page;
        let mut page = page;
        self.more = page.more_available;
        self.items.append(&mut page.items);
        self.cursor = page.next_max_id;
        proof {
            self.history@ = self.history@ + seq![p0];
            assert(self.history@.drop_last() =~= old(self).history@);
            assert(self.history@.last() == p0);
        }
    }
}

/// The number of requests the engine issues when the server answers them,
/// in order, from `pages` (the answer to request number k being `pages[k]`):
/// the first request is always issued, and after each answer the loop goes
/// on exactly while that answer had `more_available` set.
pub open spec fn pages_requested(pages: Seq<Page>) -> nat
    decreases pages.len(),
{
    if pages.len() == 0 {
        0
    } else if pages[0].more_available {
        1 + pages_requested(pages.drop_first())
    } else {
        1
    }
}

/// Law: against a server whose answers flag `more_available` on the first
/// k pages and clear it on page k, the engine issues exactly k + 1 requests
/// -- one more than the count of continue-flagged pages -- and stops at the
/// first cleared flag.
pub proof fn lemma_pagination_request_count(pages: Seq<Page>, k: int)
    requires
        0 <= k < pages.len(),
        forall|i: int| 0 <= i < k ==> (#[trigger] pages[i]).more_available,
        !pages[k].more_available,
    ensures
        pages_requested(pages) == k + 1,
    decreases k,
{
    if k == 0 {
    } else {
        assert(pages[0].more_available);
        assert(forall|i: int| 0 <= i < k - 1 ==> (#[trigger] pages.drop_first()[i])
            == pages[i + 1]);
        assert(pages.drop_first()[k - 1] == pages[k]);
        lemma_pagination_request_count(pages.drop_first(), k - 1);
    }
}

} // verus!
