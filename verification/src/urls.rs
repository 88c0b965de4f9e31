use vstd::prelude::*;

verus! {

/// The rewrite applied to every URL that crosses the pipeline boundary:
/// with a proxy base configured the target is routed through `<base>/proxy/`,
/// otherwise it is left unchanged.
pub open spec fn rewrite_spec(proxy: Option<Seq<char>>, url: Seq<char>) -> Seq<char> {
    match proxy {
        Some(base) => base + "/proxy/"@ + url,
        None => url,
    }
}

/// The view of an optional proxy base.
pub open spec fn spec_proxy(proxy: Option<String>) -> Option<Seq<char>> {
    match proxy {
        Some(base) => Some(base@),
        None => None,
    }
}

/// Routes `url` through the forwarding proxy, if one is configured.
pub fn rewrite_url(proxy: &Option<String>, url: &str) -> (r: String)
    ensures
        r@ == rewrite_spec(spec_proxy(*proxy), url@),
{
    match proxy {
        Some(base) => base.clone().concat("/proxy/").concat(url),
        None => url.to_owned(),
    }
}

/// Law: the rewrite distributes over extending the target's path: routing a
/// base URL and then appending to it reaches the same address as routing the
/// extended URL, so building an endpoint once at configuration time and
/// appending per-item parts later keeps the proxy guarantee.
pub proof fn lemma_rewrite_extends(proxy: Option<Seq<char>>, base: Seq<char>, rest: Seq<char>)
    ensures
        rewrite_spec(proxy, base) + rest == rewrite_spec(proxy, base + rest),
{
    match proxy {
        Some(b) => {
            assert((b + "/proxy/"@ + base) + rest =~= b + "/proxy/"@ + (base + rest));
        },
        None => {},
    }
}

} // verus!
