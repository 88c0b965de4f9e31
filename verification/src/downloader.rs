use vstd::prelude::*;

use crate::page::Paginator;
use crate::urls::{lemma_rewrite_extends, rewrite_spec, rewrite_url, spec_proxy};

verus! {

/// The mirror's profile-page base URL.
pub open spec fn profile_base() -> Seq<char> {
    "https://www.mystalk.net/profile/"@
}

/// The mirror's load-more endpoint.
pub open spec fn load_more_base() -> Seq<char> {
    "https://www.mystalk.net/ajax/load-more/"@
}

/// The mirror's video detail-page base URL.
pub open spec fn detail_base() -> Seq<char> {
    "https://www.mystalk.net/detail/"@
}

fn profile_base_str() -> (r: &'static str)
    ensures
        r@ == profile_base(),
{
    "https://www.mystalk.net/profile/"
}

fn load_more_base_str() -> (r: &'static str)
    ensures
        r@ == load_more_base(),
{
    "https://www.mystalk.net/ajax/load-more/"
}

fn detail_base_str() -> (r: &'static str)
    ensures
        r@ == detail_base(),
{
    "https://www.mystalk.net/detail/"
}

/// Gathers a run's configuration: the profile to download, an optional
/// forwarding proxy, and an optional output root.
pub struct Builder {
    pub user: String,
    pub http_proxy: Option<String>,
    pub save_path: Option<String>,
}

impl Builder {
    pub fn new(user: String) -> (r: Self)
        ensures
            r.user == user,
            r.http_proxy is None,
            r.save_path is None,
    {
        Builder { user, http_proxy: None, save_path: None }
    }

    /// Routes every request and every resolved media URL through this proxy
    /// base.
    pub fn http_proxy(self, http_proxy: &str) -> (r: Self)
        ensures
            r.user == self.user,
            r.http_proxy matches Some(p) && p@ == http_proxy@,
            r.save_path == self.save_path,
    {
        Builder {
            user: self.user,
            http_proxy: Some(http_proxy.to_owned()),
            save_path: self.save_path,
        }
    }

    /// Roots the output directories here instead of the current directory.
    pub fn save_path(self, path: &str) -> (r: Self)
        ensures
            r.user == self.user,
            r.http_proxy == self.http_proxy,
            r.save_path matches Some(p) && p@ == path@,
    {
        Builder {
            user: self.user,
            http_proxy: self.http_proxy,
            save_path: Some(path.to_owned()),
        }
    }

    /// Fixes the three endpoint URLs once, each routed through the proxy
    /// when one is configured: the user's profile page, the load-more
    /// endpoint, and the video detail base.
    pub fn build(self) -> (d: Downloader)
        ensures
            d.user == self.user,
            d.http_proxy == self.http_proxy,
            d.save_path@ == match self.save_path {
                Some(p) => p@,
                None => Seq::<char>::empty(),
            },
            d.profile_url@ == rewrite_spec(
                spec_proxy(self.http_proxy),
                profile_base() + self.user@ + "/"@,
            ),
            d.load_more_url@ == rewrite_spec(spec_proxy(self.http_proxy), load_more_base()),
            d.detail_url@ == rewrite_spec(spec_proxy(self.http_proxy), detail_base()),
    {
        let save_path = match self.save_path {
            Some(p) => p,
            None => String::new(),
        };
        let profile_target = profile_base_str().to_owned().concat(self.user.as_str()).concat("/");
        proof {
            assert(profile_target@ =~= profile_base() + self.user@ + "/"@);
        }
        let profile_url = rewrite_url(&self.http_proxy, profile_target.as_str());
        let load_more_url = rewrite_url(&self.http_proxy, load_more_base_str());
        let detail_url = rewrite_url(&self.http_proxy, detail_base_str());
        Downloader {
            user: self.user,
            http_proxy: self.http_proxy,
            save_path,
            profile_url,
            load_more_url,
            detail_url,
        }
    }
}

/// A configured run: the profile user, the optional proxy, the output root,
/// and the three endpoint URLs, proxy-routed once at build time.
pub struct Downloader {
    pub user: String,
    pub http_proxy: Option<String>,
    pub save_path: String,
    pub profile_url: String,
    pub load_more_url: String,
    pub detail_url: String,
}

/// One load-more call as plain values: the URL to POST to, the anti-forgery
/// token for the X-CSRFToken header, and the name and page body fields (the
/// body's `type` field is the constant "profile").
pub struct PageRequest {
    pub url: String,
    pub token: String,
    pub name: String,
    pub page: String,
}

impl Downloader {
    /// The next load-more call for the engine's current cursor.
    pub fn page_request(&self, pag: &Paginator) -> (r: PageRequest)
        ensures
            r.url@ == self.load_more_url@,
            r.token@ == pag.token@,
            r.name@ == self.user@,
            r.page@ == pag.cursor@,
    {
        PageRequest {
            url: self.load_more_url.clone(),
            token: pag.token.clone(),
            name: self.user.clone(),
            page: pag.cursor.clone(),
        }
    }

    /// The detail-page URL for a video item: the configured (hence already
    /// proxy-routed) detail base, the item's pk, and a trailing slash.
    pub fn detail_request_url(&self, pk: &str) -> (r: String)
        ensures
            r@ == self.detail_url@ + pk@ + "/"@,
    {
        let r = self.detail_url.clone().concat(pk).concat("/");
        proof {
            assert(r@ =~= self.detail_url@ + pk@ + "/"@);
        }
        r
    }
}

/// Law: appending the pk to a proxy-routed detail base reaches the same
/// address as routing the fully built detail URL: the proxy guarantee is
/// not lost by building the base first.
pub proof fn lemma_detail_url_routed(proxy: Option<Seq<char>>, pk: Seq<char>)
    ensures
        rewrite_spec(proxy, detail_base()) + pk + "/"@ == rewrite_spec(
            proxy,
            detail_base() + pk + "/"@,
        ),
{
    lemma_rewrite_extends(proxy, detail_base(), pk + "/"@);
    assert((rewrite_spec(proxy, detail_base()) + pk) + "/"@ =~= rewrite_spec(
        proxy,
        detail_base(),
    ) + (pk + "/"@));
    assert((detail_base() + pk) + "/"@ =~= detail_base() + (pk + "/"@));
}

} // verus!
