use vstd::prelude::*;

use crate::input::ProxySettings;
use crate::text::{join_strings, joined, string_views};

verus! {

/// The address of the Apify proxy.
pub const APIFY_PROXY_URL: &'static str = "http://@proxy.apify.com:8000";

/// The credentials and address of a proxy.
#[derive(Debug)]
pub struct Proxy {
    pub base_url: String,
    pub username: String,
    pub password: String,
}

/// Whether the settings ask for the Apify proxy.
pub open spec fn wants_apify_proxy(settings: Option<ProxySettings>) -> bool {
    match settings {
        Some(s) => s.use_apify_proxy,
        None => false,
    }
}

/// The proxy user name for the given proxy groups: `groups-` followed by the
/// groups joined with `+`, or `auto` when no groups are given.
pub open spec fn proxy_username(groups: Option<Vec<String>>) -> Seq<char> {
    match groups {
        Some(g) => "groups-"@ + joined(string_views(g@), "+"@),
        None => "auto"@,
    }
}

impl Proxy {
    pub fn new(username: String, password: String) -> (res: Proxy)
        ensures
            res.base_url@ == APIFY_PROXY_URL@,
            res.username == username,
            res.password == password,
    {
        Proxy { base_url: APIFY_PROXY_URL.to_owned(), username, password }
    }

    /// The user name under which the Apify proxy is used with `groups`.
    pub fn apify_username(groups: Option<Vec<String>>) -> (res: String)
        ensures
            res@ == proxy_username(groups),
    {
        match groups {
            Some(g) => {
                let mut name = "groups-".to_owned();
                let tail = join_strings(&g, "+");
                name.append(tail.as_str());
                name
            },
            None => "auto".to_owned(),
        }
    }

    /// The Apify proxy when the settings ask for it, and `Err(())` otherwise.
    /// `password` is the proxy password that the environment provides.
    pub fn try_from_settings(settings: Option<ProxySettings>, password: Option<String>) -> (res:
        Result<Proxy, ()>)
        requires
            wants_apify_proxy(settings) ==> password is Some,
        ensures
            res is Ok <==> wants_apify_proxy(settings),
            res matches Ok(p) ==> {
                &&& p.base_url@ == APIFY_PROXY_URL@
                &&& p.username@ == proxy_username(settings.unwrap().apify_proxy_groups)
                &&& p.password == password.unwrap()
            },
    {
        if let Some(settings) = settings {
            if settings.use_apify_proxy {
                let password = password.unwrap();
                let username = Self::apify_username(settings.apify_proxy_groups);
                return Ok(Proxy::new(username, password));
            }
        }
        Err(())
    }
}

/// The Apify proxy is wanted exactly when settings are given and their
/// `use_apify_proxy` flag is set, whatever the proxy groups are.
pub proof fn lemma_proxy_wanted_iff_flag(settings: ProxySettings)
    ensures
        wants_apify_proxy(Some(settings)) == settings.use_apify_proxy,
        !wants_apify_proxy(None),
{
}

/// Without groups the user name is `auto`; with groups it is `groups-`
/// followed by the groups joined with `+`, so each group's name stands in it.
pub proof fn lemma_proxy_username_shape(groups: Vec<String>)
    ensures
        proxy_username(None) == seq!['a', 'u', 't', 'o'],
        proxy_username(Some(groups)).take(7) == seq!['g', 'r', 'o', 'u', 'p', 's', '-'],
        proxy_username(Some(groups)).skip(7) == joined(string_views(groups@), seq!['+']),
{
    reveal_strlit("auto");
    reveal_strlit("groups-");
    reveal_strlit("+");
    assert("+"@ =~= seq!['+']);
    let j = joined(string_views(groups@), "+"@);
    assert(("groups-"@ + j).take(7) =~= "groups-"@);
    assert(("groups-"@ + j).skip(7) =~= j);
}

impl Clone for Proxy {
    fn clone(&self) -> (res: Self)
        ensures
            res == *self,
    {
        Proxy {
            base_url: self.base_url.clone(),
            password: self.password.clone(),
            username: self.username.clone(),
        }
    }
}

} // verus!
