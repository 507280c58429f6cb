use vstd::prelude::*;

use crate::input::Input;
use crate::proxy::{proxy_username, wants_apify_proxy, Proxy, APIFY_PROXY_URL};
use crate::requestlist::RequestList;

verus! {

/// How many requests the crawler keeps in flight at once.
pub const CONCURRENCY: usize = 10;

/// A crawler for the pages its input names.
pub struct Crawler {
    input: Input,
}

/// What a crawl is made of: the proxy to go through, if any, the requests to
/// fetch and how many of them may be in flight at once.
pub struct CrawlPlan {
    pub proxy: Option<Proxy>,
    pub requests: RequestList,
    pub concurrency: usize,
}

impl Crawler {
    /// The input the crawler was made with.
    pub closed spec fn input(&self) -> Input {
        self.input
    }

    pub fn new(input: Input) -> (res: Self)
        ensures
            res.input() == input,
    {
        Crawler { input }
    }

    /// Whether the crawl goes through the Apify proxy.
    pub fn uses_apify_proxy(&self) -> (res: bool)
        ensures
            res == wants_apify_proxy(self.input().proxy_settings),
    {
        match &self.input.proxy_settings {
            Some(s) => s.use_apify_proxy,
            None => false,
        }
    }

    /// Decides how the crawl runs. `proxy_password` is the Apify proxy
    /// password that the environment provides.
    pub fn plan(self, proxy_password: Option<String>) -> (plan: CrawlPlan)
        requires
            wants_apify_proxy(self.input().proxy_settings) ==> proxy_password is Some,
        ensures
            plan.proxy is Some <==> wants_apify_proxy(self.input().proxy_settings),
            plan.proxy matches Some(p) ==> {
                &&& p.base_url@ == APIFY_PROXY_URL@
                &&& p.username@ == proxy_username(
                    self.input().proxy_settings.unwrap().apify_proxy_groups,
                )
                &&& p.password == proxy_password.unwrap()
            },
            plan.requests.sources() == self.input().urls@,
            plan.concurrency == CONCURRENCY,
    {
        let settings = self.input;
        let proxy = match Proxy::try_from_settings(settings.proxy_settings, proxy_password) {
            Ok(p) => Some(p),
            Err(_) => None,
        };
        let requests = RequestList::from(settings.urls);
        CrawlPlan { proxy, requests, concurrency: CONCURRENCY }
    }
}

} // verus!
