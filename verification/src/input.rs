use vstd::prelude::*;

use crate::request::Request;

verus! {

/// How the crawler is to reach the pages: through the Apify proxy or not.
#[derive(Debug, Clone)]
pub struct ProxySettings {
    pub use_apify_proxy: bool,
    pub apify_proxy_groups: Option<Vec<String>>,
}

/// What the crawler is asked to do.
#[derive(Debug)]
pub struct Input {
    pub urls: Vec<Request>,
    pub proxy_settings: Option<ProxySettings>,
}

} // verus!
