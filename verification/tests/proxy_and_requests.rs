use apify_crawler::crawler::{Crawler, CONCURRENCY};
use apify_crawler::extractor::DataExtractor;
use apify_crawler::input::{Input, ProxySettings};
use apify_crawler::proxy::{Proxy, APIFY_PROXY_URL};
use apify_crawler::request::{text_or_empty, Request};
use apify_crawler::requestlist::RequestList;

fn strings(items: &[&str]) -> Vec<String> {
    items.iter().map(|s| s.to_string()).collect()
}

#[test]
fn data_extractor_new_builds() {
    let _extractor = DataExtractor::new();
}

#[test]
fn proxy_new_uses_apify_address() {
    let proxy = Proxy::new("user".to_string(), "secret".to_string());
    assert_eq!(proxy.base_url, "http://@proxy.apify.com:8000");
    assert_eq!(proxy.base_url, APIFY_PROXY_URL);
    assert_eq!(proxy.username, "user");
    assert_eq!(proxy.password, "secret");
}

#[test]
fn proxy_clone_keeps_fields() {
    let proxy = Proxy::new("u".to_string(), "p".to_string());
    let copy = proxy.clone();
    assert_eq!(copy.base_url, proxy.base_url);
    assert_eq!(copy.username, proxy.username);
    assert_eq!(copy.password, proxy.password);
}

#[test]
fn username_without_groups_is_auto() {
    assert_eq!(Proxy::apify_username(None), "auto");
}

#[test]
fn username_joins_groups_with_plus() {
    assert_eq!(
        Proxy::apify_username(Some(strings(&["SHADER", "BUYPROXIES94952"]))),
        "groups-SHADER+BUYPROXIES94952"
    );
    assert_eq!(Proxy::apify_username(Some(strings(&["one"]))), "groups-one");
    assert_eq!(Proxy::apify_username(Some(Vec::new())), "groups-");
}

#[test]
fn no_settings_means_no_proxy() {
    assert!(Proxy::try_from_settings(None, None).is_err());
    assert!(Proxy::try_from_settings(None, Some("pw".to_string())).is_err());
}

#[test]
fn settings_without_apify_proxy_mean_no_proxy() {
    let settings = ProxySettings {
        use_apify_proxy: false,
        apify_proxy_groups: Some(strings(&["a"])),
    };
    assert!(Proxy::try_from_settings(Some(settings), None).is_err());
}

#[test]
fn apify_proxy_settings_give_a_proxy() {
    let settings = ProxySettings {
        use_apify_proxy: true,
        apify_proxy_groups: Some(strings(&["a", "b", "c"])),
    };
    let proxy = Proxy::try_from_settings(Some(settings), Some("pw".to_string())).unwrap();
    assert_eq!(proxy.base_url, "http://@proxy.apify.com:8000");
    assert_eq!(proxy.username, "groups-a+b+c");
    assert_eq!(proxy.password, "pw");

    let auto = ProxySettings {
        use_apify_proxy: true,
        apify_proxy_groups: None,
    };
    let proxy = Proxy::try_from_settings(Some(auto), Some("x".to_string())).unwrap();
    assert_eq!(proxy.username, "auto");
}

#[test]
fn request_new_and_clone() {
    let req = Request::new("https://example.com".to_string());
    assert_eq!(req.url, "https://example.com");
    let copy = req.clone();
    assert_eq!(copy.url, req.url);
}

#[test]
fn failed_fetch_gives_empty_text() {
    let ok: Result<String, ()> = Ok("<html></html>".to_string());
    assert_eq!(text_or_empty(ok), "<html></html>");
    let failed: Result<String, String> = Err("timeout".to_string());
    assert_eq!(text_or_empty(failed), "");
}

fn requests(urls: &[&str]) -> Vec<Request> {
    urls.iter().map(|u| Request::new(u.to_string())).collect()
}

#[test]
fn request_list_hands_out_last_first() {
    let mut list = RequestList::from(requests(&["a", "b", "c"]));
    assert!(!list.is_empty());
    assert_eq!(list.next_request().unwrap().url, "c");
    assert_eq!(list.next_request().unwrap().url, "b");
    assert_eq!(list.next_request().unwrap().url, "a");
    assert!(list.is_empty());
    assert!(list.next_request().is_none());
    assert!(list.next_request().is_none());
}

#[test]
fn draining_reverses_the_sources() {
    let urls = ["u1", "u2", "u3", "u4", "u5"];
    let mut list: RequestList = requests(&urls).into();
    let mut seen = Vec::new();
    while let Some(req) = list.next_request() {
        seen.push(req.url);
    }
    let mut expected: Vec<String> = strings(&urls);
    expected.reverse();
    assert_eq!(seen, expected);
}

#[test]
fn empty_request_list_hands_out_nothing() {
    let mut list = RequestList::from(Vec::new());
    assert!(list.is_empty());
    assert!(list.next_request().is_none());
}

#[test]
fn plan_without_proxy() {
    let input = Input {
        urls: requests(&["x", "y"]),
        proxy_settings: None,
    };
    let crawler = Crawler::new(input);
    assert!(!crawler.uses_apify_proxy());
    let mut plan = crawler.plan(None);
    assert!(plan.proxy.is_none());
    assert_eq!(plan.concurrency, 10);
    assert_eq!(plan.concurrency, CONCURRENCY);
    assert_eq!(plan.requests.next_request().unwrap().url, "y");
    assert_eq!(plan.requests.next_request().unwrap().url, "x");
    assert!(plan.requests.next_request().is_none());
}

#[test]
fn plan_with_apify_proxy() {
    let input = Input {
        urls: requests(&["x"]),
        proxy_settings: Some(ProxySettings {
            use_apify_proxy: true,
            apify_proxy_groups: Some(strings(&["RESIDENTIAL"])),
        }),
    };
    let crawler = Crawler::new(input);
    assert!(crawler.uses_apify_proxy());
    let plan = crawler.plan(Some("secret".to_string()));
    let proxy = plan.proxy.unwrap();
    assert_eq!(proxy.base_url, "http://@proxy.apify.com:8000");
    assert_eq!(proxy.username, "groups-RESIDENTIAL");
    assert_eq!(proxy.password, "secret");
}

#[test]
fn next_requests_hands_out_in_turn_and_then_nothing() {
    let mut list = RequestList::from(requests(&["a", "b", "c"]));
    let first: Vec<String> = list.next_requests(2).into_iter().map(|r| r.url).collect();
    assert_eq!(first, vec!["c".to_string(), "b".to_string()]);
    let rest: Vec<String> = list.next_requests(5).into_iter().map(|r| r.url).collect();
    assert_eq!(rest, vec!["a".to_string()]);
    assert!(list.is_empty());
    assert!(list.next_requests(3).is_empty());
    assert!(list.next_request().is_none());
}
