use vstd::prelude::*;

verus! {

/// A page to be crawled.
#[derive(Debug)]
pub struct Request {
    pub url: String,
}

impl Request {
    pub fn new(url: String) -> (res: Self)
        ensures
            res.url == url,
    {
        Request { url }
    }
}

impl Clone for Request {
    fn clone(&self) -> (res: Self)
        ensures
            res == *self,
    {
        Request { url: self.url.clone() }
    }
}

/// What a fetch hands on: the body of a successful response, or an empty
/// text when the request failed.
pub fn text_or_empty<E>(response: Result<String, E>) -> (text: String)
    ensures
        match response {
            Ok(body) => text == body,
            Err(_) => text@ == Seq::<char>::empty(),
        },
{
    match response {
        Ok(body) => body,
        Err(_) => String::new(),
    }
}

} // verus!
