use vstd::prelude::*;

verus! {

/// Marker for the values that pull extracted records out of crawled pages.
pub trait Extractor {
}

/// The default extractor; it carries no state.
pub struct DataExtractor {}

impl DataExtractor {
    pub fn new() -> (res: Self)
        ensures
            res == (DataExtractor {}),
    {
        DataExtractor {}
    }
}

impl Extractor for DataExtractor {
}

} // verus!
