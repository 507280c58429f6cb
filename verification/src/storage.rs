use vstd::prelude::*;

use crate::text::{
    format_padded8, lemma_padded8_injective, lemma_padded8_len, lemma_padded8_sorted, lex_less,
    padded8,
};

verus! {

/// The dataset that records go to when the cloud is forced and the
/// environment names none.
pub const FALLBACK_DATASET_ID: &'static str = "w7xbAHYhyoz3v8K8r";

/// Where a record or a value is stored: a URL of the Apify API, or a path on
/// the local disk.
#[derive(Debug, Clone, PartialEq, Eq)]
pub enum Location {
    Remote { url: String },
    Local { path: String },
}

/// Whether `loc` is the API URL `url`.
pub open spec fn remote_at(loc: Location, url: Seq<char>) -> bool {
    match loc {
        Location::Remote { url: u } => u@ == url,
        Location::Local { .. } => false,
    }
}

/// Whether `loc` is the local path `path`.
pub open spec fn local_at(loc: Location, path: Seq<char>) -> bool {
    match loc {
        Location::Local { path: p } => p@ == path,
        Location::Remote { .. } => false,
    }
}

/// The API URL that takes new items of `dataset`.
pub open spec fn dataset_items_url(dataset: Seq<char>, token: Seq<char>) -> Seq<char> {
    "https://api.apify.com/v2/datasets/"@ + dataset + "/items?token="@ + token
}

/// The local file that holds the dataset record with key `key`.
pub open spec fn dataset_record_path(key: Seq<char>) -> Seq<char> {
    "apify_storage/datasets/default/"@ + key + ".json"@
}

/// The API URL of the record `key` in the key-value store `store`.
pub open spec fn record_url(store: Seq<char>, key: Seq<char>) -> Seq<char> {
    "https://api.apify.com/v2/key-value-stores/"@ + store + "/records/"@ + key
}

/// The same URL, authorised by `token` for writing.
pub open spec fn record_write_url(store: Seq<char>, key: Seq<char>, token: Seq<char>) -> Seq<
    char,
> {
    "https://api.apify.com/v2/key-value-stores/"@ + store + "/records/"@ + key + "?token="@
        + token
}

/// The local file that holds the value stored under `key`.
pub open spec fn record_path(key: Seq<char>) -> Seq<char> {
    "apify_storage/key_value_stores/default/"@ + key + ".json"@
}

/// Whether the `APIFY_IS_AT_HOME` setting says that the actor runs on Apify.
pub open spec fn at_home(setting: Option<String>) -> bool {
    match setting {
        Some(v) => v@ == "1"@,
        None => false,
    }
}

/// Where the data of a crawl goes, and how many records went to disk.
pub struct Storage {
    force_cloud: bool,
    inner_key: u32,
}

impl Storage {
    /// Whether records go to the cloud even when the actor runs locally.
    pub closed spec fn forces_cloud(&self) -> bool {
        self.force_cloud
    }

    /// How many records were written to the local disk so far.
    pub closed spec fn records_written(&self) -> nat {
        self.inner_key as nat
    }

    pub fn new(force_cloud: bool) -> (res: Self)
        ensures
            res.forces_cloud() == force_cloud,
            res.records_written() == 0,
    {
        Storage { force_cloud, inner_key: 0 }
    }

    /// Whether records go to the cloud even when the actor runs locally.
    pub fn force_cloud(&self) -> (res: bool)
        ensures
            res == self.forces_cloud(),
    {
        self.force_cloud
    }

    /// How many records were written to the local disk so far.
    pub fn inner_key(&self) -> (res: u32)
        ensures
            res == self.records_written(),
    {
        self.inner_key
    }

    fn create_indexed_key(&mut self) -> (key: String)
        requires
            old(self).records_written() < u32::MAX,
        ensures
            final(self).forces_cloud() == old(self).forces_cloud(),
            final(self).records_written() == old(self).records_written() + 1,
            key@ == padded8(final(self).records_written()),
    {
        self.inner_key = self.inner_key + 1;
        format_padded8(self.inner_key)
    }

    /// Whether the actor runs on Apify, from the value of the
    /// `APIFY_IS_AT_HOME` setting.
    pub fn get_is_on_apify(setting: Option<String>) -> (res: bool)
        ensures
            res == at_home(setting),
    {
        match setting {
            Some(v) => v == "1".to_owned(),
            None => false,
        }
    }

    /// Where the next record of the dataset goes. `dataset_id` and `token` are
    /// the dataset and the API token that the environment provides.
    pub fn push_data_location(
        &mut self,
        on_apify: bool,
        dataset_id: Option<String>,
        token: Option<String>,
    ) -> (loc: Location)
        requires
            on_apify || old(self).forces_cloud() ==> token is Some && (dataset_id is Some
                || old(self).forces_cloud()),
            !(on_apify || old(self).forces_cloud()) ==> old(self).records_written() < u32::MAX,
        ensures
            final(self).forces_cloud() == old(self).forces_cloud(),
            on_apify || old(self).forces_cloud() ==> {
                &&& final(self).records_written() == old(self).records_written()
                &&& remote_at(loc, dataset_items_url(
                    match dataset_id {
                        Some(d) => d@,
                        None => FALLBACK_DATASET_ID@,
                    },
                    token.unwrap()@,
                ))
            },
            !(on_apify || old(self).forces_cloud()) ==> {
                &&& final(self).records_written() == old(self).records_written() + 1
                &&& local_at(loc, dataset_record_path(padded8(final(self).records_written())))
            },
    {
        if on_apify || self.force_cloud {
            let dataset = match dataset_id {
                Some(d) => d,
                None => FALLBACK_DATASET_ID.to_owned(),
            };
            let token = token.unwrap();
            let mut url = "https://api.apify.com/v2/datasets/".to_owned();
            url.append(dataset.as_str());
            url.append("/items?token=");
            url.append(token.as_str());
            Location::Remote { url }
        } else {
            let key = self.create_indexed_key();
            let mut path = "apify_storage/datasets/default/".to_owned();
            path.append(key.as_str());
            path.append(".json");
            Location::Local { path }
        }
    }

    /// Where the value stored under `key` is read from. `store_id` is the
    /// key-value store that the environment provides.
    pub fn get_value_location(on_apify: bool, store_id: Option<String>, key: &str) -> (loc:
        Location)
        requires
            on_apify ==> store_id is Some,
        ensures
            on_apify ==> remote_at(loc, record_url(store_id.unwrap()@, key@)),
            !on_apify ==> local_at(loc, record_path(key@)),
    {
        if on_apify {
            let store = store_id.unwrap();
            let mut url = "https://api.apify.com/v2/key-value-stores/".to_owned();
            url.append(store.as_str());
            url.append("/records/");
            url.append(key);
            Location::Remote { url }
        } else {
            Location::Local { path: Self::record_file(key) }
        }
    }

    /// Where a value stored under `key` is written. `store_id` and `token` are
    /// the key-value store and the API token that the environment provides.
    pub fn set_value_location(
        on_apify: bool,
        store_id: Option<String>,
        token: Option<String>,
        key: &str,
    ) -> (loc: Location)
        requires
            on_apify ==> store_id is Some && token is Some,
        ensures
            on_apify ==> remote_at(loc, record_write_url(store_id.unwrap()@, key@, token.unwrap()@)),
            !on_apify ==> local_at(loc, record_path(key@)),
    {
        if on_apify {
            let store = store_id.unwrap();
            let token = token.unwrap();
            let mut url = "https://api.apify.com/v2/key-value-stores/".to_owned();
            url.append(store.as_str());
            url.append("/records/");
            url.append(key);
            url.append("?token=");
            url.append(token.as_str());
            Location::Remote { url }
        } else {
            Location::Local { path: Self::record_file(key) }
        }
    }

    fn record_file(key: &str) -> (path: String)
        ensures
            path@ == record_path(key@),
    {
        let mut path = "apify_storage/key_value_stores/default/".to_owned();
        path.append(key);
        path.append(".json");
        path
    }
}

/// The URL that takes new items is made of the API's dataset prefix, the
/// dataset, `/items?token=` and the token, each in full and in that order,
/// whatever the dataset and the token are.
pub proof fn lemma_dataset_items_url_parts(dataset: Seq<char>, token: Seq<char>)
    ensures
        dataset_items_url(dataset, token).len() == 47 + dataset.len() + token.len(),
        dataset_items_url(dataset, token).take(34) == "https://api.apify.com/v2/datasets/"@,
        dataset_items_url(dataset, token).subrange(34, 34 + dataset.len() as int) == dataset,
        dataset_items_url(dataset, token).subrange(34 + dataset.len() as int, 47 + dataset.len() as int)
            == "/items?token="@,
        dataset_items_url(dataset, token).skip(47 + dataset.len() as int) == token,
{
    reveal_strlit("https://api.apify.com/v2/datasets/");
    reveal_strlit("/items?token=");
    let u = dataset_items_url(dataset, token);
    let d = dataset.len() as int;
    assert(u.take(34) =~= "https://api.apify.com/v2/datasets/"@);
    assert(u.subrange(34, 34 + d) =~= dataset);
    assert(u.subrange(34 + d, 47 + d) =~= "/items?token="@);
    assert(u.skip(47 + d) =~= token);
}

/// The local file of a dataset record is `apify_storage/datasets/default/`,
/// the key and `.json`, whatever the key is.
pub proof fn lemma_dataset_record_path_parts(key: Seq<char>)
    ensures
        dataset_record_path(key).len() == 36 + key.len(),
        dataset_record_path(key).take(31) == "apify_storage/datasets/default/"@,
        dataset_record_path(key).subrange(31, 31 + key.len() as int) == key,
        dataset_record_path(key).skip(31 + key.len() as int) == ".json"@,
{
    reveal_strlit("apify_storage/datasets/default/");
    reveal_strlit(".json");
    let u = dataset_record_path(key);
    let k = key.len() as int;
    assert(u.take(31) =~= "apify_storage/datasets/default/"@);
    assert(u.subrange(31, 31 + k) =~= key);
    assert(u.skip(31 + k) =~= ".json"@);
}

/// The URL a value is read from is made of the API's key-value store prefix,
/// the store, `/records/` and the key, each in full and in that order,
/// whatever the store and the key are.
pub proof fn lemma_record_url_parts(store: Seq<char>, key: Seq<char>)
    ensures
        record_url(store, key).len() == 51 + store.len() + key.len(),
        record_url(store, key).take(42) == "https://api.apify.com/v2/key-value-stores/"@,
        record_url(store, key).subrange(42, 42 + store.len() as int) == store,
        record_url(store, key).subrange(42 + store.len() as int, 51 + store.len() as int) == "/records/"@,
        record_url(store, key).skip(51 + store.len() as int) == key,
{
    reveal_strlit("https://api.apify.com/v2/key-value-stores/");
    reveal_strlit("/records/");
    let u = record_url(store, key);
    let n = store.len() as int;
    assert(u.take(42) =~= "https://api.apify.com/v2/key-value-stores/"@);
    assert(u.subrange(42, 42 + n) =~= store);
    assert(u.subrange(42 + n, 51 + n) =~= "/records/"@);
    assert(u.skip(51 + n) =~= key);
}

/// The URL a value is written to is the URL it is read from, followed by
/// `?token=` and the token.
pub proof fn lemma_record_write_url_parts(store: Seq<char>, key: Seq<char>, token: Seq<char>)
    ensures
        record_write_url(store, key, token).len() == 58 + store.len() + key.len() + token.len(),
        record_write_url(store, key, token).take(51 + store.len() as int + key.len() as int) == record_url(
            store,
            key,
        ),
        record_write_url(store, key, token).subrange(
            51 + store.len() as int + key.len() as int,
            58 + store.len() as int + key.len() as int,
        ) == "?token="@,
        record_write_url(store, key, token).skip(58 + store.len() as int + key.len() as int) == token,
{
    reveal_strlit("?token=");
    lemma_record_url_parts(store, key);
    let u = record_write_url(store, key, token);
    let r = record_url(store, key);
    assert(u =~= r + "?token="@ + token);
    assert(u.take(r.len() as int) =~= r);
    assert(u.subrange(r.len() as int, r.len() as int + 7) =~= "?token="@);
    assert(u.skip(r.len() as int + 7) =~= token);
}

/// The local file of a stored value is
/// `apify_storage/key_value_stores/default/`, the key and `.json`, whatever the
/// key is.
pub proof fn lemma_record_path_parts(key: Seq<char>)
    ensures
        record_path(key).len() == 44 + key.len(),
        record_path(key).take(39) == "apify_storage/key_value_stores/default/"@,
        record_path(key).subrange(39, 39 + key.len() as int) == key,
        record_path(key).skip(39 + key.len() as int) == ".json"@,
{
    reveal_strlit("apify_storage/key_value_stores/default/");
    reveal_strlit(".json");
    let u = record_path(key);
    let k = key.len() as int;
    assert(u.take(39) =~= "apify_storage/key_value_stores/default/"@);
    assert(u.subrange(39, 39 + k) =~= key);
    assert(u.skip(39 + k) =~= ".json"@);
}

/// The actor runs on Apify exactly when the setting is given and is the text
/// `1`.
pub proof fn lemma_at_home_iff_one(setting: String)
    ensures
        at_home(Some(setting)) == (setting@ == seq!['1']),
        !at_home(None),
{
    reveal_strlit("1");
    assert("1"@ =~= seq!['1']);
}

/// On Apify, a value written under a key goes to the record it is read back
/// from: the write URL is the read URL with the token added. (Locally both
/// `set_value_location` and `get_value_location` give `record_path(key)`.)
pub proof fn lemma_value_written_is_read_back(store: Seq<char>, key: Seq<char>, token: Seq<char>)
    ensures
        record_write_url(store, key, token) == record_url(store, key) + "?token="@ + token,
{
}

/// Two records written to disk under different counts go to different files,
/// so no local record overwrites another.
pub proof fn lemma_local_records_distinct(a: nat, b: nat)
    requires
        a != b,
    ensures
        dataset_record_path(padded8(a)) != dataset_record_path(padded8(b)),
{
    lemma_padded8_injective(a, b);
    let p = "apify_storage/datasets/default/"@;
    let s = ".json"@;
    let x = padded8(a);
    let y = padded8(b);
    if dataset_record_path(x) == dataset_record_path(y) {
        let whole = dataset_record_path(x);
        assert(whole == p + x + s);
        assert(dataset_record_path(y) == p + y + s);
        assert((p + x + s).len() == (p + y + s).len());
        assert(x.len() == y.len());
        assert((p + x + s).subrange(p.len() as int, (p.len() + x.len()) as int) =~= x);
        assert((p + y + s).subrange(p.len() as int, (p.len() + y.len()) as int) =~= y);
        assert(false);
    }
}

/// While the count stays below one hundred million, each record written to
/// disk goes to a file whose path sorts after the paths of all earlier ones.
pub proof fn lemma_local_records_sorted(a: nat, b: nat)
    requires
        a < b < 100_000_000,
    ensures
        lex_less(dataset_record_path(padded8(a)), dataset_record_path(padded8(b))),
{
    lemma_padded8_sorted(a, b);
    lemma_padded8_len(a);
    lemma_padded8_len(b);
    let p = "apify_storage/datasets/default/"@;
    let s = ".json"@;
    let x = padded8(a);
    let y = padded8(b);
    let px = p + x + s;
    let py = p + y + s;
    let i = choose|i: int|
        0 <= i < x.len() && i < y.len() && x.take(i) == y.take(i) && (x[i] as int) < (
        y[i] as int);
    let j = p.len() + i;
    assert(px.take(j) =~= p + x.take(i));
    assert(py.take(j) =~= p + y.take(i));
    assert(px[j] == x[i]);
    assert(py[j] == y[i]);
    assert(0 <= j < px.len() && j < py.len() && px.take(j) == py.take(j) && (px[j] as int) < (
    py[j] as int));
}

} // verus!
