pub mod extractor;
pub mod input;
pub mod proxy;
pub mod request;
pub mod requestlist;
pub mod text;
pub mod crawler;
pub mod storage;
