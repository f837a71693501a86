use crate::stream::{PageStream, StreamState};
use vstd::prelude::*;

verus! {

/// The kinds of record that the collections hold.
#[derive(Debug, Clone, Copy, PartialEq, Eq, Structural)]
pub enum RecordType {
    Track,
    User,
    Playlist,
    Comment,
    WebProfile,
}

/// A collection that is read page by page. An implementation says where
/// the collection begins and what kind of record it holds; everything else
/// is the business of the stream.
pub trait StreamingApi {
    /// The path at which the collection begins.
    spec fn starting_path(&self) -> Seq<char>;

    /// The kind of record that the collection holds.
    spec fn declared_type(&self) -> RecordType;

    /// The path at which the collection begins.
    fn path(&self) -> (path: String)
        ensures
            path@ == self.starting_path(),
    ;

    /// The kind of record that the collection holds.
    fn record_type(&self) -> (kind: RecordType)
        ensures
            kind == self.declared_type(),
    ;

    /// A stream that begins at `url` and asks for at most `pages` pages;
    /// `None` sets no bound.
    fn get_stream<T>(&self, url: &str, pages: Option<u64>) -> (stream: PageStream<T>)
        ensures
            stream@ == StreamState::<T>::fresh(url@, pages),
    ;
}

/// The stream over a collection from its beginning, of at most `page_cap`
/// pages; `None` sets no bound. No request is made before the stream is
/// polled.
pub fn stream<A: StreamingApi, T>(api: &A, page_cap: Option<u64>) -> (stream: PageStream<T>)
    ensures
        stream@ == StreamState::<T>::fresh(api.starting_path(), page_cap),
{
    let path = api.path();
    api.get_stream(path.as_str(), page_cap)
}

} // verus!
