use crate::stream::{PageStream, StreamState};
use vstd::prelude::*;

verus! {

/// The identity under which requests are made. A client performs no request
/// itself: whoever sends the requests reads the identity from it.
#[derive(Debug)]
pub struct Client {
    client_id: String,
}

impl View for Client {
    type V = Seq<char>;

    /// The client id.
    closed spec fn view(&self) -> Seq<char> {
        self.client_id@
    }
}

impl Clone for Client {
    fn clone(&self) -> (copy: Self)
        ensures
            copy == *self,
    {
        Client { client_id: self.client_id.clone() }
    }
}

impl Client {
    /// A client with the given client id.
    pub fn new(client_id: &str) -> (client: Client)
        ensures
            client@ == client_id@,
    {
        Client { client_id: client_id.to_owned() }
    }

    /// The client id.
    pub fn get_client_id(&self) -> (client_id: &str)
        ensures
            client_id@ == self@,
    {
        self.client_id.as_str()
    }

    /// A stream of records over the collection that begins at `url`, of at
    /// most `pages` pages; `None` sets no bound.
    pub fn get_stream<T>(&self, url: &str, pages: Option<u64>) -> (stream: PageStream<T>)
        ensures
            stream@ == StreamState::<T>::fresh(url@, pages),
    {
        PageStream::new(url, pages)
    }
}

} // verus!
