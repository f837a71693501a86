use crate::client::Client;
use crate::path::{build_user_collection_path, user_collection_path};
use crate::stream::PageStream;
use crate::streaming_api::{RecordType, StreamingApi};
use vstd::prelude::*;

verus! {

/// Provides access to the playlists of a user.
pub struct Playlists {
    client: Client,
    user_id: usize,
}

impl Playlists {
    /// The client that the collection is read for.
    pub closed spec fn spec_client(&self) -> &Client {
        &self.client
    }

    /// The id of the user that the collection belongs to.
    pub closed spec fn spec_user_id(&self) -> usize {
        self.user_id
    }

    /// The client that the collection is read for.
    #[verifier::when_used_as_spec(spec_client)]
    pub fn client(&self) -> (client: &Client)
        ensures
            client == self.spec_client(),
    {
        &self.client
    }

    /// The id of the user that the collection belongs to.
    #[verifier::when_used_as_spec(spec_user_id)]
    pub fn user_id(&self) -> (user_id: usize)
        ensures
            user_id == self.spec_user_id(),
    {
        self.user_id
    }

    /// The playlists of the user with this id.
    pub fn new(client: Client, user_id: usize) -> (collection: Self)
        ensures
            *collection.client() == client,
            collection.user_id() == user_id,
    {
        Playlists { client, user_id }
    }
}

impl StreamingApi for Playlists {
    open spec fn starting_path(&self) -> Seq<char> {
        user_collection_path(self.user_id() as nat, "playlists"@)
    }

    open spec fn declared_type(&self) -> RecordType {
        RecordType::Playlist
    }

    fn path(&self) -> (path: String) {
        build_user_collection_path(self.user_id, "playlists")
    }

    fn record_type(&self) -> (kind: RecordType) {
        RecordType::Playlist
    }

    fn get_stream<T>(&self, url: &str, pages: Option<u64>) -> (stream: PageStream<T>) {
        self.client.get_stream(url, pages)
    }
}

} // verus!
