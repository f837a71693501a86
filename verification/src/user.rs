use crate::client::Client;
use crate::comment::Comments;
use crate::error::{Error, ErrorView};
use crate::json::json_array;
use crate::path::{
    build_permalink_address, build_user_collection_path, build_user_path, permalink_address,
    read_user_id, resolved_user_id, user_collection_path, user_path, users_path,
};
use crate::playlist::Playlists;
use crate::record::{decoded_from, gathered, read_list};
use crate::stream::PageStream;
use crate::streaming_api::{RecordType, StreamingApi};
use crate::track::Tracks;
use crate::web_profile::WebProfiles;
use serde_json::Value;
use vstd::prelude::*;
use vstd::string::StringExecFns;

verus! {

/// Registered user.
#[derive(Debug)]
pub struct User {
    /// Integer ID.
    pub id: usize,
    /// Permalink of the resource.
    pub permalink: String,
    /// Username.
    pub username: String,
    /// API resource URL.
    pub uri: String,
    /// URL to the SoundCloud.com page.
    pub permalink_url: String,
    /// URL to a JPEG image.
    pub avatar_url: String,
    /// Country.
    pub country: Option<String>,
    /// First and last name.
    pub full_name: Option<String>,
    /// City.
    pub city: Option<String>,
    /// Description, written by the user.
    pub description: Option<String>,
    /// Discogs name.
    pub discogs_name: Option<String>,
    /// MySpace name.
    pub myspace_name: Option<String>,
    /// URL to a website.
    pub website: Option<String>,
    /// Custom title for the website.
    pub website_title: Option<String>,
    /// Online status.
    pub online: Option<bool>,
    /// Number of public tracks.
    pub track_count: Option<usize>,
    /// Number of public playlists.
    pub playlist_count: Option<usize>,
    /// Number of followers.
    pub followers_count: Option<usize>,
    /// Number of followed users.
    pub followings_count: Option<usize>,
    /// Number of favorited public tracks.
    pub public_favorites_count: Option<usize>,
}

impl Clone for User {
    fn clone(&self) -> (copy: Self)
        ensures
            copy == *self,
    {
        User {
            id: self.id,
            permalink: self.permalink.clone(),
            username: self.username.clone(),
            uri: self.uri.clone(),
            permalink_url: self.permalink_url.clone(),
            avatar_url: self.avatar_url.clone(),
            country: self.country.clone(),
            full_name: self.full_name.clone(),
            city: self.city.clone(),
            description: self.description.clone(),
            discogs_name: self.discogs_name.clone(),
            myspace_name: self.myspace_name.clone(),
            website: self.website.clone(),
            website_title: self.website_title.clone(),
            online: self.online,
            track_count: self.track_count,
            playlist_count: self.playlist_count,
            followers_count: self.followers_count,
            followings_count: self.followings_count,
            public_favorites_count: self.public_favorites_count,
        }
    }
}

/// A request for the list of users, with an optional search query.
#[derive(Debug)]
pub struct UserRequestBuilder<'a> {
    client: &'a Client,
    query: Option<String>,
}

/// A request that concerns one user.
#[derive(Debug)]
pub struct SingleUserRequestBuilder<'a> {
    client: &'a Client,
    pub id: usize,
}

impl<'a> UserRequestBuilder<'a> {
    /// The client that the request is made for.
    pub closed spec fn spec_client(&self) -> &'a Client {
        self.client
    }

    /// The client that the request is made for.
    #[verifier::when_used_as_spec(spec_client)]
    pub fn client(&self) -> (client: &'a Client)
        ensures
            client == self.spec_client(),
    {
        self.client
    }

    /// The search query, if one is set.
    pub closed spec fn search(&self) -> Option<Seq<char>> {
        match self.query {
            Some(query) => Some(query@),
            None => None,
        }
    }

    /// Creates a new user request builder, with no set parameters.
    pub fn new(client: &'a Client) -> (builder: UserRequestBuilder<'a>)
        ensures
            builder.client() == client,
            builder.search() is None,
    {
        UserRequestBuilder { client, query: None }
    }

    /// Sets the search query filter, which will only return users with a
    /// matching query; `None` removes the filter.
    pub fn query(&mut self, query: Option<&str>) -> (builder: &mut Self)
        ensures
            builder.client() == old(self).client(),
            builder.search() == match query {
                Some(text) => Some(text@),
                None => None,
            },
            *final(self) == *final(builder),
    {
        self.query = match query {
            Some(text) => Some(text.to_owned()),
            None => None,
        };
        self
    }

    /// Returns a builder for a request that concerns the user with this id.
    pub fn id(&self, id: usize) -> (builder: SingleUserRequestBuilder)
        ensures
            builder.client() == self.client(),
            builder.user_id() == id,
    {
        SingleUserRequestBuilder { client: self.client, id }
    }

    /// The address that resolves a user's unique permalink to the user's
    /// resource.
    pub fn permalink_url(permalink: &str) -> (address: String)
        ensures
            address@ == permalink_address(permalink@),
    {
        build_permalink_address(permalink)
    }

    /// Creates a user request builder from the path of the resource that a
    /// user's permalink was resolved to: the user's id is the last segment
    /// of that path. A path that does not end in a number that fits a user
    /// id is refused.
    pub fn permalink(&self, resource_path: &str) -> (r: Result<SingleUserRequestBuilder<'a>, Error>)
        ensures
            match resolved_user_id(resource_path@) {
                Some(id) => r matches Ok(builder) && builder.client() == self.client()
                    && builder.user_id() == id,
                None => r matches Err(e) && e@ == ErrorView::Decode(
                    unresolved_text(),
                ),
            },
    {
        match read_user_id(resource_path) {
            Some(id) => Ok(SingleUserRequestBuilder { client: self.client, id }),
            None => Err(Error::Decode(String::from_str("resolved resource is not a user"))),
        }
    }

    /// The path of the request.
    pub fn path(&self) -> (path: String)
        ensures
            path@ == users_path(),
    {
        String::from_str("/users")
    }

    /// The query parameters of the request: the search query under the
    /// name `q`, where one is set, and nothing else.
    pub fn request_params(&self) -> (params: Vec<(&str, String)>)
        ensures
            match self.search() {
                Some(query) => params@.len() == 1 && params@[0].0@ == "q"@ && params@[0].1@
                    == query,
                None => params@.len() == 0,
            },
    {
        let mut result = Vec::new();
        if let Some(ref query) = self.query {
            result.push(("q", query.clone()));
        }
        result
    }

    /// Reads the response to the request: a JSON array with one user in
    /// each element, which `decode` turns into a record. A body that is no
    /// array is a malformed envelope; a failure of `decode` on an element is
    /// the result, and the elements behind it are not decoded.
    pub fn get<F: Fn(&Value) -> Result<User, Error>>(&mut self, body: &Value, decode: &F) -> (r:
        Result<Vec<User>, Error>)
        requires
            forall|v: &Value| call_requires(*decode, (v,)),
        ensures
            *final(self) == *old(self),
            json_array(*body) is None ==> r == Err::<Vec<User>, Error>(Error::MalformedEnvelope),
            json_array(*body) is Some ==> exists|results: Seq<Result<User, Error>>|
                decoded_from(*decode, json_array(*body)->0, results) && gathered(results, r),
    {
        read_list(body, decode)
    }
}

/// What the error says when a resolved resource is no user.
pub open spec fn unresolved_text() -> Seq<char> {
    "resolved resource is not a user"@
}

impl<'a> SingleUserRequestBuilder<'a> {
    /// The client that the request is made for.
    pub closed spec fn spec_client(&self) -> &'a Client {
        self.client
    }

    /// The id of the user that the request concerns.
    pub closed spec fn spec_user_id(&self) -> usize {
        self.id
    }

    /// The client that the request is made for.
    #[verifier::when_used_as_spec(spec_client)]
    pub fn client(&self) -> (client: &'a Client)
        ensures
            client == self.spec_client(),
    {
        self.client
    }

    /// The id of the user that the request concerns.
    #[verifier::when_used_as_spec(spec_user_id)]
    pub fn user_id(&self) -> (user_id: usize)
        ensures
            user_id == self.spec_user_id(),
    {
        self.id
    }

    /// Creates a new user request builder, with no set parameters.
    pub fn new(client: &'a Client, id: usize) -> (builder: SingleUserRequestBuilder<'a>)
        ensures
            builder.client() == client,
            builder.user_id() == id,
    {
        SingleUserRequestBuilder { client, id }
    }

    /// The path of the user's resource.
    pub fn path(&self) -> (path: String)
        ensures
            path@ == user_path(self.user_id() as nat),
    {
        build_user_path(self.id)
    }

    /// Retrieve all tracks uploaded by the user.
    pub fn tracks(&self) -> (tracks: Tracks)
        ensures
            tracks.client() == self.client(),
            tracks.user_id() == self.user_id(),
    {
        Tracks::new(self.client.clone(), self.id)
    }

    /// Retrieve all tracks liked by the user.
    pub fn likes(&mut self) -> (likes: Likes)
        ensures
            *final(self) == *old(self),
            likes.client() == old(self).client(),
            likes.user_id() == old(self).user_id(),
    {
        Likes::new(self.client.clone(), self.id)
    }

    /// Retrieve all playlists uploaded by the user.
    pub fn playlists(&mut self) -> (playlists: Playlists)
        ensures
            *final(self) == *old(self),
            playlists.client() == old(self).client(),
            playlists.user_id() == old(self).user_id(),
    {
        Playlists::new(self.client.clone(), self.id)
    }

    /// Retrieve all comments for this user.
    pub fn comments(&mut self) -> (comments: Comments)
        ensures
            *final(self) == *old(self),
            comments.client() == old(self).client(),
            comments.user_id() == old(self).user_id(),
    {
        Comments::user(self.client.clone(), self.id)
    }

    /// Retrieve all users this user follows.
    pub fn followings(&mut self) -> (followings: Followings)
        ensures
            *final(self) == *old(self),
            followings.client() == old(self).client(),
            followings.user_id() == old(self).user_id(),
    {
        Followings::new(self.client.clone(), self.id)
    }

    /// Retrieve all this user's followers.
    pub fn followers(&mut self) -> (followers: Followers)
        ensures
            *final(self) == *old(self),
            followers.client() == old(self).client(),
            followers.user_id() == old(self).user_id(),
    {
        Followers::new(self.client.clone(), self.id)
    }

    /// Retrieve all this user's web profiles.
    pub fn web_profiles(&mut self) -> (profiles: WebProfiles)
        ensures
            *final(self) == *old(self),
            profiles.client() == old(self).client(),
            profiles.user_id() == old(self).user_id(),
    {
        WebProfiles::new(self.client.clone(), self.id)
    }
}

/// Provides access to the tracks that a user likes.
pub struct Likes {
    client: Client,
    user_id: usize,
}

impl Likes {
    /// The client that the collection is read for.
    pub closed spec fn spec_client(&self) -> &Client {
        &self.client
    }

    /// The id of the user that the collection belongs to.
    pub closed spec fn spec_user_id(&self) -> usize {
        self.user_id
    }

    /// The client that the collection is read for.
    #[verifier::when_used_as_spec(spec_client)]
    pub fn client(&self) -> (client: &Client)
        ensures
            client == self.spec_client(),
    {
        &self.client
    }

    /// The id of the user that the collection belongs to.
    #[verifier::when_used_as_spec(spec_user_id)]
    pub fn user_id(&self) -> (user_id: usize)
        ensures
            user_id == self.spec_user_id(),
    {
        self.user_id
    }

    /// The liked tracks of the user with this id.
    pub fn new(client: Client, user_id: usize) -> (collection: Self)
        ensures
            *collection.client() == client,
            collection.user_id() == user_id,
    {
        Likes { client, user_id }
    }
}

impl StreamingApi for Likes {
    open spec fn starting_path(&self) -> Seq<char> {
        user_collection_path(self.user_id() as nat, "favorites"@)
    }

    open spec fn declared_type(&self) -> RecordType {
        RecordType::Track
    }

    fn path(&self) -> (path: String) {
        build_user_collection_path(self.user_id, "favorites")
    }

    fn record_type(&self) -> (kind: RecordType) {
        RecordType::Track
    }

    fn get_stream<T>(&self, url: &str, pages: Option<u64>) -> (stream: PageStream<T>) {
        self.client.get_stream(url, pages)
    }
}

/// Provides access to the users that a user follows.
pub struct Followings {
    client: Client,
    user_id: usize,
}

impl Followings {
    /// The client that the collection is read for.
    pub closed spec fn spec_client(&self) -> &Client {
        &self.client
    }

    /// The id of the user that the collection belongs to.
    pub closed spec fn spec_user_id(&self) -> usize {
        self.user_id
    }

    /// The client that the collection is read for.
    #[verifier::when_used_as_spec(spec_client)]
    pub fn client(&self) -> (client: &Client)
        ensures
            client == self.spec_client(),
    {
        &self.client
    }

    /// The id of the user that the collection belongs to.
    #[verifier::when_used_as_spec(spec_user_id)]
    pub fn user_id(&self) -> (user_id: usize)
        ensures
            user_id == self.spec_user_id(),
    {
        self.user_id
    }

    /// The followings of the user with this id.
    pub fn new(client: Client, user_id: usize) -> (collection: Self)
        ensures
            *collection.client() == client,
            collection.user_id() == user_id,
    {
        Followings { client, user_id }
    }
}

impl StreamingApi for Followings {
    open spec fn starting_path(&self) -> Seq<char> {
        user_collection_path(self.user_id() as nat, "followings"@)
    }

    open spec fn declared_type(&self) -> RecordType {
        RecordType::User
    }

    fn path(&self) -> (path: String) {
        build_user_collection_path(self.user_id, "followings")
    }

    fn record_type(&self) -> (kind: RecordType) {
        RecordType::User
    }

    fn get_stream<T>(&self, url: &str, pages: Option<u64>) -> (stream: PageStream<T>) {
        self.client.get_stream(url, pages)
    }
}

/// Provides access to the followers of a user.
pub struct Followers {
    client: Client,
    user_id: usize,
}

impl Followers {
    /// The client that the collection is read for.
    pub closed spec fn spec_client(&self) -> &Client {
        &self.client
    }

    /// The id of the user that the collection belongs to.
    pub closed spec fn spec_user_id(&self) -> usize {
        self.user_id
    }

    /// The client that the collection is read for.
    #[verifier::when_used_as_spec(spec_client)]
    pub fn client(&self) -> (client: &Client)
        ensures
            client == self.spec_client(),
    {
        &self.client
    }

    /// The id of the user that the collection belongs to.
    #[verifier::when_used_as_spec(spec_user_id)]
    pub fn user_id(&self) -> (user_id: usize)
        ensures
            user_id == self.spec_user_id(),
    {
        self.user_id
    }

    /// The followers of the user with this id.
    pub fn new(client: Client, user_id: usize) -> (collection: Self)
        ensures
            *collection.client() == client,
            collection.user_id() == user_id,
    {
        Followers { client, user_id }
    }
}

impl StreamingApi for Followers {
    open spec fn starting_path(&self) -> Seq<char> {
        user_collection_path(self.user_id() as nat, "followers"@)
    }

    open spec fn declared_type(&self) -> RecordType {
        RecordType::User
    }

    fn path(&self) -> (path: String) {
        build_user_collection_path(self.user_id, "followers")
    }

    fn record_type(&self) -> (kind: RecordType) {
        RecordType::User
    }

    fn get_stream<T>(&self, url: &str, pages: Option<u64>) -> (stream: PageStream<T>) {
        self.client.get_stream(url, pages)
    }
}

} // verus!
