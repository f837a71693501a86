use soundcloud::client::Client;
use soundcloud::comment::Comments;
use soundcloud::error::Error;
use soundcloud::playlist::Playlists;
use soundcloud::stream::{PageStream, Phase, Step};
use soundcloud::streaming_api::{stream, RecordType, StreamingApi};
use soundcloud::track::Tracks;
use soundcloud::user::{
    Followers, Followings, Likes, SingleUserRequestBuilder, User, UserRequestBuilder,
};
use soundcloud::web_profile::WebProfiles;

#[test]
fn a_client_keeps_its_id() {
    let client = Client::new("abc123");
    assert_eq!(client.get_client_id(), "abc123");
    assert_eq!(client.clone().get_client_id(), "abc123");
}

#[test]
fn a_new_list_request_has_no_parameters() {
    let client = Client::new("id");
    let builder = UserRequestBuilder::new(&client);
    assert!(builder.request_params().is_empty());
    assert_eq!(builder.path(), "/users");
}

#[test]
fn a_query_becomes_the_parameter_q() {
    let client = Client::new("id");
    let mut builder = UserRequestBuilder::new(&client);
    builder.query(Some("monstercat"));
    assert_eq!(builder.request_params(), vec![("q", "monstercat".to_string())]);
}

#[test]
fn a_query_can_be_replaced_and_removed() {
    let client = Client::new("id");
    let mut builder = UserRequestBuilder::new(&client);
    assert_eq!(
        builder.query(Some("a")).query(Some("b")).request_params(),
        vec![("q", "b".to_string())]
    );
    builder.query(None);
    assert!(builder.request_params().is_empty());
    builder.query(Some(""));
    assert_eq!(builder.request_params(), vec![("q", String::new())]);
}

#[test]
fn a_request_for_one_user_carries_the_id() {
    let client = Client::new("id");
    let builder = UserRequestBuilder::new(&client);
    let single = builder.id(8928131);
    assert_eq!(single.id, 8928131);
    assert_eq!(single.path(), "/users/8928131");
    let direct = SingleUserRequestBuilder::new(&client, 7);
    assert_eq!(direct.id, 7);
    assert_eq!(direct.path(), "/users/7");
}

#[test]
fn a_permalink_is_resolved_at_the_site() {
    assert_eq!(UserRequestBuilder::permalink_url("monstercat"), "https://soundcloud.com/monstercat");
}

#[test]
fn a_resolved_path_gives_the_user() {
    let client = Client::new("id");
    let builder = UserRequestBuilder::new(&client);
    let single = builder.permalink("/users/8928131").unwrap();
    assert_eq!(single.id, 8928131);
    assert_eq!(single.path(), "/users/8928131");
}

#[test]
fn a_resolved_path_that_is_no_user_is_a_decode_error() {
    let client = Client::new("id");
    let builder = UserRequestBuilder::new(&client);
    let expected = Error::Decode("resolved resource is not a user".to_string());
    for path in ["/users/ada", "/users/42/", "users/42", "", "/", "/users/99999999999999999999999"] {
        match builder.permalink(path) {
            Err(e) => assert_eq!(e, expected),
            Ok(b) => panic!("{:?} gave user {}", path, b.id),
        }
    }
}

#[test]
fn the_collections_of_a_user_begin_below_the_user() {
    let client = Client::new("id");
    let mut single = SingleUserRequestBuilder::new(&client, 42);
    assert_eq!(single.tracks().path(), "/users/42/tracks");
    assert_eq!(single.likes().path(), "/users/42/favorites");
    assert_eq!(single.playlists().path(), "/users/42/playlists");
    assert_eq!(single.comments().path(), "/users/42/comments");
    assert_eq!(single.followings().path(), "/users/42/followings");
    assert_eq!(single.followers().path(), "/users/42/followers");
    assert_eq!(single.web_profiles().path(), "/users/42/web-profiles");
    assert_eq!(single.id, 42);
}

#[test]
fn the_collections_can_be_made_directly() {
    assert_eq!(Likes::new(Client::new("id"), 1).path(), "/users/1/favorites");
    assert_eq!(Followings::new(Client::new("id"), 2).path(), "/users/2/followings");
    assert_eq!(Followers::new(Client::new("id"), 3).path(), "/users/3/followers");
    assert_eq!(Tracks::new(Client::new("id"), 4).path(), "/users/4/tracks");
    assert_eq!(Playlists::new(Client::new("id"), 5).path(), "/users/5/playlists");
    assert_eq!(Comments::user(Client::new("id"), 6).path(), "/users/6/comments");
    assert_eq!(WebProfiles::new(Client::new("id"), 7).path(), "/users/7/web-profiles");
}

#[test]
fn each_collection_declares_its_record_type() {
    assert_eq!(Likes::new(Client::new("id"), 1).record_type(), RecordType::Track);
    assert_eq!(Tracks::new(Client::new("id"), 1).record_type(), RecordType::Track);
    assert_eq!(Followings::new(Client::new("id"), 1).record_type(), RecordType::User);
    assert_eq!(Followers::new(Client::new("id"), 1).record_type(), RecordType::User);
    assert_eq!(Playlists::new(Client::new("id"), 1).record_type(), RecordType::Playlist);
    assert_eq!(Comments::user(Client::new("id"), 1).record_type(), RecordType::Comment);
    assert_eq!(WebProfiles::new(Client::new("id"), 1).record_type(), RecordType::WebProfile);
}

#[test]
fn a_collection_streams_from_where_it_is_told() {
    let likes = Likes::new(Client::new("id"), 9);
    let mut from_url: PageStream<u32> = likes.get_stream("/users/9/favorites?limit=5", Some(3));
    assert_eq!(from_url.phase(), Phase::Fresh);
    assert_eq!(from_url.page_cap(), Some(3));
    assert_eq!(from_url.pages(), 0);
    assert_eq!(from_url.target(), Some("/users/9/favorites?limit=5"));
    assert!(matches!(from_url.poll(), Step::Fetch(t) if t == "/users/9/favorites?limit=5"));

    let mut from_start: PageStream<User> = stream(&likes, None);
    assert_eq!(from_start.page_cap(), None);
    assert!(matches!(from_start.poll(), Step::Fetch(t) if t == "/users/9/favorites"));
}

#[test]
fn a_client_streams_from_where_it_is_told() {
    let client = Client::new("id");
    let mut stream: PageStream<u32> = client.get_stream("/tracks", Some(2));
    assert_eq!(stream.page_cap(), Some(2));
    assert!(matches!(stream.poll(), Step::Fetch(t) if t == "/tracks"));
}

#[test]
fn errors_describe_themselves() {
    assert_eq!(Error::Transport("timed out".to_string()).message(), "timed out");
    assert_eq!(Error::Decode("missing field `id`".to_string()).message(), "missing field `id`");
    assert_eq!(Error::MalformedEnvelope.message(), "malformed page");
    let copy = Error::Decode("x".to_string()).clone();
    assert_eq!(copy, Error::Decode("x".to_string()));
}
