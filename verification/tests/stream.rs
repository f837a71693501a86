use soundcloud::client::Client;
use soundcloud::error::Error;
use soundcloud::stream::{Page, PageStream, Phase, Step};
use soundcloud::streaming_api::{stream, StreamingApi};
use soundcloud::trace::{replay, Run};
use soundcloud::user::{Followers, User};

fn a_user(id: usize, name: &str) -> User {
    User {
        id,
        permalink: name.to_string(),
        username: name.to_string(),
        uri: format!("https://api.soundcloud.com/users/{}", id),
        permalink_url: format!("https://soundcloud.com/{}", name),
        avatar_url: format!("https://i1.sndcdn.com/avatars-{}.jpg", id),
        country: None,
        full_name: None,
        city: None,
        description: None,
        discogs_name: None,
        myspace_name: None,
        website: None,
        website_title: None,
        online: Some(false),
        track_count: Some(0),
        playlist_count: None,
        followers_count: None,
        followings_count: None,
        public_favorites_count: None,
    }
}

fn a_page(items: Vec<Result<u32, Error>>, next: Option<&str>) -> Result<Page<u32>, Error> {
    Ok(Page { items, next: next.map(|t| t.to_string()) })
}

fn numbers(from: u32, count: u32) -> Vec<Result<u32, Error>> {
    (from..from + count).map(Ok).collect()
}

/// Polls a stream by hand: every page that it asks for is answered from
/// `responses`, in order.
fn drive<T>(
    mut stream: PageStream<T>,
    mut responses: Vec<Result<Page<T>, Error>>,
) -> (Vec<Result<T, Error>>, Vec<String>, PageStream<T>) {
    let mut elements = Vec::new();
    let mut requests = Vec::new();
    loop {
        match stream.poll() {
            Step::Item(element) => elements.push(element),
            Step::Fetch(target) => {
                requests.push(target);
                if responses.is_empty() {
                    break;
                }
                stream.deliver(responses.remove(0));
            }
            Step::Done => break,
        }
    }
    (elements, requests, stream)
}

fn followers_script() -> Vec<Result<Page<User>, Error>> {
    vec![
        Ok(Page {
            items: vec![Ok(a_user(1, "ada")), Ok(a_user(2, "grace"))],
            next: Some("/users/42/followers?cursor=2".to_string()),
        }),
        Ok(Page { items: vec![Ok(a_user(3, "edsger"))], next: None }),
    ]
}

fn ids(elements: &[Result<User, Error>]) -> Vec<usize> {
    elements.iter().map(|e| e.as_ref().unwrap().id).collect()
}

#[test]
fn followers_over_two_pages_without_cap() {
    let followers = Followers::new(Client::new("id"), 42);
    assert_eq!(followers.path(), "/users/42/followers");
    let start: PageStream<User> = stream(&followers, None);
    let (elements, requests, end) = drive(start, followers_script());
    assert_eq!(elements.len(), 3);
    assert!(elements.iter().all(|e| e.is_ok()));
    assert_eq!(ids(&elements), vec![1, 2, 3]);
    assert_eq!(requests, vec!["/users/42/followers", "/users/42/followers?cursor=2"]);
    assert_eq!(end.phase(), Phase::Exhausted);
    assert_eq!(end.pages(), 2);
}

#[test]
fn followers_with_cap_of_one_page() {
    let followers = Followers::new(Client::new("id"), 42);
    let start: PageStream<User> = stream(&followers, Some(1));
    let (elements, requests, end) = drive(start, followers_script());
    assert_eq!(ids(&elements), vec![1, 2]);
    assert_eq!(requests, vec!["/users/42/followers"]);
    assert_eq!(end.phase(), Phase::Exhausted);
    assert_eq!(end.target(), None);
}

#[test]
fn replay_agrees_with_polling_by_hand() {
    let followers = Followers::new(Client::new("id"), 42);
    let by_hand = drive(stream::<Followers, User>(&followers, None), followers_script());
    let run: Run<User> = replay(stream(&followers, None), followers_script(), None);
    assert_eq!(ids(&run.elements), ids(&by_hand.0));
    assert_eq!(run.requests, by_hand.1);
    assert!(run.ended);
}

#[test]
fn cap_of_zero_is_an_empty_sequence_without_a_request() {
    let mut stream = PageStream::<u32>::new("/tracks", Some(0));
    assert_eq!(stream.phase(), Phase::Fresh);
    assert!(matches!(stream.poll(), Step::Done));
    assert_eq!(stream.pages(), 0);
    assert_eq!(stream.phase(), Phase::Exhausted);
    let run = replay(PageStream::<u32>::new("/tracks", Some(0)), vec![a_page(numbers(0, 3), None)], None);
    assert!(run.elements.is_empty());
    assert!(run.requests.is_empty());
    assert!(run.ended);
}

#[test]
fn requests_never_exceed_the_cap() {
    for cap in 0..6u64 {
        let endless: Vec<_> = (0..10).map(|i| a_page(numbers(i * 2, 2), Some("/more"))).collect();
        let run = replay(PageStream::new("/start", Some(cap)), endless, None);
        assert_eq!(run.requests.len() as u64, cap);
        assert_eq!(run.elements.len() as u64, 2 * cap);
        assert!(run.ended);
    }
}

#[test]
fn pages_come_in_order_and_items_in_the_order_of_their_page() {
    let script = vec![
        a_page(vec![Ok(5), Ok(3), Ok(9)], Some("/items?page=2")),
        a_page(vec![], Some("/items?page=3")),
        a_page(vec![Ok(3), Ok(1)], Some("/items?page=4")),
        a_page(vec![Ok(8)], None),
    ];
    let run = replay(PageStream::new("/items", None), script, None);
    assert_eq!(run.elements, vec![Ok(5), Ok(3), Ok(9), Ok(3), Ok(1), Ok(8)]);
    assert_eq!(run.requests, vec!["/items", "/items?page=2", "/items?page=3", "/items?page=4"]);
    assert!(run.ended);
}

#[test]
fn a_failed_request_ends_the_sequence_with_one_error() {
    let failure = Error::Transport("503 Service Unavailable".to_string());
    let script = vec![
        a_page(numbers(1, 2), Some("/items?page=2")),
        a_page(numbers(3, 2), Some("/items?page=3")),
        Err(failure.clone()),
        a_page(numbers(5, 2), None),
    ];
    let (elements, requests, mut end) = drive(PageStream::new("/items", None), script);
    assert_eq!(elements, vec![Ok(1), Ok(2), Ok(3), Ok(4), Err(failure)]);
    assert_eq!(requests, vec!["/items", "/items?page=2", "/items?page=3"]);
    assert_eq!(end.phase(), Phase::Failed);
    assert!(matches!(end.poll(), Step::Done));
    assert_eq!(end.phase(), Phase::Failed);
    assert_eq!(end.pages(), 3);
}

#[test]
fn a_failed_first_request_yields_the_error_alone() {
    let failure = Error::Transport("connection refused".to_string());
    let run = replay(PageStream::<u32>::new("/items", None), vec![Err(failure.clone())], None);
    assert_eq!(run.elements, vec![Err(failure)]);
    assert_eq!(run.requests, vec!["/items"]);
    assert!(run.ended);
}

#[test]
fn a_malformed_page_yields_one_error() {
    let script = vec![a_page(numbers(1, 1), Some("/items?page=2")), Err(Error::MalformedEnvelope)];
    let run = replay(PageStream::new("/items", None), script, None);
    assert_eq!(run.elements, vec![Ok(1), Err(Error::MalformedEnvelope)]);
    assert_eq!(run.requests.len(), 2);
    assert!(run.ended);
}

#[test]
fn a_failed_item_ends_the_sequence_behind_its_predecessors() {
    let bad = Error::Decode("missing field `id`".to_string());
    let script = vec![
        a_page(numbers(1, 2), Some("/items?page=2")),
        a_page(vec![Ok(3), Err(bad.clone()), Ok(5), Err(Error::Decode("later".to_string()))], Some("/items?page=3")),
        a_page(numbers(6, 2), None),
    ];
    let (elements, requests, end) = drive(PageStream::new("/items", None), script);
    assert_eq!(elements, vec![Ok(1), Ok(2), Ok(3), Err(bad)]);
    assert_eq!(requests, vec!["/items", "/items?page=2"]);
    assert_eq!(end.phase(), Phase::Failed);
    assert_eq!(end.target(), None);
}

#[test]
fn the_same_inputs_give_the_same_sequence() {
    let script = || {
        vec![
            a_page(numbers(1, 3), Some("/items?page=2")),
            a_page(vec![Ok(4), Err(Error::Decode("bad".to_string()))], None),
        ]
    };
    let first = replay(PageStream::new("/items", Some(5)), script(), None);
    let second = replay(PageStream::new("/items", Some(5)), script(), None);
    assert_eq!(first.elements, second.elements);
    assert_eq!(first.requests, second.requests);
    assert_eq!(first.ended, second.ended);
}

#[test]
fn an_abandoned_stream_asks_for_no_page_that_was_not_needed() {
    let script = || {
        vec![
            a_page(numbers(1, 3), Some("/items?page=2")),
            a_page(numbers(4, 3), Some("/items?page=3")),
            a_page(numbers(7, 3), None),
        ]
    };
    let expected_requests = [0usize, 1, 1, 1, 2, 2, 2, 3, 3, 3];
    for taken in 0..10usize {
        let run = replay(PageStream::new("/items", None), script(), Some(taken));
        assert_eq!(run.elements, numbers(1, taken as u32));
        assert_eq!(run.requests.len(), expected_requests[taken]);
        assert!(!run.ended);
    }
    let all = replay(PageStream::new("/items", None), script(), Some(10));
    assert_eq!(all.elements.len(), 9);
    assert!(all.ended);
}

#[test]
fn nothing_is_asked_for_while_elements_are_pending() {
    let mut stream = PageStream::new("/items", None);
    assert!(matches!(stream.poll(), Step::Fetch(t) if t == "/items"));
    stream.deliver(a_page(numbers(1, 2), Some("/items?page=2")));
    assert_eq!(stream.buffered(), 2);
    assert_eq!(stream.phase(), Phase::Yielding);
    assert_eq!(stream.target(), Some("/items?page=2"));
    assert!(matches!(stream.poll(), Step::Item(Ok(1))));
    assert_eq!(stream.pages(), 1);
    assert!(matches!(stream.poll(), Step::Item(Ok(2))));
    assert_eq!(stream.pages(), 1);
    assert!(matches!(stream.poll(), Step::Fetch(t) if t == "/items?page=2"));
    assert_eq!(stream.pages(), 2);
}

#[test]
fn a_stream_that_waits_asks_for_the_same_page_again() {
    let mut stream = PageStream::<u32>::new("/items", Some(1));
    assert!(matches!(stream.poll(), Step::Fetch(t) if t == "/items"));
    assert_eq!(stream.phase(), Phase::Fetching);
    assert!(matches!(stream.poll(), Step::Fetch(t) if t == "/items"));
    assert_eq!(stream.pages(), 1);
    assert_eq!(stream.page_cap(), Some(1));
}

#[test]
fn a_response_that_was_not_asked_for_is_discarded() {
    let mut fresh = PageStream::new("/items", None);
    fresh.deliver(a_page(numbers(1, 2), None));
    assert_eq!(fresh.phase(), Phase::Fresh);
    assert_eq!(fresh.buffered(), 0);
    assert!(matches!(fresh.poll(), Step::Fetch(t) if t == "/items"));

    let (_, _, mut ended) = drive(PageStream::new("/items", None), vec![a_page(numbers(1, 1), None)]);
    assert_eq!(ended.phase(), Phase::Exhausted);
    ended.deliver(a_page(numbers(7, 2), Some("/again")));
    assert_eq!(ended.phase(), Phase::Exhausted);
    assert_eq!(ended.buffered(), 0);
    assert!(matches!(ended.poll(), Step::Done));
}

#[test]
fn an_empty_page_with_a_continuation_goes_on() {
    let script = vec![a_page(vec![], Some("/items?page=2")), a_page(numbers(1, 1), None)];
    let run = replay(PageStream::new("/items", None), script, None);
    assert_eq!(run.elements, vec![Ok(1)]);
    assert_eq!(run.requests, vec!["/items", "/items?page=2"]);
    assert!(run.ended);
}

#[test]
fn an_empty_last_page_ends_without_an_error() {
    let script = vec![a_page(numbers(1, 2), Some("/items?page=2")), a_page(vec![], None)];
    let run = replay(PageStream::new("/items", None), script, None);
    assert_eq!(run.elements, vec![Ok(1), Ok(2)]);
    assert_eq!(run.requests.len(), 2);
    assert!(run.ended);
}

#[test]
fn a_run_stops_where_the_responses_run_out() {
    let run = replay(PageStream::new("/items", None), vec![a_page(numbers(1, 2), Some("/items?page=2"))], None);
    assert_eq!(run.elements, vec![Ok(1), Ok(2)]);
    assert_eq!(run.requests, vec!["/items", "/items?page=2"]);
    assert!(!run.ended);
}

#[test]
fn a_stream_is_exhausted_as_soon_as_its_last_element_is_out() {
    let mut last_page = PageStream::new("/items", None);
    assert!(matches!(last_page.poll(), Step::Fetch(_)));
    last_page.deliver(a_page(numbers(1, 2), None));
    assert_eq!(last_page.phase(), Phase::Yielding);
    assert!(matches!(last_page.poll(), Step::Item(Ok(1))));
    assert_eq!(last_page.phase(), Phase::Yielding);
    assert!(matches!(last_page.poll(), Step::Item(Ok(2))));
    assert_eq!(last_page.phase(), Phase::Exhausted);
    assert!(matches!(last_page.poll(), Step::Done));

    let mut capped = PageStream::new("/items", Some(1));
    assert!(matches!(capped.poll(), Step::Fetch(_)));
    capped.deliver(a_page(numbers(1, 1), Some("/items?page=2")));
    assert_eq!(capped.target(), Some("/items?page=2"));
    assert!(matches!(capped.poll(), Step::Item(Ok(1))));
    assert_eq!(capped.phase(), Phase::Exhausted);
    assert_eq!(capped.target(), None);

    let mut empty = PageStream::<u32>::new("/items", None);
    assert!(matches!(empty.poll(), Step::Fetch(_)));
    empty.deliver(a_page(vec![], None));
    assert_eq!(empty.phase(), Phase::Exhausted);
    assert!(matches!(empty.poll(), Step::Done));
}

#[test]
fn a_failed_stream_stays_failed() {
    let mut stream = PageStream::<u32>::new("/items", None);
    assert!(matches!(stream.poll(), Step::Fetch(_)));
    stream.deliver(Err(Error::Transport("reset".to_string())));
    assert_eq!(stream.phase(), Phase::Failed);
    assert_eq!(stream.buffered(), 1);
    assert!(matches!(stream.poll(), Step::Item(Err(Error::Transport(_)))));
    assert_eq!(stream.phase(), Phase::Failed);
    assert!(matches!(stream.poll(), Step::Done));
    stream.deliver(a_page(numbers(1, 1), None));
    assert!(matches!(stream.poll(), Step::Done));
    assert_eq!(stream.phase(), Phase::Failed);
    assert_eq!(stream.pages(), 1);
}
