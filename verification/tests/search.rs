use radio_browser::{
    Cache, MemoryCache, PendingDecode, PendingFetch, RadioBrowserClient, RadioBrowserError,
    RadioStation, ReplyStep, SearchStep, TransportReply, DEFAULT_BASE_URL, DEFAULT_CAPACITY,
};

fn test_station() -> RadioStation {
    RadioStation {
        name: "Test Station".to_string(),
        url: "http://test.com".to_string(),
        votes: Some(100),
        tags: None,
        country: None,
    }
}

/// An optional text field: absent or null, or else a string.
fn optional_text(field: Option<&serde_json::Value>) -> Option<Option<String>> {
    match field {
        None => Some(None),
        Some(value) if value.is_null() => Some(None),
        Some(value) => Some(Some(value.as_str()?.to_string())),
    }
}

/// An optional number field: absent or null, or else an integer of 32 bits.
fn optional_number(field: Option<&serde_json::Value>) -> Option<Option<i32>> {
    match field {
        None => Some(None),
        Some(value) if value.is_null() => Some(None),
        Some(value) => Some(Some(i32::try_from(value.as_i64()?).ok()?)),
    }
}

/// Decodes a response body as the caller of the library does: a JSON array
/// of station objects, or `None` for anything else.
fn decode(body: &str) -> Option<Vec<RadioStation>> {
    let value: serde_json::Value = serde_json::from_str(body).ok()?;
    let mut stations = Vec::new();
    for item in value.as_array()? {
        stations.push(RadioStation {
            name: item.get("name")?.as_str()?.to_string(),
            url: item.get("url")?.as_str()?.to_string(),
            tags: optional_text(item.get("tags"))?,
            country: optional_text(item.get("country"))?,
            votes: optional_number(item.get("votes"))?,
        });
    }
    Some(stations)
}

fn ok_reply(body: &str) -> TransportReply {
    TransportReply::Response { status: 200, body: body.to_string() }
}

/// Begins a search that is expected to miss the cache.
fn expect_fetch<C: Cache>(client: &mut RadioBrowserClient<C>, tag: &str, limit: usize) -> PendingFetch {
    match client.search_by_tag(tag, limit) {
        SearchStep::Fetch(pending) => pending,
        SearchStep::Cached(_) => panic!("the cache answered a query it was never given"),
    }
}

/// Hands over a reply that is expected to ask for decoding.
fn expect_decode(pending: PendingFetch, reply: TransportReply) -> PendingDecode {
    match pending.on_reply(reply) {
        ReplyStep::Decode(pending) => pending,
        ReplyStep::Failed(error) => panic!("the reply was refused: {:?}", error),
    }
}

/// Runs a whole search against a directory that answers with `status` and
/// `body`. Counts the fetches in `fetches`.
fn run_search<C: Cache>(
    client: &mut RadioBrowserClient<C>,
    tag: &str,
    limit: usize,
    status: u16,
    body: &str,
    fetches: &mut usize,
) -> Result<Vec<RadioStation>, RadioBrowserError> {
    let pending = match client.search_by_tag(tag, limit) {
        SearchStep::Cached(stations) => return Ok(stations),
        SearchStep::Fetch(pending) => pending,
    };
    *fetches += 1;
    let reply = TransportReply::Response { status, body: body.to_string() };
    match pending.on_reply(reply) {
        ReplyStep::Failed(error) => Err(error),
        ReplyStep::Decode(pending) => {
            let decoded = decode(&pending.body);
            client.complete(pending, decoded)
        }
    }
}

const ONE_STATION: &str = "[{\"name\":\"Test Station\",\"url\":\"http://test.com\",\"votes\":100}]";

#[test]
fn test_search_with_cache() {
    let mut fetches = 0;
    let mut client = RadioBrowserClient::new()
        .with_base_url("http://127.0.0.1:1")
        .with_cache(MemoryCache::new(1));

    let stations = run_search(&mut client, "test", 1, 200, ONE_STATION, &mut fetches).unwrap();
    assert_eq!(stations[0].name, "Test Station");

    let cached = run_search(&mut client, "test", 1, 200, ONE_STATION, &mut fetches).unwrap();
    assert_eq!(cached[0].name, "Test Station");
    assert_eq!(fetches, 1);
}

#[test]
fn test_api_error() {
    let mut fetches = 0;
    let mut client = RadioBrowserClient::new()
        .with_base_url("http://127.0.0.1:1")
        .with_cache(MemoryCache::new(10));
    let result = run_search(&mut client, "test", 1, 500, "", &mut fetches);
    assert!(matches!(result, Err(RadioBrowserError::ApiError(_))));
}

#[test]
fn a_new_client_asks_the_default_directory() {
    assert_eq!(DEFAULT_BASE_URL, "https://de1.api.radio-browser.info");
    let mut client = RadioBrowserClient::new();
    let pending = expect_fetch(&mut client, "rock", 5);
    assert_eq!(pending.key, "search:rock:5");
    assert_eq!(
        pending.url,
        "https://de1.api.radio-browser.info/json/stations/search?tag=rock&limit=5"
    );
}

#[test]
fn with_base_url_changes_the_address_and_not_the_key() {
    let mut client = RadioBrowserClient::new().with_base_url("http://localhost:9000");
    let pending = expect_fetch(&mut client, "jazz", 12);
    assert_eq!(pending.key, "search:jazz:12");
    assert_eq!(pending.url, "http://localhost:9000/json/stations/search?tag=jazz&limit=12");
}

#[test]
fn a_repeated_search_is_answered_without_a_fetch() {
    let mut client = RadioBrowserClient::new();
    let pending = expect_fetch(&mut client, "rock", 5);
    let pending = expect_decode(pending, ok_reply("[...]"));
    let first = client.complete(pending, Some(vec![test_station()])).unwrap();
    assert_eq!(first, vec![test_station()]);
    match client.search_by_tag("rock", 5) {
        SearchStep::Cached(stations) => assert_eq!(stations, vec![test_station()]),
        SearchStep::Fetch(_) => panic!("a cached query asked for a fetch"),
    }
    match client.search_by_tag("rock", 5) {
        SearchStep::Cached(stations) => assert_eq!(stations, vec![test_station()]),
        SearchStep::Fetch(_) => panic!("a cached query asked for a fetch"),
    }
}

#[test]
fn a_search_with_another_limit_or_tag_is_fetched() {
    let mut client = RadioBrowserClient::new();
    let pending = expect_fetch(&mut client, "rock", 5);
    let pending = expect_decode(pending, ok_reply("[...]"));
    client.complete(pending, Some(vec![test_station()])).unwrap();
    let other = expect_fetch(&mut client, "rock", 6);
    assert_eq!(other.key, "search:rock:6");
    let other = expect_fetch(&mut client, "pop", 5);
    assert_eq!(other.key, "search:pop:5");
}

#[test]
fn status_500_fails_with_the_body_text() {
    let mut client = RadioBrowserClient::new();
    let pending = expect_fetch(&mut client, "rock", 5);
    let reply = TransportReply::Response { status: 500, body: "server error".to_string() };
    match pending.on_reply(reply) {
        ReplyStep::Failed(RadioBrowserError::ApiError(body)) => assert_eq!(body, "server error"),
        _ => panic!("status 500 was not refused as an API error"),
    }
}

#[test]
fn status_200_with_one_station_gives_that_station() {
    let mut client = RadioBrowserClient::new();
    let pending = expect_fetch(&mut client, "test", 1);
    let pending = expect_decode(pending, ok_reply(ONE_STATION));
    assert_eq!(pending.key, "search:test:1");
    assert_eq!(pending.body, ONE_STATION);
    let decoded = decode(&pending.body);
    let stations = client.complete(pending, decoded).unwrap();
    assert_eq!(stations.len(), 1);
    assert_eq!(stations[0].name, "Test Station");
    assert_eq!(stations[0].url, "http://test.com");
    assert_eq!(stations[0].votes, Some(100));
    assert_eq!(stations[0].tags, None);
    assert_eq!(stations[0].country, None);
}

#[test]
fn success_is_a_status_from_200_to_299() {
    for status in [200u16, 201, 204, 250, 299] {
        let pending = PendingFetch { key: "k".to_string(), url: "u".to_string() };
        match pending.on_reply(TransportReply::Response { status, body: "b".to_string() }) {
            ReplyStep::Decode(pending) => {
                assert_eq!(pending.key, "k");
                assert_eq!(pending.body, "b");
            }
            ReplyStep::Failed(_) => panic!("status {} was refused", status),
        }
    }
    for status in [0u16, 100, 199, 300, 301, 404, 500, 503, 999, u16::MAX] {
        let pending = PendingFetch { key: "k".to_string(), url: "u".to_string() };
        match pending.on_reply(TransportReply::Response { status, body: "b".to_string() }) {
            ReplyStep::Failed(RadioBrowserError::ApiError(body)) => assert_eq!(body, "b"),
            _ => panic!("status {} was not refused as an API error", status),
        }
    }
}

#[test]
fn a_failed_exchange_fails_with_the_transport_account() {
    let pending = PendingFetch { key: "k".to_string(), url: "u".to_string() };
    match pending.on_reply(TransportReply::Failed("connection refused".to_string())) {
        ReplyStep::Failed(RadioBrowserError::RequestError(detail)) => {
            assert_eq!(detail, "connection refused")
        }
        _ => panic!("a failed exchange was not reported as a request error"),
    }
}

#[test]
fn a_body_that_is_no_station_list_fails_with_its_text() {
    let mut client = RadioBrowserClient::new();
    let pending = expect_fetch(&mut client, "rock", 5);
    let pending = expect_decode(pending, ok_reply("<html>"));
    let decoded = decode(&pending.body);
    assert_eq!(decoded, None);
    match client.complete(pending, decoded) {
        Err(RadioBrowserError::ApiError(body)) => assert_eq!(body, "<html>"),
        _ => panic!("an undecodable body was not refused as an API error"),
    }
}

#[test]
fn a_failed_search_caches_nothing() {
    let mut fetches = 0;
    let mut client = RadioBrowserClient::new();
    assert!(run_search(&mut client, "rock", 5, 503, "busy", &mut fetches).is_err());
    assert!(run_search(&mut client, "rock", 5, 200, "{", &mut fetches).is_err());
    assert!(run_search(&mut client, "rock", 5, 200, "[{\"name\":\"x\"}]", &mut fetches).is_err());
    let found = run_search(&mut client, "rock", 5, 200, ONE_STATION, &mut fetches);
    assert_eq!(found.unwrap(), vec![test_station()]);
    assert_eq!(fetches, 4);
    let again = run_search(&mut client, "rock", 5, 500, "down", &mut fetches);
    assert_eq!(again.unwrap(), vec![test_station()]);
    assert_eq!(fetches, 4);
}

#[test]
fn an_empty_result_is_cached() {
    let mut fetches = 0;
    let mut client = RadioBrowserClient::new();
    let first = run_search(&mut client, "none", 5, 200, "[]", &mut fetches);
    assert_eq!(first.unwrap(), Vec::new());
    match client.search_by_tag("none", 5) {
        SearchStep::Cached(stations) => assert!(stations.is_empty()),
        SearchStep::Fetch(_) => panic!("an empty result was not cached"),
    }
    let second = run_search(&mut client, "none", 5, 200, "[]", &mut fetches);
    assert_eq!(second.unwrap(), Vec::new());
    assert_eq!(fetches, 1);
}

#[test]
fn a_cache_of_capacity_zero_makes_every_search_fetch() {
    let mut fetches = 0;
    let mut client = RadioBrowserClient::new().with_cache(MemoryCache::new(0));
    for _ in 0..3 {
        let found = run_search(&mut client, "rock", 5, 200, ONE_STATION, &mut fetches);
        assert_eq!(found.unwrap(), vec![test_station()]);
    }
    assert_eq!(fetches, 3);
}

#[test]
fn with_cache_puts_the_given_cache_in_front() {
    let mut cache = MemoryCache::new(2);
    cache.set("search:rock:5".to_string(), vec![test_station()]);
    let mut client = RadioBrowserClient::new().with_cache(cache);
    match client.search_by_tag("rock", 5) {
        SearchStep::Cached(stations) => assert_eq!(stations, vec![test_station()]),
        SearchStep::Fetch(_) => panic!("the given cache was not asked"),
    }
}

#[test]
fn the_least_recently_searched_query_leaves_a_full_cache() {
    let mut fetches = 0;
    let mut client = RadioBrowserClient::new().with_cache(MemoryCache::new(2));
    run_search(&mut client, "a", 1, 200, ONE_STATION, &mut fetches).unwrap();
    run_search(&mut client, "b", 1, 200, ONE_STATION, &mut fetches).unwrap();
    run_search(&mut client, "a", 1, 200, ONE_STATION, &mut fetches).unwrap();
    assert_eq!(fetches, 2);
    run_search(&mut client, "c", 1, 200, ONE_STATION, &mut fetches).unwrap();
    assert_eq!(fetches, 3);
    run_search(&mut client, "a", 1, 200, ONE_STATION, &mut fetches).unwrap();
    assert_eq!(fetches, 3);
    run_search(&mut client, "b", 1, 200, ONE_STATION, &mut fetches).unwrap();
    assert_eq!(fetches, 4);
}

#[test]
fn a_new_client_caches_a_hundred_queries() {
    assert_eq!(DEFAULT_CAPACITY, 100);
    let mut fetches = 0;
    let mut client = RadioBrowserClient::new();
    for limit in 1..=100 {
        run_search(&mut client, "rock", limit, 200, ONE_STATION, &mut fetches).unwrap();
    }
    assert_eq!(fetches, 100);
    for limit in 1..=100 {
        run_search(&mut client, "rock", limit, 200, ONE_STATION, &mut fetches).unwrap();
    }
    assert_eq!(fetches, 100);
    run_search(&mut client, "rock", 101, 200, ONE_STATION, &mut fetches).unwrap();
    assert_eq!(fetches, 101);
    run_search(&mut client, "rock", 1, 200, ONE_STATION, &mut fetches).unwrap();
    assert_eq!(fetches, 102);
}

#[test]
fn an_error_describes_itself() {
    let request = RadioBrowserError::RequestError("connection refused".to_string());
    assert_eq!(request.message(), "HTTP request failed: connection refused");
    let api = RadioBrowserError::ApiError("server error".to_string());
    assert_eq!(api.message(), "API error: server error");
}
