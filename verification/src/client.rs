//! The lookup client. It owns the cache and decides each step of a search;
//! the HTTP exchange and the decoding of its body are done by the caller, who
//! hands their outcome back.
//!
//! A search runs in up to three steps. [`RadioBrowserClient::search_by_tag`]
//! asks the cache and either answers at once or names the address to fetch.
//! [`PendingFetch::on_reply`] judges what the transport brought back and
//! either fails or asks for the body to be decoded.
//! [`RadioBrowserClient::complete`] caches and returns the decoded list.

use vstd::prelude::*;
use vstd::string::*;
use crate::cache::{after_read, after_write, Cache, MemoryCache};
use crate::error::{ErrorView, RadioBrowserError};
use crate::query::{cache_key, cache_key_of, law_cache_key_identifies_query, search_url, search_url_of};
use crate::recency::Entry;
use crate::station::{clone_stations, RadioStation, StationView};

verus! {

/// The number of keys the cache of a new client holds.
pub const DEFAULT_CAPACITY: usize = 100;

/// The directory that a new client asks.
pub const DEFAULT_BASE_URL: &'static str = "https://de1.api.radio-browser.info";

/// Whether a status code reports success: the codes from 200 to 299.
pub open spec fn is_success(status: u16) -> bool {
    200 <= status < 300
}

/// The answer that the cache has for a query, if it has one.
pub open spec fn cached_answer(
    entries: Map<Seq<char>, Seq<StationView>>,
    tag: Seq<char>,
    limit: nat,
) -> Option<Seq<StationView>> {
    entries.index_opt(cache_key_of(tag, limit))
}

/// What the transport brought back for one GET.
pub enum TransportReply {
    /// The exchange failed: no connection, no name, no response in time.
    /// Holds the transport's account of the failure.
    Failed(String),
    /// The exchange completed.
    Response { status: u16, body: String },
}

/// A search that missed the cache and waits for its GET.
pub struct PendingFetch {
    /// The key under which the result will be cached.
    pub key: String,
    /// The address to fetch.
    pub url: String,
}

/// A search whose response body waits to be decoded.
pub struct PendingDecode {
    /// The key under which the result will be cached.
    pub key: String,
    /// The text of the response body.
    pub body: String,
}

/// How a search goes on after the cache was asked.
pub enum SearchStep {
    /// The cache had the answer: there is nothing to fetch.
    Cached(Vec<RadioStation>),
    /// The cache had none: the address is to be fetched.
    Fetch(PendingFetch),
}

/// How a search goes on after the transport replied.
pub enum ReplyStep {
    /// The search failed.
    Failed(RadioBrowserError),
    /// The response reports success: its body is to be decoded.
    Decode(PendingDecode),
}

/// A client for tag searches in a station directory, with a cache in front.
pub struct RadioBrowserClient<C: Cache> {
    base_url: String,
    cache: C,
}

impl RadioBrowserClient<MemoryCache> {
    /// A client for the default directory, with an empty in-memory cache of
    /// [`DEFAULT_CAPACITY`] keys.
    pub fn new() -> (client: Self)
        ensures
            client.base() == DEFAULT_BASE_URL@,
            client.store().recency() == Seq::<Entry>::empty(),
            client.store().capacity() == DEFAULT_CAPACITY,
    {
        RadioBrowserClient {
            base_url: String::from_str(DEFAULT_BASE_URL),
            cache: MemoryCache::new(DEFAULT_CAPACITY),
        }
    }
}

impl<C: Cache> RadioBrowserClient<C> {
    /// The address of the directory, without a trailing path.
    pub closed spec fn base(&self) -> Seq<char> {
        self.base_url@
    }

    /// The cache.
    pub closed spec fn store(&self) -> C {
        self.cache
    }

    /// The same client, asking the directory at `base_url`.
    pub fn with_base_url(self, base_url: &str) -> (client: Self)
        ensures
            client.base() == base_url@,
            client.store() == self.store(),
    {
        RadioBrowserClient { base_url: String::from_str(base_url), cache: self.cache }
    }

    /// The same client, with `cache` in place of its cache.
    pub fn with_cache<D: Cache>(self, cache: D) -> (client: RadioBrowserClient<D>)
        ensures
            client.base() == self.base(),
            client.store() == cache,
    {
        RadioBrowserClient { base_url: self.base_url, cache }
    }

    /// Begins a search for at most `limit` stations with `tag`. If the cache
    /// holds the answer it is returned and nothing is to be fetched;
    /// otherwise the result names the address to fetch.
    pub fn search_by_tag(&mut self, tag: &str, limit: usize) -> (step: SearchStep)
        ensures
            match step {
                SearchStep::Cached(stations) => cached_answer(
                    old(self).store().entries(),
                    tag@,
                    limit as nat,
                ) == Some(stations.deep_view()),
                SearchStep::Fetch(pending) => {
                    &&& cached_answer(old(self).store().entries(), tag@, limit as nat) is None
                    &&& pending.key@ == cache_key_of(tag@, limit as nat)
                    &&& pending.url@ == search_url_of(old(self).base(), tag@, limit as nat)
                },
            },
            final(self).base() == old(self).base(),
            after_read(old(self).store(), final(self).store(), cache_key_of(tag@, limit as nat)),
    {
        let key = cache_key(tag, limit);
        match self.cache.get(key.as_str()) {
            Some(stations) => SearchStep::Cached(stations),
            None => {
                let url = search_url(self.base_url.as_str(), tag, limit);
                SearchStep::Fetch(PendingFetch { key, url })
            },
        }
    }

    /// Ends a search with what the decoder made of the response body: the
    /// station list, or `None` if the body is no station list. A list, empty
    /// or not, is cached under the search's key and returned. Without a
    /// list the search fails with the body's text, and the cache is left as
    /// it was.
    pub fn complete(&mut self, pending: PendingDecode, decoded: Option<Vec<RadioStation>>) -> (result:
        Result<Vec<RadioStation>, RadioBrowserError>)
        ensures
            match decoded {
                Some(stations) => {
                    &&& result matches Ok(found)
                    &&& found.deep_view() == stations.deep_view()
                    &&& after_write(
                        old(self).store(),
                        final(self).store(),
                        pending.key@,
                        stations.deep_view(),
                    )
                },
                None => {
                    &&& result matches Err(error)
                    &&& error@ == ErrorView::Api(pending.body@)
                    &&& final(self).store() == old(self).store()
                },
            },
            final(self).base() == old(self).base(),
    {
        match decoded {
            Some(stations) => {
                self.cache.set(pending.key, clone_stations(&stations));
                Ok(stations)
            },
            None => Err(RadioBrowserError::ApiError(pending.body)),
        }
    }
}

impl PendingFetch {
    /// Judges what the transport brought back. A failed exchange fails the
    /// search with the transport's account; a status other than success
    /// fails it with the text of the body; with a status of success the body
    /// is to be decoded.
    pub fn on_reply(self, reply: TransportReply) -> (step: ReplyStep)
        ensures
            match reply {
                TransportReply::Failed(detail) => {
                    &&& step matches ReplyStep::Failed(error)
                    &&& error@ == ErrorView::Request(detail@)
                },
                TransportReply::Response { status, body } => if is_success(status) {
                    &&& step matches ReplyStep::Decode(pending)
                    &&& pending.key@ == self.key@
                    &&& pending.body@ == body@
                } else {
                    &&& step matches ReplyStep::Failed(error)
                    &&& error@ == ErrorView::Api(body@)
                },
            },
    {
        match reply {
            TransportReply::Failed(detail) => ReplyStep::Failed(RadioBrowserError::RequestError(detail)),
            TransportReply::Response { status, body } => {
                if 200 <= status && status < 300 {
                    ReplyStep::Decode(PendingDecode { key: self.key, body })
                } else {
                    ReplyStep::Failed(RadioBrowserError::ApiError(body))
                }
            },
        }
    }
}

/// A search that was completed is answered from the cache when it is made
/// again: once a retentive cache has been given the list of a query, it
/// holds the answer to that query, so that [`RadioBrowserClient::search_by_tag`]
/// returns the list and asks for no fetch. A cache that is not retentive,
/// such as an in-memory cache of capacity 0, is left out: it may not have
/// kept the list.
pub proof fn law_repeated_search_needs_no_fetch<C: Cache>(
    before: C,
    after: C,
    tag: Seq<char>,
    limit: nat,
    stations: Seq<StationView>,
)
    requires
        before.retentive(),
        after_write(before, after, cache_key_of(tag, limit), stations),
    ensures
        cached_answer(after.entries(), tag, limit) == Some(stations),
{
}

/// An empty result is a result: once a retentive cache has been given the
/// empty list of a query, its answer to that query is the empty list, which
/// is not the same as having no answer.
pub proof fn law_empty_result_is_cached<C: Cache>(before: C, after: C, tag: Seq<char>, limit: nat)
    requires
        before.retentive(),
        after_write(before, after, cache_key_of(tag, limit), Seq::<StationView>::empty()),
    ensures
        cached_answer(after.entries(), tag, limit) == Some(Seq::<StationView>::empty()),
        cached_answer(after.entries(), tag, limit) is Some,
{
}

/// Queries that differ in tag or limit do not share an answer: what is
/// cached for one query is never the answer to another.
pub proof fn law_answers_are_kept_apart<C: Cache>(
    before: C,
    after: C,
    tag: Seq<char>,
    limit: nat,
    stations: Seq<StationView>,
    other_tag: Seq<char>,
    other_limit: nat,
)
    requires
        after_write(before, after, cache_key_of(tag, limit), stations),
        tag != other_tag || limit != other_limit,
        cached_answer(after.entries(), other_tag, other_limit) is Some,
    ensures
        cached_answer(after.entries(), other_tag, other_limit) == cached_answer(
            before.entries(),
            other_tag,
            other_limit,
        ),
{
    let key = cache_key_of(tag, limit);
    let other = cache_key_of(other_tag, other_limit);
    law_cache_key_identifies_query(tag, limit, other_tag, other_limit);
    assert(after.entries().dom().contains(other));
    assert(before.entries().insert(key, stations).dom().contains(other));
    assert(before.entries().insert(key, stations)[other] == before.entries()[other]);
}

} // verus!
