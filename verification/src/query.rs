//! How a tag query is written down: the key under which its result is cached
//! and the address at which the directory answers it. Both are composed from
//! the query's own text, so that equal queries give equal keys and different
//! queries different ones.

use vstd::prelude::*;
use vstd::string::*;

verus! {

/// The character of a decimal digit.
pub open spec fn digit(d: nat) -> char {
    if d == 0 {
        '0'
    } else if d == 1 {
        '1'
    } else if d == 2 {
        '2'
    } else if d == 3 {
        '3'
    } else if d == 4 {
        '4'
    } else if d == 5 {
        '5'
    } else if d == 6 {
        '6'
    } else if d == 7 {
        '7'
    } else if d == 8 {
        '8'
    } else {
        '9'
    }
}

/// A number in decimal notation, without sign or leading zeros.
pub open spec fn decimal(n: nat) -> Seq<char>
    decreases n,
{
    if n < 10 {
        seq![digit(n)]
    } else {
        decimal(n / 10).push(digit(n % 10))
    }
}

/// What every cache key begins with.
pub open spec fn key_prefix() -> Seq<char> {
    seq!['s', 'e', 'a', 'r', 'c', 'h', ':']
}

/// The path and the start of the query string of a tag search.
pub open spec fn search_path() -> Seq<char> {
    "/json/stations/search?tag="@
}

/// What introduces the limit in the query string.
pub open spec fn limit_parameter() -> Seq<char> {
    "&limit="@
}

/// The cache key of a query: `search:<tag>:<limit>`.
pub open spec fn cache_key_of(tag: Seq<char>, limit: nat) -> Seq<char> {
    key_prefix() + tag + seq![':'] + decimal(limit)
}

/// The address of a query: `<base>/json/stations/search?tag=<tag>&limit=<limit>`.
/// The tag is written as it is given.
pub open spec fn search_url_of(base_url: Seq<char>, tag: Seq<char>, limit: nat) -> Seq<char> {
    base_url + search_path() + tag + limit_parameter() + decimal(limit)
}

/// The text of one decimal digit.
fn digit_text(d: usize) -> (text: &'static str)
    requires
        d < 10,
    ensures
        text@ == seq![digit(d as nat)],
{
    proof {
        reveal_strlit("0");
        reveal_strlit("1");
        reveal_strlit("2");
        reveal_strlit("3");
        reveal_strlit("4");
        reveal_strlit("5");
        reveal_strlit("6");
        reveal_strlit("7");
        reveal_strlit("8");
        reveal_strlit("9");
    }
    let text = if d == 0 {
        "0"
    } else if d == 1 {
        "1"
    } else if d == 2 {
        "2"
    } else if d == 3 {
        "3"
    } else if d == 4 {
        "4"
    } else if d == 5 {
        "5"
    } else if d == 6 {
        "6"
    } else if d == 7 {
        "7"
    } else if d == 8 {
        "8"
    } else {
        "9"
    };
    assert(text@ =~= seq![digit(d as nat)]);
    text
}

/// Appends `n` in decimal notation to `text`.
fn append_decimal(text: &mut String, n: usize)
    ensures
        final(text)@ == old(text)@ + decimal(n as nat),
    decreases n,
{
    if n >= 10 {
        append_decimal(text, n / 10);
    }
    text.append(digit_text(n % 10));
    assert(text@ =~= old(text)@ + decimal(n as nat));
}

/// The key under which the result of a query is cached.
pub fn cache_key(tag: &str, limit: usize) -> (key: String)
    ensures
        key@ == cache_key_of(tag@, limit as nat),
{
    proof {
        reveal_strlit("search:");
        reveal_strlit(":");
    }
    let mut key = String::from_str("search:");
    assert(key@ =~= key_prefix());
    key.append(tag);
    key.append(":");
    assert(key@ =~= key_prefix() + tag@ + seq![':']);
    append_decimal(&mut key, limit);
    key
}

/// The address at which the directory answers a query.
pub fn search_url(base_url: &str, tag: &str, limit: usize) -> (url: String)
    ensures
        url@ == search_url_of(base_url@, tag@, limit as nat),
{
    let mut url = String::from_str(base_url);
    url.append("/json/stations/search?tag=");
    url.append(tag);
    url.append("&limit=");
    append_decimal(&mut url, limit);
    url
}

/// Decimal notation uses digits only: no colon occurs in it.
pub proof fn lemma_decimal_has_no_colon(n: nat)
    ensures
        decimal(n).len() >= 1,
        forall|i: int| 0 <= i < decimal(n).len() ==> decimal(n)[i] != ':',
    decreases n,
{
    if n >= 10 {
        lemma_decimal_has_no_colon(n / 10);
    }
}

/// Different numbers are written differently.
pub proof fn lemma_decimal_injective(a: nat, b: nat)
    requires
        decimal(a) == decimal(b),
    ensures
        a == b,
    decreases a,
{
    let last_a = digit(a % 10);
    let last_b = digit(b % 10);
    assert(decimal(a).last() == last_a);
    assert(decimal(b).last() == last_b);
    assert(a % 10 == b % 10);
    if a >= 10 && b >= 10 {
        let da = decimal(a / 10);
        let db = decimal(b / 10);
        assert(da =~= da.push(last_a).drop_last());
        assert(db =~= db.push(last_b).drop_last());
        lemma_decimal_injective(a / 10, b / 10);
    } else if a >= 10 {
        lemma_decimal_has_no_colon(a / 10);
        assert(decimal(a).len() >= 2);
        assert(decimal(b).len() == 1);
    } else if b >= 10 {
        lemma_decimal_has_no_colon(b / 10);
        assert(decimal(b).len() >= 2);
        assert(decimal(a).len() == 1);
    }
}

/// A cache key identifies its query: two queries have the same key exactly
/// when they have the same tag and the same limit.
pub proof fn law_cache_key_identifies_query(
    tag: Seq<char>,
    limit: nat,
    other_tag: Seq<char>,
    other_limit: nat,
)
    ensures
        cache_key_of(tag, limit) == cache_key_of(other_tag, other_limit) <==> tag == other_tag
            && limit == other_limit,
{
    if cache_key_of(tag, limit) == cache_key_of(other_tag, other_limit) {
        lemma_cache_key_injective(tag, limit, other_tag, other_limit);
    }
}

/// Queries with the same key have the same tag and the same limit.
proof fn lemma_cache_key_injective(tag: Seq<char>, limit: nat, other_tag: Seq<char>, other_limit: nat)
    requires
        cache_key_of(tag, limit) == cache_key_of(other_tag, other_limit),
    ensures
        tag == other_tag,
        limit == other_limit,
{
    let key = cache_key_of(tag, limit);
    let other = cache_key_of(other_tag, other_limit);
    let d = decimal(limit);
    let e = decimal(other_limit);
    let p = key_prefix().len() as int;
    lemma_decimal_has_no_colon(limit);
    lemma_decimal_has_no_colon(other_limit);
    assert(key.len() == p + tag.len() + 1 + d.len());
    assert(other.len() == p + other_tag.len() + 1 + e.len());
    // The last colon of a key stands right before the limit, so both limits
    // have the same number of digits.
    if d.len() < e.len() {
        let at = p + tag.len();
        assert(key[at] == ':');
        assert(other[at] == e[at - (p + other_tag.len() + 1)]);
    } else if e.len() < d.len() {
        let at = p + other_tag.len();
        assert(other[at] == ':');
        assert(key[at] == d[at - (p + tag.len() + 1)]);
    }
    assert(d =~= e) by {
        assert forall|i: int| 0 <= i < d.len() implies d[i] == e[i] by {
            assert(key[p + tag.len() + 1 + i] == d[i]);
            assert(other[p + other_tag.len() + 1 + i] == e[i]);
        }
    }
    lemma_decimal_injective(limit, other_limit);
    assert(tag =~= other_tag) by {
        assert forall|i: int| 0 <= i < tag.len() implies tag[i] == other_tag[i] by {
            assert(key[p + i] == tag[i]);
            assert(other[p + i] == other_tag[i]);
        }
    }
}

} // verus!
