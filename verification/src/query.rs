//! Reading the parameters back out of a request address.
//!
//! The grammar is the plain one: the query stands after the first `?` and
//! ends before a `#`; `&` parts it into pairs; the first `=` of a pair parts
//! the key from the value. `query_param` hands out a value as it is written
//! in the address, `decoded_param` the text that the value stands for.

use crate::escape::{percent_decode, percent_decoded};
use crate::text::chars_of;
use vstd::prelude::*;
use vstd::string::*;

verus! {

/// What stands before the first `c`; all of `s` when it holds no `c`.
pub open spec fn before(s: Seq<char>, c: char) -> Seq<char> {
    match s.index_of_first(c) {
        Some(i) => s.take(i),
        None => s,
    }
}

/// What stands after the first `c`, when `s` holds one.
pub open spec fn after(s: Seq<char>, c: char) -> Option<Seq<char>> {
    match s.index_of_first(c) {
        Some(i) => Some(s.skip(i + 1)),
        None => None,
    }
}

/// The query of an address, when it has one.
pub open spec fn query_of(uri: Seq<char>) -> Option<Seq<char>> {
    match after(uri, '?') {
        Some(rest) => Some(before(rest, '#')),
        None => None,
    }
}

/// One `key=value` pair of a query string.
pub open spec fn param(key: Seq<char>, value: Seq<char>) -> Seq<char> {
    key + "="@ + value
}

/// The value of a pair: what follows its first `=`, or nothing when it has
/// none.
pub open spec fn pair_value(pair: Seq<char>) -> Seq<char> {
    match after(pair, '=') {
        Some(value) => value,
        None => Seq::empty(),
    }
}

/// The value of the first pair of `query` whose key is `key`.
pub open spec fn lookup(query: Seq<char>, key: Seq<char>) -> Option<Seq<char>>
    decreases query.len(),
{
    let pair = before(query, '&');
    if before(pair, '=') == key {
        Some(pair_value(pair))
    } else {
        match after(query, '&') {
            Some(rest) => {
                proof {
                    query.index_of_first_ensures('&');
                }
                lookup(rest, key)
            },
            None => None,
        }
    }
}

/// The value of the parameter `key` in the address `uri`, as it is
/// written there.
pub open spec fn query_value(uri: Seq<char>, key: Seq<char>) -> Option<Seq<char>> {
    match query_of(uri) {
        Some(query) => lookup(query, key),
        None => None,
    }
}

/// The value of the parameter `key` in the address `uri`, decoded. `None`
/// where the address has no such parameter or its value is not a
/// percent-encoded text.
pub open spec fn decoded_value(uri: Seq<char>, key: Seq<char>) -> Option<Seq<char>> {
    match query_value(uri, key) {
        Some(written) => percent_decoded(written),
        None => None,
    }
}

/// The pairs of a query, in order.
pub open spec fn pairs_of(query: Seq<char>) -> Seq<Seq<char>>
    decreases query.len(),
{
    match after(query, '&') {
        Some(rest) => {
            proof {
                query.index_of_first_ensures('&');
            }
            seq![before(query, '&')] + pairs_of(rest)
        },
        None => seq![query],
    }
}

/// Where the first `c` of a range stands decides where the first `c` of the
/// range taken by itself stands.
pub proof fn lemma_first_in_range(s: Seq<char>, c: char, lo: int, hi: int, k: int)
    requires
        0 <= lo <= k <= hi <= s.len(),
        forall|j: int| lo <= j < k ==> s[j] != c,
        k < hi ==> s[k] == c,
    ensures
        s.subrange(lo, hi).index_of_first(c) == if k < hi {
            Some(k - lo)
        } else {
            None
        },
{
    let t = s.subrange(lo, hi);
    t.index_of_first_ensures(c);
    if k < hi {
        assert(t[k - lo] == c);
    }
}

/// Splitting at a separator that the front does not hold gives the front
/// and the back.
pub proof fn lemma_split_at(front: Seq<char>, c: char, back: Seq<char>)
    requires
        !front.contains(c),
    ensures
        before(front + seq![c] + back, c) == front,
        after(front + seq![c] + back, c) == Some(back),
{
    let s = front + seq![c] + back;
    lemma_first_in_range(s, c, 0, s.len() as int, front.len() as int);
    assert(s.subrange(0, s.len() as int) =~= s);
}

/// A text without the separator is not split.
pub proof fn lemma_unsplit(s: Seq<char>, c: char)
    requires
        !s.contains(c),
    ensures
        before(s, c) == s,
        after(s, c) is None,
{
    s.index_of_first_ensures(c);
}

/// A text joined from two that do not hold `c`, with a separator other than
/// `c`, does not hold `c`.
pub proof fn lemma_join_free(front: Seq<char>, sep: char, back: Seq<char>, c: char)
    requires
        !front.contains(c),
        !back.contains(c),
        sep != c,
    ensures
        !(front + seq![sep] + back).contains(c),
{
    let s = front + seq![sep] + back;
    assert forall|i: int| 0 <= i < s.len() implies s[i] != c by {
        if i < front.len() {
            assert(s[i] == front[i]);
        } else if i > front.len() {
            assert(s[i] == back[i - front.len() - 1]);
        }
    }
}

/// A pair is parted at the `=` that follows its key.
pub proof fn lemma_param_parts(key: Seq<char>, value: Seq<char>)
    requires
        !key.contains('='),
    ensures
        param(key, value) == key + seq!['='] + value,
        before(param(key, value), '=') == key,
        pair_value(param(key, value)) == value,
{
    reveal_strlit("=");
    assert("="@ =~= seq!['=']);
    assert(param(key, value) =~= key + seq!['='] + value);
    lemma_split_at(key, '=', value);
}

/// Looking a key up in a query whose first pair is `name=value`.
pub proof fn lemma_lookup_first(name: Seq<char>, value: Seq<char>, rest: Seq<char>, key: Seq<char>)
    requires
        !name.contains('='),
        !name.contains('&'),
        !value.contains('&'),
    ensures
        lookup(param(name, value) + seq!['&'] + rest, key) == if name == key {
            Some(value)
        } else {
            lookup(rest, key)
        },
{
    let pair = param(name, value);
    lemma_param_parts(name, value);
    lemma_join_free(name, '=', value, '&');
    lemma_split_at(pair, '&', rest);
}

/// The pairs of a query whose first pair is followed by more.
pub proof fn lemma_pairs_first(pair: Seq<char>, rest: Seq<char>)
    requires
        !pair.contains('&'),
    ensures
        pairs_of(pair + seq!['&'] + rest) == seq![pair] + pairs_of(rest),
{
    lemma_split_at(pair, '&', rest);
}

/// The pairs of a query that is one pair.
pub proof fn lemma_pairs_only(pair: Seq<char>)
    requires
        !pair.contains('&'),
    ensures
        pairs_of(pair) == seq![pair],
{
    lemma_unsplit(pair, '&');
}

/// What holds of `&` and of every character of every pair of a query holds
/// of every character of the query.
pub proof fn lemma_pairs_cover(query: Seq<char>, holds: spec_fn(char) -> bool)
    requires
        holds('&'),
        forall|k: int, i: int|
            0 <= k < pairs_of(query).len() && 0 <= i < pairs_of(query)[k].len() ==> holds(
                #[trigger] pairs_of(query)[k][i],
            ),
    ensures
        forall|i: int| 0 <= i < query.len() ==> holds(#[trigger] query[i]),
    decreases query.len(),
{
    query.index_of_first_ensures('&');
    match query.index_of_first('&') {
        Some(at) => {
            let first = query.take(at);
            let rest = query.skip(at + 1);
            let pairs = pairs_of(query);
            assert(pairs =~= seq![first] + pairs_of(rest));
            assert forall|k: int, i: int|
                0 <= k < pairs_of(rest).len() && 0 <= i < pairs_of(rest)[k].len() implies holds(
                #[trigger] pairs_of(rest)[k][i],
            ) by {
                assert(pairs_of(rest)[k] == pairs[k + 1]);
                assert(holds(pairs[k + 1][i]));
            }
            lemma_pairs_cover(rest, holds);
            assert forall|i: int| 0 <= i < query.len() implies holds(#[trigger] query[i]) by {
                if i < at {
                    assert(query[i] == pairs[0][i]);
                } else if i > at {
                    assert(query[i] == rest[i - at - 1]);
                }
            }
        },
        None => {
            assert forall|i: int| 0 <= i < query.len() implies holds(#[trigger] query[i]) by {
                assert(query[i] == pairs_of(query)[0][i]);
            }
        },
    }
}

/// Looking a key up in a query that is the one pair `name=value`.
pub proof fn lemma_lookup_only(name: Seq<char>, value: Seq<char>, key: Seq<char>)
    requires
        !name.contains('='),
        !name.contains('&'),
        !value.contains('&'),
    ensures
        lookup(param(name, value), key) == if name == key {
            Some(value)
        } else {
            None
        },
{
    let pair = param(name, value);
    lemma_param_parts(name, value);
    lemma_join_free(name, '=', value, '&');
    lemma_unsplit(pair, '&');
}

/// The first position of `c` in `chars[lo..hi]`, or `hi` when the range
/// holds none.
fn find_in(chars: &Vec<char>, c: char, lo: usize, hi: usize) -> (k: usize)
    requires
        lo <= hi <= chars.len(),
    ensures
        lo <= k <= hi,
        forall|j: int| lo <= j < k ==> chars@[j] != c,
        k < hi ==> chars@[k as int] == c,
{
    let mut k: usize = lo;
    while k < hi
        invariant
            lo <= k <= hi <= chars.len(),
            forall|j: int| lo <= j < k ==> chars@[j] != c,
        decreases hi - k,
    {
        if chars[k] == c {
            return k;
        }
        k += 1;
    }
    k
}

/// Whether `chars[lo..hi]` spells `word`.
fn range_is(chars: &Vec<char>, lo: usize, hi: usize, word: &Vec<char>) -> (same: bool)
    requires
        lo <= hi <= chars.len(),
    ensures
        same == (chars@.subrange(lo as int, hi as int) == word@),
{
    let ghost range = chars@.subrange(lo as int, hi as int);
    if hi - lo != word.len() {
        return false;
    }
    let mut i: usize = 0;
    while i < word.len()
        invariant
            lo <= hi <= chars.len(),
            hi - lo == word.len(),
            i <= word.len(),
            range == chars@.subrange(lo as int, hi as int),
            forall|j: int| 0 <= j < i ==> range[j] == word@[j],
        decreases word.len() - i,
    {
        if chars[lo + i] != word[i] {
            return false;
        }
        i += 1;
    }
    assert(range =~= word@);
    true
}

/// Reads the parameter `key` out of the address `uri`: the value of the
/// first pair with that key, and `None` when the address has no query or
/// the query no such pair.
pub fn query_param(uri: &str, key: &str) -> (value: Option<String>)
    ensures
        match value {
            Some(text) => query_value(uri@, key@) == Some(text@),
            None => query_value(uri@, key@) is None,
        },
{
    let chars = chars_of(uri);
    let wanted = chars_of(key);
    let n = chars.len();
    let mark = find_in(&chars, '?', 0, n);
    proof {
        lemma_first_in_range(uri@, '?', 0, n as int, mark as int);
        assert(uri@.subrange(0, n as int) =~= uri@);
    }
    if mark == n {
        return None;
    }
    let start = mark + 1;
    let end = find_in(&chars, '#', start, n);
    proof {
        // The query is the range from `start` to `end`.
        lemma_first_in_range(uri@, '#', start as int, n as int, end as int);
        assert(uri@.skip(start as int).take(end - start) =~= uri@.subrange(
            start as int,
            end as int,
        ));
    }
    let mut pos = start;
    loop
        invariant
            start <= pos <= end <= n,
            n == chars.len(),
            chars@ == uri@,
            wanted@ == key@,
            query_value(uri@, key@) == lookup(uri@.subrange(pos as int, end as int), key@),
        decreases end - pos,
    {
        let amp = find_in(&chars, '&', pos, end);
        let eq = find_in(&chars, '=', pos, amp);
        let ghost rest = uri@.subrange(pos as int, end as int);
        let ghost pair = uri@.subrange(pos as int, amp as int);
        proof {
            // The first pair of the rest is the range from `pos` to `amp`,
            // and its key the range from `pos` to `eq`.
            lemma_first_in_range(uri@, '&', pos as int, end as int, amp as int);
            assert(rest.take(amp - pos) =~= pair);
            lemma_first_in_range(uri@, '=', pos as int, amp as int, eq as int);
            assert(pair.take(eq - pos) =~= uri@.subrange(pos as int, eq as int));
        }
        if range_is(&chars, pos, eq, &wanted) {
            let from = if eq < amp {
                eq + 1
            } else {
                amp
            };
            assert(pair_value(pair) =~= uri@.subrange(from as int, amp as int));
            return Some(String::from_str(uri.substring_char(from, amp)));
        }
        if amp == end {
            return None;
        }
        assert(rest.skip(amp - pos + 1) =~= uri@.subrange(amp + 1, end as int));
        pos = amp + 1;
    }
}

/// Reads the parameter `key` out of the address `uri` and decodes its
/// value.
pub fn decoded_param(uri: &str, key: &str) -> (value: Option<String>)
    ensures
        match value {
            Some(text) => decoded_value(uri@, key@) == Some(text@),
            None => decoded_value(uri@, key@) is None,
        },
{
    match query_param(uri, key) {
        Some(written) => percent_decode(written.as_str()),
        None => None,
    }
}

} // verus!
