//! The request address read back: every configuration comes out of its own
//! address as it went in.

use crate::config::{endpoint, query_for, uri_for, ConfigView};
use crate::escape::{
    is_encoded_char, is_unreserved_char, is_unreserved_text, lemma_encoded_chars,
    lemma_percent_round_trip, lemma_unreserved_text, percent_encoded,
};
use crate::query::{
    decoded_value, lemma_join_free, lemma_lookup_first, lemma_lookup_only, lemma_pairs_cover,
    lemma_pairs_first, lemma_pairs_only, lemma_param_parts, lemma_split_at, lemma_unsplit,
    lookup, pairs_of, param, query_of, query_value,
};
use crate::text::{
    decimal, digit_value, lemma_decimal_plain, lemma_decimal_round_trip, parse_u16_spec,
};
use vstd::prelude::*;

verus! {

/// The six pairs of the request for `c`.
pub open spec fn request_pairs(c: ConfigView) -> Seq<Seq<char>> {
    seq![
        param("method"@, "user.gettopartists"@),
        param("user"@, percent_encoded(c.username)),
        param("api_key"@, percent_encoded(c.api_key)),
        param("format"@, "json"@),
        param("period"@, percent_encoded(c.period)),
        param("limit"@, decimal(c.limit as nat)),
    ]
}

/// What is found under a key in the query of the request for `c`.
pub open spec fn request_lookup(c: ConfigView, key: Seq<char>) -> Option<Seq<char>> {
    if key == "method"@ {
        Some("user.gettopartists"@)
    } else if key == "user"@ {
        Some(percent_encoded(c.username))
    } else if key == "api_key"@ {
        Some(percent_encoded(c.api_key))
    } else if key == "format"@ {
        Some("json"@)
    } else if key == "period"@ {
        Some(percent_encoded(c.period))
    } else if key == "limit"@ {
        Some(decimal(c.limit as nat))
    } else {
        None
    }
}

/// Whatever the configuration holds, the query of its address is the six
/// pairs and nothing else: the keys `method`, `user`, `api_key`, `format`,
/// `period` and `limit`, each once and in this order, and under each key
/// the value of its own pair.
pub proof fn lemma_request_pairs(c: ConfigView)
    ensures
        query_of(uri_for(c)) == Some(query_for(c)),
        pairs_of(query_for(c)) == request_pairs(c),
        forall|key: Seq<char>| #[trigger] lookup(query_for(c), key) == request_lookup(c, key),
{
    let amp = seq!['&'];
    let (k1, v1) = ("method"@, "user.gettopartists"@);
    let (k2, v2) = ("user"@, percent_encoded(c.username));
    let (k3, v3) = ("api_key"@, percent_encoded(c.api_key));
    let (k4, v4) = ("format"@, "json"@);
    let (k5, v5) = ("period"@, percent_encoded(c.period));
    let (k6, v6) = ("limit"@, decimal(c.limit as nat));
    lemma_request_is_plain();
    lemma_encoded_chars(c.username);
    lemma_encoded_chars(c.api_key);
    lemma_encoded_chars(c.period);
    lemma_decimal_plain(c.limit as nat, '&');
    lemma_decimal_plain(c.limit as nat, '#');

    let (method, user, api_key) = (param(k1, v1), param(k2, v2), param(k3, v3));
    let (format, period, limit) = (param(k4, v4), param(k5, v5), param(k6, v6));
    let t6 = limit;
    let t5 = period + amp + t6;
    let t4 = format + amp + t5;
    let t3 = api_key + amp + t4;
    let t2 = user + amp + t3;
    let t1 = method + amp + t2;

    // The address is the endpoint, a question mark, and the six pairs.
    reveal_strlit("&");
    reveal_strlit("?");
    assert("&"@ =~= amp);
    assert("?"@ =~= seq!['?']);
    assert(query_for(c) =~= t1);
    assert(uri_for(c) =~= endpoint() + seq!['?'] + t1);
    lemma_split_at(endpoint(), '?', t1);

    // No pair holds `#` or `&`, so the query runs to the end of the address
    // and is parted between the pairs only.
    lemma_param_parts(k1, v1);
    lemma_param_parts(k2, v2);
    lemma_param_parts(k3, v3);
    lemma_param_parts(k4, v4);
    lemma_param_parts(k5, v5);
    lemma_param_parts(k6, v6);
    lemma_join_free(k1, '=', v1, '#');
    lemma_join_free(k2, '=', v2, '#');
    lemma_join_free(k3, '=', v3, '#');
    lemma_join_free(k4, '=', v4, '#');
    lemma_join_free(k5, '=', v5, '#');
    lemma_join_free(k6, '=', v6, '#');
    lemma_join_free(k1, '=', v1, '&');
    lemma_join_free(k2, '=', v2, '&');
    lemma_join_free(k3, '=', v3, '&');
    lemma_join_free(k4, '=', v4, '&');
    lemma_join_free(k5, '=', v5, '&');
    lemma_join_free(k6, '=', v6, '&');
    lemma_join_free(period, '&', t6, '#');
    lemma_join_free(format, '&', t5, '#');
    lemma_join_free(api_key, '&', t4, '#');
    lemma_join_free(user, '&', t3, '#');
    lemma_join_free(method, '&', t2, '#');
    lemma_unsplit(t1, '#');
    assert(query_of(uri_for(c)) == Some(t1));

    lemma_pairs_only(limit);
    lemma_pairs_first(period, t6);
    lemma_pairs_first(format, t5);
    lemma_pairs_first(api_key, t4);
    lemma_pairs_first(user, t3);
    lemma_pairs_first(method, t2);
    assert(pairs_of(t1) =~= request_pairs(c));

    assert forall|key: Seq<char>| #[trigger] lookup(t1, key) == request_lookup(c, key) by {
        lemma_lookup_first(k1, v1, t2, key);
        lemma_lookup_first(k2, v2, t3, key);
        lemma_lookup_first(k3, v3, t4, key);
        lemma_lookup_first(k4, v4, t5, key);
        lemma_lookup_first(k5, v5, t6, key);
        lemma_lookup_only(k6, v6, key);
    }
}

/// Building the address of any configuration and reading its parameters
/// back gives the user name, the API key and the period that went in, and
/// the limit in decimal, which reads back as the limit. The method and
/// the format read back as the fixed values.
pub proof fn lemma_request_round_trip(c: ConfigView)
    ensures
        decoded_value(uri_for(c), "user"@) == Some(c.username),
        decoded_value(uri_for(c), "api_key"@) == Some(c.api_key),
        decoded_value(uri_for(c), "period"@) == Some(c.period),
        decoded_value(uri_for(c), "limit"@) == Some(decimal(c.limit as nat)),
        parse_u16_spec(decimal(c.limit as nat)) == Some(c.limit),
        decoded_value(uri_for(c), "method"@) == Some("user.gettopartists"@),
        decoded_value(uri_for(c), "format"@) == Some("json"@),
{
    lemma_request_pairs(c);
    lemma_request_is_plain();
    assert(query_value(uri_for(c), "user"@) == request_lookup(c, "user"@));
    assert(query_value(uri_for(c), "api_key"@) == request_lookup(c, "api_key"@));
    assert(query_value(uri_for(c), "period"@) == request_lookup(c, "period"@));
    assert(query_value(uri_for(c), "limit"@) == request_lookup(c, "limit"@));
    assert(query_value(uri_for(c), "method"@) == request_lookup(c, "method"@));
    assert(query_value(uri_for(c), "format"@) == request_lookup(c, "format"@));
    lemma_percent_round_trip(c.username);
    lemma_percent_round_trip(c.api_key);
    lemma_percent_round_trip(c.period);
    lemma_decimal_round_trip(c.limit as nat);
    lemma_decimal_is_unreserved(c.limit as nat);
    lemma_unreserved_text(decimal(c.limit as nat));
    lemma_unreserved_text("user.gettopartists"@);
    lemma_unreserved_text("json"@);
}

/// The address determines the configuration: two configurations with one
/// address are the same.
pub proof fn lemma_address_determines_config(a: ConfigView, b: ConfigView)
    requires
        uri_for(a) == uri_for(b),
    ensures
        a == b,
{
    lemma_request_round_trip(a);
    lemma_request_round_trip(b);
}

/// Whether a character stands in some request address: those of an encoded
/// text and the separators `:`, `/`, `?`, `=` and `&`.
pub open spec fn is_address_char(c: char) -> bool {
    is_encoded_char(c) || c == ':' || c == '/' || c == '?' || c == '=' || c == '&'
}

/// Whether a text holds characters of an address only.
pub open spec fn is_address_text(s: Seq<char>) -> bool {
    forall|i: int| 0 <= i < s.len() ==> is_address_char(#[trigger] s[i])
}

/// The address of any configuration holds letters, digits, `-`, `.`, `_`,
/// `~`, `%` and the separators only: no blank, no control character, no
/// character outside ASCII, and no `#` that would start a fragment.
pub proof fn lemma_address_is_well_formed(c: ConfigView)
    ensures
        is_address_text(uri_for(c)),
        !uri_for(c).contains('#'),
        !uri_for(c).contains(' '),
        forall|i: int| 0 <= i < uri_for(c).len() ==> '!' <= #[trigger] uri_for(c)[i] <= '~',
{
    lemma_request_is_plain();
    lemma_request_pairs(c);
    lemma_encoded_chars(c.username);
    lemma_encoded_chars(c.api_key);
    lemma_encoded_chars(c.period);
    lemma_decimal_is_unreserved(c.limit as nat);
    lemma_address_pair("method"@, "user.gettopartists"@);
    lemma_address_pair("user"@, percent_encoded(c.username));
    lemma_address_pair("api_key"@, percent_encoded(c.api_key));
    lemma_address_pair("format"@, "json"@);
    lemma_address_pair("period"@, percent_encoded(c.period));
    lemma_address_pair("limit"@, decimal(c.limit as nat));
    lemma_pairs_cover(query_for(c), |ch: char| is_address_char(ch));
    reveal_strlit("?");
    assert(is_address_text("?"@));
    lemma_address_joined(endpoint(), "?"@);
    lemma_address_joined(endpoint() + "?"@, query_for(c));
    assert forall|i: int| 0 <= i < uri_for(c).len() implies '!' <= #[trigger] uri_for(c)[i]
        <= '~' by {
        lemma_address_char_is_visible(uri_for(c)[i]);
    }
}

/// The characters of an address are visible ASCII characters.
proof fn lemma_address_char_is_visible(c: char)
    requires
        is_address_char(c),
    ensures
        '!' <= c <= '~',
{
}

/// Two texts of an address, one after the other, are a text of an address.
proof fn lemma_address_joined(a: Seq<char>, b: Seq<char>)
    requires
        is_address_text(a),
        is_address_text(b),
    ensures
        is_address_text(a + b),
{
    assert forall|i: int| 0 <= i < (a + b).len() implies is_address_char(#[trigger] (a + b)[i]) by {
        if i < a.len() {
            assert((a + b)[i] == a[i]);
        } else {
            assert((a + b)[i] == b[i - a.len()]);
        }
    }
}

/// A pair of two texts of an address is a text of an address.
proof fn lemma_address_pair(key: Seq<char>, value: Seq<char>)
    requires
        is_address_text(key),
        is_address_text(value),
    ensures
        is_address_text(param(key, value)),
{
    reveal_strlit("=");
    assert(is_address_text("="@));
    lemma_address_joined(key, "="@);
    lemma_address_joined(key + "="@, value);
}

/// Decimal notation holds digits, which stand for themselves.
proof fn lemma_decimal_is_unreserved(n: nat)
    ensures
        is_unreserved_text(decimal(n)),
        is_address_text(decimal(n)),
{
    lemma_decimal_round_trip(n);
    let s = decimal(n);
    assert forall|i: int| 0 <= i < s.len() implies is_unreserved_char(#[trigger] s[i]) by {
        assert(digit_value(s[i]) is Some);
    }
}

/// The fixed texts of the request: the keys hold no separator and no two of
/// them are the same, the fixed values stand for themselves, and the
/// endpoint holds characters of an address but no question mark.
proof fn lemma_request_is_plain()
    ensures
        !"method"@.contains('=') && !"method"@.contains('&') && !"method"@.contains('#'),
        !"user"@.contains('=') && !"user"@.contains('&') && !"user"@.contains('#'),
        !"api_key"@.contains('=') && !"api_key"@.contains('&') && !"api_key"@.contains('#'),
        !"format"@.contains('=') && !"format"@.contains('&') && !"format"@.contains('#'),
        !"period"@.contains('=') && !"period"@.contains('&') && !"period"@.contains('#'),
        !"limit"@.contains('=') && !"limit"@.contains('&') && !"limit"@.contains('#'),
        !"user.gettopartists"@.contains('&') && !"user.gettopartists"@.contains('#'),
        !"json"@.contains('&') && !"json"@.contains('#'),
        is_unreserved_text("user.gettopartists"@),
        is_unreserved_text("json"@),
        is_address_text("method"@) && is_address_text("user"@) && is_address_text("api_key"@),
        is_address_text("format"@) && is_address_text("period"@) && is_address_text("limit"@),
        is_address_text("user.gettopartists"@) && is_address_text("json"@),
        is_address_text(endpoint()),
        !endpoint().contains('?'),
        "user"@ != "method"@,
        "api_key"@ != "method"@ && "api_key"@ != "user"@,
        "format"@ != "method"@ && "format"@ != "user"@ && "format"@ != "api_key"@,
        "period"@ != "method"@ && "period"@ != "user"@ && "period"@ != "api_key"@ && "period"@
            != "format"@,
        "limit"@ != "method"@ && "limit"@ != "user"@ && "limit"@ != "api_key"@ && "limit"@
            != "format"@ && "limit"@ != "period"@,
{
    reveal_strlit("method");
    reveal_strlit("user");
    reveal_strlit("api_key");
    reveal_strlit("format");
    reveal_strlit("period");
    reveal_strlit("limit");
    reveal_strlit("user.gettopartists");
    reveal_strlit("json");
    reveal_strlit("http://ws.audioscrobbler.com/");
    reveal_strlit("2.0");
    reveal_strlit("/");
    assert("method"@.len() == 6 && "user"@.len() == 4 && "api_key"@.len() == 7);
    assert("format"@.len() == 6 && "period"@.len() == 6 && "limit"@.len() == 5);
    assert("user.gettopartists"@.len() == 18 && "json"@.len() == 4);
    assert("method"@[0] == 'm' && "format"@[0] == 'f' && "period"@[0] == 'p');
    let host = "http://ws.audioscrobbler.com/"@;
    assert(host.len() == 29 && "2.0"@.len() == 3 && "/"@.len() == 1);
    assert(is_address_text(host) && is_address_text("2.0"@) && is_address_text("/"@));
    assert(!host.contains('?') && !"2.0"@.contains('?') && !"/"@.contains('?'));
    let e = endpoint();
    assert forall|i: int| 0 <= i < e.len() implies is_address_char(#[trigger] e[i]) && e[i]
        != '?' by {
        if i < 29 {
            assert(e[i] == host[i]);
        } else if i < 32 {
            assert(e[i] == "2.0"@[i - 29]);
        } else {
            assert(e[i] == "/"@[i - 32]);
        }
    }
}

} // verus!
