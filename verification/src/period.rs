//! The lookback periods that the service knows and how the summary words them.

use crate::text::str_eq;
use vstd::prelude::*;

verus! {

/// The words that follow "in the past" for a period code; `None` for a text
/// that is not one of the six codes.
pub open spec fn phrase_of(code: Seq<char>) -> Option<Seq<char>> {
    if code == "overall"@ {
        Some(""@)
    } else if code == "7day"@ {
        Some(" week"@)
    } else if code == "1month"@ {
        Some(" month"@)
    } else if code == "3month"@ {
        Some(" 3 months"@)
    } else if code == "6month"@ {
        Some(" 6 months"@)
    } else if code == "12month"@ {
        Some(" year"@)
    } else {
        None
    }
}

/// Whether `code` is one of the six period codes.
pub open spec fn is_period_code(code: Seq<char>) -> bool {
    code == "overall"@ || code == "7day"@ || code == "1month"@ || code == "3month"@ || code
        == "6month"@ || code == "12month"@
}

/// Each of the six codes has the phrase of its own row, and nothing else has
/// a phrase.
pub proof fn lemma_period_table()
    ensures
        phrase_of("overall"@) == Some(""@),
        phrase_of("7day"@) == Some(" week"@),
        phrase_of("1month"@) == Some(" month"@),
        phrase_of("3month"@) == Some(" 3 months"@),
        phrase_of("6month"@) == Some(" 6 months"@),
        phrase_of("12month"@) == Some(" year"@),
        forall|code: Seq<char>| is_period_code(code) <==> (#[trigger] phrase_of(code)) is Some,
{
    reveal_strlit("overall");
    reveal_strlit("7day");
    reveal_strlit("1month");
    reveal_strlit("3month");
    reveal_strlit("6month");
    reveal_strlit("12month");
    assert("overall"@.len() == 7 && "7day"@.len() == 4 && "12month"@.len() == 7);
    assert("overall"@[0] == 'o' && "12month"@[0] == '1');
    assert("1month"@[0] == '1' && "3month"@[0] == '3' && "6month"@[0] == '6');
}

/// Looks a period code up in the table of `phrase_of`.
pub fn period_phrase(code: &str) -> (phrase: Option<&'static str>)
    ensures
        match phrase {
            Some(words) => phrase_of(code@) == Some(words@),
            None => phrase_of(code@) is None,
        },
{
    if str_eq(code, "overall") {
        Some("")
    } else if str_eq(code, "7day") {
        Some(" week")
    } else if str_eq(code, "1month") {
        Some(" month")
    } else if str_eq(code, "3month") {
        Some(" 3 months")
    } else if str_eq(code, "6month") {
        Some(" 6 months")
    } else if str_eq(code, "12month") {
        Some(" year")
    } else {
        None
    }
}

} // verus!
