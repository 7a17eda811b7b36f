//! What the JSON grammar promises: where its values start and end, and what may stand between them.
use vstd::prelude::*;

use super::grammar::{
    array_end, digits_end, elements_end, exponent_end, fraction_end, is_object_document, keyword_end, members_end,
    number_end, object_end, plain_escape, skip_blanks, string_end, value_end,
};
use super::validator::{ascii_digit, Keyword};
use super::{json_whitespace, BACKSLASH, CLOSE_BRACE, CLOSE_BRACKET, COLON, COMMA, OPEN_BRACE, OPEN_BRACKET, QUOTE};

verus! {

/// Only whitespace is skipped, and all of it.
pub proof fn only_whitespace_is_skipped(s: Seq<u8>, i: int, k: int)
    requires
        0 <= i <= s.len(),
    ensures
        i <= skip_blanks(s, i) <= s.len(),
        i <= k < skip_blanks(s, i) ==> json_whitespace(s[k]),
        skip_blanks(s, i) < s.len() ==> !json_whitespace(s[skip_blanks(s, i)]),
        json_whitespace(0x20u8) && json_whitespace(0x09u8) && json_whitespace(0x0Au8) && json_whitespace(0x0Du8),
        !json_whitespace(QUOTE) && !json_whitespace(COMMA) && !json_whitespace(COLON) && !json_whitespace(OPEN_BRACE)
            && !json_whitespace(CLOSE_BRACE) && !json_whitespace(OPEN_BRACKET) && !json_whitespace(CLOSE_BRACKET),
    decreases s.len() - i,
{
    if i < s.len() && json_whitespace(s[i]) {
        only_whitespace_is_skipped(s, i + 1, k);
    }
}

/// A run of digits holds nothing else and goes on as long as digits do.
pub proof fn digits_run_on(s: Seq<u8>, i: int, k: int)
    requires
        0 <= i <= s.len(),
    ensures
        i <= digits_end(s, i) <= s.len(),
        i <= k < digits_end(s, i) ==> 0x30 <= s[k] <= 0x39,
        digits_end(s, i) < s.len() ==> !(0x30 <= s[digits_end(s, i)] <= 0x39),
    decreases s.len() - i,
{
    if i < s.len() && ascii_digit(s[i]) {
        digits_run_on(s, i + 1, k);
    }
}

/// A string ends behind a quote and holds no control character. Without a backslash it ends at its first quote.
pub proof fn strings_end_behind_a_quote(s: Seq<u8>, i: int, k: int)
    requires
        0 <= i <= s.len(),
    ensures
        string_end(s, i) matches Some(e) ==> i < e <= s.len() && s[e - 1] == QUOTE,
        string_end(s, i) matches Some(e) ==> (i <= k < e ==> s[k] > 0x1F),
        i <= k < s.len() && s[k] == QUOTE && (forall|j: int| i <= j < k ==> #[trigger] s[j] != QUOTE && s[j] != BACKSLASH
            && s[j] > 0x1F) ==> string_end(s, i) == Some(k + 1),
    decreases s.len() - i,
{
    if i < s.len() && s[i] != QUOTE {
        if s[i] == BACKSLASH {
            if i + 1 < s.len() && plain_escape(s[i + 1]) {
                strings_end_behind_a_quote(s, i + 2, k);
            } else if i + 5 < s.len() {
                strings_end_behind_a_quote(s, i + 6, k);
            }
        } else {
            strings_end_behind_a_quote(s, i + 1, k);
        }
    }
}

/// A quote or a backslash behind a backslash ends nothing: the string goes on behind it. A backslash is followed by one
/// of the characters that may be escaped.
pub proof fn escapes_are_passed_over(s: Seq<u8>, i: int)
    requires
        0 <= i,
        i + 1 < s.len(),
        s[i] == BACKSLASH,
    ensures
        s[i + 1] == QUOTE || s[i + 1] == BACKSLASH ==> string_end(s, i) == string_end(s, i + 2),
        string_end(s, i) is Some ==> s[i + 1] == QUOTE || s[i + 1] == BACKSLASH || s[i + 1] == 0x2F || s[i + 1] == 0x62
            || s[i + 1] == 0x66 || s[i + 1] == 0x6E || s[i + 1] == 0x72 || s[i + 1] == 0x74 || s[i + 1] == 0x75,
        string_end(s, i) is Some && s[i + 1] == 0x75 ==> i + 6 < s.len() && string_end(s, i) == string_end(s, i + 6),
{
    if i + 6 <= s.len() {
        strings_end_behind_a_quote(s, i + 6, i);
    }
}

proof fn exponents_end_in_digits(s: Seq<u8>, i: int)
    requires
        0 < i <= s.len(),
        ascii_digit(s[i - 1]),
    ensures
        exponent_end(s, i) matches Some(e) ==> i <= e <= s.len() && ascii_digit(s[e - 1]),
        exponent_end(s, i) matches Some(e) ==> (i < s.len() && ascii_digit(s[i]) ==> e == i),
{
    if i < s.len() {
        let m = if i + 1 < s.len() && (s[i + 1] == 0x2B || s[i + 1] == 0x2D) {
            i + 2
        } else {
            i + 1
        };
        digits_run_on(s, m, digits_end(s, m) - 1);
    }
}

proof fn fractions_end_in_digits(s: Seq<u8>, i: int)
    requires
        0 < i <= s.len(),
        ascii_digit(s[i - 1]),
    ensures
        fraction_end(s, i) matches Some(e) ==> i <= e <= s.len() && ascii_digit(s[e - 1]),
        fraction_end(s, i) matches Some(e) ==> (i < s.len() && ascii_digit(s[i]) ==> e == i),
{
    if i < s.len() && s[i] == 0x2E {
        digits_run_on(s, i + 1, digits_end(s, i + 1) - 1);
        if digits_end(s, i + 1) > i + 1 {
            exponents_end_in_digits(s, digits_end(s, i + 1));
        }
    } else {
        exponents_end_in_digits(s, i);
    }
}

/// A number starts with a digit, or with a minus sign and a digit, and ends in one. A leading zero is followed by no
/// digit, and digits alone are a number.
pub proof fn numbers_are_spelled_plainly(s: Seq<u8>, i: int)
    requires
        0 <= i < s.len(),
    ensures
        number_end(s, i) matches Some(e) ==> i < e <= s.len() && 0x30 <= s[e - 1] <= 0x39,
        number_end(s, i) is Some ==> 0x30 <= s[i] <= 0x39 || (s[i] == 0x2D && i + 1 < s.len() && 0x30 <= s[i + 1]
            <= 0x39),
        number_end(s, i) matches Some(e) ==> (s[i] == 0x30 && i + 1 < s.len() && 0x30 <= s[i + 1] <= 0x39 ==> e == i + 1),
        0x31 <= s[i] <= 0x39 && digits_end(s, i) == s.len() ==> number_end(s, i) == Some(s.len() as int),
{
    let j = if s[i] == 0x2D {
        i + 1
    } else {
        i
    };
    if j < s.len() && ascii_digit(s[j]) {
        if s[j] == 0x30 {
            fractions_end_in_digits(s, j + 1);
        } else {
            digits_run_on(s, j + 1, digits_end(s, j + 1) - 1);
            fractions_end_in_digits(s, digits_end(s, j + 1));
        }
    }
}

/// A value ends behind its start with the byte its kind ends with, and starts with a byte of some kind.
pub proof fn values_end_as_they_start(s: Seq<u8>, i: int)
    requires
        0 <= i < s.len(),
    ensures
        value_end(s, i) matches Some(e) ==> i < e <= s.len(),
        value_end(s, i) matches Some(e) ==> (s[i] == OPEN_BRACE ==> s[e - 1] == CLOSE_BRACE),
        value_end(s, i) matches Some(e) ==> (s[i] == OPEN_BRACKET ==> s[e - 1] == CLOSE_BRACKET),
        value_end(s, i) matches Some(e) ==> (s[i] == QUOTE ==> s[e - 1] == QUOTE && e >= i + 2),
        value_end(s, i) is Some ==> s[i] == OPEN_BRACE || s[i] == OPEN_BRACKET || s[i] == QUOTE || s[i] == 0x74 || s[i]
            == 0x66 || s[i] == 0x6E || s[i] == 0x2D || 0x30 <= s[i] <= 0x39,
        value_end(s, i) matches Some(e) ==> (s[i] == 0x74 ==> e == i + 4),
        value_end(s, i) matches Some(e) ==> (s[i] == 0x66 ==> e == i + 5),
        value_end(s, i) matches Some(e) ==> (s[i] == 0x6E ==> e == i + 4),
    decreases s.len() - i, 0int,
{
    if s[i] == OPEN_BRACE {
        objects_end_in_a_brace(s, i + 1);
    } else if s[i] == OPEN_BRACKET {
        arrays_end_in_a_bracket(s, i + 1);
    } else if s[i] == QUOTE {
        strings_end_behind_a_quote(s, i + 1, i);
    } else if s[i] == 0x2D || ascii_digit(s[i]) {
        numbers_are_spelled_plainly(s, i);
    } else {
        assert(Keyword::True.spelling().len() == 4);
        assert(Keyword::False.spelling().len() == 5);
        assert(Keyword::Null.spelling().len() == 4);
    }
}

/// An object ends in a brace. It is empty, or its first member starts with a quote.
pub proof fn objects_end_in_a_brace(s: Seq<u8>, i: int)
    requires
        0 <= i <= s.len(),
    ensures
        object_end(s, i) matches Some(e) ==> i < e <= s.len() && s[e - 1] == CLOSE_BRACE,
        skip_blanks(s, i) < s.len() && s[skip_blanks(s, i)] == CLOSE_BRACE ==> object_end(s, i) == Some(
            skip_blanks(s, i) + 1,
        ),
        object_end(s, i) is Some ==> skip_blanks(s, i) < s.len() && (s[skip_blanks(s, i)] == CLOSE_BRACE || s[skip_blanks(
            s,
            i,
        )] == QUOTE),
    decreases s.len() - i, 2int,
{
    only_whitespace_is_skipped(s, i, i);
    if skip_blanks(s, i) < s.len() {
        members_end_in_a_brace(s, skip_blanks(s, i));
    }
}

/// The members of an object end in a brace. Each starts with a quote, so no comma stands before the brace.
pub proof fn members_end_in_a_brace(s: Seq<u8>, i: int)
    requires
        0 <= i < s.len(),
    ensures
        members_end(s, i) matches Some(e) ==> i < e <= s.len() && s[e - 1] == CLOSE_BRACE,
        members_end(s, i) is Some ==> s[i] == QUOTE,
    decreases s.len() - i, 1int,
{
    if s[i] == QUOTE && string_end(s, i + 1) is Some {
        strings_end_behind_a_quote(s, i + 1, i);
        let k = string_end(s, i + 1)->0;
        let c = skip_blanks(s, k);
        only_whitespace_is_skipped(s, k, k);
        if c < s.len() {
            let v = skip_blanks(s, c + 1);
            only_whitespace_is_skipped(s, c + 1, c + 1);
            if v < s.len() {
                values_end_as_they_start(s, v);
                if value_end(s, v) is Some {
                    let e = value_end(s, v)->0;
                    let n = skip_blanks(s, e);
                    only_whitespace_is_skipped(s, e, e);
                    if n < s.len() {
                        let m = skip_blanks(s, n + 1);
                        only_whitespace_is_skipped(s, n + 1, n + 1);
                        if m < s.len() {
                            members_end_in_a_brace(s, m);
                        }
                    }
                }
            }
        }
    }
}

/// A member is a string, a colon and a value. Behind it the object closes, or goes on behind a comma.
pub proof fn members_are_parted_by_commas(s: Seq<u8>, i: int, k: int, c: int, v: int, e: int, n: int)
    requires
        0 <= i < s.len(),
        s[i] == QUOTE,
        string_end(s, i + 1) == Some(k),
        c == skip_blanks(s, k) < s.len(),
        v == skip_blanks(s, c + 1) < s.len(),
        value_end(s, v) == Some(e),
        n == skip_blanks(s, e) < s.len(),
    ensures
        s[c] != COLON ==> members_end(s, i) is None,
        s[c] == COLON && s[n] == CLOSE_BRACE ==> members_end(s, i) == Some(n + 1),
        s[c] == COLON && s[n] == COMMA ==> members_end(s, i) == members_end(s, skip_blanks(s, n + 1)),
        s[n] != COMMA && s[n] != CLOSE_BRACE ==> members_end(s, i) is None,
{
    strings_end_behind_a_quote(s, i + 1, i);
    only_whitespace_is_skipped(s, k, k);
    only_whitespace_is_skipped(s, c + 1, c + 1);
    values_end_as_they_start(s, v);
    only_whitespace_is_skipped(s, e, e);
    only_whitespace_is_skipped(s, n + 1, n + 1);
}

/// An array ends in a bracket, and an empty one at once.
pub proof fn arrays_end_in_a_bracket(s: Seq<u8>, i: int)
    requires
        0 <= i <= s.len(),
    ensures
        array_end(s, i) matches Some(e) ==> i < e <= s.len() && s[e - 1] == CLOSE_BRACKET,
        skip_blanks(s, i) < s.len() && s[skip_blanks(s, i)] == CLOSE_BRACKET ==> array_end(s, i) == Some(
            skip_blanks(s, i) + 1,
        ),
    decreases s.len() - i, 2int,
{
    only_whitespace_is_skipped(s, i, i);
    if skip_blanks(s, i) < s.len() {
        elements_end_in_a_bracket(s, skip_blanks(s, i));
    }
}

/// The elements of an array end in a bracket. Each is a value, so no comma stands before the bracket.
pub proof fn elements_end_in_a_bracket(s: Seq<u8>, i: int)
    requires
        0 <= i < s.len(),
    ensures
        elements_end(s, i) matches Some(e) ==> i < e <= s.len() && s[e - 1] == CLOSE_BRACKET,
        elements_end(s, i) is Some ==> s[i] != CLOSE_BRACKET && s[i] != COMMA,
    decreases s.len() - i, 1int,
{
    values_end_as_they_start(s, i);
    if value_end(s, i) is Some {
        let e = value_end(s, i)->0;
        let n = skip_blanks(s, e);
        only_whitespace_is_skipped(s, e, e);
        if n < s.len() {
            let m = skip_blanks(s, n + 1);
            only_whitespace_is_skipped(s, n + 1, n + 1);
            if m < s.len() {
                elements_end_in_a_bracket(s, m);
            }
        }
    }
}

/// Behind an element the array closes, or goes on behind a comma.
pub proof fn elements_are_parted_by_commas(s: Seq<u8>, i: int, e: int, n: int)
    requires
        0 <= i < s.len(),
        value_end(s, i) == Some(e),
        n == skip_blanks(s, e) < s.len(),
    ensures
        s[n] == CLOSE_BRACKET ==> elements_end(s, i) == Some(n + 1),
        s[n] == COMMA ==> elements_end(s, i) == elements_end(s, skip_blanks(s, n + 1)),
        s[n] != COMMA && s[n] != CLOSE_BRACKET ==> elements_end(s, i) is None,
{
    values_end_as_they_start(s, i);
    only_whitespace_is_skipped(s, e, e);
    only_whitespace_is_skipped(s, n + 1, n + 1);
}

/// A document is one object: its first byte that is no whitespace opens it, its last closes it, and nothing stands
/// behind that. The empty document is none.
pub proof fn documents_are_one_object(s: Seq<u8>, k: int)
    requires
        is_object_document(s),
    ensures
        skip_blanks(s, 0) < s.len() && s[skip_blanks(s, 0)] == OPEN_BRACE,
        value_end(s, skip_blanks(s, 0)) matches Some(e) && s[e - 1] == CLOSE_BRACE && (e <= k < s.len()
            ==> json_whitespace(s[k])),
        !is_object_document(Seq::empty()),
{
    only_whitespace_is_skipped(s, 0, 0);
    values_end_as_they_start(s, skip_blanks(s, 0));
    let e = value_end(s, skip_blanks(s, 0))->0;
    only_whitespace_is_skipped(s, e, k);
}

/// The keywords are `true`, `false` and `null`, letter for letter.
pub proof fn keywords_are_spelled_out(s: Seq<u8>, i: int)
    requires
        0 <= i,
        i + 5 <= s.len(),
    ensures
        keyword_end(s, i, Keyword::True) is Some <==> s[i] == 0x74 && s[i + 1] == 0x72 && s[i + 2] == 0x75 && s[i + 3]
            == 0x65,
        keyword_end(s, i, Keyword::False) is Some <==> s[i] == 0x66 && s[i + 1] == 0x61 && s[i + 2] == 0x6C && s[i + 3]
            == 0x73 && s[i + 4] == 0x65,
        keyword_end(s, i, Keyword::Null) is Some <==> s[i] == 0x6E && s[i + 1] == 0x75 && s[i + 2] == 0x6C && s[i + 3]
            == 0x6C,
{
    let four = s.subrange(i, i + 4);
    let five = s.subrange(i, i + 5);
    assert(four[0] == s[i] && four[1] == s[i + 1] && four[2] == s[i + 2] && four[3] == s[i + 3]);
    assert(five[0] == s[i] && five[1] == s[i + 1] && five[2] == s[i + 2] && five[3] == s[i + 3] && five[4] == s[i + 4]);
    if s[i] == 0x74 && s[i + 1] == 0x72 && s[i + 2] == 0x75 && s[i + 3] == 0x65 {
        assert(four =~= Keyword::True.spelling());
    }
    if s[i] == 0x66 && s[i + 1] == 0x61 && s[i + 2] == 0x6C && s[i + 3] == 0x73 && s[i + 4] == 0x65 {
        assert(five =~= Keyword::False.spelling());
    }
    if s[i] == 0x6E && s[i + 1] == 0x75 && s[i + 2] == 0x6C && s[i + 3] == 0x6C {
        assert(four =~= Keyword::Null.spelling());
    }
}

} // verus!
