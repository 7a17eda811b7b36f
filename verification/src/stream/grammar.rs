//! The JSON grammar, and the proof that the validator accepts exactly its object documents.
use vstd::prelude::*;

use super::validator::{
    ascii_digit, grammar_start, hex_digit, number_step, Container, Escape, Grammar, Keyword, Number, State,
};
use super::{
    json_whitespace, BACKSLASH, CLOSE_BRACE, CLOSE_BRACKET, COLON, COMMA, OPEN_BRACE, OPEN_BRACKET, QUOTE,
};

verus! {

// ---------------------------------------------------------------------------------------------
// The grammar
// ---------------------------------------------------------------------------------------------

/// The first position from `i` on that holds no whitespace.
pub open spec fn skip_blanks(s: Seq<u8>, i: int) -> int
    decreases s.len() - i,
{
    if 0 <= i < s.len() && json_whitespace(s[i]) {
        skip_blanks(s, i + 1)
    } else {
        i
    }
}

/// The first position from `i` on that holds no decimal digit.
pub open spec fn digits_end(s: Seq<u8>, i: int) -> int
    decreases s.len() - i,
{
    if 0 <= i < s.len() && ascii_digit(s[i]) {
        digits_end(s, i + 1)
    } else {
        i
    }
}

/// Whether `byte` alone may follow a backslash.
pub open spec fn plain_escape(byte: u8) -> bool {
    byte == QUOTE || byte == BACKSLASH || byte == 0x2F || byte == 0x62 || byte == 0x66 || byte == 0x6E || byte == 0x72
        || byte == 0x74
}

/// The position behind the string whose opening quote stands before `i`.
pub open spec fn string_end(s: Seq<u8>, i: int) -> Option<int>
    decreases s.len() - i,
{
    if !(0 <= i < s.len()) {
        None
    } else if s[i] == QUOTE {
        Some(i + 1)
    } else if s[i] == BACKSLASH {
        if i + 1 < s.len() && plain_escape(s[i + 1]) {
            string_end(s, i + 2)
        } else if i + 5 < s.len() && s[i + 1] == 0x75 && hex_digit(s[i + 2]) && hex_digit(s[i + 3]) && hex_digit(
            s[i + 4],
        ) && hex_digit(s[i + 5]) {
            string_end(s, i + 6)
        } else {
            None
        }
    } else if s[i] <= 0x1F {
        None
    } else {
        string_end(s, i + 1)
    }
}

/// The position behind the optional exponent at `i`.
pub open spec fn exponent_end(s: Seq<u8>, i: int) -> Option<int> {
    if i < s.len() && (s[i] == 0x65 || s[i] == 0x45) {
        let m = if i + 1 < s.len() && (s[i + 1] == 0x2B || s[i + 1] == 0x2D) {
            i + 2
        } else {
            i + 1
        };
        if digits_end(s, m) > m {
            Some(digits_end(s, m))
        } else {
            None
        }
    } else {
        Some(i)
    }
}

/// The position behind the optional fraction at `i` and the optional exponent behind that.
pub open spec fn fraction_end(s: Seq<u8>, i: int) -> Option<int> {
    if i < s.len() && s[i] == 0x2E {
        if digits_end(s, i + 1) > i + 1 {
            exponent_end(s, digits_end(s, i + 1))
        } else {
            None
        }
    } else {
        exponent_end(s, i)
    }
}

/// The position behind the number at `i`: an optional minus sign, a whole part without a leading zero,
/// an optional fraction and an optional exponent.
pub open spec fn number_end(s: Seq<u8>, i: int) -> Option<int> {
    let j = if s[i] == 0x2D {
        i + 1
    } else {
        i
    };
    if !(j < s.len() && ascii_digit(s[j])) {
        None
    } else if s[j] == 0x30 {
        fraction_end(s, j + 1)
    } else {
        fraction_end(s, digits_end(s, j + 1))
    }
}

/// The position behind the keyword at `i`.
pub open spec fn keyword_end(s: Seq<u8>, i: int, keyword: Keyword) -> Option<int> {
    let n = keyword.spelling().len();
    if i + n <= s.len() && s.subrange(i, i + n) == keyword.spelling() {
        Some(i + n)
    } else {
        None
    }
}

/// The position behind the value whose first byte stands at `i`.
pub open spec fn value_end(s: Seq<u8>, i: int) -> Option<int>
    decreases s.len() - i, 0int,
{
    if !(0 <= i < s.len()) {
        None
    } else if s[i] == OPEN_BRACE {
        object_end(s, i + 1)
    } else if s[i] == OPEN_BRACKET {
        array_end(s, i + 1)
    } else if s[i] == QUOTE {
        string_end(s, i + 1)
    } else if s[i] == 0x74 {
        keyword_end(s, i, Keyword::True)
    } else if s[i] == 0x66 {
        keyword_end(s, i, Keyword::False)
    } else if s[i] == 0x6E {
        keyword_end(s, i, Keyword::Null)
    } else if s[i] == 0x2D || ascii_digit(s[i]) {
        number_end(s, i)
    } else {
        None
    }
}

/// The position behind the object whose opening brace stands before `i`.
pub open spec fn object_end(s: Seq<u8>, i: int) -> Option<int>
    decreases s.len() - i, 2int,
{
    let j = skip_blanks(s, i);
    if !(0 <= i <= j < s.len()) {
        None
    } else if s[j] == CLOSE_BRACE {
        Some(j + 1)
    } else {
        members_end(s, j)
    }
}

/// The position behind the object whose next member starts at `i`.
pub open spec fn members_end(s: Seq<u8>, i: int) -> Option<int>
    decreases s.len() - i, 1int,
{
    if !(0 <= i < s.len()) || s[i] != QUOTE {
        None
    } else {
        match string_end(s, i + 1) {
            None => None,
            Some(k) => {
                let c = skip_blanks(s, k);
                let v = skip_blanks(s, c + 1);
                if !(i < c < v < s.len()) || s[c] != COLON {
                    None
                } else {
                    match value_end(s, v) {
                        None => None,
                        Some(e) => {
                            let n = skip_blanks(s, e);
                            let m = skip_blanks(s, n + 1);
                            if !(i < n < s.len()) {
                                None
                            } else if s[n] == CLOSE_BRACE {
                                Some(n + 1)
                            } else if s[n] == COMMA && n < m <= s.len() {
                                members_end(s, m)
                            } else {
                                None
                            }
                        },
                    }
                }
            },
        }
    }
}

/// The position behind the array whose opening bracket stands before `i`.
pub open spec fn array_end(s: Seq<u8>, i: int) -> Option<int>
    decreases s.len() - i, 2int,
{
    let j = skip_blanks(s, i);
    if !(0 <= i <= j < s.len()) {
        None
    } else if s[j] == CLOSE_BRACKET {
        Some(j + 1)
    } else {
        elements_end(s, j)
    }
}

/// The position behind the array whose next element starts at `i`.
pub open spec fn elements_end(s: Seq<u8>, i: int) -> Option<int>
    decreases s.len() - i, 1int,
{
    match value_end(s, i) {
        None => None,
        Some(e) => {
            let n = skip_blanks(s, e);
            let m = skip_blanks(s, n + 1);
            if !(0 <= i < n < s.len()) {
                None
            } else if s[n] == CLOSE_BRACKET {
                Some(n + 1)
            } else if s[n] == COMMA && n < m <= s.len() {
                elements_end(s, m)
            } else {
                None
            }
        },
    }
}

/// Whether `s` is one JSON object, with nothing but whitespace around it.
pub open spec fn is_object_document(s: Seq<u8>) -> bool {
    let i = skip_blanks(s, 0);
    &&& i < s.len()
    &&& s[i] == OPEN_BRACE
    &&& value_end(s, i) matches Some(e) && skip_blanks(s, e) == s.len()
}

// ---------------------------------------------------------------------------------------------
// Runs of the validator
// ---------------------------------------------------------------------------------------------

/// The grammar behind the bytes from `i` on.
pub open spec fn run(g: Grammar, s: Seq<u8>, i: int) -> Grammar
    decreases s.len() - i,
{
    if 0 <= i < s.len() {
        run(g.after(s[i]), s, i + 1)
    } else {
        g
    }
}

/// Whether the validator, at `g` before position `i`, accepts the document in the end.
pub open spec fn accepted(g: Grammar, s: Seq<u8>, i: int) -> bool {
    run(g, s, i).accepts()
}

/// The grammar inside the containers `k`.
pub open spec fn inside(k: Seq<Container>, state: State) -> Grammar {
    Grammar { stack: k, state, failed: false, complete: false }
}

/// The grammar behind a value inside the containers `k`.
pub open spec fn ended(k: Seq<Container>) -> Grammar {
    inside(k, State::Comma).value_ended()
}

proof fn failure_stays(g: Grammar, s: Seq<u8>, i: int)
    requires
        g.failed,
        0 <= i <= s.len(),
    ensures
        !accepted(g, s, i),
    decreases s.len() - i,
{
    if i < s.len() {
        failure_stays(g.after(s[i]), s, i + 1);
    }
}

proof fn blanks_bounds(s: Seq<u8>, i: int)
    requires
        0 <= i <= s.len(),
    ensures
        i <= skip_blanks(s, i) <= s.len(),
        skip_blanks(s, i) < s.len() ==> !json_whitespace(s[skip_blanks(s, i)]),
    decreases s.len() - i,
{
    if i < s.len() && json_whitespace(s[i]) {
        blanks_bounds(s, i + 1);
    }
}

/// Whether the grammar stands between tokens.
pub open spec fn between(state: State) -> bool {
    !(state is Str) && !(state is Num) && !(state is Lit)
}

proof fn blanks_pass(g: Grammar, s: Seq<u8>, i: int)
    requires
        0 <= i <= s.len(),
        between(g.state),
        !g.failed,
    ensures
        accepted(g, s, i) == accepted(g, s, skip_blanks(s, i)),
    decreases s.len() - i,
{
    if i < s.len() && json_whitespace(s[i]) {
        assert(g.after(s[i]) == g);
        blanks_pass(g, s, i + 1);
    }
}

proof fn string_law(k: Seq<Container>, key: bool, s: Seq<u8>, i: int)
    requires
        0 <= i <= s.len(),
    ensures
        ({
            let g = inside(k, State::Str { escape: Escape::Literal, key });
            match string_end(s, i) {
                Some(e) => i < e <= s.len() && accepted(g, s, i) == accepted(
                    if key {
                        inside(k, State::Colon)
                    } else {
                        ended(k)
                    },
                    s,
                    e,
                ),
                None => !accepted(g, s, i),
            }
        }),
    decreases s.len() - i,
{
    let g = inside(k, State::Str { escape: Escape::Literal, key });
    if i < s.len() {
        if s[i] == QUOTE {
            assert(g.after(s[i]) == if key {
                inside(k, State::Colon)
            } else {
                ended(k)
            });
        } else if s[i] == BACKSLASH {
            let h = inside(k, State::Str { escape: Escape::Backslash, key });
            assert(g.after(s[i]) == h);
            assert(run(g, s, i) == run(h, s, i + 1));
            if i + 1 < s.len() {
                assert(run(h, s, i + 1) == run(h.after(s[i + 1]), s, i + 2));
                if plain_escape(s[i + 1]) {
                    assert(h.after(s[i + 1]) == g);
                    string_law(k, key, s, i + 2);
                } else if s[i + 1] == 0x75 {
                    let u = inside(k, State::Str { escape: Escape::Unicode(0), key });
                    assert(h.after(s[i + 1]) == u);
                    unicode_law(k, key, s, i + 2);
                    if i + 5 < s.len() && hex_digit(s[i + 2]) && hex_digit(s[i + 3]) && hex_digit(s[i + 4])
                        && hex_digit(s[i + 5]) {
                        string_law(k, key, s, i + 6);
                    }
                } else {
                    assert(h.after(s[i + 1]).failed);
                    failure_stays(h.after(s[i + 1]), s, i + 2);
                }
            } else {
                assert(run(h, s, i + 1) == h);
            }
        } else if s[i] <= 0x1F {
            assert(g.after(s[i]).failed);
            failure_stays(g.after(s[i]), s, i + 1);
        } else {
            assert(g.after(s[i]) == g);
            assert(run(g, s, i) == run(g, s, i + 1));
            string_law(k, key, s, i + 1);
        }
    }
}

/// Four hex digits and no fewer.
proof fn unicode_law(k: Seq<Container>, key: bool, s: Seq<u8>, i: int)
    requires
        0 <= i <= s.len(),
    ensures
        ({
            let u = inside(k, State::Str { escape: Escape::Unicode(0), key });
            if i + 3 < s.len() && hex_digit(s[i]) && hex_digit(s[i + 1]) && hex_digit(s[i + 2]) && hex_digit(
                s[i + 3],
            ) {
                accepted(u, s, i) == accepted(inside(k, State::Str { escape: Escape::Literal, key }), s, i + 4)
            } else {
                !accepted(u, s, i)
            }
        }),
{
    let u0 = inside(k, State::Str { escape: Escape::Unicode(0), key });
    let u1 = inside(k, State::Str { escape: Escape::Unicode(1), key });
    let u2 = inside(k, State::Str { escape: Escape::Unicode(2), key });
    let u3 = inside(k, State::Str { escape: Escape::Unicode(3), key });
    let g = inside(k, State::Str { escape: Escape::Literal, key });
    if i < s.len() {
        if !hex_digit(s[i]) {
            failure_stays(u0.after(s[i]), s, i + 1);
        } else {
            assert(u0.after(s[i]) == u1);
            if i + 1 < s.len() {
                if !hex_digit(s[i + 1]) {
                    failure_stays(u1.after(s[i + 1]), s, i + 2);
                } else {
                    assert(u1.after(s[i + 1]) == u2);
                    if i + 2 < s.len() {
                        if !hex_digit(s[i + 2]) {
                            failure_stays(u2.after(s[i + 2]), s, i + 3);
                        } else {
                            assert(u2.after(s[i + 2]) == u3);
                            if i + 3 < s.len() {
                                if !hex_digit(s[i + 3]) {
                                    failure_stays(u3.after(s[i + 3]), s, i + 4);
                                } else {
                                    assert(u3.after(s[i + 3]) == g);
                                    assert(run(u3, s, i + 3) == run(g, s, i + 4));
                                }
                            }
                            assert(run(u2, s, i + 2) == run(u3, s, i + 3));
                        }
                    }
                    assert(run(u1, s, i + 1) == run(u2, s, i + 2));
                }
            }
            assert(run(u0, s, i) == run(u1, s, i + 1));
        }
    }
}

proof fn digits_law(k: Seq<Container>, number: Number, s: Seq<u8>, i: int)
    requires
        0 <= i <= s.len(),
        number is Int || number is Frac || number is ExpDigit,
    ensures
        i <= digits_end(s, i) <= s.len(),
        digits_end(s, i) < s.len() ==> !ascii_digit(s[digits_end(s, i)]),
        accepted(inside(k, State::Num(number)), s, i) == accepted(
            inside(k, State::Num(number)),
            s,
            digits_end(s, i),
        ),
    decreases s.len() - i,
{
    if i < s.len() && ascii_digit(s[i]) {
        assert(inside(k, State::Num(number)).after(s[i]) == inside(k, State::Num(number)));
        digits_law(k, number, s, i + 1);
    }
}

/// A number that may end, before a byte that is not part of it.
proof fn number_ends(k: Seq<Container>, number: Number, s: Seq<u8>, i: int)
    requires
        0 <= i <= s.len(),
        k.len() > 0,
        number.may_end(),
        i < s.len() ==> number_step(number, s[i]) is Terminate,
    ensures
        accepted(inside(k, State::Num(number)), s, i) == accepted(ended(k), s, i),
{
    if i < s.len() {
        assert(inside(k, State::Num(number)).after(s[i]) == ended(k).between_tokens(s[i]));
        assert(ended(k).after(s[i]) == ended(k).between_tokens(s[i]));
    }
}

/// A number that may not end, before a byte that does not extend it.
proof fn number_breaks(k: Seq<Container>, number: Number, s: Seq<u8>, i: int)
    requires
        0 <= i <= s.len(),
        !number.may_end(),
        i < s.len() ==> !(number_step(number, s[i]) is Continue),
    ensures
        !accepted(inside(k, State::Num(number)), s, i),
{
    if i < s.len() {
        failure_stays(inside(k, State::Num(number)).after(s[i]), s, i + 1);
    }
}

proof fn exponent_law(k: Seq<Container>, number: Number, s: Seq<u8>, i: int)
    requires
        0 <= i <= s.len(),
        k.len() > 0,
        number is Zero || number is Int || number is Frac,
        i < s.len() ==> !(s[i] == 0x2E && !(number is Frac)),
        i < s.len() && !(number is Zero) ==> !ascii_digit(s[i]),
    ensures
        match exponent_end(s, i) {
            Some(e) => i <= e <= s.len() && accepted(inside(k, State::Num(number)), s, i) == accepted(ended(k), s, e),
            None => !accepted(inside(k, State::Num(number)), s, i),
        },
{
    let g = inside(k, State::Num(number));
    if i < s.len() && (s[i] == 0x65 || s[i] == 0x45) {
        let x = inside(k, State::Num(Number::Exp));
        assert(g.after(s[i]) == x);
        assert(run(g, s, i) == run(x, s, i + 1));
        let d = inside(k, State::Num(Number::ExpDigit));
        if i + 1 < s.len() && (s[i + 1] == 0x2B || s[i + 1] == 0x2D) {
            let y = inside(k, State::Num(Number::ExpSign));
            assert(x.after(s[i + 1]) == y);
            assert(run(x, s, i + 1) == run(y, s, i + 2));
            if i + 2 < s.len() && ascii_digit(s[i + 2]) {
                assert(y.after(s[i + 2]) == d);
                assert(run(y, s, i + 2) == run(d, s, i + 3));
                digits_law(k, Number::ExpDigit, s, i + 3);
                number_ends(k, Number::ExpDigit, s, digits_end(s, i + 3));
                assert(digits_end(s, i + 2) == digits_end(s, i + 3));
            } else {
                number_breaks(k, Number::ExpSign, s, i + 2);
            }
        } else if i + 1 < s.len() && ascii_digit(s[i + 1]) {
            assert(x.after(s[i + 1]) == d);
            assert(run(x, s, i + 1) == run(d, s, i + 2));
            digits_law(k, Number::ExpDigit, s, i + 2);
            number_ends(k, Number::ExpDigit, s, digits_end(s, i + 2));
            assert(digits_end(s, i + 1) == digits_end(s, i + 2));
        } else {
            number_breaks(k, Number::Exp, s, i + 1);
        }
    } else {
        number_ends(k, number, s, i);
    }
}

proof fn fraction_law(k: Seq<Container>, number: Number, s: Seq<u8>, i: int)
    requires
        0 <= i <= s.len(),
        k.len() > 0,
        number is Zero || number is Int,
        i < s.len() && number is Int ==> !ascii_digit(s[i]),
    ensures
        match fraction_end(s, i) {
            Some(e) => i <= e <= s.len() && accepted(inside(k, State::Num(number)), s, i) == accepted(ended(k), s, e),
            None => !accepted(inside(k, State::Num(number)), s, i),
        },
{
    let g = inside(k, State::Num(number));
    if i < s.len() && s[i] == 0x2E {
        let x = inside(k, State::Num(Number::Dot));
        let f = inside(k, State::Num(Number::Frac));
        assert(g.after(s[i]) == x);
        assert(run(g, s, i) == run(x, s, i + 1));
        if i + 1 < s.len() && ascii_digit(s[i + 1]) {
            assert(x.after(s[i + 1]) == f);
            assert(run(x, s, i + 1) == run(f, s, i + 2));
            digits_law(k, Number::Frac, s, i + 2);
            assert(digits_end(s, i + 1) == digits_end(s, i + 2));
            exponent_law(k, Number::Frac, s, digits_end(s, i + 2));
        } else {
            number_breaks(k, Number::Dot, s, i + 1);
        }
    } else {
        exponent_law(k, number, s, i);
    }
}

proof fn number_law(k: Seq<Container>, state: State, s: Seq<u8>, i: int)
    requires
        0 <= i < s.len(),
        k.len() > 0,
        s[i] == 0x2D || ascii_digit(s[i]),
        state is Value || state is ArrayFirst,
    ensures
        match number_end(s, i) {
            Some(e) => i < e <= s.len() && accepted(inside(k, state), s, i) == accepted(ended(k), s, e),
            None => !accepted(inside(k, state), s, i),
        },
{
    let g = inside(k, state);
    let z = inside(k, State::Num(Number::Zero));
    let d = inside(k, State::Num(Number::Int));
    if s[i] == 0x2D {
        let m = inside(k, State::Num(Number::Minus));
        assert(g.after(s[i]) == m);
        assert(run(g, s, i) == run(m, s, i + 1));
        if i + 1 < s.len() && ascii_digit(s[i + 1]) {
            if s[i + 1] == 0x30 {
                assert(m.after(s[i + 1]) == z);
                assert(run(m, s, i + 1) == run(z, s, i + 2));
                fraction_law(k, Number::Zero, s, i + 2);
            } else {
                assert(m.after(s[i + 1]) == d);
                assert(run(m, s, i + 1) == run(d, s, i + 2));
                digits_law(k, Number::Int, s, i + 2);
                fraction_law(k, Number::Int, s, digits_end(s, i + 2));
            }
        } else {
            number_breaks(k, Number::Minus, s, i + 1);
        }
    } else if s[i] == 0x30 {
        assert(g.after(s[i]) == z);
        assert(run(g, s, i) == run(z, s, i + 1));
        fraction_law(k, Number::Zero, s, i + 1);
    } else {
        assert(g.after(s[i]) == d);
        assert(run(g, s, i) == run(d, s, i + 1));
        digits_law(k, Number::Int, s, i + 1);
        fraction_law(k, Number::Int, s, digits_end(s, i + 1));
    }
}

/// A keyword of which `index` bytes have been read, the rest of it standing from `i` on.
proof fn literal_law(k: Seq<Container>, keyword: Keyword, index: u8, s: Seq<u8>, i: int)
    requires
        0 <= i <= s.len(),
        1 <= index < keyword.spelling().len(),
    ensures
        ({
            let g = inside(k, State::Lit { keyword, index });
            let rest = keyword.spelling().skip(index as int);
            if i + rest.len() <= s.len() && s.subrange(i, i + rest.len()) == rest {
                accepted(g, s, i) == accepted(ended(k), s, i + rest.len())
            } else {
                !accepted(g, s, i)
            }
        }),
    decreases keyword.spelling().len() - index,
{
    let g = inside(k, State::Lit { keyword, index });
    let spelling = keyword.spelling();
    let rest = spelling.skip(index as int);
    if i < s.len() {
        if s[i] != spelling[index as int] {
            failure_stays(g.after(s[i]), s, i + 1);
            if i + rest.len() <= s.len() && s.subrange(i, i + rest.len()) == rest {
                assert(s.subrange(i, i + rest.len())[0] == s[i]);
                assert(rest[0] == spelling[index as int]);
            }
        } else if index + 1 == spelling.len() {
            assert(g.after(s[i]) == ended(k));
            assert(rest.len() == 1);
            assert(s.subrange(i, i + 1) =~= rest);
        } else {
            let h = inside(k, State::Lit { keyword, index: (index + 1) as u8 });
            assert(g.after(s[i]) == h);
            assert(run(g, s, i) == run(h, s, i + 1));
            literal_law(k, keyword, (index + 1) as u8, s, i + 1);
            let less = spelling.skip(index + 1);
            if i + rest.len() <= s.len() {
                assert(s.subrange(i, i + rest.len()) == rest <==> s.subrange(i + 1, i + 1 + less.len()) == less) by {
                    if s.subrange(i, i + rest.len()) == rest {
                        assert(s.subrange(i + 1, i + 1 + less.len()) =~= s.subrange(i, i + rest.len()).skip(1));
                        assert(less =~= rest.skip(1));
                    }
                    if s.subrange(i + 1, i + 1 + less.len()) == less {
                        assert forall|j: int| 0 <= j < rest.len() implies s.subrange(i, i + rest.len())[j]
                            == rest[j] by {
                            if j > 0 {
                                assert(s.subrange(i + 1, i + 1 + less.len())[j - 1] == less[j - 1]);
                            }
                        }
                        assert(s.subrange(i, i + rest.len()) =~= rest);
                    }
                }
            }
        }
    }
}

proof fn keyword_law(k: Seq<Container>, state: State, keyword: Keyword, s: Seq<u8>, i: int)
    requires
        0 <= i < s.len(),
        k.len() > 0,
        s[i] == keyword.spelling()[0],
        state is Value || state is ArrayFirst,
    ensures
        match keyword_end(s, i, keyword) {
            Some(e) => i < e <= s.len() && accepted(inside(k, state), s, i) == accepted(ended(k), s, e),
            None => !accepted(inside(k, state), s, i),
        },
{
    let g = inside(k, state);
    let h = inside(k, State::Lit { keyword, index: 1 });
    let spelling = keyword.spelling();
    let n = spelling.len() as int;
    let less = spelling.skip(1);
    assert(g.after(s[i]) == h);
    assert(run(g, s, i) == run(h, s, i + 1));
    literal_law(k, keyword, 1, s, i + 1);
    if i + n <= s.len() {
        assert(s.subrange(i, i + n) == spelling <==> s.subrange(i + 1, i + n) == less) by {
            if s.subrange(i, i + n) == spelling {
                assert(s.subrange(i + 1, i + n) =~= s.subrange(i, i + n).skip(1));
            }
            if s.subrange(i + 1, i + n) == less {
                assert forall|j: int| 0 <= j < n implies s.subrange(i, i + n)[j] == spelling[j] by {
                    if j > 0 {
                        assert(s.subrange(i + 1, i + n)[j - 1] == less[j - 1]);
                    }
                }
                assert(s.subrange(i, i + n) =~= spelling);
            }
        }
    }
}

/// A value inside the containers `k` ends where the grammar says, or the document is not accepted.
proof fn value_law(k: Seq<Container>, state: State, s: Seq<u8>, i: int)
    requires
        0 <= i <= s.len(),
        k.len() > 0,
        state is Value || state is ArrayFirst,
        i < s.len() ==> !json_whitespace(s[i]),
        i < s.len() && state is ArrayFirst ==> s[i] != CLOSE_BRACKET,
    ensures
        match value_end(s, i) {
            Some(e) => i < e <= s.len() && accepted(inside(k, state), s, i) == accepted(ended(k), s, e),
            None => !accepted(inside(k, state), s, i),
        },
    decreases s.len() - i, 0int,
{
    let g = inside(k, state);
    if i < s.len() {
        if s[i] == OPEN_BRACE {
            assert(g.after(s[i]) == inside(k.push(Container::Object), State::ObjectFirst));
            object_law(k, s, i + 1);
        } else if s[i] == OPEN_BRACKET {
            assert(g.after(s[i]) == inside(k.push(Container::Array), State::ArrayFirst));
            array_law(k, s, i + 1);
        } else if s[i] == QUOTE {
            assert(g.after(s[i]) == inside(k, State::Str { escape: Escape::Literal, key: false }));
            string_law(k, false, s, i + 1);
        } else if s[i] == 0x74 {
            keyword_law(k, state, Keyword::True, s, i);
        } else if s[i] == 0x66 {
            keyword_law(k, state, Keyword::False, s, i);
        } else if s[i] == 0x6E {
            keyword_law(k, state, Keyword::Null, s, i);
        } else if s[i] == 0x2D || ascii_digit(s[i]) {
            number_law(k, state, s, i);
        } else {
            failure_stays(g.after(s[i]), s, i + 1);
        }
    }
}

proof fn object_law(k: Seq<Container>, s: Seq<u8>, i: int)
    requires
        0 <= i <= s.len(),
    ensures
        ({
            let g = inside(k.push(Container::Object), State::ObjectFirst);
            match object_end(s, i) {
                Some(e) => i < e <= s.len() && accepted(g, s, i) == accepted(ended(k), s, e),
                None => !accepted(g, s, i),
            }
        }),
    decreases s.len() - i, 2int,
{
    let g = inside(k.push(Container::Object), State::ObjectFirst);
    blanks_bounds(s, i);
    blanks_pass(g, s, i);
    let j = skip_blanks(s, i);
    if j < s.len() {
        if s[j] == CLOSE_BRACE {
            assert(k.push(Container::Object).drop_last() =~= k);
            assert(g.after(s[j]) == ended(k));
        } else {
            members_law(k, State::ObjectFirst, s, j);
        }
    }
}

proof fn members_law(k: Seq<Container>, state: State, s: Seq<u8>, i: int)
    requires
        0 <= i <= s.len(),
        state is ObjectFirst || state is ObjectKey,
        i < s.len() ==> !json_whitespace(s[i]),
        i < s.len() && state is ObjectFirst ==> s[i] != CLOSE_BRACE,
    ensures
        ({
            let g = inside(k.push(Container::Object), state);
            match members_end(s, i) {
                Some(e) => i < e <= s.len() && accepted(g, s, i) == accepted(ended(k), s, e),
                None => !accepted(g, s, i),
            }
        }),
    decreases s.len() - i, 1int,
{
    let deeper = k.push(Container::Object);
    let g = inside(deeper, state);
    if i < s.len() {
        if s[i] != QUOTE {
            failure_stays(g.after(s[i]), s, i + 1);
        } else {
            assert(g.after(s[i]) == inside(deeper, State::Str { escape: Escape::Literal, key: true }));
            string_law(deeper, true, s, i + 1);
            if string_end(s, i + 1) is Some {
                let q = string_end(s, i + 1)->0;
                let colon = inside(deeper, State::Colon);
                blanks_bounds(s, q);
                blanks_pass(colon, s, q);
                let c = skip_blanks(s, q);
                if c < s.len() {
                    if s[c] != COLON {
                        failure_stays(colon.after(s[c]), s, c + 1);
                    } else {
                        let value = inside(deeper, State::Value);
                        assert(colon.after(s[c]) == value);
                        assert(run(colon, s, c) == run(value, s, c + 1));
                        blanks_bounds(s, c + 1);
                        blanks_pass(value, s, c + 1);
                        let v = skip_blanks(s, c + 1);
                        value_law(deeper, State::Value, s, v);
                        if v < s.len() && value_end(s, v) is Some {
                            let e = value_end(s, v)->0;
                            after_member(k, s, e);
                            blanks_bounds(s, e);
                            let n = skip_blanks(s, e);
                            if n < s.len() && s[n] == COMMA {
                                blanks_bounds(s, n + 1);
                                blanks_pass(inside(deeper, State::ObjectKey), s, n + 1);
                                members_law(k, State::ObjectKey, s, skip_blanks(s, n + 1));
                            }
                        }
                    }
                }
            }
        }
    }
}

/// Behind a member stands the end of the object or a comma and another member.
proof fn after_member(k: Seq<Container>, s: Seq<u8>, e: int)
    requires
        0 <= e <= s.len(),
    ensures
        ({
            let deeper = k.push(Container::Object);
            let n = skip_blanks(s, e);
            &&& n < s.len() && s[n] == CLOSE_BRACE ==> accepted(ended(deeper), s, e) == accepted(ended(k), s, n + 1)
            &&& n < s.len() && s[n] == COMMA ==> accepted(ended(deeper), s, e) == accepted(
                inside(deeper, State::ObjectKey),
                s,
                n + 1,
            )
            &&& !(n < s.len() && (s[n] == CLOSE_BRACE || s[n] == COMMA)) ==> !accepted(ended(deeper), s, e)
        }),
{
    let deeper = k.push(Container::Object);
    let comma = inside(deeper, State::Comma);
    assert(ended(deeper) == comma);
    blanks_bounds(s, e);
    blanks_pass(comma, s, e);
    let n = skip_blanks(s, e);
    assert(deeper.drop_last() =~= k);
    if n < s.len() {
        if s[n] == CLOSE_BRACE {
            assert(comma.after(s[n]) == ended(k));
        } else if s[n] == COMMA {
            assert(comma.after(s[n]) == inside(deeper, State::ObjectKey));
        } else {
            assert(comma.after(s[n]).failed);
            failure_stays(comma.after(s[n]), s, n + 1);
        }
    }
}

proof fn array_law(k: Seq<Container>, s: Seq<u8>, i: int)
    requires
        0 <= i <= s.len(),
    ensures
        ({
            let g = inside(k.push(Container::Array), State::ArrayFirst);
            match array_end(s, i) {
                Some(e) => i < e <= s.len() && accepted(g, s, i) == accepted(ended(k), s, e),
                None => !accepted(g, s, i),
            }
        }),
    decreases s.len() - i, 2int,
{
    let g = inside(k.push(Container::Array), State::ArrayFirst);
    blanks_bounds(s, i);
    blanks_pass(g, s, i);
    let j = skip_blanks(s, i);
    if j < s.len() {
        if s[j] == CLOSE_BRACKET {
            assert(k.push(Container::Array).drop_last() =~= k);
            assert(g.after(s[j]) == ended(k));
        } else {
            elements_law(k, State::ArrayFirst, s, j);
        }
    }
}

proof fn elements_law(k: Seq<Container>, state: State, s: Seq<u8>, i: int)
    requires
        0 <= i <= s.len(),
        state is ArrayFirst || state is Value,
        i < s.len() ==> !json_whitespace(s[i]),
        i < s.len() && state is ArrayFirst ==> s[i] != CLOSE_BRACKET,
    ensures
        ({
            let g = inside(k.push(Container::Array), state);
            match elements_end(s, i) {
                Some(e) => i < e <= s.len() && accepted(g, s, i) == accepted(ended(k), s, e),
                None => !accepted(g, s, i),
            }
        }),
    decreases s.len() - i, 1int,
{
    let deeper = k.push(Container::Array);
    value_law(deeper, state, s, i);
    if value_end(s, i) is Some {
        let e = value_end(s, i)->0;
        after_element(k, s, e);
        blanks_bounds(s, e);
        let n = skip_blanks(s, e);
        if n < s.len() && s[n] == COMMA {
            blanks_bounds(s, n + 1);
            blanks_pass(inside(deeper, State::Value), s, n + 1);
            elements_law(k, State::Value, s, skip_blanks(s, n + 1));
        }
    }
}

/// Behind an element stands the end of the array or a comma and another element.
proof fn after_element(k: Seq<Container>, s: Seq<u8>, e: int)
    requires
        0 <= e <= s.len(),
    ensures
        ({
            let deeper = k.push(Container::Array);
            let n = skip_blanks(s, e);
            &&& n < s.len() && s[n] == CLOSE_BRACKET ==> accepted(ended(deeper), s, e) == accepted(ended(k), s, n + 1)
            &&& n < s.len() && s[n] == COMMA ==> accepted(ended(deeper), s, e) == accepted(
                inside(deeper, State::Value),
                s,
                n + 1,
            )
            &&& !(n < s.len() && (s[n] == CLOSE_BRACKET || s[n] == COMMA)) ==> !accepted(ended(deeper), s, e)
        }),
{
    let deeper = k.push(Container::Array);
    let comma = inside(deeper, State::Comma);
    assert(ended(deeper) == comma);
    blanks_bounds(s, e);
    blanks_pass(comma, s, e);
    let n = skip_blanks(s, e);
    assert(deeper.drop_last() =~= k);
    if n < s.len() {
        if s[n] == CLOSE_BRACKET {
            assert(comma.after(s[n]) == ended(k));
        } else if s[n] == COMMA {
            assert(comma.after(s[n]) == inside(deeper, State::Value));
        } else {
            assert(comma.after(s[n]).failed);
            failure_stays(comma.after(s[n]), s, n + 1);
        }
    }
}

/// Behind the root only whitespace may stand.
proof fn root_law(s: Seq<u8>, e: int)
    requires
        0 <= e <= s.len(),
    ensures
        accepted(ended(Seq::<Container>::empty()), s, e) == (skip_blanks(s, e) == s.len()),
{
    let done = ended(Seq::<Container>::empty());
    blanks_bounds(s, e);
    blanks_pass(done, s, e);
    let n = skip_blanks(s, e);
    if n < s.len() {
        assert(done.after(s[n]).failed);
        failure_stays(done.after(s[n]), s, n + 1);
    }
}

proof fn run_law(s: Seq<u8>)
    ensures
        accepted(grammar_start(), s, 0) == is_object_document(s),
{
    let start = grammar_start();
    let none = Seq::<Container>::empty();
    assert(start == inside(none, State::Value));
    blanks_bounds(s, 0);
    blanks_pass(start, s, 0);
    let i = skip_blanks(s, 0);
    if i < s.len() {
        if s[i] == OPEN_BRACE {
            assert(start.after(s[i]) == inside(none.push(Container::Object), State::ObjectFirst));
            assert(run(start, s, i) == run(start.after(s[i]), s, i + 1));
            object_law(none, s, i + 1);
            if object_end(s, i + 1) is Some {
                root_law(s, object_end(s, i + 1)->0);
            }
        } else {
            assert(start.after(s[i]).failed);
            failure_stays(start.after(s[i]), s, i + 1);
        }
    }
}

proof fn run_is_after_all(g: Grammar, s: Seq<u8>, i: int)
    requires
        0 <= i <= s.len(),
    ensures
        run(g.after_all(s.take(i)), s, i) == g.after_all(s),
    decreases s.len() - i,
{
    if i < s.len() {
        run_is_after_all(g, s, i + 1);
        assert(s.take(i + 1).drop_last() =~= s.take(i));
        assert(s.take(i + 1).last() == s[i]);
    } else {
        assert(s.take(i) =~= s);
    }
}

/// The validator accepts exactly the JSON documents whose root is an object.
pub proof fn validator_accepts_exactly_object_documents(s: Seq<u8>)
    ensures
        grammar_start().after_all(s).accepts() == is_object_document(s),
{
    run_law(s);
    run_is_after_all(grammar_start(), s, 0);
    assert(s.take(0) =~= Seq::<u8>::empty());
}

} // verus!
