//! What texts promise, whatever they hold: how they are trimmed, cut, joined, ordered and spelled.
use vstd::prelude::*;

use crate::text::{
    ascii_lower, ascii_lower_text, before, clamped_difference, cut_last, decimal, decimal_reads_back, file_name, holds,
    in_order, joined, last_index_of_joined, path_extension, replaced, signed_decimal, stands_at, trimmed, trimmed_end,
    trimmed_path, trimmed_start, u64_of, white_space,
};

verus! {

/// A trimmed text neither begins nor ends with a blank, and one without blanks around it is left as it is.
pub proof fn trimmed_texts_have_no_blanks_around(s: Seq<char>)
    ensures
        trimmed(s).len() > 0 ==> !white_space(trimmed(s)[0]) && !white_space(trimmed(s).last()),
        s.len() > 0 && !white_space(s[0]) && !white_space(s.last()) ==> trimmed(s) == s,
        trimmed(trimmed(s)) == trimmed(s),
        trimmed(s).len() <= s.len(),
        s.len() == 0 ==> trimmed(s) == s,
{
    fronts_are_trimmed(s);
    ends_are_trimmed(trimmed_start(s));
    let t = trimmed(s);
    fronts_are_trimmed(t);
    ends_are_trimmed(trimmed_start(t));
    ends_are_trimmed(t);
}

proof fn fronts_are_trimmed(s: Seq<char>)
    ensures
        trimmed_start(s).len() > 0 ==> !white_space(trimmed_start(s)[0]) && trimmed_start(s).last() == s.last(),
        trimmed_start(s).len() <= s.len(),
        s.len() > 0 && !white_space(s[0]) ==> trimmed_start(s) == s,
        s.len() == 0 ==> trimmed_start(s) == s,
    decreases s.len(),
{
    if s.len() > 0 && white_space(s[0]) {
        fronts_are_trimmed(s.skip(1));
    }
}

proof fn ends_are_trimmed(s: Seq<char>)
    ensures
        trimmed_end(s).len() > 0 ==> !white_space(trimmed_end(s).last()) && trimmed_end(s)[0] == s[0],
        trimmed_end(s).len() <= s.len(),
        s.len() > 0 && !white_space(s.last()) ==> trimmed_end(s) == s,
        s.len() == 0 ==> trimmed_end(s) == s,
    decreases s.len(),
{
    if s.len() > 0 && white_space(s.last()) {
        ends_are_trimmed(s.drop_last());
    }
}

/// Blanks are trimmed on either side of a word, and none within it.
pub proof fn words_are_trimmed_out(word: Seq<char>, blank: char)
    requires
        word.len() > 0,
        !white_space(word[0]),
        !white_space(word.last()),
        white_space(blank),
    ensures
        trimmed(seq![blank] + word) == word,
        trimmed(word.push(blank)) == word,
        white_space(' ') && white_space('\t') && white_space('\n') && white_space('\r'),
        !white_space('a') && !white_space('0') && !white_space('-') && !white_space('/') && !white_space('.')
            && !white_space('_'),
{
    let before_word = seq![blank] + word;
    assert(before_word.skip(1) =~= word);
    fronts_are_trimmed(word);
    assert(trimmed_start(before_word) == trimmed_start(word));
    ends_are_trimmed(word);
    let after = word.push(blank);
    assert(after.drop_last() =~= word);
    fronts_are_trimmed(after);
    assert(trimmed_end(after) == trimmed_end(word));
}

/// Lowering changes the ASCII capitals and nothing else, and once is enough.
pub proof fn lowering_changes_capitals_alone(c: char)
    ensures
        !('A' <= c && c <= 'Z') ==> ascii_lower(c) == c,
        'A' <= c && c <= 'Z' ==> ascii_lower(c) as u32 == c as u32 + 32,
        ascii_lower(ascii_lower(c)) == ascii_lower(c),
{
}

/// Lowering keeps a text's length, and each character is lowered where it stands.
pub proof fn texts_are_lowered_character_by_character(s: Seq<char>, i: int)
    requires
        0 <= i < s.len(),
    ensures
        ascii_lower_text(s).len() == s.len(),
        ascii_lower_text(s)[i] == ascii_lower(s[i]),
{
}

/// A number that is not negative is spelled by its digits, and a negative one with a minus before them. What is spelled
/// is read back.
pub proof fn numbers_are_spelled_by_their_digits(n: u64, m: int)
    ensures
        signed_decimal(n as int) == decimal(n as nat),
        m < 0 ==> signed_decimal(m) == "-"@ + decimal((-m) as nat),
        u64_of(decimal(n as nat)) == Some(n),
{
    decimal_reads_back(n);
}

/// A difference is exact where it can be held, and the nearest that can where it cannot.
pub proof fn differences_are_held(a: i64, b: i64)
    ensures
        i64::MIN <= a - b <= i64::MAX ==> clamped_difference(a, b) == a - b,
        a - b > i64::MAX ==> clamped_difference(a, b) == i64::MAX,
        a - b < i64::MIN ==> clamped_difference(a, b) == i64::MIN,
{
}

/// Joining puts the separator between any two and nowhere else.
pub proof fn separators_stand_between(items: Seq<Seq<char>>, sep: Seq<char>, item: Seq<char>)
    ensures
        joined(Seq::empty(), sep) == Seq::<char>::empty(),
        joined(seq![item], sep) == item,
        items.len() > 0 ==> joined(items.push(item), sep) == joined(items, sep) + sep + item,
{
    assert(items.push(item).drop_last() =~= items);
}

/// Replacing leaves a text that does not hold the pattern as it is, and turns the pattern itself into its replacement.
pub proof fn replacing_changes_what_is_held(s: Seq<char>, from: Seq<char>, to: Seq<char>)
    requires
        from.len() > 0,
    ensures
        !holds(s, from) ==> replaced(s, from, to) == s,
        replaced(from + s, from, to) == to + replaced(s, from, to),
{
    let whole = from + s;
    assert(whole.subrange(0, from.len() as int) =~= from);
    assert(whole.skip(from.len() as int) =~= s);
    if !holds(s, from) {
        nothing_is_replaced(s, from, to);
    }
}

proof fn nothing_is_replaced(s: Seq<char>, from: Seq<char>, to: Seq<char>)
    requires
        from.len() > 0,
        !holds(s, from),
    ensures
        replaced(s, from, to) == s,
    decreases s.len(),
{
    if s.len() >= from.len() {
        if from.is_prefix_of(s) {
            assert(s.subrange(0, from.len() as int) =~= from);
            assert(stands_at(s, from, 0));
        }
        let rest = s.drop_first();
        if holds(rest, from) {
            let i = choose|i: int| stands_at(rest, from, i);
            assert(s.subrange(i + 1, i + 1 + from.len()) =~= rest.subrange(i, i + from.len()));
            assert(stands_at(s, from, i + 1));
        }
        nothing_is_replaced(rest, from, to);
        assert(seq![s[0]] + rest =~= s);
    }
}

/// A text stands before every text that it begins and that is longer, and texts in order have no later one before an
/// earlier one.
pub proof fn shorter_texts_stand_first(a: Seq<char>, c: char, items: Seq<Seq<char>>, i: int, j: int)
    ensures
        before(a, a.push(c)),
        !before(a.push(c), a),
        in_order(items) && 0 <= i < j < items.len() ==> !before(items[j], items[i]),
    decreases a.len(),
{
    if a.len() > 0 {
        shorter_texts_stand_first(a.skip(1), c, items, i, j);
        assert(a.push(c).skip(1) =~= a.skip(1).push(c));
    }
}

/// A text is cut at its last separator.
pub proof fn texts_are_cut_at_the_last(rest: Seq<char>, c: char, tail: Seq<char>)
    requires
        !tail.contains(c),
    ensures
        cut_last(rest + seq![c] + tail, c) == Some((rest, tail)),
{
    last_index_of_joined(rest, c, tail);
}

/// A file's extension is what stands behind the last dot of its name, wherever the file stands; a name that begins with
/// its only dot has none.
pub proof fn extensions_stand_behind_the_last_dot(stem: Seq<char>, extension: Seq<char>)
    requires
        stem.len() > 0,
        extension.len() > 0,
        !stem.contains('/'),
        !extension.contains('/'),
        !extension.contains('.'),
    ensures
        file_name(stem + seq!['.'] + extension) == Some(stem + seq!['.'] + extension),
        path_extension(stem + seq!['.'] + extension) == Some(extension),
        path_extension(seq!['.'] + extension) is None,
{
    let name = stem + seq!['.'] + extension;
    let hidden = seq!['.'] + extension;
    assert(name.last() == extension.last());
    assert(extension.contains(extension.last()));
    assert(hidden.last() == extension.last());
    assert(trimmed_path(name) == name);
    assert(trimmed_path(hidden) == hidden);
    crate::text::last_index_bounds(name, '/');
    crate::text::last_index_bounds(hidden, '/');
    assert(!name.contains('/')) by {
        if name.contains('/') {
            let i = choose|i: int| 0 <= i < name.len() && name[i] == '/';
            if i < stem.len() {
                assert(stem[i] == '/');
            } else if i > stem.len() {
                assert(extension[i - stem.len() - 1] == '/');
            }
        }
    }
    assert(!hidden.contains('/')) by {
        if hidden.contains('/') {
            let i = choose|i: int| 0 <= i < hidden.len() && hidden[i] == '/';
            if i > 0 {
                assert(extension[i - 1] == '/');
            }
        }
    }
    assert(cut_last(name, '/') is None) by {
        let i = crate::text::last_index(name, '/');
        if i >= 0 {
            assert(name.contains(name[i]));
        }
    }
    assert(cut_last(hidden, '/') is None) by {
        let i = crate::text::last_index(hidden, '/');
        if i >= 0 {
            assert(hidden.contains(hidden[i]));
        }
    }
    reveal_strlit(".");
    reveal_strlit("..");
    assert(name.len() >= 3);
    if hidden.len() == 2 {
        assert(hidden[1] == extension[0]);
        assert(extension.contains(extension[0]));
        assert("."@.len() == 1);
        assert(".."@[1] == '.');
    }
    last_index_of_joined(stem, '.', extension);
    last_index_of_joined(Seq::empty(), '.', extension);
    assert(hidden =~= Seq::empty() + seq!['.'] + extension);
}

} // verus!
