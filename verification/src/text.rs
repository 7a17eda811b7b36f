//! Text as sequences of characters: searching, cutting, joining, ordering and decimal numbers.
use vstd::prelude::*;
#[allow(unused_imports)]
use vstd::string::StringSliceAdditionalSpecFns;


verus! {

// ---------------------------------------------------------------------------------------------
// Searching
// ---------------------------------------------------------------------------------------------

/// The first position of `c` in `s`, or the length of `s` when `c` does not occur.
pub open spec fn first_index<T>(s: Seq<T>, c: T) -> int
    decreases s.len(),
{
    if s.len() == 0 || s[0] == c {
        0
    } else {
        1 + first_index(s.skip(1), c)
    }
}

/// The last position of `c` in `s`, or `-1` when `c` does not occur.
pub open spec fn last_index<T>(s: Seq<T>, c: T) -> int
    decreases s.len(),
{
    if s.len() == 0 {
        -1
    } else if s.last() == c {
        s.len() - 1
    } else {
        last_index(s.drop_last(), c)
    }
}

/// A position that holds `c` with none before it is the first one; a sequence without `c` has its
/// length as its first position.
pub proof fn first_index_is<T>(s: Seq<T>, c: T, i: int)
    requires
        0 <= i <= s.len(),
        i < s.len() ==> s[i] == c,
        forall|j: int| 0 <= j < i ==> s[j] != c,
    ensures
        first_index(s, c) == i,
    decreases s.len(),
{
    if s.len() > 0 && s[0] != c {
        let t = s.skip(1);
        assert(i > 0);
        assert forall|j: int| 0 <= j < i - 1 implies t[j] != c by {
            assert(t[j] == s[j + 1]);
        }
        first_index_is(t, c, i - 1);
    }
}

/// What the first position says of the elements up to it.
pub proof fn first_index_bounds<T>(s: Seq<T>, c: T)
    ensures
        0 <= first_index(s, c) <= s.len(),
        first_index(s, c) < s.len() ==> s[first_index(s, c)] == c,
        forall|j: int| 0 <= j < first_index(s, c) ==> s[j] != c,
    decreases s.len(),
{
    if s.len() > 0 && s[0] != c {
        let t = s.skip(1);
        first_index_bounds(t, c);
        assert forall|j: int| 0 <= j < first_index(s, c) implies s[j] != c by {
            if j > 0 {
                assert(t[j - 1] == s[j]);
            }
        }
    }
}

/// A position that holds `c` with none after it is the last one.
pub proof fn last_index_is<T>(s: Seq<T>, c: T, i: int)
    requires
        -1 <= i < s.len(),
        i >= 0 ==> s[i] == c,
        forall|j: int| i < j < s.len() ==> s[j] != c,
    ensures
        last_index(s, c) == i,
    decreases s.len(),
{
    if s.len() > 0 && s.last() != c {
        last_index_is(s.drop_last(), c, i);
    }
}

/// What the last position says of the elements from it on.
pub proof fn last_index_bounds<T>(s: Seq<T>, c: T)
    ensures
        -1 <= last_index(s, c) < s.len(),
        last_index(s, c) >= 0 ==> s[last_index(s, c)] == c,
        forall|j: int| last_index(s, c) < j < s.len() ==> s[j] != c,
    decreases s.len(),
{
    if s.len() > 0 && s.last() != c {
        let t = s.drop_last();
        last_index_bounds(t, c);
        assert forall|j: int| last_index(s, c) < j < s.len() implies s[j] != c by {
            if j < s.len() - 1 {
                assert(t[j] == s[j]);
            }
        }
    }
}

/// The first `c` of `head + [c] + rest` stands behind a `head` that holds none.
pub proof fn first_index_of_joined<T>(head: Seq<T>, c: T, rest: Seq<T>)
    requires
        !head.contains(c),
    ensures
        first_index(head + seq![c] + rest, c) == head.len(),
        (head + seq![c] + rest).take(head.len() as int) == head,
        (head + seq![c] + rest).skip(head.len() as int + 1) == rest,
{
    let s = head + seq![c] + rest;
    assert forall|j: int| 0 <= j < head.len() implies s[j] != c by {
        assert(s[j] == head[j]);
    }
    assert(s[head.len() as int] == c);
    first_index_is(s, c, head.len() as int);
    assert(s.take(head.len() as int) =~= head);
    assert(s.skip(head.len() as int + 1) =~= rest);
}

/// The last `c` of `rest + [c] + tail` stands before a `tail` that holds none.
pub proof fn last_index_of_joined<T>(rest: Seq<T>, c: T, tail: Seq<T>)
    requires
        !tail.contains(c),
    ensures
        last_index(rest + seq![c] + tail, c) == rest.len(),
        (rest + seq![c] + tail).take(rest.len() as int) == rest,
        (rest + seq![c] + tail).skip(rest.len() as int + 1) == tail,
{
    let s = rest + seq![c] + tail;
    assert forall|j: int| rest.len() < j < s.len() implies s[j] != c by {
        assert(s[j] == tail[j - rest.len() - 1]);
    }
    assert(s[rest.len() as int] == c);
    last_index_is(s, c, rest.len() as int);
    assert(s.take(rest.len() as int) =~= rest);
    assert(s.skip(rest.len() as int + 1) =~= tail);
}

/// `s` cut at its first `c`, which belongs to neither part.
pub open spec fn cut_first<T>(s: Seq<T>, c: T) -> Option<(Seq<T>, Seq<T>)> {
    let i = first_index(s, c);
    if i < s.len() {
        Some((s.take(i), s.skip(i + 1)))
    } else {
        None
    }
}

/// `s` cut at its last `c`, which belongs to neither part.
pub open spec fn cut_last<T>(s: Seq<T>, c: T) -> Option<(Seq<T>, Seq<T>)> {
    let i = last_index(s, c);
    if i >= 0 {
        Some((s.take(i), s.skip(i + 1)))
    } else {
        None
    }
}

/// `s` without the prefix `p`.
pub open spec fn cut_prefix<T>(s: Seq<T>, p: Seq<T>) -> Option<Seq<T>> {
    if p.is_prefix_of(s) {
        Some(s.skip(p.len() as int))
    } else {
        None
    }
}

/// `s` without the suffix `p`.
pub open spec fn cut_suffix<T>(s: Seq<T>, p: Seq<T>) -> Option<Seq<T>> {
    if p.is_suffix_of(s) {
        Some(s.take(s.len() - p.len()))
    } else {
        None
    }
}

/// What stands behind a prefix is what `cut_prefix` gives back.
pub proof fn cut_prefix_of_joined<T>(p: Seq<T>, rest: Seq<T>)
    ensures
        cut_prefix(p + rest, p) == Some(rest),
{
    assert((p + rest).take(p.len() as int) =~= p);
    assert((p + rest).skip(p.len() as int) =~= rest);
    assert(p.is_prefix_of(p + rest));
}

/// The characters of `s`.
pub fn chars_of(s: &str) -> (r: Vec<char>)
    ensures
        r@ == s@,
{
    let mut v: Vec<char> = Vec::new();
    for c in it: s.chars()
        invariant
            v@ == it.seq().take(it.index() as int),
            it.seq() == s@,
    {
        v.push(c);
        assert(it.seq().take(it.index() + 1) =~= it.seq().take(it.index() as int).push(c));
    }
    assert(s@.take(s@.len() as int) =~= s@);
    v
}

/// `String::push`: the character is appended to the text.
pub assume_specification[ String::push ](s: &mut String, c: char)
    ensures
        final(s)@ == old(s)@.push(c),
;

/// The text made of `chars`.
pub fn text_of(chars: &[char]) -> (r: String)
    ensures
        r@ == chars@,
{
    let mut s = String::new();
    let mut i: usize = 0;
    while i < chars.len()
        invariant
            i <= chars@.len(),
            s@ == chars@.take(i as int),
        decreases chars.len() - i,
    {
        s.push(chars[i]);
        i = i + 1;
        assert(chars@.take(i as int) =~= chars@.take(i - 1).push(chars@[i - 1]));
    }
    assert(chars@.take(i as int) =~= chars@);
    s
}

/// Whether two byte strings hold the same bytes.
pub fn bytes_eq(a: &[u8], b: &[u8]) -> (r: bool)
    ensures
        r == (a@ == b@),
{
    if a.len() != b.len() {
        return false;
    }
    let mut i: usize = 0;
    while i < a.len()
        invariant
            i <= a@.len(),
            a@.len() == b@.len(),
            forall|j: int| 0 <= j < i ==> a@[j] == b@[j],
        decreases a.len() - i,
    {
        if a[i] != b[i] {
            return false;
        }
        i = i + 1;
    }
    assert(a@ =~= b@);
    true
}

/// Two texts are the same when their encodings are.
pub proof fn same_bytes_same_text(a: &str, b: &str)
    ensures
        (a.spec_bytes() == b.spec_bytes()) == (a@ == b@),
{
    broadcast use vstd::utf8::encode_utf8_decode_utf8;
    assert(vstd::utf8::decode_utf8(vstd::utf8::encode_utf8(a@)) == a@);
    assert(vstd::utf8::decode_utf8(vstd::utf8::encode_utf8(b@)) == b@);
}

/// Whether two texts are the same.
pub fn text_eq(a: &str, b: &str) -> (r: bool)
    ensures
        r == (a@ == b@),
{
    proof {
        same_bytes_same_text(a, b);
    }
    bytes_eq(a.as_bytes(), b.as_bytes())
}

/// The optional text `v`, seen as characters.
pub open spec fn opt_text(v: Option<String>) -> Option<Seq<char>> {
    match v {
        Some(s) => Some(s@),
        None => None,
    }
}

/// The optional text `v`, seen as characters.
pub open spec fn opt_str(v: Option<&str>) -> Option<Seq<char>> {
    match v {
        Some(s) => Some(s@),
        None => None,
    }
}

/// The texts of `v`, seen as characters.
pub open spec fn texts(v: Seq<String>) -> Seq<Seq<char>> {
    v.map_values(|s: String| s@)
}

/// Borrow an optional text.
pub fn opt_as_str(v: &Option<String>) -> (r: Option<&str>)
    ensures
        opt_str(r) == opt_text(*v),
{
    match v {
        Some(s) => Some(s.as_str()),
        None => None,
    }
}

/// Copy an optional text.
pub fn opt_to_owned(v: Option<&str>) -> (r: Option<String>)
    ensures
        opt_text(r) == opt_str(v),
{
    match v {
        Some(s) => Some(s.to_owned()),
        None => None,
    }
}

/// Copy an optional text.
pub fn opt_clone(v: &Option<String>) -> (r: Option<String>)
    ensures
        r == *v,
{
    match v {
        Some(s) => Some(s.clone()),
        None => None,
    }
}

/// Whether two optional texts are the same.
pub fn opt_eq(a: Option<&str>, b: Option<&str>) -> (r: bool)
    ensures
        r == (opt_str(a) == opt_str(b)),
{
    match (a, b) {
        (Some(a), Some(b)) => text_eq(a, b),
        (None, None) => true,
        _ => false,
    }
}

/// Copy a list of texts.
pub fn texts_clone(v: &Vec<String>) -> (r: Vec<String>)
    ensures
        r@ == v@,
{
    let mut out: Vec<String> = Vec::new();
    let mut i: usize = 0;
    while i < v.len()
        invariant
            i <= v@.len(),
            out@ == v@.take(i as int),
        decreases v.len() - i,
    {
        out.push(v[i].clone());
        i = i + 1;
        assert(v@.take(i as int) =~= v@.take(i - 1).push(v@[i - 1]));
    }
    assert(v@.take(i as int) =~= v@);
    out
}

/// Copy a byte string.
pub fn bytes_clone(v: &[u8]) -> (r: Vec<u8>)
    ensures
        r@ == v@,
{
    let mut out: Vec<u8> = Vec::new();
    push_bytes(&mut out, v);
    assert(out@ =~= v@);
    out
}

/// Append `more` to `out`.
pub fn push_bytes(out: &mut Vec<u8>, more: &[u8])
    ensures
        final(out)@ == old(out)@ + more@,
{
    let ghost before = out@;
    let mut i: usize = 0;
    while i < more.len()
        invariant
            i <= more@.len(),
            out@ == before + more@.take(i as int),
        decreases more.len() - i,
    {
        out.push(more[i]);
        i = i + 1;
        assert(more@.take(i as int) =~= more@.take(i - 1).push(more@[i - 1]));
        assert(out@ =~= before + more@.take(i as int));
    }
    assert(more@.take(i as int) =~= more@);
}

/// The position of the first `c`, counted in characters.
pub fn find_char(s: &[char], c: char) -> (r: usize)
    ensures
        r as int == first_index(s@, c),
        r <= s@.len(),
{
    let mut i: usize = 0;
    while i < s.len() && s[i] != c
        invariant
            i <= s@.len(),
            forall|j: int| 0 <= j < i ==> s@[j] != c,
        decreases s.len() - i,
    {
        i = i + 1;
    }
    proof {
        first_index_is(s@, c, i as int);
    }
    i
}

/// The position of the first `c` among bytes.
pub fn find_byte(s: &[u8], c: u8) -> (r: usize)
    ensures
        r as int == first_index(s@, c),
        r <= s@.len(),
{
    let mut i: usize = 0;
    while i < s.len() && s[i] != c
        invariant
            i <= s@.len(),
            forall|j: int| 0 <= j < i ==> s@[j] != c,
        decreases s.len() - i,
    {
        i = i + 1;
    }
    proof {
        first_index_is(s@, c, i as int);
    }
    i
}

/// Cut `s` at its first `c`.
pub fn split_once<'a>(s: &'a str, c: char) -> (r: Option<(&'a str, &'a str)>)
    ensures
        match r {
            Some((a, b)) => cut_first(s@, c) == Some((a@, b@)),
            None => cut_first(s@, c) is None,
        },
{
    let v = chars_of(s);
    let i: usize = find_char(&v, c);
    if i < v.len() {
        let n: usize = v.len();
        let a = s.substring_char(0, i);
        let b = s.substring_char(i + 1, n);
        assert(a@ =~= s@.take(i as int));
        assert(b@ =~= s@.skip(i + 1));
        Some((a, b))
    } else {
        None
    }
}

/// Cut `s` at its last `c`.
pub fn rsplit_once<'a>(s: &'a str, c: char) -> (r: Option<(&'a str, &'a str)>)
    ensures
        match r {
            Some((a, b)) => cut_last(s@, c) == Some((a@, b@)),
            None => cut_last(s@, c) is None,
        },
{
    let v = chars_of(s);
    let n: usize = v.len();
    let mut i: usize = n;
    while i > 0 && v[i - 1] != c
        invariant
            i <= v@.len(),
            n == v@.len(),
            forall|j: int| i <= j < v@.len() ==> v@[j] != c,
        decreases i,
    {
        i = i - 1;
    }
    proof {
        last_index_is(v@, c, i - 1);
    }
    if i > 0 {
        let a = s.substring_char(0, i - 1);
        let b = s.substring_char(i, n);
        assert(a@ =~= s@.take(i - 1));
        assert(b@ =~= s@.skip(i as int));
        Some((a, b))
    } else {
        None
    }
}

/// Whether `s` starts with `p`.
pub fn starts_with(s: &str, p: &str) -> (r: bool)
    ensures
        r == p@.is_prefix_of(s@),
{
    let n: usize = p.unicode_len();
    if s.unicode_len() < n {
        return false;
    }
    let head = s.substring_char(0, n);
    text_eq(head, p)
}

/// Whether `s` ends with `p`.
pub fn ends_with(s: &str, p: &str) -> (r: bool)
    ensures
        r == p@.is_suffix_of(s@),
{
    let n: usize = p.unicode_len();
    let m: usize = s.unicode_len();
    if m < n {
        return false;
    }
    let tail = s.substring_char(m - n, m);
    text_eq(tail, p)
}

/// `s` without the prefix `p`.
pub fn strip_prefix<'a>(s: &'a str, p: &str) -> (r: Option<&'a str>)
    ensures
        opt_str(r) == cut_prefix(s@, p@),
{
    if starts_with(s, p) {
        let rest = s.substring_char(p.unicode_len(), s.unicode_len());
        assert(rest@ =~= s@.skip(p@.len() as int));
        Some(rest)
    } else {
        None
    }
}

/// `s` without the suffix `p`.
pub fn strip_suffix<'a>(s: &'a str, p: &str) -> (r: Option<&'a str>)
    ensures
        opt_str(r) == cut_suffix(s@, p@),
{
    if ends_with(s, p) {
        let n: usize = s.unicode_len() - p.unicode_len();
        let rest = s.substring_char(0, n);
        assert(rest@ =~= s@.take(s@.len() - p@.len()));
        Some(rest)
    } else {
        None
    }
}

/// Whether `s` holds the character `c`.
pub fn contains_char(s: &str, c: char) -> (r: bool)
    ensures
        r == s@.contains(c),
{
    let v = chars_of(s);
    let i: usize = find_char(&v, c);
    proof {
        first_index_bounds(s@, c);
        if i < v@.len() {
            assert(s@[i as int] == c);
        }
    }
    i < v.len()
}

/// `s` cut at every `c`.
pub open spec fn pieces<T>(s: Seq<T>, c: T) -> Seq<Seq<T>>
    decreases s.len(),
{
    let i = first_index(s, c);
    if 0 <= i < s.len() {
        seq![s.take(i)] + pieces(s.skip(i + 1), c)
    } else {
        seq![s]
    }
}

/// Cut `s` at every `c`.
pub fn split(s: &str, c: char) -> (r: Vec<String>)
    ensures
        texts(r@) == pieces(s@, c),
{
    let v = chars_of(s);
    let n: usize = v.len();
    let mut out: Vec<String> = Vec::new();
    let mut start: usize = 0;
    let ghost rest = s@;
    assert(s@.skip(0) =~= s@);
    assert(texts(out@) + pieces(s@, c) =~= pieces(s@, c));
    loop
        invariant
            start <= n,
            n == v@.len(),
            v@ == s@,
            texts(out@) + pieces(s@.skip(start as int), c) == pieces(s@, c),
        decreases n - start,
    {
        let mut i: usize = start;
        while i < n && v[i] != c
            invariant
                start <= i <= n,
                n == v@.len(),
                v@ == s@,
                forall|j: int| start <= j < i ==> v@[j] != c,
            decreases n - i,
        {
            i = i + 1;
        }
        let piece = s.substring_char(start, i).to_owned();
        let ghost tail = s@.skip(start as int);
        let ghost so_far = texts(out@);
        proof {
            assert forall|j: int| 0 <= j < i - start implies tail[j] != c by {
                assert(tail[j] == v@[j + start]);
            }
            if i < n {
                assert(tail[i - start] == v@[i as int]);
            }
            first_index_is(tail, c, i - start);
            assert(tail.take(i - start) =~= piece@);
        }
        out.push(piece);
        assert(texts(out@) =~= so_far.push(piece@));
        if i == n {
            proof {
                assert(tail =~= piece@);
                assert(pieces(tail, c) =~= seq![piece@]);
                assert(so_far.push(piece@) =~= so_far + seq![piece@]);
            }
            return out;
        }
        proof {
            assert(tail.skip(i - start + 1) =~= s@.skip(i + 1));
            assert(so_far + (seq![piece@] + pieces(s@.skip(i + 1), c)) =~= so_far.push(piece@) + pieces(
                s@.skip(i + 1),
                c,
            ));
        }
        start = i + 1;
    }
}

/// `items` with `sep` between any two.
pub open spec fn joined(items: Seq<Seq<char>>, sep: Seq<char>) -> Seq<char>
    decreases items.len(),
{
    if items.len() == 0 {
        Seq::empty()
    } else if items.len() == 1 {
        items[0]
    } else {
        joined(items.drop_last(), sep) + sep + items.last()
    }
}

/// Join `items` with `sep` between any two.
pub fn join(items: &Vec<String>, sep: &str) -> (r: String)
    ensures
        r@ == joined(texts(items@), sep@),
{
    let ghost all = texts(items@);
    let mut out = String::new();
    let mut i: usize = 0;
    while i < items.len()
        invariant
            i <= items@.len(),
            all == texts(items@),
            out@ == joined(all.take(i as int), sep@),
        decreases items.len() - i,
    {
        assert(all.take(i + 1).drop_last() =~= all.take(i as int));
        if i > 0 {
            out.append(sep);
            out.append(items[i].as_str());
        } else {
            out = items[i].clone();
        }
        i = i + 1;
    }
    assert(all.take(i as int) =~= all);
    out
}

/// Whether one of `items` is the text `s`.
pub fn contains_text(items: &Vec<String>, s: &str) -> (r: bool)
    ensures
        r == texts(items@).contains(s@),
{
    let mut i: usize = 0;
    while i < items.len()
        invariant
            i <= items@.len(),
            forall|j: int| 0 <= j < i ==> texts(items@)[j] != s@,
        decreases items.len() - i,
    {
        if text_eq(items[i].as_str(), s) {
            assert(texts(items@)[i as int] == s@);
            return true;
        }
        i = i + 1;
    }
    false
}

/// Whether `c` is a blank: it has the Unicode property `White_Space`.
pub open spec fn white_space(c: char) -> bool {
    let n = c as u32;
    ||| 0x09 <= n <= 0x0D
    ||| n == 0x20
    ||| n == 0x85
    ||| n == 0xA0
    ||| n == 0x1680
    ||| 0x2000 <= n <= 0x200A
    ||| n == 0x2028
    ||| n == 0x2029
    ||| n == 0x202F
    ||| n == 0x205F
    ||| n == 0x3000
}

/// Whether `c` is a blank.
fn is_whitespace(c: char) -> (r: bool)
    ensures
        r == white_space(c),
{
    let n: u32 = c as u32;
    (0x09 <= n && n <= 0x0D) || n == 0x20 || n == 0x85 || n == 0xA0 || n == 0x1680 || (0x2000 <= n && n <= 0x200A) || n
        == 0x2028 || n == 0x2029 || n == 0x202F || n == 0x205F || n == 0x3000
}

/// `s` without the whitespace it starts with.
pub open spec fn trimmed_start(s: Seq<char>) -> Seq<char>
    decreases s.len(),
{
    if s.len() > 0 && white_space(s[0]) {
        trimmed_start(s.skip(1))
    } else {
        s
    }
}

/// `s` without the whitespace it ends with.
pub open spec fn trimmed_end(s: Seq<char>) -> Seq<char>
    decreases s.len(),
{
    if s.len() > 0 && white_space(s.last()) {
        trimmed_end(s.drop_last())
    } else {
        s
    }
}

/// `s` without the whitespace around it.
pub open spec fn trimmed(s: Seq<char>) -> Seq<char> {
    trimmed_end(trimmed_start(s))
}

/// Cut off the whitespace around `s`.
pub fn trim<'a>(s: &'a str) -> (r: &'a str)
    ensures
        r@ == trimmed(s@),
{
    let v = chars_of(s);
    let n: usize = v.len();
    let mut start: usize = 0;
    assert(s@.skip(0) =~= s@);
    while start < n && is_whitespace(v[start])
        invariant
            start <= n,
            n == v@.len(),
            v@ == s@,
            trimmed_start(s@) == trimmed_start(s@.skip(start as int)),
        decreases n - start,
    {
        assert(s@.skip(start as int).skip(1) =~= s@.skip(start + 1));
        start = start + 1;
    }
    let ghost rest = s@.skip(start as int);
    assert(trimmed_start(s@) == rest);
    let mut end: usize = n;
    assert(rest.take(n - start) =~= rest);
    while end > start && is_whitespace(v[end - 1])
        invariant
            start <= end <= n,
            n == v@.len(),
            v@ == s@,
            rest == s@.skip(start as int),
            trimmed_end(rest) == trimmed_end(rest.take(end - start)),
        decreases end,
    {
        assert(rest.take(end - start).drop_last() =~= rest.take(end - start - 1));
        end = end - 1;
    }
    let r = s.substring_char(start, end);
    assert(r@ =~= rest.take(end - start));
    assert(trimmed_end(rest) == rest.take(end - start));
    r
}

// ---------------------------------------------------------------------------------------------
// Case
// ---------------------------------------------------------------------------------------------

/// An ASCII capital letter as its small letter, any other character as itself.
pub open spec fn ascii_lower(c: char) -> char {
    if 'A' <= c && c <= 'Z' {
        ((c as u32 + 32) as u8) as char
    } else {
        c
    }
}

/// `s` with its ASCII capital letters made small.
pub open spec fn ascii_lower_text(s: Seq<char>) -> Seq<char> {
    s.map_values(|c: char| ascii_lower(c))
}

/// One character in lower case.
pub fn to_ascii_lower(c: char) -> (r: char)
    ensures
        r == ascii_lower(c),
{
    if 'A' <= c && c <= 'Z' {
        (((c as u32) + 32) as u8) as char
    } else {
        c
    }
}

/// A text in ASCII lower case.
pub fn to_ascii_lowercase(s: &str) -> (r: String)
    ensures
        r@ == ascii_lower_text(s@),
{
    let v = chars_of(s);
    let mut out = String::new();
    let mut i: usize = 0;
    while i < v.len()
        invariant
            i <= v@.len(),
            v@ == s@,
            out@ =~= ascii_lower_text(s@).take(i as int),
        decreases v.len() - i,
    {
        out.push(to_ascii_lower(v[i]));
        i = i + 1;
    }
    assert(ascii_lower_text(s@).take(i as int) =~= ascii_lower_text(s@));
    out
}

/// Whether two texts differ at most in the case of ASCII letters.
pub fn eq_ignore_ascii_case(a: &str, b: &str) -> (r: bool)
    ensures
        r == (ascii_lower_text(a@) == ascii_lower_text(b@)),
{
    let x = to_ascii_lowercase(a);
    let y = to_ascii_lowercase(b);
    x == y
}

// ---------------------------------------------------------------------------------------------
// Decimal numbers
// ---------------------------------------------------------------------------------------------

/// The decimal digit of value `d`.
pub open spec fn digit(d: int) -> char {
    (('0' as u32 + d) as u8) as char
}

/// Whether `c` is a decimal digit.
pub open spec fn is_digit(c: char) -> bool {
    '0' <= c && c <= '9'
}

/// The value of the decimal digit `c`.
pub open spec fn digit_value(c: char) -> int {
    c as u32 - '0' as u32
}

/// The decimal spelling of `n`, without leading zeroes.
pub open spec fn decimal(n: nat) -> Seq<char>
    decreases n,
{
    if n < 10 {
        seq![digit(n as int)]
    } else {
        decimal(n / 10).push(digit((n % 10) as int))
    }
}

/// The value that the digits of `s` spell.
pub open spec fn decimal_value(s: Seq<char>) -> int
    decreases s.len(),
{
    if s.len() == 0 {
        0
    } else {
        decimal_value(s.drop_last()) * 10 + digit_value(s.last())
    }
}

/// Whether `s` is one decimal digit or more, and nothing else.
pub open spec fn is_decimal(s: Seq<char>) -> bool {
    s.len() > 0 && forall|i: int| 0 <= i < s.len() ==> is_digit(#[trigger] s[i])
}

/// The unsigned number that `s` spells, with an optional plus sign in front, when it fits 64 bits.
pub open spec fn u64_of(s: Seq<char>) -> Option<u64> {
    let digits = if s.len() > 0 && s[0] == '+' {
        s.skip(1)
    } else {
        s
    };
    if is_decimal(digits) && decimal_value(digits) <= u64::MAX {
        Some(decimal_value(digits) as u64)
    } else {
        None
    }
}

pub proof fn decimal_value_nonneg(s: Seq<char>)
    requires
        forall|i: int| 0 <= i < s.len() ==> is_digit(#[trigger] s[i]),
    ensures
        decimal_value(s) >= 0,
    decreases s.len(),
{
    if s.len() > 0 {
        decimal_value_nonneg(s.drop_last());
    }
}

/// More digits never spell a smaller number.
proof fn decimal_value_grows(s: Seq<char>, i: int)
    requires
        0 <= i <= s.len(),
        forall|k: int| 0 <= k < s.len() ==> is_digit(#[trigger] s[k]),
    ensures
        decimal_value(s.take(i)) <= decimal_value(s),
    decreases s.len(),
{
    if i < s.len() {
        decimal_value_grows(s.drop_last(), i);
        assert(s.drop_last().take(i) =~= s.take(i));
        decimal_value_nonneg(s.drop_last());
    } else {
        assert(s.take(i) =~= s);
    }
}

/// The spelling of a number is made of digits and spells that number.
pub proof fn decimal_spells(n: nat)
    ensures
        is_decimal(decimal(n)),
        decimal_value(decimal(n)) == n,
    decreases n,
{
    if n < 10 {
        let s = decimal(n);
        assert(s.drop_last() =~= Seq::<char>::empty());
        assert(decimal_value(s.drop_last()) == 0);
    } else {
        decimal_spells(n / 10);
        let s = decimal(n);
        assert(s.drop_last() =~= decimal(n / 10));
    }
}

/// Reading back the spelling of a number gives the number.
pub proof fn decimal_reads_back(n: u64)
    ensures
        u64_of(decimal(n as nat)) == Some(n),
{
    decimal_spells(n as nat);
    let s = decimal(n as nat);
    assert(is_digit(s[0]));
}

/// Spell a number in decimal.
pub fn decimal_text(n: u64) -> (r: String)
    ensures
        r@ == decimal(n as nat),
{
    let v = decimal_chars(n);
    text_of(&v)
}

fn decimal_chars(n: u64) -> (r: Vec<char>)
    ensures
        r@ == decimal(n as nat),
    decreases n,
{
    let d: u8 = (n % 10) as u8;
    let c: char = (48u8 + d) as char;
    if n < 10 {
        let mut v: Vec<char> = Vec::new();
        v.push(c);
        assert(v@ =~= decimal(n as nat));
        v
    } else {
        let mut v = decimal_chars(n / 10);
        v.push(c);
        v
    }
}

/// The decimal spelling of `n`, with a minus sign in front of a negative number.
pub open spec fn signed_decimal(n: int) -> Seq<char> {
    if n < 0 {
        "-"@ + decimal((-n) as nat)
    } else {
        decimal(n as nat)
    }
}

/// Spell a signed number in decimal.
pub fn signed_decimal_text(n: i64) -> (r: String)
    ensures
        r@ == signed_decimal(n as int),
{
    if n < 0 {
        let magnitude: u64 = (-(n + 1)) as u64 + 1;
        let mut out = "-".to_owned();
        let digits = decimal_text(magnitude);
        out.append(digits.as_str());
        out
    } else {
        decimal_text(n as u64)
    }
}

/// `a - b`, held to the range of 64 signed bits.
pub open spec fn clamped_difference(a: i64, b: i64) -> i64 {
    let d = a - b;
    if d > i64::MAX {
        i64::MAX
    } else if d < i64::MIN {
        i64::MIN
    } else {
        d as i64
    }
}

/// Subtract, held to the range of 64 signed bits.
pub fn saturating_difference(a: i64, b: i64) -> (r: i64)
    ensures
        r == clamped_difference(a, b),
{
    match a.checked_sub(b) {
        Some(d) => d,
        None => {
            if a < 0 {
                i64::MIN
            } else {
                i64::MAX
            }
        },
    }
}

/// Read an unsigned number.
pub fn parse_u64(s: &str) -> (r: Option<u64>)
    ensures
        r == u64_of(s@),
{
    let v = chars_of(s);
    let start: usize = if v.len() > 0 && v[0] == '+' { 1 } else { 0 };
    let ghost digits = v@.skip(start as int);
    assert(v@.skip(0) =~= v@);
    if start == v.len() {
        return None;
    }
    let mut i: usize = start;
    let mut n: u64 = 0;
    while i < v.len()
        invariant
            start <= i <= v@.len(),
            start <= 1,
            start < v@.len(),
            v@ == s@,
            digits == v@.skip(start as int),
            digits == (if s@.len() > 0 && s@[0] == '+' { s@.skip(1) } else { s@ }),
            n == decimal_value(digits.take(i - start)),
            forall|k: int| 0 <= k < i - start ==> is_digit(#[trigger] digits[k]),
        decreases v.len() - i,
    {
        let c: char = v[i];
        assert(c == digits[i - start]);
        if !('0' <= c && c <= '9') {
            return None;
        }
        let d: u64 = (c as u32 - '0' as u32) as u64;
        assert(digits.take(i - start + 1).drop_last() =~= digits.take(i - start));
        assert(digits.take(i - start + 1).last() == c);
        if n > (u64::MAX - d) / 10 {
            proof {
                assert(decimal_value(digits.take(i - start + 1)) > u64::MAX);
                if is_decimal(digits) {
                    decimal_value_grows(digits, i - start + 1);
                }
            }
            return None;
        }
        n = n * 10 + d;
        i = i + 1;
    }
    assert(digits.take(i - start) =~= digits);
    Some(n)
}

// ---------------------------------------------------------------------------------------------
// Order
// ---------------------------------------------------------------------------------------------

/// Whether `a` stands before `b` in the order of their characters. It is also the order of their
/// encodings, byte by byte.
pub open spec fn before(a: Seq<char>, b: Seq<char>) -> bool
    decreases a.len(),
{
    if b.len() == 0 {
        false
    } else if a.len() == 0 {
        true
    } else if a[0] != b[0] {
        a[0] < b[0]
    } else {
        before(a.skip(1), b.skip(1))
    }
}

pub proof fn before_irreflexive(a: Seq<char>)
    ensures
        !before(a, a),
    decreases a.len(),
{
    if a.len() > 0 {
        before_irreflexive(a.skip(1));
    }
}

pub proof fn before_transitive(a: Seq<char>, b: Seq<char>, c: Seq<char>)
    requires
        before(a, b),
        before(b, c),
    ensures
        before(a, c),
    decreases a.len(),
{
    if a.len() > 0 && b.len() > 0 && c.len() > 0 {
        if a[0] == b[0] && b[0] == c[0] {
            before_transitive(a.skip(1), b.skip(1), c.skip(1));
        }
    }
}

pub proof fn before_total(a: Seq<char>, b: Seq<char>)
    ensures
        before(a, b) || before(b, a) || a == b,
    decreases a.len(),
{
    if a.len() == 0 || b.len() == 0 {
        if a.len() == 0 && b.len() == 0 {
            assert(a =~= b);
        }
    } else if a[0] == b[0] {
        before_total(a.skip(1), b.skip(1));
        if a.skip(1) == b.skip(1) {
            assert(a =~= seq![a[0]] + a.skip(1));
            assert(b =~= seq![b[0]] + b.skip(1));
        }
    }
}

/// Whether `a` stands before `b`.
pub fn text_before(a: &str, b: &str) -> (r: bool)
    ensures
        r == before(a@, b@),
{
    let x = chars_of(a);
    let y = chars_of(b);
    chars_before(&x, &y)
}

/// Whether `x` stands before `y`.
pub fn chars_before(x: &[char], y: &[char]) -> (r: bool)
    ensures
        r == before(x@, y@),
{
    let mut i: usize = 0;
    assert(x@.skip(0) =~= x@);
    assert(y@.skip(0) =~= y@);
    while i < x.len() && i < y.len() && x[i] == y[i]
        invariant
            i <= x@.len(),
            i <= y@.len(),
            before(x@, y@) == before(x@.skip(i as int), y@.skip(i as int)),
        decreases x.len() - i,
    {
        assert(x@.skip(i as int).skip(1) =~= x@.skip(i + 1));
        assert(y@.skip(i as int).skip(1) =~= y@.skip(i + 1));
        i = i + 1;
    }
    if i == y.len() {
        false
    } else if i == x.len() {
        true
    } else {
        x[i] < y[i]
    }
}

/// Whether `a` stands before `b`, byte by byte.
pub open spec fn bytes_before(a: Seq<u8>, b: Seq<u8>) -> bool
    decreases a.len(),
{
    if b.len() == 0 {
        false
    } else if a.len() == 0 {
        true
    } else if a[0] != b[0] {
        a[0] < b[0]
    } else {
        bytes_before(a.skip(1), b.skip(1))
    }
}

pub proof fn bytes_before_irreflexive(a: Seq<u8>)
    ensures
        !bytes_before(a, a),
    decreases a.len(),
{
    if a.len() > 0 {
        bytes_before_irreflexive(a.skip(1));
    }
}

pub proof fn bytes_before_transitive(a: Seq<u8>, b: Seq<u8>, c: Seq<u8>)
    requires
        bytes_before(a, b),
        bytes_before(b, c),
    ensures
        bytes_before(a, c),
    decreases a.len(),
{
    if a.len() > 0 && b.len() > 0 && c.len() > 0 {
        if a[0] == b[0] && b[0] == c[0] {
            bytes_before_transitive(a.skip(1), b.skip(1), c.skip(1));
        }
    }
}

pub proof fn bytes_before_total(a: Seq<u8>, b: Seq<u8>)
    ensures
        bytes_before(a, b) || bytes_before(b, a) || a == b,
    decreases a.len(),
{
    if a.len() == 0 || b.len() == 0 {
        if a.len() == 0 && b.len() == 0 {
            assert(a =~= b);
        }
    } else if a[0] == b[0] {
        bytes_before_total(a.skip(1), b.skip(1));
        if a.skip(1) == b.skip(1) {
            assert(a =~= seq![a[0]] + a.skip(1));
            assert(b =~= seq![b[0]] + b.skip(1));
        }
    }
}

/// Whether `x` stands before `y`, byte by byte.
pub fn is_bytes_before(x: &[u8], y: &[u8]) -> (r: bool)
    ensures
        r == bytes_before(x@, y@),
{
    let mut i: usize = 0;
    assert(x@.skip(0) =~= x@);
    assert(y@.skip(0) =~= y@);
    while i < x.len() && i < y.len() && x[i] == y[i]
        invariant
            i <= x@.len(),
            i <= y@.len(),
            bytes_before(x@, y@) == bytes_before(x@.skip(i as int), y@.skip(i as int)),
        decreases x.len() - i,
    {
        assert(x@.skip(i as int).skip(1) =~= x@.skip(i + 1));
        assert(y@.skip(i as int).skip(1) =~= y@.skip(i + 1));
        i = i + 1;
    }
    if i == y.len() {
        false
    } else if i == x.len() {
        true
    } else {
        x[i] < y[i]
    }
}

// ---------------------------------------------------------------------------------------------
// Encodings
// ---------------------------------------------------------------------------------------------

/// A line break is encoded as one byte, and no other character's encoding holds that byte.
pub proof fn encoded_line_break(c: char)
    ensures
        vstd::utf8::encode_scalar(c as u32).contains(0x0A) == (c == '\n'),
{
    let v = c as u32;
    let s = vstd::utf8::encode_scalar(v);
    vstd::utf8::char_is_scalar(c);
    if vstd::utf8::has_width_1_encoding(v) {
        assert(v <= 0x7F ==> (v & 0x7F) as u8 == v as u8) by (bit_vector);
        assert(s[0] == v as u8);
        if c == '\n' {
            assert(s[0] == 0x0A);
        }
        if s.contains(0x0A) {
            assert(s[0] == 0x0A);
            assert(v == 0x0A);
        }
    } else {
        assert(0x80u8 <= (0x80 | (v & 0x3F) as u8)) by (bit_vector);
        assert(0x80u8 <= (0x80 | ((v >> 6) & 0x3F) as u8)) by (bit_vector);
        assert(0x80u8 <= (0x80 | ((v >> 12) & 0x3F) as u8)) by (bit_vector);
        assert(0x80u8 <= (0xC0 | ((v >> 6) & 0x1F) as u8)) by (bit_vector);
        assert(0x80u8 <= (0xE0 | ((v >> 12) & 0x0F) as u8)) by (bit_vector);
        assert(0x80u8 <= (0xF0 | ((v >> 18) & 0x7) as u8)) by (bit_vector);
        assert forall|i: int| 0 <= i < s.len() implies s[i] >= 0x80 by {}
        if s.contains(0x0A) {
            let i = choose|i: int| 0 <= i < s.len() && s[i] == 0x0A;
        }
    }
}

/// A text without a line break has an encoding without one.
pub proof fn encoding_of_one_line(s: Seq<char>)
    requires
        !s.contains('\n'),
    ensures
        !vstd::utf8::encode_utf8(s).contains(0x0A),
    decreases s.len(),
{
    if s.len() > 0 {
        let first = vstd::utf8::encode_scalar(s[0] as u32);
        let rest = vstd::utf8::encode_utf8(s.drop_first());
        assert(s.contains(s[0]));
        encoded_line_break(s[0]);
        assert(!s.drop_first().contains('\n')) by {
            if s.drop_first().contains('\n') {
                let i = choose|i: int| 0 <= i < s.drop_first().len() && s.drop_first()[i] == '\n';
                assert(s[i + 1] == '\n');
            }
        }
        encoding_of_one_line(s.drop_first());
        let all = vstd::utf8::encode_utf8(s);
        if all.contains(0x0A) {
            let i = choose|i: int| 0 <= i < all.len() && all[i] == 0x0A;
            if i < first.len() {
                assert(first[i] == 0x0A);
            } else {
                assert(rest[i - first.len()] == 0x0A);
            }
        }
    }
}

/// Joined texts hold a character when one of them does.
pub proof fn joined_contains(a: Seq<char>, b: Seq<char>, c: char)
    ensures
        (a + b).contains(c) == (a.contains(c) || b.contains(c)),
{
    let s = a + b;
    if a.contains(c) {
        let i = choose|i: int| 0 <= i < a.len() && a[i] == c;
        assert(s[i] == c);
    }
    if b.contains(c) {
        let i = choose|i: int| 0 <= i < b.len() && b[i] == c;
        assert(s[a.len() + i] == c);
    }
    if s.contains(c) {
        let i = choose|i: int| 0 <= i < s.len() && s[i] == c;
        if i < a.len() {
            assert(a[i] == c);
        } else {
            assert(b[i - a.len()] == c);
        }
    }
}

// ---------------------------------------------------------------------------------------------
// Sorting
// ---------------------------------------------------------------------------------------------

/// Whether no text stands before one that precedes it.
pub open spec fn in_order(items: Seq<Seq<char>>) -> bool {
    forall|i: int, j: int| 0 <= i < j < items.len() ==> !before(#[trigger] items[j], #[trigger] items[i])
}

/// Sort texts.
pub fn sort_texts(items: Vec<String>) -> (r: Vec<String>)
    ensures
        in_order(texts(r@)),
        texts(r@).to_multiset() == texts(items@).to_multiset(),
{
    let ghost all = items@;
    let mut out: Vec<String> = Vec::new();
    let n: usize = items.len();
    let mut i: usize = 0;
    assert(texts(all).take(0) =~= texts(out@));
    while i < n
        invariant
            i <= n,
            n == all.len(),
            all == items@,
            out@.len() == i,
            in_order(texts(out@)),
            texts(out@).to_multiset() == texts(all).take(i as int).to_multiset(),
        decreases n - i,
    {
        let item = items[i].clone();
        let ghost so_far = texts(out@);
        let ghost text = item@;
        let at: usize = place_of(&out, item.as_str());
        out.insert(at, item);
        proof {
            let now = texts(out@);
            assert(now =~= so_far.insert(at as int, text));
            inserting_keeps_order(so_far, at as int, text);
            now.to_multiset_ensures();
            assert(now[at as int] == text);
            assert(now.remove(at as int) =~= so_far);
            assert(now.contains(text));
            assert(now.to_multiset() =~= so_far.to_multiset().insert(text));
            let fewer = texts(all).take(i as int);
            assert(texts(all).take(i + 1) =~= fewer.push(text));
            fewer.to_multiset_ensures();
            assert(fewer.push(text).to_multiset() =~= fewer.to_multiset().insert(text));
        }
        i = i + 1;
    }
    assert(texts(all).take(n as int) =~= texts(all));
    out
}

/// The first position behind which `text` may stand.
fn place_of(items: &Vec<String>, text: &str) -> (r: usize)
    requires
        in_order(texts(items@)),
    ensures
        r <= items@.len(),
        forall|j: int| 0 <= j < r ==> !before(text@, #[trigger] texts(items@)[j]),
        r < items@.len() ==> before(text@, texts(items@)[r as int]),
{
    let mut at: usize = 0;
    while at < items.len() && !text_before(text, items[at].as_str())
        invariant
            at <= items@.len(),
            forall|j: int| 0 <= j < at ==> !before(text@, #[trigger] texts(items@)[j]),
        decreases items.len() - at,
    {
        assert(texts(items@)[at as int] == items@[at as int]@);
        at = at + 1;
    }
    at
}

proof fn inserting_keeps_order(items: Seq<Seq<char>>, at: int, text: Seq<char>)
    requires
        in_order(items),
        0 <= at <= items.len(),
        forall|j: int| 0 <= j < at ==> !before(text, #[trigger] items[j]),
        at < items.len() ==> before(text, items[at]),
    ensures
        in_order(items.insert(at, text)),
{
    let now = items.insert(at, text);
    assert forall|i: int, j: int| 0 <= i < j < now.len() implies !before(#[trigger] now[j], #[trigger] now[i]) by {
        let x = if i < at { i } else { i - 1 };
        let y = if j < at { j } else { j - 1 };
        if i == at {
            if before(items[y], text) {
                before_transitive(items[y], text, items[at]);
                if y > at {
                    assert(!before(items[y], items[at]));
                } else {
                    before_irreflexive(items[at]);
                }
            }
        } else if j == at {
        } else {
            assert(!before(items[y], items[x]));
        }
    }
}

// ---------------------------------------------------------------------------------------------
// Replacing
// ---------------------------------------------------------------------------------------------

/// `s` with every occurrence of `from`, read from the front, turned into `to`.
pub open spec fn replaced(s: Seq<char>, from: Seq<char>, to: Seq<char>) -> Seq<char>
    decreases s.len(),
{
    if from.len() == 0 || s.len() < from.len() {
        s
    } else if from.is_prefix_of(s) {
        to + replaced(s.skip(from.len() as int), from, to)
    } else {
        seq![s[0]] + replaced(s.drop_first(), from, to)
    }
}

/// Turn every occurrence of `from` into `to`.
pub fn replace(s: &str, from: &str, to: &str) -> (r: String)
    requires
        from@.len() > 0,
    ensures
        r@ == replaced(s@, from@, to@),
{
    let n: usize = s.unicode_len();
    let m: usize = from.unicode_len();
    let mut out = String::new();
    let mut i: usize = 0;
    assert(s@.skip(0) =~= s@);
    assert(out@ + replaced(s@, from@, to@) =~= replaced(s@, from@, to@));
    while i < n && m <= n - i
        invariant
            i <= n,
            n == s@.len(),
            m == from@.len(),
            m > 0,
            replaced(s@, from@, to@) == out@ + replaced(s@.skip(i as int), from@, to@),
        decreases n - i,
    {
        let ghost so_far = out@;
        let ghost rest = s@.skip(i as int);
        let piece = s.substring_char(i, i + m);
        assert(piece@ =~= rest.take(m as int));
        if text_eq(piece, from) {
            assert(from@.is_prefix_of(rest));
            out.append(to);
            i = i + m;
            assert(rest.skip(m as int) =~= s@.skip(i as int));
            assert(so_far + (to@ + replaced(s@.skip(i as int), from@, to@)) =~= out@ + replaced(
                s@.skip(i as int),
                from@,
                to@,
            ));
        } else {
            assert(!from@.is_prefix_of(rest)) by {
                if from@.is_prefix_of(rest) {
                    assert(rest.take(m as int) =~= from@);
                }
            }
            let c: char = s.get_char(i);
            out.push(c);
            i = i + 1;
            assert(rest.drop_first() =~= s@.skip(i as int));
            assert(so_far + (seq![c] + replaced(s@.skip(i as int), from@, to@)) =~= out@ + replaced(
                s@.skip(i as int),
                from@,
                to@,
            ));
        }
    }
    let ghost so_far = out@;
    let tail = s.substring_char(i, n);
    assert(tail@ =~= s@.skip(i as int));
    out.append(tail);
    out
}

/// `s` without the run of `c` at its front.
pub open spec fn without_leading(s: Seq<char>, c: char) -> Seq<char>
    decreases s.len(),
{
    if s.len() > 0 && s[0] == c {
        without_leading(s.drop_first(), c)
    } else {
        s
    }
}

/// `s` without the run of `c` at its end.
pub open spec fn without_trailing(s: Seq<char>, c: char) -> Seq<char>
    decreases s.len(),
{
    if s.len() > 0 && s.last() == c {
        without_trailing(s.drop_last(), c)
    } else {
        s
    }
}

/// Cut off the run of `c` at the front.
pub fn trim_leading<'a>(s: &'a str, c: char) -> (r: &'a str)
    ensures
        r@ == without_leading(s@, c),
{
    let n: usize = s.unicode_len();
    let mut i: usize = 0;
    assert(s@.skip(0) =~= s@);
    while i < n && s.get_char(i) == c
        invariant
            i <= n,
            n == s@.len(),
            without_leading(s@, c) == without_leading(s@.skip(i as int), c),
        decreases n - i,
    {
        assert(s@.skip(i as int).drop_first() =~= s@.skip(i + 1));
        i = i + 1;
    }
    assert(s@.subrange(i as int, n as int) =~= s@.skip(i as int));
    s.substring_char(i, n)
}

/// Cut off the run of `c` at the end.
pub fn trim_trailing<'a>(s: &'a str, c: char) -> (r: &'a str)
    ensures
        r@ == without_trailing(s@, c),
{
    let mut n: usize = s.unicode_len();
    assert(s@.take(n as int) =~= s@);
    while n > 0 && s.get_char(n - 1) == c
        invariant
            n <= s@.len(),
            without_trailing(s@, c) == without_trailing(s@.take(n as int), c),
        decreases n,
    {
        assert(s@.take(n as int).drop_last() =~= s@.take(n - 1));
        n = n - 1;
    }
    assert(s@.subrange(0, n as int) =~= s@.take(n as int));
    s.substring_char(0, n)
}

/// Whether `p` stands in `s` at `i`.
pub open spec fn stands_at(s: Seq<char>, p: Seq<char>, i: int) -> bool {
    0 <= i && i + p.len() <= s.len() && s.subrange(i, i + p.len()) == p
}

/// Whether `p` stands somewhere in `s`.
pub open spec fn holds(s: Seq<char>, p: Seq<char>) -> bool {
    exists|i: int| stands_at(s, p, i)
}

/// Whether `p` stands somewhere in `s`.
pub fn contains_str(s: &str, p: &str) -> (r: bool)
    ensures
        r == holds(s@, p@),
{
    let n: usize = s.unicode_len();
    let m: usize = p.unicode_len();
    let mut i: usize = 0;
    while i <= n && m <= n - i
        invariant
            i <= n + 1,
            n == s@.len(),
            m == p@.len(),
            forall|j: int| 0 <= j < i ==> !(#[trigger] stands_at(s@, p@, j)),
        decreases n + 1 - i,
    {
        let piece = s.substring_char(i, i + m);
        if text_eq(piece, p) {
            assert(stands_at(s@, p@, i as int));
            return true;
        }
        assert(!stands_at(s@, p@, i as int));
        if i == n {
            return false;
        }
        i = i + 1;
    }
    false
}

// ---------------------------------------------------------------------------------------------
// Paths
// ---------------------------------------------------------------------------------------------

/// A path without the slashes, and the parts that name the place they stand in, at its end.
pub open spec fn trimmed_path(path: Seq<char>) -> Seq<char>
    decreases path.len(),
{
    if path.len() > 0 && path.last() == '/' {
        trimmed_path(path.drop_last())
    } else if path.len() > 1 && path.last() == '.' && path[path.len() - 2] == '/' {
        trimmed_path(path.drop_last())
    } else {
        path
    }
}

/// The last part of a path, unless that names the place it stands in or the one above.
pub open spec fn file_name(path: Seq<char>) -> Option<Seq<char>> {
    let name = match cut_last(trimmed_path(path), '/') {
        Some((_, name)) => name,
        None => trimmed_path(path),
    };
    if name.len() == 0 || name == "."@ || name == ".."@ {
        None
    } else {
        Some(name)
    }
}

/// What stands behind the last dot of a path's last part. A dot at the part's beginning counts for nothing.
pub open spec fn path_extension(path: Seq<char>) -> Option<Seq<char>> {
    match file_name(path) {
        Some(name) => match cut_last(name, '.') {
            Some((stem, extension)) => if stem.len() > 0 {
                Some(extension)
            } else {
                None
            },
            None => None,
        },
        None => None,
    }
}

fn trim_path<'a>(path: &'a str) -> (r: &'a str)
    ensures
        r@ == trimmed_path(path@),
{
    let v = chars_of(path);
    let mut n: usize = v.len();
    assert(path@.take(n as int) =~= path@);
    while n > 0 && (v[n - 1] == '/' || (n > 1 && v[n - 1] == '.' && v[n - 2] == '/'))
        invariant
            n <= v@.len(),
            v@ == path@,
            trimmed_path(path@.take(n as int)) == trimmed_path(path@),
        decreases n,
    {
        let ghost all = path@.take(n as int);
        assert(all.last() == v@[n - 1]);
        assert(all.drop_last() =~= path@.take(n - 1));
        n = n - 1;
    }
    let ghost all = path@.take(n as int);
    assert(n > 0 ==> all.last() == v@[n - 1]);
    assert(n > 1 ==> all[n - 2] == v@[n - 2]);
    let r = path.substring_char(0, n);
    assert(r@ =~= all);
    r
}

/// What stands behind the last dot of a path's last part.
pub fn extension_of<'a>(path: &'a str) -> (r: Option<&'a str>)
    ensures
        opt_str(r) == path_extension(path@),
{
    let trimmed = trim_path(path);
    let name = match rsplit_once(trimmed, '/') {
        Some((_, name)) => name,
        None => trimmed,
    };
    if name.unicode_len() == 0 || text_eq(name, ".") || text_eq(name, "..") {
        return None;
    }
    match rsplit_once(name, '.') {
        Some((stem, extension)) => {
            if stem.unicode_len() > 0 {
                Some(extension)
            } else {
                None
            }
        },
        None => None,
    }
}

// ---------------------------------------------------------------------------------------------
// Texts inside texts
// ---------------------------------------------------------------------------------------------

/// Whether `part` stands somewhere in `whole`.
pub open spec fn holds_text(whole: Seq<char>, part: Seq<char>) -> bool {
    exists|i: int| 0 <= i && i + part.len() <= whole.len() && #[trigger] whole.subrange(i, i + part.len()) == part
}

/// A joined text holds what it was joined from.
pub proof fn joined_texts_hold(head: Seq<char>, part: Seq<char>, tail: Seq<char>)
    ensures
        holds_text(head + part + tail, part),
{
    let whole = head + part + tail;
    let at = head.len() as int;
    assert(whole.subrange(at, at + part.len()) =~= part);
}

} // verus!
