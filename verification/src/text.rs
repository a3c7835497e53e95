//! Character-level helpers: ASCII case folding, whitespace trimming and
//! splitting at a separator, each with its mathematical definition.

use vstd::prelude::*;

verus! {

/// The lower-case form of an ASCII capital letter; any other character is
/// left as it is.
pub open spec fn ascii_lower(c: char) -> char {
    if 'A' <= c && c <= 'Z' {
        ((c as u8) + 32) as char
    } else {
        c
    }
}

/// Two texts are equal when ASCII letters are compared without regard to case.
pub open spec fn eq_ignore_ascii_case(a: Seq<char>, b: Seq<char>) -> bool {
    &&& a.len() == b.len()
    &&& forall|i: int| 0 <= i < a.len() ==> ascii_lower(#[trigger] a[i]) == ascii_lower(b[i])
}

/// The upper-case form of an ASCII small letter; any other character is left
/// as it is.
pub open spec fn ascii_upper(c: char) -> char {
    if 'a' <= c && c <= 'z' {
        ((c as u8) - 32) as char
    } else {
        c
    }
}

/// Writing each letter of a text in either case gives a text that is equal
/// to it without regard to case.
pub proof fn lemma_recased_is_equal(text: Seq<char>, recased: Seq<char>)
    requires
        recased.len() == text.len(),
        forall|i: int|
            0 <= i < text.len() ==> {
                ||| #[trigger] recased[i] == text[i]
                ||| recased[i] == ascii_upper(text[i])
                ||| recased[i] == ascii_lower(text[i])
            },
    ensures
        eq_ignore_ascii_case(text, recased),
{
    assert forall|i: int| 0 <= i < text.len() implies ascii_lower(#[trigger] text[i])
        == ascii_lower(recased[i]) by {
        let c = text[i];
        assert(recased[i] == c || recased[i] == ascii_upper(c) || recased[i] == ascii_lower(c));
        lemma_case_folding(c);
    }
}

/// Folding to lower case undoes a change of case.
pub proof fn lemma_case_folding(c: char)
    ensures
        ascii_lower(ascii_upper(c)) == ascii_lower(c),
        ascii_lower(ascii_lower(c)) == ascii_lower(c),
{
}

/// Characters with the Unicode property `White_Space`.
pub open spec fn is_whitespace(c: char) -> bool {
    let n = c as u32;
    ||| 0x09 <= n <= 0x0D
    ||| n == 0x20
    ||| n == 0x85
    ||| n == 0xA0
    ||| n == 0x1680
    ||| 0x2000 <= n <= 0x200A
    ||| n == 0x2028
    ||| n == 0x2029
    ||| n == 0x202F
    ||| n == 0x205F
    ||| n == 0x3000
}

/// `s` without its leading whitespace.
pub open spec fn trim_start(s: Seq<char>) -> Seq<char>
    decreases s.len(),
{
    if s.len() > 0 && is_whitespace(s[0]) {
        trim_start(s.drop_first())
    } else {
        s
    }
}

/// `s` without its trailing whitespace.
pub open spec fn trim_end(s: Seq<char>) -> Seq<char>
    decreases s.len(),
{
    if s.len() > 0 && is_whitespace(s.last()) {
        trim_end(s.drop_last())
    } else {
        s
    }
}

/// `s` without leading and trailing whitespace.
pub open spec fn trim(s: Seq<char>) -> Seq<char> {
    trim_end(trim_start(s))
}

/// Position of the first `sep` in `s`, or `s.len()` when there is none.
pub open spec fn first_index(s: Seq<char>, sep: char) -> int
    decreases s.len(),
{
    if s.len() == 0 || s[0] == sep {
        0
    } else {
        1 + first_index(s.drop_first(), sep)
    }
}

/// The pieces of `s` between occurrences of `sep`. There is always at least
/// one piece; `n` separators give `n + 1` pieces, some of which may be empty.
pub open spec fn split(s: Seq<char>, sep: char) -> Seq<Seq<char>>
    decreases s.len(),
{
    let i = first_index(s, sep);
    if 0 <= i < s.len() {
        seq![s.take(i)] + split(s.skip(i + 1), sep)
    } else {
        seq![s]
    }
}

/// The pieces joined into one text, with `sep` between each two of them.
pub open spec fn join(pieces: Seq<Seq<char>>, sep: char) -> Seq<char>
    decreases pieces.len(),
{
    if pieces.len() == 0 {
        Seq::empty()
    } else if pieces.len() == 1 {
        pieces[0]
    } else {
        pieces[0] + seq![sep] + join(pieces.drop_first(), sep)
    }
}

/// No character of `s` is `sep`.
pub open spec fn free_of(s: Seq<char>, sep: char) -> bool {
    forall|i: int| 0 <= i < s.len() ==> s[i] != sep
}

/// `first_index` lies within `0..=s.len()`, no separator stands before it,
/// and one stands at it unless it is the length.
pub proof fn lemma_first_index(s: Seq<char>, sep: char)
    ensures
        0 <= first_index(s, sep) <= s.len(),
        forall|i: int| 0 <= i < first_index(s, sep) ==> s[i] != sep,
        first_index(s, sep) < s.len() ==> s[first_index(s, sep)] == sep,
    decreases s.len(),
{
    if s.len() == 0 || s[0] == sep {
    } else {
        let t = s.drop_first();
        lemma_first_index(t, sep);
        assert forall|i: int| 0 <= i < first_index(s, sep) implies s[i] != sep by {
            if i > 0 {
                assert(s[i] == t[i - 1]);
            }
        }
    }
}

/// A position that no separator precedes, and that holds one or is the end,
/// is the first index.
pub proof fn lemma_first_index_is(s: Seq<char>, sep: char, p: int)
    requires
        0 <= p <= s.len(),
        forall|i: int| 0 <= i < p ==> s[i] != sep,
        p < s.len() ==> s[p] == sep,
    ensures
        first_index(s, sep) == p,
    decreases p,
{
    if p == 0 {
    } else {
        let t = s.drop_first();
        assert(s[0] != sep);
        assert forall|i: int| 0 <= i < p - 1 implies t[i] != sep by {
            assert(t[i] == s[i + 1]);
        }
        lemma_first_index_is(t, sep, p - 1);
    }
}

/// Dropping `a` leading whitespace characters, where the next one is none,
/// is `trim_start`.
pub proof fn lemma_trim_start_is(s: Seq<char>, a: int)
    requires
        0 <= a <= s.len(),
        forall|i: int| 0 <= i < a ==> is_whitespace(s[i]),
        a < s.len() ==> !is_whitespace(s[a]),
    ensures
        trim_start(s) == s.skip(a),
    decreases a,
{
    if a == 0 {
        assert(s.skip(0) =~= s);
    } else {
        let t = s.drop_first();
        assert(is_whitespace(s[0]));
        assert forall|i: int| 0 <= i < a - 1 implies is_whitespace(t[i]) by {
            assert(t[i] == s[i + 1]);
        }
        lemma_trim_start_is(t, a - 1);
        assert(t.skip(a - 1) =~= s.skip(a));
    }
}

/// Keeping the first `b` characters, where only whitespace follows and the
/// last one kept is none, is `trim_end`.
pub proof fn lemma_trim_end_is(s: Seq<char>, b: int)
    requires
        0 <= b <= s.len(),
        forall|i: int| b <= i < s.len() ==> is_whitespace(s[i]),
        b > 0 ==> !is_whitespace(s[b - 1]),
    ensures
        trim_end(s) == s.take(b),
    decreases s.len() - b,
{
    if b == s.len() {
        assert(s.take(b) =~= s);
    } else {
        let t = s.drop_last();
        assert(is_whitespace(s.last()));
        lemma_trim_end_is(t, b);
        assert(t.take(b) =~= s.take(b));
    }
}

/// The first piece of a split is what stands before the first separator, or
/// everything where there is none; the other pieces are those of what follows
/// that separator.
pub proof fn lemma_split_head(s: Seq<char>, sep: char)
    ensures
        split(s, sep).len() >= 1,
        split(s, sep)[0] == s.take(first_index(s, sep)),
        free_of(split(s, sep)[0], sep),
        first_index(s, sep) >= s.len() ==> split(s, sep) == seq![s],
        first_index(s, sep) < s.len() ==> split(s, sep) == seq![s.take(first_index(s, sep))]
            + split(s.skip(first_index(s, sep) + 1), sep),
{
    lemma_first_index(s, sep);
    let i = first_index(s, sep);
    if i >= s.len() {
        assert(s.take(i) =~= s);
    }
}

/// A text that starts with a piece free of separators, followed by a
/// separator, splits into that piece and the pieces of the rest.
pub proof fn lemma_split_joined(head: Seq<char>, sep: char, rest: Seq<char>)
    requires
        free_of(head, sep),
    ensures
        split(head + seq![sep] + rest, sep) == seq![head] + split(rest, sep),
{
    let s = head + seq![sep] + rest;
    assert(s[head.len() as int] == sep);
    assert forall|i: int| 0 <= i < head.len() implies s[i] != sep by {
        assert(s[i] == head[i]);
    }
    lemma_first_index_is(s, sep, head.len() as int);
    assert(s.take(head.len() as int) =~= head);
    assert(s.skip(head.len() as int + 1) =~= rest);
}

/// A text free of separators is its own single piece.
pub proof fn lemma_split_single(s: Seq<char>, sep: char)
    requires
        free_of(s, sep),
    ensures
        split(s, sep) == seq![s],
{
    lemma_first_index_is(s, sep, s.len() as int);
}

/// What is left after trimming neither starts nor ends with whitespace.
pub proof fn lemma_trim_ends(s: Seq<char>)
    ensures
        trim(s).len() > 0 ==> !is_whitespace(trim(s)[0]) && !is_whitespace(trim(s).last()),
{
    lemma_trim_start_ends(s);
    lemma_trim_end_ends(trim_start(s));
}

proof fn lemma_trim_start_ends(s: Seq<char>)
    ensures
        trim_start(s).len() > 0 ==> !is_whitespace(trim_start(s)[0]),
    decreases s.len(),
{
    if s.len() > 0 && is_whitespace(s[0]) {
        lemma_trim_start_ends(s.drop_first());
    }
}

proof fn lemma_trim_end_ends(s: Seq<char>)
    ensures
        trim_end(s).len() > 0 ==> !is_whitespace(trim_end(s).last()),
        trim_end(s).len() > 0 ==> trim_end(s)[0] == s[0],
        trim_end(s).len() <= s.len(),
    decreases s.len(),
{
    if s.len() > 0 && is_whitespace(s.last()) {
        lemma_trim_end_ends(s.drop_last());
    }
}

/// A text that neither starts nor ends with whitespace is left as it is by
/// trimming.
pub proof fn lemma_trim_fixed(s: Seq<char>)
    requires
        s.len() > 0 ==> !is_whitespace(s[0]) && !is_whitespace(s.last()),
    ensures
        trim(s) == s,
{
    lemma_trim_start_is(s, 0);
    assert(s.skip(0) =~= s);
    lemma_trim_end_is(s, s.len() as int);
    assert(s.take(s.len() as int) =~= s);
}

/// Every piece of a split is free of the separator.
pub proof fn lemma_split_free(s: Seq<char>, sep: char)
    ensures
        forall|k: int| 0 <= k < split(s, sep).len() ==> free_of(#[trigger] split(s, sep)[k], sep),
    decreases s.len(),
{
    lemma_split_head(s, sep);
    let i = first_index(s, sep);
    if i < s.len() {
        let rest = s.skip(i + 1);
        lemma_split_free(rest, sep);
        assert forall|k: int| 0 <= k < split(s, sep).len() implies free_of(
            #[trigger] split(s, sep)[k],
            sep,
        ) by {
            if k > 0 {
                assert(split(s, sep)[k] == split(rest, sep)[k - 1]);
            }
        }
    }
}

/// Joining the pieces of a split gives the text back.
pub proof fn lemma_join_split(s: Seq<char>, sep: char)
    ensures
        join(split(s, sep), sep) == s,
    decreases s.len(),
{
    lemma_split_head(s, sep);
    let i = first_index(s, sep);
    if i < s.len() {
        let rest = s.skip(i + 1);
        lemma_split_head(rest, sep);
        lemma_join_split(rest, sep);
        lemma_first_index(s, sep);
        assert(split(s, sep).drop_first() =~= split(rest, sep));
        assert(s.take(i) + seq![sep] + rest =~= s);
    }
}

/// Splitting the join of pieces that are free of the separator gives the
/// pieces back.
pub proof fn lemma_split_join(pieces: Seq<Seq<char>>, sep: char)
    requires
        pieces.len() >= 1,
        forall|k: int| 0 <= k < pieces.len() ==> free_of(#[trigger] pieces[k], sep),
    ensures
        split(join(pieces, sep), sep) == pieces,
    decreases pieces.len(),
{
    if pieces.len() == 1 {
        lemma_split_single(pieces[0], sep);
        assert(seq![pieces[0]] =~= pieces);
    } else {
        let rest = pieces.drop_first();
        assert forall|k: int| 0 <= k < rest.len() implies free_of(#[trigger] rest[k], sep) by {
            assert(rest[k] == pieces[k + 1]);
        }
        lemma_split_join(rest, sep);
        lemma_split_joined(pieces[0], sep, join(rest, sep));
        assert(seq![pieces[0]] + rest =~= pieces);
    }
}

/// The join of two or more pieces starts with the first character of the
/// first piece, or with the separator where that piece is empty, and ends
/// with the last character of the last piece, or with the separator where
/// that piece is empty.
pub proof fn lemma_join_ends(pieces: Seq<Seq<char>>, sep: char)
    requires
        pieces.len() >= 2,
    ensures
        join(pieces, sep).len() > 0,
        join(pieces, sep)[0] == (if pieces[0].len() > 0 {
            pieces[0][0]
        } else {
            sep
        }),
        join(pieces, sep).last() == (if pieces.last().len() > 0 {
            pieces.last().last()
        } else {
            sep
        }),
    decreases pieces.len(),
{
    let rest = pieces.drop_first();
    assert(rest.last() == pieces.last());
    if rest.len() >= 2 {
        lemma_join_ends(rest, sep);
    }
}

/// The characters of `s`, one by one.
pub fn chars_of(s: &str) -> (v: Vec<char>)
    ensures
        v@ == s@,
{
    let mut v: Vec<char> = Vec::new();
    for c in it: s.chars()
        invariant
            it.seq() == s@,
            v@ == it.seq().take(it.index() as int),
    {
        v.push(c);
    }
    v
}

/// Executable form of `ascii_lower`.
pub fn to_ascii_lower(c: char) -> (r: char)
    ensures
        r == ascii_lower(c),
{
    if 'A' <= c && c <= 'Z' {
        ((c as u8) + 32) as char
    } else {
        c
    }
}

/// Executable form of `is_whitespace`.
pub fn char_is_whitespace(c: char) -> (r: bool)
    ensures
        r == is_whitespace(c),
{
    let n: u32 = c as u32;
    (0x09 <= n && n <= 0x0D) || n == 0x20 || n == 0x85 || n == 0xA0 || n == 0x1680 || (0x2000 <= n
        && n <= 0x200A) || n == 0x2028 || n == 0x2029 || n == 0x202F || n == 0x205F || n == 0x3000
}

/// Compares two texts without regard to the case of ASCII letters.
pub fn str_eq_ignore_ascii_case(a: &str, b: &str) -> (r: bool)
    ensures
        r == eq_ignore_ascii_case(a@, b@),
{
    let x = chars_of(a);
    let y = chars_of(b);
    if x.len() != y.len() {
        return false;
    }
    let mut i: usize = 0;
    while i < x.len()
        invariant
            x@ == a@,
            y@ == b@,
            x.len() == y.len(),
            i <= x.len(),
            forall|j: int| 0 <= j < i ==> ascii_lower(#[trigger] x@[j]) == ascii_lower(y@[j]),
        decreases x.len() - i,
    {
        if to_ascii_lower(x[i]) != to_ascii_lower(y[i]) {
            return false;
        }
        i += 1;
    }
    true
}

/// The bounds `(a, b)` of the trimmed part of `chars`.
pub fn trim_bounds(chars: &Vec<char>) -> (r: (usize, usize))
    ensures
        r.0 <= r.1 <= chars.len(),
        chars@.subrange(r.0 as int, r.1 as int) == trim(chars@),
{
    let n = chars.len();
    let mut a: usize = 0;
    while a < n && char_is_whitespace(chars[a])
        invariant
            n == chars.len(),
            a <= n,
            forall|i: int| 0 <= i < a ==> is_whitespace(chars@[i]),
        decreases n - a,
    {
        a += 1;
    }
    let mut b: usize = n;
    while b > a && char_is_whitespace(chars[b - 1])
        invariant
            n == chars.len(),
            a <= b <= n,
            forall|i: int| b <= i < n ==> is_whitespace(chars@[i]),
        decreases b,
    {
        b -= 1;
    }
    proof {
        let s = chars@;
        lemma_trim_start_is(s, a as int);
        let t = s.skip(a as int);
        assert forall|i: int| b - a <= i < t.len() implies is_whitespace(t[i]) by {
            assert(t[i] == s[i + a]);
        }
        if b > a {
            assert(t[b - a - 1] == s[b - 1]);
        }
        lemma_trim_end_is(t, b - a);
        assert(t.take(b - a) =~= s.subrange(a as int, b as int));
    }
    (a, b)
}

/// The first position from `from` on, and before `end`, that holds `sep`, or
/// `end` when none does before it.
pub(crate) fn find_from(chars: &Vec<char>, from: usize, end: usize, sep: char) -> (p: usize)
    requires
        from <= end <= chars.len(),
    ensures
        from <= p <= end,
        p - from == first_index(chars@.subrange(from as int, end as int), sep),
{
    let mut p: usize = from;
    while p < end && chars[p] != sep
        invariant
            from <= p <= end <= chars.len(),
            forall|i: int| from <= i < p ==> chars@[i] != sep,
        decreases end - p,
    {
        p += 1;
    }
    proof {
        let t = chars@.subrange(from as int, end as int);
        assert forall|i: int| 0 <= i < p - from implies t[i] != sep by {
            assert(t[i] == chars@[i + from]);
        }
        lemma_first_index_is(t, sep, p - from);
    }
    p
}

} // verus!
