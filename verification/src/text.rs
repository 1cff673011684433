//! Text as sequences of characters: copying, searching, trimming and
//! splitting, each with its meaning stated over `Seq<char>`.

use vstd::prelude::*;

verus! {

/// What `str::to_lowercase` makes of a text.
pub uninterp spec fn str_lowercase(text: Seq<char>) -> Seq<char>;

/// `str::to_lowercase`, on a text given and returned as characters.
#[verifier::external_body]
pub(crate) fn lowercase(text: &Vec<char>) -> (lower: Vec<char>)
    ensures
        lower@ == str_lowercase(text@),
{
    text.iter().collect::<String>().to_lowercase().chars().collect()
}

/// What `str::to_uppercase` makes of a text.
pub uninterp spec fn str_uppercase(text: Seq<char>) -> Seq<char>;

/// `str::to_uppercase`, on a text given and returned as characters.
#[verifier::external_body]
pub(crate) fn uppercase(text: &Vec<char>) -> (upper: Vec<char>)
    ensures
        upper@ == str_uppercase(text@),
{
    text.iter().collect::<String>().to_uppercase().chars().collect()
}

/// `String::push`: the character is added at the end.
#[verifier::external_body]
pub(crate) fn string_push(text: &mut String, c: char)
    ensures
        final(text)@ == old(text)@.push(c),
{
    text.push(c)
}

/// A copy of a list of strings.
pub fn clone_strings(v: &Vec<String>) -> (r: Vec<String>)
    ensures
        r.deep_view() == v.deep_view(),
{
    let mut r: Vec<String> = Vec::new();
    let mut i: usize = 0;
    while i < v.len()
        invariant
            i <= v.len(),
            r.len() == i,
            forall|j: int| 0 <= j < i ==> r[j]@ == v[j]@,
        decreases v.len() - i,
    {
        r.push(v[i].clone());
        i = i + 1;
    }
    assert(r.deep_view() =~= v.deep_view());
    r
}

/// The characters of a string.
pub fn chars_of(s: &str) -> (r: Vec<char>)
    ensures
        r@ == s@,
{
    let mut r: Vec<char> = Vec::new();
    for c in it: s.chars()
        invariant
            r@ == s@.take(it.index() as int),
            it.seq() == s@,
    {
        r.push(c);
        assert(r@ =~= s@.take(it.index() + 1));
    }
    assert(s@.take(s@.len() as int) =~= s@);
    r
}

/// The string of a list of characters.
pub fn string_of(chars: &Vec<char>) -> (r: String)
    ensures
        r@ == chars@,
{
    let mut r = String::new();
    let mut i: usize = 0;
    while i < chars.len()
        invariant
            i <= chars.len(),
            r@ == chars@.take(i as int),
        decreases chars.len() - i,
    {
        string_push(&mut r, chars[i]);
        assert(r@ =~= chars@.take(i + 1));
        i = i + 1;
    }
    assert(chars@.take(chars.len() as int) =~= chars@);
    r
}

/// The characters of `chars` from `from` up to `to`.
pub fn slice_of(chars: &Vec<char>, from: usize, to: usize) -> (r: Vec<char>)
    requires
        from <= to <= chars.len(),
    ensures
        r@ == chars@.subrange(from as int, to as int),
{
    let mut r: Vec<char> = Vec::new();
    let mut i: usize = from;
    while i < to
        invariant
            from <= i <= to <= chars.len(),
            r@ == chars@.subrange(from as int, i as int),
        decreases to - i,
    {
        r.push(chars[i]);
        assert(r@ =~= chars@.subrange(from as int, i + 1));
        i = i + 1;
    }
    r
}

/// Adds the characters of `more` at the end of `chars`.
pub fn extend(chars: &mut Vec<char>, more: &Vec<char>)
    ensures
        final(chars)@ == old(chars)@ + more@,
{
    let mut i: usize = 0;
    while i < more.len()
        invariant
            i <= more.len(),
            chars@ == old(chars)@ + more@.take(i as int),
        decreases more.len() - i,
    {
        chars.push(more[i]);
        assert(chars@ =~= old(chars)@ + more@.take(i + 1));
        i = i + 1;
    }
    assert(more@.take(more.len() as int) =~= more@);
}

/// Whether two texts are the same.
pub fn same_chars(a: &Vec<char>, b: &Vec<char>) -> (r: bool)
    ensures
        r == (a@ == b@),
{
    if a.len() != b.len() {
        return false;
    }
    let mut i: usize = 0;
    while i < a.len()
        invariant
            i <= a.len(),
            a.len() == b.len(),
            a@.take(i as int) == b@.take(i as int),
        decreases a.len() - i,
    {
        if a[i] != b[i] {
            return false;
        }
        assert(a@.take(i + 1) =~= a@.take(i as int).push(a[i as int]));
        assert(b@.take(i + 1) =~= b@.take(i as int).push(b[i as int]));
        i = i + 1;
    }
    assert(a@.take(a.len() as int) =~= a@);
    assert(b@.take(b.len() as int) =~= b@);
    true
}

/// Whether `needle` stands in `hay` at the place `at`.
pub open spec fn occurs_at(hay: Seq<char>, needle: Seq<char>, at: int) -> bool {
    &&& 0 <= at
    &&& at + needle.len() <= hay.len()
    &&& hay.subrange(at, at + needle.len()) == needle
}

/// Whether `needle` stands somewhere in `hay`.
pub open spec fn contains_spec(hay: Seq<char>, needle: Seq<char>) -> bool {
    exists|at: int| occurs_at(hay, needle, at)
}

/// Whether `needle` stands in `hay` at the place `at`.
pub fn matches_at(hay: &Vec<char>, needle: &Vec<char>, at: usize) -> (r: bool)
    ensures
        r == occurs_at(hay@, needle@, at as int),
{
    if at > hay.len() || needle.len() > hay.len() - at {
        return false;
    }
    let mut i: usize = 0;
    while i < needle.len()
        invariant
            i <= needle.len(),
            at + needle.len() <= hay.len(),
            forall|j: int| 0 <= j < i ==> hay[at + j] == needle[j],
        decreases needle.len() - i,
    {
        if hay[at + i] != needle[i] {
            assert(hay@.subrange(at as int, at + needle.len())[i as int] != needle@[i as int]);
            return false;
        }
        i = i + 1;
    }
    assert(hay@.subrange(at as int, at + needle.len()) =~= needle@);
    true
}

/// The first place at or behind `from` where `needle` stands in `hay`.
pub fn find_from(hay: &Vec<char>, needle: &Vec<char>, from: usize) -> (r: Option<usize>)
    ensures
        r is Some ==> from <= r->0 && occurs_at(hay@, needle@, r->0 as int),
        r is Some ==> forall|at: int| from <= at < r->0 ==> !occurs_at(hay@, needle@, at),
        r is None ==> forall|at: int| from <= at ==> !occurs_at(hay@, needle@, at),
{
    if needle.len() > hay.len() {
        return None;
    }
    let last = hay.len() - needle.len();
    let mut at: usize = from;
    while at <= last
        invariant
            from <= at,
            last == hay.len() - needle.len(),
            forall|k: int| from <= k < at ==> !occurs_at(hay@, needle@, k),
        decreases last - at,
    {
        if matches_at(hay, needle, at) {
            return Some(at);
        }
        if at == last {
            return None;
        }
        at = at + 1;
    }
    None
}

/// Whether `needle` stands somewhere in `hay`.
pub fn contains(hay: &Vec<char>, needle: &Vec<char>) -> (r: bool)
    ensures
        r == contains_spec(hay@, needle@),
{
    find_from(hay, needle, 0).is_some()
}

/// Whether `hay` begins with `prefix`.
pub fn starts_with(hay: &Vec<char>, prefix: &Vec<char>) -> (r: bool)
    ensures
        r == occurs_at(hay@, prefix@, 0),
{
    matches_at(hay, prefix, 0)
}

/// Whether `c` is white space: one of the characters that Unicode gives the
/// property `White_Space`.
pub open spec fn is_whitespace_spec(c: char) -> bool {
    let n = c as u32;
    (0x09 <= n <= 0x0d) || n == 0x20 || n == 0x85 || n == 0xa0 || n == 0x1680 || (0x2000 <= n
        <= 0x200a) || n == 0x2028 || n == 0x2029 || n == 0x202f || n == 0x205f || n == 0x3000
}

#[verifier::when_used_as_spec(is_whitespace_spec)]
pub fn is_whitespace(c: char) -> (r: bool)
    ensures
        r == is_whitespace_spec(c),
{
    let n = c as u32;
    (0x09 <= n && n <= 0x0d) || n == 0x20 || n == 0x85 || n == 0xa0 || n == 0x1680 || (0x2000 <= n
        && n <= 0x200a) || n == 0x2028 || n == 0x2029 || n == 0x202f || n == 0x205f || n == 0x3000
}

/// Whether a text holds nothing but white space.
pub open spec fn is_blank_spec(text: Seq<char>) -> bool {
    forall|i: int| 0 <= i < text.len() ==> is_whitespace_spec(#[trigger] text[i])
}

pub fn is_blank(text: &Vec<char>) -> (r: bool)
    ensures
        r == is_blank_spec(text@),
{
    let mut i: usize = 0;
    while i < text.len()
        invariant
            i <= text.len(),
            forall|j: int| 0 <= j < i ==> is_whitespace_spec(#[trigger] text[j]),
        decreases text.len() - i,
    {
        if !is_whitespace(text[i]) {
            return false;
        }
        i = i + 1;
    }
    true
}

/// The number of white space characters at the start of a text.
pub open spec fn leading_space(text: Seq<char>) -> nat
    decreases text.len(),
{
    if text.len() > 0 && is_whitespace_spec(text[0]) {
        1 + leading_space(text.drop_first())
    } else {
        0
    }
}

/// The number of white space characters at the end of a text.
pub open spec fn trailing_space(text: Seq<char>) -> nat
    decreases text.len(),
{
    if text.len() > 0 && is_whitespace_spec(text.last()) {
        1 + trailing_space(text.drop_last())
    } else {
        0
    }
}

/// A text without the white space at its end.
pub open spec fn trim_end_spec(text: Seq<char>) -> Seq<char> {
    text.take(text.len() - trailing_space(text))
}

/// A text without the white space at its start and at its end.
pub open spec fn trim_spec(text: Seq<char>) -> Seq<char> {
    trim_end_spec(text.skip(leading_space(text) as int))
}

proof fn lemma_leading_space(text: Seq<char>, n: nat)
    requires
        n <= text.len(),
        forall|i: int| 0 <= i < n ==> is_whitespace_spec(#[trigger] text[i]),
        n == text.len() || !is_whitespace_spec(text[n as int]),
    ensures
        leading_space(text) == n,
    decreases n,
{
    if n > 0 {
        let rest = text.drop_first();
        assert forall|i: int| 0 <= i < n - 1 implies is_whitespace_spec(#[trigger] rest[i]) by {
            assert(rest[i] == text[i + 1]);
        }
        lemma_leading_space(rest, (n - 1) as nat);
    }
}

proof fn lemma_trailing_space(text: Seq<char>, n: nat)
    requires
        n <= text.len(),
        forall|i: int| text.len() - n <= i < text.len() ==> is_whitespace_spec(#[trigger] text[i]),
        n == text.len() || !is_whitespace_spec(text[text.len() - n - 1]),
    ensures
        trailing_space(text) == n,
    decreases n,
{
    if n > 0 {
        let rest = text.drop_last();
        assert forall|i: int| rest.len() - (n - 1) <= i < rest.len() implies is_whitespace_spec(
            #[trigger] rest[i],
        ) by {
            assert(rest[i] == text[i]);
        }
        lemma_trailing_space(rest, (n - 1) as nat);
    }
}

/// A text without the white space at its end.
pub fn trim_end(text: &Vec<char>) -> (r: Vec<char>)
    ensures
        r@ == trim_end_spec(text@),
{
    let mut end: usize = text.len();
    while end > 0 && is_whitespace(text[end - 1])
        invariant
            end <= text.len(),
            forall|i: int| end <= i < text.len() ==> is_whitespace_spec(#[trigger] text[i]),
        decreases end,
    {
        end = end - 1;
    }
    proof {
        lemma_trailing_space(text@, (text.len() - end) as nat);
    }
    let r = slice_of(text, 0, end);
    assert(r@ =~= trim_end_spec(text@));
    r
}

/// A text without the white space at its start and at its end.
pub fn trim(text: &Vec<char>) -> (r: Vec<char>)
    ensures
        r@ == trim_spec(text@),
{
    let mut start: usize = 0;
    while start < text.len() && is_whitespace(text[start])
        invariant
            start <= text.len(),
            forall|i: int| 0 <= i < start ==> is_whitespace_spec(#[trigger] text[i]),
        decreases text.len() - start,
    {
        start = start + 1;
    }
    proof {
        lemma_leading_space(text@, start as nat);
    }
    let rest = slice_of(text, start, text.len());
    assert(rest@ =~= text@.skip(start as int));
    trim_end(&rest)
}

/// The place of the first `c` in a text, or the length of the text where it
/// holds none.
pub open spec fn index_of(text: Seq<char>, c: char) -> int
    decreases text.len(),
{
    if text.len() == 0 || text[0] == c {
        0
    } else {
        1 + index_of(text.drop_first(), c)
    }
}

pub proof fn lemma_index_of(text: Seq<char>, c: char)
    ensures
        0 <= index_of(text, c) <= text.len(),
        forall|i: int| 0 <= i < index_of(text, c) ==> text[i] != c,
        index_of(text, c) < text.len() ==> text[index_of(text, c)] == c,
    decreases text.len(),
{
    if text.len() > 0 && text[0] != c {
        let rest = text.drop_first();
        lemma_index_of(rest, c);
        assert forall|i: int| 0 <= i < index_of(text, c) implies text[i] != c by {
            if i > 0 {
                assert(rest[i - 1] == text[i]);
            }
        }
    }
}

proof fn lemma_index_of_is(text: Seq<char>, c: char, at: int)
    requires
        0 <= at <= text.len(),
        forall|i: int| 0 <= i < at ==> text[i] != c,
        at == text.len() || text[at] == c,
    ensures
        index_of(text, c) == at,
{
    lemma_index_of(text, c);
    let found = index_of(text, c);
    if found < at {
        assert(text[found] != c);
    }
}

/// The place of the first `c` at or behind `from`, or the length of the text.
pub fn position_from(text: &Vec<char>, c: char, from: usize) -> (r: usize)
    requires
        from <= text.len(),
    ensures
        r == from + index_of(text@.skip(from as int), c),
        from <= r <= text.len(),
{
    let mut at: usize = from;
    while at < text.len() && text[at] != c
        invariant
            from <= at <= text.len(),
            forall|i: int| from <= i < at ==> text[i] != c,
        decreases text.len() - at,
    {
        at = at + 1;
    }
    proof {
        lemma_index_of_is(text@.skip(from as int), c, at - from);
    }
    at
}

/// The texts that a list of character lists holds.
pub open spec fn texts(pieces: Seq<Vec<char>>) -> Seq<Seq<char>> {
    pieces.map_values(|piece: Vec<char>| piece@)
}

/// The pieces of a text between the occurrences of `sep`: one more piece than
/// there are occurrences.
pub open spec fn split_spec(text: Seq<char>, sep: char) -> Seq<Seq<char>>
    decreases text.len(),
{
    let at = index_of(text, sep);
    if 0 <= at < text.len() {
        seq![text.take(at)] + split_spec(text.skip(at + 1), sep)
    } else {
        seq![text]
    }
}

/// The pieces of a text between the occurrences of `sep`.
pub fn split(text: &Vec<char>, sep: char) -> (pieces: Vec<Vec<char>>)
    ensures
        texts(pieces@) == split_spec(text@, sep),
{
    let mut pieces: Vec<Vec<char>> = Vec::new();
    let mut start: usize = 0;
    let mut open = true;
    proof {
        assert(text@.skip(0) =~= text@);
        assert(texts(pieces@) + split_spec(text@, sep) =~= split_spec(text@, sep));
    }
    while open
        invariant
            start <= text.len(),
            open ==> split_spec(text@, sep) == texts(pieces@) + split_spec(
                text@.skip(start as int),
                sep,
            ),
            !open ==> split_spec(text@, sep) == texts(pieces@),
        decreases text.len() - start + (if open { 1nat } else { 0nat }),
    {
        let ghost rest = text@.skip(start as int);
        let ghost before = texts(pieces@);
        let at = position_from(text, sep, start);
        let piece = slice_of(text, start, at);
        proof {
            lemma_index_of(rest, sep);
            assert(piece@ =~= rest.take(at - start));
        }
        pieces.push(piece);
        if at < text.len() {
            proof {
                assert(rest.skip(at - start + 1) =~= text@.skip(at + 1));
                assert(texts(pieces@) =~= before + seq![rest.take(at - start)]);
                assert(before + (seq![rest.take(at - start)] + split_spec(text@.skip(at + 1), sep))
                    =~= texts(pieces@) + split_spec(text@.skip(at + 1), sep));
            }
            start = at + 1;
        } else {
            proof {
                assert(rest.take(at - start) =~= rest);
                assert(texts(pieces@) =~= before + seq![rest]);
            }
            open = false;
        }
    }
    pieces
}

/// A line without the carriage return at its end, if it has one.
pub open spec fn without_cr(line: Seq<char>) -> Seq<char> {
    if line.len() > 0 && line.last() == '\r' {
        line.drop_last()
    } else {
        line
    }
}

/// The lines of a text. A line ends with a line feed, or with a carriage
/// return and a line feed; neither belongs to the line. What stands behind the
/// last line feed is a line too, unless it is empty.
pub open spec fn lines_spec(text: Seq<char>) -> Seq<Seq<char>>
    decreases text.len(),
{
    if text.len() == 0 {
        Seq::empty()
    } else {
        let at = index_of(text, '\n');
        if 0 <= at < text.len() {
            seq![without_cr(text.take(at))] + lines_spec(text.skip(at + 1))
        } else {
            seq![text]
        }
    }
}

/// The lines of a text.
pub fn lines(text: &Vec<char>) -> (r: Vec<Vec<char>>)
    ensures
        texts(r@) == lines_spec(text@),
{
    let mut r: Vec<Vec<char>> = Vec::new();
    let mut start: usize = 0;
    proof {
        assert(text@.skip(0) =~= text@);
        assert(texts(r@) + lines_spec(text@) =~= lines_spec(text@));
    }
    while start < text.len()
        invariant
            start <= text.len(),
            lines_spec(text@) == texts(r@) + lines_spec(text@.skip(start as int)),
        decreases text.len() - start,
    {
        let ghost rest = text@.skip(start as int);
        let ghost before = texts(r@);
        let at = position_from(text, '\n', start);
        proof {
            lemma_index_of(rest, '\n');
        }
        if at < text.len() {
            let end = if at > start && text[at - 1] == '\r' {
                at - 1
            } else {
                at
            };
            let line = slice_of(text, start, end);
            proof {
                assert(rest.take(at - start) =~= text@.subrange(start as int, at as int));
                assert(line@ =~= without_cr(rest.take(at - start)));
                assert(rest.skip(at - start + 1) =~= text@.skip(at + 1));
            }
            r.push(line);
            proof {
                assert(texts(r@) =~= before + seq![without_cr(rest.take(at - start))]);
                assert(before + (seq![without_cr(rest.take(at - start))] + lines_spec(
                    text@.skip(at + 1),
                )) =~= texts(r@) + lines_spec(text@.skip(at + 1)));
            }
            start = at + 1;
        } else {
            let line = slice_of(text, start, at);
            proof {
                assert(line@ =~= rest);
                assert(text@.skip(at as int).len() == 0);
                assert(lines_spec(text@.skip(at as int)) =~= Seq::<Seq<char>>::empty());
            }
            r.push(line);
            proof {
                assert(texts(r@) =~= before + seq![rest]);
                assert(texts(r@) + lines_spec(text@.skip(at as int)) =~= before + seq![rest]);
            }
            start = at;
        }
    }
    proof {
        assert(text@.skip(start as int).len() == 0);
        assert(texts(r@) + lines_spec(text@.skip(start as int)) =~= texts(r@));
    }
    r
}

/// The texts of `parts` one after the other, with `sep` between each two.
pub open spec fn join_spec(parts: Seq<Seq<char>>, sep: Seq<char>) -> Seq<char>
    decreases parts.len(),
{
    if parts.len() == 0 {
        Seq::empty()
    } else if parts.len() == 1 {
        parts[0]
    } else {
        join_spec(parts.drop_last(), sep) + sep + parts.last()
    }
}

/// The strings of `parts` one after the other, with `sep` between each two.
pub fn join(parts: &Vec<String>, sep: &str) -> (r: String)
    ensures
        r@ == join_spec(parts.deep_view(), sep@),
{
    let mut r = String::new();
    let mut i: usize = 0;
    while i < parts.len()
        invariant
            i <= parts.len(),
            r@ == join_spec(parts.deep_view().take(i as int), sep@),
        decreases parts.len() - i,
    {
        let ghost so_far = parts.deep_view().take(i as int);
        let ghost next = parts.deep_view().take(i + 1);
        proof {
            assert(next.drop_last() =~= so_far);
            assert(next.last() == parts[i as int]@);
        }
        if i > 0 {
            r.append(sep);
        }
        r.append(parts[i].as_str());
        proof {
            if i == 0 {
                assert(r@ =~= parts[i as int]@);
            }
        }
        i = i + 1;
    }
    proof {
        assert(parts.deep_view().take(parts.len() as int) =~= parts.deep_view());
    }
    r
}

} // verus!

verus! {

/// The digit that stands for a number below ten.
pub open spec fn digit_spec(n: nat) -> char {
    if n == 0 {
        '0'
    } else if n == 1 {
        '1'
    } else if n == 2 {
        '2'
    } else if n == 3 {
        '3'
    } else if n == 4 {
        '4'
    } else if n == 5 {
        '5'
    } else if n == 6 {
        '6'
    } else if n == 7 {
        '7'
    } else if n == 8 {
        '8'
    } else {
        '9'
    }
}

/// A number written in decimal digits, without leading zeros.
pub open spec fn decimal_spec(n: nat) -> Seq<char>
    decreases n,
{
    if n < 10 {
        seq![digit_spec(n)]
    } else {
        decimal_spec(n / 10).push(digit_spec(n % 10))
    }
}

fn digit(n: u64) -> (c: char)
    requires
        n < 10,
    ensures
        c == digit_spec(n as nat),
{
    if n == 0 {
        '0'
    } else if n == 1 {
        '1'
    } else if n == 2 {
        '2'
    } else if n == 3 {
        '3'
    } else if n == 4 {
        '4'
    } else if n == 5 {
        '5'
    } else if n == 6 {
        '6'
    } else if n == 7 {
        '7'
    } else if n == 8 {
        '8'
    } else {
        '9'
    }
}

/// A number written in decimal digits, without leading zeros.
pub fn decimal(n: u64) -> (r: Vec<char>)
    ensures
        r@ == decimal_spec(n as nat),
{
    let mut reversed: Vec<char> = Vec::new();
    let mut rest: u64 = n;
    while rest >= 10
        invariant
            decimal_spec(n as nat) == decimal_spec(rest as nat) + reversed@.reverse(),
        decreases rest,
    {
        let ghost before = reversed@;
        reversed.push(digit(rest % 10));
        proof {
            assert(reversed@.reverse() =~= seq![digit_spec((rest % 10) as nat)] + before.reverse());
            assert(decimal_spec(rest as nat) =~= decimal_spec((rest / 10) as nat) + seq![
                digit_spec((rest % 10) as nat),
            ]);
            assert(decimal_spec((rest / 10) as nat) + reversed@.reverse() =~= decimal_spec(
                rest as nat,
            ) + before.reverse());
        }
        rest = rest / 10;
    }
    let ghost tail = reversed@.reverse();
    let mut r: Vec<char> = Vec::new();
    r.push(digit(rest));
    let mut i: usize = reversed.len();
    while i > 0
        invariant
            i <= reversed.len(),
            tail == reversed@.reverse(),
            r@ == decimal_spec(rest as nat) + tail.take(reversed.len() - i),
        decreases i,
    {
        i = i - 1;
        r.push(reversed[i]);
        proof {
            assert(tail[reversed.len() - i - 1] == reversed[i as int]);
            assert(r@ =~= decimal_spec(rest as nat) + tail.take(reversed.len() - i));
        }
    }
    proof {
        assert(tail.take(reversed.len() as int) =~= tail);
    }
    r
}

/// The first place at or behind `from` where `needle` stands in `hay`.
pub open spec fn first_at(hay: Seq<char>, needle: Seq<char>, from: int) -> Option<int>
    decreases
            (if from <= hay.len() {
                hay.len() - from
            } else {
                0
            }),
{
    if from < 0 || from + needle.len() > hay.len() {
        None
    } else if occurs_at(hay, needle, from) {
        Some(from)
    } else if from >= hay.len() {
        None
    } else {
        first_at(hay, needle, from + 1)
    }
}

proof fn lemma_first_at_found(hay: Seq<char>, needle: Seq<char>, from: int, at: int)
    requires
        0 <= from <= at,
        occurs_at(hay, needle, at),
        forall|k: int| from <= k < at ==> !occurs_at(hay, needle, k),
    ensures
        first_at(hay, needle, from) == Some(at),
    decreases at - from,
{
    if from < at {
        lemma_first_at_found(hay, needle, from + 1, at);
    }
}

proof fn lemma_first_at_none(hay: Seq<char>, needle: Seq<char>, from: int)
    requires
        forall|k: int| from <= k ==> !occurs_at(hay, needle, k),
    ensures
        first_at(hay, needle, from) is None,
    decreases
            (if from <= hay.len() {
                hay.len() - from
            } else {
                0
            }),
{
    if !(from < 0 || from + needle.len() > hay.len()) && from < hay.len() {
        lemma_first_at_none(hay, needle, from + 1);
    }
}

/// The places where `needle` stands in `hay` at or behind `from`, from the
/// left, each one behind the end of the one before. An empty needle stands
/// nowhere.
pub open spec fn occurrences_from(hay: Seq<char>, needle: Seq<char>, from: int) -> Seq<int>
    decreases
            (if from <= hay.len() {
                hay.len() - from
            } else {
                0
            }),
{
    if needle.len() == 0 {
        Seq::empty()
    } else {
        match first_at(hay, needle, from) {
            None => Seq::empty(),
            Some(at) => if from <= at && at + needle.len() <= hay.len() {
                seq![at] + occurrences_from(hay, needle, at + needle.len())
            } else {
                Seq::empty()
            },
        }
    }
}

/// The places where `needle` stands in `hay`: see [`occurrences_from`].
pub open spec fn occurrences(hay: Seq<char>, needle: Seq<char>) -> Seq<int> {
    occurrences_from(hay, needle, 0)
}

/// The places as numbers without a sign.
pub open spec fn places(found: Seq<usize>) -> Seq<int> {
    found.map_values(|at: usize| at as int)
}

/// The places where `needle` stands in `hay`.
pub fn find_all(hay: &Vec<char>, needle: &Vec<char>) -> (found: Vec<usize>)
    ensures
        places(found@) == occurrences(hay@, needle@),
        forall|i: int| 0 <= i < found.len() ==> #[trigger] found[i] + needle.len() <= hay.len(),
{
    let mut found: Vec<usize> = Vec::new();
    if needle.len() == 0 {
        assert(places(found@) =~= Seq::<int>::empty());
        return found;
    }
    let mut from: usize = 0;
    let mut open = true;
    proof {
        assert(places(found@) + occurrences_from(hay@, needle@, 0) =~= occurrences(hay@, needle@));
    }
    while open
        invariant
            needle.len() > 0,
            from <= hay.len(),
            open ==> occurrences(hay@, needle@) == places(found@) + occurrences_from(
                hay@,
                needle@,
                from as int,
            ),
            !open ==> occurrences(hay@, needle@) == places(found@),
            forall|i: int| 0 <= i < found.len() ==> #[trigger] found[i] + needle.len() <= hay.len(),
        decreases hay.len() - from + (if open { 1nat } else { 0nat }),
    {
        let ghost before = places(found@);
        match find_from(hay, needle, from) {
            Some(at) => {
                proof {
                    lemma_first_at_found(hay@, needle@, from as int, at as int);
                }
                found.push(at);
                proof {
                    assert(places(found@) =~= before + seq![at as int]);
                    assert(before + (seq![at as int] + occurrences_from(
                        hay@,
                        needle@,
                        at + needle.len(),
                    )) =~= places(found@) + occurrences_from(hay@, needle@, at + needle.len()));
                }
                from = at + needle.len();
            },
            None => {
                proof {
                    lemma_first_at_none(hay@, needle@, from as int);
                    assert(before + Seq::<int>::empty() =~= before);
                }
                open = false;
            },
        }
    }
    found
}

/// The text of `hay` from `from` on, with `with` in place of `needle` wherever
/// it stands, from the left, each place behind the end of the one before. An
/// empty needle stands nowhere.
pub open spec fn replace_from(hay: Seq<char>, needle: Seq<char>, with: Seq<char>, from: int) -> Seq<
    char,
>
    decreases
            (if from <= hay.len() {
                hay.len() - from
            } else {
                0
            }),
{
    if from < 0 || from > hay.len() {
        Seq::empty()
    } else if needle.len() == 0 {
        hay.skip(from)
    } else {
        match first_at(hay, needle, from) {
            Some(at) => if from <= at && at + needle.len() <= hay.len() {
                hay.subrange(from, at) + with + replace_from(hay, needle, with, at + needle.len())
            } else {
                hay.skip(from)
            },
            None => hay.skip(from),
        }
    }
}

/// The text of `hay` with `with` in place of `needle`: see [`replace_from`].
pub open spec fn replace_spec(hay: Seq<char>, needle: Seq<char>, with: Seq<char>) -> Seq<char> {
    replace_from(hay, needle, with, 0)
}

/// The text of `hay` with `with` in place of `needle` wherever it stands.
pub fn replace(hay: &Vec<char>, needle: &Vec<char>, with: &Vec<char>) -> (r: Vec<char>)
    ensures
        r@ == replace_spec(hay@, needle@, with@),
{
    let mut out: Vec<char> = Vec::new();
    if needle.len() == 0 {
        extend(&mut out, hay);
        assert(out@ =~= hay@.skip(0));
        return out;
    }
    let mut from: usize = 0;
    let mut open = true;
    proof {
        assert(out@ + replace_from(hay@, needle@, with@, 0) =~= replace_spec(
            hay@,
            needle@,
            with@,
        ));
    }
    while open
        invariant
            needle.len() > 0,
            from <= hay.len(),
            open ==> replace_spec(hay@, needle@, with@) == out@ + replace_from(
                hay@,
                needle@,
                with@,
                from as int,
            ),
            !open ==> replace_spec(hay@, needle@, with@) == out@,
        decreases hay.len() - from + (if open { 1nat } else { 0nat }),
    {
        let ghost before = out@;
        match find_from(hay, needle, from) {
            Some(at) => {
                proof {
                    lemma_first_at_found(hay@, needle@, from as int, at as int);
                }
                let kept = slice_of(hay, from, at);
                extend(&mut out, &kept);
                extend(&mut out, with);
                proof {
                    assert(before + (hay@.subrange(from as int, at as int) + with@ + replace_from(
                        hay@,
                        needle@,
                        with@,
                        at + needle.len(),
                    )) =~= out@ + replace_from(hay@, needle@, with@, at + needle.len()));
                }
                from = at + needle.len();
            },
            None => {
                proof {
                    lemma_first_at_none(hay@, needle@, from as int);
                }
                let kept = slice_of(hay, from, hay.len());
                extend(&mut out, &kept);
                proof {
                    assert(hay@.skip(from as int) =~= hay@.subrange(
                        from as int,
                        hay.len() as int,
                    ));
                }
                open = false;
            },
        }
    }
    out
}

} // verus!
