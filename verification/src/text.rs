//! Cutting a line into tokens and putting tokens together again.
//!
//! Everything here is stated over sequences of characters. A line is cut at
//! every occurrence of the separator, so two separators in a row give an
//! empty token, and a line without a separator is one token.

use vstd::prelude::*;
use vstd::string::*;

verus! {

/// The pieces of `s` between the occurrences of `sep`, in order. There is
/// always at least one piece, and no piece holds `sep`.
pub open spec fn split(s: Seq<char>, sep: char) -> Seq<Seq<char>>
    decreases s.len(),
{
    if s.len() == 0 {
        seq![Seq::<char>::empty()]
    } else {
        let before = split(s.drop_last(), sep);
        if s.last() == sep {
            before.push(Seq::<char>::empty())
        } else {
            before.drop_last().push(before.last().push(s.last()))
        }
    }
}

/// The parts written one after the other with `sep` between each two.
pub open spec fn join(parts: Seq<Seq<char>>, sep: char) -> Seq<char>
    decreases parts.len(),
{
    if parts.len() == 0 {
        Seq::<char>::empty()
    } else if parts.len() == 1 {
        parts[0]
    } else {
        join(parts.drop_last(), sep).push(sep) + parts.last()
    }
}

/// The parts written one after the other, each followed by one space.
pub open spec fn spaced(parts: Seq<Seq<char>>) -> Seq<char>
    decreases parts.len(),
{
    if parts.len() == 0 {
        Seq::<char>::empty()
    } else {
        (spaced(parts.drop_last()) + parts.last()).push(' ')
    }
}

/// Whether a character counts as white space: what `char::is_whitespace`
/// answers for it. Which characters those are is std's to say; here it is
/// only a name for the answer, which depends on the character and on
/// nothing else.
pub uninterp spec fn is_white_space(c: char) -> bool;

/// `char::is_whitespace`. Believed, not proved: its answer is
/// [`is_white_space`] of the character.
pub assume_specification[ char::is_whitespace ](c: char) -> (r: bool)
    ensures
        r == is_white_space(c),
;

/// For each character, whether it counts as white space.
pub open spec fn white_flags(s: Seq<char>) -> Seq<bool> {
    Seq::new(s.len(), |i: int| is_white_space(s[i]))
}

/// `s` without the characters at its end that are flagged. A character
/// without a flag stays, and so does what stands before it.
pub open spec fn trim_given(s: Seq<char>, white: Seq<bool>) -> Seq<char>
    decreases s.len(),
{
    if 0 < s.len() <= white.len() && white[s.len() - 1] {
        trim_given(s.drop_last(), white)
    } else {
        s
    }
}

/// `s` without the white space at its end.
pub open spec fn trim_end(s: Seq<char>) -> Seq<char> {
    trim_given(s, white_flags(s))
}

/// The parts as one text: each followed by a space, and the white space at
/// the end of the whole removed.
pub open spec fn joined(parts: Seq<Seq<char>>) -> Seq<char> {
    trim_end(spaced(parts))
}

/// The items of `parts` from index `from` on; none where `from` is past the
/// end.
pub open spec fn rest<T>(parts: Seq<T>, from: int) -> Seq<T> {
    if 0 <= from <= parts.len() {
        parts.skip(from)
    } else {
        Seq::<T>::empty()
    }
}

/// `s` without its first character where that is `c`, else `s` itself.
pub open spec fn without_leading(s: Seq<char>, c: char) -> Seq<char> {
    if s.len() > 0 && s[0] == c {
        s.skip(1)
    } else {
        s
    }
}

/// Every split has at least one piece.
pub proof fn lemma_split_nonempty(s: Seq<char>, sep: char)
    ensures
        split(s, sep).len() >= 1,
    decreases s.len(),
{
    if s.len() > 0 {
        lemma_split_nonempty(s.drop_last(), sep);
    }
}

/// No piece of a split holds the separator.
pub proof fn lemma_split_pieces_lack_sep(s: Seq<char>, sep: char)
    ensures
        forall|i: int, j: int|
            0 <= i < split(s, sep).len() && 0 <= j < split(s, sep)[i].len() ==> split(
                s,
                sep,
            )[i][j] != sep,
    decreases s.len(),
{
    if s.len() > 0 {
        lemma_split_nonempty(s.drop_last(), sep);
        lemma_split_pieces_lack_sep(s.drop_last(), sep);
    }
}

/// A text that does not begin with the separator begins like its first
/// piece.
pub proof fn lemma_first_piece_begins_the_text(s: Seq<char>, sep: char)
    requires
        s.len() > 0,
        s[0] != sep,
    ensures
        split(s, sep)[0].len() > 0,
        split(s, sep)[0][0] == s[0],
    decreases s.len(),
{
    lemma_split_nonempty(s.drop_last(), sep);
    if s.len() > 1 {
        lemma_first_piece_begins_the_text(s.drop_last(), sep);
    }
}

/// What is joined from parts of which the first is not empty begins like
/// that first part.
pub proof fn lemma_join_begins_with_first(parts: Seq<Seq<char>>, sep: char)
    requires
        parts.len() > 0,
        parts[0].len() > 0,
    ensures
        join(parts, sep).len() > 0,
        join(parts, sep)[0] == parts[0][0],
    decreases parts.len(),
{
    if parts.len() > 1 {
        lemma_join_begins_with_first(parts.drop_last(), sep);
    }
}

/// Joining the pieces of a split with the separator gives the text back.
pub proof fn lemma_join_split(s: Seq<char>, sep: char)
    ensures
        join(split(s, sep), sep) == s,
    decreases s.len(),
{
    if s.len() == 0 {
        assert(join(split(s, sep), sep) =~= s);
    } else {
        let before = split(s.drop_last(), sep);
        lemma_split_nonempty(s.drop_last(), sep);
        lemma_join_split(s.drop_last(), sep);
        if s.last() == sep {
            let now = before.push(Seq::<char>::empty());
            assert(now.drop_last() =~= before);
            assert(join(now, sep) =~= s);
        } else {
            let now = before.drop_last().push(before.last().push(s.last()));
            if before.len() == 1 {
                assert(join(now, sep) =~= s);
            } else {
                assert(now.drop_last() =~= before.drop_last());
                assert(join(now, sep) =~= join(before, sep).push(s.last()));
                assert(join(now, sep) =~= s);
            }
        }
    }
}

/// Splitting what was joined gives the parts back, as long as no part holds
/// the separator and there is at least one part.
pub proof fn lemma_split_join(parts: Seq<Seq<char>>, sep: char)
    requires
        parts.len() >= 1,
        forall|i: int, j: int|
            0 <= i < parts.len() && 0 <= j < parts[i].len() ==> parts[i][j] != sep,
    ensures
        split(join(parts, sep), sep) == parts,
    decreases parts.len(), parts.last().len(),
{
    let last = parts.last();
    let whole = join(parts, sep);
    if last.len() > 0 {
        let shorter = parts.drop_last().push(last.drop_last());
        assert(shorter.last() == last.drop_last());
        assert forall|i: int, j: int|
            0 <= i < shorter.len() && 0 <= j < shorter[i].len() implies shorter[i][j] != sep by {
            if i == parts.len() - 1 {
                assert(shorter[i][j] == parts[i][j]);
            } else {
                assert(shorter[i] == parts[i]);
            }
        }
        lemma_split_join(shorter, sep);
        assert(shorter.drop_last() =~= parts.drop_last());
        assert(join(shorter, sep) =~= whole.drop_last());
        assert(whole.last() == last.last());
        assert(last.last() == parts[parts.len() - 1][last.len() - 1]);
        assert(last.drop_last().push(last.last()) =~= last);
        assert(shorter.drop_last().push(shorter.last().push(whole.last())) =~= parts);
    } else if parts.len() == 1 {
        assert(whole =~= Seq::<char>::empty());
        assert(split(whole, sep) =~= parts);
    } else {
        let front = parts.drop_last();
        assert forall|i: int, j: int|
            0 <= i < front.len() && 0 <= j < front[i].len() implies front[i][j] != sep by {
            assert(front[i] == parts[i]);
        }
        lemma_split_join(front, sep);
        assert(whole =~= join(front, sep).push(sep));
        assert(whole.drop_last() =~= join(front, sep));
        assert(last =~= Seq::<char>::empty());
        assert(front.push(Seq::<char>::empty()) =~= parts);
    }
}

/// Cuts `s` at every `sep`.
pub fn split_on(s: &str, sep: char) -> (pieces: Vec<String>)
    ensures
        pieces.deep_view() == split(s@, sep),
{
    let n: usize = s.unicode_len();
    let mut pieces: Vec<String> = Vec::new();
    let mut start: usize = 0;
    let mut i: usize = 0;
    assert(s@.take(0) =~= Seq::<char>::empty());
    assert(pieces.deep_view().push(s@.subrange(0, 0)) =~= split(s@.take(0), sep));
    while i < n
        invariant
            n == s@.len(),
            start <= i <= n,
            pieces.deep_view().push(s@.subrange(start as int, i as int)) == split(
                s@.take(i as int),
                sep,
            ),
        decreases n - i,
    {
        let c = s.get_char(i);
        proof {
            assert(s@.take(i + 1).drop_last() =~= s@.take(i as int));
            assert(s@.take(i + 1).last() == s@[i as int]);
        }
        if c == sep {
            let piece = s.substring_char(start, i).to_owned();
            let ghost before = pieces.deep_view();
            pieces.push(piece);
            proof {
                assert(pieces.deep_view() =~= before.push(s@.subrange(start as int, i as int)));
                assert(s@.subrange(i + 1, i + 1) =~= Seq::<char>::empty());
            }
            start = i + 1;
        } else {
            proof {
                let before = pieces.deep_view().push(s@.subrange(start as int, i as int));
                assert(before.drop_last() =~= pieces.deep_view());
                assert(s@.subrange(start as int, i + 1) =~= before.last().push(s@[i as int]));
            }
        }
        i = i + 1;
    }
    let piece = s.substring_char(start, n).to_owned();
    let ghost before = pieces.deep_view();
    pieces.push(piece);
    proof {
        assert(pieces.deep_view() =~= before.push(s@.subrange(start as int, n as int)));
        assert(s@.take(n as int) =~= s@);
    }
    pieces
}

/// For each character of `s`, whether it counts as white space.
pub fn flags_of(s: &str) -> (white: Vec<bool>)
    ensures
        white@ == white_flags(s@),
{
    let n: usize = s.unicode_len();
    let mut white: Vec<bool> = Vec::new();
    let mut i: usize = 0;
    while i < n
        invariant
            n == s@.len(),
            i <= n,
            white@ == white_flags(s@.take(i as int)),
        decreases n - i,
    {
        white.push(s.get_char(i).is_whitespace());
        assert(white@ =~= white_flags(s@.take(i + 1)));
        i = i + 1;
    }
    assert(s@.take(n as int) =~= s@);
    white
}

/// `s` without the characters at its end that are flagged in `white`.
pub fn trim_end_from(s: &str, white: &Vec<bool>) -> (r: String)
    ensures
        r@ == trim_given(s@, white@),
{
    let mut end: usize = s.unicode_len();
    assert(s@.take(end as int) =~= s@);
    while 0 < end && end <= white.len() && white[end - 1]
        invariant
            end <= s@.len(),
            trim_given(s@, white@) == trim_given(s@.take(end as int), white@),
        decreases end,
    {
        assert(s@.take(end as int).drop_last() =~= s@.take(end - 1));
        end = end - 1;
    }
    s.substring_char(0, end).to_owned()
}

/// `s` without the white space at its end.
pub fn trimmed_end(s: &str) -> (r: String)
    ensures
        r@ == trim_end(s@),
{
    let white = flags_of(s);
    trim_end_from(s, &white)
}

/// The tokens from index `from` on as one text: each followed by a space,
/// and the white space at the end of the whole removed.
pub fn join_str_iter(tokens: &Vec<String>, from: usize) -> (text: String)
    ensures
        text@ == joined(rest(tokens.deep_view(), from as int)),
{
    let mut text = String::new();
    let n: usize = tokens.len();
    if from <= n {
        let mut i: usize = from;
        assert(tokens.deep_view().subrange(from as int, from as int) =~= Seq::<Seq<char>>::empty());
        while i < n
            invariant
                n == tokens.len(),
                from <= i <= n,
                text@ == spaced(tokens.deep_view().subrange(from as int, i as int)),
            decreases n - i,
        {
            proof {
                let now = tokens.deep_view().subrange(from as int, i + 1);
                assert(now.drop_last() =~= tokens.deep_view().subrange(from as int, i as int));
                assert(now.last() == tokens[i as int]@);
            }
            text.append(tokens[i].as_str());
            text.append(" ");
            proof {
                reveal_strlit(" ");
                assert(" "@ =~= seq![' ']);
                assert(text@ =~= spaced(tokens.deep_view().subrange(from as int, i + 1)));
            }
            i = i + 1;
        }
        assert(tokens.deep_view().subrange(from as int, n as int) =~= tokens.deep_view().skip(
            from as int,
        ));
    }
    trimmed_end(text.as_str())
}

/// The tokens from index `from` on with one space between each two.
pub fn join_with_spaces(tokens: &Vec<String>, from: usize) -> (text: String)
    ensures
        text@ == join(rest(tokens.deep_view(), from as int), ' '),
{
    let mut text = String::new();
    let n: usize = tokens.len();
    if from < n {
        let ghost parts = tokens.deep_view();
        text.append(tokens[from].as_str());
        let mut i: usize = from + 1;
        assert(parts.subrange(from as int, from + 1) =~= seq![parts[from as int]]);
        while i < n
            invariant
                n == tokens.len(),
                parts == tokens.deep_view(),
                from < i <= n,
                text@ == join(parts.subrange(from as int, i as int), ' '),
            decreases n - i,
        {
            proof {
                let now = parts.subrange(from as int, i + 1);
                assert(now.drop_last() =~= parts.subrange(from as int, i as int));
                assert(now.last() == tokens[i as int]@);
                reveal_strlit(" ");
                assert(" "@ =~= seq![' ']);
            }
            text.append(" ");
            text.append(tokens[i].as_str());
            assert(text@ =~= join(parts.subrange(from as int, i + 1), ' '));
            i = i + 1;
        }
        assert(parts.subrange(from as int, n as int) =~= parts.skip(from as int));
    } else {
        assert(rest(tokens.deep_view(), from as int) =~= Seq::<Seq<char>>::empty());
    }
    text
}

/// `s` without its first character where that is `c`, else a copy of `s`.
pub fn strip_leading(s: &str, c: char) -> (r: String)
    ensures
        r@ == without_leading(s@, c),
{
    let n: usize = s.unicode_len();
    if n > 0 && s.get_char(0) == c {
        s.substring_char(1, n).to_owned()
    } else {
        s.to_owned()
    }
}

/// Whether two texts hold the same characters.
pub fn same_text(a: &str, b: &str) -> (r: bool)
    ensures
        r == (a@ == b@),
{
    let x = a.to_owned();
    let y = b.to_owned();
    x == y
}

/// A copy of each token from index `from` on.
pub fn tokens_from(tokens: &Vec<String>, from: usize) -> (tail: Vec<String>)
    ensures
        tail.deep_view() == rest(tokens.deep_view(), from as int),
{
    let mut tail: Vec<String> = Vec::new();
    let n: usize = tokens.len();
    if from <= n {
        let mut i: usize = from;
        while i < n
            invariant
                n == tokens.len(),
                from <= i <= n,
                tail.deep_view() == tokens.deep_view().subrange(from as int, i as int),
            decreases n - i,
        {
            let ghost before = tail.deep_view();
            tail.push(tokens[i].clone());
            assert(tail.deep_view() =~= before.push(tokens[i as int]@));
            i = i + 1;
        }
        assert(tokens.deep_view().subrange(from as int, n as int) =~= tokens.deep_view().skip(
            from as int,
        ));
    }
    tail
}

/// The character that stands for a digit from 0 to 9.
pub open spec fn digit_char(d: int) -> char {
    ('0' as int + d) as char
}

/// A number below a thousand, written with three decimal digits.
pub open spec fn three_digits(n: int) -> Seq<char> {
    seq![digit_char(n / 100), digit_char(n / 10 % 10), digit_char(n % 10)]
}

/// The text of one digit.
fn digit_text(d: u16) -> (r: &'static str)
    requires
        d < 10,
    ensures
        r@ == seq![digit_char(d as int)],
{
    proof {
        reveal_strlit("0");
        reveal_strlit("1");
        reveal_strlit("2");
        reveal_strlit("3");
        reveal_strlit("4");
        reveal_strlit("5");
        reveal_strlit("6");
        reveal_strlit("7");
        reveal_strlit("8");
        reveal_strlit("9");
    }
    let r = if d == 0 {
        "0"
    } else if d == 1 {
        "1"
    } else if d == 2 {
        "2"
    } else if d == 3 {
        "3"
    } else if d == 4 {
        "4"
    } else if d == 5 {
        "5"
    } else if d == 6 {
        "6"
    } else if d == 7 {
        "7"
    } else if d == 8 {
        "8"
    } else {
        "9"
    };
    assert(r@ =~= seq![digit_char(d as int)]);
    r
}

/// A number below a thousand, written with three decimal digits.
pub(crate) fn three_digit_text(n: u16) -> (r: String)
    requires
        n < 1000,
    ensures
        r@ == three_digits(n as int),
{
    let mut r = digit_text(n / 100).to_owned();
    r.append(digit_text(n / 10 % 10));
    r.append(digit_text(n % 10));
    assert(r@ =~= three_digits(n as int));
    r
}

} // verus!
