//! Text: characters, lines, numerals and padding.
//!
//! Positions in a line count characters; the standard library edits a `String`
//! by byte offset, so [`byte_index_at_char`] leads from one to the other.

use vstd::prelude::*;

verus! {

/// The characters of each line.
pub open spec fn lines_view(lines: Seq<String>) -> Seq<Seq<char>> {
    Seq::new(lines.len(), |i: int| lines[i]@)
}

/// The characters of each line of borrowed text.
pub open spec fn strs_view(lines: Seq<&str>) -> Seq<Seq<char>> {
    Seq::new(lines.len(), |i: int| lines[i]@)
}

/// The byte offset at which character number `k` of `s` starts.
pub open spec fn byte_offset(s: Seq<char>, k: int) -> nat {
    vstd::utf8::encode_utf8(s.take(k)).len()
}

/// An ASCII digit.
pub open spec fn is_digit(c: char) -> bool {
    '0' <= c && c <= '9'
}

/// A letter, a digit or an underscore, in ASCII.
pub open spec fn word_char(c: char) -> bool {
    ||| 'a' <= c && c <= 'z'
    ||| 'A' <= c && c <= 'Z'
    ||| is_digit(c)
    ||| c == '_'
}

/// The digit character of a number below ten.
pub open spec fn digit_char(d: nat) -> char {
    (48 + d) as char
}

/// The decimal numeral of `n`, without leading zeros.
pub open spec fn decimal(n: nat) -> Seq<char>
    decreases n,
{
    if n < 10 {
        seq![digit_char(n)]
    } else {
        decimal(n / 10).push(digit_char(n % 10))
    }
}

/// A run of `n` blanks.
pub open spec fn blanks(n: nat) -> Seq<char> {
    Seq::new(n, |i: int| ' ')
}

/// `s` followed by the blanks that bring it to `width` characters.
pub open spec fn padded_right(s: Seq<char>, width: nat) -> Seq<char> {
    if s.len() < width {
        s + blanks((width - s.len()) as nat)
    } else {
        s
    }
}

/// `s` preceded by the blanks that bring it to `width` characters.
pub open spec fn padded_left(s: Seq<char>, width: nat) -> Seq<char> {
    if s.len() < width {
        blanks((width - s.len()) as nat) + s
    } else {
        s
    }
}

/// `String::push` appends one character.
pub assume_specification[ String::push ](s: &mut String, ch: char)
    ensures
        final(s)@ == old(s)@.push(ch),
;

/// `String::pop` removes and returns the last character, or returns `None` and
/// leaves an empty string as it is.
pub assume_specification[ String::pop ](s: &mut String) -> (ch: Option<char>)
    ensures
        old(s)@.len() == 0 ==> ch is None && final(s)@ == old(s)@,
        old(s)@.len() > 0 ==> ch == Some(old(s)@.last()) && final(s)@ == old(s)@.drop_last(),
;

/// `String::remove` takes out and returns the character that starts at a byte
/// offset. It panics unless a character starts there.
pub assume_specification[ String::remove ](s: &mut String, idx: usize) -> (ch: char)
    requires
        exists|k: int| 0 <= k < old(s)@.len() && idx == #[trigger] byte_offset(old(s)@, k),
    ensures
        forall|k: int|
            0 <= k < old(s)@.len() && idx == #[trigger] byte_offset(old(s)@, k) ==> ch == old(s)@[k]
                && final(s)@ == old(s)@.remove(k),
;

/// `String::insert` puts a character at a byte offset. It panics unless the
/// offset lies between two characters or at an end.
pub assume_specification[ String::insert ](s: &mut String, idx: usize, ch: char)
    requires
        exists|k: int| 0 <= k <= old(s)@.len() && idx == #[trigger] byte_offset(old(s)@, k),
    ensures
        forall|k: int|
            0 <= k <= old(s)@.len() && idx == #[trigger] byte_offset(old(s)@, k) ==> final(s)@
                == old(s)@.insert(k, ch),
;

/// `String::replace_range` puts `with` in the place of the bytes from `start` up
/// to `end`. It panics unless both lie between two characters or at an end, in
/// that order.
#[verifier::external_body]
fn replace_bytes(s: &mut String, start: usize, end: usize, with: &str)
    requires
        exists|i: int, j: int|
            0 <= i <= j <= old(s)@.len() && start == #[trigger] byte_offset(old(s)@, i) && end
                == #[trigger] byte_offset(old(s)@, j),
    ensures
        forall|i: int, j: int|
            0 <= i <= j <= old(s)@.len() && start == #[trigger] byte_offset(old(s)@, i) && end
                == #[trigger] byte_offset(old(s)@, j) ==> final(s)@ == old(s)@.take(i) + with@
                + old(s)@.skip(j),
{
    s.replace_range(start..end, with)
}

/// The byte offset of character number `char_index`, or the length in bytes
/// where there are not that many characters.
pub fn byte_index_at_char(s: &str, char_index: usize) -> (idx: usize)
    ensures
        char_index < s@.len() ==> idx == byte_offset(s@, char_index as int),
        char_index >= s@.len() ==> idx == byte_offset(s@, s@.len() as int),
{
    let count: usize = s.unicode_len();
    if char_index < count {
        assert(s@.take(char_index as int) == s@.subrange(0, char_index as int));
        s.substring_char(0, char_index).as_bytes().len()
    } else {
        assert(s@.take(s@.len() as int) == s@);
        s.as_bytes().len()
    }
}

/// Takes out character number `at`.
pub fn remove_char(s: &mut String, at: usize)
    requires
        at < old(s)@.len(),
    ensures
        final(s)@ == old(s)@.remove(at as int),
{
    let idx: usize = byte_index_at_char(s.as_str(), at);
    s.remove(idx);
}

/// Puts `ch` before character number `at`, or at the end where there are not
/// that many.
pub fn insert_char(s: &mut String, at: usize, ch: char)
    ensures
        at <= old(s)@.len() ==> final(s)@ == old(s)@.insert(at as int, ch),
        at > old(s)@.len() ==> final(s)@ == old(s)@.push(ch),
{
    let idx: usize = byte_index_at_char(s.as_str(), at);
    proof {
        let n = s@.len() as int;
        let k = if at < n { at as int } else { n };
        assert(idx == byte_offset(s@, k));
        assert(s@.insert(n, ch) =~= s@.push(ch));
    }
    s.insert(idx, ch);
}

/// Takes out the characters from number `from` up to number `to`.
pub fn remove_chars(s: &mut String, from: usize, to: usize)
    requires
        from <= to <= old(s)@.len(),
    ensures
        final(s)@ == old(s)@.take(from as int) + old(s)@.skip(to as int),
{
    let start_idx: usize = byte_index_at_char(s.as_str(), from);
    let end_idx: usize = byte_index_at_char(s.as_str(), to);
    proof {
        reveal_strlit("");
        assert(start_idx == byte_offset(s@, from as int));
        assert(end_idx == byte_offset(s@, to as int));
        assert(s@.take(from as int) + ""@ =~= s@.take(from as int));
    }
    replace_bytes(s, start_idx, end_idx, "");
}

/// The characters of `s`.
pub fn chars_of(s: &str) -> (chars: Vec<char>)
    ensures
        chars@ == s@,
{
    let mut chars: Vec<char> = Vec::new();
    for c in it: s.chars()
        invariant
            it.seq() == s@,
            chars@ == it.seq().take(it.index()),
    {
        chars.push(c);
    }
    chars
}

/// Whether two texts hold the same characters.
pub fn same_text(a: &str, b: &str) -> (same: bool)
    ensures
        same == (a@ == b@),
{
    let a_chars: Vec<char> = chars_of(a);
    let b_chars: Vec<char> = chars_of(b);
    if a_chars.len() != b_chars.len() {
        return false;
    }
    let mut i: usize = 0;
    while i < a_chars.len()
        invariant
            a_chars@ == a@,
            b_chars@ == b@,
            a_chars@.len() == b_chars@.len(),
            i <= a_chars@.len(),
            forall|j: int| 0 <= j < i ==> a_chars@[j] == b_chars@[j],
        decreases a_chars@.len() - i,
    {
        if a_chars[i] != b_chars[i] {
            return false;
        }
        i += 1;
    }
    assert(a@ =~= b@);
    true
}

/// Whether `s` begins with `prefix`.
pub fn has_prefix(s: &str, prefix: &str) -> (has: bool)
    ensures
        has == prefix@.is_prefix_of(s@),
{
    let s_chars: Vec<char> = chars_of(s);
    let p_chars: Vec<char> = chars_of(prefix);
    if p_chars.len() > s_chars.len() {
        return false;
    }
    let mut i: usize = 0;
    while i < p_chars.len()
        invariant
            s_chars@ == s@,
            p_chars@ == prefix@,
            i <= p_chars@.len() <= s_chars@.len(),
            forall|j: int| 0 <= j < i ==> p_chars@[j] == s_chars@[j],
        decreases p_chars@.len() - i,
    {
        if p_chars[i] != s_chars[i] {
            assert(s@.subrange(0, prefix@.len() as int)[i as int] == s@[i as int]);
            return false;
        }
        i += 1;
    }
    assert(prefix@ =~= s@.subrange(0, prefix@.len() as int));
    true
}

/// Whether two lists of lines hold the same text.
pub fn same_lines(a: &Vec<String>, b: &Vec<String>) -> (same: bool)
    ensures
        same == (lines_view(a@) == lines_view(b@)),
{
    if a.len() != b.len() {
        assert(lines_view(a@).len() != lines_view(b@).len());
        return false;
    }
    let mut i: usize = 0;
    while i < a.len()
        invariant
            a@.len() == b@.len(),
            i <= a@.len(),
            forall|j: int| 0 <= j < i ==> a@[j]@ == b@[j]@,
        decreases a@.len() - i,
    {
        if !same_text(a[i].as_str(), b[i].as_str()) {
            assert(lines_view(a@)[i as int] != lines_view(b@)[i as int]);
            return false;
        }
        i += 1;
    }
    assert(lines_view(a@) =~= lines_view(b@));
    true
}

/// An owned copy of each line.
pub fn owned_lines(lines: &Vec<&'static str>) -> (owned: Vec<String>)
    ensures
        lines_view(owned@) == strs_view(lines@),
{
    let mut owned: Vec<String> = Vec::new();
    let mut i: usize = 0;
    while i < lines.len()
        invariant
            i <= lines@.len(),
            owned@.len() == i,
            forall|j: int| 0 <= j < i ==> owned@[j]@ == lines@[j]@,
        decreases lines@.len() - i,
    {
        owned.push(lines[i].to_string());
        i += 1;
    }
    assert(lines_view(owned@) =~= strs_view(lines@));
    owned
}

/// Whether `ch` belongs to a word of code: an ASCII letter, a digit or an
/// underscore.
pub fn is_word_char(ch: char) -> (is: bool)
    ensures
        is == word_char(ch),
{
    ('a' <= ch && ch <= 'z') || ('A' <= ch && ch <= 'Z') || ('0' <= ch && ch <= '9') || ch == '_'
}

/// Appends the decimal numeral of `n`.
pub fn push_decimal(out: &mut String, n: usize)
    ensures
        final(out)@ == old(out)@ + decimal(n as nat),
    decreases n,
{
    if n >= 10 {
        push_decimal(out, n / 10);
    }
    let digit: u8 = (n % 10) as u8;
    out.push((48 + digit) as char);
    assert(out@ =~= old(out)@ + decimal(n as nat));
}

/// Appends `n` blanks.
fn push_blanks(out: &mut String, n: usize)
    ensures
        final(out)@ == old(out)@ + blanks(n as nat),
{
    let mut i: usize = 0;
    assert(out@ =~= old(out)@ + blanks(0));
    while i < n
        invariant
            i <= n,
            out@ == old(out)@ + blanks(i as nat),
        decreases n - i,
    {
        out.push(' ');
        i += 1;
        assert(out@ =~= old(out)@ + blanks(i as nat));
    }
}

/// Appends `s`, padded on the right to `width` characters.
pub fn push_padded_right(out: &mut String, s: &str, width: usize)
    ensures
        final(out)@ == old(out)@ + padded_right(s@, width as nat),
{
    let count: usize = s.unicode_len();
    out.append(s);
    if count < width {
        push_blanks(out, width - count);
    }
    assert(out@ =~= old(out)@ + padded_right(s@, width as nat));
}

/// Appends `s`, padded on the left to `width` characters.
pub fn push_padded_left(out: &mut String, s: &str, width: usize)
    ensures
        final(out)@ == old(out)@ + padded_left(s@, width as nat),
{
    let count: usize = s.unicode_len();
    if count < width {
        push_blanks(out, width - count);
    }
    out.append(s);
    assert(out@ =~= old(out)@ + padded_left(s@, width as nat));
}

/// A numeral is positional: its last digit is the remainder by ten, and the digits
/// before it are the numeral of the quotient.
pub proof fn numerals_are_positional(n: nat)
    ensures
        decimal(n).len() >= 1,
        decimal(n).last() as int == '0' as int + n % 10,
        n < 10 ==> decimal(n).len() == 1,
        n >= 10 ==> decimal(n).drop_last() == decimal(n / 10),
{
    assert(n >= 10 ==> decimal(n).drop_last() =~= decimal(n / 10));
}

/// Padding keeps the text, fills up to the width with blanks on one side, and never cuts.
pub proof fn padding_only_fills_up(s: Seq<char>, width: nat)
    ensures
        padded_right(s, width).len() == if s.len() < width {
            width
        } else {
            s.len()
        },
        padded_left(s, width).len() == padded_right(s, width).len(),
        padded_right(s, width).take(s.len() as int) == s,
        padded_left(s, width).skip(padded_left(s, width).len() - s.len()) == s,
        forall|i: int|
            s.len() <= i < padded_right(s, width).len() ==> #[trigger] padded_right(s, width)[i]
                == ' ',
        forall|i: int|
            0 <= i < padded_left(s, width).len() - s.len() ==> #[trigger] padded_left(s, width)[i]
                == ' ',
{
    assert(padded_right(s, width).take(s.len() as int) =~= s);
    assert(padded_left(s, width).skip(padded_left(s, width).len() - s.len()) =~= s);
}

/// Words are made of the letters, digits and the underscore of ASCII, and of nothing
/// else.
pub proof fn words_are_ascii(c: char)
    ensures
        word_char(c) <==> 48 <= c as int <= 57 || 65 <= c as int <= 90 || 97 <= c as int <= 122
            || c as int == 95,
        is_digit(c) <==> 48 <= c as int <= 57,
{
}

} // verus!
