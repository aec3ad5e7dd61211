//! Text building blocks shared by the summaries and the generated sources:
//! decimal and hexadecimal numbers, list rendering and escaped literals.

use vstd::prelude::*;

verus! {

/// The ASCII character of decimal digit `d`.
pub open spec fn digit_char(d: nat) -> char {
    (('0' as u32) + d) as char
}

/// The lowercase ASCII character of hexadecimal digit `d`.
pub open spec fn hex_digit_char(d: nat) -> char {
    if d < 10 {
        digit_char(d)
    } else {
        (('a' as u32) + (d - 10)) as char
    }
}

/// The decimal rendering of `n`, without sign or leading zeros.
pub open spec fn decimal(n: nat) -> Seq<char>
    decreases n,
{
    if n < 10 {
        seq![digit_char(n)]
    } else {
        decimal(n / 10).push(digit_char(n % 10))
    }
}

/// The decimal rendering of `i`, with a leading `-` when negative.
pub open spec fn signed_decimal(i: int) -> Seq<char> {
    if i < 0 {
        seq!['-'] + decimal((-i) as nat)
    } else {
        decimal(i as nat)
    }
}

/// Two lowercase hexadecimal digits for `b`, as `{:02x}` writes it.
pub open spec fn hex_byte(b: u8) -> Seq<char> {
    seq![hex_digit_char((b / 16) as nat), hex_digit_char((b % 16) as nat)]
}

/// `s` followed by a newline.
pub open spec fn line(s: Seq<char>) -> Seq<char> {
    s.push('\n')
}

/// Concatenation of all the pieces, in order.
pub open spec fn concat(pieces: Seq<Seq<char>>) -> Seq<char>
    decreases pieces.len(),
{
    if pieces.len() == 0 {
        Seq::empty()
    } else {
        concat(pieces.drop_last()) + pieces.last()
    }
}

/// The pieces joined by `sep`.
pub open spec fn join(pieces: Seq<Seq<char>>, sep: Seq<char>) -> Seq<char>
    decreases pieces.len(),
{
    if pieces.len() == 0 {
        Seq::empty()
    } else if pieces.len() == 1 {
        pieces[0]
    } else {
        join(pieces.drop_last(), sep) + sep + pieces.last()
    }
}

/// `[a, b, c]`: the list form in which the settings summary shows the sizes.
pub open spec fn u32_list(values: Seq<u32>) -> Seq<char> {
    seq!['['] + join(values.map_values(|v: u32| decimal(v as nat)), seq![',', ' ']) + seq![']']
}

/// The escaped form of one character inside a C string literal.
pub open spec fn c_escaped_char(c: char) -> Seq<char> {
    if c == '\\' {
        seq!['\\', '\\']
    } else if c == '"' {
        seq!['\\', '"']
    } else if c == '\n' {
        seq!['\\', 'n']
    } else if c == '\r' {
        seq!['\\', 'r']
    } else if c == '\t' {
        seq!['\\', 't']
    } else {
        seq![c]
    }
}

/// The escaped body of a C string literal for `s`.
pub open spec fn c_escaped(s: Seq<char>) -> Seq<char>
    decreases s.len(),
{
    if s.len() == 0 {
        Seq::empty()
    } else {
        c_escaped(s.drop_last()) + c_escaped_char(s.last())
    }
}

/// A double-quoted C string literal holding `s`.
pub open spec fn c_string(s: Seq<char>) -> Seq<char> {
    seq!['"'] + c_escaped(s) + seq!['"']
}

/// Adding piece `i` to the concatenation of the first `i` pieces.
pub proof fn lemma_concat_take(pieces: Seq<Seq<char>>, i: int)
    requires
        0 <= i < pieces.len(),
    ensures
        concat(pieces.take(i + 1)) == concat(pieces.take(i)) + pieces[i],
{
    assert(pieces.take(i + 1).drop_last() == pieces.take(i));
}

/// The concatenation of all the pieces of a sequence is that of its full prefix.
pub proof fn lemma_concat_all(pieces: Seq<Seq<char>>)
    ensures
        concat(pieces.take(pieces.len() as int)) == concat(pieces),
{
    assert(pieces.take(pieces.len() as int) == pieces);
}

/// Whether `piece` occurs in `text` as a run of consecutive characters.
pub open spec fn contains_text(text: Seq<char>, piece: Seq<char>) -> bool {
    exists|k: int|
        0 <= k && k + piece.len() <= text.len() && #[trigger] text.subrange(k, k + piece.len())
            == piece
}

/// A text holds each piece written in its middle.
pub proof fn lemma_contains_middle(a: Seq<char>, piece: Seq<char>, b: Seq<char>)
    ensures
        contains_text(a + piece + b, piece),
{
    let t = a + piece + b;
    assert(t.subrange(a.len() as int, (a.len() + piece.len()) as int) =~= piece);
}

/// Text written around a text keeps what that text holds.
pub proof fn lemma_contains_within(t: Seq<char>, piece: Seq<char>, a: Seq<char>, b: Seq<char>)
    requires
        contains_text(t, piece),
    ensures
        contains_text(a + t + b, piece),
{
    let k = choose|k: int|
        0 <= k && k + piece.len() <= t.len() && #[trigger] t.subrange(k, k + piece.len())
            == piece;
    let u = a + t + b;
    assert(u.subrange(a.len() + k, a.len() + k + piece.len()) =~= t.subrange(
        k,
        k + piece.len(),
    ));
}

/// A text holds what it starts with.
pub proof fn lemma_contains_start(t: Seq<char>, piece: Seq<char>)
    requires
        piece.len() <= t.len(),
        t.subrange(0, piece.len() as int) == piece,
    ensures
        contains_text(t, piece),
{
    let k: int = 0;
    assert(t.subrange(k, k + piece.len()) == piece);
}

/// Text written after a text keeps what that text holds.
pub proof fn lemma_contains_append(t: Seq<char>, piece: Seq<char>, b: Seq<char>)
    requires
        contains_text(t, piece),
    ensures
        contains_text(t + b, piece),
{
    lemma_contains_within(t, piece, Seq::empty(), b);
    assert(Seq::<char>::empty() + t + b =~= t + b);
}

/// Text written before a text keeps what that text holds.
pub proof fn lemma_contains_prepend(a: Seq<char>, t: Seq<char>, piece: Seq<char>)
    requires
        contains_text(t, piece),
    ensures
        contains_text(a + t, piece),
{
    lemma_contains_within(t, piece, a, Seq::empty());
    assert(a + t + Seq::<char>::empty() =~= a + t);
}

/// Concatenating two lists of pieces concatenates their texts.
pub proof fn lemma_concat_append(x: Seq<Seq<char>>, y: Seq<Seq<char>>)
    ensures
        concat(x + y) == concat(x) + concat(y),
    decreases y.len(),
{
    if y.len() == 0 {
        assert(x + y =~= x);
        assert(concat(x) + concat(y) =~= concat(x));
    } else {
        lemma_concat_append(x, y.drop_last());
        assert((x + y).drop_last() =~= x + y.drop_last());
        assert((x + y).last() == y.last());
        assert(concat(x) + concat(y.drop_last()) + y.last() =~= concat(x) + (concat(
            y.drop_last(),
        ) + y.last()));
    }
}

/// What one piece holds, the concatenation of all the pieces holds.
pub proof fn lemma_concat_contains(pieces: Seq<Seq<char>>, i: int, piece: Seq<char>)
    requires
        0 <= i < pieces.len(),
        contains_text(pieces[i], piece),
    ensures
        contains_text(concat(pieces), piece),
{
    let before = pieces.take(i);
    let after = pieces.skip(i + 1);
    assert(pieces =~= before + seq![pieces[i]] + after);
    lemma_concat_append(before + seq![pieces[i]], after);
    lemma_concat_append(before, seq![pieces[i]]);
    let one = seq![pieces[i]];
    assert(one.drop_last() =~= Seq::<Seq<char>>::empty());
    assert(one.last() == pieces[i]);
    assert(concat(one.drop_last()) =~= Seq::<char>::empty());
    assert(concat(one) =~= pieces[i]);
    lemma_contains_within(pieces[i], piece, concat(before), concat(after));
}

/// Whether two strings hold the same characters.
pub fn str_equals(a: &str, b: &str) -> (equal: bool)
    ensures
        equal == (a@ == b@),
{
    let n = a.unicode_len();
    if n != b.unicode_len() {
        return false;
    }
    let mut i: usize = 0;
    while i < n
        invariant
            n == a@.len(),
            n == b@.len(),
            i <= n,
            forall|k: int| 0 <= k < i ==> a@[k] == b@[k],
        decreases n - i,
    {
        if a.get_char(i) != b.get_char(i) {
            return false;
        }
        i += 1;
    }
    assert(a@ == b@);
    true
}

/// Appends one character (`String::push`).
#[verifier::external_body]
pub(crate) fn push_char(s: &mut String, c: char)
    ensures
        final(s)@ == old(s)@.push(c),
{
    s.push(c);
}

/// Appends a string slice.
pub(crate) fn push_str(s: &mut String, t: &str)
    ensures
        final(s)@ == old(s)@ + t@,
{
    s.append(t);
}

fn digit(d: u64) -> (c: char)
    requires
        d < 16,
    ensures
        c == hex_digit_char(d as nat),
{
    if d < 10 {
        (48u8 + d as u8) as char
    } else {
        (87u8 + d as u8) as char
    }
}

/// Appends the decimal rendering of `n`.
pub(crate) fn push_decimal(s: &mut String, n: u64)
    ensures
        final(s)@ == old(s)@ + decimal(n as nat),
    decreases n,
{
    if n >= 10 {
        push_decimal(s, n / 10);
    }
    let c = digit(n % 10);
    push_char(s, c);
    proof {
        if n >= 10 {
            assert(old(s)@ + decimal(n as nat) == old(s)@ + decimal((n / 10) as nat) + seq![c]);
        }
    }
}

/// Appends the line `key` `value`.
pub(crate) fn push_line(s: &mut String, key: &str, value: &str)
    ensures
        final(s)@ == old(s)@ + line(key@ + value@),
{
    push_str(s, key);
    push_str(s, value);
    push_char(s, '\n');
    assert(final(s)@ == old(s)@ + line(key@ + value@));
}

/// The decimal rendering of `n` as a string.
pub(crate) fn decimal_string(n: u64) -> (text: String)
    ensures
        text@ == decimal(n as nat),
{
    let mut text = String::new();
    push_decimal(&mut text, n);
    assert(text@ == decimal(n as nat));
    text
}

/// Appends the decimal rendering of a `usize`.
pub(crate) fn push_usize(s: &mut String, n: usize)
    ensures
        final(s)@ == old(s)@ + decimal(n as nat),
{
    push_decimal(s, n as u64);
}

/// Appends the decimal rendering of a `u32`.
pub(crate) fn push_u32(s: &mut String, n: u32)
    ensures
        final(s)@ == old(s)@ + decimal(n as nat),
{
    push_decimal(s, n as u64);
}

/// Appends the decimal rendering of an `i32`, with its sign.
pub(crate) fn push_i32(s: &mut String, i: i32)
    ensures
        final(s)@ == old(s)@ + signed_decimal(i as int),
{
    push_signed_decimal(s, i as i64);
}

/// Appends the decimal rendering of `i`, with its sign.
pub(crate) fn push_signed_decimal(s: &mut String, i: i64)
    ensures
        final(s)@ == old(s)@ + signed_decimal(i as int),
{
    if i < 0 {
        push_char(s, '-');
        let magnitude: u64 = if i == i64::MIN {
            9223372036854775808u64
        } else {
            (-i) as u64
        };
        push_decimal(s, magnitude);
        assert(old(s)@ + signed_decimal(i as int) == old(s)@.push('-') + decimal(
            magnitude as nat,
        ));
    } else {
        push_decimal(s, i as u64);
    }
}

/// Appends the two lowercase hexadecimal digits of `b`.
pub(crate) fn push_hex_byte(s: &mut String, b: u8)
    ensures
        final(s)@ == old(s)@ + hex_byte(b),
{
    let hi = digit((b / 16) as u64);
    let lo = digit((b % 16) as u64);
    push_char(s, hi);
    push_char(s, lo);
    assert(final(s)@ == old(s)@ + hex_byte(b));
}

/// Appends `[a, b, c]` for the values.
pub(crate) fn push_u32_list(s: &mut String, values: &Vec<u32>)
    ensures
        final(s)@ == old(s)@ + u32_list(values@),
{
    let ghost start = s@;
    let ghost pieces = values@.map_values(|v: u32| decimal(v as nat));
    push_char(s, '[');
    let mut i: usize = 0;
    while i < values.len()
        invariant
            i <= values.len(),
            pieces == values@.map_values(|v: u32| decimal(v as nat)),
            s@ == start.push('[') + join(pieces.take(i as int), seq![',', ' ']),
        decreases values.len() - i,
    {
        let ghost before = s@;
        if i > 0 {
            push_str(s, ", ");
            proof {
                reveal_strlit(", ");
            }
        }
        push_decimal(s, values[i] as u64);
        proof {
            let t = pieces.take(i + 1);
            assert(t.drop_last() == pieces.take(i as int));
            assert(t.last() == decimal(values@[i as int] as nat));
            if i == 0 {
                assert(t.len() == 1);
            }
        }
        i += 1;
    }
    assert(pieces.take(i as int) == pieces);
    push_char(s, ']');
}

} // verus!
