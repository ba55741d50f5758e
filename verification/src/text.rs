//! Text building blocks: digits, joins and indentation.

use vstd::prelude::*;
use vstd::std_specs::iter::IteratorSpec;

verus! {

/// `String::push` appends the one character to the end of the string.
pub assume_specification[ String::push ](s: &mut String, c: char)
    ensures
        final(s)@ == old(s)@.push(c),
;

/// The digit for a value below sixteen, upper case.
pub open spec fn hex_digit(d: nat) -> char {
    if d == 0 { '0' } else if d == 1 { '1' } else if d == 2 { '2' } else if d == 3 { '3' }
    else if d == 4 { '4' } else if d == 5 { '5' } else if d == 6 { '6' } else if d == 7 { '7' }
    else if d == 8 { '8' } else if d == 9 { '9' } else if d == 10 { 'A' } else if d == 11 { 'B' }
    else if d == 12 { 'C' } else if d == 13 { 'D' } else if d == 14 { 'E' } else { 'F' }
}

/// `n` in base sixteen, upper case, without leading zeros (`0` for zero).
pub open spec fn hex_upper(n: nat) -> Seq<char>
    decreases n,
{
    if n < 16 {
        seq![hex_digit(n)]
    } else {
        hex_upper(n / 16).push(hex_digit(n % 16))
    }
}

/// The digit for a value below sixteen, lower case.
pub open spec fn hex_digit_lower(d: nat) -> char {
    if d == 10 { 'a' } else if d == 11 { 'b' } else if d == 12 { 'c' } else if d == 13 { 'd' }
    else if d == 14 { 'e' } else if d == 15 { 'f' } else { hex_digit(d) }
}

/// `n` in base sixteen, lower case, without leading zeros (`0` for zero).
pub open spec fn hex_lower(n: nat) -> Seq<char>
    decreases n,
{
    if n < 16 {
        seq![hex_digit_lower(n)]
    } else {
        hex_lower(n / 16).push(hex_digit_lower(n % 16))
    }
}

/// `n` in base two, without leading zeros (`0` for zero).
pub open spec fn binary(n: nat) -> Seq<char>
    decreases n,
{
    if n < 2 {
        seq![hex_digit(n)]
    } else {
        binary(n / 2).push(hex_digit(n % 2))
    }
}

/// `n` in base ten, without leading zeros (`0` for zero).
pub open spec fn decimal(n: nat) -> Seq<char>
    decreases n,
{
    if n < 10 {
        seq![hex_digit(n)]
    } else {
        decimal(n / 10).push(hex_digit(n % 10))
    }
}

/// `i` in base ten, with a minus sign in front of a negative number.
pub open spec fn signed_decimal(i: int) -> Seq<char> {
    if i < 0 {
        seq!['-'] + decimal((-i) as nat)
    } else {
        decimal(i as nat)
    }
}

/// `count` zeros.
pub open spec fn zeros(count: nat) -> Seq<char> {
    Seq::new(count, |i: int| '0')
}

/// `n` in upper-case base sixteen, with zeros in front up to `width` digits.
pub open spec fn hex_padded(n: nat, width: nat) -> Seq<char> {
    let digits = hex_upper(n);
    if digits.len() >= width {
        digits
    } else {
        zeros((width - digits.len()) as nat) + digits
    }
}

/// The items in order, with `sep` between each two neighbours.
pub open spec fn joined(items: Seq<Seq<char>>, sep: Seq<char>) -> Seq<char>
    decreases items.len(),
{
    if items.len() == 0 {
        Seq::empty()
    } else if items.len() == 1 {
        items[0]
    } else {
        joined(items.drop_last(), sep) + sep + items.last()
    }
}

/// What follows the first indentation of an indented text: every newline
/// that has text after it is followed by four spaces, and a newline at the
/// very end is dropped. A carriage return that stands directly before a
/// newline belongs to the end of the line and is dropped with it.
pub open spec fn indented_rest(s: Seq<char>) -> Seq<char>
    decreases s.len(),
{
    if s.len() == 0 {
        Seq::empty()
    } else if s[0] == '\r' && s.len() > 1 && s[1] == '\n' {
        indented_rest(s.skip(1))
    } else if s[0] == '\n' {
        if s.len() == 1 {
            Seq::empty()
        } else {
            seq!['\n', ' ', ' ', ' ', ' '] + indented_rest(s.skip(1))
        }
    } else {
        seq![s[0]] + indented_rest(s.skip(1))
    }
}

/// The text with four spaces in front of each of its lines. The empty text
/// has no line and stays empty.
pub open spec fn indented(s: Seq<char>) -> Seq<char> {
    if s.len() == 0 {
        Seq::empty()
    } else {
        seq![' ', ' ', ' ', ' '] + indented_rest(s)
    }
}

fn hex_char(d: u64) -> (c: char)
    requires
        d < 16,
    ensures
        c == hex_digit(d as nat),
{
    if d == 0 { '0' } else if d == 1 { '1' } else if d == 2 { '2' } else if d == 3 { '3' }
    else if d == 4 { '4' } else if d == 5 { '5' } else if d == 6 { '6' } else if d == 7 { '7' }
    else if d == 8 { '8' } else if d == 9 { '9' } else if d == 10 { 'A' } else if d == 11 { 'B' }
    else if d == 12 { 'C' } else if d == 13 { 'D' } else if d == 14 { 'E' } else { 'F' }
}

/// Appends `n` in upper-case base sixteen.
pub fn push_hex(out: &mut String, n: u64)
    ensures
        final(out)@ == old(out)@ + hex_upper(n as nat),
    decreases n,
{
    if n >= 16 {
        push_hex(out, n / 16);
    }
    out.push(hex_char(n % 16));
    assert(final(out)@ =~= old(out)@ + hex_upper(n as nat));
}

/// Appends `n` in lower-case base sixteen.
pub fn push_hex_lower(out: &mut String, n: u64)
    ensures
        final(out)@ == old(out)@ + hex_lower(n as nat),
    decreases n,
{
    if n >= 16 {
        push_hex_lower(out, n / 16);
    }
    let d = n % 16;
    let c = if d == 10 { 'a' } else if d == 11 { 'b' } else if d == 12 { 'c' } else if d == 13 { 'd' }
    else if d == 14 { 'e' } else if d == 15 { 'f' } else { hex_char(d) };
    out.push(c);
    assert(final(out)@ =~= old(out)@ + hex_lower(n as nat));
}

/// Appends `n` in base two.
pub fn push_binary(out: &mut String, n: u64)
    ensures
        final(out)@ == old(out)@ + binary(n as nat),
    decreases n,
{
    if n >= 2 {
        push_binary(out, n / 2);
    }
    out.push(hex_char(n % 2));
    assert(final(out)@ =~= old(out)@ + binary(n as nat));
}

/// The number of digits of `n` in base sixteen.
pub fn hex_len(n: u32) -> (len: usize)
    ensures
        len == hex_upper(n as nat).len(),
        1 <= len <= 8,
    decreases n,
{
    proof {
        lemma_hex_len(n as nat);
    }
    if n >= 16 {
        let rest = hex_len(n / 16);
        rest + 1
    } else {
        1
    }
}

/// How many digits a number has in base sixteen, by its size.
pub proof fn lemma_hex_len(n: nat)
    ensures
        hex_upper(n).len() >= 1,
        n < 0x10 ==> hex_upper(n).len() <= 1,
        n < 0x100 ==> hex_upper(n).len() <= 2,
        n < 0x1000 ==> hex_upper(n).len() <= 3,
        n < 0x1_0000 ==> hex_upper(n).len() <= 4,
        n < 0x10_0000 ==> hex_upper(n).len() <= 5,
        n < 0x100_0000 ==> hex_upper(n).len() <= 6,
        n < 0x1000_0000 ==> hex_upper(n).len() <= 7,
        n < 0x1_0000_0000 ==> hex_upper(n).len() <= 8,
    decreases n,
{
    if n >= 16 {
        lemma_hex_len(n / 16);
    }
}

/// Appends `n` in upper-case base sixteen, at least `width` digits wide.
pub fn push_hex_padded(out: &mut String, n: u32, width: usize)
    ensures
        final(out)@ == old(out)@ + hex_padded(n as nat, width as nat),
{
    let len = hex_len(n);
    let ghost start = out@;
    if len < width {
        let mut i: usize = len;
        while i < width
            invariant
                len <= i <= width,
                out@ == start + zeros((i - len) as nat),
            decreases width - i,
        {
            out.push('0');
            i += 1;
            assert(out@ =~= start + zeros((i - len) as nat));
        }
    } else {
        assert(out@ =~= start + zeros(0));
    }
    let ghost padded = out@;
    push_hex(out, n as u64);
    assert(final(out)@ =~= start + hex_padded(n as nat, width as nat));
}

/// Appends `n` in base ten.
pub fn push_decimal(out: &mut String, n: u64)
    ensures
        final(out)@ == old(out)@ + decimal(n as nat),
    decreases n,
{
    if n >= 10 {
        push_decimal(out, n / 10);
    }
    out.push(hex_char(n % 10));
    assert(final(out)@ =~= old(out)@ + decimal(n as nat));
}

/// Appends `i` in base ten, with its sign if it is negative.
pub fn push_signed(out: &mut String, i: i64)
    ensures
        final(out)@ == old(out)@ + signed_decimal(i as int),
{
    if i < 0 {
        out.push('-');
        let magnitude: u64 = if i == i64::MIN {
            0x8000_0000_0000_0000u64
        } else {
            (-i) as u64
        };
        push_decimal(out, magnitude);
        assert(final(out)@ =~= old(out)@ + signed_decimal(i as int));
    } else {
        push_decimal(out, i as u64);
    }
}

/// The characters of a string, one by one.
pub fn chars_of(s: &str) -> (v: Vec<char>)
    ensures
        v@ == s@,
{
    let mut v: Vec<char> = Vec::new();
    for c in iter: s.chars()
        invariant
            iter.seq() == s@,
            v@ == s@.take(iter.index()),
    {
        v.push(c);
        assert(v@ =~= s@.take(iter.index() + 1));
    }
    assert(v@ =~= s@);
    v
}

/// Joins the items into one text, with `sep` between neighbours.
pub fn join(items: &Vec<String>, sep: &str) -> (out: String)
    ensures
        out@ == joined(strings_view(items@), sep@),
{
    let mut out = String::new();
    let mut i: usize = 0;
    while i < items.len()
        invariant
            i <= items.len(),
            out@ == joined(strings_view(items@).take(i as int), sep@),
        decreases items.len() - i,
    {
        let ghost before = strings_view(items@).take(i as int);
        let ghost after = strings_view(items@).take(i + 1);
        if i > 0 {
            out.append(sep);
        }
        out.append(items[i].as_str());
        proof {
            assert(after.drop_last() =~= before);
            assert(after.last() == items@[i as int]@);
            if i == 0 {
                assert(out@ =~= after[0]);
            }
        }
        i += 1;
    }
    assert(strings_view(items@).take(i as int) =~= strings_view(items@));
    out
}

/// The text of each string in a list.
pub open spec fn strings_view(items: Seq<String>) -> Seq<Seq<char>> {
    Seq::new(items.len(), |i: int| items[i]@)
}

/// Adds indentation to each line of the given text.
pub fn indent(s: &str) -> (out: String)
    ensures
        out@ == indented(s@),
{
    let v = chars_of(s);
    let mut out = String::new();
    if v.len() == 0 {
        return out;
    }
    out.push(' ');
    out.push(' ');
    out.push(' ');
    out.push(' ');
    let mut i: usize = 0;
    assert(v@.skip(0) =~= v@);
    assert(out@ =~= seq![' ', ' ', ' ', ' ']);
    while i < v.len()
        invariant
            i <= v.len(),
            v@ == s@,
            v.len() > 0,
            out@ + indented_rest(v@.skip(i as int)) == indented(v@),
        decreases v.len() - i,
    {
        let ghost rest = v@.skip(i as int);
        let ghost before = out@;
        let c = v[i];
        assert(rest[0] == c);
        assert(rest.skip(1) =~= v@.skip(i + 1));
        if c == '\r' && i + 1 < v.len() && v[i + 1] == '\n' {
            assert(rest[1] == v@[i + 1]);
        } else if c == '\n' {
            if i + 1 < v.len() {
                out.push('\n');
                out.push(' ');
                out.push(' ');
                out.push(' ');
                out.push(' ');
                assert(out@ =~= before + seq!['\n', ' ', ' ', ' ', ' ']);
                assert(out@ + indented_rest(rest.skip(1)) =~= before + indented_rest(rest));
            } else {
                assert(rest.len() == 1);
                assert(indented_rest(rest.skip(1)) =~= Seq::<char>::empty());
                assert(out@ + indented_rest(rest.skip(1)) =~= before + indented_rest(rest));
            }
        } else {
            out.push(c);
            assert(out@ + indented_rest(rest.skip(1)) =~= before + indented_rest(rest));
        }
        i += 1;
    }
    assert(out@ + indented_rest(v@.skip(i as int)) =~= out@);
    out
}

/// The text up to its first underscore, or all of it if it has none.
pub open spec fn before_underscore(text: Seq<char>) -> Seq<char>
    decreases text.len(),
{
    if text.len() == 0 || text[0] == '_' {
        Seq::empty()
    } else {
        seq![text[0]] + before_underscore(text.skip(1))
    }
}

/// The name of the area that a map or a texture belongs to: its own name
/// up to the first underscore.
pub fn area_name(full: &str) -> (area: String)
    ensures
        area@ == before_underscore(full@),
{
    let chars = chars_of(full);
    let mut area = String::new();
    let mut i: usize = 0;
    assert(chars@.skip(0) =~= chars@);
    assert(area@ + before_underscore(chars@.skip(0)) =~= before_underscore(chars@));
    while i < chars.len() && chars[i] != '_'
        invariant
            i <= chars.len(),
            chars@ == full@,
            area@ + before_underscore(chars@.skip(i as int)) == before_underscore(chars@),
        decreases chars.len() - i,
    {
        let ghost rest = chars@.skip(i as int);
        let ghost before = area@;
        assert(rest[0] == chars@[i as int]);
        assert(rest.skip(1) =~= chars@.skip(i + 1));
        area.push(chars[i]);
        assert(area@ + before_underscore(rest.skip(1)) =~= before + before_underscore(rest));
        i += 1;
    }
    proof {
        let rest = chars@.skip(i as int);
        if i < chars.len() {
            assert(rest[0] == chars@[i as int]);
        }
        assert(before_underscore(rest) =~= Seq::<char>::empty());
        assert(area@ + before_underscore(rest) =~= area@);
    }
    area
}

} // verus!
