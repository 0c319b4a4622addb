//! Text, character by character.
//!
//! The program says a great deal in sentences with numbers in them, and reads
//! one file that people edit by hand. Both need the same few pieces: numbers
//! written out in decimal, numbers read back, blanks skipped.

use vstd::prelude::*;

verus! {

/// `String::push` puts one character at the end and leaves the rest alone.
pub assume_specification[ String::push ](s: &mut String, c: char)
    ensures
        final(s)@ == old(s)@.push(c),
;

/// What `String::from_utf8_lossy` makes of a run of bytes.
pub uninterp spec fn lossy(bytes: Seq<u8>) -> Seq<char>;

/// `String::from_utf8_lossy`, as an owned string: a function of the bytes, and
/// where they are UTF-8 the text they encode. What stands in for bytes that
/// are not is left unsaid.
#[verifier::external_body]
pub(crate) fn from_utf8_lossy(bytes: &Vec<u8>) -> (r: String)
    ensures
        r@ == lossy(bytes@),
        vstd::utf8::valid_utf8(bytes@) ==> r@ == vstd::utf8::decode_utf8(bytes@),
{
    String::from_utf8_lossy(bytes).into_owned()
}

/// Whether two pieces of text are the same, character for character.
pub fn same(a: &str, b: &str) -> (r: bool)
    ensures
        r == (a@ == b@),
{
    a.to_owned() == b.to_owned()
}

/// The characters of a piece of text.
pub fn chars_of(s: &str) -> (r: Vec<char>)
    ensures
        r@ == s@,
{
    let mut r: Vec<char> = Vec::new();
    for c in it: s.chars()
        invariant
            r@ == it.seq().take(it.index()),
            it.seq() == s@,
    {
        r.push(c);
    }
    proof {
        assert(s@.take(s@.len() as int) == s@);
    }
    r
}

/// The text a run of characters spells.
pub fn string_of(chars: &Vec<char>) -> (r: String)
    ensures
        r@ == chars@,
{
    let mut r = String::new();
    let mut i: usize = 0;
    while i < chars.len()
        invariant
            i <= chars@.len(),
            r@ == chars@.take(i as int),
        decreases chars@.len() - i,
    {
        r.push(chars[i]);
        proof {
            assert(chars@.take(i as int).push(chars@[i as int]) == chars@.take(i + 1));
        }
        i += 1;
    }
    proof {
        assert(chars@.take(chars@.len() as int) == chars@);
    }
    r
}

/// A digit as the character that writes it.
pub open spec fn digit(n: int) -> char {
    (('0' as int) + n) as char
}

/// A number written out in decimal, without leading zeros.
pub open spec fn decimal_nat(n: nat) -> Seq<char>
    decreases n,
{
    if n < 10 {
        seq![digit(n as int)]
    } else {
        decimal_nat(n / 10).push(digit((n % 10) as int))
    }
}

/// A number written out in decimal, with a minus sign in front when negative.
pub open spec fn decimal(n: int) -> Seq<char> {
    if n < 0 {
        seq!['-'] + decimal_nat((-n) as nat)
    } else {
        decimal_nat(n as nat)
    }
}

/// The character that writes a digit.
fn digit_char(n: u64) -> (c: char)
    requires
        n < 10,
    ensures
        c == digit(n as int),
{
    (48u8 + (n as u8)) as char
}

/// Adds a number, in decimal, to the end of a piece of text.
pub fn push_u64(s: &mut String, n: u64)
    ensures
        final(s)@ == old(s)@ + decimal_nat(n as nat),
    decreases n,
{
    if n < 10 {
        s.push(digit_char(n));
        proof {
            assert(old(s)@.push(digit(n as int)) == old(s)@ + seq![digit(n as int)]);
        }
    } else {
        push_u64(s, n / 10);
        s.push(digit_char(n % 10));
        proof {
            assert((old(s)@ + decimal_nat((n / 10) as nat)).push(digit((n % 10) as int))
                == old(s)@ + decimal_nat((n / 10) as nat).push(digit((n % 10) as int)));
        }
    }
}

/// Adds a number, in decimal and signed when negative, to the end of a piece
/// of text.
pub fn push_i32(s: &mut String, n: i32)
    ensures
        final(s)@ == old(s)@ + decimal(n as int),
{
    if n < 0 {
        s.push('-');
        let magnitude: u64 = (-(n as i64)) as u64;
        push_u64(s, magnitude);
        proof {
            assert(old(s)@.push('-') + decimal_nat(magnitude as nat) == old(s)@ + (seq!['-']
                + decimal_nat(magnitude as nat)));
        }
    } else {
        push_u64(s, n as u64);
    }
}

/// A number below sixteen as the character that writes it in hexadecimal.
pub open spec fn hex_digit(n: int) -> char {
    if n < 10 {
        digit(n)
    } else {
        (('a' as int) + (n - 10)) as char
    }
}

/// A byte as two hexadecimal digits.
pub open spec fn hex_byte(b: u8) -> Seq<char> {
    seq![hex_digit(b as int / 16), hex_digit(b as int % 16)]
}

/// A byte the way a register is written: `0x` and two hexadecimal digits.
pub open spec fn hex_register(b: u8) -> Seq<char> {
    "0x"@ + hex_byte(b)
}

/// A port number the way ports are written: `0x` and four hexadecimal digits.
pub open spec fn hex_port(p: u16) -> Seq<char> {
    "0x"@ + hex_byte((p / 256) as u8) + hex_byte((p % 256) as u8)
}

/// The character that writes a number below sixteen in hexadecimal.
fn hex_char(n: u8) -> (c: char)
    requires
        n < 16,
    ensures
        c == hex_digit(n as int),
{
    if n < 10 {
        (48u8 + n) as char
    } else {
        (97u8 + (n - 10)) as char
    }
}

/// Adds a byte, as two hexadecimal digits, to the end of a piece of text.
pub fn push_hex_byte(s: &mut String, b: u8)
    ensures
        final(s)@ == old(s)@ + hex_byte(b),
{
    s.push(hex_char(b / 16));
    s.push(hex_char(b % 16));
    proof {
        assert(old(s)@.push(hex_digit(b as int / 16)).push(hex_digit(b as int % 16)) == old(s)@
            + hex_byte(b));
    }
}

/// Adds a register value, `0x` and two digits, to the end of a piece of text.
pub fn push_hex_register(s: &mut String, b: u8)
    ensures
        final(s)@ == old(s)@ + hex_register(b),
{
    s.append("0x");
    push_hex_byte(s, b);
    proof {
        assert(old(s)@ + "0x"@ + hex_byte(b) == old(s)@ + ("0x"@ + hex_byte(b)));
    }
}

/// Adds a port number, `0x` and four digits, to the end of a piece of text.
pub fn push_hex_port(s: &mut String, p: u16)
    ensures
        final(s)@ == old(s)@ + hex_port(p),
{
    s.append("0x");
    let high: u8 = (p / 256) as u8;
    let low: u8 = (p % 256) as u8;
    push_hex_byte(s, high);
    push_hex_byte(s, low);
    proof {
        assert(old(s)@ + "0x"@ + hex_byte(high) + hex_byte(low) == old(s)@ + ("0x"@ + hex_byte(high)
            + hex_byte(low)));
    }
}

/// A character with an ASCII capital made small, and any other left alone.
pub open spec fn lower(c: char) -> char {
    if 'A' <= c && c <= 'Z' {
        ((c as int) + 32) as char
    } else {
        c
    }
}

/// Text with its ASCII capitals made small.
pub open spec fn lowered(s: Seq<char>) -> Seq<char> {
    s.map_values(|c: char| lower(c))
}

/// A character with an ASCII capital made small.
pub fn lower_char(c: char) -> (r: char)
    ensures
        r == lower(c),
{
    if 'A' <= c && c <= 'Z' {
        ((c as u8) + 32u8) as char
    } else {
        c
    }
}

/// Text with its ASCII capitals made small.
pub fn lower_chars(s: &Vec<char>) -> (r: Vec<char>)
    ensures
        r@ == lowered(s@),
{
    let mut r: Vec<char> = Vec::new();
    let mut i: usize = 0;
    while i < s.len()
        invariant
            i <= s@.len(),
            r@.len() == i,
            forall|k: int| 0 <= k < i ==> r@[k] == lower(s@[k]),
        decreases s@.len() - i,
    {
        r.push(lower_char(s[i]));
        i += 1;
    }
    r
}

/// Whether text begins with a given piece.
pub open spec fn begins(s: Seq<char>, piece: Seq<char>) -> bool {
    piece.len() <= s.len() && s.take(piece.len() as int) == piece
}

/// Whether the characters begin with a given piece.
pub fn begins_with(s: &Vec<char>, piece: &str) -> (r: bool)
    ensures
        r == begins(s@, piece@),
{
    let p = chars_of(piece);
    if p.len() > s.len() {
        return false;
    }
    let mut i: usize = 0;
    while i < p.len()
        invariant
            i <= p@.len() <= s@.len(),
            p@ == piece@,
            forall|k: int| 0 <= k < i ==> s@[k] == p@[k],
        decreases p@.len() - i,
    {
        if s[i] != p[i] {
            proof {
                assert(s@.take(piece@.len() as int)[i as int] != piece@[i as int]);
            }
            return false;
        }
        i += 1;
    }
    proof {
        assert(s@.take(piece@.len() as int) == piece@);
    }
    true
}

/// Whether a piece stands in a text at a place.
pub open spec fn stands_at(s: Seq<char>, piece: Seq<char>, i: int) -> bool {
    0 <= i && i + piece.len() <= s.len() && s.subrange(i, i + piece.len()) == piece
}

/// Whether a piece stands anywhere in a text.
pub open spec fn holds(s: Seq<char>, piece: Seq<char>) -> bool {
    exists|i: int| #[trigger] stands_at(s, piece, i)
}

/// Whether a piece stands anywhere in a text.
pub fn contains(s: &str, piece: &str) -> (r: bool)
    ensures
        r == holds(s@, piece@),
{
    let text = chars_of(s);
    let p = chars_of(piece);
    if p.len() > text.len() {
        proof {
            assert forall|i: int| !(#[trigger] stands_at(s@, piece@, i)) by {}
        }
        return false;
    }
    let last: usize = text.len() - p.len();
    let mut i: usize = 0;
    while i <= last
        invariant
            text@ == s@,
            p@ == piece@,
            p@.len() <= text@.len(),
            text@.len() == text.len(),
            last == text@.len() - p@.len(),
            i <= last,
            forall|h: int| 0 <= h < i ==> !(#[trigger] stands_at(s@, piece@, h)),
        decreases last + 1 - i,
    {
        let here = part(&text, i, i + p.len());
        let mut k: usize = 0;
        let mut alike = true;
        while k < p.len()
            invariant
                k <= p@.len() == here@.len(),
                alike == (forall|h: int| 0 <= h < k ==> here@[h] == p@[h]),
            decreases p@.len() - k,
        {
            if here[k] != p[k] {
                alike = false;
            }
            k += 1;
        }
        if alike {
            proof {
                assert(here@ =~= p@);
                assert(stands_at(s@, piece@, i as int));
            }
            return true;
        }
        if i == last {
            proof {
                assert forall|h: int| !(#[trigger] stands_at(s@, piece@, h)) by {}
            }
            return false;
        }
        i += 1;
    }
    false
}

/// The characters from one place up to, and not including, another.
pub fn part(s: &Vec<char>, from: usize, to: usize) -> (r: Vec<char>)
    requires
        from <= to <= s@.len(),
    ensures
        r@ == s@.subrange(from as int, to as int),
{
    let mut r: Vec<char> = Vec::new();
    let mut i: usize = from;
    while i < to
        invariant
            from <= i <= to <= s@.len(),
            r@ == s@.subrange(from as int, i as int),
        decreases to - i,
    {
        r.push(s[i]);
        i += 1;
        proof {
            assert(s@.subrange(from as int, i - 1).push(s@[i - 1]) == s@.subrange(
                from as int,
                i as int,
            ));
        }
    }
    r
}

/// Whether a character is white space.
pub open spec fn white(c: char) -> bool {
    let n = c as u32;
    ||| 0x09 <= n <= 0x0d
    ||| n == 0x20
    ||| n == 0x85
    ||| n == 0xa0
    ||| n == 0x1680
    ||| 0x2000 <= n <= 0x200a
    ||| n == 0x2028
    ||| n == 0x2029
    ||| n == 0x202f
    ||| n == 0x205f
    ||| n == 0x3000
}

/// Whether a character is white space.
pub fn is_white(c: char) -> (r: bool)
    ensures
        r == white(c),
{
    let n: u32 = c as u32;
    (0x09 <= n && n <= 0x0d) || n == 0x20 || n == 0x85 || n == 0xa0 || n == 0x1680 || (0x2000 <= n
        && n <= 0x200a) || n == 0x2028 || n == 0x2029 || n == 0x202f || n == 0x205f || n == 0x3000
}

/// The place of the first such character from place `i` on, or the end.
pub open spec fn find(s: Seq<char>, c: char, i: int) -> int
    decreases s.len() - i,
{
    if i >= s.len() {
        s.len() as int
    } else if s[i] == c {
        i
    } else {
        find(s, c, i + 1)
    }
}

/// What is found is the first such character from a place on; the end stands
/// for there being none.
pub proof fn what_is_found(s: Seq<char>, c: char, i: int)
    requires
        0 <= i <= s.len(),
    ensures
        i <= find(s, c, i) <= s.len(),
        find(s, c, i) < s.len() ==> s[find(s, c, i)] == c,
        forall|k: int| i <= k < find(s, c, i) ==> #[trigger] s[k] != c,
    decreases s.len() - i,
{
    if i < s.len() && s[i] != c {
        what_is_found(s, c, i + 1);
    }
}

/// The place of the first such character from a place on, or the end.
pub fn find_char(s: &Vec<char>, c: char, from: usize) -> (r: usize)
    requires
        from <= s@.len(),
    ensures
        r == find(s@, c, from as int),
        from <= r <= s@.len(),
        r < s@.len() ==> s@[r as int] == c,
{
    let mut i: usize = from;
    while i < s.len()
        invariant
            from <= i <= s@.len(),
            find(s@, c, from as int) == find(s@, c, i as int),
        decreases s@.len() - i,
    {
        if s[i] == c {
            return i;
        }
        i += 1;
    }
    i
}

/// A line without the carriage return that may end it.
pub open spec fn chomped(line: Seq<char>) -> Seq<char> {
    if line.len() > 0 && line.last() == '\r' {
        line.drop_last()
    } else {
        line
    }
}

/// The lines of a text: what line feeds end, each without a carriage return
/// before it, and what is left behind the last of them.
pub open spec fn lines(s: Seq<char>) -> Seq<Seq<char>>
    decreases s.len(),
{
    if s.len() == 0 {
        Seq::empty()
    } else {
        let k = find(s, '\n', 0);
        if k >= s.len() || k < 0 {
            seq![s]
        } else {
            seq![chomped(s.take(k))] + lines(s.skip(k + 1))
        }
    }
}

/// Runs of characters, mathematically.
pub open spec fn runs(v: Seq<Vec<char>>) -> Seq<Seq<char>> {
    v.map_values(|r: Vec<char>| r@)
}

/// The lines of a text.
pub fn split_lines(s: &Vec<char>) -> (r: Vec<Vec<char>>)
    ensures
        runs(r@) == lines(s@),
{
    let mut r: Vec<Vec<char>> = Vec::new();
    let mut from: usize = 0;
    proof {
        assert(s@.skip(0) == s@);
        assert(runs(r@) + lines(s@) == lines(s@));
    }
    while from < s.len()
        invariant
            from <= s@.len(),
            runs(r@) + lines(s@.skip(from as int)) == lines(s@),
        decreases s@.len() - from,
    {
        let ghost rest = s@.skip(from as int);
        let ghost before = runs(r@);
        let k = find_char(s, '\n', from);
        proof {
            find_skips(s@, '\n', from as int, 0);
        }
        if k >= s.len() {
            r.push(part(s, from, k));
            proof {
                assert(s@.subrange(from as int, k as int) == rest);
                assert(runs(r@) =~= before.push(rest));
                assert(before + seq![rest] == before.push(rest));
            }
            return r;
        }
        let mut end: usize = k;
        if end > from && s[end - 1] == '\r' {
            end -= 1;
        }
        let line = part(s, from, end);
        proof {
            let whole = rest.take(k - from);
            assert(whole == s@.subrange(from as int, k as int));
            if k > from {
                assert(whole.last() == s@[k - 1]);
                assert(whole.drop_last() == s@.subrange(from as int, k - 1));
            }
            assert(line@ == chomped(whole));
            assert(rest.skip(k - from + 1) == s@.skip(k + 1));
        }
        r.push(line);
        from = k + 1;
        proof {
            let later = lines(s@.skip(from as int));
            assert(runs(r@) =~= before.push(line@));
            assert(before.push(line@) + later == before + (seq![line@] + later));
        }
    }
    proof {
        assert(s@.skip(from as int).len() == 0);
        assert(runs(r@) + Seq::<Seq<char>>::empty() == runs(r@));
    }
    r
}

proof fn find_skips(s: Seq<char>, c: char, from: int, i: int)
    requires
        0 <= from <= s.len(),
        0 <= i,
        from + i <= s.len(),
    ensures
        find(s.skip(from), c, i) == find(s, c, from + i) - from,
    decreases s.len() - from - i,
{
    if from + i < s.len() {
        assert(s.skip(from)[i] == s[from + i]);
        find_skips(s, c, from, i + 1);
    }
}

/// Text without the white space in front of it.
pub open spec fn trim_start(s: Seq<char>) -> Seq<char>
    decreases s.len(),
{
    if s.len() > 0 && white(s[0]) {
        trim_start(s.skip(1))
    } else {
        s
    }
}

/// Text without the white space behind it.
pub open spec fn trim_end(s: Seq<char>) -> Seq<char>
    decreases s.len(),
{
    if s.len() > 0 && white(s.last()) {
        trim_end(s.drop_last())
    } else {
        s
    }
}

/// Text without the white space around it.
pub open spec fn trimmed(s: Seq<char>) -> Seq<char> {
    trim_end(trim_start(s))
}

/// Where text begins behind the white space in front of it, from a place on.
fn skip_white(s: &Vec<char>, from: usize) -> (r: usize)
    requires
        from <= s@.len(),
    ensures
        from <= r <= s@.len(),
        trim_start(s@.skip(from as int)) == s@.skip(r as int),
        r < s@.len() ==> !white(s@[r as int]),
{
    let mut i: usize = from;
    while i < s.len() && is_white(s[i])
        invariant
            from <= i <= s@.len(),
            trim_start(s@.skip(from as int)) == trim_start(s@.skip(i as int)),
        decreases s@.len() - i,
    {
        proof {
            assert(s@.skip(i as int)[0] == s@[i as int]);
            assert(s@.skip(i as int).skip(1) == s@.skip(i + 1));
        }
        i += 1;
    }
    proof {
        if i < s@.len() {
            assert(s@.skip(i as int)[0] == s@[i as int]);
        }
    }
    i
}

/// Text without the white space around it.
pub fn trim(s: &Vec<char>) -> (r: Vec<char>)
    ensures
        r@ == trimmed(s@),
{
    proof {
        assert(s@.skip(0) == s@);
    }
    let from = skip_white(s, 0);
    let ghost rest = s@.skip(from as int);
    let mut to: usize = s.len();
    proof {
        assert(s@.subrange(from as int, to as int) == rest);
    }
    while to > from && is_white(s[to - 1])
        invariant
            from <= to <= s@.len(),
            trim_end(rest) == trim_end(s@.subrange(from as int, to as int)),
        decreases to,
    {
        proof {
            let now = s@.subrange(from as int, to as int);
            assert(now.last() == s@[to - 1]);
            assert(now.drop_last() == s@.subrange(from as int, to - 1));
        }
        to -= 1;
    }
    proof {
        if to > from {
            assert(s@.subrange(from as int, to as int).last() == s@[to - 1]);
        }
    }
    part(s, from, to)
}

/// Where the word at place `i` ends.
pub open spec fn word_end(s: Seq<char>, i: int) -> int
    decreases s.len() - i,
{
    if i >= s.len() {
        s.len() as int
    } else if white(s[i]) {
        i
    } else {
        word_end(s, i + 1)
    }
}

proof fn word_end_is_later(s: Seq<char>, i: int)
    requires
        0 <= i <= s.len(),
    ensures
        i <= word_end(s, i) <= s.len(),
        i < s.len() && !white(s[i]) ==> i < word_end(s, i),
    decreases s.len() - i,
{
    if i < s.len() && !white(s[i]) {
        word_end_is_later(s, i + 1);
    }
}

/// The words of a text: what stands between white space.
pub open spec fn words(s: Seq<char>) -> Seq<Seq<char>>
    decreases s.len(),
    when true via words_decreases
{
    let t = trim_start(s);
    if t.len() == 0 {
        Seq::empty()
    } else {
        let k = word_end(t, 0);
        seq![t.take(k)] + words(t.skip(k))
    }
}

proof fn trim_start_is_shorter(s: Seq<char>)
    ensures
        trim_start(s).len() <= s.len(),
        trim_start(s).len() > 0 ==> !white(trim_start(s)[0]),
    decreases s.len(),
{
    if s.len() > 0 && white(s[0]) {
        trim_start_is_shorter(s.skip(1));
    }
}

#[via_fn]
proof fn words_decreases(s: Seq<char>) {
    trim_start_is_shorter(s);
    let t = trim_start(s);
    if t.len() > 0 {
        word_end_is_later(t, 0);
    }
}

proof fn word_end_skips(s: Seq<char>, from: int, i: int)
    requires
        0 <= from <= s.len(),
        0 <= i,
        from + i <= s.len(),
    ensures
        word_end(s.skip(from), i) == word_end(s, from + i) - from,
    decreases s.len() - from - i,
{
    if from + i < s.len() {
        assert(s.skip(from)[i] == s[from + i]);
        word_end_skips(s, from, i + 1);
    }
}

/// The words of a text.
pub fn split_words(s: &Vec<char>) -> (r: Vec<Vec<char>>)
    ensures
        runs(r@) == words(s@),
{
    let mut r: Vec<Vec<char>> = Vec::new();
    let mut from: usize = 0;
    proof {
        assert(s@.skip(0) == s@);
        assert(runs(r@) + words(s@) == words(s@));
    }
    while from < s.len()
        invariant
            from <= s@.len(),
            runs(r@) + words(s@.skip(from as int)) == words(s@),
        decreases s@.len() - from,
    {
        let ghost before = runs(r@);
        let start = skip_white(s, from);
        let ghost t = s@.skip(start as int);
        if start >= s.len() {
            proof {
                assert(t.len() == 0);
                assert(before + Seq::<Seq<char>>::empty() == before);
            }
            return r;
        }
        let mut end: usize = start;
        while end < s.len() && !is_white(s[end])
            invariant
                start <= end <= s@.len(),
                word_end(s@, start as int) == word_end(s@, end as int),
            decreases s@.len() - end,
        {
            end += 1;
        }
        proof {
            word_end_is_later(s@, start as int);
            word_end_skips(s@, start as int, 0);
            assert(word_end(t, 0) == end - start);
            assert(t.take(end - start) == s@.subrange(start as int, end as int));
            assert(t.skip(end - start) == s@.skip(end as int));
        }
        let word = part(s, start, end);
        r.push(word);
        from = end;
        proof {
            let later = words(s@.skip(from as int));
            assert(runs(r@) =~= before.push(word@));
            assert(before.push(word@) + later == before + (seq![word@] + later));
        }
    }
    proof {
        assert(s@.skip(from as int).len() == 0);
        assert(trim_start(s@.skip(from as int)).len() == 0);
        assert(runs(r@) + Seq::<Seq<char>>::empty() == runs(r@));
    }
    r
}

/// Pieces of text with something between each two.
pub open spec fn joined(pieces: Seq<Seq<char>>, between: Seq<char>) -> Seq<char>
    decreases pieces.len(),
{
    if pieces.len() == 0 {
        Seq::empty()
    } else if pieces.len() == 1 {
        pieces[0]
    } else {
        joined(pieces.drop_last(), between) + between + pieces.last()
    }
}

/// Text, mathematically.
pub open spec fn texts(v: Seq<String>) -> Seq<Seq<char>> {
    v.map_values(|s: String| s@)
}

/// Pieces of text with something between each two.
pub fn join_texts(pieces: &Vec<String>, between: &str) -> (r: String)
    ensures
        r@ == joined(texts(pieces@), between@),
{
    let ghost all = texts(pieces@);
    let mut r = String::new();
    let mut i: usize = 0;
    proof {
        assert(all.take(0) =~= Seq::empty());
        assert(r@ =~= joined(all.take(0), between@));
    }
    while i < pieces.len()
        invariant
            i <= pieces@.len(),
            all == texts(pieces@),
            r@ == joined(all.take(i as int), between@),
        decreases pieces@.len() - i,
    {
        proof {
            assert(all.take(i + 1).drop_last() =~= all.take(i as int));
            assert(all.take(i + 1).last() == pieces@[i as int]@);
        }
        let ghost text = r@;
        if i > 0 {
            r.append(between);
        }
        r.append(pieces[i].as_str());
        proof {
            if i == 0 {
                assert(r@ =~= joined(all.take(1), between@));
            } else {
                assert(r@ =~= text + between@ + pieces@[i as int]@);
            }
        }
        i += 1;
    }
    proof {
        assert(all.take(all.len() as int) =~= all);
    }
    r
}

/// Text as sixteen bit units, the way the system takes it: a character beyond
/// the first 65536 takes two.
pub open spec fn units(s: Seq<char>) -> Seq<u16>
    decreases s.len(),
{
    if s.len() == 0 {
        Seq::empty()
    } else {
        units(s.drop_last()) + unit(s.last())
    }
}

/// One character as sixteen bit units.
pub open spec fn unit(c: char) -> Seq<u16> {
    let n = c as int;
    if n < 0x1_0000 {
        seq![n as u16]
    } else {
        seq![
            (0xd800 + (n - 0x1_0000) / 0x400) as u16,
            (0xdc00 + (n - 0x1_0000) % 0x400) as u16,
        ]
    }
}

/// Adds a character, as sixteen bit units, to the end of some.
fn push_unit(v: &mut Vec<u16>, c: char)
    ensures
        final(v)@ == old(v)@ + unit(c),
{
    let n: u32 = c as u32;
    if n < 0x1_0000 {
        v.push(n as u16);
        proof {
            assert(v@ =~= old(v)@ + unit(c));
        }
    } else {
        let rest: u32 = n - 0x1_0000;
        v.push((0xd800 + rest / 0x400) as u16);
        v.push((0xdc00 + rest % 0x400) as u16);
        proof {
            assert(v@ =~= old(v)@ + unit(c));
        }
    }
}

/// Text as sixteen bit units with a zero behind them.
pub fn wide(s: &str) -> (r: Vec<u16>)
    ensures
        r@ == units(s@).push(0),
{
    let chars = chars_of(s);
    let mut r: Vec<u16> = Vec::new();
    let mut i: usize = 0;
    proof {
        assert(chars@.take(0) =~= Seq::<char>::empty());
    }
    while i < chars.len()
        invariant
            i <= chars@.len(),
            r@ == units(chars@.take(i as int)),
        decreases chars@.len() - i,
    {
        let c = chars[i];
        proof {
            assert(chars@.take(i + 1).drop_last() =~= chars@.take(i as int));
            assert(chars@.take(i + 1).last() == c);
        }
        push_unit(&mut r, c);
        i += 1;
    }
    proof {
        assert(chars@.take(chars@.len() as int) =~= s@);
    }
    r.push(0);
    r
}

/// Text with a carriage return put before every line feed.
pub open spec fn with_returns(s: Seq<char>) -> Seq<char>
    decreases s.len(),
{
    if s.len() == 0 {
        s
    } else if s.last() == '\n' {
        with_returns(s.drop_last()).push('\r').push('\n')
    } else {
        with_returns(s.drop_last()).push(s.last())
    }
}

/// Text with a carriage return put before every line feed, which is how an
/// edit control ends its lines.
pub fn to_returns(s: &str) -> (r: String)
    ensures
        r@ == with_returns(s@),
{
    let chars = chars_of(s);
    let mut r = String::new();
    let mut i: usize = 0;
    proof {
        assert(chars@.take(0) =~= Seq::<char>::empty());
    }
    while i < chars.len()
        invariant
            i <= chars@.len(),
            r@ == with_returns(chars@.take(i as int)),
        decreases chars@.len() - i,
    {
        let c = chars[i];
        proof {
            assert(chars@.take(i + 1).drop_last() =~= chars@.take(i as int));
            assert(chars@.take(i + 1).last() == c);
        }
        if c == '\n' {
            r.push('\r');
        }
        r.push(c);
        i += 1;
    }
    proof {
        assert(chars@.take(chars@.len() as int) =~= s@);
    }
    r
}

/// Whether a character is a decimal digit.
pub open spec fn is_digit(c: char) -> bool {
    '0' <= c && c <= '9'
}

/// Whether every character is a decimal digit.
pub open spec fn all_digits(s: Seq<char>) -> bool {
    forall|i: int| 0 <= i < s.len() ==> is_digit(#[trigger] s[i])
}

/// The number a run of decimal digits writes.
pub open spec fn number(s: Seq<char>) -> nat
    decreases s.len(),
{
    if s.len() == 0 {
        0
    } else {
        (number(s.drop_last()) * 10 + (s.last() as int - '0' as int)) as nat
    }
}

/// The digits of a written number: what stands behind its sign, if it has
/// one.
pub open spec fn unsigned_part(s: Seq<char>) -> Seq<char> {
    if s.len() > 0 && (s[0] == '-' || s[0] == '+') {
        s.skip(1)
    } else {
        s
    }
}

/// The number a piece of text writes: digits, at least one, behind at most
/// one sign, within what 32 bits hold.
pub open spec fn integer(s: Seq<char>) -> Option<i32> {
    let digits = unsigned_part(s);
    if digits.len() == 0 || !all_digits(digits) {
        None
    } else {
        let n = if s[0] == '-' {
            -(number(digits) as int)
        } else {
            number(digits) as int
        };
        if i32::MIN <= n <= i32::MAX {
            Some(n as i32)
        } else {
            None
        }
    }
}

/// The number a piece of text writes.
pub fn parse_integer(s: &Vec<char>) -> (r: Option<i32>)
    ensures
        r == integer(s@),
{
    if s.len() == 0 {
        return None;
    }
    let negative = s[0] == '-';
    let signed = negative || s[0] == '+';
    let from: usize = if signed {
        1
    } else {
        0
    };
    let ghost digits = unsigned_part(s@);
    proof {
        assert(digits == s@.skip(from as int));
    }
    if from == s.len() {
        return None;
    }
    // Past this, no 32 bit number is written, whatever follows.
    let limit: u64 = 0x8000_0000;
    let mut n: u64 = 0;
    let mut over = false;
    let mut i: usize = from;
    while i < s.len()
        invariant
            from <= i <= s@.len(),
            digits == unsigned_part(s@),
            digits == s@.skip(from as int),
            limit == 0x8000_0000u64,
            all_digits(digits.take(i - from)),
            over ==> number(digits.take(i - from)) > limit,
            !over ==> n == number(digits.take(i - from)) && n <= limit,
        decreases s@.len() - i,
    {
        let c = s[i];
        proof {
            let next = digits.take(i - from + 1);
            assert(next.drop_last() == digits.take(i - from));
            assert(next.last() == c);
            assert(digits[i - from] == c);
        }
        if !('0' <= c && c <= '9') {
            proof {
                assert(!is_digit(digits[i - from]));
            }
            return None;
        }
        proof {
            let next = digits.take(i - from + 1);
            assert forall|k: int| 0 <= k < next.len() implies is_digit(#[trigger] next[k]) by {
                if k < i - from {
                    assert(next[k] == digits.take(i - from)[k]);
                }
            }
        }
        if !over {
            let d: u64 = (c as u32 - 48) as u64;
            n = n * 10 + d;
            if n > limit {
                over = true;
            }
        }
        i += 1;
    }
    proof {
        assert(digits.take(i - from) == digits);
    }
    if over {
        return None;
    }
    if negative {
        Some((-(n as i64)) as i32)
    } else if n < limit {
        Some(n as i32)
    } else {
        None
    }
}

/// A number written out reads back: decimal digits only, at least one, no
/// leading zero but for zero itself, and worth the number.
pub proof fn a_number_written_reads_back(n: nat)
    ensures
        decimal_nat(n).len() > 0,
        all_digits(decimal_nat(n)),
        number(decimal_nat(n)) == n,
        n > 0 ==> decimal_nat(n)[0] != '0',
        n == 0 ==> decimal_nat(n) == seq!['0'],
    decreases n,
{
    if n < 10 {
        let s = decimal_nat(n);
        assert(s.drop_last() =~= Seq::<char>::empty());
        assert(number(s.drop_last()) == 0);
        assert(s.last() as int == '0' as int + n);
    } else {
        a_number_written_reads_back(n / 10);
        let s = decimal_nat(n);
        assert(s.drop_last() =~= decimal_nat(n / 10));
        assert(s.last() as int == '0' as int + n % 10);
        assert forall|i: int| 0 <= i < s.len() implies is_digit(#[trigger] s[i]) by {
            if i < s.len() - 1 {
                assert(s[i] == decimal_nat(n / 10)[i]);
            }
        }
        assert(s[0] == decimal_nat(n / 10)[0]);
    }
}

/// A whole number of 32 bits written out, minus sign and all, is read as
/// itself.
pub proof fn an_integer_written_reads_back(n: i32)
    ensures
        integer(decimal(n as int)) == Some(n),
{
    let s = decimal(n as int);
    if n < 0 {
        let m = (-(n as int)) as nat;
        a_number_written_reads_back(m);
        assert(s[0] == '-');
        assert(s.skip(1) =~= decimal_nat(m));
    } else {
        a_number_written_reads_back(n as nat);
        assert(is_digit(s[0]));
        assert(s[0] != '-' && s[0] != '+');
    }
}

/// What a hexadecimal digit is worth.
pub open spec fn hex_value(c: char) -> int {
    if '0' <= c && c <= '9' {
        c as int - '0' as int
    } else {
        c as int - 'a' as int + 10
    }
}

/// A byte in hexadecimal is two small digits worth the byte, a register `0x`
/// and those two, and a port `0x` and four.
pub proof fn hexadecimal_reads_back(b: u8, p: u16)
    ensures
        hex_byte(b).len() == 2,
        16 * hex_value(hex_byte(b)[0]) + hex_value(hex_byte(b)[1]) == b,
        forall|i: int|
            0 <= i < 2 ==> ('0' <= #[trigger] hex_byte(b)[i] && hex_byte(b)[i] <= '9') || ('a'
                <= hex_byte(b)[i] && hex_byte(b)[i] <= 'f'),
        hex_register(b).len() == 4,
        hex_register(b)[0] == '0' && hex_register(b)[1] == 'x',
        16 * hex_value(hex_register(b)[2]) + hex_value(hex_register(b)[3]) == b,
        hex_port(p).len() == 6,
        hex_port(p)[0] == '0' && hex_port(p)[1] == 'x',
        4096 * hex_value(hex_port(p)[2]) + 256 * hex_value(hex_port(p)[3]) + 16 * hex_value(
            hex_port(p)[4],
        ) + hex_value(hex_port(p)[5]) == p,
{
    reveal_strlit("0x");
    assert("0x"@.len() == 2 && "0x"@[0] == '0' && "0x"@[1] == 'x');
    let high = (p / 256) as u8;
    let low = (p % 256) as u8;
    assert(hex_port(p)[2] == hex_byte(high)[0] && hex_port(p)[3] == hex_byte(high)[1]);
    assert(hex_port(p)[4] == hex_byte(low)[0] && hex_port(p)[5] == hex_byte(low)[1]);
    assert(hex_register(b)[2] == hex_byte(b)[0] && hex_register(b)[3] == hex_byte(b)[1]);
}

/// Lowering moves each of the 26 ASCII capitals to its small letter and
/// nothing else.
pub proof fn only_capitals_are_lowered(s: Seq<char>, i: int)
    requires
        0 <= i < s.len(),
    ensures
        lowered(s).len() == s.len(),
        'A' <= s[i] && s[i] <= 'Z' ==> lowered(s)[i] as int - 'a' as int == s[i] as int - 'A' as int,
        !('A' <= s[i] && s[i] <= 'Z') ==> lowered(s)[i] == s[i],
{
}

proof fn trimming_the_start(s: Seq<char>) -> (k: int)
    ensures
        0 <= k <= s.len(),
        trim_start(s) == s.subrange(k, s.len() as int),
        forall|i: int| 0 <= i < k ==> white(#[trigger] s[i]),
        k < s.len() ==> !white(s[k]),
    decreases s.len(),
{
    if s.len() > 0 && white(s[0]) {
        let rest = s.skip(1);
        let k = trimming_the_start(rest);
        assert(rest.subrange(k, rest.len() as int) =~= s.subrange(k + 1, s.len() as int));
        assert forall|i: int| 0 <= i < k + 1 implies white(#[trigger] s[i]) by {
            if i > 0 {
                assert(rest[i - 1] == s[i]);
            }
        }
        if k < rest.len() {
            assert(rest[k] == s[k + 1]);
        }
        k + 1
    } else {
        assert(s.subrange(0, s.len() as int) =~= s);
        0
    }
}

proof fn trimming_the_end(s: Seq<char>) -> (k: int)
    ensures
        0 <= k <= s.len(),
        trim_end(s) == s.subrange(0, k),
        forall|i: int| k <= i < s.len() ==> white(#[trigger] s[i]),
        k > 0 ==> !white(s[k - 1]),
    decreases s.len(),
{
    if s.len() > 0 && white(s.last()) {
        let rest = s.drop_last();
        let k = trimming_the_end(rest);
        assert(rest.subrange(0, k) =~= s.subrange(0, k));
        assert forall|i: int| k <= i < s.len() implies white(#[trigger] s[i]) by {
            if i < rest.len() {
                assert(rest[i] == s[i]);
            }
        }
        if k > 0 {
            assert(rest[k - 1] == s[k - 1]);
        }
        k
    } else {
        assert(s.subrange(0, s.len() as int) =~= s);
        s.len() as int
    }
}

/// Trimmed text is a stretch of the text, with nothing but white space on
/// either side of it and none at its ends.
pub proof fn trimming_takes_the_white_around(s: Seq<char>)
    ensures
        exists|i: int, j: int|
            {
                &&& 0 <= i <= j <= s.len()
                &&& trimmed(s) == #[trigger] s.subrange(i, j)
                &&& forall|k: int| 0 <= k < i ==> white(#[trigger] s[k])
                &&& forall|k: int| j <= k < s.len() ==> white(#[trigger] s[k])
                &&& i < j ==> !white(s[i]) && !white(s[j - 1])
            },
{
    let i = trimming_the_start(s);
    let rest = trim_start(s);
    let n = trimming_the_end(rest);
    let j = i + n;
    assert(rest.subrange(0, n) =~= s.subrange(i, j));
    assert forall|k: int| j <= k < s.len() implies white(#[trigger] s[k]) by {
        assert(rest[k - i] == s[k]);
    }
    if i < j {
        assert(rest[0] == s[i] && rest[n - 1] == s[j - 1]);
    }
}

proof fn where_a_word_ends(s: Seq<char>, i: int)
    requires
        0 <= i <= s.len(),
    ensures
        i <= word_end(s, i) <= s.len(),
        word_end(s, i) < s.len() ==> white(s[word_end(s, i)]),
        forall|k: int| i <= k < word_end(s, i) ==> !white(#[trigger] s[k]),
    decreases s.len() - i,
{
    if i < s.len() && !white(s[i]) {
        where_a_word_ends(s, i + 1);
    }
}

proof fn a_leading_blank_is_skipped(s: Seq<char>)
    requires
        s.len() > 0,
        white(s[0]),
    ensures
        words(s) == words(s.skip(1)),
{
    assert(trim_start(s) == trim_start(s.skip(1)));
}

/// Words are apart by white space and by nothing else: a run without any is
/// one word, and around any white space the words are those before it and
/// those behind it.
pub proof fn words_are_apart_by_white_space(a: Seq<char>, c: char, b: Seq<char>)
    requires
        white(c),
    ensures
        words(seq![]) == Seq::<Seq<char>>::empty(),
        a.len() > 0 && (forall|i: int| 0 <= i < a.len() ==> !white(#[trigger] a[i])) ==> words(a)
            == seq![a],
        words(a.push(c) + b) == words(a) + words(b),
    decreases a.len(),
{
    let whole = a.push(c) + b;
    assert(words(Seq::<char>::empty()) =~= Seq::<Seq<char>>::empty());
    if a.len() == 0 {
        assert(whole.skip(1) =~= b);
        a_leading_blank_is_skipped(whole);
        assert(words(a) =~= Seq::<Seq<char>>::empty());
        assert(words(a) + words(b) =~= words(b));
    } else if white(a[0]) {
        let rest = a.skip(1);
        assert(whole.skip(1) =~= rest.push(c) + b);
        a_leading_blank_is_skipped(whole);
        a_leading_blank_is_skipped(a);
        words_are_apart_by_white_space(rest, c, b);
    } else {
        assert(trim_start(a) == a);
        assert(whole[0] == a[0]);
        assert(trim_start(whole) == whole);
        where_a_word_ends(a, 0);
        where_a_word_ends(whole, 0);
        let k = word_end(a, 0);
        let w = word_end(whole, 0);
        if w < k {
            assert(whole[w] == a[w]);
        }
        if w > k {
            if k < a.len() {
                assert(whole[k] == a[k]);
            } else {
                assert(whole[k] == c);
            }
        }
        assert(w == k);
        assert(whole.take(k) =~= a.take(k));
        let rest = a.skip(k);
        if k == 0 {
            assert(white(a[0]));
        }
        assert(whole.skip(k) =~= rest.push(c) + b);
        words_are_apart_by_white_space(rest, c, b);
        assert(words(whole) == seq![whole.take(k)] + words(whole.skip(k)));
        assert(words(a) == seq![a.take(k)] + words(rest));
        assert(words(whole) =~= words(a) + words(b));
        if forall|i: int| 0 <= i < a.len() ==> !white(#[trigger] a[i]) {
            assert(k == a.len());
            assert(a.take(k) =~= a);
            assert(rest =~= Seq::empty());
            assert(words(a) =~= seq![a]);
        }
    }
}

/// Lines are apart by line feeds: what stands before the first one is a line,
/// less a carriage return at its end, and what stands behind it are the rest;
/// text without one is a line where there is any.
pub proof fn lines_are_apart_by_line_feeds(a: Seq<char>, b: Seq<char>)
    requires
        forall|i: int| 0 <= i < a.len() ==> #[trigger] a[i] != '\n',
    ensures
        lines(seq![]) == Seq::<Seq<char>>::empty(),
        a.len() > 0 ==> lines(a) == seq![a],
        lines(a.push('\n') + b) == seq![
            if a.len() > 0 && a[a.len() - 1] == '\r' {
                a.take(a.len() - 1)
            } else {
                a
            },
        ] + lines(b),
{
    let whole = a.push('\n') + b;
    what_is_found(a, '\n', 0);
    if find(a, '\n', 0) < a.len() {
        assert(a[find(a, '\n', 0)] == '\n');
    }
    what_is_found(whole, '\n', 0);
    let k = find(whole, '\n', 0);
    assert(whole[a.len() as int] == '\n');
    if k < a.len() {
        assert(whole[k] == a[k]);
    }
    assert(k == a.len());
    assert(whole.take(k) =~= a);
    assert(whole.skip(k + 1) =~= b);
    assert(a.len() > 0 ==> a.drop_last() =~= a.take(a.len() - 1));
}

/// What is put behind a text stands in it.
pub proof fn it_stands_at_the_end(a: Seq<char>, b: Seq<char>)
    ensures
        holds(a + b, b),
{
    assert((a + b).subrange(a.len() as int, a.len() as int + b.len() as int) =~= b);
    assert(stands_at(a + b, b, a.len() as int));
}

/// What stands in a text still stands in it with more behind it.
pub proof fn it_still_stands(a: Seq<char>, b: Seq<char>, piece: Seq<char>)
    requires
        holds(a, piece),
    ensures
        holds(a + b, piece),
{
    let i = choose|i: int| #[trigger] stands_at(a, piece, i);
    assert((a + b).subrange(i, i + piece.len()) =~= a.subrange(i, i + piece.len()));
    assert(stands_at(a + b, piece, i));
}

/// Carriage returns are put before line feeds and nowhere else: each character
/// is kept as it is, and a line feed gets one in front of it.
pub proof fn only_line_feeds_get_a_return(a: Seq<char>, b: Seq<char>, c: char)
    ensures
        with_returns(seq![]) == Seq::<char>::empty(),
        with_returns(seq!['\n']) == seq!['\r', '\n'],
        c != '\n' ==> with_returns(seq![c]) == seq![c],
        with_returns(a + b) == with_returns(a) + with_returns(b),
    decreases b.len(),
{
    assert(seq!['\n'].drop_last() =~= Seq::empty());
    assert(seq![c].drop_last() =~= Seq::empty());
    assert(with_returns(Seq::<char>::empty()) =~= Seq::empty());
    assert(with_returns(seq!['\n']) =~= seq!['\r', '\n']);
    assert(c != '\n' ==> with_returns(seq![c]) =~= seq![c]);
    if b.len() == 0 {
        assert(a + b =~= a);
        assert(with_returns(a) + with_returns(b) =~= with_returns(a));
    } else {
        assert((a + b).drop_last() =~= a + b.drop_last());
        only_line_feeds_get_a_return(a, b.drop_last(), c);
        assert(with_returns(a + b) =~= with_returns(a) + with_returns(b));
    }
}

/// Pieces are joined in order with the same thing between each two and nothing
/// around them.
pub proof fn pieces_are_joined_in_order(
    pieces: Seq<Seq<char>>,
    last: Seq<char>,
    between: Seq<char>,
)
    ensures
        joined(seq![], between) == Seq::<char>::empty(),
        joined(seq![last], between) == last,
        pieces.len() > 0 ==> joined(pieces.push(last), between) == joined(pieces, between) + between
            + last,
{
    assert(pieces.push(last).drop_last() =~= pieces);
}

} // verus!
