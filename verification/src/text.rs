//! Text building blocks: decimal numbers, signs, padding, trimming.
use vstd::prelude::*;

verus! {

/// The character of one decimal digit.
pub open spec fn digit_char(d: int) -> char {
    (('0' as int) + d) as char
}

/// A natural number in decimal, without leading zeros.
pub open spec fn dec(n: nat) -> Seq<char>
    decreases n,
{
    if n < 10 {
        seq![digit_char(n as int)]
    } else {
        dec(n / 10).push(digit_char((n % 10) as int))
    }
}

fn digit_text(d: u64) -> (r: &'static str)
    requires
        d < 10,
    ensures
        r@ == seq![digit_char(d as int)],
{
    proof {
        reveal_strlit("0");
        reveal_strlit("1");
        reveal_strlit("2");
        reveal_strlit("3");
        reveal_strlit("4");
        reveal_strlit("5");
        reveal_strlit("6");
        reveal_strlit("7");
        reveal_strlit("8");
        reveal_strlit("9");
    }
    if d == 0 {
        "0"
    } else if d == 1 {
        "1"
    } else if d == 2 {
        "2"
    } else if d == 3 {
        "3"
    } else if d == 4 {
        "4"
    } else if d == 5 {
        "5"
    } else if d == 6 {
        "6"
    } else if d == 7 {
        "7"
    } else if d == 8 {
        "8"
    } else {
        "9"
    }
}

/// Writes `n` in decimal.
pub fn decimal(n: u64) -> (r: String)
    ensures
        r@ == dec(n as nat),
    decreases n,
{
    if n < 10 {
        let r = digit_text(n).to_owned();
        r
    } else {
        let mut r = decimal(n / 10);
        r.append(digit_text(n % 10));
        r
    }
}

/// An integer in decimal.
pub open spec fn signed(n: int) -> Seq<char> {
    if n < 0 {
        "-"@ + dec((-n) as nat)
    } else {
        dec(n as nat)
    }
}

/// Half points in decimal, with one digit behind the point.
pub open spec fn halves(n: u32) -> Seq<char> {
    dec((n / 2) as nat) + (if n % 2 == 0 {
        ".0"@
    } else {
        ".5"@
    })
}

/// So many spaces.
pub open spec fn blanks(n: int) -> Seq<char> {
    Seq::new(
        if n > 0 {
            n as nat
        } else {
            0
        },
        |i: int| ' ',
    )
}

/// Text filled up with spaces behind it, to a width.
pub open spec fn filled_behind(s: Seq<char>, width: int) -> Seq<char> {
    s + blanks(width - s.len())
}

/// Text filled up with spaces before it, to a width.
pub open spec fn filled_before(s: Seq<char>, width: int) -> Seq<char> {
    blanks(width - s.len()) + s
}

/// Writes an integer in decimal.
pub fn signed_decimal(n: i64) -> (r: String)
    requires
        n > i64::MIN,
    ensures
        r@ == signed(n as int),
{
    if n < 0 {
        let mut r = "-".to_owned();
        r.append(decimal((-n) as u64).as_str());
        r
    } else {
        decimal(n as u64)
    }
}

/// Writes half points in decimal, with one digit behind the point.
pub fn half_points(n: u32) -> (r: String)
    ensures
        r@ == halves(n),
{
    let mut r = decimal((n / 2) as u64);
    if n % 2 == 0 {
        r.append(".0");
    } else {
        r.append(".5");
    }
    r
}

/// Text in decimal for a count.
pub fn count_text(n: usize) -> (r: String)
    ensures
        r@ == dec(n as nat),
{
    decimal(n as u64)
}

fn spaces(n: usize) -> (r: String)
    ensures
        r@ == blanks(n as int),
{
    let mut r = String::new();
    let mut i: usize = 0;
    proof {
        reveal_strlit(" ");
        assert(r@ =~= blanks(0));
    }
    while i < n
        invariant
            i <= n,
            r@ == blanks(i as int),
            " "@ == seq![' '],
        decreases n - i,
    {
        r.append(" ");
        i = i + 1;
        assert(r@ =~= blanks(i as int));
    }
    r
}

/// Fills text up with spaces behind it.
pub fn pad_behind(s: &str, width: usize) -> (r: String)
    ensures
        r@ == filled_behind(s@, width as int),
{
    let len: usize = s.unicode_len();
    let mut r = s.to_owned();
    if len < width {
        r.append(spaces(width - len).as_str());
    } else {
        assert(r@ =~= filled_behind(s@, width as int));
    }
    r
}

/// Fills text up with spaces before it.
pub fn pad_before(s: &str, width: usize) -> (r: String)
    ensures
        r@ == filled_before(s@, width as int),
{
    let len: usize = s.unicode_len();
    if len < width {
        let mut r = spaces(width - len);
        r.append(s);
        r
    } else {
        let r = s.to_owned();
        assert(r@ =~= filled_before(s@, width as int));
        r
    }
}

// ---- Characters ----

/// The characters with the Unicode property `White_Space`.
pub open spec fn is_white(c: char) -> bool {
    let n = c as int;
    ||| 0x9 <= n <= 0xd
    ||| n == 0x20
    ||| n == 0x85
    ||| n == 0xa0
    ||| n == 0x1680
    ||| 0x2000 <= n <= 0x200a
    ||| n == 0x2028
    ||| n == 0x2029
    ||| n == 0x202f
    ||| n == 0x205f
    ||| n == 0x3000
}

/// The characters of the Unicode category `Cc`.
pub open spec fn is_control_code(c: char) -> bool {
    let n = c as int;
    n <= 0x1f || 0x7f <= n <= 0x9f
}

/// `char::is_whitespace` tells whether a character has the property `White_Space`.
pub assume_specification[ char::is_whitespace ](c: char) -> (r: bool)
    ensures
        r == is_white(c),
;

/// `char::is_control` tells whether a character is a control code.
pub assume_specification[ char::is_control ](c: char) -> (r: bool)
    ensures
        r == is_control_code(c),
;

/// Text in upper case, as `str::to_uppercase` gives it.
pub uninterp spec fn uppercase(s: Seq<char>) -> Seq<char>;

/// Every character is an ASCII one.
pub open spec fn ascii_text(s: Seq<char>) -> bool {
    forall|i: int| 0 <= i < s.len() ==> (#[trigger] s[i]) as int <= 0x7f
}

/// An ASCII letter in upper case; any other character as it is.
pub open spec fn upper_letter(c: char) -> char {
    if 'a' <= c <= 'z' {
        (c as int - 32) as char
    } else {
        c
    }
}

/// `str::to_uppercase` is a function of the text alone. Of ASCII text it changes the letters
/// from `a` to `z` and nothing else. What it makes of other text is left unsaid here.
pub assume_specification[ str::to_uppercase ](s: &str) -> (r: String)
    ensures
        r@ == uppercase(s@),
        ascii_text(s@) ==> r@ == s@.map_values(|c: char| upper_letter(c)),
;

/// The characters of a text.
pub fn letters(s: &str) -> (r: Vec<char>)
    ensures
        r@ == s@,
{
    let mut r: Vec<char> = Vec::new();
    for c in it: s.chars()
        invariant
            it.seq() == s@,
            r@ == s@.take(it.index() as int),
    {
        assert(s@.take(it.index() + 1) =~= s@.take(it.index() as int).push(c));
        r.push(c);
    }
    assert(s@.take(s@.len() as int) =~= s@);
    r
}

/// Text without the white space at its start.
pub open spec fn start_trimmed(s: Seq<char>) -> Seq<char>
    decreases s.len(),
{
    if s.len() > 0 && is_white(s[0]) {
        start_trimmed(s.drop_first())
    } else {
        s
    }
}

/// Text without the white space at its end.
pub open spec fn end_trimmed(s: Seq<char>) -> Seq<char>
    decreases s.len(),
{
    if s.len() > 0 && is_white(s.last()) {
        end_trimmed(s.drop_last())
    } else {
        s
    }
}

/// Text without the white space at either end.
pub open spec fn trimmed(s: Seq<char>) -> Seq<char> {
    end_trimmed(start_trimmed(s))
}

/// Cuts off the white space at both ends.
pub fn trim(s: &str) -> (r: &str)
    ensures
        r@ == trimmed(s@),
{
    let cs = letters(s);
    let n: usize = cs.len();
    let mut from: usize = 0;
    assert(s@.skip(0) =~= s@);
    while from < n && cs[from].is_whitespace()
        invariant
            from <= n,
            n == cs@.len(),
            cs@ == s@,
            start_trimmed(s@) == start_trimmed(s@.skip(from as int)),
        decreases n - from,
    {
        assert(s@.skip(from as int).drop_first() =~= s@.skip(from + 1));
        from = from + 1;
    }
    let ghost t = s@.skip(from as int);
    assert(start_trimmed(s@) == t);
    let mut to: usize = n;
    assert(t.take(to - from) =~= t);
    while to > from && cs[to - 1].is_whitespace()
        invariant
            from <= to <= n,
            n == cs@.len(),
            cs@ == s@,
            t == s@.skip(from as int),
            end_trimmed(t) == end_trimmed(t.take(to - from)),
        decreases to,
    {
        assert(t.take(to - from).last() == cs@[to - 1]);
        assert(t.take(to - from).drop_last() =~= t.take(to - from - 1));
        to = to - 1;
    }
    assert(to > from ==> t.take(to - from).last() == cs@[to - 1]);
    assert(s@.subrange(from as int, to as int) =~= t.take(to - from));
    s.substring_char(from, to)
}

} // verus!
