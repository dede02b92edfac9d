use vstd::prelude::*;

verus! {

/// The decimal digit character for a value below ten.
pub open spec fn digit_char(d: nat) -> char {
    if d == 0 { '0' }
    else if d == 1 { '1' }
    else if d == 2 { '2' }
    else if d == 3 { '3' }
    else if d == 4 { '4' }
    else if d == 5 { '5' }
    else if d == 6 { '6' }
    else if d == 7 { '7' }
    else if d == 8 { '8' }
    else { '9' }
}

/// The decimal text of a natural number, without sign or leading zeros.
pub open spec fn decimal(n: nat) -> Seq<char>
    decreases n,
{
    if n < 10 {
        seq![digit_char(n)]
    } else {
        decimal(n / 10).push(digit_char(n % 10))
    }
}

fn digit_str(d: usize) -> (s: &'static str)
    requires
        d < 10,
    ensures
        s@ == seq![digit_char(d as nat)],
{
    if d == 0 {
        proof { reveal_strlit("0"); }
        "0"
    } else if d == 1 {
        proof { reveal_strlit("1"); }
        "1"
    } else if d == 2 {
        proof { reveal_strlit("2"); }
        "2"
    } else if d == 3 {
        proof { reveal_strlit("3"); }
        "3"
    } else if d == 4 {
        proof { reveal_strlit("4"); }
        "4"
    } else if d == 5 {
        proof { reveal_strlit("5"); }
        "5"
    } else if d == 6 {
        proof { reveal_strlit("6"); }
        "6"
    } else if d == 7 {
        proof { reveal_strlit("7"); }
        "7"
    } else if d == 8 {
        proof { reveal_strlit("8"); }
        "8"
    } else {
        proof { reveal_strlit("9"); }
        "9"
    }
}

/// Decimal text has at least one character, and only digits.
pub proof fn decimal_is_digits(n: nat)
    ensures
        decimal(n).len() >= 1,
        n >= 10 ==> decimal(n).len() >= 2,
        forall|i: int| 0 <= i < decimal(n).len() ==> '0' <= #[trigger] decimal(n)[i] <= '9',
    decreases n,
{
    if n >= 10 {
        decimal_is_digits(n / 10);
    }
}

/// Different numbers have different decimal texts.
pub proof fn decimal_injective(a: nat, b: nat)
    requires
        decimal(a) == decimal(b),
    ensures
        a == b,
    decreases a + b,
{
    decimal_is_digits(a);
    decimal_is_digits(b);
    if a >= 10 && b >= 10 {
        assert(decimal(a).drop_last() =~= decimal(a / 10));
        assert(decimal(b).drop_last() =~= decimal(b / 10));
        decimal_injective(a / 10, b / 10);
        assert(decimal(a).last() == digit_char(a % 10));
        assert(decimal(b).last() == digit_char(b % 10));
        digit_char_injective(a % 10, b % 10);
    } else if a < 10 && b < 10 {
        assert(decimal(a)[0] == digit_char(a));
        assert(decimal(b)[0] == digit_char(b));
        digit_char_injective(a, b);
    }
}

proof fn digit_char_injective(x: nat, y: nat)
    requires
        x < 10,
        y < 10,
        digit_char(x) == digit_char(y),
    ensures
        x == y,
{
}

/// Appends the decimal text of `n` to `s`.
pub fn push_decimal(s: &mut String, n: usize)
    ensures
        final(s)@ == old(s)@ + decimal(n as nat),
    decreases n,
{
    if n >= 10 {
        push_decimal(s, n / 10);
    }
    s.append(digit_str(n % 10));
    proof {
        if n >= 10 {
            assert(decimal(n as nat) == decimal((n / 10) as nat).push(digit_char((n % 10) as nat)));
        }
    }
    assert(final(s)@ =~= old(s)@ + decimal(n as nat));
}

/// The decimal text of `n`, as `n.to_string()` writes it.
pub fn decimal_string(n: usize) -> (s: String)
    ensures
        s@ == decimal(n as nat),
{
    let mut s = String::new();
    push_decimal(&mut s, n);
    assert(s@ =~= decimal(n as nat));
    s
}

/// Text equality of two string slices.
pub fn text_eq(a: &str, b: &str) -> (r: bool)
    ensures
        r == (a@ == b@),
{
    a.to_owned() == b.to_owned()
}

/// A fresh `String` holding the text of a slice.
pub fn owned(a: &str) -> (s: String)
    ensures
        s@ == a@,
{
    a.to_owned()
}

/// The lower-case hexadecimal digit character for a value below sixteen.
pub open spec fn hex_char(d: nat) -> char {
    if d < 10 { digit_char(d) }
    else if d == 10 { 'a' }
    else if d == 11 { 'b' }
    else if d == 12 { 'c' }
    else if d == 13 { 'd' }
    else if d == 14 { 'e' }
    else { 'f' }
}

/// Whether JSON writes a character inside a string with an escape: quote, backslash,
/// and the control characters below U+0020.
pub open spec fn json_escaped(c: char) -> bool {
    c == '"' || c == '\\' || (c as u32) < 0x20
}

/// How one character is written inside a JSON string: the short escapes for quote,
/// backslash, backspace, tab, line feed, form feed and carriage return, `\u00XX` with
/// lower-case hexadecimal digits for the other control characters, and any other
/// character as it is.
pub open spec fn json_char_text(c: char) -> Seq<char> {
    let n = c as u32;
    if c == '"' { seq!['\\', '"'] }
    else if c == '\\' { seq!['\\', '\\'] }
    else if n == 0x08 { seq!['\\', 'b'] }
    else if n == 0x09 { seq!['\\', 't'] }
    else if n == 0x0a { seq!['\\', 'n'] }
    else if n == 0x0c { seq!['\\', 'f'] }
    else if n == 0x0d { seq!['\\', 'r'] }
    else if n < 0x20 { seq!['\\', 'u', '0', '0', hex_char((n / 16) as nat), hex_char((n % 16) as nat)] }
    else { seq![c] }
}

/// The characters of a text as written inside a JSON string.
pub open spec fn json_chars_text(s: Seq<char>) -> Seq<char>
    decreases s.len(),
{
    if s.len() == 0 {
        Seq::empty()
    } else {
        json_chars_text(s.drop_last()) + json_char_text(s.last())
    }
}

/// The JSON text of a string value: its characters written as above, between double quotes.
pub open spec fn json_string_text(s: Seq<char>) -> Seq<char> {
    seq!['"'] + json_chars_text(s) + seq!['"']
}

/// Writing a concatenation is writing each part.
pub proof fn json_chars_concat(a: Seq<char>, b: Seq<char>)
    ensures
        json_chars_text(a + b) == json_chars_text(a) + json_chars_text(b),
    decreases b.len(),
{
    if b.len() == 0 {
        assert(a + b =~= a);
        assert(json_chars_text(b) =~= Seq::<char>::empty());
        assert(json_chars_text(a) + json_chars_text(b) =~= json_chars_text(a));
    } else {
        json_chars_concat(a, b.drop_last());
        assert((a + b).drop_last() =~= a + b.drop_last());
        assert((a + b).last() == b.last());
        assert(json_chars_text(a + b) =~= json_chars_text(a) + json_chars_text(b));
    }
}

/// A text with no character that needs escaping is written as it is.
pub proof fn json_chars_plain(s: Seq<char>)
    requires
        forall|i: int| 0 <= i < s.len() ==> !json_escaped(#[trigger] s[i]),
    ensures
        json_chars_text(s) == s,
    decreases s.len(),
{
    if s.len() > 0 {
        json_chars_plain(s.drop_last());
        assert(!json_escaped(s[s.len() - 1]));
        assert(json_chars_text(s) =~= s);
    }
}

fn hex_str(d: u32) -> (s: &'static str)
    requires
        d < 16,
    ensures
        s@ == seq![hex_char(d as nat)],
{
    if d < 10 {
        digit_str(d as usize)
    } else if d == 10 {
        proof { reveal_strlit("a"); }
        "a"
    } else if d == 11 {
        proof { reveal_strlit("b"); }
        "b"
    } else if d == 12 {
        proof { reveal_strlit("c"); }
        "c"
    } else if d == 13 {
        proof { reveal_strlit("d"); }
        "d"
    } else if d == 14 {
        proof { reveal_strlit("e"); }
        "e"
    } else {
        proof { reveal_strlit("f"); }
        "f"
    }
}

/// Appends the escape of a character that JSON writes escaped.
fn push_json_escape(r: &mut String, c: char)
    requires
        json_escaped(c),
    ensures
        final(r)@ == old(r)@ + json_char_text(c),
{
    let n = c as u32;
    if c == '"' {
        proof { reveal_strlit("\\\""); }
        r.append("\\\"");
    } else if c == '\\' {
        proof { reveal_strlit("\\\\"); }
        r.append("\\\\");
    } else if n == 0x08 {
        proof { reveal_strlit("\\b"); }
        r.append("\\b");
    } else if n == 0x09 {
        proof { reveal_strlit("\\t"); }
        r.append("\\t");
    } else if n == 0x0a {
        proof { reveal_strlit("\\n"); }
        r.append("\\n");
    } else if n == 0x0c {
        proof { reveal_strlit("\\f"); }
        r.append("\\f");
    } else if n == 0x0d {
        proof { reveal_strlit("\\r"); }
        r.append("\\r");
    } else {
        proof { reveal_strlit("\\u00"); }
        r.append("\\u00");
        r.append(hex_str(n / 16));
        r.append(hex_str(n % 16));
    }
    assert(final(r)@ =~= old(r)@ + json_char_text(c));
}

/// The JSON text of a string value, as `serde_json` writes `Value::String`: the
/// characters between double quotes, quote, backslash and control characters escaped.
pub fn json_quote(s: &str) -> (r: String)
    ensures
        r@ == json_string_text(s@),
{
    let mut r = String::new();
    proof { reveal_strlit("\""); }
    r.append("\"");
    let n = s.unicode_len();
    let mut start: usize = 0;
    let mut i: usize = 0;
    while i < n
        invariant
            n == s@.len(),
            start <= i <= n,
            r@ == seq!['"'] + json_chars_text(s@.subrange(0, start as int)),
            forall|j: int| start <= j < i ==> !json_escaped(#[trigger] s@[j]),
        decreases n - i,
    {
        let c = s.get_char(i);
        if c == '"' || c == '\\' || (c as u32) < 0x20 {
            let run = s.substring_char(start, i);
            proof {
                json_chars_plain(run@);
                json_chars_concat(s@.subrange(0, start as int), run@);
                assert(s@.subrange(0, start as int) + run@ =~= s@.subrange(0, i as int));
                json_chars_concat(s@.subrange(0, i as int), seq![c]);
                assert(s@.subrange(0, i as int) + seq![c] =~= s@.subrange(0, i + 1));
                assert(json_chars_text(seq![c]) =~= json_char_text(c)) by {
                    let one = seq![c];
                    assert(one.drop_last() =~= Seq::<char>::empty());
                    assert(one.last() == c);
                    assert(json_chars_text(one.drop_last()) =~= Seq::<char>::empty());
                }
            }
            r.append(run);
            push_json_escape(&mut r, c);
            start = i + 1;
            assert(r@ =~= seq!['"'] + json_chars_text(s@.subrange(0, start as int)));
        }
        i = i + 1;
    }
    let run = s.substring_char(start, n);
    proof {
        json_chars_plain(run@);
        json_chars_concat(s@.subrange(0, start as int), run@);
        assert(s@.subrange(0, start as int) + run@ =~= s@);
    }
    r.append(run);
    proof { reveal_strlit("\""); }
    r.append("\"");
    assert(r@ =~= json_string_text(s@));
    r
}

} // verus!
