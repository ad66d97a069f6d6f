//! Percent-encoding of query values: the characters that would end, split or
//! alter a value in a query string are written as `%XX`.
use vstd::prelude::*;

use crate::text::{chars_of, free_of};

verus! {

/// The character of an ASCII code.
pub open spec fn ascii_char(b: u32) -> char {
    (b as u8) as char
}

/// The value of a hexadecimal digit, either case.
pub open spec fn hex_value(c: char) -> Option<u32> {
    let v = c as u32;
    if 48 <= v <= 57 {
        Some((v - 48) as u32)
    } else if 65 <= v <= 70 {
        Some((v - 55) as u32)
    } else if 97 <= v <= 102 {
        Some((v - 87) as u32)
    } else {
        None
    }
}

/// The printable ASCII code that `%XX` at the front of `s` names, if any.
pub open spec fn escape_at_front(s: Seq<char>) -> Option<u32> {
    if s.len() >= 3 && s[0] == '%' && hex_value(s[1]) is Some && hex_value(s[2]) is Some {
        let v = hex_value(s[1]).unwrap() * 16 + hex_value(s[2]).unwrap();
        if 32 <= v <= 126 {
            Some(v as u32)
        } else {
            None
        }
    } else {
        None
    }
}

/// Decoding: `%XX` naming a printable ASCII character gives that character,
/// `+` gives a space, anything else stands for itself.
pub open spec fn decode(s: Seq<char>) -> Seq<char>
    decreases s.len(),
{
    if s.len() == 0 {
        s
    } else if escape_at_front(s) is Some {
        seq![ascii_char(escape_at_front(s).unwrap())] + decode(s.skip(3))
    } else if s[0] == '+' {
        seq![' '] + decode(s.skip(1))
    } else {
        seq![s[0]] + decode(s.skip(1))
    }
}

/// How one character is written in a query value.
pub open spec fn encode_char(c: char) -> Seq<char> {
    if c == '%' {
        seq!['%', '2', '5']
    } else if c == '&' {
        seq!['%', '2', '6']
    } else if c == '#' {
        seq!['%', '2', '3']
    } else if c == '+' {
        seq!['%', '2', 'B']
    } else if c == ' ' {
        seq!['%', '2', '0']
    } else {
        seq![c]
    }
}

pub open spec fn encode(s: Seq<char>) -> Seq<char>
    decreases s.len(),
{
    if s.len() == 0 {
        s
    } else {
        encode_char(s[0]) + encode(s.skip(1))
    }
}

/// Text with no `%` and no `+` decodes to itself.
pub proof fn lemma_decode_plain(s: Seq<char>)
    requires
        free_of(s, '%'),
        free_of(s, '+'),
    ensures
        decode(s) == s,
    decreases s.len(),
{
    if s.len() > 0 {
        let t = s.skip(1);
        assert(free_of(t, '%') && free_of(t, '+')) by {
            assert forall|i: int| 0 <= i < t.len() implies t[i] != '%' && t[i] != '+' by {
                assert(t[i] == s[i + 1]);
            }
        }
        assert(s[0] != '%');
        lemma_decode_plain(t);
        assert(seq![s[0]] + t =~= s);
    }
}

/// Decoding undoes encoding, and an encoded value holds no `&`.
pub proof fn lemma_decode_encode(s: Seq<char>)
    ensures
        decode(encode(s)) == s,
        free_of(encode(s), '&'),
    decreases s.len(),
{
    if s.len() > 0 {
        let t = s.skip(1);
        lemma_decode_encode(t);
        let e = encode_char(s[0]);
        let x = encode(t);
        assert(encode(s) == e + x);
        if e.len() == 3 {
            assert((e + x).skip(3) =~= x);
            assert(escape_at_front(e + x) is Some);
            assert(ascii_char(escape_at_front(e + x).unwrap()) == s[0]);
        } else {
            assert(e == seq![s[0]]);
            assert((e + x).skip(1) =~= x);
            assert(escape_at_front(e + x) is None);
        }
        assert(seq![s[0]] + t =~= s);
        assert forall|i: int| 0 <= i < (e + x).len() implies (e + x)[i] != '&' by {
            if i >= e.len() {
                assert((e + x)[i] == x[i - e.len()]);
            }
        }
    }
}

/// The one-character text of a printable ASCII code.
fn ascii_text(b: u32) -> (r: &'static str)
    requires
        32 <= b <= 126,
    ensures
        r@ == seq![ascii_char(b)],
{
    proof {
        reveal_strlit(" ");
        reveal_strlit("!");
        reveal_strlit("\"");
        reveal_strlit("#");
        reveal_strlit("$");
        reveal_strlit("%");
        reveal_strlit("&");
        reveal_strlit("'");
        reveal_strlit("(");
        reveal_strlit(")");
        reveal_strlit("*");
        reveal_strlit("+");
        reveal_strlit(",");
        reveal_strlit("-");
        reveal_strlit(".");
        reveal_strlit("/");
        reveal_strlit("0");
        reveal_strlit("1");
        reveal_strlit("2");
        reveal_strlit("3");
        reveal_strlit("4");
        reveal_strlit("5");
        reveal_strlit("6");
        reveal_strlit("7");
        reveal_strlit("8");
        reveal_strlit("9");
        reveal_strlit(":");
        reveal_strlit(";");
        reveal_strlit("<");
        reveal_strlit("=");
        reveal_strlit(">");
        reveal_strlit("?");
        reveal_strlit("@");
        reveal_strlit("A");
        reveal_strlit("B");
        reveal_strlit("C");
        reveal_strlit("D");
        reveal_strlit("E");
        reveal_strlit("F");
        reveal_strlit("G");
        reveal_strlit("H");
        reveal_strlit("I");
        reveal_strlit("J");
        reveal_strlit("K");
        reveal_strlit("L");
        reveal_strlit("M");
        reveal_strlit("N");
        reveal_strlit("O");
        reveal_strlit("P");
        reveal_strlit("Q");
        reveal_strlit("R");
        reveal_strlit("S");
        reveal_strlit("T");
        reveal_strlit("U");
        reveal_strlit("V");
        reveal_strlit("W");
        reveal_strlit("X");
        reveal_strlit("Y");
        reveal_strlit("Z");
        reveal_strlit("[");
        reveal_strlit("\\");
        reveal_strlit("]");
        reveal_strlit("^");
        reveal_strlit("_");
        reveal_strlit("`");
        reveal_strlit("a");
        reveal_strlit("b");
        reveal_strlit("c");
        reveal_strlit("d");
        reveal_strlit("e");
        reveal_strlit("f");
        reveal_strlit("g");
        reveal_strlit("h");
        reveal_strlit("i");
        reveal_strlit("j");
        reveal_strlit("k");
        reveal_strlit("l");
        reveal_strlit("m");
        reveal_strlit("n");
        reveal_strlit("o");
        reveal_strlit("p");
        reveal_strlit("q");
        reveal_strlit("r");
        reveal_strlit("s");
        reveal_strlit("t");
        reveal_strlit("u");
        reveal_strlit("v");
        reveal_strlit("w");
        reveal_strlit("x");
        reveal_strlit("y");
        reveal_strlit("z");
        reveal_strlit("{");
        reveal_strlit("|");
        reveal_strlit("}");
        reveal_strlit("~");
    }
    if b == 32 {
        " "
    } else if b == 33 {
        "!"
    } else if b == 34 {
        "\""
    } else if b == 35 {
        "#"
    } else if b == 36 {
        "$"
    } else if b == 37 {
        "%"
    } else if b == 38 {
        "&"
    } else if b == 39 {
        "'"
    } else if b == 40 {
        "("
    } else if b == 41 {
        ")"
    } else if b == 42 {
        "*"
    } else if b == 43 {
        "+"
    } else if b == 44 {
        ","
    } else if b == 45 {
        "-"
    } else if b == 46 {
        "."
    } else if b == 47 {
        "/"
    } else if b == 48 {
        "0"
    } else if b == 49 {
        "1"
    } else if b == 50 {
        "2"
    } else if b == 51 {
        "3"
    } else if b == 52 {
        "4"
    } else if b == 53 {
        "5"
    } else if b == 54 {
        "6"
    } else if b == 55 {
        "7"
    } else if b == 56 {
        "8"
    } else if b == 57 {
        "9"
    } else if b == 58 {
        ":"
    } else if b == 59 {
        ";"
    } else if b == 60 {
        "<"
    } else if b == 61 {
        "="
    } else if b == 62 {
        ">"
    } else if b == 63 {
        "?"
    } else if b == 64 {
        "@"
    } else if b == 65 {
        "A"
    } else if b == 66 {
        "B"
    } else if b == 67 {
        "C"
    } else if b == 68 {
        "D"
    } else if b == 69 {
        "E"
    } else if b == 70 {
        "F"
    } else if b == 71 {
        "G"
    } else if b == 72 {
        "H"
    } else if b == 73 {
        "I"
    } else if b == 74 {
        "J"
    } else if b == 75 {
        "K"
    } else if b == 76 {
        "L"
    } else if b == 77 {
        "M"
    } else if b == 78 {
        "N"
    } else if b == 79 {
        "O"
    } else if b == 80 {
        "P"
    } else if b == 81 {
        "Q"
    } else if b == 82 {
        "R"
    } else if b == 83 {
        "S"
    } else if b == 84 {
        "T"
    } else if b == 85 {
        "U"
    } else if b == 86 {
        "V"
    } else if b == 87 {
        "W"
    } else if b == 88 {
        "X"
    } else if b == 89 {
        "Y"
    } else if b == 90 {
        "Z"
    } else if b == 91 {
        "["
    } else if b == 92 {
        "\\"
    } else if b == 93 {
        "]"
    } else if b == 94 {
        "^"
    } else if b == 95 {
        "_"
    } else if b == 96 {
        "`"
    } else if b == 97 {
        "a"
    } else if b == 98 {
        "b"
    } else if b == 99 {
        "c"
    } else if b == 100 {
        "d"
    } else if b == 101 {
        "e"
    } else if b == 102 {
        "f"
    } else if b == 103 {
        "g"
    } else if b == 104 {
        "h"
    } else if b == 105 {
        "i"
    } else if b == 106 {
        "j"
    } else if b == 107 {
        "k"
    } else if b == 108 {
        "l"
    } else if b == 109 {
        "m"
    } else if b == 110 {
        "n"
    } else if b == 111 {
        "o"
    } else if b == 112 {
        "p"
    } else if b == 113 {
        "q"
    } else if b == 114 {
        "r"
    } else if b == 115 {
        "s"
    } else if b == 116 {
        "t"
    } else if b == 117 {
        "u"
    } else if b == 118 {
        "v"
    } else if b == 119 {
        "w"
    } else if b == 120 {
        "x"
    } else if b == 121 {
        "y"
    } else if b == 122 {
        "z"
    } else if b == 123 {
        "{"
    } else if b == 124 {
        "|"
    } else if b == 125 {
        "}"
    } else {
        "~"
    }
}

fn hex_digit(c: char) -> (r: Option<u32>)
    ensures
        r == hex_value(c),
{
    let v = c as u32;
    if 48 <= v && v <= 57 {
        Some(v - 48)
    } else if 65 <= v && v <= 70 {
        Some(v - 55)
    } else if 97 <= v && v <= 102 {
        Some(v - 87)
    } else {
        None
    }
}

/// Decodes a query key or value.
pub fn decode_text(s: &str) -> (r: String)
    ensures
        r@ == decode(s@),
{
    let cs = chars_of(s);
    let n = cs.len();
    let mut r = String::new();
    let mut i: usize = 0;
    assert(s@.skip(0) =~= s@);
    while i < n
        invariant
            cs@ == s@,
            n == s@.len(),
            i <= n,
            decode(s@) == r@ + decode(s@.skip(i as int)),
        decreases n - i,
    {
        let ghost rest = s@.skip(i as int);
        let c = cs[i];
        let mut esc: Option<u32> = None;
        if c == '%' && 2 < n - i {
            match (hex_digit(cs[i + 1]), hex_digit(cs[i + 2])) {
                (Some(h), Some(l)) => {
                    let v = h * 16 + l;
                    if 32 <= v && v <= 126 {
                        esc = Some(v);
                    }
                },
                _ => {},
            }
        }
        assert(rest[0] == c);
        if 2 < n - i {
            assert(rest[1] == cs@[i + 1] && rest[2] == cs@[i + 2]);
        }
        assert(esc == escape_at_front(rest));
        match esc {
            Some(v) => {
                r.append(ascii_text(v));
                assert(rest.skip(3) =~= s@.skip(i as int + 3));
                i = i + 3;
            },
            None => {
                if c == '+' {
                    proof {
                        reveal_strlit(" ");
                    }
                    r.append(" ");
                } else {
                    r.append(s.substring_char(i, i + 1));
                    assert(s@.subrange(i as int, i as int + 1) =~= seq![c]);
                }
                assert(rest.skip(1) =~= s@.skip(i as int + 1));
                i = i + 1;
            },
        }
    }
    assert(s@.skip(n as int) =~= Seq::<char>::empty());
    assert(r@ + Seq::<char>::empty() =~= r@);
    r
}

/// Encodes a query value.
pub fn encode_text(s: &str) -> (r: String)
    ensures
        r@ == encode(s@),
{
    let cs = chars_of(s);
    let n = cs.len();
    let mut r = String::new();
    let mut i: usize = 0;
    assert(s@.skip(0) =~= s@);
    while i < n
        invariant
            cs@ == s@,
            n == s@.len(),
            i <= n,
            encode(s@) == r@ + encode(s@.skip(i as int)),
        decreases n - i,
    {
        let ghost rest = s@.skip(i as int);
        let c = cs[i];
        assert(rest[0] == c);
        assert(rest.skip(1) =~= s@.skip(i as int + 1));
        proof {
            reveal_strlit("%25");
            reveal_strlit("%26");
            reveal_strlit("%23");
            reveal_strlit("%2B");
            reveal_strlit("%20");
        }
        let ghost r0 = r@;
        if c == '%' {
            r.append("%25");
        } else if c == '&' {
            r.append("%26");
        } else if c == '#' {
            r.append("%23");
        } else if c == '+' {
            r.append("%2B");
        } else if c == ' ' {
            r.append("%20");
        } else {
            r.append(s.substring_char(i, i + 1));
        }
        assert(r@ =~= r0 + encode_char(c));
        i = i + 1;
    }
    assert(s@.skip(n as int) =~= Seq::<char>::empty());
    assert(r@ + Seq::<char>::empty() =~= r@);
    r
}

} // verus!
