//! Synthesis of the output filenames, `{stem}_{row}_{column}.{extension}`.

use vstd::prelude::*;

verus! {

/// The character for a single decimal digit.
pub open spec fn digit_char(d: nat) -> char {
    if d == 0 {
        '0'
    } else if d == 1 {
        '1'
    } else if d == 2 {
        '2'
    } else if d == 3 {
        '3'
    } else if d == 4 {
        '4'
    } else if d == 5 {
        '5'
    } else if d == 6 {
        '6'
    } else if d == 7 {
        '7'
    } else if d == 8 {
        '8'
    } else {
        '9'
    }
}

/// The usual decimal notation of `n`, most significant digit first,
/// without leading zeros (`0` itself is written as one digit).
pub open spec fn dec_digits(n: nat) -> Seq<char>
    decreases n,
{
    if n < 10 {
        seq![digit_char(n)]
    } else {
        dec_digits(n / 10).push(digit_char(n % 10))
    }
}

/// The filename of the cell at 1-based position `(r, c)`:
/// the stem, an underscore, the row number, an underscore, the column
/// number, a dot, and the extension.
pub open spec fn sprite_file_name(stem: Seq<char>, ext: Seq<char>, r: nat, c: nat) -> Seq<char> {
    stem + seq!['_'] + dec_digits(r) + seq!['_'] + dec_digits(c) + seq!['.'] + ext
}

/// Whether `c` is a decimal digit character.
pub open spec fn is_digit(c: char) -> bool {
    ||| c == '0'
    ||| c == '1'
    ||| c == '2'
    ||| c == '3'
    ||| c == '4'
    ||| c == '5'
    ||| c == '6'
    ||| c == '7'
    ||| c == '8'
    ||| c == '9'
}

/// Distinct digits are written as distinct characters.
proof fn lemma_digit_char_injective(d1: nat, d2: nat)
    requires
        d1 < 10,
        d2 < 10,
        digit_char(d1) == digit_char(d2),
    ensures
        d1 == d2,
{
}

/// A decimal notation is never empty and consists of digit characters
/// alone.
pub proof fn lemma_dec_digits_shape(n: nat)
    ensures
        dec_digits(n).len() >= 1,
        forall|i: int| 0 <= i < dec_digits(n).len() ==> is_digit(#[trigger] dec_digits(n)[i]),
    decreases n,
{
    if n >= 10 {
        lemma_dec_digits_shape(n / 10);
    }
}

/// Distinct numbers have distinct decimal notations.
pub proof fn lemma_dec_digits_injective(n1: nat, n2: nat)
    requires
        dec_digits(n1) == dec_digits(n2),
    ensures
        n1 == n2,
    decreases n1 + n2,
{
    lemma_dec_digits_shape(n1);
    lemma_dec_digits_shape(n2);
    if n1 < 10 && n2 < 10 {
        assert(dec_digits(n1)[0] == digit_char(n1));
        assert(dec_digits(n2)[0] == digit_char(n2));
        lemma_digit_char_injective(n1, n2);
    } else if n1 < 10 && n2 >= 10 {
        lemma_dec_digits_shape(n2 / 10);
        assert(dec_digits(n2).len() >= 2);
        assert(false);
    } else if n1 >= 10 && n2 < 10 {
        lemma_dec_digits_shape(n1 / 10);
        assert(dec_digits(n1).len() >= 2);
        assert(false);
    } else {
        let p1 = dec_digits(n1 / 10);
        let p2 = dec_digits(n2 / 10);
        assert(p1.push(digit_char(n1 % 10)) == p2.push(digit_char(n2 % 10)));
        assert(p1.len() == p2.len());
        assert(dec_digits(n1).last() == digit_char(n1 % 10));
        assert(dec_digits(n2).last() == digit_char(n2 % 10));
        lemma_digit_char_injective(n1 % 10, n2 % 10);
        assert(p1 =~= p2) by {
            assert(forall|i: int|
                0 <= i < p1.len() ==> #[trigger] p1[i] == dec_digits(n1)[i] && p2[i]
                    == dec_digits(n2)[i]);
        }
        lemma_dec_digits_injective(n1 / 10, n2 / 10);
    }
}

/// Two concatenations of equal length prefixes are equal part by part.
proof fn lemma_append_cancel(x: Seq<char>, y: Seq<char>, s: Seq<char>, t: Seq<char>)
    requires
        x + s == y + t,
        x.len() == y.len(),
    ensures
        x == y,
        s == t,
{
    assert forall|i: int| 0 <= i < x.len() implies x[i] == y[i] by {
        assert((x + s)[i] == x[i]);
        assert((y + t)[i] == y[i]);
    }
    assert(x =~= y);
    assert((x + s).len() == x.len() + s.len());
    assert((y + t).len() == y.len() + t.len());
    assert(s.len() == t.len());
    assert forall|i: int| 0 <= i < s.len() implies s[i] == t[i] by {
        assert((x + s)[x.len() + i] == s[i]);
        assert((y + t)[y.len() + i] == t[i]);
    }
    assert(s =~= t);
}

/// When a block of digits runs up to a non-digit separator on both sides
/// of an equality, the blocks have the same length.
proof fn lemma_digit_block_len(p: Seq<char>, q: Seq<char>, s: Seq<char>, t: Seq<char>)
    requires
        p + s == q + t,
        forall|i: int| 0 <= i < p.len() ==> is_digit(#[trigger] p[i]),
        forall|i: int| 0 <= i < q.len() ==> is_digit(#[trigger] q[i]),
        s.len() > 0,
        !is_digit(s[0]),
        t.len() > 0,
        !is_digit(t[0]),
    ensures
        p.len() == q.len(),
{
    if p.len() < q.len() {
        assert((p + s)[p.len() as int] == s[0]);
        assert((q + t)[p.len() as int] == q[p.len() as int]);
        assert(false);
    } else if q.len() < p.len() {
        assert((p + s)[q.len() as int] == p[q.len() as int]);
        assert((q + t)[q.len() as int] == t[0]);
        assert(false);
    }
}

/// Distinct grid positions get distinct filenames: with the stem and the
/// extension fixed, the filename determines the 1-based row and column.
pub proof fn lemma_sprite_file_name_injective(
    stem: Seq<char>,
    ext: Seq<char>,
    r1: nat,
    c1: nat,
    r2: nat,
    c2: nat,
)
    requires
        sprite_file_name(stem, ext, r1, c1) == sprite_file_name(stem, ext, r2, c2),
    ensures
        r1 == r2,
        c1 == c2,
{
    let u = seq!['_'];
    let dot = seq!['.'];
    let tail1 = u + (dec_digits(r1) + (u + (dec_digits(c1) + (dot + ext))));
    let tail2 = u + (dec_digits(r2) + (u + (dec_digits(c2) + (dot + ext))));
    assert(sprite_file_name(stem, ext, r1, c1) =~= stem + tail1);
    assert(sprite_file_name(stem, ext, r2, c2) =~= stem + tail2);
    lemma_append_cancel(stem, stem, tail1, tail2);
    let a1 = dec_digits(r1) + (u + (dec_digits(c1) + (dot + ext)));
    let a2 = dec_digits(r2) + (u + (dec_digits(c2) + (dot + ext)));
    lemma_append_cancel(u, u, a1, a2);
    lemma_dec_digits_shape(r1);
    lemma_dec_digits_shape(r2);
    lemma_dec_digits_shape(c1);
    lemma_dec_digits_shape(c2);
    assert((u + (dec_digits(c1) + (dot + ext)))[0] == '_');
    assert((u + (dec_digits(c2) + (dot + ext)))[0] == '_');
    lemma_digit_block_len(
        dec_digits(r1),
        dec_digits(r2),
        u + (dec_digits(c1) + (dot + ext)),
        u + (dec_digits(c2) + (dot + ext)),
    );
    lemma_append_cancel(
        dec_digits(r1),
        dec_digits(r2),
        u + (dec_digits(c1) + (dot + ext)),
        u + (dec_digits(c2) + (dot + ext)),
    );
    lemma_dec_digits_injective(r1, r2);
    lemma_append_cancel(u, u, dec_digits(c1) + (dot + ext), dec_digits(c2) + (dot + ext));
    assert((dot + ext)[0] == '.');
    lemma_digit_block_len(dec_digits(c1), dec_digits(c2), dot + ext, dot + ext);
    lemma_append_cancel(dec_digits(c1), dec_digits(c2), dot + ext, dot + ext);
    lemma_dec_digits_injective(c1, c2);
}

/// Appends the character of the decimal digit `d` to `s`.
fn push_digit(s: &mut String, d: u32)
    requires
        d < 10,
    ensures
        final(s)@ == old(s)@.push(digit_char(d as nat)),
{
    let piece: &str = if d == 0 {
        "0"
    } else if d == 1 {
        "1"
    } else if d == 2 {
        "2"
    } else if d == 3 {
        "3"
    } else if d == 4 {
        "4"
    } else if d == 5 {
        "5"
    } else if d == 6 {
        "6"
    } else if d == 7 {
        "7"
    } else if d == 8 {
        "8"
    } else {
        "9"
    };
    proof {
        reveal_strlit("0");
        reveal_strlit("1");
        reveal_strlit("2");
        reveal_strlit("3");
        reveal_strlit("4");
        reveal_strlit("5");
        reveal_strlit("6");
        reveal_strlit("7");
        reveal_strlit("8");
        reveal_strlit("9");
        assert(piece@ =~= seq![digit_char(d as nat)]);
    }
    s.append(piece);
    proof {
        assert(s@ =~= old(s)@.push(digit_char(d as nat)));
    }
}

/// Appends the decimal notation of `n` to `s`.
pub fn push_decimal(s: &mut String, n: u32)
    ensures
        final(s)@ == old(s)@ + dec_digits(n as nat),
    decreases n,
{
    if n >= 10 {
        push_decimal(s, n / 10);
        push_digit(s, n % 10);
        proof {
            assert(s@ =~= old(s)@ + dec_digits(n as nat));
        }
    } else {
        push_digit(s, n);
        proof {
            assert(s@ =~= old(s)@ + dec_digits(n as nat));
        }
    }
}

/// Splits a file name into its stem and its extension at the last dot.
///
/// The name splits exactly when it has a dot after its first character:
/// the stem is everything before the last dot (never empty), the
/// extension everything after it (possibly empty, never holding a dot).
/// A name without such a dot — no dot at all, or only a leading one, as
/// in a hidden file — has no usable stem and extension and yields `None`.
pub fn split_file_name(name: &str) -> (r: Option<(String, String)>)
    ensures
        match r {
            Some((stem, ext)) => {
                &&& name@ == stem@ + seq!['.'] + ext@
                &&& stem@.len() >= 1
                &&& forall|j: int| 0 <= j < ext@.len() ==> ext@[j] != '.'
            },
            None => forall|i: int| 1 <= i < name@.len() ==> name@[i] != '.',
        },
{
    let len: usize = name.unicode_len();
    let mut i: usize = len;
    while i > 1
        invariant
            i <= len,
            len == name@.len(),
            forall|j: int| i <= j < len ==> name@[j] != '.',
        decreases i,
    {
        i = i - 1;
        let c: char = name.get_char(i);
        if c == '.' {
            let stem: String = name.substring_char(0, i).to_owned();
            let ext: String = name.substring_char(i + 1, len).to_owned();
            proof {
                assert(name@ =~= stem@ + seq!['.'] + ext@);
            }
            return Some((stem, ext));
        }
    }
    None
}

/// Builds the filename of the cell at 1-based position `(r, c)`.
pub fn make_sprite_file_name(stem: &str, ext: &str, r: u32, c: u32) -> (s: String)
    ensures
        s@ == sprite_file_name(stem@, ext@, r as nat, c as nat),
{
    let mut s = String::new();
    s.append(stem);
    proof {
        reveal_strlit("_");
        reveal_strlit(".");
    }
    s.append("_");
    push_decimal(&mut s, r);
    s.append("_");
    push_decimal(&mut s, c);
    s.append(".");
    s.append(ext);
    proof {
        assert(s@ =~= sprite_file_name(stem@, ext@, r as nat, c as nat));
    }
    s
}

} // verus!
