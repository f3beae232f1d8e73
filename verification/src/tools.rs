//! Text helpers: decimal numerals and separator-joined lists.

use vstd::prelude::*;
use vstd::string::*;

verus! {

/// The character of a single decimal digit.
pub open spec fn digit_char(d: int) -> char {
    (('0' as u8) + d) as char
}

/// The decimal numeral of a natural number, most significant digit first,
/// without leading zeros.
pub open spec fn digits(n: nat) -> Seq<char>
    decreases n,
{
    if n < 10 {
        seq![digit_char(n as int)]
    } else {
        digits(n / 10) + seq![digit_char((n % 10) as int)]
    }
}

/// The decimal numeral of an integer: a minus sign before the digits of a
/// negative number, the bare digits otherwise.
pub open spec fn decimal(n: int) -> Seq<char> {
    if n < 0 {
        seq!['-'] + digits((-n) as nat)
    } else {
        digits(n as nat)
    }
}

/// `pieces` written one after another with `sep` between neighbours.
pub open spec fn joined(pieces: Seq<Seq<char>>, sep: Seq<char>) -> Seq<char>
    decreases pieces.len(),
{
    if pieces.len() == 0 {
        Seq::empty()
    } else if pieces.len() == 1 {
        pieces[0]
    } else {
        joined(pieces.drop_last(), sep) + sep + pieces.last()
    }
}

/// The text of each string in `items`.
pub open spec fn texts(items: Seq<String>) -> Seq<Seq<char>> {
    items.map_values(|s: String| s@)
}

/// A numeral is never empty.
pub proof fn lemma_digits_nonempty(n: nat)
    ensures
        digits(n).len() >= 1,
    decreases n,
{
    if n >= 10 {
        lemma_digits_nonempty(n / 10);
    }
}

/// A numeral is never empty, whatever its sign.
pub proof fn lemma_decimal_nonempty(n: int)
    ensures
        decimal(n).len() >= 1,
{
    if n < 0 {
        lemma_digits_nonempty((-n) as nat);
    } else {
        lemma_digits_nonempty(n as nat);
    }
}

/// Joining one more piece onto a non-empty list appends the separator and the piece.
pub proof fn lemma_joined_push(pieces: Seq<Seq<char>>, sep: Seq<char>, piece: Seq<char>)
    ensures
        joined(pieces.push(piece), sep) == if pieces.len() == 0 {
            piece
        } else {
            joined(pieces, sep) + sep + piece
        },
{
    let longer = pieces.push(piece);
    assert(longer.drop_last() =~= pieces);
    assert(longer.last() == piece);
}

/// Pieces that are all non-empty join to a text that is empty only if
/// there are no pieces.
pub proof fn lemma_joined_empty(pieces: Seq<Seq<char>>, sep: Seq<char>)
    requires
        forall|i: int| 0 <= i < pieces.len() ==> (#[trigger] pieces[i]).len() > 0,
    ensures
        joined(pieces, sep).len() == 0 <==> pieces.len() == 0,
    decreases pieces.len(),
{
    if pieces.len() > 1 {
        assert(pieces.last().len() > 0);
    } else if pieces.len() == 1 {
        assert(pieces[0].len() > 0);
    }
}

fn digit_text(d: u8) -> (s: &'static str)
    requires
        d < 10,
    ensures
        s@ == seq![digit_char(d as int)],
{
    proof {
        reveal_strlit("0");
        reveal_strlit("1");
        reveal_strlit("2");
        reveal_strlit("3");
        reveal_strlit("4");
        reveal_strlit("5");
        reveal_strlit("6");
        reveal_strlit("7");
        reveal_strlit("8");
        reveal_strlit("9");
    }
    let s = if d == 0 {
        "0"
    } else if d == 1 {
        "1"
    } else if d == 2 {
        "2"
    } else if d == 3 {
        "3"
    } else if d == 4 {
        "4"
    } else if d == 5 {
        "5"
    } else if d == 6 {
        "6"
    } else if d == 7 {
        "7"
    } else if d == 8 {
        "8"
    } else {
        "9"
    };
    assert(s@ =~= seq![digit_char(d as int)]);
    s
}

/// Appends the decimal numeral of `n` to `text`.
pub fn push_nat(text: &mut String, n: u64)
    ensures
        final(text)@ == old(text)@ + digits(n as nat),
    decreases n,
{
    if n >= 10 {
        push_nat(text, n / 10);
    }
    text.append(digit_text((n % 10) as u8));
    assert(final(text)@ =~= old(text)@ + digits(n as nat));
}

/// Appends the decimal numeral of `n` to `text`.
pub fn push_int(text: &mut String, n: i32)
    ensures
        final(text)@ == old(text)@ + decimal(n as int),
{
    let wide: i64 = n as i64;
    if wide < 0 {
        proof {
            reveal_strlit("-");
        }
        text.append("-");
        push_nat(text, (-wide) as u64);
        assert(final(text)@ =~= old(text)@ + decimal(n as int));
    } else {
        push_nat(text, wide as u64);
    }
}

/// The decimal numeral of `n`.
pub fn int2str(n: i32) -> (s: String)
    ensures
        s@ == decimal(n as int),
{
    let mut s = String::new();
    push_int(&mut s, n);
    assert(s@ =~= decimal(n as int));
    s
}

/// Writes the items of a non-empty list on one line, a single space between
/// neighbours, each item as its `Display` impl writes it.
pub fn vec2str<T: std::fmt::Display>(vec: &Vec<T>) -> (s: String)
    requires
        vec.len() > 0,
    ensures
        exists|pieces: Seq<String>|
            {
                &&& pieces.len() == vec.len()
                &&& forall|i: int|
                    0 <= i < vec.len() ==> #[trigger] to_string_from_display_ensures::<T>(
                        &vec[i],
                        pieces[i],
                    )
                &&& s@ == joined(texts(pieces), seq![' '])
            },
{
    let mut s = String::new();
    let first = vec[0].to_string();
    s.append(first.as_str());
    let ghost mut pieces: Seq<String> = seq![first];
    assert(s@ =~= first@);
    assert(texts(pieces) =~= seq![first@]);
    let mut i: usize = 1;
    while i < vec.len()
        invariant
            1 <= i <= vec.len(),
            pieces.len() == i,
            forall|j: int|
                0 <= j < i ==> #[trigger] to_string_from_display_ensures::<T>(&vec[j], pieces[j]),
            s@ == joined(texts(pieces), seq![' ']),
        decreases vec.len() - i,
    {
        proof {
            reveal_strlit(" ");
        }
        s.append(" ");
        let piece = vec[i].to_string();
        s.append(piece.as_str());
        proof {
            lemma_joined_push(texts(pieces), seq![' '], piece@);
            assert(texts(pieces.push(piece)) =~= texts(pieces).push(piece@));
            assert(" "@ =~= seq![' ']);
            pieces = pieces.push(piece);
        }
        i += 1;
    }
    s
}

} // verus!
