//! Text building blocks: ASCII case folding, case-insensitive comparison and
//! decimal rendering, over views as sequences of characters.

use vstd::prelude::*;

verus! {

use vstd::std_specs::iter::IteratorSpec;

/// ASCII lowercasing of one character: the uppercase letters fold, everything
/// else is untouched.
pub open spec fn ascii_lower_char(c: char) -> char {
    match c {
        'A' => 'a',
        'B' => 'b',
        'C' => 'c',
        'D' => 'd',
        'E' => 'e',
        'F' => 'f',
        'G' => 'g',
        'H' => 'h',
        'I' => 'i',
        'J' => 'j',
        'K' => 'k',
        'L' => 'l',
        'M' => 'm',
        'N' => 'n',
        'O' => 'o',
        'P' => 'p',
        'Q' => 'q',
        'R' => 'r',
        'S' => 's',
        'T' => 't',
        'U' => 'u',
        'V' => 'v',
        'W' => 'w',
        'X' => 'x',
        'Y' => 'y',
        'Z' => 'z',
        _ => c,
    }
}

/// ASCII lowercasing of a whole character sequence.
pub open spec fn ascii_lower(s: Seq<char>) -> Seq<char> {
    s.map_values(|c: char| ascii_lower_char(c))
}

/// Two character sequences are equal up to ASCII case.
pub open spec fn eq_ascii_ci(a: Seq<char>, b: Seq<char>) -> bool {
    ascii_lower(a) == ascii_lower(b)
}

fn lower_char(c: char) -> (r: char)
    ensures
        r == ascii_lower_char(c),
{
    match c {
        'A' => 'a',
        'B' => 'b',
        'C' => 'c',
        'D' => 'd',
        'E' => 'e',
        'F' => 'f',
        'G' => 'g',
        'H' => 'h',
        'I' => 'i',
        'J' => 'j',
        'K' => 'k',
        'L' => 'l',
        'M' => 'm',
        'N' => 'n',
        'O' => 'o',
        'P' => 'p',
        'Q' => 'q',
        'R' => 'r',
        'S' => 's',
        'T' => 't',
        'U' => 'u',
        'V' => 'v',
        'W' => 'w',
        'X' => 'x',
        'Y' => 'y',
        'Z' => 'z',
        _ => c,
    }
}

/// Compare two strings for equality up to ASCII case, walking both character
/// by character.
pub fn eq_ignore_ascii_case(a: &str, b: &str) -> (r: bool)
    ensures
        r == eq_ascii_ci(a@, b@),
{
    broadcast use vstd::string::axiom_spec_iter, vstd::string::next_postcondition;

    let mut ia = a.chars();
    let mut ib = b.chars();
    loop
        invariant
            ia.obeys_prophetic_iter_laws(),
            ib.obeys_prophetic_iter_laws(),
            ia.decrease() is Some,
            ib.decrease() is Some,
            eq_ascii_ci(a@, b@) <==> eq_ascii_ci(ia.remaining(), ib.remaining()),
        decreases ia.decrease()->0 + ib.decrease()->0,
    {
        let ghost ra = ia.remaining();
        let ghost rb = ib.remaining();
        let na = ia.next();
        let nb = ib.next();
        match (na, nb) {
            (None, None) => {
                assert(ascii_lower(ra) =~= ascii_lower(rb));
                return true;
            },
            (Some(ca), Some(cb)) => {
                if lower_char(ca) != lower_char(cb) {
                    assert(ascii_lower(ra)[0] != ascii_lower(rb)[0]);
                    return false;
                }
                proof {
                    lemma_eq_ci_step(ra, rb);
                }
            },
            _ => {
                assert(ascii_lower(ra).len() != ascii_lower(rb).len());
                return false;
            },
        }
    }
}

proof fn lemma_eq_ci_step(a: Seq<char>, b: Seq<char>)
    requires
        a.len() > 0,
        b.len() > 0,
        ascii_lower_char(a[0]) == ascii_lower_char(b[0]),
    ensures
        eq_ascii_ci(a, b) <==> eq_ascii_ci(a.drop_first(), b.drop_first()),
{
    let la = ascii_lower(a);
    let lb = ascii_lower(b);
    let la1 = ascii_lower(a.drop_first());
    let lb1 = ascii_lower(b.drop_first());
    assert(la1 =~= la.drop_first()) by {
        assert forall|i: int| 0 <= i < la1.len() implies la1[i] == la.drop_first()[i] by {
            assert(a.drop_first()[i] == a[i + 1]);
        }
    }
    assert(lb1 =~= lb.drop_first()) by {
        assert forall|i: int| 0 <= i < lb1.len() implies lb1[i] == lb.drop_first()[i] by {
            assert(b.drop_first()[i] == b[i + 1]);
        }
    }
    assert(la[0] == ascii_lower_char(a[0]));
    assert(lb[0] == ascii_lower_char(b[0]));
    if la1 == lb1 {
        assert(la =~= lb) by {
            assert forall|i: int| 0 <= i < la.len() implies la[i] == lb[i] by {
                if i > 0 {
                    assert(la[i] == la.drop_first()[i - 1]);
                    assert(lb[i] == lb.drop_first()[i - 1]);
                }
            }
        }
    }
    if la == lb {
        assert(la1 =~= lb1);
    }
}

/// The decimal rendering of a number, most significant digit first, with no
/// leading zeros (`0` renders as `"0"`).
pub open spec fn decimal(n: nat) -> Seq<char>
    decreases n,
{
    if n < 10 {
        seq![digit_char(n)]
    } else {
        decimal(n / 10) + seq![digit_char(n % 10)]
    }
}

pub open spec fn digit_char(d: nat) -> char {
    if d == 0 {
        '0'
    } else if d == 1 {
        '1'
    } else if d == 2 {
        '2'
    } else if d == 3 {
        '3'
    } else if d == 4 {
        '4'
    } else if d == 5 {
        '5'
    } else if d == 6 {
        '6'
    } else if d == 7 {
        '7'
    } else if d == 8 {
        '8'
    } else {
        '9'
    }
}

/// Relies on `String::push`: appends the given character to the end of the
/// string.
#[verifier::external_body]
pub fn push_char(out: &mut String, c: char)
    ensures
        final(out)@ == old(out)@ + seq![c],
{
    out.push(c);
}

/// Relies on `str::push_str` (`String::push_str`): appends the characters of
/// the given string slice to the end of the string.
#[verifier::external_body]
pub fn push_str(out: &mut String, s: &str)
    ensures
        final(out)@ == old(out)@ + s@,
{
    out.push_str(s);
}

/// Append the decimal rendering of `n`.
pub fn push_decimal(out: &mut String, n: u64)
    ensures
        final(out)@ == old(out)@ + decimal(n as nat),
    decreases n,
{
    if n >= 10 {
        push_decimal(out, n / 10);
    }
    let d = n % 10;
    let c = if d == 0 {
        '0'
    } else if d == 1 {
        '1'
    } else if d == 2 {
        '2'
    } else if d == 3 {
        '3'
    } else if d == 4 {
        '4'
    } else if d == 5 {
        '5'
    } else if d == 6 {
        '6'
    } else if d == 7 {
        '7'
    } else if d == 8 {
        '8'
    } else {
        '9'
    };
    assert(c == digit_char((n % 10) as nat));
    push_char(out, c);
    proof {
        if n < 10 {
            assert(decimal(n as nat) == seq![digit_char(n as nat)]);
        }
        assert(out@ =~= old(out)@ + decimal(n as nat));
    }
}

} // verus!
