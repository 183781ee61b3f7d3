//! Rendering of numbers and lists into the messages the library produces.

use vstd::prelude::*;

verus! {

/// The character for a decimal digit.
pub open spec fn digit_char(d: nat) -> char
    recommends
        d < 10,
{
    seq!['0', '1', '2', '3', '4', '5', '6', '7', '8', '9'][d as int]
}

/// The decimal representation of `n`, without leading zeros.
pub open spec fn decimal(n: nat) -> Seq<char>
    decreases n,
{
    if n < 10 {
        seq![digit_char(n)]
    } else {
        decimal(n / 10) + seq![digit_char(n % 10)]
    }
}

/// Numbers in decimal, separated by a comma and a space.
pub open spec fn numbers_text(s: Seq<usize>) -> Seq<char>
    decreases s.len(),
{
    if s.len() == 0 {
        Seq::empty()
    } else if s.len() == 1 {
        decimal(s[0] as nat)
    } else {
        numbers_text(s.drop_last()) + ", "@ + decimal(s.last() as nat)
    }
}

/// A list of numbers in brackets, as `[0, 1, 2]`.
pub open spec fn list_text(s: Seq<usize>) -> Seq<char> {
    "["@ + numbers_text(s) + "]"@
}

/// Names separated by a comma and a space.
pub open spec fn names_text(s: Seq<Seq<char>>) -> Seq<char>
    decreases s.len(),
{
    if s.len() == 0 {
        Seq::empty()
    } else if s.len() == 1 {
        s[0]
    } else {
        names_text(s.drop_last()) + ", "@ + s.last()
    }
}

/// `part` occurs in `whole` as a contiguous piece.
pub open spec fn contains_text(whole: Seq<char>, part: Seq<char>) -> bool {
    exists|i: int| 0 <= i <= whole.len() - part.len() && #[trigger] whole.subrange(i, i + part.len()) == part
}

/// A text occurs in any text that is built around it.
pub proof fn lemma_contains_middle(before: Seq<char>, part: Seq<char>, after: Seq<char>)
    ensures
        contains_text(before + part + after, part),
{
    let whole = before + part + after;
    assert(whole.subrange(before.len() as int, (before.len() + part.len()) as int) =~= part);
}

fn digit_str(d: usize) -> (r: &'static str)
    requires
        d < 10,
    ensures
        r@ == seq![digit_char(d as nat)],
{
    proof {
        reveal_strlit("0");
        reveal_strlit("1");
        reveal_strlit("2");
        reveal_strlit("3");
        reveal_strlit("4");
        reveal_strlit("5");
        reveal_strlit("6");
        reveal_strlit("7");
        reveal_strlit("8");
        reveal_strlit("9");
    }
    let r = match d {
        0 => "0",
        1 => "1",
        2 => "2",
        3 => "3",
        4 => "4",
        5 => "5",
        6 => "6",
        7 => "7",
        8 => "8",
        _ => "9",
    };
    assert(r@ =~= seq![digit_char(d as nat)]);
    r
}

/// Appends the decimal representation of `n` to `out`.
pub fn push_decimal(out: &mut String, n: usize)
    ensures
        final(out)@ == old(out)@ + decimal(n as nat),
    decreases n,
{
    if n < 10 {
        out.append(digit_str(n));
    } else {
        push_decimal(out, n / 10);
        out.append(digit_str(n % 10));
        assert(final(out)@ =~= old(out)@ + decimal(n as nat));
    }
}

/// The decimal representation of `n`.
pub fn decimal_text(n: usize) -> (r: String)
    ensures
        r@ == decimal(n as nat),
{
    let mut r = String::new();
    push_decimal(&mut r, n);
    assert(r@ =~= decimal(n as nat));
    r
}

/// Appends `[a, b, ...]` for the numbers of `s` to `out`.
pub fn push_list(out: &mut String, s: &Vec<usize>)
    ensures
        final(out)@ == old(out)@ + list_text(s@),
{
    out.append("[");
    let ghost start = out@;
    let mut i: usize = 0;
    while i < s.len()
        invariant
            i <= s.len(),
            out@ == start + numbers_text(s@.subrange(0, i as int)),
        decreases s.len() - i,
    {
        if i > 0 {
            out.append(", ");
        }
        push_decimal(out, s[i]);
        proof {
            let next = s@.subrange(0, i + 1);
            assert(next.drop_last() =~= s@.subrange(0, i as int));
            if i == 0 {
                assert(numbers_text(s@.subrange(0, 0)) =~= Seq::<char>::empty());
            }
        }
        i = i + 1;
    }
    out.append("]");
    assert(s@.subrange(0, s@.len() as int) =~= s@);
    assert(out@ =~= old(out)@ + list_text(s@));
}

/// Appends the names of `s`, separated by `, `, to `out`.
pub fn push_names(out: &mut String, s: &Vec<String>)
    ensures
        final(out)@ == old(out)@ + names_text(s.deep_view()),
{
    let ghost start = out@;
    let mut i: usize = 0;
    while i < s.len()
        invariant
            i <= s.len(),
            out@ == start + names_text(s.deep_view().subrange(0, i as int)),
        decreases s.len() - i,
    {
        if i > 0 {
            out.append(", ");
        }
        out.append(s[i].as_str());
        proof {
            let next = s.deep_view().subrange(0, i + 1);
            assert(next.drop_last() =~= s.deep_view().subrange(0, i as int));
            if i == 0 {
                assert(names_text(s.deep_view().subrange(0, 0)) =~= Seq::<char>::empty());
            }
        }
        i = i + 1;
    }
    assert(s.deep_view().subrange(0, s@.len() as int) =~= s.deep_view());
    assert(out@ =~= old(out)@ + names_text(s.deep_view()));
}

} // verus!
