//! What holds of texts that are trimmed, cut, joined and counted out.
use crate::numbers::{digit_value, digits_value, number_in};
use crate::text::{
    decimal, digit, is_white_space, joined, lines_of, split_on, trimmed, trimmed_end,
    trimmed_start, without_cr,
};
use vstd::prelude::*;

verus! {

/// Whether a text is white space throughout.
pub open spec fn blank(s: Seq<char>) -> bool {
    forall|i: int| 0 <= i < s.len() ==> is_white_space(#[trigger] s[i])
}

proof fn lemma_start(s: Seq<char>) -> (cut: int)
    ensures
        0 <= cut <= s.len(),
        trimmed_start(s) == s.skip(cut),
        blank(s.take(cut)),
        cut < s.len() ==> !is_white_space(s[cut]),
    decreases s.len(),
{
    if s.len() > 0 && is_white_space(s.first()) {
        let rest = s.drop_first();
        let c = lemma_start(rest);
        assert(rest.skip(c) =~= s.skip(c + 1));
        assert forall|i: int| 0 <= i < s.take(c + 1).len() implies is_white_space(
            #[trigger] s.take(c + 1)[i],
        ) by {
            if i > 0 {
                assert(rest.take(c)[i - 1] == s[i]);
            }
        }
        c + 1
    } else {
        assert(s.skip(0) =~= s);
        0
    }
}

proof fn lemma_end(s: Seq<char>) -> (cut: int)
    ensures
        0 <= cut <= s.len(),
        trimmed_end(s) == s.take(cut),
        blank(s.skip(cut)),
        cut > 0 ==> !is_white_space(s[cut - 1]),
    decreases s.len(),
{
    if s.len() > 0 && is_white_space(s.last()) {
        let rest = s.drop_last();
        let c = lemma_end(rest);
        assert(rest.take(c) =~= s.take(c));
        assert forall|i: int| 0 <= i < s.skip(c).len() implies is_white_space(
            #[trigger] s.skip(c)[i],
        ) by {
            if i < rest.skip(c).len() {
                assert(rest.skip(c)[i] == s[c + i]);
            }
        }
        c
    } else {
        assert(s.take(s.len() as int) =~= s);
        s.len() as int
    }
}

/// Trimming takes white space off both ends, all of it and nothing else:
/// what is left starts and ends with other characters, and stands in the
/// text between two runs of white space.
pub proof fn law_trimming_takes_white_space_only(s: Seq<char>) -> (cut: (int, int))
    ensures
        0 <= cut.0 <= cut.1 <= s.len(),
        trimmed(s) == s.subrange(cut.0, cut.1),
        blank(s.take(cut.0)),
        blank(s.skip(cut.1)),
        trimmed(s).len() > 0 ==> !is_white_space(trimmed(s).first()) && !is_white_space(
            trimmed(s).last(),
        ),
{
    let a = lemma_start(s);
    let t = s.skip(a);
    let b = lemma_end(t);
    assert(t.take(b) =~= s.subrange(a, a + b));
    assert(t.skip(b) =~= s.skip(a + b));
    if b > 0 {
        assert(trimmed(s).last() == t[b - 1]);
        assert(trimmed(s).first() == s[a]);
    }
    (a, a + b)
}

/// Cutting at a character and joining with it gives the text back, and no
/// piece holds the character.
pub proof fn law_cutting_and_joining(s: Seq<char>, c: char)
    ensures
        split_on(s, c).len() > 0,
        joined(split_on(s, c), seq![c]) == s,
        forall|i: int, j: int|
            0 <= i < split_on(s, c).len() && 0 <= j < split_on(s, c)[i].len() ==> #[trigger] split_on(
                s,
                c,
            )[i][j] != c,
    decreases s.len(),
{
    let pieces = split_on(s, c);
    if s.len() > 0 {
        let head = split_on(s.drop_last(), c);
        law_cutting_and_joining(s.drop_last(), c);
        assert(s =~= s.drop_last().push(s.last()));
        if s.last() == c {
            assert(pieces.drop_last() =~= head);
            assert(joined(pieces, seq![c]) =~= s);
        } else {
            let last = head.last().push(s.last());
            assert(pieces.drop_last() =~= head.drop_last());
            assert(pieces.last() == last);
            if head.len() == 1 {
                assert(pieces.len() == 1);
                assert(joined(head, seq![c]) == head[0]);
                assert(joined(pieces, seq![c]) == last);
            } else {
                assert(joined(pieces, seq![c]) =~= joined(head, seq![c]).push(s.last()));
            }
        }
        assert forall|i: int, j: int|
            0 <= i < pieces.len() && 0 <= j < pieces[i].len() implies #[trigger] pieces[i][j] != c by {
            if i < head.len() && j < head[i].len() {
                assert(head[i][j] != c);
                if i < head.len() - 1 || s.last() == c {
                    assert(pieces[i] == head[i]);
                } else {
                    assert(pieces[i][j] == head[i][j]);
                }
            }
        }
    }
}

/// Lines typed one after the other, each with its newline.
pub open spec fn typed(ls: Seq<Seq<char>>) -> Seq<char>
    decreases ls.len(),
{
    if ls.len() == 0 {
        Seq::empty()
    } else {
        typed(ls.drop_last()) + ls.last() + seq!['\n']
    }
}

/// Whether a text is one line: it has no newline and does not end with a
/// carriage return.
pub open spec fn one_line(l: Seq<char>) -> bool {
    &&& forall|i: int| 0 <= i < l.len() ==> #[trigger] l[i] != '\n'
    &&& l.len() > 0 ==> l.last() != '\r'
}

/// Cutting a text that is followed by a piece without the character.
proof fn lemma_split_tail(s: Seq<char>, l: Seq<char>, c: char)
    requires
        forall|i: int| 0 <= i < l.len() ==> #[trigger] l[i] != c,
    ensures
        split_on(s + l, c).len() == split_on(s, c).len(),
        split_on(s, c).len() > 0,
        split_on(s + l, c).drop_last() == split_on(s, c).drop_last(),
        split_on(s + l, c).last() == split_on(s, c).last() + l,
    decreases l.len(),
{
    law_cutting_and_joining(s, c);
    if l.len() == 0 {
        assert(s + l =~= s);
        assert(split_on(s, c).last() + l =~= split_on(s, c).last());
    } else {
        let t = l.drop_last();
        assert forall|i: int| 0 <= i < t.len() implies #[trigger] t[i] != c by {
            assert(t[i] == l[i]);
        }
        lemma_split_tail(s, t, c);
        assert((s + l).drop_last() =~= s + t);
        assert((s + l).last() == l[l.len() - 1]);
        assert((split_on(s, c).last() + t).push(l.last()) =~= split_on(s, c).last() + l);
        assert(split_on(s + l, c).drop_last() =~= split_on(s + t, c).drop_last());
    }
}

proof fn lemma_split_typed(ls: Seq<Seq<char>>)
    requires
        forall|i: int| 0 <= i < ls.len() ==> one_line(#[trigger] ls[i]),
    ensures
        split_on(typed(ls), '\n') == ls.push(Seq::empty()),
    decreases ls.len(),
{
    let pieces = split_on(typed(ls), '\n');
    if ls.len() == 0 {
        assert(pieces =~= ls.push(Seq::empty()));
    } else {
        let head = ls.drop_last();
        assert forall|i: int| 0 <= i < head.len() implies one_line(#[trigger] head[i]) by {
            assert(head[i] == ls[i]);
        }
        lemma_split_typed(head);
        assert(one_line(ls[ls.len() - 1]));
        let before = typed(head) + ls.last();
        lemma_split_tail(typed(head), ls.last(), '\n');
        assert(typed(ls).drop_last() =~= before);
        assert(typed(ls).last() == '\n');
        assert(pieces == split_on(before, '\n').push(Seq::empty()));
        assert(split_on(typed(head), '\n').drop_last() =~= head);
        assert(split_on(before, '\n').last() =~= ls.last());
        assert(split_on(before, '\n') =~= head.push(ls.last()));
        assert(head.push(ls.last()) =~= ls);
    }
}

/// Lines that are typed are read back.
pub proof fn law_typed_lines_are_read_back(ls: Seq<Seq<char>>)
    requires
        forall|i: int| 0 <= i < ls.len() ==> one_line(#[trigger] ls[i]),
    ensures
        lines_of(typed(ls)) == ls,
{
    lemma_split_typed(ls);
    let pieces = split_on(typed(ls), '\n');
    assert(pieces.drop_last() =~= ls);
    assert forall|i: int| 0 <= i < ls.len() implies without_cr(#[trigger] ls[i]) == ls[i] by {
        assert(one_line(ls[i]));
    }
    assert(pieces.drop_last().map_values(|l: Seq<char>| without_cr(l)) =~= ls);
}

/// The number that decimal digits stand for.
pub open spec fn number_read(s: Seq<char>) -> int
    decreases s.len(),
{
    if s.len() == 0 {
        0
    } else {
        10 * number_read(s.drop_last()) + (s.last() as int - '0' as int)
    }
}

/// A number in decimal reads back as the number, is digits only, and has no
/// leading zero but in zero itself.
pub proof fn law_decimals_read_back(n: nat)
    ensures
        number_read(decimal(n)) == n,
        decimal(n).len() > 0,
        forall|i: int| 0 <= i < decimal(n).len() ==> '0' <= #[trigger] decimal(n)[i] <= '9',
        n > 0 ==> decimal(n)[0] != '0',
    decreases n,
{
    if n < 10 {
        assert(digit(n) as int == 48 + n);
        assert(decimal(n).drop_last() =~= Seq::<char>::empty());
        assert(number_read(decimal(n).drop_last()) == 0);
    } else {
        law_decimals_read_back(n / 10);
        let d = digit(n % 10);
        assert(d as int == 48 + n % 10);
        assert(decimal(n).drop_last() =~= decimal(n / 10));
        assert(decimal(n).last() == d);
    }
}

proof fn lemma_digits_read(s: Seq<char>)
    requires
        forall|i: int| 0 <= i < s.len() ==> '0' <= #[trigger] s[i] <= '9',
    ensures
        number_read(s) >= 0,
        digits_value(s, 10) == Some(number_read(s) as nat),
    decreases s.len(),
{
    if s.len() > 0 {
        let t = s.drop_last();
        assert forall|i: int| 0 <= i < t.len() implies '0' <= #[trigger] t[i] <= '9' by {
            assert(t[i] == s[i]);
        }
        lemma_digits_read(t);
        let c = s.last();
        assert(s[s.len() - 1] == c);
        assert(digit_value(c, 10) == Some((c as int - '0' as int) as nat));
    }
}

/// Digits are read as the number they stand for, up to the bound that is
/// set, with or without a plus sign before them; no digits are no number.
pub proof fn law_numbers_are_read(s: Seq<char>, max: nat)
    requires
        forall|i: int| 0 <= i < s.len() ==> '0' <= #[trigger] s[i] <= '9',
    ensures
        ({
            let value = if s.len() > 0 && number_read(s) <= max {
                Some(number_read(s) as nat)
            } else {
                None
            };
            &&& number_read(s) >= 0
            &&& number_in(s, 10, max) == value
            &&& number_in(seq!['+'] + s, 10, max) == value
        }),
{
    lemma_digits_read(s);
    if s.len() > 0 {
        assert(s[0] != '+');
    }
    assert((seq!['+'] + s).drop_first() =~= s);
}

/// A number that is written out in decimal is read back.
pub proof fn law_written_numbers_are_read_back(n: nat, max: nat)
    requires
        n <= max,
    ensures
        number_in(decimal(n), 10, max) == Some(n),
{
    law_decimals_read_back(n);
    law_numbers_are_read(decimal(n), max);
}

/// A character that is no digit makes a text no number.
pub proof fn law_other_marks_are_no_number(s: Seq<char>, i: int, max: nat)
    requires
        0 <= i < s.len(),
        !('0' <= s[i] <= '9'),
        i > 0 || s[0] != '+',
    ensures
        number_in(s, 10, max) is None,
{
    let digits = if s[0] == '+' {
        s.drop_first()
    } else {
        s
    };
    let j = if s[0] == '+' {
        i - 1
    } else {
        i
    };
    lemma_no_digits(digits, j);
}

proof fn lemma_no_digits(s: Seq<char>, i: int)
    requires
        0 <= i < s.len(),
        !('0' <= s[i] <= '9'),
    ensures
        digits_value(s, 10) is None,
    decreases s.len(),
{
    if i < s.len() - 1 {
        assert(s.drop_last()[i] == s[i]);
        lemma_no_digits(s.drop_last(), i);
    } else {
        lemma_no_digit(s.last());
    }
}

proof fn lemma_no_digit(c: char)
    requires
        !('0' <= c <= '9'),
    ensures
        digit_value(c, 10) is None,
{
}

}
