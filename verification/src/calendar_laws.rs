//! What the text of a time says: read back digit by digit, it is the date
//! and the clock of that time.
use crate::calendar::{date_text, is_date_of, is_time_of, padded, valid_date};
use crate::text::decimal;
use crate::text_laws::{law_decimals_read_back, number_read};
use vstd::prelude::*;

verus! {

proof fn lemma_zeros(n: nat, s: Seq<char>)
    ensures
        number_read(Seq::new(n, |i: int| '0') + s) == number_read(s),
    decreases s.len(),
{
    let z = Seq::new(n, |i: int| '0');
    if s.len() == 0 {
        assert(z + s =~= z);
        lemma_all_zeros(n);
    } else {
        assert((z + s).drop_last() =~= z + s.drop_last());
        assert((z + s).last() == s.last());
        lemma_zeros(n, s.drop_last());
    }
}

proof fn lemma_all_zeros(n: nat)
    ensures
        number_read(Seq::new(n, |i: int| '0')) == 0,
    decreases n,
{
    let z = Seq::new(n, |i: int| '0');
    if n > 0 {
        lemma_all_zeros((n - 1) as nat);
        assert(z.drop_last() =~= Seq::new((n - 1) as nat, |i: int| '0'));
    }
}

/// A padded number reads back as the number, and is as wide as was asked
/// for, or as wide as it must be.
pub proof fn law_padded_numbers_read_back(n: nat, width: nat)
    ensures
        number_read(padded(n, width)) == n,
        padded(n, width).len() == if decimal(n).len() < width {
            width
        } else {
            decimal(n).len()
        },
{
    law_decimals_read_back(n);
    let digits = decimal(n);
    if digits.len() < width {
        lemma_zeros((width - digits.len()) as nat, digits);
    }
}

/// Two digits hold what is less than a hundred.
proof fn lemma_two_digits(n: nat)
    requires
        n < 100,
    ensures
        padded(n, 2).len() == 2,
        number_read(padded(n, 2)) == n,
{
    law_padded_numbers_read_back(n, 2);
    if n >= 10 {
        assert(decimal(n) == decimal(n / 10).push(crate::text::digit(n % 10)));
        assert(decimal(n / 10).len() == 1);
    }
}

/// The text of a day of our era is its year, month and day, each read back
/// digit by digit.
pub proof fn law_dates_read_back(y: int, m: int, d: int)
    requires
        0 <= y,
        valid_date(y, m, d),
    ensures
        ({
            let text = date_text(y, m, d);
            let n = text.len() as int;
            &&& n >= 10
            &&& text[n - 3] == '-' && text[n - 6] == '-'
            &&& number_read(text.subrange(n - 2, n)) == d
            &&& number_read(text.subrange(n - 5, n - 3)) == m
            &&& number_read(text.take(n - 6)) == y
        }),
{
    reveal_strlit("-");
    let year = padded(y as nat, 4);
    let month = padded(m as nat, 2);
    let day = padded(d as nat, 2);
    law_padded_numbers_read_back(y as nat, 4);
    lemma_two_digits(m as nat);
    lemma_two_digits(d as nat);
    let text = date_text(y, m, d);
    let n = text.len() as int;
    assert(n == year.len() + 6);
    assert(text.subrange(n - 2, n) =~= day);
    assert(text.subrange(n - 5, n - 3) =~= month);
    assert(text.take(n - 6) =~= year);
}

/// The text of a time ends with its clock: hours, minutes and seconds of the
/// day, each read back, after the day's own text.
pub proof fn law_times_read_back(text: Seq<char>, secs: nat)
    requires
        is_time_of(text, secs),
    ensures
        ({
            let n = text.len() as int;
            &&& n >= 10
            &&& text[n - 1] == 'Z' && text[n - 4] == ':' && text[n - 7] == ':' && text[n - 10]
                == 'T'
            &&& number_read(text.subrange(n - 3, n - 1)) == secs % 60
            &&& number_read(text.subrange(n - 6, n - 4)) == secs / 60 % 60
            &&& number_read(text.subrange(n - 9, n - 7)) == secs / 3600 % 24
            &&& is_date_of(text.take(n - 10), (secs / 86_400) as int)
        }),
{
    reveal_strlit("T");
    reveal_strlit(":");
    reveal_strlit("Z");
    let h = secs % 86_400 / 3600;
    let m = secs % 3600 / 60;
    let s = secs % 60;
    lemma_two_digits(h);
    lemma_two_digits(m);
    lemma_two_digits(s);
    assert(h == secs / 3600 % 24);
    assert(m == secs / 60 % 60);
    let clock = "T"@ + padded(h, 2) + ":"@ + padded(m, 2) + ":"@ + padded(s, 2) + "Z"@;
    let date = choose|date: Seq<char>| #[trigger]
        is_date_of(date, (secs / 86_400) as int) && text == date + clock;
    let n = text.len() as int;
    assert(clock.len() == 10);
    assert(text.take(n - 10) =~= date);
    assert(text.subrange(n - 3, n - 1) =~= padded(s, 2));
    assert(text.subrange(n - 6, n - 4) =~= padded(m, 2));
    assert(text.subrange(n - 9, n - 7) =~= padded(h, 2));
}

}
