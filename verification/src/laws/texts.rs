//! What is made of texts.

use vstd::prelude::*;

use crate::a2l::number::hexits_value;
use crate::text::{
    dec, digit, hex, hex_upper, is_padding, joined, lower, lowered, split, trimmed, trimmed_end,
    trimmed_start, upper,
};

verus! {

/// A trimmed text is the part of it from the first to the last character that is not
/// padding.
pub proof fn law_trimming_takes_the_padding_off(s: Seq<char>, nul: bool)
    ensures
        ({
            let t = trimmed(s, nul);
            &&& t.len() > 0 ==> !is_padding(t[0], nul) && !is_padding(t.last(), nul)
            &&& exists|i: int, j: int|
                0 <= i <= j <= s.len() && t == #[trigger] s.subrange(i, j) && (forall|k: int|
                    0 <= k < s.len() && !(i <= k < j) ==> is_padding(#[trigger] s[k], nul))
        }),
{
    let u = trimmed_start(s, nul);
    lemma_start(s, nul);
    let i = s.len() - u.len();
    let t = trimmed_end(u, nul);
    lemma_end(u, nul);
    let j = i + t.len();
    assert(t == s.subrange(i, j));
    assert forall|k: int| 0 <= k < s.len() && !(i <= k < j) implies is_padding(
        #[trigger] s[k],
        nul,
    ) by {
        if k >= j {
            assert(u[k - i] == s[k]);
        }
    }
    if t.len() > 0 {
        assert(t[0] == u[0]);
    }
}

proof fn lemma_start(s: Seq<char>, nul: bool)
    ensures
        ({
            let u = trimmed_start(s, nul);
            &&& u.len() <= s.len()
            &&& u == s.skip(s.len() - u.len())
            &&& u.len() > 0 ==> !is_padding(u[0], nul)
            &&& forall|k: int| 0 <= k < s.len() - u.len() ==> is_padding(#[trigger] s[k], nul)
        }),
    decreases s.len(),
{
    if s.len() > 0 && is_padding(s[0], nul) {
        let rest = s.skip(1);
        lemma_start(rest, nul);
        let u = trimmed_start(s, nul);
        assert(u == s.skip(s.len() - u.len()));
        assert forall|k: int| 0 <= k < s.len() - u.len() implies is_padding(#[trigger] s[k], nul) by {
            if k > 0 {
                assert(rest[k - 1] == s[k]);
            }
        }
    } else {
        assert(s.skip(0) == s);
    }
}

proof fn lemma_end(s: Seq<char>, nul: bool)
    ensures
        ({
            let u = trimmed_end(s, nul);
            &&& u.len() <= s.len()
            &&& u == s.take(u.len() as int)
            &&& u.len() > 0 ==> !is_padding(u.last(), nul)
            &&& forall|k: int| u.len() <= k < s.len() ==> is_padding(#[trigger] s[k], nul)
        }),
    decreases s.len(),
{
    if s.len() > 0 && is_padding(s.last(), nul) {
        let rest = s.drop_last();
        lemma_end(rest, nul);
        let u = trimmed_end(s, nul);
        assert(u == s.take(u.len() as int));
        assert forall|k: int| u.len() <= k < s.len() implies is_padding(#[trigger] s[k], nul) by {
            if k < s.len() - 1 {
                assert(rest[k] == s[k]);
            }
        }
    } else {
        assert(s.take(s.len() as int) == s);
    }
}

/// The pieces of a text with what parted them put between again.
pub open spec fn rejoined(pieces: Seq<Seq<char>>, c: char) -> Seq<char>
    decreases pieces.len(),
{
    if pieces.len() == 0 {
        Seq::empty()
    } else if pieces.len() == 1 {
        pieces[0]
    } else {
        pieces[0].push(c) + rejoined(pieces.skip(1), c)
    }
}

proof fn lemma_rejoined_push(pieces: Seq<Seq<char>>, last: Seq<char>, c: char)
    requires
        pieces.len() > 0,
    ensures
        rejoined(pieces.push(last), c) == rejoined(pieces, c).push(c) + last,
    decreases pieces.len(),
{
    let all = pieces.push(last);
    if pieces.len() == 1 {
        assert(all.skip(1) == seq![last]);
        assert(rejoined(all.skip(1), c) == last);
        assert(rejoined(all, c) == pieces[0].push(c) + last);
    } else {
        assert(all.skip(1) == pieces.skip(1).push(last));
        lemma_rejoined_push(pieces.skip(1), last, c);
        assert(rejoined(all, c) == rejoined(pieces, c).push(c) + last);
    }
}

/// A text is parted at every occurrence of a character, and nowhere else: no piece holds
/// it, and the pieces with it between them are the text again.
pub proof fn law_pieces_make_the_text(s: Seq<char>, c: char)
    ensures
        split(s, c).len() >= 1,
        rejoined(split(s, c), c) == s,
        forall|i: int, j: int|
            0 <= i < split(s, c).len() && 0 <= j < split(s, c)[i].len() ==> #[trigger] split(
                s,
                c,
            )[i][j] != c,
    decreases s.len(),
{
    let all = split(s, c);
    if s.len() == 0 {
        assert(rejoined(all, c) == s);
    } else {
        let before = split(s.drop_last(), c);
        law_pieces_make_the_text(s.drop_last(), c);
        if s.last() == c {
            lemma_rejoined_push(before, Seq::empty(), c);
            assert(rejoined(all, c) == s);
            assert forall|i: int, j: int| 0 <= i < all.len() && 0 <= j < all[i].len() implies
                #[trigger] all[i][j] != c by {
                assert(all[i] == before[i]);
            }
        } else {
            let head = before.drop_last();
            let last = before.last().push(s.last());
            assert(before == head.push(before.last()));
            if head.len() > 0 {
                lemma_rejoined_push(head, before.last(), c);
                lemma_rejoined_push(head, last, c);
            } else {
                assert(before == seq![before.last()]);
                assert(all == seq![last]);
                assert(rejoined(before, c) == before.last());
            }
            assert(all == head.push(last));
            assert(s == s.drop_last().push(s.last()));
            assert(rejoined(all, c) == rejoined(before, c).push(s.last()));
            assert forall|i: int, j: int| 0 <= i < all.len() && 0 <= j < all[i].len() implies
                #[trigger] all[i][j] != c by {
                if i < head.len() {
                    assert(all[i] == before[i]);
                } else if j < before.last().len() {
                    assert(before[head.len() as int][j] != c);
                }
            }
        }
    }
}

/// The hexadecimal digits are 0 to 9 and A to F, or a to f.
pub proof fn law_the_digits(d: nat)
    requires
        d < 16,
    ensures
        d < 10 ==> digit(d, true) as int == '0' as int + d,
        d < 10 ==> digit(d, false) as int == '0' as int + d,
        d >= 10 ==> digit(d, true) as int == 'A' as int + d - 10,
        d >= 10 ==> digit(d, false) as int == 'a' as int + d - 10,
{
}

/// Letters have a case, and nothing else has.
pub proof fn law_letters_have_a_case(c: char)
    ensures
        'A' <= c <= 'Z' ==> lower(c) as int - 'a' as int == c as int - 'A' as int && upper(c) == c,
        'a' <= c <= 'z' ==> upper(c) as int - 'A' as int == c as int - 'a' as int && lower(c) == c,
        !('A' <= c <= 'Z') && !('a' <= c <= 'z') ==> lower(c) == c && upper(c) == c,
        upper(lower(c)) == upper(c),
        lower(upper(c)) == lower(c),
{
}

/// Lower case twice is lower case once.
pub proof fn law_lower_case_stays(s: Seq<char>)
    ensures
        lowered(lowered(s)) == lowered(s),
{
    assert(lowered(lowered(s)) == lowered(s));
}

/// Printed numbers read back, in decimal and in hexadecimal.
pub proof fn law_printed_numbers_read_back(n: nat)
    ensures
        crate::text::digits_value(dec(n)) == Some(n),
        hexits_value(hex(n, true)) == Some(n),
    decreases n,
{
    crate::text::lemma_dec_round_trip(n);
    if n >= 16 {
        law_printed_numbers_read_back(n / 16);
        let s = hex(n, true);
        assert(s.drop_last() =~= hex(n / 16, true));
        assert(s.last() == digit(n % 16, true));
        assert(s.len() > 1) by {
            assert(hex(n / 16, true).len() > 0);
        }
        assert((n / 16) * 16 + n % 16 == n);
    } else {
        assert(hex(n, true).last() == digit(n, true));
    }
}

/// A number is filled up with zeroes in front to its width, and never cut.
pub proof fn law_numbers_are_filled_up(n: nat, width: nat, i: int)
    ensures
        ({
            let bare = hex(n, true);
            let full = hex_upper(n, width);
            &&& full.len() >= width
            &&& full.len() == width || full == bare
            &&& full.skip(full.len() - bare.len()) == bare
            &&& 0 <= i < full.len() - bare.len() ==> full[i] == '0'
        }),
{
    let bare = hex(n, true);
    let full = hex_upper(n, width);
    assert(full.skip(full.len() - bare.len()) =~= bare);
}

/// Texts are joined with the separator between each two of them, and nowhere else.
pub proof fn law_texts_are_joined(parts: Seq<Seq<char>>, last: Seq<char>, sep: Seq<char>)
    ensures
        joined(Seq::empty(), sep) == Seq::<char>::empty(),
        joined(seq![last], sep) == last,
        parts.len() > 0 ==> joined(parts.push(last), sep) == joined(parts, sep) + sep + last,
{
    assert(parts.push(last).drop_last() =~= parts);
}

} // verus!
