//! Hex byte tokens in ELM327 replies: which words of a reply carry bytes,
//! what bytes they carry, and the round trip from bytes written in hex back
//! to the same bytes.
use vstd::prelude::*;
use crate::text::is_space;

verus! {

/// An ASCII hex digit, as `char::is_ascii_hexdigit` decides.
pub open spec fn is_hex_digit(c: char) -> bool {
    ||| ('0' <= c && c <= '9')
    ||| ('a' <= c && c <= 'f')
    ||| ('A' <= c && c <= 'F')
}

/// The value of an ASCII hex digit.
pub open spec fn hex_value(c: char) -> int {
    if '0' <= c && c <= '9' {
        c as int - '0' as int
    } else if 'a' <= c && c <= 'f' {
        c as int - 'a' as int + 10
    } else {
        c as int - 'A' as int + 10
    }
}

/// The pieces of `s` between white-space characters, empty pieces
/// included.
pub open spec fn split_words(s: Seq<char>) -> Seq<Seq<char>>
    decreases s.len(),
{
    if s.len() == 0 {
        seq![Seq::<char>::empty()]
    } else {
        let p = split_words(s.drop_last());
        if is_space(s.last()) {
            p.push(Seq::<char>::empty())
        } else {
            p.update(p.len() - 1, p.last().push(s.last()))
        }
    }
}

/// A word that stands for bytes: an even number, at least two, of hex
/// digits.
pub open spec fn is_hex_word(w: Seq<char>) -> bool {
    &&& w.len() >= 2
    &&& w.len() % 2 == 0
    &&& forall|i: int| 0 <= i < w.len() ==> is_hex_digit(#[trigger] w[i])
}

/// The bytes that the digit pairs of `w` stand for, first pair first.
pub open spec fn hex_pairs(w: Seq<char>) -> Seq<u8> {
    Seq::new(
        (w.len() / 2) as nat,
        |i: int| (16 * hex_value(w[2 * i]) + hex_value(w[2 * i + 1])) as u8,
    )
}

/// The bytes a word contributes: its pairs if it is a hex word, none
/// otherwise.
pub open spec fn word_bytes(w: Seq<char>) -> Seq<u8> {
    if is_hex_word(w) {
        hex_pairs(w)
    } else {
        Seq::<u8>::empty()
    }
}

/// The bytes of all words, in order.
pub open spec fn words_bytes(ws: Seq<Seq<char>>) -> Seq<u8>
    decreases ws.len(),
{
    if ws.len() == 0 {
        Seq::<u8>::empty()
    } else {
        words_bytes(ws.drop_last()) + word_bytes(ws.last())
    }
}

/// All bytes written in hex in a reply such as `41 0C 1A F8` or
/// `410C1AF8`.
pub open spec fn hex_bytes_in(s: Seq<char>) -> Seq<u8> {
    words_bytes(split_words(s))
}

/// The upper-case hex digit for a value below 16.
pub open spec fn upper_hex_digit(n: u8) -> char {
    if n < 10 {
        (48 + n) as char
    } else {
        (55 + n) as char
    }
}

/// A byte as two upper-case hex digits.
pub open spec fn hex_pair(b: u8) -> Seq<char> {
    seq![upper_hex_digit(b / 16), upper_hex_digit(b % 16)]
}

/// Bytes written as hex pairs with one space between pairs: `41 0C 1A F8`.
pub open spec fn spaced_hex(bs: Seq<u8>) -> Seq<char>
    decreases bs.len(),
{
    if bs.len() == 0 {
        Seq::<char>::empty()
    } else if bs.len() == 1 {
        hex_pair(bs[0])
    } else {
        spaced_hex(bs.drop_last()) + seq![' '] + hex_pair(bs.last())
    }
}

/// Bytes written as hex pairs with nothing between them: `410C1AF8`.
pub open spec fn compact_hex(bs: Seq<u8>) -> Seq<char>
    decreases bs.len(),
{
    if bs.len() == 0 {
        Seq::<char>::empty()
    } else {
        compact_hex(bs.drop_last()) + hex_pair(bs.last())
    }
}

/// Decodes one hex digit.
pub fn hex_digit_value(c: char) -> (r: Option<u8>)
    ensures
        r is Some <==> is_hex_digit(c),
        r matches Some(v) ==> v as int == hex_value(c) && v < 16,
{
    if '0' <= c && c <= '9' {
        Some(((c as u32) - 48) as u8)
    } else if 'a' <= c && c <= 'f' {
        Some(((c as u32) - 87) as u8)
    } else if 'A' <= c && c <= 'F' {
        Some(((c as u32) - 55) as u8)
    } else {
        None
    }
}

pub(crate) proof fn lemma_words_bytes_push(ws: Seq<Seq<char>>, w: Seq<char>)
    ensures
        words_bytes(ws.push(w)) == words_bytes(ws) + word_bytes(w),
{
    assert(ws.push(w).drop_last() =~= ws);
}

pub(crate) proof fn lemma_split_words_step(s: Seq<char>, c: char)
    ensures
        split_words(s.push(c)) == if is_space(c) {
            split_words(s).push(Seq::<char>::empty())
        } else {
            let p = split_words(s);
            p.update(p.len() - 1, p.last().push(c))
        },
{
    assert(s.push(c).drop_last() =~= s);
}

pub(crate) proof fn lemma_split_words_nonempty(s: Seq<char>)
    ensures
        split_words(s).len() >= 1,
    decreases s.len(),
{
    if s.len() > 0 {
        lemma_split_words_nonempty(s.drop_last());
    }
}

/// Appends the bytes that the word `w` contributes.
pub(crate) fn push_word_bytes(out: &mut Vec<u8>, w: &Vec<char>)
    ensures
        final(out)@ == old(out)@ + word_bytes(w@),
{
    let n: usize = w.len();
    if n < 2 || n % 2 != 0 {
        assert(word_bytes(w@) =~= Seq::<u8>::empty());
        return;
    }
    let mut i: usize = 0;
    while i < n
        invariant
            i <= n == w.len(),
            forall|j: int| 0 <= j < i ==> is_hex_digit(#[trigger] w@[j]),
        decreases n - i,
    {
        if hex_digit_value(w[i]).is_none() {
            assert(!is_hex_word(w@));
            assert(word_bytes(w@) =~= Seq::<u8>::empty());
            return;
        }
        i = i + 1;
    }
    assert(is_hex_word(w@));
    let ghost start = out@;
    let mut k: usize = 0;
    while k < n / 2
        invariant
            n == w.len(),
            n % 2 == 0,
            k <= n / 2,
            is_hex_word(w@),
            out@ == start + hex_pairs(w@).take(k as int),
        decreases n / 2 - k,
    {
        let hi: u8 = hex_digit_value(w[2 * k]).unwrap();
        let lo: u8 = hex_digit_value(w[2 * k + 1]).unwrap();
        out.push(16 * hi + lo);
        proof {
            assert(hex_pairs(w@).take(k + 1) =~= hex_pairs(w@).take(k as int).push(
                (16 * hi + lo) as u8,
            ));
        }
        k = k + 1;
    }
    assert(hex_pairs(w@).take((n / 2) as int) =~= hex_pairs(w@));
}

proof fn lemma_upper_hex_digit(n: u8)
    requires
        0 <= n < 16,
    ensures
        is_hex_digit(upper_hex_digit(n)),
        hex_value(upper_hex_digit(n)) == n,
        !is_space(upper_hex_digit(n)),
{
}

proof fn lemma_hex_pair(b: u8)
    ensures
        hex_pair(b).len() == 2,
        is_hex_word(hex_pair(b)),
        hex_pairs(hex_pair(b)) == seq![b],
        word_bytes(hex_pair(b)) == seq![b],
        !is_space(hex_pair(b)[0]),
        !is_space(hex_pair(b)[1]),
{
    lemma_upper_hex_digit(b / 16);
    lemma_upper_hex_digit(b % 16);
    assert(hex_pairs(hex_pair(b)) =~= seq![b]);
}

/// Splitting `s + p`, where `p` holds no white space, extends the last word
/// of `s` by `p`.
proof fn lemma_split_words_extend(s: Seq<char>, p: Seq<char>)
    requires
        forall|i: int| 0 <= i < p.len() ==> !is_space(#[trigger] p[i]),
    ensures
        split_words(s + p) == split_words(s).update(
            split_words(s).len() - 1,
            split_words(s).last() + p,
        ),
    decreases p.len(),
{
    lemma_split_words_nonempty(s);
    if p.len() == 0 {
        assert(s + p =~= s);
        assert(split_words(s).last() + p =~= split_words(s).last());
        assert(split_words(s).update(split_words(s).len() - 1, split_words(s).last())
            =~= split_words(s));
    } else {
        let q = p.drop_last();
        lemma_split_words_extend(s, q);
        assert(s + p =~= (s + q).push(p.last()));
        lemma_split_words_step(s + q, p.last());
        assert((split_words(s).last() + q).push(p.last()) =~= split_words(s).last() + p);
        assert(split_words(s + p) =~= split_words(s).update(
            split_words(s).len() - 1,
            split_words(s).last() + p,
        ));
    }
}

/// Every byte written as two upper-case hex digits, the pairs separated by
/// single spaces, is read back as the same bytes.
pub proof fn law_spaced_hex_round_trip(bs: Seq<u8>)
    requires
        bs.len() > 0,
    ensures
        hex_bytes_in(spaced_hex(bs)) == bs,
    decreases bs.len(),
{
    let e = Seq::<char>::empty();
    if bs.len() == 1 {
        lemma_hex_pair(bs[0]);
        lemma_split_words_extend(e, hex_pair(bs[0]));
        assert(e + hex_pair(bs[0]) =~= hex_pair(bs[0]));
        let ws = split_words(hex_pair(bs[0]));
        assert(split_words(e) == seq![e]);
        assert(seq![e].update(0, e + hex_pair(bs[0])) =~= seq![hex_pair(bs[0])]);
        assert(ws =~= seq![hex_pair(bs[0])]);
        lemma_words_bytes_push(Seq::<Seq<char>>::empty(), hex_pair(bs[0]));
        assert(seq![hex_pair(bs[0])] =~= Seq::<Seq<char>>::empty().push(hex_pair(bs[0])));
        assert(bs =~= seq![bs[0]]);
    } else {
        let init = bs.drop_last();
        let b = bs.last();
        law_spaced_hex_round_trip(init);
        lemma_hex_pair(b);
        let a = spaced_hex(init).push(' ');
        assert(spaced_hex(bs) == spaced_hex(init) + seq![' '] + hex_pair(b));
        assert(spaced_hex(init) + seq![' '] =~= a);
        lemma_split_words_step(spaced_hex(init), ' ');
        let wa = split_words(a);
        assert(wa == split_words(spaced_hex(init)).push(e));
        lemma_split_words_extend(a, hex_pair(b));
        assert(wa.last() + hex_pair(b) =~= hex_pair(b));
        assert(split_words(a + hex_pair(b)) =~= split_words(spaced_hex(init)).push(hex_pair(b)));
        lemma_words_bytes_push(split_words(spaced_hex(init)), hex_pair(b));
        assert(bs =~= init + seq![b]);
    }
}

proof fn lemma_compact_hex_shape(bs: Seq<u8>)
    ensures
        compact_hex(bs).len() == 2 * bs.len(),
        forall|i: int|
            0 <= i < bs.len() ==> compact_hex(bs)[2 * i] == upper_hex_digit(bs[i] / 16)
                && compact_hex(bs)[2 * i + 1] == upper_hex_digit(bs[i] % 16),
    decreases bs.len(),
{
    if bs.len() > 0 {
        let init = bs.drop_last();
        lemma_compact_hex_shape(init);
        assert forall|i: int| 0 <= i < bs.len() implies compact_hex(bs)[2 * i]
            == upper_hex_digit(bs[i] / 16) && compact_hex(bs)[2 * i + 1] == upper_hex_digit(
            bs[i] % 16,
        ) by {
            if i < bs.len() - 1 {
                assert(bs[i] == init[i]);
            }
        }
    }
}

/// Bytes written as upper-case hex pairs with nothing between them form a
/// single word that is read back as the same bytes.
pub proof fn law_compact_hex_round_trip(bs: Seq<u8>)
    requires
        bs.len() > 0,
    ensures
        hex_bytes_in(compact_hex(bs)) == bs,
{
    let c = compact_hex(bs);
    let e = Seq::<char>::empty();
    lemma_compact_hex_shape(bs);
    assert forall|i: int| 0 <= i < c.len() implies is_hex_digit(#[trigger] c[i])
        && !is_space(c[i]) by {
        let k: int = i / 2;
        if i % 2 == 0 {
            assert(i == 2 * k);
            lemma_upper_hex_digit(bs[k] / 16);
        } else {
            assert(i == 2 * k + 1);
            lemma_upper_hex_digit(bs[k] % 16);
        }
    }
    lemma_split_words_extend(e, c);
    assert(e + c =~= c);
    assert(split_words(e) == seq![e]);
    assert(seq![e].update(0, e + c) =~= seq![c]);
    assert(split_words(c) =~= Seq::<Seq<char>>::empty().push(c));
    lemma_words_bytes_push(Seq::<Seq<char>>::empty(), c);
    assert forall|i: int| 0 <= i < bs.len() implies #[trigger] hex_pairs(c)[i] == bs[i] by {
        lemma_upper_hex_digit(bs[i] / 16);
        lemma_upper_hex_digit(bs[i] % 16);
    }
    assert(hex_pairs(c) =~= bs);
}

} // verus!
