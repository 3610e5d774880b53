//! Lines of text as bytes: blanks and words, decimal numbers, and lines made
//! of fields.

use vstd::prelude::*;

verus! {

/// Whether a byte separates words: a space, a tab, a line feed, a vertical
/// tab, a form feed or a carriage return.
pub open spec fn is_blank(b: u8) -> bool {
    b == 32 || (9 <= b && b <= 13)
}

/// Whether a sequence of bytes can stand as one word of a line: it is not
/// empty and holds no blank.
pub open spec fn is_word(w: Seq<u8>) -> bool {
    w.len() > 0 && forall|i: int| 0 <= i < w.len() ==> !is_blank(#[trigger] w[i])
}

/// Whether the last byte of `s` belongs to a word.
pub open spec fn ends_in_word(s: Seq<u8>) -> bool {
    s.len() > 0 && !is_blank(s.last())
}

/// The words of `s`, in order: its longest runs of bytes that are not blank.
/// Read from the left, a byte that is not blank lengthens the word that the
/// byte before it belongs to, or starts a new one after a blank.
pub open spec fn words(s: Seq<u8>) -> Seq<Seq<u8>>
    decreases s.len(),
{
    if s.len() == 0 {
        Seq::empty()
    } else {
        let before = words(s.drop_last());
        if is_blank(s.last()) {
            before
        } else if ends_in_word(s.drop_last()) {
            before.drop_last().push(before.last().push(s.last()))
        } else {
            before.push(seq![s.last()])
        }
    }
}

/// The contents of each byte vector of a list.
pub open spec fn views(v: Seq<Vec<u8>>) -> Seq<Seq<u8>> {
    Seq::new(v.len(), |i: int| v[i]@)
}

pub fn blank(b: u8) -> (r: bool)
    ensures
        r == is_blank(b),
{
    b == 32 || (9 <= b && b <= 13)
}

/// Whether a byte string can stand as one word of a line.
pub fn is_word_text(w: &[u8]) -> (word: bool)
    ensures
        word == is_word(w@),
{
    if w.len() == 0 {
        return false;
    }
    let mut i: usize = 0;
    while i < w.len()
        invariant
            i <= w.len(),
            forall|j: int| 0 <= j < i ==> !is_blank(#[trigger] w[j]),
        decreases w.len() - i,
    {
        if blank(w[i]) {
            return false;
        }
        i += 1;
    }
    true
}

/// Splits a line into its words.
pub fn split_words(line: &[u8]) -> (out: Vec<Vec<u8>>)
    ensures
        views(out@) == words(line@),
{
    let mut out: Vec<Vec<u8>> = Vec::new();
    let mut cur: Vec<u8> = Vec::new();
    let mut i: usize = 0;
    assert(line@.take(0) =~= Seq::<u8>::empty());
    assert(views(out@) =~= Seq::<Seq<u8>>::empty());
    while i < line.len()
        invariant
            i <= line.len(),
            cur.len() > 0 <==> ends_in_word(line@.take(i as int)),
            cur.len() > 0 ==> words(line@.take(i as int)) == views(out@).push(cur@),
            cur.len() == 0 ==> words(line@.take(i as int)) == views(out@),
        decreases line.len() - i,
    {
        let b = line[i];
        proof {
            let s = line@.take(i + 1);
            assert(s.drop_last() =~= line@.take(i as int));
            assert(s.last() == b);
        }
        let ghost old_out = views(out@);
        let ghost old_cur = cur@;
        if blank(b) {
            if cur.len() > 0 {
                out.push(cur);
                cur = Vec::new();
                assert(views(out@) =~= old_out.push(old_cur));
            }
        } else {
            cur.push(b);
            proof {
                if old_cur.len() > 0 {
                    assert(old_out.push(old_cur).drop_last() =~= old_out);
                } else {
                    assert(cur@ =~= seq![b]);
                }
            }
        }
        i += 1;
    }
    assert(line@.take(i as int) =~= line@);
    if cur.len() > 0 {
        let ghost old_out = views(out@);
        let ghost old_cur = cur@;
        out.push(cur);
        assert(views(out@) =~= old_out.push(old_cur));
    }
    out
}

/// Every word of a sequence is a word, and a sequence whose last byte belongs
/// to a word has one.
pub proof fn lemma_words_are_words(s: Seq<u8>)
    ensures
        forall|i: int| 0 <= i < words(s).len() ==> is_word(#[trigger] words(s)[i]),
        ends_in_word(s) ==> words(s).len() > 0,
    decreases s.len(),
{
    if s.len() > 0 {
        lemma_words_are_words(s.drop_last());
        let before = words(s.drop_last());
        if !is_blank(s.last()) && ends_in_word(s.drop_last()) {
            let grown = before.last().push(s.last());
            assert(is_word(before[before.len() - 1]));
            assert(is_word(grown));
        } else if !is_blank(s.last()) {
            assert(is_word(seq![s.last()]));
        }
    }
}

/// Splitting distributes over a cut that does not fall inside a word: where
/// `s` does not end in a word, the words of `s` followed by `t` are the
/// words of `s`, then the words of `t`.
pub proof fn lemma_words_concat(s: Seq<u8>, t: Seq<u8>)
    requires
        !ends_in_word(s),
    ensures
        words(s + t) == words(s) + words(t),
        ends_in_word(s + t) == ends_in_word(t),
    decreases t.len(),
{
    if t.len() == 0 {
        assert(s + t =~= s);
        assert(words(s) + words(t) =~= words(s));
    } else {
        let head = t.drop_last();
        assert((s + t).drop_last() =~= s + head);
        assert((s + t).last() == t.last());
        lemma_words_concat(s, head);
        lemma_words_are_words(head);
        let before = words(s) + words(head);
        if is_blank(t.last()) {
        } else if ends_in_word(head) {
            let grown = words(head).last().push(t.last());
            assert(before.drop_last() =~= words(s) + words(head).drop_last());
            assert(before.last() == words(head).last());
            assert(before.drop_last().push(grown) =~= words(s) + words(head).drop_last().push(
                grown,
            ));
        } else {
            assert(before.push(seq![t.last()]) =~= words(s) + words(head).push(seq![t.last()]));
        }
    }
}

/// A word is its own only word.
pub proof fn lemma_words_of_word(w: Seq<u8>)
    requires
        is_word(w),
    ensures
        words(w) == seq![w],
    decreases w.len(),
{
    let head = w.drop_last();
    assert(!is_blank(w[w.len() - 1]));
    if head.len() == 0 {
        assert(words(head) =~= Seq::<Seq<u8>>::empty());
        assert(Seq::<Seq<u8>>::empty().push(seq![w.last()]) =~= seq![w]) by {
            assert(seq![w.last()] =~= w);
        }
    } else {
        assert(is_word(head)) by {
            assert forall|i: int| 0 <= i < head.len() implies !is_blank(#[trigger] head[i]) by {
                assert(head[i] == w[i]);
            }
        }
        assert(!is_blank(head[head.len() - 1]));
        lemma_words_of_word(head);
        assert(head.push(w.last()) =~= w);
        assert(seq![head].drop_last().push(w) =~= seq![w]);
    }
}

/// Blanks alone hold no word.
pub proof fn lemma_words_of_blanks(s: Seq<u8>)
    requires
        forall|i: int| 0 <= i < s.len() ==> is_blank(#[trigger] s[i]),
    ensures
        words(s) == Seq::<Seq<u8>>::empty(),
    decreases s.len(),
{
    if s.len() > 0 {
        let head = s.drop_last();
        assert(is_blank(s[s.len() - 1]));
        assert forall|i: int| 0 <= i < head.len() implies is_blank(#[trigger] head[i]) by {
            assert(head[i] == s[i]);
        }
        lemma_words_of_blanks(head);
    }
}

/// A word written after a sequence that does not end in a word is the last
/// word of the result, and the words before it stay.
pub proof fn lemma_words_append_word(s: Seq<u8>, w: Seq<u8>)
    requires
        !ends_in_word(s),
        is_word(w),
    ensures
        words(s + w) == words(s).push(w),
        ends_in_word(s + w),
{
    lemma_words_concat(s, w);
    lemma_words_of_word(w);
    assert(!is_blank(w[w.len() - 1]));
    assert(words(s) + seq![w] =~= words(s).push(w));
}

/// The decimal digits `0` to `9`.
pub open spec fn is_digit(b: u8) -> bool {
    48 <= b && b <= 57
}

pub open spec fn all_digits(s: Seq<u8>) -> bool {
    forall|i: int| 0 <= i < s.len() ==> is_digit(#[trigger] s[i])
}

/// The number that a sequence of decimal digits writes.
pub open spec fn decimal(s: Seq<u8>) -> nat
    decreases s.len(),
{
    if s.len() == 0 {
        0
    } else {
        decimal(s.drop_last()) * 10 + (s.last() - 48) as nat
    }
}

/// A word without the plus sign that may stand before its digits.
pub open spec fn unsigned(s: Seq<u8>) -> Seq<u8> {
    if s.len() > 0 && s[0] == 43 {
        s.skip(1)
    } else {
        s
    }
}

/// The index that a word writes: one or more decimal digits, after at most
/// one plus sign, whose number fits 32 bits.
pub open spec fn index_of(s: Seq<u8>) -> Option<u32> {
    let d = unsigned(s);
    if d.len() > 0 && all_digits(d) && decimal(d) <= u32::MAX {
        Some(decimal(d) as u32)
    } else {
        None
    }
}

/// Digits written after a number make it no smaller.
pub proof fn lemma_decimal_prefix(s: Seq<u8>, k: int)
    requires
        all_digits(s),
        0 <= k <= s.len(),
    ensures
        decimal(s.take(k)) <= decimal(s),
    decreases s.len() - k,
{
    if k < s.len() {
        let t = s.take(k + 1);
        assert(t.drop_last() =~= s.take(k));
        assert(is_digit(s[k]));
        assert(t.last() == s[k]);
        lemma_decimal_prefix(s, k + 1);
    } else {
        assert(s.take(k) =~= s);
    }
}

/// Reads the index that a word writes.
pub fn parse_index(word: &[u8]) -> (index: Option<u32>)
    ensures
        index == index_of(word@),
{
    let start: usize = if word.len() > 0 && word[0] == 43 { 1 } else { 0 };
    let ghost d = unsigned(word@);
    assert(d =~= word@.skip(start as int));
    if start == word.len() {
        return None;
    }
    let mut value: u64 = 0;
    let mut i: usize = start;
    assert(d.take(0) =~= Seq::<u8>::empty());
    while i < word.len()
        invariant
            start <= i <= word.len(),
            d == word@.skip(start as int),
            d == unsigned(word@),
            all_digits(d.take(i - start)),
            value == decimal(d.take(i - start)),
            value <= u32::MAX,
        decreases word.len() - i,
    {
        let b = word[i];
        assert(d[i - start] == b);
        if b < 48 || b > 57 {
            assert(!is_digit(d[i - start]));
            return None;
        }
        let ghost t = d.take(i - start + 1);
        proof {
            assert(t.drop_last() =~= d.take(i - start));
            assert(t.last() == b);
            assert forall|j: int| 0 <= j < t.len() implies is_digit(#[trigger] t[j]) by {
                if j < i - start {
                    assert(d.take(i - start)[j] == t[j]);
                }
            }
        }
        value = value * 10 + (b - 48) as u64;
        assert(value == decimal(t));
        if value > 0xffff_ffff {
            proof {
                if all_digits(d) {
                    lemma_decimal_prefix(d, i - start + 1);
                }
            }
            return None;
        }
        i += 1;
    }
    assert(d.take(i - start) =~= d);
    Some(value as u32)
}

/// The digits that write a number in decimal, without leading zeros.
pub open spec fn decimal_text(n: nat) -> Seq<u8>
    decreases n,
{
    if n < 10 {
        seq![(48 + n) as u8]
    } else {
        decimal_text(n / 10).push((48 + n % 10) as u8)
    }
}

/// Writes a number in decimal.
pub fn render_decimal(n: usize) -> (text: Vec<u8>)
    ensures
        text@ == decimal_text(n as nat),
    decreases n,
{
    if n < 10 {
        let mut text: Vec<u8> = Vec::new();
        text.push(48 + n as u8);
        assert(text@ =~= decimal_text(n as nat));
        text
    } else {
        let mut text = render_decimal(n / 10);
        text.push(48 + (n % 10) as u8);
        text
    }
}

/// A number written in decimal is a word of digits that reads back as the
/// same number.
pub proof fn lemma_decimal_round_trip(n: nat)
    ensures
        is_word(decimal_text(n)),
        all_digits(decimal_text(n)),
        decimal(decimal_text(n)) == n,
        unsigned(decimal_text(n)) == decimal_text(n),
    decreases n,
{
    let t = decimal_text(n);
    if n < 10 {
        assert(t.drop_last() =~= Seq::<u8>::empty());
        assert(decimal(t.drop_last()) == 0);
    } else {
        lemma_decimal_round_trip(n / 10);
        let head = decimal_text(n / 10);
        assert(t.drop_last() =~= head);
        assert(t[0] == head[0]);
        assert forall|i: int| 0 <= i < t.len() implies is_digit(#[trigger] t[i]) && !is_blank(t[i]) by {
            if i < head.len() {
                assert(t[i] == head[i]);
            }
        }
    }
}

/// Whether a byte is a plus or a minus sign.
pub open spec fn is_sign(b: u8) -> bool {
    b == 43 || b == 45
}

/// A capital letter as its small letter, any other byte as it is.
pub open spec fn lower(b: u8) -> u8 {
    if 65 <= b && b <= 90 {
        (b + 32) as u8
    } else {
        b
    }
}

/// The bytes of `s` from place `i` on, capital letters made small.
pub open spec fn lowered_from(s: Seq<u8>, i: int) -> Seq<u8> {
    Seq::new((s.len() - i) as nat, |k: int| lower(s[i + k]))
}

/// The place after the run of digits that starts at `i`.
pub open spec fn digits_end(s: Seq<u8>, i: int) -> int
    decreases s.len() - i,
{
    if 0 <= i < s.len() && is_digit(s[i]) {
        digits_end(s, i + 1)
    } else {
        i
    }
}

/// The place after the mantissa that starts at `i`: digits, and at most one
/// point among them.
pub open spec fn mantissa_end(s: Seq<u8>, i: int) -> int {
    let whole = digits_end(s, i);
    if whole < s.len() && s[whole] == 46 {
        digits_end(s, whole + 1)
    } else {
        whole
    }
}

/// The number of digits in the mantissa that starts at `i`.
pub open spec fn mantissa_digits(s: Seq<u8>, i: int) -> int {
    let whole = digits_end(s, i);
    if whole < s.len() && s[whole] == 46 {
        mantissa_end(s, i) - i - 1
    } else {
        whole - i
    }
}

/// Whether `s` from place `j` to its end is an exponent: the letter `e`,
/// small or capital, at most one sign, and one or more digits.
pub open spec fn exponent_at(s: Seq<u8>, j: int) -> bool {
    &&& 0 <= j
    &&& j + 1 < s.len()
    &&& lower(s[j]) == 101
    &&& {
        let d = if is_sign(s[j + 1]) {
            j + 2
        } else {
            j + 1
        };
        d < s.len() && digits_end(s, d) == s.len()
    }
}

/// Whether `s` from place `i` to its end is a number in digits: a mantissa
/// with at least one digit, then at most one exponent.
pub open spec fn plain_number_at(s: Seq<u8>, i: int) -> bool {
    mantissa_digits(s, i) >= 1 && (mantissa_end(s, i) == s.len() || exponent_at(
        s,
        mantissa_end(s, i),
    ))
}

/// The word `inf`.
pub open spec fn word_inf() -> Seq<u8> {
    seq![105u8, 110u8, 102u8]
}

/// The word `infinity`.
pub open spec fn word_infinity() -> Seq<u8> {
    seq![105u8, 110u8, 102u8, 105u8, 110u8, 105u8, 116u8, 121u8]
}

/// The word `nan`.
pub open spec fn word_nan() -> Seq<u8> {
    seq![110u8, 97u8, 110u8]
}

/// Whether `s` from place `i` to its end names a number that digits cannot
/// write: `inf`, `infinity` or `nan`, in small or capital letters.
pub open spec fn special_at(s: Seq<u8>, i: int) -> bool {
    lowered_from(s, i) == word_inf() || lowered_from(s, i) == word_infinity() || lowered_from(
        s,
        i,
    ) == word_nan()
}

/// The place after the sign that a number may start with.
pub open spec fn sign_end(s: Seq<u8>) -> int {
    if s.len() > 0 && is_sign(s[0]) {
        1
    } else {
        0
    }
}

/// Whether a word writes a number that may have a fractional part, in the
/// form that the standard library reads as a floating-point number: at most
/// one sign, then either `inf`, `infinity` or `nan` in any case, or digits
/// with at most one point among them and at least one digit, and after them
/// at most one exponent.
pub open spec fn is_number(s: Seq<u8>) -> bool {
    special_at(s, sign_end(s)) || plain_number_at(s, sign_end(s))
}

/// A run of digits ends within the sequence, at or after its start, and
/// every byte of it is a digit.
pub proof fn lemma_digits_run(s: Seq<u8>, i: int)
    requires
        0 <= i <= s.len(),
    ensures
        i <= digits_end(s, i) <= s.len(),
        forall|k: int| i <= k < digits_end(s, i) ==> is_digit(#[trigger] s[k]),
    decreases s.len() - i,
{
    if i < s.len() && is_digit(s[i]) {
        lemma_digits_run(s, i + 1);
    }
}

/// A word that writes a number can stand as a word of a line.
pub proof fn lemma_number_is_word(s: Seq<u8>)
    requires
        is_number(s),
    ensures
        is_word(s),
{
    let i = sign_end(s);
    if special_at(s, i) {
        let l = lowered_from(s, i);
        assert(l.len() == 3 || l.len() == 8);
        assert forall|k: int| 0 <= k < s.len() implies !is_blank(#[trigger] s[k]) by {
            if k >= i {
                assert(l[k - i] == lower(s[k]));
                assert(97 <= l[k - i] <= 122);
            }
        }
    } else {
        lemma_digits_run(s, i);
        let whole = digits_end(s, i);
        let end = mantissa_end(s, i);
        if whole < s.len() && s[whole] == 46 {
            lemma_digits_run(s, whole + 1);
        }
        if end < s.len() {
            let d = if is_sign(s[end + 1]) {
                end + 2
            } else {
                end + 1
            };
            lemma_digits_run(s, d);
        }
        assert forall|k: int| 0 <= k < s.len() implies !is_blank(#[trigger] s[k]) by {
            if k < i {
            } else if k < whole {
                assert(is_digit(s[k]));
            } else if k < end {
                if k > whole {
                    assert(is_digit(s[k]));
                }
            } else if k == end {
            } else if k == end + 1 {
                if !is_sign(s[k]) {
                    assert(is_digit(s[k]));
                }
            } else {
                assert(is_digit(s[k]));
            }
        }
    }
}

/// The place after the run of digits that starts at `i`.
fn skip_digits(s: &[u8], i: usize) -> (j: usize)
    requires
        i <= s.len(),
    ensures
        j == digits_end(s@, i as int),
        i <= j <= s.len(),
{
    let mut j: usize = i;
    while j < s.len() && 48 <= s[j] && s[j] <= 57
        invariant
            i <= j <= s.len(),
            digits_end(s@, j as int) == digits_end(s@, i as int),
        decreases s.len() - j,
    {
        j += 1;
    }
    j
}

/// Whether `s` from place `i` on is `word` but for the case of its letters.
/// `word` is in small letters.
fn reads_as(s: &[u8], i: usize, word: &[u8]) -> (same: bool)
    requires
        i <= s.len(),
    ensures
        same == (lowered_from(s@, i as int) == word@),
{
    if s.len() - i != word.len() {
        return false;
    }
    let mut k: usize = 0;
    while k < word.len()
        invariant
            i <= s.len(),
            s.len() - i == word.len(),
            k <= word.len(),
            forall|m: int| 0 <= m < k ==> lower(s[i + m]) == word[m],
        decreases word.len() - k,
    {
        let b = s[i + k];
        let small = if 65 <= b && b <= 90 { b + 32 } else { b };
        if small != word[k] {
            assert(lowered_from(s@, i as int)[k as int] != word@[k as int]);
            return false;
        }
        k += 1;
    }
    assert(lowered_from(s@, i as int) =~= word@);
    true
}

/// Whether a word writes a number that may have a fractional part.
pub fn is_number_text(word: &[u8]) -> (number: bool)
    ensures
        number == is_number(word@),
{
    let start: usize = if word.len() > 0 && (word[0] == 43 || word[0] == 45) { 1 } else { 0 };
    let inf = vec![105u8, 110u8, 102u8];
    let infinity = vec![105u8, 110u8, 102u8, 105u8, 110u8, 105u8, 116u8, 121u8];
    let nan = vec![110u8, 97u8, 110u8];
    assert(inf@ =~= word_inf() && infinity@ =~= word_infinity() && nan@ =~= word_nan());
    if reads_as(word, start, inf.as_slice()) || reads_as(word, start, infinity.as_slice())
        || reads_as(word, start, nan.as_slice()) {
        return true;
    }
    let whole = skip_digits(word, start);
    let mut end = whole;
    let mut digits = whole - start;
    if whole < word.len() && word[whole] == 46 {
        end = skip_digits(word, whole + 1);
        digits = end - start - 1;
    }
    if digits < 1 {
        return false;
    }
    if end == word.len() {
        return true;
    }
    if end + 1 >= word.len() || !(word[end] == 101 || word[end] == 69) {
        return false;
    }
    let first: usize = if word[end + 1] == 43 || word[end + 1] == 45 { end + 2 } else { end + 1 };
    if first >= word.len() {
        return false;
    }
    skip_digits(word, first) == word.len()
}

/// Whether two byte strings hold the same bytes.
pub fn same_bytes(a: &[u8], b: &[u8]) -> (same: bool)
    ensures
        same == (a@ == b@),
{
    if a.len() != b.len() {
        return false;
    }
    let mut i: usize = 0;
    while i < a.len()
        invariant
            i <= a.len(),
            a.len() == b.len(),
            forall|j: int| 0 <= j < i ==> a[j] == b[j],
        decreases a.len() - i,
    {
        if a[i] != b[i] {
            return false;
        }
        i += 1;
    }
    assert(a@ =~= b@);
    true
}

/// A copy of a byte string.
pub fn copy_bytes(src: &[u8]) -> (copy: Vec<u8>)
    ensures
        copy@ == src@,
{
    let mut copy: Vec<u8> = Vec::new();
    let mut i: usize = 0;
    while i < src.len()
        invariant
            i <= src.len(),
            copy@ == src@.take(i as int),
        decreases src.len() - i,
    {
        copy.push(src[i]);
        assert(copy@ =~= src@.take(i + 1));
        i += 1;
    }
    assert(src@.take(i as int) =~= src@);
    copy
}

/// The fields of a line, each parted from the next by one space.
pub open spec fn joined(fields: Seq<Seq<u8>>) -> Seq<u8>
    decreases fields.len(),
{
    if fields.len() == 0 {
        Seq::empty()
    } else if fields.len() == 1 {
        fields[0]
    } else {
        joined(fields.drop_last()) + seq![32u8] + fields.last()
    }
}

/// A line as it goes on the wire: its fields parted by single spaces, then a
/// line feed.
pub open spec fn line_of(fields: Seq<Seq<u8>>) -> Seq<u8> {
    joined(fields) + seq![10u8]
}

/// Writes a line from its fields.
pub fn encode_line(fields: &Vec<Vec<u8>>) -> (line: Vec<u8>)
    ensures
        line@ == line_of(views(fields@)),
{
    let mut line: Vec<u8> = Vec::new();
    let mut i: usize = 0;
    let ghost all = views(fields@);
    assert(all.take(0) =~= Seq::<Seq<u8>>::empty());
    while i < fields.len()
        invariant
            i <= fields.len(),
            all == views(fields@),
            line@ == joined(all.take(i as int)),
        decreases fields.len() - i,
    {
        if i > 0 {
            line.push(32);
        }
        let mut piece = copy_bytes(fields[i].as_slice());
        line.append(&mut piece);
        proof {
            let now = all.take(i + 1);
            assert(now.drop_last() =~= all.take(i as int));
            assert(now.last() == fields[i as int]@);
            if i == 0 {
                assert(line@ =~= now[0]);
            }
        }
        i += 1;
    }
    assert(all.take(i as int) =~= all);
    line.push(10);
    line
}

/// The words of an encoded line are its fields, where each field can stand
/// as a word.
pub proof fn lemma_line_round_trip(fields: Seq<Seq<u8>>)
    requires
        forall|i: int| 0 <= i < fields.len() ==> is_word(#[trigger] fields[i]),
    ensures
        words(line_of(fields)) == fields,
{
    lemma_words_of_joined(fields);
    let line = line_of(fields);
    assert(line.drop_last() =~= joined(fields));
}

/// The words of joined fields are the fields, and the last byte belongs to
/// the last field.
pub proof fn lemma_words_of_joined(fields: Seq<Seq<u8>>)
    requires
        forall|i: int| 0 <= i < fields.len() ==> is_word(#[trigger] fields[i]),
    ensures
        words(joined(fields)) == fields,
        ends_in_word(joined(fields)) == (fields.len() > 0),
    decreases fields.len(),
{
    if fields.len() == 0 {
        assert(fields =~= Seq::<Seq<u8>>::empty());
    } else if fields.len() == 1 {
        let none = Seq::<u8>::empty();
        assert(is_word(fields[0]));
        lemma_words_append_word(none, fields[0]);
        assert(none + fields[0] =~= fields[0]);
        assert(Seq::<Seq<u8>>::empty().push(fields[0]) =~= fields);
    } else {
        let head = fields.drop_last();
        assert forall|i: int| 0 <= i < head.len() implies is_word(#[trigger] head[i]) by {
            assert(head[i] == fields[i]);
        }
        lemma_words_of_joined(head);
        let spaced = joined(head) + seq![32u8];
        assert(spaced.drop_last() =~= joined(head));
        assert(words(spaced) == head);
        assert(is_word(fields[fields.len() - 1]));
        lemma_words_append_word(spaced, fields.last());
        assert(head.push(fields.last()) =~= fields);
    }
}

} // verus!
