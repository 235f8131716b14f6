//! Text primitives shared by the rest of the crate: ordering, prefixes,
//! trimming, comma-separated lists and decimal numbers, each with a
//! contract over `Seq<char>`.

use vstd::prelude::*;

verus! {

/// The texts of a sequence of strings.
pub open spec fn texts(items: Seq<String>) -> Seq<Seq<char>> {
    Seq::new(items.len(), |i: int| items[i]@)
}

/// The text of an optional string.
pub open spec fn opt_text(value: Option<String>) -> Option<Seq<char>> {
    match value {
        Some(s) => Some(s@),
        None => None,
    }
}

/// Appending two texts one after the other is appending them joined.
pub proof fn lemma_append_twice(start: Seq<char>, a: Seq<char>, b: Seq<char>)
    ensures
        (start + a) + b == start + (a + b),
{
    assert((start + a) + b =~= start + (a + b));
}

/// The characters of `s`, in order.
pub fn chars_of(s: &str) -> (r: Vec<char>)
    ensures
        r@ == s@,
{
    let mut out: Vec<char> = Vec::new();
    for c in it: s.chars()
        invariant
            out@ == it.seq().take(it.index() as int),
            it.seq() == s@,
    {
        out.push(c);
        assert(out@ =~= it.seq().take(it.index() + 1));
    }
    assert(out@ =~= s@);
    out
}

/// Strict lexicographic order on texts, character by character, by code
/// point. A proper prefix comes before any text that extends it.
pub open spec fn lex_lt(a: Seq<char>, b: Seq<char>) -> bool
    decreases a.len(),
{
    if b.len() == 0 {
        false
    } else if a.len() == 0 {
        true
    } else if a[0] != b[0] {
        (a[0] as int) < (b[0] as int)
    } else {
        lex_lt(a.drop_first(), b.drop_first())
    }
}

/// No text comes before itself.
pub proof fn lemma_lex_irreflexive(a: Seq<char>)
    ensures
        !lex_lt(a, a),
    decreases a.len(),
{
    if a.len() > 0 {
        lemma_lex_irreflexive(a.drop_first());
    }
}

/// Of two texts at most one comes before the other.
pub proof fn lemma_lex_asymmetric(a: Seq<char>, b: Seq<char>)
    ensures
        lex_lt(a, b) ==> !lex_lt(b, a),
    decreases a.len(),
{
    if a.len() > 0 && b.len() > 0 && a[0] == b[0] {
        lemma_lex_asymmetric(a.drop_first(), b.drop_first());
    }
}

/// The order is transitive.
pub proof fn lemma_lex_transitive(a: Seq<char>, b: Seq<char>, c: Seq<char>)
    ensures
        lex_lt(a, b) && lex_lt(b, c) ==> lex_lt(a, c),
    decreases a.len(),
{
    if a.len() > 0 && b.len() > 0 && c.len() > 0 && a[0] == b[0] && b[0] == c[0] {
        lemma_lex_transitive(a.drop_first(), b.drop_first(), c.drop_first());
    }
}

/// Two texts neither of which comes before the other are the same text.
pub proof fn lemma_lex_total(a: Seq<char>, b: Seq<char>)
    ensures
        !lex_lt(a, b) && !lex_lt(b, a) ==> a == b,
    decreases a.len(),
{
    if a.len() > 0 && b.len() > 0 {
        if a[0] == b[0] {
            lemma_lex_total(a.drop_first(), b.drop_first());
            if !lex_lt(a, b) && !lex_lt(b, a) {
                assert(a =~= seq![a[0]] + a.drop_first());
                assert(b =~= seq![b[0]] + b.drop_first());
            }
        }
    } else if a.len() == 0 && b.len() == 0 {
        assert(a =~= b);
    }
}

/// A text that comes before neither of two others does not separate
/// them.
pub proof fn lemma_lex_negatively_transitive(a: Seq<char>, b: Seq<char>, c: Seq<char>)
    ensures
        !lex_lt(b, a) && !lex_lt(c, b) ==> !lex_lt(c, a),
{
    lemma_lex_total(a, b);
    lemma_lex_transitive(c, a, b);
}

/// The order of two texts is decided by their tails from `k` on when they
/// agree on the first `k` characters.
proof fn lemma_lex_skip_common(a: Seq<char>, b: Seq<char>, k: int)
    requires
        0 <= k <= a.len(),
        k <= b.len(),
        a.take(k) == b.take(k),
    ensures
        lex_lt(a, b) == lex_lt(a.skip(k), b.skip(k)),
    decreases k,
{
    if k == 0 {
        assert(a.skip(0) =~= a);
        assert(b.skip(0) =~= b);
    } else {
        assert(a[0] == a.take(k)[0]);
        assert(b[0] == b.take(k)[0]);
        assert(a.drop_first().take(k - 1) =~= a.take(k).drop_first());
        assert(b.drop_first().take(k - 1) =~= b.take(k).drop_first());
        lemma_lex_skip_common(a.drop_first(), b.drop_first(), k - 1);
        assert(a.drop_first().skip(k - 1) =~= a.skip(k));
        assert(b.drop_first().skip(k - 1) =~= b.skip(k));
    }
}

/// Whether `a` comes strictly before `b` in lexicographic order.
pub fn text_lt(a: &str, b: &str) -> (r: bool)
    ensures
        r == lex_lt(a@, b@),
{
    let left = chars_of(a);
    let right = chars_of(b);
    let n = left.len();
    let m = right.len();
    let mut i: usize = 0;
    while i < n && i < m
        invariant
            n == left@.len(),
            m == right@.len(),
            left@ == a@,
            right@ == b@,
            i <= n,
            i <= m,
            a@.take(i as int) == b@.take(i as int),
        decreases n - i,
    {
        let x = left[i];
        let y = right[i];
        if x != y {
            proof {
                lemma_lex_skip_common(a@, b@, i as int);
            }
            return x < y;
        }
        assert(a@.take(i + 1) =~= a@.take(i as int).push(x));
        assert(b@.take(i + 1) =~= b@.take(i as int).push(y));
        i += 1;
    }
    proof {
        lemma_lex_skip_common(a@, b@, i as int);
    }
    i < m
}

/// Equality of string slices, `str`'s `==` in std: two slices are equal
/// exactly when they hold the same characters.
pub assume_specification[ <str as PartialEq>::eq ](a: &str, b: &str) -> (r: bool)
    ensures
        r == (a@ == b@),
;

/// Whether `prefix` is a prefix of `text`.
pub fn starts_with(text: &str, prefix: &str) -> (r: bool)
    ensures
        r == prefix@.is_prefix_of(text@),
{
    let n = prefix.unicode_len();
    if n > text.unicode_len() {
        return false;
    }
    text.substring_char(0, n).eq(prefix)
}

/// The characters that count as white space when a text is trimmed.
pub open spec fn is_space(c: char) -> bool {
    ||| c == ' '
    ||| ('\u{9}' <= c && c <= '\u{d}')
    ||| c == '\u{85}'
    ||| c == '\u{a0}'
    ||| c == '\u{1680}'
    ||| ('\u{2000}' <= c && c <= '\u{200a}')
    ||| c == '\u{2028}'
    ||| c == '\u{2029}'
    ||| c == '\u{202f}'
    ||| c == '\u{205f}'
    ||| c == '\u{3000}'
}

/// Whether `c` is white space.
pub fn char_is_space(c: char) -> (r: bool)
    ensures
        r == is_space(c),
{
    c == ' ' || (c >= '\u{9}' && c <= '\u{d}') || c == '\u{85}' || c == '\u{a0}' || c
        == '\u{1680}' || (c >= '\u{2000}' && c <= '\u{200a}') || c == '\u{2028}' || c
        == '\u{2029}' || c == '\u{202f}' || c == '\u{205f}' || c == '\u{3000}'
}

/// `s` without its leading white space.
pub open spec fn skip_spaces(s: Seq<char>) -> Seq<char>
    decreases s.len(),
{
    if s.len() > 0 && is_space(s[0]) {
        skip_spaces(s.drop_first())
    } else {
        s
    }
}

/// `s` without its trailing white space.
pub open spec fn drop_trailing_spaces(s: Seq<char>) -> Seq<char>
    decreases s.len(),
{
    if s.len() > 0 && is_space(s.last()) {
        drop_trailing_spaces(s.drop_last())
    } else {
        s
    }
}

/// `s` without leading and trailing white space.
pub open spec fn trimmed(s: Seq<char>) -> Seq<char> {
    drop_trailing_spaces(skip_spaces(s))
}

/// The place of the first character of `chars`, from `from` on and before
/// `to`, that is no white space, or `to` where there is none; and the
/// place after the last one, from `to` back.
fn trim_bounds(chars: &Vec<char>, from: usize, to: usize) -> (r: (usize, usize))
    requires
        from <= to <= chars@.len(),
    ensures
        from <= r.0 <= r.1 <= to,
        trimmed(chars@.subrange(from as int, to as int)) == chars@.subrange(
            r.0 as int,
            r.1 as int,
        ),
{
    let ghost piece = chars@.subrange(from as int, to as int);
    let mut start: usize = from;
    assert(piece.skip(0) =~= piece);
    while start < to && char_is_space(chars[start])
        invariant
            from <= start <= to <= chars@.len(),
            piece == chars@.subrange(from as int, to as int),
            skip_spaces(piece) == skip_spaces(piece.skip(start - from)),
        decreases to - start,
    {
        assert(piece.skip(start - from).drop_first() =~= piece.skip(start - from + 1));
        start += 1;
    }
    assert(piece.skip(start - from) =~= chars@.subrange(start as int, to as int));
    let mut end: usize = to;
    while end > start && char_is_space(chars[end - 1])
        invariant
            from <= start <= end <= to <= chars@.len(),
            skip_spaces(piece) == chars@.subrange(start as int, to as int),
            trimmed(piece) == drop_trailing_spaces(chars@.subrange(start as int, end as int)),
        decreases end,
    {
        assert(chars@.subrange(start as int, end as int).drop_last() =~= chars@.subrange(
            start as int,
            end - 1,
        ));
        end -= 1;
    }
    (start, end)
}

/// A copy of `text` without leading and trailing white space.
pub fn trim(text: &str) -> (r: String)
    ensures
        r@ == trimmed(text@),
{
    let chars = chars_of(text);
    let bounds = trim_bounds(&chars, 0, chars.len());
    assert(chars@.subrange(0, chars@.len() as int) =~= text@);
    String::from_str(text.substring_char(bounds.0, bounds.1))
}

/// The position of the first comma of `s`, or its length where it has none.
pub open spec fn first_comma(s: Seq<char>) -> int
    decreases s.len(),
{
    if s.len() == 0 || s[0] == ',' {
        0
    } else {
        1 + first_comma(s.drop_first())
    }
}

/// The entries of a comma-separated list: each piece between commas is
/// trimmed, and the pieces that are then empty are left out.
pub open spec fn list_entries(s: Seq<char>) -> Seq<Seq<char>>
    decreases s.len(),
{
    let cut = first_comma(s);
    let head = trimmed(s.take(cut));
    let rest = if 0 <= cut < s.len() {
        list_entries(s.skip(cut + 1))
    } else {
        Seq::empty()
    };
    if head.len() > 0 {
        seq![head] + rest
    } else {
        rest
    }
}

/// The entries of a comma-separated list of commit identifiers.
pub fn split_list(text: &str) -> (r: Vec<String>)
    ensures
        texts(r@) == list_entries(text@),
{
    let chars = chars_of(text);
    let n = chars.len();
    let mut out: Vec<String> = Vec::new();
    let mut start: usize = 0;
    let mut done = false;
    assert(text@.skip(0) =~= text@);
    assert(texts(out@) + list_entries(text@) =~= list_entries(text@));
    while !done
        invariant
            n == text@.len(),
            chars@ == text@,
            start <= n,
            done ==> texts(out@) == list_entries(text@),
            !done ==> list_entries(text@) == texts(out@) + list_entries(text@.skip(start as int)),
        decreases (if done { 0int } else { 1int }), n - start,
    {
        let ghost tail = text@.skip(start as int);
        let mut cut: usize = start;
        while cut < n && chars[cut] != ','
            invariant
                n == text@.len(),
                chars@ == text@,
                start <= cut <= n,
                tail == text@.skip(start as int),
                first_comma(tail) == (cut - start) + first_comma(text@.skip(cut as int)),
            decreases n - cut,
        {
            assert(text@.skip(cut as int).drop_first() =~= text@.skip(cut + 1));
            cut += 1;
        }
        assert(first_comma(tail) == cut - start);
        assert(tail.take(cut - start) =~= text@.subrange(start as int, cut as int));
        let bounds = trim_bounds(&chars, start, cut);
        let ghost before = texts(out@);
        if bounds.1 > bounds.0 {
            let piece = String::from_str(text.substring_char(bounds.0, bounds.1));
            out.push(piece);
            assert(texts(out@) =~= before + seq![piece@]);
        }
        if cut < n {
            assert(tail.skip(cut - start + 1) =~= text@.skip(cut + 1));
            assert(list_entries(text@) =~= texts(out@) + list_entries(text@.skip(cut + 1)));
            start = cut + 1;
        } else {
            assert(list_entries(text@) =~= texts(out@));
            done = true;
        }
    }
    out
}

/// The ten decimal digits, in order.
pub open spec fn digits() -> Seq<char> {
    seq!['0', '1', '2', '3', '4', '5', '6', '7', '8', '9']
}

/// The decimal notation of `n`, without leading zeros.
pub open spec fn decimal(n: nat) -> Seq<char>
    decreases n,
{
    if n < 10 {
        seq![digits()[n as int]]
    } else {
        decimal(n / 10).push(digits()[(n % 10) as int])
    }
}

/// The decimal notation of `v`, with a minus sign where it is negative.
pub open spec fn signed_decimal(v: int) -> Seq<char> {
    if v < 0 {
        seq!['-'] + decimal((-v) as nat)
    } else {
        decimal(v as nat)
    }
}

/// Appends the decimal notation of `n` to `out`.
pub fn push_decimal(out: &mut String, n: u64)
    ensures
        final(out)@ == old(out)@ + decimal(n as nat),
    decreases n,
{
    if n >= 10 {
        push_decimal(out, n / 10);
    }
    let d: usize = (n % 10) as usize;
    proof {
        reveal_strlit("0123456789");
    }
    let digit = "0123456789".substring_char(d, d + 1);
    assert(digit@ =~= seq![digits()[d as int]]);
    out.append(digit);
    assert(out@ =~= old(out)@ + decimal(n as nat));
}

/// Appends the decimal notation of `v` to `out`.
pub fn push_signed_decimal(out: &mut String, v: i64)
    ensures
        final(out)@ == old(out)@ + signed_decimal(v as int),
{
    if v < 0 {
        proof {
            reveal_strlit("-");
        }
        out.append("-");
        let magnitude: u64 = ((-(v + 1)) as u64) + 1;
        push_decimal(out, magnitude);
        assert(out@ =~= old(out)@ + signed_decimal(v as int));
    } else {
        push_decimal(out, v as u64);
    }
}

/// `s` with `pad` put after each line break, so that every line after the
/// first starts with `pad`.
pub open spec fn indented(s: Seq<char>, pad: Seq<char>) -> Seq<char>
    decreases s.len(),
{
    if s.len() == 0 {
        s
    } else if s.last() == '\n' {
        indented(s.drop_last(), pad) + seq!['\n'] + pad
    } else {
        indented(s.drop_last(), pad).push(s.last())
    }
}

/// What follows the last line break of a text stays as it is.
pub proof fn lemma_indented_plain(s: Seq<char>, plain: Seq<char>, pad: Seq<char>)
    requires
        forall|i: int| 0 <= i < plain.len() ==> plain[i] != '\n',
    ensures
        indented(s + plain, pad) == indented(s, pad) + plain,
    decreases plain.len(),
{
    if plain.len() == 0 {
        assert(s + plain =~= s);
        assert(indented(s, pad) + plain =~= indented(s, pad));
    } else {
        let whole = s + plain;
        assert(whole.drop_last() =~= s + plain.drop_last());
        assert(whole.last() == plain.last());
        lemma_indented_plain(s, plain.drop_last(), pad);
        assert(indented(s, pad) + plain.drop_last().push(plain.last()) =~= (indented(s, pad)
            + plain.drop_last()).push(plain.last()));
        assert(plain.drop_last().push(plain.last()) =~= plain);
    }
}

/// Appends `text` to `out`, with `pad` after each of its line breaks.
pub fn push_indented(out: &mut String, text: &str, pad: &str)
    ensures
        final(out)@ == old(out)@ + indented(text@, pad@),
{
    let chars = chars_of(text);
    let n = chars.len();
    let mut start: usize = 0;
    let mut i: usize = 0;
    assert(out@ =~= old(out)@ + indented(text@.take(0), pad@));
    while i < n
        invariant
            n == text@.len(),
            chars@ == text@,
            start <= i <= n,
            out@ == old(out)@ + indented(text@.take(start as int), pad@),
            forall|j: int| start <= j < i ==> text@[j] != '\n',
        decreases n - i,
    {
        if chars[i] == '\n' {
            let ghost head = text@.take(start as int);
            let ghost line = text@.subrange(start as int, i as int);
            proof {
                lemma_indented_plain(head, line, pad@);
                assert(text@.take(i + 1).drop_last() =~= head + line);
                assert(text@.take(i + 1).last() == '\n');
                reveal_strlit("\n");
            }
            out.append(text.substring_char(start, i));
            out.append("\n");
            out.append(pad);
            assert("\n"@ =~= seq!['\n']);
            assert(out@ =~= old(out)@ + (indented(head, pad@) + line + seq!['\n'] + pad@));
            start = i + 1;
        }
        i += 1;
    }
    proof {
        let head = text@.take(start as int);
        let line = text@.subrange(start as int, n as int);
        lemma_indented_plain(head, line, pad@);
        assert(head + line =~= text@);
    }
    out.append(text.substring_char(start, n));
    assert(out@ =~= old(out)@ + indented(text@, pad@));
}

} // verus!
