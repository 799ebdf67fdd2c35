//! Text primitives shared by the rest of the crate.
//!
//! A string is modelled as the sequence of its Unicode scalar values.
use vstd::prelude::*;
use vstd::string::*;
use vstd::utf8::*;

verus! {

/// The contents of a list of strings.
pub open spec fn texts(list: Seq<String>) -> Seq<Seq<char>> {
    list.map_values(|t: String| t@)
}

/// Whether two strings hold the same text.
pub fn same_text(a: &str, b: &str) -> (same: bool)
    ensures
        same == (a@ == b@),
{
    let x = a.as_bytes();
    let y = b.as_bytes();
    proof {
        encode_utf8_decode_utf8(a@);
        encode_utf8_decode_utf8(b@);
    }
    if x.len() != y.len() {
        return false;
    }
    let mut i: usize = 0;
    while i < x.len()
        invariant
            i <= x.len(),
            x.len() == y.len(),
            x@ == encode_utf8(a@),
            y@ == encode_utf8(b@),
            forall|j: int| 0 <= j < i ==> x@[j] == y@[j],
        decreases x.len() - i,
    {
        if x[i] != y[i] {
            return false;
        }
        i += 1;
    }
    assert(x@ =~= y@);
    true
}

/// The characters of a string, one by one.
pub fn chars_of(s: &str) -> (chars: Vec<char>)
    ensures
        chars@ == s@,
{
    let mut chars: Vec<char> = Vec::new();
    for c in it: s.chars()
        invariant
            it.seq() == s@,
            chars@ == s@.take(it.index() as int),
    {
        chars.push(c);
        assert(chars@ =~= s@.take(it.index() as int + 1));
    }
    assert(s@.take(s@.len() as int) =~= s@);
    chars
}

// ---------------------------------------------------------------------------
// White space
// ---------------------------------------------------------------------------

/// The characters with the Unicode property `White_Space`.
pub open spec fn white_space(c: char) -> bool {
    ||| '\u{9}' <= c <= '\u{d}'
    ||| c == '\u{20}'
    ||| c == '\u{85}'
    ||| c == '\u{a0}'
    ||| c == '\u{1680}'
    ||| '\u{2000}' <= c <= '\u{200a}'
    ||| c == '\u{2028}'
    ||| c == '\u{2029}'
    ||| c == '\u{202f}'
    ||| c == '\u{205f}'
    ||| c == '\u{3000}'
}

/// Whether `c` is white space.
pub fn is_white_space(c: char) -> (res: bool)
    ensures
        res == white_space(c),
{
    ('\u{9}' <= c && c <= '\u{d}') || c == '\u{20}' || c == '\u{85}' || c == '\u{a0}' || c
        == '\u{1680}' || ('\u{2000}' <= c && c <= '\u{200a}') || c == '\u{2028}' || c == '\u{2029}'
        || c == '\u{202f}' || c == '\u{205f}' || c == '\u{3000}'
}

/// Nothing but white space.
pub open spec fn blank(s: Seq<char>) -> bool {
    forall|i: int| 0 <= i < s.len() ==> white_space(s[i])
}

/// `s` without the white space it begins with.
pub open spec fn trimmed_start(s: Seq<char>) -> Seq<char>
    decreases s.len(),
{
    if s.len() > 0 && white_space(s[0]) {
        trimmed_start(s.skip(1))
    } else {
        s
    }
}

/// `s` without the white space it ends with.
pub open spec fn trimmed_end(s: Seq<char>) -> Seq<char>
    decreases s.len(),
{
    if s.len() > 0 && white_space(s.last()) {
        trimmed_end(s.drop_last())
    } else {
        s
    }
}

/// `s` without the white space around it.
pub open spec fn trimmed(s: Seq<char>) -> Seq<char> {
    trimmed_end(trimmed_start(s))
}

/// Removes the white space around `s`.
pub fn trim(s: &str) -> (res: &str)
    ensures
        res@ == trimmed(s@),
{
    let chars = chars_of(s);
    let mut from: usize = 0;
    assert(s@.skip(0) =~= s@);
    while from < chars.len() && is_white_space(chars[from])
        invariant
            chars@ == s@,
            from <= chars.len(),
            trimmed_start(s@) == trimmed_start(s@.skip(from as int)),
        decreases chars.len() - from,
    {
        assert(s@.skip(from as int).skip(1) =~= s@.skip(from as int + 1));
        from += 1;
    }
    let ghost start = s@.skip(from as int);
    assert(trimmed_start(s@) == start);
    let mut to: usize = chars.len();
    assert(start =~= s@.subrange(from as int, to as int));
    while from < to && is_white_space(chars[to - 1])
        invariant
            chars@ == s@,
            from <= to <= chars.len(),
            trimmed_end(start) == trimmed_end(s@.subrange(from as int, to as int)),
        decreases to - from,
    {
        assert(s@.subrange(from as int, to as int).drop_last() =~= s@.subrange(
            from as int,
            to as int - 1,
        ));
        to -= 1;
    }
    s.substring_char(from, to)
}

/// Trimming leaves no white space at either end and takes nothing else away.
pub proof fn lemma_trimmed(s: Seq<char>)
    ensures
        trimmed(s).len() > 0 ==> !white_space(trimmed(s)[0]) && !white_space(trimmed(s).last()),
        exists|from: int, to: int|
            0 <= from <= to <= s.len() && trimmed(s) == #[trigger] s.subrange(from, to) && blank(
                s.take(from),
            ) && blank(s.skip(to)),
{
    let from = lemma_trimmed_start(s);
    let t = trimmed_start(s);
    let len = lemma_trimmed_end(t);
    assert(t.take(len) =~= s.subrange(from, from + len));
    assert(s.skip(from + len) =~= t.skip(len));
}

proof fn lemma_trimmed_start(s: Seq<char>) -> (from: int)
    ensures
        0 <= from <= s.len(),
        trimmed_start(s) == s.skip(from),
        blank(s.take(from)),
        from < s.len() ==> !white_space(s[from]),
    decreases s.len(),
{
    if s.len() > 0 && white_space(s[0]) {
        let rest = lemma_trimmed_start(s.skip(1));
        assert(s.skip(1).skip(rest) =~= s.skip(rest + 1));
        assert forall|i: int| 0 <= i < rest + 1 implies white_space(
            #[trigger] s.take(rest + 1)[i],
        ) by {
            if i > 0 {
                assert(white_space(s.skip(1).take(rest)[i - 1]));
            }
        }
        rest + 1
    } else {
        assert(s.skip(0) =~= s);
        0
    }
}

proof fn lemma_trimmed_end(s: Seq<char>) -> (len: int)
    ensures
        0 <= len <= s.len(),
        trimmed_end(s) == s.take(len),
        blank(s.skip(len)),
        len > 0 ==> !white_space(s[len - 1]) && s.take(len)[0] == s[0],
    decreases s.len(),
{
    if s.len() > 0 && white_space(s.last()) {
        let len = lemma_trimmed_end(s.drop_last());
        assert(s.drop_last().take(len) =~= s.take(len));
        assert forall|i: int| 0 <= i < s.len() - len implies white_space(
            #[trigger] s.skip(len)[i],
        ) by {
            if i + len < s.len() - 1 {
                assert(white_space(s.drop_last().skip(len)[i]));
            }
        }
        len
    } else {
        assert(s.take(s.len() as int) =~= s);
        s.len() as int
    }
}

/// Trimming brings in no character.
pub proof fn lemma_trimmed_holds_the_same_characters(s: Seq<char>)
    ensures
        forall|c: char| #[trigger] trimmed(s).contains(c) ==> s.contains(c),
{
    let from = lemma_trimmed_start(s);
    let len = lemma_trimmed_end(trimmed_start(s));
    assert forall|c: char| #[trigger] trimmed(s).contains(c) implies s.contains(c) by {
        let k = choose|k: int| 0 <= k < trimmed(s).len() && trimmed(s)[k] == c;
        assert(s[from + k] == c);
    }
}

/// What trims to nothing is exactly what is blank.
pub proof fn lemma_trimmed_empty_iff_blank(s: Seq<char>)
    ensures
        trimmed(s).len() == 0 <==> blank(s),
{
    let from = lemma_trimmed_start(s);
    let len = lemma_trimmed_end(trimmed_start(s));
    if trimmed(s).len() == 0 {
        assert forall|i: int| 0 <= i < s.len() implies white_space(s[i]) by {
            if i < from {
                assert(white_space(s.take(from)[i]));
            } else {
                assert(white_space(trimmed_start(s).skip(0)[i - from]));
            }
        }
    }
}

/// Whether `s` is empty once the white space around it is gone.
pub fn is_blank(s: &str) -> (res: bool)
    ensures
        res == blank(s@),
{
    proof {
        lemma_trimmed_empty_iff_blank(s@);
    }
    trim(s).unicode_len() == 0
}

// ---------------------------------------------------------------------------
// Splitting and joining
// ---------------------------------------------------------------------------

/// The pieces of `s` between occurrences of `separator`. There is always at
/// least one piece, and a piece may be empty.
pub open spec fn pieces(s: Seq<char>, separator: char) -> Seq<Seq<char>>
    decreases s.len(),
{
    if s.len() == 0 {
        seq![Seq::<char>::empty()]
    } else {
        let before = pieces(s.drop_last(), separator);
        if s.last() == separator {
            before.push(Seq::<char>::empty())
        } else {
            before.drop_last().push(before.last().push(s.last()))
        }
    }
}

/// The pieces one after the other, with `separator` between any two.
pub open spec fn joined(list: Seq<Seq<char>>, separator: Seq<char>) -> Seq<char>
    decreases list.len(),
{
    if list.len() == 0 {
        Seq::<char>::empty()
    } else if list.len() == 1 {
        list[0]
    } else {
        joined(list.drop_last(), separator) + separator + list.last()
    }
}

/// Splits `s` at every occurrence of `separator`.
pub fn split(s: &str, separator: char) -> (list: Vec<String>)
    ensures
        texts(list@) == pieces(s@, separator),
{
    let chars = chars_of(s);
    let mut list: Vec<String> = Vec::new();
    let mut from: usize = 0;
    let mut i: usize = 0;
    assert(s@.subrange(0, 0) =~= Seq::<char>::empty());
    assert(s@.take(0) =~= Seq::<char>::empty());
    assert(texts(list@).push(s@.subrange(0, 0)) =~= pieces(s@.take(0), separator));
    while i < chars.len()
        invariant
            chars@ == s@,
            from <= i <= chars.len(),
            texts(list@).push(s@.subrange(from as int, i as int)) == pieces(
                s@.take(i as int),
                separator,
            ),
        decreases chars.len() - i,
    {
        let ghost open = s@.subrange(from as int, i as int);
        let ghost before = texts(list@);
        assert(s@.take(i as int + 1).drop_last() =~= s@.take(i as int));
        assert(before.push(open).drop_last() =~= before);
        if chars[i] == separator {
            list.push(s.substring_char(from, i).to_owned());
            from = i + 1;
            assert(texts(list@) =~= before.push(open));
            assert(s@.subrange(from as int, i as int + 1) =~= Seq::<char>::empty());
        } else {
            assert(s@.subrange(from as int, i as int + 1) =~= open.push(s@[i as int]));
        }
        i += 1;
    }
    let ghost before = texts(list@);
    list.push(s.substring_char(from, i).to_owned());
    assert(texts(list@) =~= before.push(s@.subrange(from as int, i as int)));
    assert(s@.take(i as int) =~= s@);
    list
}

/// Joins the strings of `list`, with `separator` between any two.
pub fn join(list: &Vec<String>, separator: &str) -> (res: String)
    ensures
        res@ == joined(texts(list@), separator@),
{
    let mut res = String::new();
    let mut i: usize = 0;
    while i < list.len()
        invariant
            i <= list.len(),
            res@ == joined(texts(list@).take(i as int), separator@),
        decreases list.len() - i,
    {
        let ghost next = texts(list@).take(i as int + 1);
        assert(next.drop_last() =~= texts(list@).take(i as int));
        if i > 0 {
            res.append(separator);
        }
        res.append(list[i].as_str());
        assert(res@ =~= joined(next, separator@));
        i += 1;
    }
    assert(texts(list@).take(i as int) =~= texts(list@));
    res
}

/// There is at least one piece, and no piece holds the separator.
pub proof fn lemma_pieces_are_free_of_the_separator(s: Seq<char>, separator: char)
    ensures
        pieces(s, separator).len() > 0,
        forall|i: int|
            0 <= i < pieces(s, separator).len() ==> !(#[trigger] pieces(s, separator)[i]).contains(
                separator,
            ),
    decreases s.len(),
{
    if s.len() > 0 {
        let before = pieces(s.drop_last(), separator);
        lemma_pieces_are_free_of_the_separator(s.drop_last(), separator);
        if s.last() != separator {
            let grown = before.last().push(s.last());
            assert(!before[before.len() - 1].contains(separator));
            assert forall|k: int| 0 <= k < grown.len() implies grown[k] != separator by {
                if k < before.last().len() {
                    assert(before.last().contains(before.last()[k]));
                }
            }
        }
    }
}

/// A piece holds no character that the whole does not hold.
pub proof fn lemma_pieces_hold_the_same_characters(s: Seq<char>, separator: char, i: int)
    requires
        0 <= i < pieces(s, separator).len(),
    ensures
        forall|c: char| #[trigger] pieces(s, separator)[i].contains(c) ==> s.contains(c),
    decreases s.len(),
{
    if s.len() > 0 {
        let rest = s.drop_last();
        let before = pieces(rest, separator);
        let all = pieces(s, separator);
        lemma_pieces_are_free_of_the_separator(rest, separator);
        assert forall|c: char| #[trigger] all[i].contains(c) implies s.contains(c) by {
            let k = choose|k: int| 0 <= k < all[i].len() && all[i][k] == c;
            if i < before.len() {
                lemma_pieces_hold_the_same_characters(rest, separator, i);
                if k < before[i].len() && before[i][k] == c {
                    assert(before[i].contains(c));
                    let m = choose|m: int| 0 <= m < rest.len() && rest[m] == c;
                    assert(s[m] == c);
                } else {
                    assert(s[s.len() - 1] == c);
                }
            }
        }
    }
}

/// Joining the pieces with the separator gives back what was split.
pub proof fn lemma_joined_pieces(s: Seq<char>, separator: char)
    ensures
        joined(pieces(s, separator), seq![separator]) == s,
    decreases s.len(),
{
    lemma_pieces_are_free_of_the_separator(s, separator);
    if s.len() > 0 {
        let before = pieces(s.drop_last(), separator);
        let all = pieces(s, separator);
        lemma_pieces_are_free_of_the_separator(s.drop_last(), separator);
        lemma_joined_pieces(s.drop_last(), separator);
        assert(s =~= s.drop_last().push(s.last()));
        if s.last() == separator {
            assert(all.drop_last() =~= before);
            assert(joined(all, seq![separator]) =~= s);
        } else {
            assert(all.drop_last() =~= before.drop_last());
            assert(joined(all, seq![separator]) =~= joined(before, seq![separator]).push(s.last()));
        }
    }
}

/// Splitting a joined list gives back the list, where it is not empty and no
/// item holds the separator.
pub proof fn lemma_pieces_of_joined(list: Seq<Seq<char>>, separator: char)
    requires
        list.len() > 0,
        forall|i: int| 0 <= i < list.len() ==> !(#[trigger] list[i]).contains(separator),
    ensures
        pieces(joined(list, seq![separator]), separator) == list,
    decreases list.len(),
{
    let sep = seq![separator];
    if list.len() == 1 {
        lemma_pieces_append(Seq::empty(), list[0], separator);
        assert(Seq::<char>::empty() + list[0] =~= list[0]);
        assert(pieces(list[0], separator) =~= list);
    } else {
        let init = list.drop_last();
        assert forall|i: int| 0 <= i < init.len() implies !(#[trigger] init[i]).contains(
            separator,
        ) by {
            assert(init[i] == list[i]);
        }
        lemma_pieces_of_joined(init, separator);
        let head = joined(init, sep) + sep;
        assert(head.drop_last() =~= joined(init, sep));
        assert(pieces(head, separator) == init.push(Seq::<char>::empty()));
        lemma_pieces_append(head, list.last(), separator);
        assert(pieces(head + list.last(), separator) =~= list);
    }
}

/// Text without a separator only makes the last piece longer.
proof fn lemma_pieces_append(head: Seq<char>, tail: Seq<char>, separator: char)
    requires
        !tail.contains(separator),
    ensures
        pieces(head + tail, separator) == pieces(head, separator).drop_last().push(
            pieces(head, separator).last() + tail,
        ),
    decreases tail.len(),
{
    lemma_pieces_are_free_of_the_separator(head, separator);
    let base = pieces(head, separator);
    if tail.len() == 0 {
        assert(head + tail =~= head);
        assert(base.last() + tail =~= base.last());
        assert(base.drop_last().push(base.last()) =~= base);
    } else {
        let shorter = tail.drop_last();
        assert forall|k: int| 0 <= k < shorter.len() implies shorter[k] != separator by {
            assert(tail.contains(tail[k]));
        }
        assert(tail.contains(tail[tail.len() - 1]));
        lemma_pieces_append(head, shorter, separator);
        let before = pieces(head + shorter, separator);
        assert((head + tail).drop_last() =~= head + shorter);
        assert(before.drop_last() =~= base.drop_last());
        assert(before.last().push(tail.last()) =~= base.last() + tail);
    }
}

// ---------------------------------------------------------------------------
// Affixes
// ---------------------------------------------------------------------------

/// `s` without the copies of `prefix` it begins with.
pub open spec fn without_prefixes(s: Seq<char>, prefix: Seq<char>) -> Seq<char>
    decreases s.len(),
{
    if prefix.len() > 0 && prefix.is_prefix_of(s) {
        without_prefixes(s.skip(prefix.len() as int), prefix)
    } else {
        s
    }
}

/// `s` without the copies of `suffix` it ends with.
pub open spec fn without_suffixes(s: Seq<char>, suffix: Seq<char>) -> Seq<char>
    decreases s.len(),
{
    if suffix.len() > 0 && suffix.is_suffix_of(s) {
        without_suffixes(s.take(s.len() - suffix.len()), suffix)
    } else {
        s
    }
}

/// Removes `prefix` from the front of `s` for as long as `s` begins with it.
pub fn strip_prefixes<'a>(s: &'a str, prefix: &str) -> (res: &'a str)
    ensures
        res@ == without_prefixes(s@, prefix@),
{
    let width = prefix.unicode_len();
    let mut rest: &'a str = s;
    if width == 0 {
        return rest;
    }
    let mut len = rest.unicode_len();
    while len >= width && same_text(rest.substring_char(0, width), prefix)
        invariant
            width == prefix@.len(),
            width > 0,
            len == rest@.len(),
            without_prefixes(s@, prefix@) == without_prefixes(rest@, prefix@),
        decreases len,
    {
        assert(rest@.subrange(0, width as int) =~= rest@.take(width as int));
        assert(rest@.subrange(width as int, len as int) =~= rest@.skip(width as int));
        rest = rest.substring_char(width, len);
        len = len - width;
    }
    assert(len >= width ==> rest@.subrange(0, width as int) =~= rest@.take(width as int));
    rest
}

/// Removes `suffix` from the back of `s` for as long as `s` ends with it.
pub fn strip_suffixes<'a>(s: &'a str, suffix: &str) -> (res: &'a str)
    ensures
        res@ == without_suffixes(s@, suffix@),
{
    let width = suffix.unicode_len();
    let mut rest: &'a str = s;
    if width == 0 {
        return rest;
    }
    let mut len = rest.unicode_len();
    while len >= width && same_text(rest.substring_char(len - width, len), suffix)
        invariant
            width == suffix@.len(),
            width > 0,
            len == rest@.len(),
            without_suffixes(s@, suffix@) == without_suffixes(rest@, suffix@),
        decreases len,
    {
        assert(rest@.subrange(len - width, len as int) =~= rest@.skip(len - width));
        assert(rest@.subrange(0, len - width) =~= rest@.take(len - width));
        rest = rest.substring_char(0, len - width);
        len = len - width;
    }
    assert(len >= width ==> rest@.subrange(len - width, len as int) =~= rest@.skip(len - width));
    rest
}

// ---------------------------------------------------------------------------
// Messages and numbers
// ---------------------------------------------------------------------------

/// Three texts one after the other.
pub fn concat3(a: &str, b: &str, c: &str) -> (res: String)
    ensures
        res@ == a@ + b@ + c@,
{
    a.to_owned().concat(b).concat(c)
}

/// The digit that stands for `d`, for `d` below ten.
pub open spec fn digit(d: nat) -> char {
    ('0' as u32 + d) as char
}

/// A natural number in decimal, without leading zeros.
pub open spec fn decimal_nat(n: nat) -> Seq<char>
    decreases n,
{
    if n < 10 {
        seq![digit(n)]
    } else {
        decimal_nat(n / 10).push(digit(n % 10))
    }
}

/// An integer in decimal, with a minus sign where it is negative.
pub open spec fn decimal(n: int) -> Seq<char> {
    if n < 0 {
        seq!['-'] + decimal_nat((-n) as nat)
    } else {
        decimal_nat(n as nat)
    }
}

fn digit_text(d: u128) -> (res: &'static str)
    requires
        d < 10,
    ensures
        res@ == seq![digit(d as nat)],
{
    proof {
        reveal_strlit("0");
        reveal_strlit("1");
        reveal_strlit("2");
        reveal_strlit("3");
        reveal_strlit("4");
        reveal_strlit("5");
        reveal_strlit("6");
        reveal_strlit("7");
        reveal_strlit("8");
        reveal_strlit("9");
    }
    let res = match d {
        0 => "0",
        1 => "1",
        2 => "2",
        3 => "3",
        4 => "4",
        5 => "5",
        6 => "6",
        7 => "7",
        8 => "8",
        _ => "9",
    };
    assert(res@ =~= seq![digit(d as nat)]);
    res
}

fn decimal_u128(n: u128) -> (res: String)
    ensures
        res@ == decimal_nat(n as nat),
    decreases n,
{
    if n < 10 {
        digit_text(n).to_owned()
    } else {
        let high = decimal_u128(n / 10);
        let res = high.concat(digit_text(n % 10));
        assert(res@ =~= decimal_nat(n as nat));
        res
    }
}

/// Writes `n` in decimal.
pub fn decimal_i128(n: i128) -> (res: String)
    ensures
        res@ == decimal(n as int),
{
    if n < 0 {
        let magnitude: u128 = if n == i128::MIN {
            0x8000_0000_0000_0000_0000_0000_0000_0000u128
        } else {
            (-n) as u128
        };
        proof {
            reveal_strlit("-");
        }
        let minus = "-";
        assert(minus@ =~= seq!['-']);
        minus.to_owned().concat(decimal_u128(magnitude).as_str())
    } else {
        decimal_u128(n as u128)
    }
}

proof fn lemma_decimal_nat_injective(a: nat, b: nat)
    requires
        decimal_nat(a) == decimal_nat(b),
    ensures
        a == b,
    decreases a,
{
    let x = decimal_nat(a);
    let y = decimal_nat(b);
    lemma_decimal_nat_nonempty(a / 10);
    lemma_decimal_nat_nonempty(b / 10);
    assert(x.last() == digit(a % 10));
    assert(y.last() == digit(b % 10));
    if a >= 10 && b >= 10 {
        assert(x.drop_last() =~= decimal_nat(a / 10));
        assert(y.drop_last() =~= decimal_nat(b / 10));
        lemma_decimal_nat_injective(a / 10, b / 10);
    } else {
        assert(x.len() == 1 <==> a < 10);
        assert(y.len() == 1 <==> b < 10);
    }
}

proof fn lemma_decimal_nat_nonempty(n: nat)
    ensures
        decimal_nat(n).len() > 0,
        decimal_nat(n)[0] != '-',
    decreases n,
{
    if n >= 10 {
        lemma_decimal_nat_nonempty(n / 10);
    }
}

/// Two integers with the same decimal text are the same integer.
pub proof fn lemma_decimal_injective(a: int, b: int)
    requires
        decimal(a) == decimal(b),
    ensures
        a == b,
{
    if a < 0 {
        assert(decimal(a)[0] == '-');
    }
    if b < 0 {
        assert(decimal(b)[0] == '-');
    }
    if a >= 0 {
        lemma_decimal_nat_nonempty(a as nat);
    }
    if b >= 0 {
        lemma_decimal_nat_nonempty(b as nat);
    }
    if a < 0 && b < 0 {
        assert(decimal(a).skip(1) =~= decimal_nat((-a) as nat));
        assert(decimal(b).skip(1) =~= decimal_nat((-b) as nat));
        lemma_decimal_nat_injective((-a) as nat, (-b) as nat);
    } else if a >= 0 && b >= 0 {
        lemma_decimal_nat_injective(a as nat, b as nat);
    }
}

// ---------------------------------------------------------------------------
// What holds of lists, affixes and numbers
// ---------------------------------------------------------------------------

/// A list of strings holds the text of each, in order.
pub proof fn lemma_texts(list: Seq<String>)
    ensures
        texts(list).len() == list.len(),
        forall|i: int| 0 <= i < list.len() ==> #[trigger] texts(list)[i] == list[i]@,
{
}

/// Text is blank exactly if each of its characters is white space, and what
/// trimming takes away is white space only.
pub proof fn lemma_blank_is_white_space(s: Seq<char>)
    ensures
        blank(s) <==> (forall|i: int| 0 <= i < s.len() ==> white_space(#[trigger] s[i])),
        exists|from: int, to: int|
            0 <= from <= to <= s.len() && trimmed(s) == #[trigger] s.subrange(from, to) && (forall|
                i: int,
            |
                0 <= i < from || to <= i < s.len() ==> white_space(#[trigger] s[i])),
{
    lemma_trimmed(s);
    let (from, to) = choose|from: int, to: int|
        0 <= from <= to <= s.len() && trimmed(s) == #[trigger] s.subrange(from, to) && blank(
            s.take(from),
        ) && blank(s.skip(to));
    assert forall|i: int| 0 <= i < from || to <= i < s.len() implies white_space(
        #[trigger] s[i],
    ) by {
        if i < from {
            assert(s.take(from)[i] == s[i]);
        } else {
            assert(s.skip(to)[i - to] == s[i]);
        }
    }
    assert(trimmed(s) == s.subrange(from, to));
}

/// Joining nothing gives nothing, joining one text gives it, and each further text
/// comes after one separator.
pub proof fn lemma_joined_grows(list: Seq<Seq<char>>, next: Seq<char>, separator: Seq<char>)
    ensures
        joined(Seq::empty(), separator).len() == 0,
        joined(seq![next], separator) == next,
        list.len() > 0 ==> joined(list.push(next), separator) == joined(list, separator) + separator
            + next,
{
    assert(list.push(next).drop_last() =~= list);
}

/// `n` copies of `s`, one after the other.
pub open spec fn copies(s: Seq<char>, n: nat) -> Seq<char>
    decreases n,
{
    if n == 0 {
        Seq::empty()
    } else {
        s + copies(s, (n - 1) as nat)
    }
}

proof fn lemma_copies_at_the_end(s: Seq<char>, n: nat)
    requires
        n > 0,
    ensures
        copies(s, n) == copies(s, (n - 1) as nat) + s,
    decreases n,
{
    if n > 1 {
        lemma_copies_at_the_end(s, (n - 1) as nat);
        assert(s + (copies(s, (n - 2) as nat) + s) =~= (s + copies(s, (n - 2) as nat)) + s);
    } else {
        assert(copies(s, 0) =~= Seq::<char>::empty());
        assert(s + Seq::<char>::empty() =~= Seq::<char>::empty() + s);
    }
}

/// Removing a prefix takes away as many copies of it as there are in front, and
/// nothing else.
pub proof fn lemma_without_prefixes(s: Seq<char>, prefix: Seq<char>)
    requires
        prefix.len() > 0,
    ensures
        !prefix.is_prefix_of(without_prefixes(s, prefix)),
        exists|n: nat| s == #[trigger] copies(prefix, n) + without_prefixes(s, prefix),
    decreases s.len(),
{
    if prefix.is_prefix_of(s) {
        let rest = s.skip(prefix.len() as int);
        lemma_without_prefixes(rest, prefix);
        let n = choose|n: nat| rest == #[trigger] copies(prefix, n) + without_prefixes(
            rest,
            prefix,
        );
        assert(copies(prefix, n + 1) == prefix + copies(prefix, n));
        assert(s =~= prefix + rest);
        assert(s =~= copies(prefix, n + 1) + without_prefixes(s, prefix));
    } else {
        assert(s =~= copies(prefix, 0) + s);
    }
}

/// Removing a suffix takes away as many copies of it as there are at the end, and
/// nothing else.
pub proof fn lemma_without_suffixes(s: Seq<char>, suffix: Seq<char>)
    requires
        suffix.len() > 0,
    ensures
        !suffix.is_suffix_of(without_suffixes(s, suffix)),
        exists|n: nat| s == without_suffixes(s, suffix) + #[trigger] copies(suffix, n),
    decreases s.len(),
{
    if suffix.is_suffix_of(s) {
        let rest = s.take(s.len() - suffix.len());
        lemma_without_suffixes(rest, suffix);
        let n = choose|n: nat| rest == without_suffixes(rest, suffix) + #[trigger] copies(
            suffix,
            n,
        );
        lemma_copies_at_the_end(suffix, n + 1);
        assert(s =~= rest + suffix);
        assert(s =~= without_suffixes(s, suffix) + copies(suffix, n + 1));
    } else {
        assert(s =~= s + copies(suffix, 0));
    }
}

/// A digit stands for its number, a number below ten is its digit, and a further
/// digit at the end is ten times the number and that digit. A negative number is
/// its amount after a minus sign.
pub proof fn lemma_decimal_is_positional(n: nat, d: nat)
    requires
        d < 10,
    ensures
        digit(d) as u32 == '0' as u32 + d,
        decimal(d as int) == seq![digit(d)],
        n > 0 ==> decimal(10 * (n as int) + d) == decimal(n as int).push(digit(d)),
        n > 0 ==> decimal(-n) == seq!['-'] + decimal(n as int),
{
    if n > 0 {
        let m = 10 * n + d;
        assert(m / 10 == n && m % 10 == d);
    }
}

/// Without a prefix or suffix to remove, nothing is removed.
pub proof fn lemma_an_empty_affix_removes_nothing(s: Seq<char>)
    ensures
        without_prefixes(s, Seq::empty()) == s,
        without_suffixes(s, Seq::empty()) == s,
{
}

} // verus!
