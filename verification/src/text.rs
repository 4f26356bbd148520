//! Text as sequences of characters: comparing, joining, splitting, and decimal numbers.

use vstd::prelude::*;
use vstd::utf8::{decode_utf8, valid_utf8};

verus! {

/// `String::push` appends one character at the end of the string.
pub assume_specification[ String::push ](s: &mut String, c: char)
    ensures
        final(s)@ == old(s)@.push(c),
;

/// The text that `String::from_utf8_lossy` gives for bytes.
pub uninterp spec fn lossy_text(bytes: Seq<u8>) -> Seq<char>;

/// Calls `String::from_utf8_lossy`: the text is a function of the bytes. Bytes that are UTF-8 give
/// the text that they encode; what stands in for others is not spelled out here.
#[verifier::external_body]
pub(crate) fn read_lossy(bytes: &Vec<u8>) -> (r: String)
    ensures
        r@ == lossy_text(bytes@),
        valid_utf8(bytes@) ==> r@ == decode_utf8(bytes@),
{
    String::from_utf8_lossy(bytes).into_owned()
}

/// The characters of each string of a list.
pub open spec fn texts(list: Seq<String>) -> Seq<Seq<char>> {
    list.map_values(|s: String| s@)
}

/// The characters of `s`, in order.
pub fn chars_of(s: &str) -> (r: Vec<char>)
    ensures
        r@ == s@,
{
    let mut r: Vec<char> = Vec::new();
    for c in it: s.chars()
        invariant
            it.seq() == s@,
            r@ == s@.take(it.index() as int),
    {
        r.push(c);
        assert(s@.take(it.index() as int + 1) == s@.take(it.index() as int).push(c));
    }
    assert(s@.take(s@.len() as int) == s@);
    r
}

/// The string that holds `chars[from..to]`.
pub fn string_of(chars: &Vec<char>, from: usize, to: usize) -> (r: String)
    requires
        from <= to <= chars.len(),
    ensures
        r@ == chars@.subrange(from as int, to as int),
{
    let mut r = String::new();
    let mut i: usize = from;
    while i < to
        invariant
            from <= i <= to <= chars.len(),
            r@ == chars@.subrange(from as int, i as int),
        decreases to - i,
    {
        r.push(chars[i]);
        i += 1;
        assert(chars@.subrange(from as int, i as int) == chars@.subrange(from as int, i - 1).push(
            chars@[i - 1],
        ));
    }
    r
}

/// Whether two strings hold the same characters.
pub fn same_text(a: &str, b: &str) -> (r: bool)
    ensures
        r == (a@ == b@),
{
    a.to_owned() == b.to_owned()
}

/// Whether `s` begins with the character `c`.
pub fn begins_with(s: &str, c: char) -> (r: bool)
    ensures
        r == (s@.len() > 0 && s@[0] == c),
{
    !s.is_empty() && s.get_char(0) == c
}

// ---------------------------------------------------------------------------
// Lexicographic order

/// Whether `a` comes before `b` in the order of dictionaries, character by character.
pub open spec fn text_less(a: Seq<char>, b: Seq<char>) -> bool
    decreases a.len(),
{
    if b.len() == 0 {
        false
    } else if a.len() == 0 {
        true
    } else if a[0] != b[0] {
        a[0] < b[0]
    } else {
        text_less(a.skip(1), b.skip(1))
    }
}

/// Whether the text `a` comes before the text `b`.
pub fn is_less(a: &str, b: &str) -> (r: bool)
    ensures
        r == text_less(a@, b@),
{
    let x = chars_of(a);
    let y = chars_of(b);
    let mut i: usize = 0;
    proof {
        assert(a@.skip(0) == a@);
        assert(b@.skip(0) == b@);
    }
    while i < x.len() && i < y.len() && x[i] == y[i]
        invariant
            x@ == a@,
            y@ == b@,
            i <= x.len(),
            i <= y.len(),
            text_less(a@, b@) == text_less(a@.skip(i as int), b@.skip(i as int)),
        decreases x.len() - i,
    {
        proof {
            assert(a@.skip(i as int).skip(1) == a@.skip(i + 1));
            assert(b@.skip(i as int).skip(1) == b@.skip(i + 1));
        }
        i += 1;
    }
    i < y.len() && (i >= x.len() || x[i] < y[i])
}

/// Of two texts, exactly one of these holds: the first comes before the second, they are
/// equal, the second comes before the first.
pub proof fn law_text_order_is_total(a: Seq<char>, b: Seq<char>)
    ensures
        a == b <==> !text_less(a, b) && !text_less(b, a),
        !(text_less(a, b) && text_less(b, a)),
    decreases a.len(),
{
    if a.len() > 0 && b.len() > 0 && a[0] == b[0] {
        law_text_order_is_total(a.skip(1), b.skip(1));
        assert(a == seq![a[0]] + a.skip(1));
        assert(b == seq![b[0]] + b.skip(1));
    } else if a.len() == 0 && b.len() == 0 {
        assert(a == b);
    }
}

// ---------------------------------------------------------------------------
// Joining and splitting

/// Each of `parts` with `sep` before it, one after the other.
pub open spec fn join_rest(parts: Seq<Seq<char>>, sep: Seq<char>) -> Seq<char>
    decreases parts.len(),
{
    if parts.len() == 0 {
        seq![]
    } else {
        join_rest(parts.drop_last(), sep) + sep + parts.last()
    }
}

/// `parts` one after the other, with `sep` between each two.
pub open spec fn join_text(parts: Seq<Seq<char>>, sep: Seq<char>) -> Seq<char> {
    if parts.len() == 0 {
        seq![]
    } else {
        parts[0] + join_rest(parts.skip(1), sep)
    }
}

/// Joins the strings of `parts`, with `sep` between each two.
pub fn join(parts: &Vec<String>, sep: &str) -> (r: String)
    ensures
        r@ == join_text(texts(parts@), sep@),
{
    let mut r = String::new();
    if parts.len() == 0 {
        return r;
    }
    r.append(parts[0].as_str());
    let mut i: usize = 1;
    let ghost all = texts(parts@);
    proof {
        assert(all.skip(1).take(0) == Seq::<Seq<char>>::empty());
        assert(r@ == all[0] + join_rest(all.skip(1).take(0), sep@));
    }
    while i < parts.len()
        invariant
            1 <= i <= parts.len(),
            all == texts(parts@),
            r@ == all[0] + join_rest(all.skip(1).take(i - 1), sep@),
        decreases parts.len() - i,
    {
        r.append(sep);
        r.append(parts[i].as_str());
        proof {
            let part = all.skip(1).take(i as int);
            assert(part.drop_last() == all.skip(1).take(i - 1));
            assert(part.last() == parts@[i as int]@);
            assert(r@ == all[0] + join_rest(part, sep@));
        }
        i += 1;
    }
    proof {
        assert(all.skip(1).take(i - 1) == all.skip(1));
    }
    r
}

/// The pieces of `s` between the characters `sep`: one more than there are such characters.
pub open spec fn split_text(s: Seq<char>, sep: char) -> Seq<Seq<char>>
    decreases s.len(),
{
    if s.len() == 0 {
        seq![seq![]]
    } else {
        let before = split_text(s.drop_last(), sep);
        if s.last() == sep {
            before.push(seq![])
        } else {
            before.drop_last().push(before.last().push(s.last()))
        }
    }
}

/// A split text has at least one piece.
pub proof fn lemma_split_is_not_empty(s: Seq<char>, sep: char)
    ensures
        split_text(s, sep).len() > 0,
    decreases s.len(),
{
    if s.len() > 0 {
        lemma_split_is_not_empty(s.drop_last(), sep);
    }
}

/// Joining the pieces of a split text with the separator gives the text back, and no piece
/// holds the separator.
pub proof fn law_join_undoes_split(s: Seq<char>, sep: char)
    ensures
        join_text(split_text(s, sep), seq![sep]) == s,
        forall|i: int|
            0 <= i < split_text(s, sep).len() ==> !(#[trigger] split_text(s, sep)[i]).contains(sep),
    decreases s.len(),
{
    let pieces = split_text(s, sep);
    if s.len() == 0 {
        assert(pieces.skip(1) == Seq::<Seq<char>>::empty());
        assert(join_text(pieces, seq![sep]) == s);
    } else {
        law_join_undoes_split(s.drop_last(), sep);
        lemma_split_is_not_empty(s.drop_last(), sep);
        let before = split_text(s.drop_last(), sep);
        assert(s == s.drop_last().push(s.last()));
        if s.last() == sep {
            assert(pieces.skip(1).drop_last() == before.skip(1));
            assert(join_text(pieces, seq![sep]) == s);
        } else {
            let n = before.len() as int - 1;
            assert(pieces[n] == before[n].push(s.last()));
            assert(!pieces[n].contains(sep)) by {
                assert(!before[n].contains(sep));
                assert forall|k: int| 0 <= k < pieces[n].len() implies pieces[n][k] != sep by {
                    if k < before[n].len() {
                        assert(before[n][k] != sep);
                    }
                }
            }
            if n == 0 {
                assert(pieces.skip(1) == Seq::<Seq<char>>::empty());
                assert(before.skip(1) == Seq::<Seq<char>>::empty());
                assert(join_text(pieces, seq![sep]) == s);
            } else {
                assert(pieces.skip(1).drop_last() == before.skip(1).drop_last());
                assert(join_text(pieces, seq![sep]) == s);
            }
        }
    }
}

/// Splits `s` at each character `sep`.
pub fn split(s: &str, sep: char) -> (r: Vec<String>)
    ensures
        texts(r@) == split_text(s@, sep),
{
    let chars = chars_of(s);
    let mut done: Vec<String> = Vec::new();
    let mut current = String::new();
    let mut i: usize = 0;
    while i < chars.len()
        invariant
            chars@ == s@,
            i <= chars.len(),
            texts(done@).push(current@) == split_text(s@.take(i as int), sep),
        decreases chars.len() - i,
    {
        let c = chars[i];
        let ghost before = texts(done@).push(current@);
        proof {
            assert(s@.take(i + 1).drop_last() == s@.take(i as int));
            assert(before.drop_last() == texts(done@));
        }
        if c == sep {
            done.push(current);
            assert(texts(done@) == before);
            current = String::new();
        } else {
            current.push(c);
        }
        i += 1;
    }
    assert(s@.take(i as int) == s@);
    let ghost before = texts(done@).push(current@);
    done.push(current);
    assert(texts(done@) == before);
    done
}

// ---------------------------------------------------------------------------
// Decimal numbers

/// The character of one decimal digit.
pub open spec fn digit(d: int) -> char {
    (48 + d) as char
}

/// Whether `c` is one of `0` to `9`.
pub open spec fn is_digit(c: char) -> bool {
    48 <= c as int <= 57
}

/// The decimal digits of `n`, without leading zeros.
pub open spec fn decimal_nat(n: nat) -> Seq<char>
    decreases n,
{
    if n < 10 {
        seq![digit(n as int)]
    } else {
        decimal_nat(n / 10).push(digit(n as int % 10))
    }
}

/// `i` in decimal, with a minus sign where it is negative.
pub open spec fn decimal(i: int) -> Seq<char> {
    if i < 0 {
        seq!['-'] + decimal_nat((-i) as nat)
    } else {
        decimal_nat(i as nat)
    }
}

/// Whether `s` is one or more decimal digits.
pub open spec fn all_digits(s: Seq<char>) -> bool {
    s.len() > 0 && forall|i: int| 0 <= i < s.len() ==> is_digit(#[trigger] s[i])
}

/// The number that the digits of `s` write.
pub open spec fn digits_value(s: Seq<char>) -> int
    decreases s.len(),
{
    if s.len() == 0 {
        0
    } else {
        10 * digits_value(s.drop_last()) + (s.last() as int - 48)
    }
}

/// The whole number that `s` writes: digits, after an optional sign.
pub open spec fn parse_int(s: Seq<char>) -> Option<int> {
    if s.len() > 0 && (s[0] == '-' || s[0] == '+') {
        if all_digits(s.skip(1)) {
            Some(if s[0] == '-' { -digits_value(s.skip(1)) } else { digits_value(s.skip(1)) })
        } else {
            None
        }
    } else if all_digits(s) {
        Some(digits_value(s))
    } else {
        None
    }
}

/// The 64-bit number that `s` writes, where there is one.
pub open spec fn parse_number(s: Seq<char>) -> Option<i64> {
    match parse_int(s) {
        Some(v) => if i64::MIN <= v <= i64::MAX { Some(v as i64) } else { None },
        None => None,
    }
}

proof fn lemma_decimal_nat_reads_back(n: nat)
    ensures
        all_digits(decimal_nat(n)),
        digits_value(decimal_nat(n)) == n,
    decreases n,
{
    if n < 10 {
        let s = decimal_nat(n);
        assert(s.drop_last() == Seq::<char>::empty());
        assert(digits_value(s.drop_last()) == 0);
    } else {
        lemma_decimal_nat_reads_back(n / 10);
        let s = decimal_nat(n);
        assert(s.drop_last() == decimal_nat(n / 10));
    }
}

/// Reading what was written in decimal gives the number back.
pub proof fn law_decimal_reads_back(i: i64)
    ensures
        parse_number(decimal(i as int)) == Some(i),
{
    if i < 0 {
        lemma_decimal_nat_reads_back((-(i as int)) as nat);
        assert(decimal(i as int).skip(1) == decimal_nat((-(i as int)) as nat));
    } else {
        lemma_decimal_nat_reads_back(i as nat);
        assert(is_digit(decimal(i as int)[0]));
    }
}

/// Writes a number without sign in decimal.
pub fn size_text(n: u64) -> (r: String)
    ensures
        r@ == decimal(n as int),
{
    let mut rest: u64 = n;
    let mut digits: Vec<char> = Vec::new();
    let ghost total = n as nat;
    // `digits` holds the digits written so far, the last one first
    loop
        invariant_except_break
            decimal_nat(total) == decimal_nat(rest as nat) + digits@.reverse(),
        ensures
            decimal_nat(total) == digits@.reverse(),
        decreases rest,
    {
        let low = (48u8 + (rest % 10) as u8) as char;
        let ghost before = digits@;
        digits.push(low);
        assert(digits@.reverse() == seq![low] + before.reverse());
        if rest < 10 {
            assert(decimal_nat(total) == digits@.reverse());
            break;
        }
        assert(decimal_nat(rest as nat) + before.reverse() == decimal_nat(rest as nat / 10)
            + digits@.reverse());
        rest = rest / 10;
    }
    let mut r = String::new();
    let mut i: usize = digits.len();
    while i > 0
        invariant
            i <= digits.len(),
            r@ == digits@.reverse().take(digits@.len() - i),
        decreases i,
    {
        i -= 1;
        let ghost k = digits@.len() - i;
        r.push(digits[i]);
        assert(digits@.reverse().take(k) == digits@.reverse().take(k - 1).push(
            digits@.reverse()[k - 1],
        ));
    }
    assert(digits@.reverse().take(digits@.len() as int) == digits@.reverse());
    r
}

/// Writes `n` in decimal.
pub fn number_text(n: i64) -> (r: String)
    ensures
        r@ == decimal(n as int),
{
    if n < 0 {
        let mut r = String::new();
        r.push('-');
        let size = size_text((-(n as i128)) as u64);
        r.append(size.as_str());
        assert(r@ == decimal(n as int));
        r
    } else {
        size_text(n as u64)
    }
}

/// Reads a whole number in decimal, as `i64::from_str` does.
pub fn read_number(s: &str) -> (r: Option<i64>)
    ensures
        r == parse_number(s@),
{
    let chars = chars_of(s);
    let signed = chars.len() > 0 && (chars[0] == '-' || chars[0] == '+');
    let negative = chars.len() > 0 && chars[0] == '-';
    let start: usize = if signed { 1 } else { 0 };
    let ghost body = s@.skip(start as int);
    proof {
        assert(s@.skip(0) == s@);
    }
    if start >= chars.len() {
        assert(body.len() == 0);
        return None;
    }
    assert(!all_digits(body) ==> parse_number(s@) is None);
    let limit: u64 = 9223372036854775808;
    let mut value: u64 = 0;
    let mut too_large = false;
    let mut i: usize = start;
    while i < chars.len()
        invariant
            chars@ == s@,
            start <= i <= chars.len(),
            start <= 1,
            body == s@.skip(start as int),
            !all_digits(body) ==> parse_number(s@) is None,
            limit == 9223372036854775808,
            value <= limit,
            forall|k: int| 0 <= k < i - start ==> is_digit(#[trigger] body[k]),
            !too_large ==> value == digits_value(body.take(i - start)),
            too_large ==> digits_value(body.take(i - start)) > limit,
        decreases chars.len() - i,
    {
        let c = chars[i];
        assert(c == body[i - start]);
        if !('0' <= c && c <= '9') {
            assert(!all_digits(body));
            return None;
        }
        let d: u64 = (c as u32 - 48) as u64;
        let ghost k = i - start;
        assert(body.take(k + 1).drop_last() == body.take(k));
        if !too_large {
            if value > (limit - d) / 10 {
                assert(10 * value + d > limit);
                too_large = true;
            } else {
                value = value * 10 + d;
            }
        }
        i += 1;
    }
    assert(body.take(i - start) == body);
    assert(all_digits(body));
    if too_large {
        None
    } else if negative {
        if value == limit {
            Some(i64::MIN)
        } else {
            Some(-(value as i64))
        }
    } else if value < limit {
        Some(value as i64)
    } else {
        None
    }
}

// ---------------------------------------------------------------------------
// Laws

/// One text comes before another exactly where they agree up to some place at which the first one
/// ends, or has the smaller character.
pub proof fn law_first_difference_orders(a: Seq<char>, b: Seq<char>)
    ensures
        text_less(a, b) <==> exists|i: int|
            #![trigger a.take(i)]
            0 <= i <= a.len() && i < b.len() && a.take(i) == b.take(i) && (i == a.len() || (a[i]
                as int) < b[i] as int),
    decreases a.len(),
{
    if a.len() > 0 && b.len() > 0 && a[0] == b[0] {
        let x = a.skip(1);
        let y = b.skip(1);
        law_first_difference_orders(x, y);
        if text_less(a, b) {
            let i = choose|i: int|
                #![trigger x.take(i)]
                0 <= i <= x.len() && i < y.len() && x.take(i) == y.take(i) && (i == x.len() || (x[i]
                    as int) < y[i] as int);
            assert(a.take(i + 1) == seq![a[0]] + x.take(i));
            assert(b.take(i + 1) == seq![b[0]] + y.take(i));
        }
        if exists|i: int|
            #![trigger a.take(i)]
            0 <= i <= a.len() && i < b.len() && a.take(i) == b.take(i) && (i == a.len() || (a[i]
                as int) < b[i] as int) {
            let i = choose|i: int|
                #![trigger a.take(i)]
                0 <= i <= a.len() && i < b.len() && a.take(i) == b.take(i) && (i == a.len() || (a[i]
                    as int) < b[i] as int);
            assert(i > 0);
            assert(x.take(i - 1) == a.take(i).skip(1));
            assert(y.take(i - 1) == b.take(i).skip(1));
            assert(i < a.len() ==> x[i - 1] == a[i]);
            assert(y[i - 1] == b[i]);
        }
    } else if b.len() > 0 {
        assert(a.take(0) == b.take(0));
        if exists|i: int|
            #![trigger a.take(i)]
            0 <= i <= a.len() && i < b.len() && a.take(i) == b.take(i) && (i == a.len() || (a[i]
                as int) < b[i] as int) {
            let i = choose|i: int|
                #![trigger a.take(i)]
                0 <= i <= a.len() && i < b.len() && a.take(i) == b.take(i) && (i == a.len() || (a[i]
                    as int) < b[i] as int);
            if i > 0 {
                assert(a.take(i)[0] == b.take(i)[0]);
            }
        }
    }
}

/// Joining nothing gives nothing, one part alone is itself, and each further part comes behind the
/// others with the separator before it.
pub proof fn law_joining_adds_at_the_end(parts: Seq<Seq<char>>, sep: Seq<char>, last: Seq<char>)
    ensures
        join_text(seq![], sep) == Seq::<char>::empty(),
        join_text(seq![last], sep) == last,
        parts.len() > 0 ==> join_text(parts.push(last), sep) == join_text(parts, sep) + sep + last,
{
    let one = seq![last];
    assert(one.skip(1) == Seq::<Seq<char>>::empty());
    assert(join_rest(one.skip(1), sep) == Seq::<char>::empty());
    assert(join_text(one, sep) == last);
    if parts.len() > 0 {
        let rest = parts.push(last).skip(1);
        assert(rest == parts.skip(1).push(last));
        assert(rest.drop_last() == parts.skip(1));
        assert(join_text(parts.push(last), sep) == join_text(parts, sep) + sep + last);
    }
}

/// The last digit in decimal is the number modulo ten, the digits before it are those of a tenth, and
/// a negative number has a minus sign before the digits of its opposite.
pub proof fn law_decimal_digits(n: int)
    requires
        n >= 0,
    ensures
        decimal(n).len() > 0,
        decimal(n).last() as int == '0' as int + n % 10,
        n < 10 ==> decimal(n).len() == 1,
        n >= 10 ==> decimal(n).drop_last() == decimal(n / 10),
        n > 0 ==> decimal(-n) == seq!['-'] + decimal(n),
{
    let s = decimal(n);
    if n >= 10 {
        assert(s.drop_last() == decimal(n / 10));
    }
}

/// A digit more is ten times the number and the digit, as long as the number fits in 64 bits; a
/// single digit is its own number.
pub proof fn law_digits_are_read_in_order(s: Seq<char>, c: char)
    requires
        '0' <= c <= '9',
        s.len() > 0,
        s[0] != '-',
        s[0] != '+',
    ensures
        parse_number(seq![c]) == Some((c as int - '0' as int) as i64),
        parse_number(s) matches Some(n) ==> parse_number(s.push(c)) == (if 10 * n + (c as int
            - '0' as int) <= i64::MAX {
            Some((10 * n + (c as int - '0' as int)) as i64)
        } else {
            None
        }),
        parse_number(s) is None ==> parse_number(s.push(c)) is None,
{
    let one = seq![c];
    assert(one.drop_last() == Seq::<char>::empty());
    assert(digits_value(one.drop_last()) == 0);
    assert(all_digits(one));
    if parse_number(s) is Some {
        let t = s.push(c);
        assert(t.drop_last() == s);
        assert(t[0] == s[0]);
        assert(all_digits(t)) by {
            assert forall|i: int| 0 <= i < t.len() implies is_digit(#[trigger] t[i]) by {
                if i < s.len() {
                    assert(is_digit(s[i]));
                }
            }
        }
        lemma_digits_value_is_no_debt(s);
    } else {
        let t = s.push(c);
        assert(t.drop_last() == s);
        assert(t[0] == s[0]);
        if all_digits(t) {
            assert forall|i: int| 0 <= i < s.len() implies is_digit(#[trigger] s[i]) by {
                assert(is_digit(t[i]));
            }
            lemma_digits_value_is_no_debt(s);
        }
    }
}

proof fn lemma_digits_value_is_no_debt(s: Seq<char>)
    requires
        forall|i: int| 0 <= i < s.len() ==> is_digit(#[trigger] s[i]),
    ensures
        digits_value(s) >= 0,
    decreases s.len(),
{
    if s.len() > 0 {
        let t = s.drop_last();
        assert forall|i: int| 0 <= i < t.len() implies is_digit(#[trigger] t[i]) by {
            assert(s[i] == t[i]);
        }
        lemma_digits_value_is_no_debt(t);
        assert(is_digit(s[s.len() - 1]));
    }
}

/// A plus sign before a number without sign changes nothing, and a minus sign gives its opposite; a
/// second sign, no digit at all, or anything but digits behind the sign is no number.
pub proof fn law_signs_and_digits(s: Seq<char>)
    ensures
        parse_number(Seq::<char>::empty()) is None,
        parse_number(seq!['+'] + s) == (if s.len() > 0 && (s[0] == '+' || s[0] == '-') {
            None
        } else {
            parse_number(s)
        }),
        s.len() > 0 && (s[0] == '+' || s[0] == '-') ==> parse_number(seq!['-'] + s) is None,
        !(s.len() > 0 && (s[0] == '+' || s[0] == '-')) ==> (parse_number(s) matches Some(n)
            ==> parse_number(seq!['-'] + s) == Some((-n) as i64)),
        parse_number(seq!['-'] + s) matches Some(n) ==> n <= 0 && (n != i64::MIN ==> parse_number(s)
            == Some((-n) as i64)),
        forall|i: int|
            #![trigger s[i]]
            0 < i < s.len() && !('0' <= s[i] <= '9') ==> parse_number(s) is None,
        s.len() > 0 && !('0' <= s[0] <= '9') && s[0] != '+' && s[0] != '-' ==> parse_number(
            s,
        ) is None,
{
    let p = seq!['+'] + s;
    let m = seq!['-'] + s;
    assert(p.skip(1) == s);
    assert(m.skip(1) == s);
    assert(p[0] == '+' && m[0] == '-');
    if s.len() > 0 && (s[0] == '+' || s[0] == '-') {
        assert(!is_digit(s[0]));
        assert(!all_digits(s));
    } else if parse_number(s) is Some {
        lemma_digits_value_is_no_debt(s);
    }
    assert forall|i: int|
        #![trigger s[i]]
        0 < i < s.len() && !('0' <= s[i] <= '9') implies parse_number(s) is None by {
        assert(!is_digit(s[i]));
        assert(s.skip(1)[i - 1] == s[i]);
    }
}

/// A text without the separator is one piece, and the pieces of two texts with a separator between them
/// are those of the first and then those of the second.
pub proof fn law_split_at_each_separator(a: Seq<char>, b: Seq<char>, sep: char)
    ensures
        !a.contains(sep) ==> split_text(a, sep) == seq![a],
        split_text(a + seq![sep] + b, sep) == split_text(a, sep) + split_text(b, sep),
    decreases a.len() + b.len(),
{
    if a.len() > 0 {
        if !a.contains(sep) {
            let less = a.drop_last();
            assert(!less.contains(sep)) by {
                assert forall|i: int| 0 <= i < less.len() implies less[i] != sep by {
                    assert(a[i] == less[i]);
                }
            }
            assert(a[a.len() - 1] != sep);
            law_split_at_each_separator(less, seq![], sep);
            assert(less.push(a.last()) == a);
            assert(split_text(a, sep) == seq![a]);
        }
    } else {
        assert(a == Seq::<char>::empty());
        assert(split_text(a, sep) == seq![a]);
    }
    let whole = a + seq![sep] + b;
    if b.len() == 0 {
        assert(whole.drop_last() == a);
        assert(split_text(whole, sep) == split_text(a, sep) + split_text(b, sep));
    } else {
        let less = b.drop_last();
        law_split_at_each_separator(a, less, sep);
        lemma_split_is_not_empty(less, sep);
        assert(whole.drop_last() == a + seq![sep] + less);
        assert(whole.last() == b.last());
        assert(split_text(whole, sep) == split_text(a, sep) + split_text(b, sep));
    }
}

} // verus!
