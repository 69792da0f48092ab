//! Working with text: comparing, cutting and joining it, and reading and
//! writing decimal numerals.

use vstd::prelude::*;
use vstd::string::StringExecFns;

verus! {

/// `String::push` of the standard library appends one character.
pub assume_specification[ String::push ](s: &mut String, c: char)
    ensures
        final(s)@ == old(s)@.push(c),
;

/// What `str::to_lowercase` of the standard library makes of a text.
pub uninterp spec fn lowercase(s: Seq<char>) -> Seq<char>;

/// `str::to_lowercase` of the standard library: the result is named, not
/// spelled out.
pub assume_specification[ str::to_lowercase ](s: &str) -> (lower: String)
    ensures
        lower@ == lowercase(s@),
;

/// What `str::trim` of the standard library leaves of a text: the text
/// without the white space at its ends.
pub uninterp spec fn trimmed(s: Seq<char>) -> Seq<char>;

/// `str::trim` of the standard library: the result is named, not spelled
/// out.
pub assume_specification<'a>[ str::trim ](s: &'a str) -> (inner: &'a str)
    ensures
        inner@ == trimmed(s@),
;

/// Whether two texts hold the same characters.
pub fn same_text(a: &str, b: &str) -> (same: bool)
    ensures
        same == (a@ == b@),
{
    a.to_owned() == b.to_owned()
}

/// Whether `text` begins with `prefix`.
pub open spec fn begins_with(text: Seq<char>, prefix: Seq<char>) -> bool {
    text.len() >= prefix.len() && text.take(prefix.len() as int) == prefix
}

/// Whether `text` begins with `prefix`.
pub fn starts_with(text: &str, prefix: &str) -> (b: bool)
    ensures
        b == begins_with(text@, prefix@),
{
    let len: usize = text.unicode_len();
    let plen: usize = prefix.unicode_len();
    if len < plen {
        return false;
    }
    assert(text@.subrange(0, plen as int) =~= text@.take(plen as int));
    same_text(text.substring_char(0, plen), prefix)
}

/// The character of the decimal digit `d`.
pub open spec fn digit(d: int) -> char {
    ((48 + d) as u8) as char
}

/// The decimal numeral of `n`, without leading zeros.
pub open spec fn decimal(n: nat) -> Seq<char>
    decreases n,
{
    if n < 10 {
        seq![digit(n as int)]
    } else {
        decimal(n / 10).push(digit((n % 10) as int))
    }
}

/// `width - have` zeros, none where `have` reaches `width`.
pub open spec fn zeros(have: int, width: int) -> Seq<char> {
    Seq::new(
        if have < width {
            (width - have) as nat
        } else {
            0
        },
        |i: int| '0',
    )
}

/// The decimal numeral of `n`, with leading zeros up to `width` characters.
pub open spec fn padded(n: nat, width: int) -> Seq<char> {
    zeros(decimal(n).len() as int, width) + decimal(n)
}

/// The texts of `parts` with `sep` between each two of them.
pub open spec fn joined(parts: Seq<Seq<char>>, sep: Seq<char>) -> Seq<char>
    decreases parts.len(),
{
    if parts.len() == 0 {
        Seq::empty()
    } else if parts.len() == 1 {
        parts[0]
    } else {
        joined(parts.drop_last(), sep) + sep + parts.last()
    }
}

/// The character of the decimal digit `d`.
pub fn digit_char(d: u8) -> (c: char)
    requires
        d < 10,
    ensures
        c == digit(d as int),
{
    (48 + d) as char
}

/// Appends the decimal numeral of `n` to `out`.
pub fn push_decimal(out: &mut String, n: u64)
    ensures
        final(out)@ == old(out)@ + decimal(n as nat),
{
    let mut digits: Vec<u8> = Vec::new();
    let mut rest: u64 = n;
    // digits holds the low digits of n, lowest first
    digits.push((rest % 10) as u8);
    rest = rest / 10;
    let ghost mut low: Seq<char> = seq![digit((n % 10) as int)];
    while rest > 0
        invariant
            digits@.len() >= 1,
            low.len() == digits@.len(),
            forall|k: int| 0 <= k < digits@.len() ==> digits@[k] < 10,
            forall|k: int|
                0 <= k < digits@.len() ==> low[k] == digit(digits@[digits@.len() - 1 - k] as int),
            decimal(n as nat) == if rest == 0 {
                low
            } else {
                decimal(rest as nat) + low
            },
        decreases rest,
    {
        let d: u8 = (rest % 10) as u8;
        proof {
            let next = seq![digit(d as int)] + low;
            if rest < 10 {
                assert(decimal(rest as nat) + low =~= next);
            } else {
                assert(decimal(rest as nat) + low =~= decimal((rest / 10) as nat) + next);
            }
            low = next;
        }
        digits.push(d);
        rest = rest / 10;
    }
    let ghost start = out@;
    let mut i: usize = digits.len();
    while i > 0
        invariant
            i <= digits@.len(),
            low.len() == digits@.len(),
            forall|k: int| 0 <= k < digits@.len() ==> digits@[k] < 10,
            forall|k: int|
                0 <= k < digits@.len() ==> low[k] == digit(digits@[digits@.len() - 1 - k] as int),
            out@ == start + low.take(digits@.len() - i),
        decreases i,
    {
        i -= 1;
        let c: char = digit_char(digits[i]);
        out.push(c);
        assert(out@ =~= start + low.take(digits@.len() - i));
    }
    assert(low.take(digits@.len() as int) =~= low);
}

/// Appends the decimal numeral of `n`, with leading zeros up to `width`
/// characters.
pub fn push_padded(out: &mut String, n: u64, width: usize)
    ensures
        final(out)@ == old(out)@ + padded(n as nat, width as int),
{
    let mut numeral: String = String::new();
    push_decimal(&mut numeral, n);
    assert(numeral@ =~= decimal(n as nat));
    let have: usize = numeral.as_str().unicode_len();
    let ghost start = out@;
    let mut k: usize = have;
    while k < width
        invariant
            have <= k,
            k <= width || k == have,
            have == decimal(n as nat).len(),
            out@ == start + zeros(have as int, k as int),
        decreases width - k,
    {
        out.push('0');
        k += 1;
        assert(out@ =~= start + zeros(have as int, k as int));
    }
    assert(zeros(have as int, k as int) =~= zeros(have as int, width as int));
    out.append(numeral.as_str());
    assert(out@ =~= start + padded(n as nat, width as int));
}

/// The texts of `parts` with `sep` between each two of them.
pub fn join(parts: &Vec<String>, sep: &str) -> (out: String)
    ensures
        out@ == joined(parts.deep_view(), sep@),
{
    let mut out: String = String::new();
    let mut i: usize = 0;
    assert(parts.deep_view().take(0) =~= Seq::<Seq<char>>::empty());
    while i < parts.len()
        invariant
            i <= parts.len(),
            out@ == joined(parts.deep_view().take(i as int), sep@),
        decreases parts.len() - i,
    {
        proof {
            let upto = parts.deep_view().take(i + 1);
            assert(upto.drop_last() =~= parts.deep_view().take(i as int));
            assert(upto.last() == parts[i as int]@);
        }
        if i > 0 {
            out.append(sep);
        }
        out.append(parts[i].as_str());
        proof {
            if i == 0 {
                assert(out@ =~= parts[0]@);
            }
        }
        i += 1;
    }
    assert(parts.deep_view().take(parts.len() as int) =~= parts.deep_view());
    out
}

/// Whether `c` is one of the digits 0 to 9.
pub open spec fn is_digit(c: char) -> bool {
    '0' <= c <= '9'
}

/// Whether `s` holds digits only.
pub open spec fn all_digits(s: Seq<char>) -> bool {
    forall|i: int| 0 <= i < s.len() ==> is_digit(#[trigger] s[i])
}

/// The number that the digits of `s` spell in base ten; 0 for no digits.
pub open spec fn digits_value(s: Seq<char>) -> nat
    decreases s.len(),
{
    if s.len() == 0 {
        0
    } else {
        digits_value(s.drop_last()) * 10 + (s.last() as nat - 48) as nat
    }
}

/// `s` without one leading plus sign.
pub open spec fn unsigned_part(s: Seq<char>) -> Seq<char> {
    if s.len() > 0 && s[0] == '+' {
        s.drop_first()
    } else {
        s
    }
}

/// The number that `s` spells, where `s` is a numeral no larger than `max`:
/// one or more digits, which a plus sign may precede.
pub open spec fn numeral_value(s: Seq<char>, max: nat) -> Option<nat> {
    let body = unsigned_part(s);
    if body.len() > 0 && all_digits(body) && digits_value(body) <= max {
        Some(digits_value(body))
    } else {
        None
    }
}

/// The digits read so far never spell more than all of them.
pub proof fn lemma_digits_prefix(s: Seq<char>, k: int)
    requires
        0 <= k <= s.len(),
        all_digits(s),
    ensures
        digits_value(s.take(k)) <= digits_value(s),
    decreases s.len(),
{
    if k == s.len() {
        assert(s.take(k) =~= s);
    } else {
        assert(is_digit(s.last()));
        assert forall|i: int| 0 <= i < s.drop_last().len() implies is_digit(
            #[trigger] s.drop_last()[i],
        ) by {
            assert(s.drop_last()[i] == s[i]);
        }
        lemma_digits_prefix(s.drop_last(), k);
        assert(s.drop_last().take(k) =~= s.take(k));
    }
}

/// The number that `s` spells, where `s` is a numeral no larger than `max`.
pub fn parse_number(s: &str, max: u64) -> (n: Option<u64>)
    ensures
        n == match numeral_value(s@, max as nat) {
            Some(v) => Some(v as u64),
            None => None::<u64>,
        },
{
    let len: usize = s.unicode_len();
    let start: usize = if len > 0 && s.get_char(0) == '+' {
        1
    } else {
        0
    };
    let ghost body = unsigned_part(s@);
    assert(body =~= s@.skip(start as int));
    if start == len {
        return None;
    }
    let mut acc: u128 = 0;
    let mut i: usize = start;
    assert(body.take(0) =~= Seq::<char>::empty());
    while i < len
        invariant
            start <= i <= len,
            len == s@.len(),
            body == s@.skip(start as int),
            body == unsigned_part(s@),
            all_digits(body.take(i - start)),
            acc == digits_value(body.take(i - start)),
            acc <= max,
        decreases len - i,
    {
        let c: char = s.get_char(i);
        assert(body[i - start] == c);
        if !(c >= '0' && c <= '9') {
            assert(!is_digit(body[i - start]));
            return None;
        }
        let d: u128 = (c as u32 - 48) as u128;
        let next: u128 = acc * 10 + d;
        proof {
            let upto = body.take(i - start + 1);
            assert(upto.drop_last() =~= body.take(i - start));
            assert(upto.last() == c);
            assert forall|k: int| 0 <= k < upto.len() implies is_digit(#[trigger] upto[k]) by {
                if k < upto.len() - 1 {
                    assert(body.take(i - start)[k] == upto[k]);
                }
            }
            assert(digits_value(upto) == next);
        }
        if next > max as u128 {
            proof {
                if all_digits(body) {
                    lemma_digits_prefix(body, i - start + 1);
                }
            }
            return None;
        }
        acc = next;
        i += 1;
    }
    assert(body.take(len - start) =~= body);
    Some(acc as u64)
}

/// Whether `part` stands in `text` at position `at`.
pub open spec fn stands_at(text: Seq<char>, part: Seq<char>, at: int) -> bool {
    0 <= at && at + part.len() <= text.len() && text.subrange(at, at + part.len()) == part
}

/// The first position at or after `from` at which `part` stands in `text`;
/// the length of `text` plus one where it stands at none.
pub open spec fn first_at(text: Seq<char>, part: Seq<char>, from: int) -> int
    decreases text.len() + 1 - from,
{
    if from < 0 || from + part.len() > text.len() {
        text.len() as int + 1
    } else if stands_at(text, part, from) {
        from
    } else {
        first_at(text, part, from + 1)
    }
}

/// The pieces that `text` falls into around nothing: an empty piece, then
/// each character by itself, then an empty piece.
pub open spec fn letters(text: Seq<char>) -> Seq<Seq<char>> {
    Seq::new(
        text.len() + 2,
        |i: int|
            if 0 < i <= text.len() {
                seq![text[i - 1]]
            } else {
                Seq::empty()
            },
    )
}

/// The pieces that `text` falls into where the separator `sep` is cut out,
/// from the left, each cut at the first place the separator stands after
/// the cut before. A text that does not hold the separator is one piece.
/// An empty separator stands between every two characters and at both
/// ends.
pub open spec fn pieces(text: Seq<char>, sep: Seq<char>) -> Seq<Seq<char>>
    decreases text.len(),
{
    if sep.len() == 0 {
        letters(text)
    } else {
        let at = first_at(text, sep, 0);
        if at < 0 || at + sep.len() > text.len() {
            seq![text]
        } else {
            seq![text.take(at)] + pieces(text.skip(at + sep.len()), sep)
        }
    }
}

/// Where `first_at` points, the part stands, and nowhere before it.
pub proof fn lemma_first_at(text: Seq<char>, part: Seq<char>, from: int)
    requires
        0 <= from <= text.len() + 1,
    ensures
        first_at(text, part, from) >= from,
        first_at(text, part, from) <= text.len() ==> stands_at(
            text,
            part,
            first_at(text, part, from),
        ),
        forall|k: int| from <= k < first_at(text, part, from) ==> !stands_at(text, part, k),
    decreases text.len() + 1 - from,
{
    if from + part.len() > text.len() {
    } else if !stands_at(text, part, from) {
        lemma_first_at(text, part, from + 1);
    }
}

/// The first place a part stands in the rest of a text is the first place
/// it stands in the text at or after the start of the rest.
pub proof fn lemma_first_at_skip(text: Seq<char>, part: Seq<char>, start: int, from: int)
    requires
        0 <= start <= text.len(),
        0 <= from,
    ensures
        first_at(text.skip(start), part, from) <= text.skip(start).len() ==> first_at(
            text,
            part,
            start + from,
        ) == start + first_at(text.skip(start), part, from),
        first_at(text.skip(start), part, from) > text.skip(start).len() ==> first_at(
            text,
            part,
            start + from,
        ) > text.len(),
    decreases text.len() + 1 - start - from,
{
    let rest = text.skip(start);
    if from + part.len() > rest.len() {
    } else {
        assert(rest.subrange(from, from + part.len()) =~= text.subrange(
            start + from,
            start + from + part.len(),
        ));
        if !stands_at(rest, part, from) {
            lemma_first_at_skip(text, part, start, from + 1);
        }
    }
}

/// Cuts `text` into the pieces between the places where `sep` stands.
pub fn split(text: &str, sep: &str) -> (parts: Vec<String>)
    ensures
        parts.deep_view() == pieces(text@, sep@),
{
    let len: usize = text.unicode_len();
    let slen: usize = sep.unicode_len();
    let mut parts: Vec<String> = Vec::new();
    if slen == 0 {
        parts.push(String::new());
        let mut i: usize = 0;
        while i < len
            invariant
                i <= len,
                len == text@.len(),
                parts@.len() == i + 1,
                forall|k: int| 0 <= k <= i ==> parts@[k]@ == letters(text@)[k],
            decreases len - i,
        {
            let letter: String = text.substring_char(i, i + 1).to_owned();
            assert(letter@ =~= seq![text@[i as int]]);
            parts.push(letter);
            i += 1;
        }
        parts.push(String::new());
        assert(parts.deep_view() =~= letters(text@));
        return parts;
    }
    let mut start: usize = 0;
    let mut at: usize = 0;
    assert(text@.skip(0) =~= text@);
    assert(parts.deep_view() =~= Seq::<Seq<char>>::empty());
    while slen <= len && at <= len - slen
        invariant
            len == text@.len(),
            slen == sep@.len(),
            slen > 0,
            start <= at <= len,
            pieces(text@, sep@) == parts.deep_view() + pieces(text@.skip(start as int), sep@),
            forall|k: int| start <= k < at ==> !stands_at(text@, sep@, k),
        decreases len - at,
    {
        if same_text(text.substring_char(at, at + slen), sep) {
            let piece: String = text.substring_char(start, at).to_owned();
            proof {
                let rest = text@.skip(start as int);
                lemma_first_at(rest, sep@, 0);
                lemma_first_at_skip(text@, sep@, start as int, 0);
                lemma_first_at(text@, sep@, start as int);
                assert(stands_at(text@, sep@, at as int));
                assert(first_at(text@, sep@, start as int) == at);
                assert(first_at(rest, sep@, 0) == at - start);
                assert(rest.take(at - start) =~= text@.subrange(start as int, at as int));
                assert(rest.skip(at - start + slen) =~= text@.skip(at + slen));
                assert(pieces(rest, sep@) == seq![rest.take(at - start)] + pieces(
                    rest.skip(at - start + slen),
                    sep@,
                ));
            }
            let ghost done = parts.deep_view();
            parts.push(piece);
            assert(parts.deep_view() =~= done + seq![text@.subrange(start as int, at as int)]);
            at = at + slen;
            start = at;
        } else {
            at += 1;
        }
    }
    let last: String = text.substring_char(start, len).to_owned();
    proof {
        let rest = text@.skip(start as int);
        lemma_first_at(rest, sep@, 0);
        lemma_first_at_skip(text@, sep@, start as int, 0);
        lemma_first_at(text@, sep@, start as int);
        assert(rest =~= text@.subrange(start as int, len as int));
        if first_at(text@, sep@, start as int) <= text@.len() {
            let f = first_at(text@, sep@, start as int);
            assert(stands_at(text@, sep@, f));
            assert(f + slen <= len);
            assert(f >= at);
            assert(false);
        }
        assert(first_at(rest, sep@, 0) > rest.len());
        assert(pieces(rest, sep@) == seq![rest]);
    }
    let ghost done = parts.deep_view();
    parts.push(last);
    assert(parts.deep_view() =~= done + seq![text@.subrange(start as int, len as int)]);
    parts
}

/// `text` with every place cut out where `part` stands, from the left.
pub open spec fn without(text: Seq<char>, part: Seq<char>) -> Seq<char> {
    joined(pieces(text, part), Seq::empty())
}

/// The first `k` characters of a text, each by itself behind an empty
/// piece, join to those characters.
pub proof fn lemma_letters_join(text: Seq<char>, k: int)
    requires
        0 <= k <= text.len(),
    ensures
        joined(letters(text).take(k + 1), Seq::empty()) == text.take(k),
    decreases k,
{
    let upto = letters(text).take(k + 1);
    if k == 0 {
        assert(upto[0] =~= text.take(0));
    } else {
        lemma_letters_join(text, k - 1);
        assert(upto.drop_last() =~= letters(text).take(k));
        assert(upto.last() == seq![text[k - 1]]);
        assert(text.take(k - 1) + Seq::<char>::empty() + seq![text[k - 1]] =~= text.take(k));
    }
}

/// Cutting nothing out of a text leaves the text.
pub proof fn lemma_without_nothing(text: Seq<char>)
    ensures
        without(text, Seq::empty()) == text,
{
    let all = letters(text);
    lemma_letters_join(text, text.len() as int);
    assert(all.drop_last() =~= all.take(text.len() as int + 1));
    assert(all.last() =~= Seq::<char>::empty());
    assert(text.take(text.len() as int) =~= text);
    assert(text + Seq::<char>::empty() + Seq::<char>::empty() =~= text);
}

/// `text` with every place cut out where `part` stands; the text itself
/// where `part` is empty.
pub fn remove_all(text: &str, part: &str) -> (out: String)
    ensures
        out@ == without(text@, part@),
        part@.len() == 0 ==> out@ == text@,
{
    proof {
        if part@.len() == 0 {
            assert(part@ =~= Seq::<char>::empty());
            lemma_without_nothing(text@);
        }
    }
    proof {
        reveal_strlit("");
    }
    assert(""@ =~= Seq::<char>::empty());
    join(&split(text, part), "")
}

} // verus!
