//! Byte strings: the wire text of topics, payloads and SmartREST records.

use vstd::prelude::*;
use vstd::slice::*;
use vstd::string::*;

verus! {

/// The bytes of a text made of ASCII characters only.
pub open spec fn ascii(s: Seq<char>) -> Seq<u8> {
    Seq::new(s.len(), |i: int| s[i] as u8)
}

/// The UTF-8 bytes of `s`; for ASCII text these are its characters one by one.
pub fn bytes_of(s: &str) -> (bytes: Vec<u8>)
    ensures
        bytes@ == s.spec_bytes(),
        is_ascii(s) ==> bytes@ == ascii(s@),
{
    proof {
        is_ascii_spec_bytes(s);
    }
    s.as_bytes_vec()
}

/// Appends the UTF-8 bytes of `s` to `out`; for ASCII text these are its
/// characters one by one.
pub fn push_ascii(out: &mut Vec<u8>, s: &str)
    ensures
        final(out)@ == old(out)@ + s.spec_bytes(),
        is_ascii(s) ==> final(out)@ == old(out)@ + ascii(s@),
{
    let bytes = bytes_of(s);
    out.extend_from_slice(bytes.as_slice());
}

/// Whether two byte strings hold the same bytes.
pub fn bytes_eq(a: &[u8], b: &[u8]) -> (same: bool)
    ensures
        same == (a@ == b@),
{
    if a.len() != b.len() {
        return false;
    }
    let mut i: usize = 0;
    while i < a.len()
        invariant
            a@.len() == b@.len(),
            i <= a@.len(),
            forall|j: int| 0 <= j < i ==> a@[j] == b@[j],
        decreases a@.len() - i,
    {
        if a[i] != b[i] {
            return false;
        }
        i += 1;
    }
    assert(a@ =~= b@);
    true
}

/// Whether `s` begins with `prefix`.
pub fn starts_with(s: &[u8], prefix: &[u8]) -> (found: bool)
    ensures
        found == prefix@.is_prefix_of(s@),
{
    if prefix.len() > s.len() {
        return false;
    }
    bytes_eq(slice_subrange(s, 0, prefix.len()), prefix)
}

/// What is left of `s` behind `prefix`, if `s` starts with it.
pub open spec fn stripped(s: Seq<u8>, prefix: Seq<u8>) -> Option<Seq<u8>> {
    if prefix.is_prefix_of(s) {
        Some(s.subrange(prefix.len() as int, s.len() as int))
    } else {
        None
    }
}

/// What is left of `s` behind `prefix`, if `s` begins with it.
pub fn strip_prefix(s: &[u8], prefix: &[u8]) -> (rest: Option<Vec<u8>>)
    ensures
        rest is Some == stripped(s@, prefix@) is Some,
        rest matches Some(r) ==> Some(r@) == stripped(s@, prefix@),
{
    if starts_with(s, prefix) {
        Some(slice_to_vec(slice_subrange(s, prefix.len(), s.len())))
    } else {
        None
    }
}

/// Stripping a prefix undoes joining it, and the other way round.
pub proof fn lemma_stripped_joins(s: Seq<u8>, prefix: Seq<u8>)
    ensures
        stripped(prefix + s, prefix) == Some(s),
        stripped(s, prefix) matches Some(rest) ==> prefix + rest == s,
{
    assert((prefix + s).subrange(0, prefix.len() as int) =~= prefix);
    assert((prefix + s).subrange(prefix.len() as int, (prefix + s).len() as int) =~= s);
    if prefix.is_prefix_of(s) {
        assert(prefix + s.subrange(prefix.len() as int, s.len() as int) =~= s);
    }
}

/// `a` followed by `b`.
pub fn join(a: &[u8], b: &[u8]) -> (joined: Vec<u8>)
    ensures
        joined@ == a@ + b@,
{
    let mut joined = slice_to_vec(a);
    joined.extend_from_slice(b);
    joined
}

/// The first place at or after `from` where `s` holds `byte`.
pub open spec fn find(s: Seq<u8>, byte: u8, from: int) -> Option<int>
    decreases s.len() - from,
{
    if from < 0 || from >= s.len() {
        None
    } else if s[from] == byte {
        Some(from)
    } else {
        find(s, byte, from + 1)
    }
}

/// What is found is the first place of the byte; where nothing is found the byte
/// stands nowhere.
pub proof fn lemma_find(s: Seq<u8>, byte: u8, from: int)
    requires
        0 <= from,
    ensures
        match find(s, byte, from) {
            Some(at) => from <= at < s.len() && s[at] == byte && forall|j: int|
                from <= j < at ==> s[j] != byte,
            None => forall|j: int| from <= j < s.len() ==> s[j] != byte,
        },
    decreases s.len() - from,
{
    if from < s.len() && s[from] != byte {
        lemma_find(s, byte, from + 1);
    }
}

/// The first place of a byte is where it stands with none before it.
pub proof fn lemma_find_at(s: Seq<u8>, byte: u8, at: int)
    requires
        0 <= at < s.len(),
        s[at] == byte,
        forall|j: int| 0 <= j < at ==> s[j] != byte,
    ensures
        find(s, byte, 0) == Some(at),
{
    lemma_find(s, byte, 0);
}

/// A byte that stands nowhere is not found.
pub proof fn lemma_find_none(s: Seq<u8>, byte: u8)
    requires
        forall|j: int| 0 <= j < s.len() ==> s[j] != byte,
    ensures
        find(s, byte, 0) is None,
{
    lemma_find(s, byte, 0);
}

/// The first place at or after `from` where `s` holds `byte`.
pub fn find_byte(s: &[u8], byte: u8, from: usize) -> (at: Option<usize>)
    ensures
        at is Some == find(s@, byte, from as int) is Some,
        at matches Some(i) ==> find(s@, byte, from as int) == Some(i as int),
{
    let mut i: usize = from;
    while i < s.len()
        invariant
            from <= i,
            find(s@, byte, from as int) == find(s@, byte, i as int),
        decreases s@.len() - i,
    {
        if s[i] == byte {
            return Some(i);
        }
        i += 1;
    }
    None
}

/// The fields of `s` between occurrences of `sep`; a text without `sep` is one field.
pub open spec fn split(s: Seq<u8>, sep: u8) -> Seq<Seq<u8>>
    decreases s.len(),
{
    match find(s, sep, 0) {
        Some(at) => if 0 <= at < s.len() {
            seq![s.subrange(0, at)] + split(s.subrange(at + 1, s.len() as int), sep)
        } else {
            seq![s]
        },
        None => seq![s],
    }
}

/// A text ends its first field at its first separator.
pub proof fn lemma_split_first(first: Seq<u8>, rest: Seq<u8>, sep: u8)
    requires
        forall|j: int| 0 <= j < first.len() ==> first[j] != sep,
    ensures
        split(first + seq![sep] + rest, sep) == seq![first] + split(rest, sep),
        split(first, sep) == seq![first],
{
    let s = first + seq![sep] + rest;
    assert(s[first.len() as int] == sep);
    assert forall|j: int| 0 <= j < first.len() implies s[j] != sep by {
        assert(s[j] == first[j]);
    }
    lemma_find_at(s, sep, first.len() as int);
    assert(s.subrange(0, first.len() as int) =~= first);
    assert(s.subrange(first.len() as int + 1, s.len() as int) =~= rest);
    lemma_find_none(first, sep);
}

/// The byte strings that a list of buffers holds.
pub open spec fn views(list: Seq<Vec<u8>>) -> Seq<Seq<u8>> {
    list.map_values(|v: Vec<u8>| v@)
}

/// Splits `s` at each `sep`.
pub fn split_fields(s: &[u8], sep: u8) -> (fields: Vec<Vec<u8>>)
    ensures
        views(fields@) == split(s@, sep),
{
    let mut fields: Vec<Vec<u8>> = Vec::new();
    let mut start: usize = 0;
    proof {
        assert(s@.subrange(0, s@.len() as int) =~= s@);
        assert(views(fields@) + split(s@, sep) =~= split(s@, sep));
    }
    loop
        invariant
            start <= s@.len(),
            views(fields@) + split(s@.subrange(start as int, s@.len() as int), sep) == split(
                s@,
                sep,
            ),
        decreases s@.len() - start,
    {
        let ghost rest = s@.subrange(start as int, s@.len() as int);
        let ghost before = views(fields@);
        match find_byte(slice_subrange(s, start, s.len()), sep, 0) {
            Some(at) => {
                proof {
                    lemma_find(rest, sep, 0);
                }
                fields.push(slice_to_vec(slice_subrange(s, start, start + at)));
                proof {
                    assert(rest.subrange(0, at as int) =~= s@.subrange(
                        start as int,
                        start + at,
                    ));
                    assert(rest.subrange(at + 1, rest.len() as int) =~= s@.subrange(
                        start + at + 1,
                        s@.len() as int,
                    ));
                    assert(views(fields@) =~= before + seq![rest.subrange(0, at as int)]);
                    assert(views(fields@) + split(
                        s@.subrange(start + at + 1, s@.len() as int),
                        sep,
                    ) =~= before + split(rest, sep));
                }
                start = start + at + 1;
            },
            None => {
                fields.push(slice_to_vec(slice_subrange(s, start, s.len())));
                proof {
                    assert(views(fields@) =~= before + seq![rest]);
                }
                return fields;
            },
        }
    }
}

/// The decimal digits of `n`, most significant first.
pub open spec fn decimal(n: nat) -> Seq<u8>
    decreases n,
{
    if n < 10 {
        seq![(48 + n) as u8]
    } else {
        decimal(n / 10).push((48 + n % 10) as u8)
    }
}

/// Appends the decimal digits of `n` to `out`.
pub fn push_decimal(out: &mut Vec<u8>, n: u64)
    ensures
        final(out)@ == old(out)@ + decimal(n as nat),
    decreases n,
{
    if n >= 10 {
        push_decimal(out, n / 10);
    }
    let digit: u8 = (n % 10) as u8;
    out.push(48 + digit);
    proof {
        if n >= 10 {
            assert(out@ =~= old(out)@ + decimal(n as nat));
        } else {
            assert(out@ =~= old(out)@ + decimal(n as nat));
        }
    }
}

/// The decimal digits of `n`.
pub fn decimal_text(n: u64) -> (digits: Vec<u8>)
    ensures
        digits@ == decimal(n as nat),
{
    let mut digits: Vec<u8> = Vec::new();
    push_decimal(&mut digits, n);
    assert(Seq::<u8>::empty() + decimal(n as nat) =~= decimal(n as nat));
    digits
}

/// The decimal digits of ASCII.
pub open spec fn is_digit(byte: u8) -> bool {
    48 <= byte <= 57
}

/// Whether a text holds decimal digits only.
pub open spec fn all_digits(s: Seq<u8>) -> bool {
    forall|i: int| 0 <= i < s.len() ==> is_digit(#[trigger] s[i])
}

/// The number that a string of decimal digits writes.
pub open spec fn digits_value(s: Seq<u8>) -> nat
    decreases s.len(),
{
    if s.len() == 0 {
        0
    } else {
        digits_value(s.drop_last()) * 10 + (s.last() - 48) as nat
    }
}

/// The number written by `s`, where `s` is one or more decimal digits and the
/// number fits in 64 bits.
pub open spec fn decimal_value(s: Seq<u8>) -> Option<u64> {
    if s.len() > 0 && all_digits(s) && digits_value(s) <= u64::MAX {
        Some(digits_value(s) as u64)
    } else {
        None
    }
}

/// The digits of a number write that number.
pub proof fn lemma_decimal_round_trip(n: nat)
    ensures
        decimal(n).len() > 0,
        all_digits(decimal(n)),
        digits_value(decimal(n)) == n,
    decreases n,
{
    if n < 10 {
        let digits = decimal(n);
        assert(digits.drop_last() =~= Seq::<u8>::empty());
        assert(digits_value(digits.drop_last()) == 0);
    } else {
        lemma_decimal_round_trip(n / 10);
        let digits = decimal(n);
        assert(digits.drop_last() =~= decimal(n / 10));
        assert forall|i: int| 0 <= i < digits.len() implies is_digit(#[trigger] digits[i]) by {
            if i < digits.len() - 1 {
                assert(digits[i] == decimal(n / 10)[i]);
            }
        }
    }
}

proof fn lemma_digits_value_grows(s: Seq<u8>, k: int)
    requires
        all_digits(s),
        0 <= k <= s.len(),
    ensures
        digits_value(s.subrange(0, k)) <= digits_value(s),
    decreases s.len() - k,
{
    if k < s.len() {
        lemma_digits_value_grows(s, k + 1);
        assert(s.subrange(0, k + 1).drop_last() =~= s.subrange(0, k));
    } else {
        assert(s.subrange(0, k) =~= s);
    }
}

/// Reads a number from its decimal digits.
pub fn parse_decimal(s: &[u8]) -> (value: Option<u64>)
    ensures
        value == decimal_value(s@),
{
    if s.len() == 0 {
        return None;
    }
    let mut value: u64 = 0;
    let mut i: usize = 0;
    while i < s.len()
        invariant
            i <= s@.len(),
            all_digits(s@.subrange(0, i as int)),
            value == digits_value(s@.subrange(0, i as int)),
        decreases s@.len() - i,
    {
        let byte = s[i];
        if byte < 48 || byte > 57 {
            assert(!is_digit(s@[i as int]));
            return None;
        }
        let digit: u64 = (byte - 48) as u64;
        proof {
            assert(s@.subrange(0, i + 1).drop_last() =~= s@.subrange(0, i as int));
            assert(all_digits(s@.subrange(0, i + 1))) by {
                assert forall|j: int| 0 <= j < i + 1 implies is_digit(
                    #[trigger] s@.subrange(0, i + 1)[j],
                ) by {
                    if j < i {
                        assert(s@.subrange(0, i as int)[j] == s@[j]);
                    }
                }
            }
        }
        if value > (u64::MAX - digit) / 10 {
            proof {
                if all_digits(s@) {
                    lemma_digits_value_grows(s@, i + 1);
                }
            }
            return None;
        }
        value = value * 10 + digit;
        i += 1;
    }
    assert(s@.subrange(0, i as int) =~= s@);
    Some(value)
}

/// The white space of ASCII: space, tab, line feed, form feed, carriage return.
pub open spec fn is_blank(byte: u8) -> bool {
    byte == 0x20 || byte == 0x09 || byte == 0x0a || byte == 0x0c || byte == 0x0d
}

/// `s` without the blanks at its start.
pub open spec fn trim_start(s: Seq<u8>) -> Seq<u8>
    decreases s.len(),
{
    if s.len() > 0 && is_blank(s[0]) {
        trim_start(s.drop_first())
    } else {
        s
    }
}

/// `s` without the blanks at its end.
pub open spec fn trim_end(s: Seq<u8>) -> Seq<u8>
    decreases s.len(),
{
    if s.len() > 0 && is_blank(s.last()) {
        trim_end(s.drop_last())
    } else {
        s
    }
}

/// `s` without the blanks at its start and at its end.
pub open spec fn trim(s: Seq<u8>) -> Seq<u8> {
    trim_end(trim_start(s))
}

/// A text that neither begins nor ends with a blank is trimmed already.
pub proof fn lemma_trim_nothing(s: Seq<u8>)
    requires
        s.len() > 0,
        !is_blank(s[0]),
        !is_blank(s.last()),
    ensures
        trim(s) == s,
{
}

/// Whether a byte is white space.
pub fn blank(byte: u8) -> (b: bool)
    ensures
        b == is_blank(byte),
{
    byte == 0x20 || byte == 0x09 || byte == 0x0a || byte == 0x0c || byte == 0x0d
}

/// `s` without the white space around it.
pub fn trimmed(s: &[u8]) -> (t: Vec<u8>)
    ensures
        t@ == trim(s@),
{
    let mut start: usize = 0;
    assert(s@.subrange(0, s@.len() as int) =~= s@);
    while start < s.len() && blank(s[start])
        invariant
            start <= s@.len(),
            trim_start(s@) == trim_start(s@.subrange(start as int, s@.len() as int)),
        decreases s@.len() - start,
    {
        assert(s@.subrange(start as int, s@.len() as int).drop_first() =~= s@.subrange(
            start + 1,
            s@.len() as int,
        ));
        start += 1;
    }
    let ghost front = s@.subrange(start as int, s@.len() as int);
    assert(trim_start(s@) == front);
    let mut end: usize = s.len();
    while end > start && blank(s[end - 1])
        invariant
            start <= end <= s@.len(),
            front == s@.subrange(start as int, s@.len() as int),
            trim_end(front) == trim_end(s@.subrange(start as int, end as int)),
        decreases end,
    {
        assert(s@.subrange(start as int, end as int).drop_last() =~= s@.subrange(
            start as int,
            end - 1,
        ));
        end -= 1;
    }
    slice_to_vec(slice_subrange(s, start, end))
}

/// How many bytes stand before the first blank of `s`.
pub open spec fn word_len(s: Seq<u8>) -> nat
    decreases s.len(),
{
    if s.len() == 0 || is_blank(s[0]) {
        0
    } else {
        1 + word_len(s.drop_first())
    }
}

/// A word is no longer than its text, and is not empty where the text begins
/// with a byte that is not blank.
pub proof fn lemma_word_len(s: Seq<u8>)
    ensures
        word_len(s) <= s.len(),
        s.len() > 0 && !is_blank(s[0]) ==> word_len(s) > 0,
    decreases s.len(),
{
    if s.len() > 0 && !is_blank(s[0]) {
        lemma_word_len(s.drop_first());
    }
}

/// The words of `s`: the longest runs of bytes that are not blank.
pub open spec fn words(s: Seq<u8>) -> Seq<Seq<u8>>
    decreases s.len(),
{
    if s.len() == 0 {
        Seq::empty()
    } else if is_blank(s[0]) {
        words(s.drop_first())
    } else if 0 < word_len(s) <= s.len() {
        seq![s.subrange(0, word_len(s) as int)] + words(
            s.subrange(word_len(s) as int, s.len() as int),
        )
    } else {
        Seq::empty()
    }
}

/// Splits `s` at its white space.
pub fn split_words(s: &[u8]) -> (list: Vec<Vec<u8>>)
    ensures
        views(list@) == words(s@),
{
    let mut list: Vec<Vec<u8>> = Vec::new();
    let mut i: usize = 0;
    proof {
        assert(s@.subrange(0, s@.len() as int) =~= s@);
        assert(views(list@) + words(s@) =~= words(s@));
    }
    while i < s.len()
        invariant
            i <= s@.len(),
            views(list@) + words(s@.subrange(i as int, s@.len() as int)) == words(s@),
        decreases s@.len() - i,
    {
        let ghost rest = s@.subrange(i as int, s@.len() as int);
        if blank(s[i]) {
            assert(rest.drop_first() =~= s@.subrange(i + 1, s@.len() as int));
            i += 1;
        } else {
            let mut end: usize = i;
            assert(s@.subrange(i as int, s@.len() as int).subrange(0, 0) =~= Seq::<u8>::empty());
            while end < s.len() && !blank(s[end])
                invariant
                    i <= end <= s@.len(),
                    rest == s@.subrange(i as int, s@.len() as int),
                    word_len(rest) == (end - i) + word_len(
                        s@.subrange(end as int, s@.len() as int),
                    ),
                decreases s@.len() - end,
            {
                assert(s@.subrange(end as int, s@.len() as int).drop_first() =~= s@.subrange(
                    end + 1,
                    s@.len() as int,
                ));
                end += 1;
            }
            proof {
                lemma_word_len(rest);
                assert(word_len(rest) == end - i);
                assert(rest.subrange(0, word_len(rest) as int) =~= s@.subrange(
                    i as int,
                    end as int,
                ));
                assert(rest.subrange(word_len(rest) as int, rest.len() as int) =~= s@.subrange(
                    end as int,
                    s@.len() as int,
                ));
            }
            let ghost before = views(list@);
            list.push(slice_to_vec(slice_subrange(s, i, end)));
            proof {
                assert(views(list@) =~= before + seq![s@.subrange(i as int, end as int)]);
                assert(views(list@) + words(s@.subrange(end as int, s@.len() as int)) =~= before
                    + words(rest));
            }
            i = end;
        }
    }
    proof {
        assert(views(list@) + Seq::<Seq<u8>>::empty() =~= views(list@));
    }
    list
}

/// Whether `needle` stands somewhere in `s`.
pub open spec fn contains_text(s: Seq<u8>, needle: Seq<u8>) -> bool {
    exists|at: int|
        0 <= at && at + needle.len() <= s.len() && #[trigger] s.subrange(
            at,
            at + needle.len(),
        ) == needle
}

/// Whether `needle` stands somewhere in `s`.
pub fn contains(s: &[u8], needle: &[u8]) -> (found: bool)
    ensures
        found == contains_text(s@, needle@),
{
    if needle.len() > s.len() {
        return false;
    }
    let last: usize = s.len() - needle.len();
    let mut at: usize = 0;
    loop
        invariant
            at <= last,
            last + needle.len() == s.len(),
            forall|k: int| 0 <= k < at ==> #[trigger] s@.subrange(k, k + needle@.len()) != needle@,
        decreases last - at,
    {
        if bytes_eq(slice_subrange(s, at, at + needle.len()), needle) {
            return true;
        }
        if at == last {
            return false;
        }
        at += 1;
    }
}

} // verus!
