//! The text layer of a header: lines, space-separated tokens, decimal numbers.

use vstd::prelude::*;

verus! {

/// Line feed, which ends a header line.
pub const NEWLINE: u8 = 10;

/// Space, which separates the tokens of a line.
pub const SPACE: u8 = 32;

/// The index of the first `byte` in `s`, or `s.len()` where there is none.
pub open spec fn index_of(s: Seq<u8>, byte: u8) -> int
    decreases s.len(),
{
    if s.len() == 0 {
        0
    } else if s[0] == byte {
        0
    } else {
        1 + index_of(s.skip(1), byte)
    }
}

/// The pieces of `s` between occurrences of `sep`. There is always at least
/// one piece, and a piece is empty where two separators meet or where `s`
/// begins or ends with one.
pub open spec fn split(s: Seq<u8>, sep: u8) -> Seq<Seq<u8>>
    decreases s.len(),
{
    let i = index_of(s, sep);
    if 0 <= i < s.len() {
        seq![s.take(i)] + split(s.skip(i + 1), sep)
    } else {
        seq![s]
    }
}

/// The byte strings that a list of tokens holds.
pub open spec fn tokens_view(tokens: Seq<Vec<u8>>) -> Seq<Seq<u8>> {
    tokens.map_values(|t: Vec<u8>| t@)
}

/// `index_of` finds an occurrence, and nothing before it is one.
pub proof fn lemma_index_of(s: Seq<u8>, byte: u8)
    ensures
        0 <= index_of(s, byte) <= s.len(),
        index_of(s, byte) < s.len() ==> s[index_of(s, byte)] == byte,
        forall|j: int| 0 <= j < index_of(s, byte) ==> s[j] != byte,
    decreases s.len(),
{
    if s.len() > 0 && s[0] != byte {
        lemma_index_of(s.skip(1), byte);
        assert forall|j: int| 0 <= j < index_of(s, byte) implies s[j] != byte by {
            if j > 0 {
                assert(s[j] == s.skip(1)[j - 1]);
            }
        }
    }
}

/// An index with `byte` at it and none before it is the one `index_of` finds;
/// and where `byte` does not occur, `index_of` is the length.
pub proof fn lemma_index_of_is(s: Seq<u8>, byte: u8, i: int)
    requires
        0 <= i <= s.len(),
        i < s.len() ==> s[i] == byte,
        forall|j: int| 0 <= j < i ==> s[j] != byte,
    ensures
        index_of(s, byte) == i,
{
    lemma_index_of(s, byte);
    let k = index_of(s, byte);
    if k < i {
        assert(s[k] == byte);
    }
}

/// The position in `data` of the end of the line that starts at `from`: that
/// of its line feed, or `data.len()` where the last line has none.
pub fn find_byte(data: &[u8], from: usize, byte: u8) -> (end: usize)
    requires
        from <= data@.len(),
    ensures
        end == from + index_of(data@.skip(from as int), byte),
        from <= end <= data@.len(),
{
    let mut i: usize = from;
    while i < data.len() && data[i] != byte
        invariant
            from <= i <= data@.len(),
            forall|j: int| from <= j < i ==> data@[j] != byte,
        decreases data@.len() - i,
    {
        i += 1;
    }
    proof {
        let rest = data@.skip(from as int);
        assert forall|j: int| 0 <= j < i - from implies rest[j] != byte by {
            assert(rest[j] == data@[from + j]);
        }
        lemma_index_of_is(rest, byte, i - from);
    }
    i
}

/// A copy of `data[from..to]`.
pub fn copy_range(data: &[u8], from: usize, to: usize) -> (out: Vec<u8>)
    requires
        from <= to <= data@.len(),
    ensures
        out@ == data@.subrange(from as int, to as int),
{
    let mut out: Vec<u8> = Vec::new();
    let mut i: usize = from;
    while i < to
        invariant
            from <= i <= to <= data@.len(),
            out@ == data@.subrange(from as int, i as int),
        decreases to - i,
    {
        out.push(data[i]);
        proof {
            assert(out@ =~= data@.subrange(from as int, i + 1));
        }
        i += 1;
    }
    out
}

/// Splits `data[from..to]` at every space.
pub fn split_tokens(data: &[u8], from: usize, to: usize) -> (tokens: Vec<Vec<u8>>)
    requires
        from <= to <= data@.len(),
    ensures
        tokens_view(tokens@) == split(data@.subrange(from as int, to as int), SPACE),
        tokens@.len() >= 1,
{
    let mut tokens: Vec<Vec<u8>> = Vec::new();
    let mut start: usize = from;
    let ghost line = data@.subrange(from as int, to as int);
    loop
        invariant_except_break
            split(line, SPACE) == tokens_view(tokens@) + split(
                data@.subrange(start as int, to as int),
                SPACE,
            ),
        invariant
            from <= start <= to <= data@.len(),
            line == data@.subrange(from as int, to as int),
        ensures
            tokens_view(tokens@) == split(line, SPACE),
            tokens@.len() >= 1,
        decreases to - start,
    {
        let ghost rest = data@.subrange(start as int, to as int);
        let ghost before = tokens_view(tokens@);
        let mut end: usize = start;
        while end < to && data[end] != SPACE
            invariant
                start <= end <= to <= data@.len(),
                forall|j: int| start <= j < end ==> data@[j] != SPACE,
            decreases to - end,
        {
            end += 1;
        }
        proof {
            assert forall|j: int| 0 <= j < end - start implies rest[j] != SPACE by {
                assert(rest[j] == data@[start + j]);
            }
            lemma_index_of_is(rest, SPACE, end - start);
        }
        let token = copy_range(data, start, end);
        tokens.push(token);
        proof {
            assert(rest.take(end - start) =~= data@.subrange(start as int, end as int));
            assert(tokens_view(tokens@) =~= before.push(token@));
        }
        if end == to {
            proof {
                assert(rest.take(end - start) =~= rest);
                assert(split(rest, SPACE) =~= seq![rest]);
                assert(tokens_view(tokens@) =~= before + split(rest, SPACE));
            }
            break ;
        }
        proof {
            assert(rest.skip(end - start + 1) =~= data@.subrange(end + 1, to as int));
            assert(split(rest, SPACE) =~= seq![token@] + split(
                data@.subrange(end + 1, to as int),
                SPACE,
            ));
            assert(split(line, SPACE) =~= tokens_view(tokens@) + split(
                data@.subrange(end + 1, to as int),
                SPACE,
            ));
        }
        start = end + 1;
    }
    tokens
}

/// Whether `b` is one of the characters `0` to `9`.
pub open spec fn is_digit(b: u8) -> bool {
    48 <= b <= 57
}

/// Whether `s` holds digits only.
pub open spec fn all_digits(s: Seq<u8>) -> bool {
    forall|i: int| 0 <= i < s.len() ==> is_digit(#[trigger] s[i])
}

/// The number that a string of decimal digits spells.
pub open spec fn digits_value(s: Seq<u8>) -> nat
    decreases s.len(),
{
    if s.len() == 0 {
        0
    } else {
        digits_value(s.drop_last()) * 10 + (s.last() - 48) as nat
    }
}

/// The number that `s` spells as an unsigned decimal: an optional `+`, then
/// one or more digits and nothing else, of a value that a `usize` holds.
pub open spec fn parse_decimal(s: Seq<u8>) -> Option<nat> {
    let digits = if s.len() > 0 && s[0] == 43 {
        s.skip(1)
    } else {
        s
    };
    if digits.len() > 0 && all_digits(digits) && digits_value(digits) <= usize::MAX {
        Some(digits_value(digits))
    } else {
        None
    }
}

/// A string of digits spells at least what any of its prefixes does.
pub proof fn lemma_digits_value_grows(s: Seq<u8>, k: int)
    requires
        0 <= k <= s.len(),
        all_digits(s),
    ensures
        digits_value(s.take(k)) <= digits_value(s),
    decreases s.len() - k,
{
    if k < s.len() {
        lemma_digits_value_grows(s, k + 1);
        assert(s.take(k + 1).drop_last() =~= s.take(k));
    } else {
        assert(s.take(k) =~= s);
    }
}

/// Reads an unsigned decimal number.
pub fn parse_usize(token: &[u8]) -> (value: Option<usize>)
    ensures
        match value {
            Some(v) => parse_decimal(token@) == Some(v as nat),
            None => parse_decimal(token@) is None,
        },
{
    let start: usize = if token.len() > 0 && token[0] == 43 {
        1
    } else {
        0
    };
    if start == token.len() {
        return None;
    }
    let ghost digits = token@.skip(start as int);
    proof {
        assert(token@.skip(0) =~= token@);
    }
    let mut value: usize = 0;
    let mut i: usize = start;
    while i < token.len()
        invariant
            start <= i <= token@.len(),
            digits == token@.skip(start as int),
            digits.len() > 0,
            digits == if token@.len() > 0 && token@[0] == 43 {
                token@.skip(1)
            } else {
                token@
            },
            all_digits(digits.take(i - start)),
            value == digits_value(digits.take(i - start)),
        decreases token@.len() - i,
    {
        let b = token[i];
        if b < 48 || b > 57 {
            proof {
                assert(digits[i - start] == b);
                assert(!is_digit(digits[i - start]));
                assert(parse_decimal(token@) is None);
            }
            return None;
        }
        let d: usize = (b - 48) as usize;
        proof {
            assert(digits.take(i - start + 1).drop_last() =~= digits.take(i - start));
            assert(digits.take(i - start + 1).last() == b);
            assert forall|j: int| 0 <= j < i - start + 1 implies is_digit(
                #[trigger] digits.take(i - start + 1)[j],
            ) by {
                if j < i - start {
                    assert(digits.take(i - start)[j] == digits[j]);
                }
            }
        }
        if value > (usize::MAX - d) / 10 {
            proof {
                let next = digits_value(digits.take(i - start + 1));
                assert(next == value * 10 + d);
                assert(next > usize::MAX);
                if all_digits(digits) {
                    lemma_digits_value_grows(digits, i - start + 1);
                    assert(digits_value(digits) > usize::MAX);
                }
                assert(parse_decimal(token@) is None);
            }
            return None;
        }
        value = value * 10 + d;
        i += 1;
    }
    proof {
        assert(digits.take(i - start) =~= digits);
    }
    Some(value)
}

/// Whether two byte strings are the same.
pub fn bytes_equal(a: &[u8], b: &[u8]) -> (same: bool)
    ensures
        same == (a@ == b@),
{
    if a.len() != b.len() {
        return false;
    }
    let mut i: usize = 0;
    while i < a.len()
        invariant
            i <= a@.len(),
            a@.len() == b@.len(),
            forall|j: int| 0 <= j < i ==> a@[j] == b@[j],
        decreases a@.len() - i,
    {
        if a[i] != b[i] {
            return false;
        }
        i += 1;
    }
    proof {
        assert(a@ =~= b@);
    }
    true
}

} // verus!
