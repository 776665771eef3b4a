//! Column resolution: turning a user-supplied column spec into a zero-based
//! column index.
//!
//! A spec that parses as a non-negative integer is that integer, always: the
//! numeric reading takes priority over any name lookup. Otherwise the spec is
//! a column name, which is meaningless without a header row, and is resolved
//! to the position of the first header field exactly equal to it.

use vstd::prelude::*;
use vstd::string::StrSliceExecFns;

use crate::errors::Error;

verus! {

/// The digits accepted in a numeric column spec.
pub open spec fn is_digit_char(c: char) -> bool {
    48 <= c as u32 <= 57
}

pub open spec fn is_digit_byte(b: u8) -> bool {
    48 <= b <= 57
}

pub open spec fn char_digit(c: char) -> int {
    c as u32 - 48
}

pub open spec fn byte_digit(b: u8) -> int {
    b - 48
}

pub open spec fn all_digit_chars(s: Seq<char>) -> bool {
    forall|i: int| 0 <= i < s.len() ==> is_digit_char(#[trigger] s[i])
}

pub open spec fn all_digit_bytes(s: Seq<u8>) -> bool {
    forall|i: int| 0 <= i < s.len() ==> is_digit_byte(#[trigger] s[i])
}

/// The value of a digit string read in base ten.
pub open spec fn char_digits_value(s: Seq<char>) -> int
    decreases s.len(),
{
    if s.len() == 0 {
        0
    } else {
        char_digits_value(s.drop_last()) * 10 + char_digit(s.last())
    }
}

pub open spec fn byte_digits_value(s: Seq<u8>) -> int
    decreases s.len(),
{
    if s.len() == 0 {
        0
    } else {
        byte_digits_value(s.drop_last()) * 10 + byte_digit(s.last())
    }
}

/// How a column spec reads as a non-negative integer: an optional leading
/// `+`, then one or more decimal digits, and a value that fits in `usize`.
pub open spec fn parse_index_chars(s: Seq<char>) -> Option<int> {
    let body = if s.len() > 0 && s[0] == '+' {
        s.drop_first()
    } else {
        s
    };
    if body.len() > 0 && all_digit_chars(body) && char_digits_value(body) <= usize::MAX {
        Some(char_digits_value(body))
    } else {
        None
    }
}

pub open spec fn parse_index_bytes(s: Seq<u8>) -> Option<int> {
    let body = if s.len() > 0 && s[0] == 43 {
        s.drop_first()
    } else {
        s
    };
    if body.len() > 0 && all_digit_bytes(body) && byte_digits_value(body) <= usize::MAX {
        Some(byte_digits_value(body))
    } else {
        None
    }
}

/// The position of the first element of `s` equal to `x`, if any.
pub open spec fn first_match<T>(s: Seq<T>, x: T) -> Option<int>
    decreases s.len(),
{
    if s.len() == 0 {
        None
    } else if s[0] == x {
        Some(0)
    } else {
        match first_match(s.drop_first(), x) {
            Some(i) => Some(i + 1),
            None => None,
        }
    }
}

/// What column resolution returns, over the spec, the header availability and
/// the header row. The numeric reading always wins; a name needs a header.
pub open spec fn resolve_spec_chars(
    column: Seq<char>,
    headers_enabled: bool,
    header: Seq<Seq<char>>,
) -> Result<int, Error> {
    match parse_index_chars(column) {
        Some(n) => Ok(n),
        None => if !headers_enabled {
            Err(Error::InvalidColumnSpec)
        } else {
            match first_match(header, column) {
                Some(i) => Ok(i),
                None => Err(Error::ColumnNotFound),
            }
        },
    }
}

pub open spec fn resolve_spec_bytes(
    column: Seq<u8>,
    headers_enabled: bool,
    header: Seq<Seq<u8>>,
) -> Result<int, Error> {
    match parse_index_bytes(column) {
        Some(n) => Ok(n),
        None => if !headers_enabled {
            Err(Error::InvalidColumnSpec)
        } else {
            match first_match(header, column) {
                Some(i) => Ok(i),
                None => Err(Error::ColumnNotFound),
            }
        },
    }
}

proof fn lemma_char_digits_value_nonneg(s: Seq<char>)
    requires
        all_digit_chars(s),
    ensures
        char_digits_value(s) >= 0,
    decreases s.len(),
{
    if s.len() > 0 {
        assert(all_digit_chars(s.drop_last())) by {
            assert(forall|i: int|
                0 <= i < s.len() - 1 ==> #[trigger] s.drop_last()[i] == s[i]);
        }
        lemma_char_digits_value_nonneg(s.drop_last());
    }
}

proof fn lemma_byte_digits_value_nonneg(s: Seq<u8>)
    requires
        all_digit_bytes(s),
    ensures
        byte_digits_value(s) >= 0,
    decreases s.len(),
{
    if s.len() > 0 {
        assert(all_digit_bytes(s.drop_last())) by {
            assert(forall|i: int|
                0 <= i < s.len() - 1 ==> #[trigger] s.drop_last()[i] == s[i]);
        }
        lemma_byte_digits_value_nonneg(s.drop_last());
    }
}

/// One more digit on the right multiplies the value by ten and adds it.
proof fn lemma_char_digits_value_step(s: Seq<char>, i: int)
    requires
        0 <= i < s.len(),
    ensures
        char_digits_value(s.take(i + 1)) == char_digits_value(s.take(i)) * 10 + char_digit(s[i]),
{
    assert(s.take(i + 1).drop_last() =~= s.take(i));
    assert(s.take(i + 1).last() == s[i]);
}

proof fn lemma_byte_digits_value_step(s: Seq<u8>, i: int)
    requires
        0 <= i < s.len(),
    ensures
        byte_digits_value(s.take(i + 1)) == byte_digits_value(s.take(i)) * 10 + byte_digit(s[i]),
{
    assert(s.take(i + 1).drop_last() =~= s.take(i));
    assert(s.take(i + 1).last() == s[i]);
}

/// A prefix of a digit string never exceeds the whole string's value.
proof fn lemma_char_digits_value_prefix(s: Seq<char>, i: int)
    requires
        all_digit_chars(s),
        0 <= i <= s.len(),
    ensures
        char_digits_value(s.take(i)) <= char_digits_value(s),
    decreases s.len() - i,
{
    if i == s.len() {
        assert(s.take(i) =~= s);
    } else {
        lemma_char_digits_value_step(s, i);
        assert(all_digit_chars(s.take(i))) by {
            assert(forall|k: int| 0 <= k < i ==> #[trigger] s.take(i)[k] == s[k]);
        }
        lemma_char_digits_value_nonneg(s.take(i));
        lemma_char_digits_value_prefix(s, i + 1);
    }
}

proof fn lemma_byte_digits_value_prefix(s: Seq<u8>, i: int)
    requires
        all_digit_bytes(s),
        0 <= i <= s.len(),
    ensures
        byte_digits_value(s.take(i)) <= byte_digits_value(s),
    decreases s.len() - i,
{
    if i == s.len() {
        assert(s.take(i) =~= s);
    } else {
        lemma_byte_digits_value_step(s, i);
        assert(all_digit_bytes(s.take(i))) by {
            assert(forall|k: int| 0 <= k < i ==> #[trigger] s.take(i)[k] == s[k]);
        }
        lemma_byte_digits_value_nonneg(s.take(i));
        lemma_byte_digits_value_prefix(s, i + 1);
    }
}

/// Earliest hit wins: if `s[i]` is the first element equal to `x`, the match
/// is at `i`.
proof fn lemma_first_match_found<T>(s: Seq<T>, x: T, i: int)
    requires
        0 <= i < s.len(),
        s[i] == x,
        forall|k: int| 0 <= k < i ==> s[k] != x,
    ensures
        first_match(s, x) == Some(i),
    decreases i,
{
    if i > 0 {
        assert(forall|k: int|
            0 <= k < i - 1 ==> #[trigger] s.drop_first()[k] == s[k + 1]);
        lemma_first_match_found(s.drop_first(), x, i - 1);
    }
}

proof fn lemma_first_match_none<T>(s: Seq<T>, x: T)
    requires
        forall|k: int| 0 <= k < s.len() ==> s[k] != x,
    ensures
        first_match(s, x) is None,
    decreases s.len(),
{
    if s.len() > 0 {
        assert(forall|k: int|
            0 <= k < s.len() - 1 ==> #[trigger] s.drop_first()[k] == s[k + 1]);
        lemma_first_match_none(s.drop_first(), x);
    }
}

/// Reads a column spec as a non-negative integer, exactly as
/// `parse_index_chars` describes it.
pub fn parse_index_text(s: &String) -> (r: Option<usize>)
    ensures
        match r {
            Some(n) => parse_index_chars(s@) == Some(n as int),
            None => parse_index_chars(s@) is None,
        },
{
    let st = s.as_str();
    let len = st.unicode_len();
    let start: usize = if len > 0 && st.get_char(0) == '+' {
        1
    } else {
        0
    };
    let ghost body = if start == 1 {
        s@.drop_first()
    } else {
        s@
    };
    assert(forall|k: int|
        0 <= k < body.len() ==> #[trigger] body[k] == s@[k + start]);
    if len == start {
        return None;
    }
    let mut acc: usize = 0;
    let mut i: usize = start;
    while i < len
        invariant
            st@ == s@,
            start <= i <= len,
            len == s@.len(),
            start == 0 || start == 1,
            start == 1 ==> s@.len() > 0 && s@[0] == '+',
            start == 0 ==> s@.len() == 0 || s@[0] != '+',
            body == (if start == 1 { s@.drop_first() } else { s@ }),
            body.len() == len - start,
            forall|k: int| 0 <= k < body.len() ==> #[trigger] body[k] == s@[k + start],
            forall|k: int| 0 <= k < i - start ==> is_digit_char(#[trigger] body[k]),
            acc == char_digits_value(body.take(i - start)),
        decreases len - i,
    {
        let c = st.get_char(i);
        assert(c == body[i - start]);
        let code = c as u32;
        if code < 48 || code > 57 {
            assert(!is_digit_char(body[i - start]));
            assert(!all_digit_chars(body));
            return None;
        }
        let d = (code - 48) as usize;
        proof {
            lemma_char_digits_value_step(body, i - start);
            assert(body.take(i + 1 - start).take(i - start) =~= body.take(i - start));
            assert(char_digits_value(body.take(i + 1 - start)) == acc * 10 + d);
        }
        let next = match acc.checked_mul(10) {
            Some(t) => t.checked_add(d),
            None => None,
        };
        match next {
            Some(v) => {
                acc = v;
            }
            None => {
                // The value read so far already exceeds `usize`, and more
                // digits can only push it further up.
                proof {
                    assert(char_digits_value(body.take(i + 1 - start)) > usize::MAX);
                    if all_digit_chars(body) {
                        lemma_char_digits_value_prefix(body, i + 1 - start);
                    }
                }
                return None;
            }
        }
        proof {
            assert(acc == char_digits_value(body.take(i + 1 - start)));
        }
        i = i + 1;
    }
    proof {
        assert(body.take(i - start) =~= body);
        assert(all_digit_chars(body));
    }
    Some(acc)
}

/// Reads a byte-mode column spec as a non-negative integer, exactly as
/// `parse_index_bytes` describes it.
pub fn parse_index_byte(s: &Vec<u8>) -> (r: Option<usize>)
    ensures
        match r {
            Some(n) => parse_index_bytes(s@) == Some(n as int),
            None => parse_index_bytes(s@) is None,
        },
{
    let len = s.len();
    let start: usize = if len > 0 && s[0] == 43 {
        1
    } else {
        0
    };
    let ghost body = if start == 1 {
        s@.drop_first()
    } else {
        s@
    };
    assert(forall|k: int|
        0 <= k < body.len() ==> #[trigger] body[k] == s@[k + start]);
    if len == start {
        return None;
    }
    let mut acc: usize = 0;
    let mut i: usize = start;
    while i < len
        invariant
            start <= i <= len,
            len == s@.len(),
            start == 0 || start == 1,
            start == 1 ==> s@.len() > 0 && s@[0] == 43,
            start == 0 ==> s@.len() == 0 || s@[0] != 43,
            body == (if start == 1 { s@.drop_first() } else { s@ }),
            body.len() == len - start,
            forall|k: int| 0 <= k < body.len() ==> #[trigger] body[k] == s@[k + start],
            forall|k: int| 0 <= k < i - start ==> is_digit_byte(#[trigger] body[k]),
            acc == byte_digits_value(body.take(i - start)),
        decreases len - i,
    {
        let b = s[i];
        assert(b == body[i - start]);
        if b < 48 || b > 57 {
            assert(!is_digit_byte(body[i - start]));
            assert(!all_digit_bytes(body));
            return None;
        }
        let d = (b - 48) as usize;
        proof {
            lemma_byte_digits_value_step(body, i - start);
            assert(body.take(i + 1 - start).take(i - start) =~= body.take(i - start));
            assert(byte_digits_value(body.take(i + 1 - start)) == acc * 10 + d);
        }
        let next = match acc.checked_mul(10) {
            Some(t) => t.checked_add(d),
            None => None,
        };
        match next {
            Some(v) => {
                acc = v;
            }
            None => {
                proof {
                    assert(byte_digits_value(body.take(i + 1 - start)) > usize::MAX);
                    if all_digit_bytes(body) {
                        lemma_byte_digits_value_prefix(body, i + 1 - start);
                    }
                }
                return None;
            }
        }
        proof {
            assert(acc == byte_digits_value(body.take(i + 1 - start)));
        }
        i = i + 1;
    }
    proof {
        assert(body.take(i - start) =~= body);
        assert(all_digit_bytes(body));
    }
    Some(acc)
}

/// Scans a header row left to right for a field exactly equal to `name`.
fn find_column_text(header: &Vec<String>, name: &String) -> (r: Option<usize>)
    ensures
        match r {
            Some(i) => i < header.len() && first_match(header.deep_view(), name@) == Some(
                i as int,
            ),
            None => first_match(header.deep_view(), name@) is None,
        },
{
    let mut i: usize = 0;
    while i < header.len()
        invariant
            0 <= i <= header.len(),
            forall|k: int| 0 <= k < i ==> header.deep_view()[k] != name@,
        decreases header.len() - i,
    {
        if header[i].eq(name) {
            proof {
                lemma_first_match_found(header.deep_view(), name@, i as int);
            }
            return Some(i);
        }
        i = i + 1;
    }
    proof {
        lemma_first_match_none(header.deep_view(), name@);
    }
    None
}

fn find_column_byte(header: &Vec<Vec<u8>>, name: &Vec<u8>) -> (r: Option<usize>)
    ensures
        match r {
            Some(i) => i < header.len() && first_match(header.deep_view(), name@) == Some(
                i as int,
            ),
            None => first_match(header.deep_view(), name@) is None,
        },
{
    let mut i: usize = 0;
    while i < header.len()
        invariant
            0 <= i <= header.len(),
            forall|k: int| 0 <= k < i ==> header.deep_view()[k] != name@,
        decreases header.len() - i,
    {
        if header[i].eq(name) {
            proof {
                assert(header.deep_view()[i as int] =~= name@);
                lemma_first_match_found(header.deep_view(), name@, i as int);
            }
            return Some(i);
        }
        proof {
            if header.deep_view()[i as int] == name@ {
                assert(header[i as int]@ =~= name@);
            }
        }
        i = i + 1;
    }
    proof {
        lemma_first_match_none(header.deep_view(), name@);
    }
    None
}

/// Resolves a column spec to a zero-based index, per `resolve_spec_chars`:
/// the numeric reading first, then a name lookup in the header row.
pub fn resolve_column_text(column: &String, headers_enabled: bool, header: Option<&Vec<String>>) -> (r:
    Result<usize, Error>)
    ensures
        ({
            let h = match header {
                Some(v) => v.deep_view(),
                None => Seq::<Seq<char>>::empty(),
            };
            match r {
                Ok(i) => resolve_spec_chars(column@, headers_enabled, h) == Ok::<int, Error>(
                    i as int,
                ),
                Err(e) => resolve_spec_chars(column@, headers_enabled, h) == Err::<int, Error>(e),
            }
        }),
{
    match parse_index_text(column) {
        Some(n) => Ok(n),
        None => {
            if !headers_enabled {
                Err(Error::InvalidColumnSpec)
            } else {
                let found = match header {
                    Some(h) => find_column_text(h, column),
                    None => {
                        proof {
                            lemma_first_match_none(Seq::<Seq<char>>::empty(), column@);
                        }
                        None
                    },
                };
                match found {
                    Some(i) => Ok(i),
                    None => Err(Error::ColumnNotFound),
                }
            }
        },
    }
}

pub fn resolve_column_byte(column: &Vec<u8>, headers_enabled: bool, header: Option<&Vec<Vec<u8>>>) -> (r:
    Result<usize, Error>)
    ensures
        ({
            let h = match header {
                Some(v) => v.deep_view(),
                None => Seq::<Seq<u8>>::empty(),
            };
            match r {
                Ok(i) => resolve_spec_bytes(column@, headers_enabled, h) == Ok::<int, Error>(
                    i as int,
                ),
                Err(e) => resolve_spec_bytes(column@, headers_enabled, h) == Err::<int, Error>(e),
            }
        }),
{
    match parse_index_byte(column) {
        Some(n) => Ok(n),
        None => {
            if !headers_enabled {
                Err(Error::InvalidColumnSpec)
            } else {
                let found = match header {
                    Some(h) => find_column_byte(h, column),
                    None => {
                        proof {
                            lemma_first_match_none(Seq::<Seq<u8>>::empty(), column@);
                        }
                        None
                    },
                };
                match found {
                    Some(i) => Ok(i),
                    None => Err(Error::ColumnNotFound),
                }
            }
        },
    }
}

/// A column spec that reads as an integer resolves to that integer, whatever
/// the header row holds and whether headers are enabled at all: name lookup
/// is never reached.
pub proof fn lemma_numeric_precedence_text(
    column: Seq<char>,
    headers_enabled: bool,
    header: Seq<Seq<char>>,
    n: int,
)
    requires
        parse_index_chars(column) == Some(n),
    ensures
        resolve_spec_chars(column, headers_enabled, header) == Ok::<int, Error>(n),
{
}

/// The byte-mode counterpart of `lemma_numeric_precedence_text`.
pub proof fn lemma_numeric_precedence_byte(
    column: Seq<u8>,
    headers_enabled: bool,
    header: Seq<Seq<u8>>,
    n: int,
)
    requires
        parse_index_bytes(column) == Some(n),
    ensures
        resolve_spec_bytes(column, headers_enabled, header) == Ok::<int, Error>(n),
{
}

} // verus!


