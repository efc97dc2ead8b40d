//! Version tokens: the number in front of a migration file's name.

use vstd::prelude::*;
use crate::decimal::{
    decimal_string, decimal_text, is_digit, lemma_decimal_text_value, lemma_numeral_round_trip,
    numeral_value, parse_range, NumeralError,
};
use crate::text::chars_of;

verus! {

/// The ending that marks a migration file: `.sql`.
pub open spec fn sql_suffix() -> Seq<char> {
    seq!['.', 's', 'q', 'l']
}

/// `name` ends in `.sql`.
pub open spec fn has_sql_suffix(name: Seq<char>) -> bool {
    name.len() >= 4 && name.subrange(name.len() - 4, name.len() as int) == sql_suffix()
}

/// The position of the first `.` in `s`, or the length of `s` if it has none.
pub open spec fn first_dot(s: Seq<char>) -> int
    decreases s.len(),
{
    if s.len() == 0 || s[0] == '.' {
        0
    } else {
        1 + first_dot(s.drop_first())
    }
}

/// What stands in front of the first `.` of a name; the whole name if it has
/// no `.`.
pub open spec fn stem(name: Seq<char>) -> Seq<char> {
    name.take(first_dot(name))
}

/// The version token of a file name: its stem read as an unsigned numeral.
pub open spec fn version_token(name: Seq<char>) -> Result<u128, NumeralError> {
    numeral_value(stem(name))
}

/// The name of the migration file with the given token: the token's numeral
/// followed by `.sql`.
pub open spec fn file_name_of(token: u128) -> Seq<char> {
    decimal_text(token as nat) + sql_suffix()
}

/// `first_dot` is the one position before which no `.` stands and at which
/// one does, or the text ends.
pub proof fn lemma_first_dot(s: Seq<char>, k: int)
    requires
        0 <= k <= s.len(),
        forall|j: int| 0 <= j < k ==> #[trigger] s[j] != '.',
        k < s.len() ==> s[k] == '.',
    ensures
        first_dot(s) == k,
    decreases s.len(),
{
    if s.len() == 0 || s[0] == '.' {
        if k > 0 {
            assert(s[0] != '.');
        }
    } else {
        let rest = s.drop_first();
        assert forall|j: int| 0 <= j < k - 1 implies #[trigger] rest[j] != '.' by {
            assert(rest[j] == s[j + 1]);
        }
        lemma_first_dot(rest, k - 1);
    }
}

/// Tells whether the characters of a name end in `.sql`.
pub(crate) fn ends_in_sql(name: &Vec<char>) -> (b: bool)
    ensures
        b == has_sql_suffix(name@),
{
    let n = name.len();
    if n < 4 {
        return false;
    }
    let b = name[n - 4] == '.' && name[n - 3] == 's' && name[n - 2] == 'q' && name[n - 1] == 'l';
    proof {
        let tail = name@.subrange(n - 4, n as int);
        if b {
            assert(tail =~= sql_suffix());
        } else {
            assert(tail[0] == name@[n - 4] && tail[1] == name@[n - 3]);
            assert(tail[2] == name@[n - 2] && tail[3] == name@[n - 1]);
        }
    }
    b
}

/// Reads the version token from the characters of a name.
pub(crate) fn token_of_chars(name: &Vec<char>) -> (r: Result<u128, NumeralError>)
    ensures
        r == version_token(name@),
{
    let n = name.len();
    let mut k: usize = 0;
    while k < n && name[k] != '.'
        invariant
            k <= n == name.len(),
            forall|j: int| 0 <= j < k ==> #[trigger] name@[j] != '.',
        decreases n - k,
    {
        k += 1;
    }
    proof {
        lemma_first_dot(name@, k as int);
    }
    parse_range(name, 0, k)
}

/// Tells whether a file name marks a migration file.
pub fn is_sql_file(name: &str) -> (b: bool)
    ensures
        b == has_sql_suffix(name@),
{
    let chars = chars_of(name);
    ends_in_sql(&chars)
}

/// Reads the version token in front of a file name: the text before the first
/// `.`, which must be an unsigned numeral that fits in 128 bits.
pub fn parse_version_token(name: &str) -> (r: Result<u128, NumeralError>)
    ensures
        r == version_token(name@),
{
    let chars = chars_of(name);
    token_of_chars(&chars)
}

/// Names the migration file that carries `token`.
pub fn migration_file_name(token: u128) -> (name: String)
    ensures
        name@ == file_name_of(token),
{
    let mut name = decimal_string(token);
    name.push('.');
    name.push('s');
    name.push('q');
    name.push('l');
    name
}

/// A file named after a token is a migration file, and its token reads back.
pub proof fn lemma_file_name_round_trip(token: u128)
    ensures
        has_sql_suffix(file_name_of(token)),
        version_token(file_name_of(token)) == Ok::<u128, NumeralError>(token),
{
    let digits = decimal_text(token as nat);
    let name = file_name_of(token);
    lemma_decimal_text_value(token as nat);
    assert(name.subrange(name.len() - 4, name.len() as int) =~= sql_suffix());
    assert forall|j: int| 0 <= j < digits.len() implies #[trigger] name[j] != '.' by {
        assert(name[j] == digits[j] && is_digit(digits[j]));
    }
    lemma_first_dot(name, digits.len() as int);
    assert(stem(name) =~= digits);
    lemma_numeral_round_trip(token);
}

} // verus!
