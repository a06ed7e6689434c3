//! The cell-identifier grammar: `[A-Z]+[1-9][0-9]*` — one or more
//! uppercase letters, then a positive integer with no leading zero.
//! Also the character classes the command parser shares.

use vstd::prelude::*;

verus! {

/// Whitespace, as a command line may use it to separate its parts:
/// space, tab, line feed, vertical tab, form feed, carriage return.
pub open spec fn is_space(c: char) -> bool {
    c == ' ' || (9 <= c as u32 && c as u32 <= 13)
}

/// An uppercase ASCII letter.
pub open spec fn is_upper(c: char) -> bool {
    'A' as u32 <= c as u32 && c as u32 <= 'Z' as u32
}

/// A lowercase ASCII letter.
pub open spec fn is_lower(c: char) -> bool {
    'a' as u32 <= c as u32 && c as u32 <= 'z' as u32
}

/// An ASCII digit.
pub open spec fn is_digit(c: char) -> bool {
    '0' as u32 <= c as u32 && c as u32 <= '9' as u32
}

/// A nonzero ASCII digit.
pub open spec fn is_pos_digit(c: char) -> bool {
    '1' as u32 <= c as u32 && c as u32 <= '9' as u32
}

/// A word character: what a maximal token of a command line is made of.
pub open spec fn is_word(c: char) -> bool {
    is_upper(c) || is_lower(c) || is_digit(c) || c == '_'
}

/// The cell-identifier grammar `[A-Z]+[1-9][0-9]*`, stated as it reads:
/// the name splits at some point `k` into a nonempty run of uppercase
/// letters and a nonempty run of digits that starts with a nonzero one.
pub open spec fn is_cell_name(s: Seq<char>) -> bool {
    exists|k: int|
        1 <= k < s.len() && (forall|i: int| 0 <= i < k ==> is_upper(#[trigger] s[i]))
            && #[trigger] is_pos_digit(s[k]) && (forall|i: int|
            k < i < s.len() ==> is_digit(#[trigger] s[i]))
}

/// The split point of a valid cell name is forced: it is the end of the
/// maximal uppercase prefix.  So, given that prefix, validity reduces to
/// three direct checks.
pub proof fn lemma_cell_name_split(s: Seq<char>, k: int)
    requires
        0 <= k <= s.len(),
        forall|i: int| 0 <= i < k ==> is_upper(#[trigger] s[i]),
        k < s.len() ==> !is_upper(s[k]),
    ensures
        is_cell_name(s) <==> (1 <= k < s.len() && is_pos_digit(s[k]) && (forall|i: int|
            k < i < s.len() ==> is_digit(#[trigger] s[i]))),
{
    if is_cell_name(s) {
        let k2 = choose|k2: int|
            1 <= k2 < s.len() && (forall|i: int| 0 <= i < k2 ==> is_upper(#[trigger] s[i]))
                && #[trigger] is_pos_digit(s[k2]) && (forall|i: int|
                k2 < i < s.len() ==> is_digit(#[trigger] s[i]));
        if k2 < k {
            assert(is_upper(s[k2]));
            assert(false);
        } else if k2 > k {
            assert(is_upper(s[k]));
            assert(false);
        }
    }
    if 1 <= k < s.len() && is_pos_digit(s[k]) && (forall|i: int|
        k < i < s.len() ==> is_digit(#[trigger] s[i])) {
        assert(is_cell_name(s));
    }
}

/// The first position at or after `i` that does not hold whitespace
/// (the length of `s` if only whitespace follows).
pub open spec fn skip_spaces(s: Seq<char>, i: int) -> int
    decreases s.len() - i,
{
    if i < 0 || i >= s.len() {
        s.len() as int
    } else if is_space(s[i]) {
        skip_spaces(s, i + 1)
    } else {
        i
    }
}

/// The first position at or after `i` that does not hold a word
/// character: the end of the token that starts at `i`.
pub open spec fn word_end(s: Seq<char>, i: int) -> int
    decreases s.len() - i,
{
    if i < 0 || i >= s.len() {
        s.len() as int
    } else if is_word(s[i]) {
        word_end(s, i + 1)
    } else {
        i
    }
}

/// What `skip_spaces` returns: the next position at which something other
/// than whitespace stands, with only whitespace before it.
pub proof fn lemma_skip_spaces(s: Seq<char>, i: int)
    requires
        0 <= i <= s.len(),
    ensures
        i <= skip_spaces(s, i) <= s.len(),
        forall|j: int| i <= j < skip_spaces(s, i) ==> is_space(#[trigger] s[j]),
        skip_spaces(s, i) < s.len() ==> !is_space(s[skip_spaces(s, i)]),
    decreases s.len() - i,
{
    if i < s.len() && is_space(s[i]) {
        lemma_skip_spaces(s, i + 1);
    }
}

/// What `word_end` returns: the end of the run of word characters that
/// starts at `i`.
pub proof fn lemma_word_end(s: Seq<char>, i: int)
    requires
        0 <= i <= s.len(),
    ensures
        i <= word_end(s, i) <= s.len(),
        forall|j: int| i <= j < word_end(s, i) ==> is_word(#[trigger] s[j]),
        word_end(s, i) < s.len() ==> !is_word(s[word_end(s, i)]),
    decreases s.len() - i,
{
    if i < s.len() && is_word(s[i]) {
        lemma_word_end(s, i + 1);
    }
}

/// Advances past whitespace, from position `i` in `msg`.
pub fn skip_spaces_exec(msg: &str, i: usize) -> (r: usize)
    requires
        i <= msg@.len(),
    ensures
        r == skip_spaces(msg@, i as int),
        i <= r <= msg@.len(),
{
    proof {
        lemma_skip_spaces(msg@, i as int);
    }
    let n = msg.unicode_len();
    let mut j: usize = i;
    while j < n && space_char(msg.get_char(j))
        invariant
            i <= j <= n,
            n == msg@.len(),
            skip_spaces(msg@, i as int) == skip_spaces(msg@, j as int),
        decreases n - j,
    {
        j = j + 1;
    }
    j
}

/// Advances past word characters, from position `i` in `msg`.
pub fn word_end_exec(msg: &str, i: usize) -> (r: usize)
    requires
        i <= msg@.len(),
    ensures
        r == word_end(msg@, i as int),
        i <= r <= msg@.len(),
{
    proof {
        lemma_word_end(msg@, i as int);
    }
    let n = msg.unicode_len();
    let mut j: usize = i;
    while j < n && word_char(msg.get_char(j))
        invariant
            i <= j <= n,
            n == msg@.len(),
            word_end(msg@, i as int) == word_end(msg@, j as int),
        decreases n - j,
    {
        j = j + 1;
    }
    j
}

/// Does `c` belong to the whitespace class?
pub fn space_char(c: char) -> (r: bool)
    ensures
        r == is_space(c),
{
    c == ' ' || (9 <= c as u32 && c as u32 <= 13)
}

/// Is `c` an uppercase ASCII letter?
pub fn upper_char(c: char) -> (r: bool)
    ensures
        r == is_upper(c),
{
    'A' as u32 <= c as u32 && c as u32 <= 'Z' as u32
}

/// Is `c` an ASCII digit?
pub fn digit_char(c: char) -> (r: bool)
    ensures
        r == is_digit(c),
{
    '0' as u32 <= c as u32 && c as u32 <= '9' as u32
}

/// Is `c` a nonzero ASCII digit?
pub fn pos_digit_char(c: char) -> (r: bool)
    ensures
        r == is_pos_digit(c),
{
    '1' as u32 <= c as u32 && c as u32 <= '9' as u32
}

/// Is `c` a word character?
pub fn word_char(c: char) -> (r: bool)
    ensures
        r == is_word(c),
{
    upper_char(c) || ('a' as u32 <= c as u32 && c as u32 <= 'z' as u32) || digit_char(c) || c
        == '_'
}

/// Does `name` match the cell-identifier grammar `[A-Z]+[1-9][0-9]*`?
pub fn validate_cell_name(name: &str) -> (r: bool)
    ensures
        r == is_cell_name(name@),
{
    let n = name.unicode_len();
    let mut k: usize = 0;
    while k < n && upper_char(name.get_char(k))
        invariant
            0 <= k <= n,
            n == name@.len(),
            forall|i: int| 0 <= i < k ==> is_upper(#[trigger] name@[i]),
        decreases n - k,
    {
        k = k + 1;
    }
    proof {
        lemma_cell_name_split(name@, k as int);
    }
    if k == 0 || k >= n {
        return false;
    }
    if !pos_digit_char(name.get_char(k)) {
        return false;
    }
    let mut j: usize = k + 1;
    while j < n && digit_char(name.get_char(j))
        invariant
            k + 1 <= j <= n,
            n == name@.len(),
            forall|i: int| k < i < j ==> is_digit(#[trigger] name@[i]),
        decreases n - j,
    {
        j = j + 1;
    }
    j == n
}

} // verus!
