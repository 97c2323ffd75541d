//! Layout sniffing: the byte-order mark and the field delimiter.

use crate::text::chars_of;
use vstd::prelude::*;
use vstd::string::StrSliceExecFns;

verus! {

/// The byte-order mark, U+FEFF.
pub const BYTE_ORDER_MARK: char = '\u{feff}';

/// The character that separates the cells of a row.
#[derive(Clone, Copy, Debug, PartialEq, Eq, Structural)]
pub enum Delimiter {
    Comma,
    Semicolon,
}

impl Delimiter {
    /// The delimiter as a character.
    pub open spec fn symbol(self) -> char {
        match self {
            Delimiter::Comma => ',',
            Delimiter::Semicolon => ';',
        }
    }

    /// The delimiter as a byte: 44 for the comma, 59 for the semicolon.
    pub open spec fn code(self) -> u8 {
        match self {
            Delimiter::Comma => 44u8,
            Delimiter::Semicolon => 59u8,
        }
    }

    /// The delimiter as the byte that a tokenizer splits at.
    pub fn byte(self) -> (b: u8)
        ensures
            b == self.code(),
            b == self.symbol() as u8,
    {
        match self {
            Delimiter::Comma => 44u8,
            Delimiter::Semicolon => 59u8,
        }
    }
}

/// `s` without one leading byte-order mark, if it starts with one.
pub open spec fn without_bom(s: Seq<char>) -> Seq<char> {
    if s.len() > 0 && s.first() == BYTE_ORDER_MARK {
        s.drop_first()
    } else {
        s
    }
}

/// How many characters precede the first line feed of `s`: the length of
/// `s` where it holds none.
pub open spec fn first_line_len(s: Seq<char>) -> nat
    decreases s.len(),
{
    if s.len() == 0 || s.first() == '\n' {
        0
    } else {
        1 + first_line_len(s.drop_first())
    }
}

/// The first line of `s`: what stands before its first line feed.
pub open spec fn first_line(s: Seq<char>) -> Seq<char> {
    s.take(first_line_len(s) as int)
}

/// How often `c` occurs in `s`.
pub open spec fn occurrences(s: Seq<char>, c: char) -> nat
    decreases s.len(),
{
    if s.len() == 0 {
        0
    } else {
        occurrences(s.drop_last(), c) + if s.last() == c {
            1nat
        } else {
            0nat
        }
    }
}

/// The delimiter that the first line of `s` suggests: the semicolon where
/// that line holds more semicolons than commas, else the comma.
pub open spec fn chosen_delimiter(s: Seq<char>) -> Delimiter {
    if occurrences(first_line(s), ';') > occurrences(first_line(s), ',') {
        Delimiter::Semicolon
    } else {
        Delimiter::Comma
    }
}

/// The first line ends at `k` where no line feed stands before `k` and one
/// stands at `k`, or the text ends there.
pub proof fn lemma_first_line_len(s: Seq<char>, k: int)
    requires
        0 <= k <= s.len(),
        forall|i: int| 0 <= i < k ==> #[trigger] s[i] != '\n',
        k == s.len() || s[k] == '\n',
    ensures
        first_line_len(s) == k,
    decreases k,
{
    if k > 0 {
        let rest = s.drop_first();
        assert(s.first() == s[0]);
        assert forall|i: int| 0 <= i < k - 1 implies #[trigger] rest[i] != '\n' by {
            assert(rest[i] == s[i + 1]);
        }
        lemma_first_line_len(rest, k - 1);
    }
}

/// Drops one leading byte-order mark.
pub fn strip_bom(raw: &str) -> (out: &str)
    ensures
        out@ == without_bom(raw@),
{
    let n: usize = raw.unicode_len();
    if n > 0 && raw.get_char(0) == BYTE_ORDER_MARK {
        proof {
            assert(raw@.subrange(1, n as int) =~= raw@.drop_first());
        }
        raw.substring_char(1, n)
    } else {
        raw
    }
}

/// Counts commas and semicolons in the first line of `text` and picks the
/// delimiter: the semicolon where it is strictly more frequent, else the
/// comma.
pub fn detect_delimiter(text: &str) -> (d: Delimiter)
    ensures
        d == chosen_delimiter(text@),
{
    let chars = chars_of(text);
    let n: usize = chars.len();
    let mut i: usize = 0;
    let mut commas: usize = 0;
    let mut semicolons: usize = 0;
    while i < n && chars[i] != '\n'
        invariant
            i <= n == chars@.len(),
            forall|j: int| 0 <= j < i ==> #[trigger] chars@[j] != '\n',
            commas == occurrences(chars@.take(i as int), ','),
            semicolons == occurrences(chars@.take(i as int), ';'),
            commas <= i,
            semicolons <= i,
        decreases n - i,
    {
        proof {
            assert(chars@.take(i + 1).drop_last() =~= chars@.take(i as int));
        }
        if chars[i] == ',' {
            commas += 1;
        }
        if chars[i] == ';' {
            semicolons += 1;
        }
        i += 1;
    }
    proof {
        lemma_first_line_len(chars@, i as int);
    }
    if semicolons > commas {
        Delimiter::Semicolon
    } else {
        Delimiter::Comma
    }
}

} // verus!
