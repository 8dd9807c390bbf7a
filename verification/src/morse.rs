//! Morse code encoder and decoder. The ITU dialect is the one provided.
use vstd::prelude::*;

use crate::rx::{Rx, recv_law};
use crate::signal_error::{ErrorView, MorseErrorView, SignalError, result_view};
use crate::tx::{Tx, TxExt, VecCollectorTx};
use crate::perf::consume::push_char;


verus! {

/// The signal of a Morse transmission: `true` is on, `false` is off.
pub type Signal = bool;

pub const ON: Signal = true;

pub const OFF: Signal = false;

/// The units of a Morse transmission.
#[derive(Copy, Clone, PartialEq, Eq, Debug, Structural)]
pub enum CodePoint {
    /// The dot duration is the basic unit of time measurement in Morse code transmission.
    Dot,
    /// The duration of a dash is three times the duration of a dot.
    Dash,
    /// Spacing between dots and dashes, equal to the dot duration.
    SymbolPause,
    /// The letters of a word are separated by a space of duration equal to three dots.
    LetterPause,
    /// The words are separated by a space equal to seven dots.
    WordPause,
}

/// Shortcut for a dot, sized for legibility of the tables.
pub const II: CodePoint = CodePoint::Dot;

/// Shortcut for a dash, sized for legibility of the tables.
pub const OOOOOO: CodePoint = CodePoint::Dash;

pub open spec fn spec_duration(c: CodePoint) -> u8 {
    match c {
        CodePoint::Dot | CodePoint::SymbolPause => 1,
        CodePoint::Dash | CodePoint::LetterPause => 3,
        CodePoint::WordPause => 7,
    }
}

pub open spec fn spec_is_dot_or_dash(c: CodePoint) -> bool {
    c is Dot || c is Dash
}

/// The signal units of one code point: on for dots and dashes, off for pauses.
pub open spec fn signals_of(c: CodePoint) -> Seq<Signal> {
    Seq::new(spec_duration(c) as nat, |i: int| spec_is_dot_or_dash(c))
}

/// A run of `n` off units.
pub open spec fn off_run(n: nat) -> Seq<Signal> {
    Seq::new(n, |i: int| false)
}

/// A run of `n` units of the same signal.
pub open spec fn signal_run(s: Signal, n: nat) -> Seq<Signal> {
    Seq::new(n, |i: int| s)
}

/// The signals of code points written one after the other, without pauses.
pub open spec fn plain_signals(code: Seq<CodePoint>) -> Seq<Signal>
    decreases code.len(),
{
    if code.len() == 0 {
        seq![]
    } else {
        plain_signals(code.drop_last()) + signals_of(code.last())
    }
}

/// The signals of dots and dashes, each followed by a symbol pause.
pub open spec fn symbol_signals(code: Seq<CodePoint>) -> Seq<Signal>
    decreases code.len(),
{
    if code.len() == 0 {
        seq![]
    } else {
        symbol_signals(code.drop_last()) + signals_of(code.last()) + seq![OFF]
    }
}

/// Only dots and dashes.
pub open spec fn only_dots_and_dashes(code: Seq<CodePoint>) -> bool {
    forall|i: int| 0 <= i < code.len() ==> spec_is_dot_or_dash(#[trigger] code[i])
}

impl CodePoint {
    /// Duration in dot units.
    pub fn duration(self) -> (r: u8)
        ensures
            r == spec_duration(self),
    {
        match self {
            CodePoint::Dot | CodePoint::SymbolPause => 1,
            CodePoint::Dash | CodePoint::LetterPause => 3,
            CodePoint::WordPause => 7,
        }
    }

    /// The on and off units of this code point.
    pub fn encode(self) -> (r: Vec<Signal>)
        ensures
            r@ == signals_of(self),
    {
        let r = match self {
            CodePoint::Dot => vec![ON],
            CodePoint::Dash => vec![ON, ON, ON],
            CodePoint::SymbolPause => vec![OFF],
            CodePoint::LetterPause => vec![OFF, OFF, OFF],
            CodePoint::WordPause => vec![OFF, OFF, OFF, OFF, OFF, OFF, OFF],
        };
        assert(r@ =~= signals_of(self));
        r
    }

    pub fn is_dot_or_dash(self) -> (r: bool)
        ensures
            r == spec_is_dot_or_dash(self),
    {
        match self {
            CodePoint::Dot | CodePoint::Dash => true,
            _ => false,
        }
    }

    pub fn is_space(self) -> (r: bool)
        ensures
            r == !spec_is_dot_or_dash(self),
    {
        match self {
            CodePoint::SymbolPause | CodePoint::LetterPause | CodePoint::WordPause => true,
            _ => false,
        }
    }
}

/// Whether `c` is ASCII whitespace: space, tab, line feed, form feed or carriage return.
pub open spec fn spec_is_ascii_whitespace(c: char) -> bool {
    c == ' ' || c == '\t' || c == '\n' || c == '\x0C' || c == '\r'
}

/// `char::is_ascii_whitespace`.
pub fn is_ascii_whitespace(c: char) -> (r: bool)
    ensures
        r == spec_is_ascii_whitespace(c),
{
    c == ' ' || c == '\t' || c == '\n' || c == '\x0C' || c == '\r'
}

/// The first character of the uppercase mapping of `c`.
pub uninterp spec fn uppercase_first(c: char) -> char;

/// The uppercase of an ASCII character: `a`..`z` become `A`..`Z`, the others stay.
pub open spec fn ascii_upper(c: char) -> char {
    if 'a' <= c <= 'z' {
        ((c as u32) - 32) as char
    } else {
        c
    }
}

/// The first character that `char::to_uppercase` yields for `c` (the mapping always
/// yields at least one). For ASCII, the documentation gives the mapping: `a`..`z` go to
/// `A`..`Z`, every other ASCII character to itself. Beyond ASCII nothing is stated but that
/// the result is the named mapping of `c`.
#[verifier::external_body]
fn to_uppercase_first(c: char) -> (r: char)
    ensures
        r == uppercase_first(c),
        'a' <= c <= 'z' ==> r as u32 == c as u32 - 32,
        (c as u32) < 128 && !('a' <= c <= 'z') ==> r == c,
{
    c.to_uppercase().next().unwrap()
}

/// The code of the first entry of `table` whose character is `upper` or `c`.
pub open spec fn lookup_char(table: Seq<(char, Seq<CodePoint>)>, upper: char, c: char) -> Option<
    Seq<CodePoint>,
>
    decreases table.len(),
{
    if table.len() == 0 {
        None
    } else if table[0].0 == upper || table[0].0 == c {
        Some(table[0].1)
    } else {
        lookup_char(table.drop_first(), upper, c)
    }
}

/// The character of the first entry of `table` whose code is `code`.
pub open spec fn lookup_code(table: Seq<(char, Seq<CodePoint>)>, code: Seq<CodePoint>) -> Option<
    char,
>
    decreases table.len(),
{
    if table.len() == 0 {
        None
    } else if table[0].1 == code {
        Some(table[0].0)
    } else {
        lookup_code(table.drop_first(), code)
    }
}

/// Whether two codes are equal.
fn same_code(a: &[CodePoint], b: &[CodePoint]) -> (r: bool)
    ensures
        r == (a@ == b@),
{
    if a.len() != b.len() {
        return false;
    }
    let mut i: usize = 0;
    while i < a.len()
        invariant
            a@.len() == b@.len(),
            i <= a@.len(),
            forall|j: int| 0 <= j < i ==> a@[j] == b@[j],
        decreases a.len() - i,
    {
        if a[i] != b[i] {
            return false;
        }
        i = i + 1;
    }
    assert(a@ =~= b@);
    true
}

/// A table of Morse code: each known symbol with its dots and dashes.
pub trait Dialect: Sized + Default {
    /// The table, in the order in which it is searched.
    spec fn spec_table() -> Seq<(char, Seq<CodePoint>)>;

    /// What is sent for a character that the table does not know.
    spec fn spec_unknown() -> Seq<CodePoint>;

    /// The codes of a dialect are made of dots and dashes only.
    proof fn lemma_codes_are_dots_and_dashes()
        ensures
            forall|i: int|
                0 <= i < Self::spec_table().len() ==> only_dots_and_dashes(
                    #[trigger] Self::spec_table()[i].1,
                ),
            only_dots_and_dashes(Self::spec_unknown()),
    ;

    fn table_len(&self) -> (n: usize)
        ensures
            n == Self::spec_table().len(),
    ;

    fn table_entry(&self, i: usize) -> (r: (char, Vec<CodePoint>))
        requires
            i < Self::spec_table().len(),
        ensures
            r.0 == Self::spec_table()[i as int].0,
            r.1@ == Self::spec_table()[i as int].1,
    ;

    /// What is sent for a character that the table does not know.
    fn encode_unknown(&self) -> (r: Vec<CodePoint>)
        ensures
            r@ == Self::spec_unknown(),
    ;

    /// The whole table.
    fn table(&self) -> (r: Vec<(char, Vec<CodePoint>)>)
        ensures
            r@.len() == Self::spec_table().len(),
            forall|i: int|
                0 <= i < r@.len() ==> (#[trigger] r@[i]).0 == Self::spec_table()[i].0 && r@[i].1@
                    == Self::spec_table()[i].1,
    {
        let n = self.table_len();
        let mut r: Vec<(char, Vec<CodePoint>)> = Vec::new();
        let mut i: usize = 0;
        while i < n
            invariant
                n == Self::spec_table().len(),
                i <= n,
                r@.len() == i,
                forall|j: int|
                    0 <= j < i ==> (#[trigger] r@[j]).0 == Self::spec_table()[j].0 && r@[j].1@
                        == Self::spec_table()[j].1,
            decreases n - i,
        {
            r.push(self.table_entry(i));
            i = i + 1;
        }
        r
    }

    /// Whether `c` can be sent: it is whitespace or the table knows it.
    fn can_encode(&self, c: char) -> (r: bool)
        ensures
            r == (spec_is_ascii_whitespace(c) || lookup_char(
                Self::spec_table(),
                uppercase_first(c),
                c,
            ) is Some),
    {
        is_ascii_whitespace(c) || self.encode_char(c).is_some()
    }

    /// The code of a letter, in either case, if the table knows it. Spaces are not
    /// recognized: they are dealt with elsewhere.
    fn encode_char(&self, c: char) -> (r: Option<Vec<CodePoint>>)
        ensures
            match r {
                Some(v) => lookup_char(Self::spec_table(), uppercase_first(c), c) == Some(v@),
                None => lookup_char(Self::spec_table(), uppercase_first(c), c) is None,
            },
            (c as u32) < 128 ==> match r {
                Some(v) => lookup_char(Self::spec_table(), ascii_upper(c), c) == Some(v@),
                None => lookup_char(Self::spec_table(), ascii_upper(c), c) is None,
            },
    {
        let upper = to_uppercase_first(c);
        proof {
            if (c as u32) < 128 {
                assert(upper == ascii_upper(c)) by {
                    if 'a' <= c <= 'z' {
                        assert(upper as u32 == c as u32 - 32);
                    }
                }
            }
        }
        let n = self.table_len();
        let ghost t = Self::spec_table();
        let mut i: usize = 0;
        assert(t.skip(0) =~= t);
        while i < n
            invariant
                t == Self::spec_table(),
                n == t.len(),
                i <= n,
                upper == uppercase_first(c),
                (c as u32) < 128 ==> upper == ascii_upper(c),
                lookup_char(t, upper, c) == lookup_char(t.skip(i as int), upper, c),
            decreases n - i,
        {
            let (ch, code) = self.table_entry(i);
            proof {
                assert(t.skip(i as int)[0] == t[i as int]);
                assert(t.skip(i as int).drop_first() =~= t.skip(i + 1));
            }
            if ch == upper || ch == c {
                return Some(code);
            }
            i = i + 1;
        }
        None
    }

    /// An encoder of this dialect over `tx`.
    fn encoder<X: Tx<Item = Signal>>(tx: X) -> (r: EncoderTx<Self, X>)
        ensures
            r.inner() == tx,
            r.pause() == 0,
            r.is_steady(),
            r.accepted() == Seq::<char>::empty(),
    {
        EncoderTx {
            dialect: Self::default(),
            tx,
            pause_duration: 0,
            pause_written: 0,
            log: Ghost(Seq::empty()),
        }
    }

    /// The letter of a complete code, if the table knows it. The code must be non-empty and
    /// made of dots and dashes.
    fn decode_char(&self, code: &[CodePoint]) -> (r: Option<char>)
        requires
            code@.len() > 0,
            only_dots_and_dashes(code@),
        ensures
            r == lookup_code(Self::spec_table(), code@),
    {
        let n = self.table_len();
        let ghost t = Self::spec_table();
        let mut i: usize = 0;
        assert(t.skip(0) =~= t);
        while i < n
            invariant
                t == Self::spec_table(),
                n == t.len(),
                i <= n,
                lookup_code(t, code@) == lookup_code(t.skip(i as int), code@),
            decreases n - i,
        {
            let (ch, entry) = self.table_entry(i);
            proof {
                assert(t.skip(i as int)[0] == t[i as int]);
                assert(t.skip(i as int).drop_first() =~= t.skip(i + 1));
            }
            if same_code(entry.as_slice(), code) {
                return Some(ch);
            }
            i = i + 1;
        }
        None
    }
}

/// The international Morse code.
#[derive(Clone, Debug)]
pub struct ITU;

impl Default for ITU {
    fn default() -> (r: Self) {
        ITU
    }
}

/// Number of entries of the ITU table.
pub const ITU_TABLE_LEN: usize = 52;

/// The ITU table: each known symbol with its dots and dashes. `'0'` has an alternative
/// short form, listed after the regular one.
pub open spec fn itu_entry(i: int) -> (char, Seq<CodePoint>) {
    if i == 0 {
        ('A', seq![II, OOOOOO])
    } else if i == 1 {
        ('B', seq![OOOOOO, II, II, II])
    } else if i == 2 {
        ('C', seq![OOOOOO, II, OOOOOO, II])
    } else if i == 3 {
        ('D', seq![OOOOOO, II, II])
    } else if i == 4 {
        ('E', seq![II])
    } else if i == 5 {
        ('F', seq![II, II, OOOOOO, II])
    } else if i == 6 {
        ('G', seq![OOOOOO, OOOOOO, II])
    } else if i == 7 {
        ('H', seq![II, II, II, II])
    } else if i == 8 {
        ('I', seq![II, II])
    } else if i == 9 {
        ('J', seq![II, OOOOOO, OOOOOO, OOOOOO])
    } else if i == 10 {
        ('K', seq![OOOOOO, II, OOOOOO])
    } else if i == 11 {
        ('L', seq![II, OOOOOO, II, II])
    } else if i == 12 {
        ('M', seq![OOOOOO, OOOOOO])
    } else if i == 13 {
        ('N', seq![OOOOOO, II])
    } else if i == 14 {
        ('O', seq![OOOOOO, OOOOOO, OOOOOO])
    } else if i == 15 {
        ('P', seq![II, OOOOOO, OOOOOO, II])
    } else if i == 16 {
        ('Q', seq![OOOOOO, OOOOOO, II, OOOOOO])
    } else if i == 17 {
        ('R', seq![II, OOOOOO, II])
    } else if i == 18 {
        ('S', seq![II, II, II])
    } else if i == 19 {
        ('T', seq![OOOOOO])
    } else if i == 20 {
        ('U', seq![II, II, OOOOOO])
    } else if i == 21 {
        ('V', seq![II, II, II, OOOOOO])
    } else if i == 22 {
        ('W', seq![II, OOOOOO, OOOOOO])
    } else if i == 23 {
        ('X', seq![OOOOOO, II, II, OOOOOO])
    } else if i == 24 {
        ('Y', seq![OOOOOO, II, OOOOOO, OOOOOO])
    } else if i == 25 {
        ('Z', seq![OOOOOO, OOOOOO, II, II])
    } else if i == 26 {
        ('1', seq![II, OOOOOO, OOOOOO, OOOOOO, OOOOOO])
    } else if i == 27 {
        ('2', seq![II, II, OOOOOO, OOOOOO, OOOOOO])
    } else if i == 28 {
        ('3', seq![II, II, II, OOOOOO, OOOOOO])
    } else if i == 29 {
        ('4', seq![II, II, II, II, OOOOOO])
    } else if i == 30 {
        ('5', seq![II, II, II, II, II])
    } else if i == 31 {
        ('6', seq![OOOOOO, II, II, II, II])
    } else if i == 32 {
        ('7', seq![OOOOOO, OOOOOO, II, II, II])
    } else if i == 33 {
        ('8', seq![OOOOOO, OOOOOO, OOOOOO, II, II])
    } else if i == 34 {
        ('9', seq![OOOOOO, OOOOOO, OOOOOO, OOOOOO, II])
    } else if i == 35 {
        ('0', seq![OOOOOO, OOOOOO, OOOOOO, OOOOOO, OOOOOO])
    } else if i == 36 {
        ('0', seq![OOOOOO])
    } else if i == 37 {
        ('.', seq![II, OOOOOO, II, OOOOOO, II, OOOOOO])
    } else if i == 38 {
        (',', seq![OOOOOO, OOOOOO, II, II, OOOOOO, OOOOOO])
    } else if i == 39 {
        ('?', seq![II, II, OOOOOO, OOOOOO, II, II])
    } else if i == 40 {
        ('\'', seq![II, OOOOOO, OOOOOO, OOOOOO, OOOOOO, II])
    } else if i == 41 {
        ('!', seq![OOOOOO, II, OOOOOO, II, OOOOOO, OOOOOO])
    } else if i == 42 {
        ('/', seq![OOOOOO, II, II, OOOOOO, II])
    } else if i == 43 {
        ('(', seq![OOOOOO, II, OOOOOO, OOOOOO, II])
    } else if i == 44 {
        (')', seq![OOOOOO, II, OOOOOO, OOOOOO, II, OOOOOO])
    } else if i == 45 {
        ('&', seq![II, OOOOOO, II, II, II])
    } else if i == 46 {
        (':', seq![OOOOOO, OOOOOO, OOOOOO, II, II, II])
    } else if i == 47 {
        ('=', seq![OOOOOO, II, II, II, OOOOOO])
    } else if i == 48 {
        ('+', seq![II, OOOOOO, II, OOOOOO, II])
    } else if i == 49 {
        ('-', seq![OOOOOO, II, II, II, II, OOOOOO])
    } else if i == 50 {
        ('"', seq![II, OOOOOO, II, II, OOOOOO, II])
    } else {
        ('@', seq![II, OOOOOO, OOOOOO, II, OOOOOO, II])
    }
}

/// The entry `i` of the ITU table.
fn itu_entry_exec(i: usize) -> (r: (char, Vec<CodePoint>))
    requires
        i < ITU_TABLE_LEN,
    ensures
        r.0 == itu_entry(i as int).0,
        r.1@ == itu_entry(i as int).1,
{
    let r = match i {
        0 => ('A', vec![II, OOOOOO]),
        1 => ('B', vec![OOOOOO, II, II, II]),
        2 => ('C', vec![OOOOOO, II, OOOOOO, II]),
        3 => ('D', vec![OOOOOO, II, II]),
        4 => ('E', vec![II]),
        5 => ('F', vec![II, II, OOOOOO, II]),
        6 => ('G', vec![OOOOOO, OOOOOO, II]),
        7 => ('H', vec![II, II, II, II]),
        8 => ('I', vec![II, II]),
        9 => ('J', vec![II, OOOOOO, OOOOOO, OOOOOO]),
        10 => ('K', vec![OOOOOO, II, OOOOOO]),
        11 => ('L', vec![II, OOOOOO, II, II]),
        12 => ('M', vec![OOOOOO, OOOOOO]),
        13 => ('N', vec![OOOOOO, II]),
        14 => ('O', vec![OOOOOO, OOOOOO, OOOOOO]),
        15 => ('P', vec![II, OOOOOO, OOOOOO, II]),
        16 => ('Q', vec![OOOOOO, OOOOOO, II, OOOOOO]),
        17 => ('R', vec![II, OOOOOO, II]),
        18 => ('S', vec![II, II, II]),
        19 => ('T', vec![OOOOOO]),
        20 => ('U', vec![II, II, OOOOOO]),
        21 => ('V', vec![II, II, II, OOOOOO]),
        22 => ('W', vec![II, OOOOOO, OOOOOO]),
        23 => ('X', vec![OOOOOO, II, II, OOOOOO]),
        24 => ('Y', vec![OOOOOO, II, OOOOOO, OOOOOO]),
        25 => ('Z', vec![OOOOOO, OOOOOO, II, II]),
        26 => ('1', vec![II, OOOOOO, OOOOOO, OOOOOO, OOOOOO]),
        27 => ('2', vec![II, II, OOOOOO, OOOOOO, OOOOOO]),
        28 => ('3', vec![II, II, II, OOOOOO, OOOOOO]),
        29 => ('4', vec![II, II, II, II, OOOOOO]),
        30 => ('5', vec![II, II, II, II, II]),
        31 => ('6', vec![OOOOOO, II, II, II, II]),
        32 => ('7', vec![OOOOOO, OOOOOO, II, II, II]),
        33 => ('8', vec![OOOOOO, OOOOOO, OOOOOO, II, II]),
        34 => ('9', vec![OOOOOO, OOOOOO, OOOOOO, OOOOOO, II]),
        35 => ('0', vec![OOOOOO, OOOOOO, OOOOOO, OOOOOO, OOOOOO]),
        36 => ('0', vec![OOOOOO]),
        37 => ('.', vec![II, OOOOOO, II, OOOOOO, II, OOOOOO]),
        38 => (',', vec![OOOOOO, OOOOOO, II, II, OOOOOO, OOOOOO]),
        39 => ('?', vec![II, II, OOOOOO, OOOOOO, II, II]),
        40 => ('\'', vec![II, OOOOOO, OOOOOO, OOOOOO, OOOOOO, II]),
        41 => ('!', vec![OOOOOO, II, OOOOOO, II, OOOOOO, OOOOOO]),
        42 => ('/', vec![OOOOOO, II, II, OOOOOO, II]),
        43 => ('(', vec![OOOOOO, II, OOOOOO, OOOOOO, II]),
        44 => (')', vec![OOOOOO, II, OOOOOO, OOOOOO, II, OOOOOO]),
        45 => ('&', vec![II, OOOOOO, II, II, II]),
        46 => (':', vec![OOOOOO, OOOOOO, OOOOOO, II, II, II]),
        47 => ('=', vec![OOOOOO, II, II, II, OOOOOO]),
        48 => ('+', vec![II, OOOOOO, II, OOOOOO, II]),
        49 => ('-', vec![OOOOOO, II, II, II, II, OOOOOO]),
        50 => ('"', vec![II, OOOOOO, II, II, OOOOOO, II]),
        _ => ('@', vec![II, OOOOOO, OOOOOO, II, OOOOOO, II]),
    };
    assert(r.1@ =~= itu_entry(i as int).1);
    r
}


impl Dialect for ITU {
    open spec fn spec_table() -> Seq<(char, Seq<CodePoint>)> {
        Seq::new(ITU_TABLE_LEN as nat, |i: int| itu_entry(i))
    }

    open spec fn spec_unknown() -> Seq<CodePoint> {
        seq![]
    }

    proof fn lemma_codes_are_dots_and_dashes() {
        assert forall|i: int| 0 <= i < Self::spec_table().len() implies only_dots_and_dashes(
            #[trigger] Self::spec_table()[i].1,
        ) by {
            assert(Self::spec_table()[i] == itu_entry(i));
        }
    }

    fn table_len(&self) -> (n: usize) {
        ITU_TABLE_LEN
    }

    fn table_entry(&self, i: usize) -> (r: (char, Vec<CodePoint>)) {
        itu_entry_exec(i)
    }

    fn encode_unknown(&self) -> (r: Vec<CodePoint>) {
        Vec::new()
    }
}


/// The larger of two naturals.
pub open spec fn max_nat(a: nat, b: nat) -> nat {
    if a >= b {
        a
    } else {
        b
    }
}

/// The code the dialect `D` gives to `c`.
pub open spec fn char_code<D: Dialect>(c: char) -> Option<Seq<CodePoint>> {
    lookup_char(D::spec_table(), uppercase_first(c), c)
}

/// The encoder's step for one character: from the length `d` of the pause that
/// the signal currently ends with, the length of the pause after the character, and the
/// signals sent for it.
///
/// A known letter is its dots and dashes, each followed by a symbol pause, and a letter
/// pause; whitespace stretches the current pause to a word pause; an unknown character is
/// sent as the dialect's code for it, right after the current pause.
pub open spec fn char_step<D: Dialect>(d: nat, c: char) -> (nat, Seq<Signal>) {
    match char_code::<D>(c) {
        Some(k) => if k.len() > 0 {
            (3, symbol_signals(k) + off_run(2))
        } else {
            (max_nat(d, 3), off_run((max_nat(d, 3) - d) as nat))
        },
        None => if spec_is_ascii_whitespace(c) {
            (max_nat(d, 7), off_run((max_nat(d, 7) - d) as nat))
        } else {
            (0, plain_signals(D::spec_unknown()))
        },
    }
}

/// The length of the pause that the encoding of `s` ends with.
pub open spec fn encode_state<D: Dialect>(s: Seq<char>) -> nat
    decreases s.len(),
{
    if s.len() == 0 {
        0
    } else {
        char_step::<D>(encode_state::<D>(s.drop_last()), s.last()).0
    }
}

/// The signals that encode `s`.
pub open spec fn encode_signals<D: Dialect>(s: Seq<char>) -> Seq<Signal>
    decreases s.len(),
{
    if s.len() == 0 {
        seq![]
    } else {
        encode_signals::<D>(s.drop_last()) + char_step::<D>(
            encode_state::<D>(s.drop_last()),
            s.last(),
        ).1
    }
}

/// A code found in a table made of dots and dashes is made of dots and dashes.
pub proof fn lemma_lookup_char_dots(t: Seq<(char, Seq<CodePoint>)>, upper: char, c: char)
    requires
        forall|i: int| 0 <= i < t.len() ==> only_dots_and_dashes(#[trigger] t[i].1),
    ensures
        lookup_char(t, upper, c) matches Some(k) ==> only_dots_and_dashes(k),
    decreases t.len(),
{
    if t.len() > 0 {
        let rest = t.drop_first();
        assert forall|i: int| 0 <= i < rest.len() implies only_dots_and_dashes(
            #[trigger] rest[i].1,
        ) by {
            assert(rest[i] == t[i + 1]);
        }
        lemma_lookup_char_dots(rest, upper, c);
    }
}

/// Encodes characters with Morse code and sends the on and off signals down `tx`.
pub struct EncoderTx<D, X> {
    dialect: D,
    tx: X,
    /// How long is the current pause?
    pause_duration: u8,
    /// How much of the pause is already written?
    pause_written: u8,
    /// The characters accepted so far.
    log: Ghost<Seq<char>>,
}

impl<D, X> EncoderTx<D, X> {
    pub closed spec fn inner(&self) -> X {
        self.tx
    }

    /// The length of the pause that the signal sent so far ends with.
    pub closed spec fn pause(&self) -> nat {
        self.pause_duration as nat
    }

    /// Whether all of the current pause has been sent, as it is after every character
    /// unless the inner transmitter failed.
    pub closed spec fn is_steady(&self) -> bool {
        self.pause_written == self.pause_duration
    }

    /// The characters accepted so far.
    pub closed spec fn accepted(&self) -> Seq<char> {
        self.log@
    }
}

impl<D: Dialect, X: Tx<Item = Signal>> EncoderTx<D, X> {

    pub fn new(tx: X) -> (r: Self)
        ensures
            r.inner() == tx,
            r.pause() == 0,
            r.is_steady(),
            r.sent() == Seq::<char>::empty(),
    {
        EncoderTx {
            dialect: D::default(),
            tx,
            pause_duration: 0,
            pause_written: 0,
            log: Ghost(Seq::empty()),
        }
    }

    /// The transmitter the signals went to.
    pub fn into_inner(self) -> (r: X)
        ensures
            r == self.inner(),
    {
        self.tx
    }

    fn send_pause(&mut self) -> (r: Result<(), SignalError>)
        requires
            old(self).inv(),
        ensures
            final(self).inv(),
            final(self).pause_duration == old(self).pause_duration,
            final(self).log == old(self).log,
            r is Ok ==> final(self).tx.sent() == old(self).tx.sent() + off_run(
                (old(self).pause_duration - old(self).pause_written) as nat,
            ) && final(self).pause_written == final(self).pause_duration,
            old(self).tx.infallible() ==> r is Ok && final(self).tx.infallible(),
    {
        let n = self.pause_duration - self.pause_written;
        let ghost start = self.tx.sent();
        let mut k: u8 = 0;
        while k < n
            invariant
                self.inv(),
                self.pause_duration == old(self).pause_duration,
                self.pause_written == old(self).pause_written,
                self.log == old(self).log,
                n == old(self).pause_duration - old(self).pause_written,
                k <= n,
                start == old(self).tx.sent(),
                self.tx.sent() == start + off_run(k as nat),
                old(self).tx.infallible() ==> self.tx.infallible(),
            decreases n - k,
        {
            self.tx.send(OFF)?;
            proof {
                assert(start + off_run((k + 1) as nat) =~= (start + off_run(k as nat)).push(OFF));
            }
            k = k + 1;
        }
        self.pause_written = self.pause_duration;
        Ok(())
    }

    fn set_pause(&mut self, pause: CodePoint) -> (r: Result<(), SignalError>)
        requires
            old(self).inv(),
            !spec_is_dot_or_dash(pause),
        ensures
            final(self).inv(),
            final(self).log == old(self).log,
            final(self).pause_duration == max_nat(
                old(self).pause_duration as nat,
                spec_duration(pause) as nat,
            ),
            r is Ok ==> final(self).tx.sent() == old(self).tx.sent() + off_run(
                (final(self).pause_duration - old(self).pause_written) as nat,
            ) && final(self).pause_written == final(self).pause_duration,
            old(self).tx.infallible() ==> r is Ok && final(self).tx.infallible(),
    {
        let p = pause.duration();
        if p > self.pause_duration {
            self.pause_duration = p;
        }
        self.send_pause()
    }

    fn flush_pause(&mut self) -> (r: Result<(), SignalError>)
        requires
            old(self).inv(),
        ensures
            final(self).inv(),
            final(self).log == old(self).log,
            r is Ok ==> final(self).tx.sent() == old(self).tx.sent() + off_run(
                (old(self).pause_duration - old(self).pause_written) as nat,
            ) && final(self).pause_written == 0 && final(self).pause_duration == 0,
            old(self).tx.infallible() ==> r is Ok && final(self).tx.infallible(),
    {
        self.send_pause()?;
        self.pause_duration = 0;
        self.pause_written = 0;
        Ok(())
    }

    fn send_dot_or_dash(&mut self, symbol: CodePoint) -> (r: Result<(), SignalError>)
        requires
            old(self).inv(),
            spec_is_dot_or_dash(symbol),
        ensures
            final(self).inv(),
            final(self).log == old(self).log,
            r is Ok ==> final(self).tx.sent() == old(self).tx.sent() + off_run(
                (old(self).pause_duration - old(self).pause_written) as nat,
            ) + signals_of(symbol) + seq![OFF] && final(self).pause_written == 1
                && final(self).pause_duration == 1,
            old(self).tx.infallible() ==> r is Ok && final(self).tx.infallible(),
    {
        let ghost s0 = self.tx.sent();
        self.flush_pause()?;
        let ghost s1 = self.tx.sent();
        let signals = symbol.encode();
        self.tx.send_all(signals)?;
        let ghost s2 = self.tx.sent();
        self.set_pause(CodePoint::SymbolPause)?;
        proof {
            assert(off_run(1) =~= seq![OFF]);
            assert(off_run(0) =~= Seq::<Signal>::empty());
        }
        Ok(())
    }

    fn send_encoded_char(&mut self, symbols: &Vec<CodePoint>) -> (r: Result<(), SignalError>)
        requires
            old(self).inv(),
            only_dots_and_dashes(symbols@),
        ensures
            final(self).inv(),
            final(self).log == old(self).log,
            r is Ok ==> final(self).is_steady() && if symbols@.len() > 0 {
                final(self).tx.sent() == old(self).tx.sent() + off_run(
                    (old(self).pause_duration - old(self).pause_written) as nat,
                ) + symbol_signals(symbols@) + off_run(2) && final(self).pause_duration == 3
            } else {
                final(self).pause_duration == max_nat(old(self).pause_duration as nat, 3)
                    && final(self).tx.sent() == old(self).tx.sent() + off_run(
                    (final(self).pause_duration - old(self).pause_written) as nat,
                )
            },
            old(self).tx.infallible() ==> r is Ok && final(self).tx.infallible(),
    {
        let ghost start = self.tx.sent();
        let ghost lead = off_run((self.pause_duration - self.pause_written) as nat);
        let mut i: usize = 0;
        while i < symbols.len()
            invariant
                self.inv(),
                self.log == old(self).log,
                only_dots_and_dashes(symbols@),
                i <= symbols@.len(),
                start == old(self).tx.sent(),
                lead == off_run((old(self).pause_duration - old(self).pause_written) as nat),
                i == 0 ==> self.tx.sent() == start && self.pause_duration == old(self).pause_duration && self.pause_written == old(self).pause_written,
                i > 0 ==> self.tx.sent() == start + lead + symbol_signals(symbols@.take(i as int))
                    && self.pause_duration == 1 && self.pause_written == 1,
                old(self).tx.infallible() ==> self.tx.infallible(),
            decreases symbols.len() - i,
        {
            let ghost before = self.tx.sent();
            self.send_dot_or_dash(symbols[i])?;
            proof {
                let k = symbols@.take(i + 1);
                assert(k.drop_last() =~= symbols@.take(i as int));
                assert(k.last() == symbols@[i as int]);
                assert(off_run(0) =~= Seq::<Signal>::empty());
                if i == 0 {
                    assert(symbols@.take(0) =~= Seq::<CodePoint>::empty());
                    assert(symbol_signals(k) =~= signals_of(symbols@[0]) + seq![OFF]);
                    assert(self.tx.sent() =~= start + lead + symbol_signals(k));
                } else {
                    assert(self.tx.sent() =~= start + lead + symbol_signals(k));
                }
            }
            i = i + 1;
        }
        proof {
            assert(symbols@.take(symbols@.len() as int) =~= symbols@);
        }
        self.set_pause(CodePoint::LetterPause)?;
        proof {
            assert(off_run(2) =~= off_run((3 - 1) as nat));
        }
        Ok(())
    }

    fn send_unknown(&mut self) -> (r: Result<(), SignalError>)
        requires
            old(self).inv(),
        ensures
            final(self).inv(),
            final(self).log == old(self).log,
            r is Ok ==> final(self).is_steady() && final(self).pause_duration == 0
                && final(self).tx.sent() == old(self).tx.sent() + off_run(
                (old(self).pause_duration - old(self).pause_written) as nat,
            ) + plain_signals(D::spec_unknown()),
            old(self).tx.infallible() ==> r is Ok && final(self).tx.infallible(),
    {
        self.flush_pause()?;
        let code = self.dialect.encode_unknown();
        let mut signals: Vec<Signal> = Vec::new();
        let mut i: usize = 0;
        while i < code.len()
            invariant
                i <= code@.len(),
                signals@ == plain_signals(code@.take(i as int)),
            decreases code.len() - i,
        {
            let one = code[i].encode();
            let mut j: usize = 0;
            let ghost base = signals@;
            while j < one.len()
                invariant
                    j <= one@.len(),
                    signals@ == base + one@.take(j as int),
                decreases one.len() - j,
            {
                signals.push(one[j]);
                proof {
                    assert(one@.take(j + 1) =~= one@.take(j as int).push(one@[j as int]));
                }
                j = j + 1;
            }
            proof {
                let k = code@.take(i + 1);
                assert(k.drop_last() =~= code@.take(i as int));
                assert(one@.take(one@.len() as int) =~= one@);
            }
            i = i + 1;
        }
        proof {
            assert(code@.take(code@.len() as int) =~= code@);
        }
        let ghost mid = self.tx.sent();
        let r = self.tx.send_all(signals);
        proof {
            if r is Ok {
                assert(self.tx.sent() =~= mid + plain_signals(D::spec_unknown()));
            }
        }
        r
    }

    /// Send the signals of one character.
    fn send_char(&mut self, c: char) -> (r: Result<(), SignalError>)
        requires
            old(self).inv(),
        ensures
            final(self).inv(),
            final(self).log == old(self).log,
            old(self).is_steady() && r is Ok ==> final(self).is_steady()
                && final(self).pause() == char_step::<D>(old(self).pause(), c).0
                && final(self).tx.sent() == old(self).tx.sent() + char_step::<D>(
                old(self).pause(),
                c,
            ).1,
            old(self).tx.infallible() ==> r is Ok && final(self).tx.infallible(),
    {
        proof {
            D::lemma_codes_are_dots_and_dashes();
        }
        match self.dialect.encode_char(c) {
            Some(symbols) => {
                proof {
                    lemma_lookup_char_dots(D::spec_table(), uppercase_first(c), c);
                    assert(off_run(0) =~= Seq::<Signal>::empty());
                }
                self.send_encoded_char(&symbols)
            },
            None => {
                if is_ascii_whitespace(c) {
                    self.set_pause(CodePoint::WordPause)
                } else {
                    proof {
                        assert(off_run(0) =~= Seq::<Signal>::empty());
                    }
                    self.send_unknown()
                }
            },
        }
    }
}

impl<D: Dialect, X: Tx<Item = Signal>> Tx for EncoderTx<D, X> {
    type Item = char;

    closed spec fn inv(&self) -> bool {
        &&& self.pause_written <= self.pause_duration
        &&& self.pause_duration <= 7
        &&& self.tx.inv()
    }

    open spec fn sent(&self) -> Seq<char> {
        self.accepted()
    }

    open spec fn infallible(&self) -> bool {
        self.inner().infallible()
    }

    fn send(&mut self, value: char) -> (r: Result<(), SignalError>)
        ensures
            old(self).is_steady() && r is Ok ==> final(self).is_steady()
                && final(self).pause() == char_step::<D>(old(self).pause(), value).0
                && final(self).inner().sent() == old(self).inner().sent() + char_step::<D>(
                old(self).pause(),
                value,
            ).1,
    {
        let r = self.send_char(value);
        proof {
            if r is Ok {
                self.log@ = self.log@.push(value);
            }
        }
        r
    }
}

/// Encoding a transmitter's signals with Morse code.
pub trait MorseTxExt: Tx<Item = Signal> {
    fn morse_encode<D: Dialect>(self) -> (r: EncoderTx<D, Self>)
        ensures
            r.inner() == self,
            r.pause() == 0,
            r.is_steady(),
            r.sent() == Seq::<char>::empty(),
    {
        EncoderTx::new(self)
    }
}

impl<X: Tx<Item = Signal>> MorseTxExt for X {

}

impl<D: Dialect> EncoderTx<D, ()> {
    /// Encode a string with Morse code, producing its sequence of on and off signal states.
    pub fn encode_str(s: &str) -> (r: Vec<Signal>)
        ensures
            r@ == encode_signals::<D>(s@),
    {
        let mut coder = EncoderTx::<D, VecCollectorTx<Signal>>::new(
            VecCollectorTx::new(Vec::new()),
        );
        let n = s.unicode_len();
        let mut i: usize = 0;
        proof {
            assert(s@.take(0) =~= Seq::<char>::empty());
        }
        while i < n
            invariant
                n == s@.len(),
                i <= n,
                coder.inv(),
                coder.is_steady(),
                coder.inner().infallible(),
                coder.inner().sent() == encode_signals::<D>(s@.take(i as int)),
                coder.pause() == encode_state::<D>(s@.take(i as int)),
            decreases n - i,
        {
            let c = s.get_char(i);
            let r = coder.send_char(c);
            assert(r is Ok);
            proof {
                let t = s@.take(i + 1);
                assert(t.drop_last() =~= s@.take(i as int));
                assert(t.last() == c);
            }
            i = i + 1;
        }
        proof {
            assert(s@.take(n as int) =~= s@);
        }
        coder.tx.into_buffer()
    }
}

/// Why the decoder could not go on.
#[derive(Clone, Debug)]
pub enum MorseDecodeError {
    /// Failed to decode raw ons and offs into dots and dashes.
    Signal { signal: Vec<Signal> },
    /// Failed to decode dots and dashes as a letter.
    Letter { code_points: Vec<CodePoint> },
}

impl MorseDecodeError {
    pub fn from_signal(signal: Vec<Signal>) -> (r: Self)
        ensures
            r matches MorseDecodeError::Signal { signal: s } && s@ == signal@,
    {
        MorseDecodeError::Signal { signal }
    }

    pub fn from_letter(code_points: Vec<CodePoint>) -> (r: Self)
        ensures
            r matches MorseDecodeError::Letter { code_points: c } && c@ == code_points@,
    {
        MorseDecodeError::Letter { code_points }
    }
}


///////////////////////////////////////////////
/////////////////// Decoder ///////////////////
///////////////////////////////////////////////

/// Current value of the signal and for how long the signal has kept it.
#[derive(Clone, Copy, Debug)]
pub struct SignalGroup {
    pub state: Signal,
    /// Never zero. More than 3 units of `ON` is an error; more than 7 units of `OFF` is
    /// a single word space.
    pub duration: u8,
}

/// A group of one unit of `state`.
pub open spec fn group_new(state: Signal) -> SignalGroup {
    SignalGroup { state, duration: 1 }
}

/// The group one unit longer; the duration saturates.
pub open spec fn group_inc(g: SignalGroup) -> SignalGroup {
    SignalGroup { state: g.state, duration: if g.duration == 255 { 255 } else { (g.duration + 1) as u8 } }
}

/// `ON` lasts from 1 to 3 units; `OFF` lasts any time.
pub open spec fn group_valid(g: SignalGroup) -> bool {
    g.state == OFF || g.duration <= 3
}

/// The code point that a group stands for, rounding pauses down.
pub open spec fn group_code_point(g: SignalGroup) -> Option<CodePoint> {
    if g.state == ON {
        if g.duration == 1 {
            Some(CodePoint::Dot)
        } else if g.duration == 3 {
            Some(CodePoint::Dash)
        } else {
            None
        }
    } else if g.duration >= 7 {
        Some(CodePoint::WordPause)
    } else if g.duration >= 3 {
        Some(CodePoint::LetterPause)
    } else if g.duration >= 1 {
        Some(CodePoint::SymbolPause)
    } else {
        None
    }
}

/// The signal units of a group.
pub open spec fn group_signals(g: SignalGroup) -> Seq<Signal> {
    signal_run(g.state, g.duration as nat)
}

/// The error for a signal that cannot be decoded.
pub open spec fn signal_error(signal: Seq<Signal>) -> ErrorView {
    ErrorView::Morse(MorseErrorView::Signal(signal))
}

/// The error for dots and dashes that are no letter.
pub open spec fn letter_error(code: Seq<CodePoint>) -> ErrorView {
    ErrorView::Morse(MorseErrorView::Letter(code))
}

/// What the decoder does when the group it holds has just become `g`: a word pause gives
/// a space, a letter pause decodes the letter collected so far.
pub open spec fn dec_check<D: Dialect>(g: SignalGroup, letter: Seq<CodePoint>) -> (
    Seq<CodePoint>,
    Seq<Result<char, ErrorView>>,
) {
    if g.state == OFF && g.duration == 7 {
        (letter, seq![Ok(' ')])
    } else if g.state == OFF && g.duration == 3 && letter.len() > 0 {
        match lookup_code(D::spec_table(), letter) {
            Some(c) => (seq![], seq![Ok(c)]),
            None => (seq![], seq![Err(letter_error(letter))]),
        }
    } else {
        (letter, seq![])
    }
}

/// The decoder's step for one signal unit: the new group, the new letter, and what it
/// hands out (nothing, or one outcome).
pub open spec fn dec_step<D: Dialect>(
    group: Option<SignalGroup>,
    letter: Seq<CodePoint>,
    s: Signal,
) -> (Option<SignalGroup>, Seq<CodePoint>, Seq<Result<char, ErrorView>>) {
    match group {
        None => (Some(group_new(s)), letter, seq![]),
        Some(g) => if g.state == s {
            let g2 = group_inc(g);
            if !group_valid(g2) {
                (None, seq![], seq![Err(signal_error(group_signals(g2)))])
            } else {
                let (l2, out) = dec_check::<D>(g2, letter);
                (Some(g2), l2, out)
            }
        } else if g.state == ON {
            match group_code_point(g) {
                Some(cp) => (Some(group_new(s)), letter.push(cp), seq![]),
                None => (Some(group_new(s)), letter, seq![Err(signal_error(group_signals(g)))]),
            }
        } else {
            (Some(group_new(s)), letter, seq![])
        },
    }
}

/// What the decoder hands out once its source has ended.
pub open spec fn dec_finish(group: Option<SignalGroup>) -> Seq<Result<char, ErrorView>> {
    match group {
        Some(g) => if g.state == ON && group_code_point(g) is None {
            seq![Err(signal_error(group_signals(g)))]
        } else {
            seq![]
        },
        None => seq![],
    }
}

/// Everything the decoder hands out, from its state and the outcomes of its source.
pub open spec fn dec_run<D: Dialect>(
    group: Option<SignalGroup>,
    letter: Seq<CodePoint>,
    input: Seq<Result<Signal, ErrorView>>,
) -> Seq<Result<char, ErrorView>>
    decreases input.len(),
{
    if input.len() == 0 {
        dec_finish(group)
    } else {
        match input[0] {
            Err(e) => seq![Err(e)] + dec_run::<D>(group, letter, input.drop_first()),
            Ok(s) => {
                let (g2, l2, out) = dec_step::<D>(group, letter, s);
                out + dec_run::<D>(g2, l2, input.drop_first())
            },
        }
    }
}

impl SignalGroup {
    /// Groups have a duration of at least one unit.
    pub open spec fn wf(&self) -> bool {
        self.duration >= 1
    }

    pub fn new(state: Signal) -> (r: Self)
        ensures
            r == group_new(state),
    {
        SignalGroup { state, duration: 1 }
    }

    /// Increment the duration of this state. The addition saturates: durations big enough
    /// to overflow mean nothing to Morse code anyway.
    pub fn inc(&mut self)
        ensures
            *final(self) == group_inc(*old(self)),
    {
        if self.duration < 255 {
            self.duration = self.duration + 1;
        }
    }

    /// For `ON`, the duration must be between 1 and 3; for `OFF` it can be anything.
    pub fn is_valid(&self) -> (r: bool)
        ensures
            r == group_valid(*self),
    {
        if self.state == ON {
            self.duration <= 3
        } else {
            true
        }
    }

    /// Whether `state` is this group's state.
    pub fn is_same(&self, state: Signal) -> (r: bool)
        ensures
            r == (self.state == state),
    {
        self.state == state
    }

    /// The code point of this group. Pauses are rounded down to the nearest meaningful
    /// value: 7 for a word pause, 3 for a letter pause, 1 for a symbol pause.
    pub fn to_code_point(&self) -> (r: Option<CodePoint>)
        ensures
            r == group_code_point(*self),
    {
        if self.state == ON {
            if self.duration == 1 {
                Some(CodePoint::Dot)
            } else if self.duration == 3 {
                Some(CodePoint::Dash)
            } else {
                None
            }
        } else {
            if self.duration >= 7 {
                Some(CodePoint::WordPause)
            } else if self.duration >= 3 {
                Some(CodePoint::LetterPause)
            } else if self.duration >= 1 {
                Some(CodePoint::SymbolPause)
            } else {
                None
            }
        }
    }
}

/// Decodes on and off signal units into characters.
pub struct DecoderRx<D, X> {
    dialect: D,
    inner: X,
    /// The last signal unit seen and for how long it has lasted; `None` before the start
    /// and after a reset, which follows every error.
    current_group: Option<SignalGroup>,
    /// Dots and dashes of the current letter.
    current_letter: Vec<CodePoint>,
}

impl<D: Dialect, X: Rx<Item = Signal>> DecoderRx<D, X> {
    pub closed spec fn inner(&self) -> X {
        self.inner
    }

    pub closed spec fn group(&self) -> Option<SignalGroup> {
        self.current_group
    }

    pub closed spec fn letter(&self) -> Seq<CodePoint> {
        self.current_letter@
    }

    pub fn new(inner: X) -> (r: Self)
        requires
            inner.inv(),
            inner.is_finite(),
        ensures
            r.inner() == inner,
            r.group() is None,
            r.letter() == Seq::<CodePoint>::empty(),
            r.inv(),
    {
        DecoderRx {
            inner,
            dialect: D::default(),
            current_group: None,
            current_letter: Vec::new(),
        }
    }

    fn reset_with_signal_error(&mut self) -> (r: SignalError)
        ensures
            final(self).inner == old(self).inner,
            final(self).current_group is None,
            final(self).current_letter@ == Seq::<CodePoint>::empty(),
            r@ == signal_error(
                match old(self).current_group {
                    Some(g) => group_signals(g),
                    None => Seq::<Signal>::empty(),
                },
            ),
    {
        self.reset_letter();
        let g = self.reset_group();
        Self::error_from_group(g)
    }

    fn reset_with_letter_error(&mut self) -> (r: SignalError)
        ensures
            final(self).inner == old(self).inner,
            final(self).current_group == old(self).current_group,
            final(self).current_letter@ == Seq::<CodePoint>::empty(),
            r@ == letter_error(old(self).current_letter@),
    {
        let letter = self.current_letter.clone();
        self.reset_letter();
        SignalError::Morse(MorseDecodeError::from_letter(letter))
    }

    /// The error for the signal of a group.
    fn error_from_group(group: Option<SignalGroup>) -> (r: SignalError)
        ensures
            r@ == signal_error(
                match group {
                    Some(g) => group_signals(g),
                    None => Seq::<Signal>::empty(),
                },
            ),
    {
        group_error(group)
    }

    /// Clear the current group, returning its old value.
    fn reset_group(&mut self) -> (r: Option<SignalGroup>)
        ensures
            r == old(self).current_group,
            final(self).current_group is None,
            final(self).current_letter == old(self).current_letter,
            final(self).inner == old(self).inner,
    {
        self.current_group.take()
    }

    /// Clear the current letter.
    fn reset_letter(&mut self)
        ensures
            final(self).current_letter@ == Seq::<CodePoint>::empty(),
            final(self).current_group == old(self).current_group,
            final(self).inner == old(self).inner,
    {
        self.current_letter.clear();
    }

    /// Read one signal unit from the source and return the group it finished, if any. At
    /// the end of the source the current group is finished.
    fn read_signal_unit_and_update_current_group(&mut self) -> (r: Result<
        Option<SignalGroup>,
        SignalError,
    >)
        requires
            old(self).inv(),
        ensures
            final(self).inner.inv(),
            final(self).inner.is_finite(),
            old(self).inner.outcomes().len() == 0 ==> final(self).inner.outcomes() == old(
                self,
            ).inner.outcomes() && r == Ok::<Option<SignalGroup>, SignalError>(
                old(self).current_group,
            ) && final(self).current_group is None && final(self).current_letter
                == old(self).current_letter,
            old(self).inner.outcomes().len() > 0 ==> final(self).inner.outcomes() == old(
                self,
            ).inner.outcomes().drop_first() && match old(self).inner.outcomes()[0] {
                Err(e) => r matches Err(x) && x@ == e && final(self).current_group == old(
                    self,
                ).current_group && final(self).current_letter == old(self).current_letter,
                Ok(s) => Self::unit_added(*old(self), s, *final(self), r),
            },
    {
        match self.inner.recv()? {
            None => Ok(self.reset_group()),
            Some(signal) => self.add_signal_unit(signal),
        }
    }

    /// What `add_signal_unit` does with `s`.
    pub closed spec fn unit_added(
        before: Self,
        s: Signal,
        after: Self,
        r: Result<Option<SignalGroup>, SignalError>,
    ) -> bool {
        match before.current_group {
            None => r == Ok::<Option<SignalGroup>, SignalError>(None) && after.current_group == Some(
                group_new(s),
            ) && after.current_letter == before.current_letter,
            Some(g) => if g.state == s {
                if group_valid(group_inc(g)) {
                    r == Ok::<Option<SignalGroup>, SignalError>(None) && after.current_group == Some(
                        group_inc(g),
                    ) && after.current_letter == before.current_letter
                } else {
                    r matches Err(e) && e@ == signal_error(group_signals(group_inc(g)))
                        && after.current_group is None && after.current_letter@
                        == Seq::<CodePoint>::empty()
                }
            } else {
                r == Ok::<Option<SignalGroup>, SignalError>(Some(g)) && after.current_group == Some(
                    group_new(s),
                ) && after.current_letter == before.current_letter
            },
        }
    }

    /// Add one unit of `signal`. When the signal changes, the finished group is returned.
    fn add_signal_unit(&mut self, signal: Signal) -> (r: Result<Option<SignalGroup>, SignalError>)
        ensures
            final(self).inner == old(self).inner,
            Self::unit_added(*old(self), signal, *final(self), r),
    {
        match self.current_group {
            None => {
                self.current_group = Some(SignalGroup::new(signal));
                Ok(None)
            },
            Some(mut current) => {
                if current.is_same(signal) {
                    current.inc();
                    self.current_group = Some(current);
                    if !current.is_valid() {
                        return Err(self.reset_with_signal_error());
                    }
                    Ok(None)
                } else {
                    self.current_group = Some(SignalGroup::new(signal));
                    Ok(Some(current))
                }
            },
        }
    }

    fn add_symbol_to_letter(&mut self, symbol: CodePoint)
        requires
            spec_is_dot_or_dash(symbol),
        ensures
            final(self).current_letter@ == old(self).current_letter@.push(symbol),
            final(self).current_group == old(self).current_group,
            final(self).inner == old(self).inner,
    {
        self.current_letter.push(symbol);
    }

    /// Decode the letter collected so far; an empty letter gives nothing.
    fn decode_current_letter(&mut self) -> (r: Option<Result<char, SignalError>>)
        requires
            only_dots_and_dashes(old(self).current_letter@),
        ensures
            final(self).inner == old(self).inner,
            final(self).current_group == old(self).current_group,
            old(self).current_letter@.len() == 0 ==> r is None && final(self).current_letter@
                == old(self).current_letter@,
            old(self).current_letter@.len() > 0 ==> final(self).current_letter@ == Seq::<
                CodePoint,
            >::empty() && (r matches Some(x) && result_view(x) == match lookup_code(
                D::spec_table(),
                old(self).current_letter@,
            ) {
                Some(c) => Ok::<char, ErrorView>(c),
                None => Err(letter_error(old(self).current_letter@)),
            }),
    {
        if self.current_letter.len() == 0 {
            return None;
        }
        match self.dialect.decode_char(self.current_letter.as_slice()) {
            None => Some(Err(self.reset_with_letter_error())),
            Some(c) => {
                self.reset_letter();
                Some(Ok(c))
            },
        }
    }

    fn read_char(&mut self) -> (r: Result<Option<char>, SignalError>)
        requires
            old(self).inv(),
        ensures
            final(self).inv(),
            recv_law(old(self).outcomes(), r, final(self).outcomes()),
    {
        let ghost target = self.outcomes();
        loop
            invariant
                self.inv(),
                self.outcomes() == target,
                target == old(self).outcomes(),
            decreases self.inner.outcomes().len(), if self.current_group is Some { 1nat } else { 0nat },
        {
            let ghost g0 = self.current_group;
            let ghost l0 = self.current_letter@;
            let ghost in0 = self.inner.outcomes();
            proof {
                if in0.len() > 0 {
                    match in0[0] {
                        Err(ev) => {
                            assert(target =~= seq![Err(ev)] + dec_run::<D>(g0, l0, in0.drop_first()));
                        },
                        Ok(s) => {
                            let (g2, l2, out) = dec_step::<D>(g0, l0, s);
                            assert(target =~= out + dec_run::<D>(g2, l2, in0.drop_first()));
                        },
                    }
                } else {
                    assert(target == dec_finish(g0));
                }
            }
            let rs = self.read_signal_unit_and_update_current_group();
            match rs {
                Err(e) => {
                    proof {
                        if in0.len() > 0 {
                            match in0[0] {
                                Err(ev) => {
                                    assert(target.drop_first() =~= dec_run::<D>(
                                        g0,
                                        l0,
                                        in0.drop_first(),
                                    ));
                                },
                                Ok(s) => {
                                    let (g2, l2, out) = dec_step::<D>(g0, l0, s);
                                    assert(out.len() == 1);
                                    assert(target.drop_first() =~= dec_run::<D>(
                                        g2,
                                        l2,
                                        in0.drop_first(),
                                    ));
                                },
                            }
                        }
                    }
                    return Err(e);
                },
                Ok(Some(group)) => {
                    if group.state == ON {
                        match group.to_code_point() {
                            None => {
                                proof {
                                    if in0.len() > 0 {
                                        let s = in0[0]->Ok_0;
                                        let (g2, l2, out) = dec_step::<D>(g0, l0, s);
                                        assert(g2 == self.current_group && l2 == self.current_letter@);
                                        assert(target.drop_first() =~= dec_run::<D>(
                                            g2,
                                            l2,
                                            in0.drop_first(),
                                        ));
                                        assert(target[0] == Err::<char, ErrorView>(
                                            signal_error(group_signals(group)),
                                        ));
                                    } else {
                                        assert(g0 == Some(group));
                                        assert(target == dec_finish(g0));
                                        assert(target[0] == Err::<char, ErrorView>(
                                            signal_error(group_signals(group)),
                                        ));
                                        assert(self.outcomes() =~= Seq::<Result<char, ErrorView>>::empty());
                                        assert(target.drop_first() =~= self.outcomes());
                                    }
                                }
                                return Err(Self::error_from_group(Some(group)));
                            },
                            Some(code_point) => {
                                self.add_symbol_to_letter(code_point);
                            },
                        }
                    }
                },
                Ok(None) => {
                    match self.current_group {
                        Some(g) => {
                            if g.state == OFF && g.duration == 7 {
                                proof {
                                    assert(in0.len() > 0);
                                    let s = in0[0]->Ok_0;
                                    let (g2, l2, out) = dec_step::<D>(g0, l0, s);
                                    assert(g2 == self.current_group && l2 == self.current_letter@);
                                    assert(out == seq![Ok::<char, ErrorView>(' ')]);
                                    assert(target.drop_first() =~= dec_run::<D>(
                                        g2,
                                        l2,
                                        in0.drop_first(),
                                    ));
                                }
                                return Ok(Some(' '));
                            } else if g.state == OFF && g.duration == 3 {
                                let ghost lb = self.current_letter@;
                                let d = self.decode_current_letter();
                                proof {
                                    assert(in0.len() > 0);
                                    let s = in0[0]->Ok_0;
                                    let (g2, l2, out) = dec_step::<D>(g0, l0, s);
                                    assert(g2 == self.current_group);
                                    assert(lb == l0);
                                    assert(l2 == self.current_letter@);
                                    if d is Some {
                                        assert(out.len() == 1);
                                        assert(target.drop_first() =~= dec_run::<D>(
                                            g2,
                                            l2,
                                            in0.drop_first(),
                                        ));
                                    } else {
                                        assert(out.len() == 0);
                                        assert(target =~= dec_run::<D>(g2, l2, in0.drop_first()));
                                    }
                                }
                                match d {
                                    Some(Ok(c)) => {
                                        return Ok(Some(c));
                                    },
                                    Some(Err(e)) => {
                                        return Err(e);
                                    },
                                    None => {},
                                }
                            }
                        },
                        None => {
                            proof {
                                if in0.len() > 0 {
                                    assert(false);
                                }
                            }
                            return Ok(None);
                        },
                    }
                },
            }
        }
    }
}

/// The error for the signal of a group.
fn group_error(group: Option<SignalGroup>) -> (r: SignalError)
    ensures
        r@ == signal_error(
            match group {
                Some(g) => group_signals(g),
                None => Seq::<Signal>::empty(),
            },
        ),
{
    let mut signal: Vec<Signal> = Vec::new();
    match group {
        Some(g) => {
            let mut i: u8 = 0;
            while i < g.duration
                invariant
                    i <= g.duration,
                    signal@ == signal_run(g.state, i as nat),
                decreases g.duration - i,
            {
                signal.push(g.state);
                proof {
                    assert(signal@ =~= signal_run(g.state, (i + 1) as nat));
                }
                i = i + 1;
            }
        },
        None => {
            assert(signal@ =~= Seq::<Signal>::empty());
        },
    }
    SignalError::Morse(MorseDecodeError::from_signal(signal))
}

/// What a decoding step hands out: nothing, or one outcome.
pub open spec fn step_outcome(r: Option<Result<char, SignalError>>) -> Seq<Result<char, ErrorView>> {
    match r {
        Some(x) => seq![result_view(x)],
        None => seq![],
    }
}

/// A Morse decoder that is handed signal units one at a time, for a source that is read
/// elsewhere: the group of units being read and the letter being collected.
pub struct MorseDecoder<D> {
    dialect: D,
    current_group: Option<SignalGroup>,
    current_letter: Vec<CodePoint>,
}

impl<D: Dialect> MorseDecoder<D> {
    pub closed spec fn group(&self) -> Option<SignalGroup> {
        self.current_group
    }

    pub closed spec fn letter(&self) -> Seq<CodePoint> {
        self.current_letter@
    }

    /// The group lasts at least one unit and the letter is made of dots and dashes.
    pub open spec fn wf(&self) -> bool {
        &&& match self.group() {
            Some(g) => g.wf(),
            None => true,
        }
        &&& only_dots_and_dashes(self.letter())
    }

    pub fn new() -> (r: Self)
        ensures
            r.group() is None,
            r.letter() == Seq::<CodePoint>::empty(),
            r.wf(),
    {
        MorseDecoder { dialect: D::default(), current_group: None, current_letter: Vec::new() }
    }

    /// Take one signal unit: the new group and letter, and what is handed out, are the
    /// decoder's step `dec_step`.
    pub fn push_signal(&mut self, s: Signal) -> (r: Option<Result<char, SignalError>>)
        requires
            old(self).wf(),
        ensures
            final(self).wf(),
            (final(self).group(), final(self).letter(), step_outcome(r)) == dec_step::<D>(
                old(self).group(),
                old(self).letter(),
                s,
            ),
    {
        match self.current_group {
            None => {
                self.current_group = Some(SignalGroup::new(s));
                None
            },
            Some(g) => {
                if g.is_same(s) {
                    let mut g2 = g;
                    g2.inc();
                    if !g2.is_valid() {
                        self.current_group = None;
                        self.current_letter.clear();
                        proof {
                            assert(self.current_letter@ =~= Seq::<CodePoint>::empty());
                        }
                        return Some(Err(group_error(Some(g2))));
                    }
                    self.current_group = Some(g2);
                    if g2.state == OFF && g2.duration == 7 {
                        Some(Ok(' '))
                    } else if g2.state == OFF && g2.duration == 3 && self.current_letter.len() > 0 {
                        let decoded = self.dialect.decode_char(self.current_letter.as_slice());
                        match decoded {
                            Some(c) => {
                                self.current_letter.clear();
                                proof {
                                    assert(self.current_letter@ =~= Seq::<CodePoint>::empty());
                                }
                                Some(Ok(c))
                            },
                            None => {
                                let letter = self.current_letter.clone();
                                self.current_letter.clear();
                                proof {
                                    assert(self.current_letter@ =~= Seq::<CodePoint>::empty());
                                }
                                Some(Err(SignalError::Morse(MorseDecodeError::from_letter(letter))))
                            },
                        }
                    } else {
                        None
                    }
                } else if g.state == ON {
                    match g.to_code_point() {
                        Some(cp) => {
                            self.current_letter.push(cp);
                            self.current_group = Some(SignalGroup::new(s));
                            proof {
                                assert forall|i: int| 0 <= i < self.current_letter@.len() implies spec_is_dot_or_dash(
                                    #[trigger] self.current_letter@[i],
                                ) by {
                                    if i < old(self).current_letter@.len() {
                                        assert(self.current_letter@[i] == old(self).current_letter@[i]);
                                    }
                                }
                            }
                            None
                        },
                        None => {
                            self.current_group = Some(SignalGroup::new(s));
                            Some(Err(group_error(Some(g))))
                        },
                    }
                } else {
                    self.current_group = Some(SignalGroup::new(s));
                    None
                }
            },
        }
    }

    /// The end of the signal: what is handed out is `dec_finish`; the group is dropped.
    pub fn finish(&mut self) -> (r: Option<SignalError>)
        requires
            old(self).wf(),
        ensures
            final(self).wf(),
            final(self).group() is None,
            final(self).letter() == old(self).letter(),
            match r {
                Some(e) => seq![Err::<char, ErrorView>(e@)],
                None => Seq::<Result<char, ErrorView>>::empty(),
            } == dec_finish(old(self).group()),
    {
        let group = self.current_group.take();
        match group {
            Some(g) => {
                if g.state == ON && g.to_code_point().is_none() {
                    Some(group_error(Some(g)))
                } else {
                    None
                }
            },
            None => None,
        }
    }
}

/// Decoding a receiver's signals as Morse code.
pub trait MorseRxExt: Rx<Item = Signal> {
    fn morse_decode<D: Dialect>(self) -> (r: DecoderRx<D, Self>)
        requires
            self.inv(),
            self.is_finite(),
        ensures
            r.inner() == self,
            r.group() is None,
            r.letter() == Seq::<CodePoint>::empty(),
            r.inv(),
    {
        DecoderRx::new(self)
    }
}

impl<X: Rx<Item = Signal>> MorseRxExt for X {

}

impl<D: Dialect, X: Rx<Item = Signal>> Rx for DecoderRx<D, X> {
    type Item = char;

    closed spec fn inv(&self) -> bool {
        &&& self.inner.inv()
        &&& self.inner.is_finite()
        &&& match self.current_group {
            Some(g) => g.wf(),
            None => true,
        }
        &&& only_dots_and_dashes(self.current_letter@)
    }

    open spec fn is_finite(&self) -> bool {
        true
    }

    open spec fn outcomes(&self) -> Seq<Result<char, ErrorView>> {
        dec_run::<D>(self.group(), self.letter(), self.inner().outcomes())
    }

    fn recv(&mut self) -> (r: Result<Option<char>, SignalError>) {
        self.read_char()
    }
}

/// A signal drawn as text: a star for each ON value, a space for each OFF value.
pub open spec fn signal_chars(signal: Seq<Signal>) -> Seq<char> {
    signal.map_values(|s: Signal| if s { '*' } else { ' ' })
}

/// A signal drawn as text, one character per value: a star for ON, a space for OFF.
pub fn signal_text(signal: &[Signal]) -> (r: String)
    ensures
        r@ == signal_chars(signal@),
{
    let mut out = String::new();
    let mut i: usize = 0;
    while i < signal.len()
        invariant
            i <= signal@.len(),
            out@ == signal_chars(signal@.take(i as int)),
        decreases signal.len() - i,
    {
        let c = if signal[i] {
            '*'
        } else {
            ' '
        };
        push_char(&mut out, c);
        proof {
            assert(signal_chars(signal@.take(i + 1)) =~= signal_chars(signal@.take(i as int)).push(c));
        }
        i = i + 1;
    }
    proof {
        assert(signal@.take(signal@.len() as int) =~= signal@);
    }
    out
}

} // verus!
