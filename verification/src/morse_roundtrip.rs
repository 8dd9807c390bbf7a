//! What the Morse decoder gives back of what the Morse encoder sends.
use vstd::prelude::*;

use crate::morse::{
    CodePoint, Dialect, OFF, ON, Signal, SignalGroup, char_code, dec_finish, dec_run, dec_step,
    encode_signals, encode_state, char_step, group_new, letter_error, lookup_code,
    lemma_lookup_char_dots, off_run, only_dots_and_dashes, signals_of, spec_is_ascii_whitespace,
    spec_is_dot_or_dash, symbol_signals, uppercase_first, lookup_char, ITU, itu_entry, ITU_TABLE_LEN,
};
use crate::morse::DecoderRx;
use crate::rtsm::all_ok;
use crate::rx::{Rx, collected};
use crate::signal_error::ErrorView;

verus! {

/// A decoder state: the current group and the current letter.
pub type DecState = (Option<SignalGroup>, Seq<CodePoint>);

/// The decoder's state and output after `a`, the end of the source not yet reached.
pub open spec fn dec_fold<D: Dialect>(st: DecState, a: Seq<Signal>) -> (
    DecState,
    Seq<Result<char, ErrorView>>,
)
    decreases a.len(),
{
    if a.len() == 0 {
        (st, seq![])
    } else {
        let (g, l, o) = dec_step::<D>(st.0, st.1, a[0]);
        let (st2, o2) = dec_fold::<D>((g, l), a.drop_first());
        (st2, o + o2)
    }
}

/// The decoder state at a character boundary of an encoding whose pause is `d` units.
pub open spec fn boundary_state(d: nat) -> DecState {
    if d == 0 {
        (None, seq![])
    } else {
        (Some(SignalGroup { state: OFF, duration: d as u8 }), seq![])
    }
}

/// Whether the encoder sends `c` as a letter or as a word pause.
pub open spec fn encodable<D: Dialect>(c: char) -> bool {
    match char_code::<D>(c) {
        Some(k) => k.len() > 0,
        None => spec_is_ascii_whitespace(c),
    }
}

/// What decoding gives for the character `c` sent after a pause of `d` units: the
/// letter of its code (or the error for a code that is no letter), a space for the first
/// whitespace after a letter, nothing for more whitespace.
pub open spec fn char_decoded<D: Dialect>(d: nat, c: char) -> Seq<Result<char, ErrorView>> {
    match char_code::<D>(c) {
        Some(k) => match lookup_code(D::spec_table(), k) {
            Some(x) => seq![Ok(x)],
            None => seq![Err(letter_error(k))],
        },
        None => if d == 7 {
            seq![]
        } else {
            seq![Ok(' ')]
        },
    }
}

/// What decoding gives for the encoding of `s`.
pub open spec fn decoded_text<D: Dialect>(s: Seq<char>) -> Seq<Result<char, ErrorView>>
    decreases s.len(),
{
    if s.len() == 0 {
        seq![]
    } else {
        decoded_text::<D>(s.drop_last()) + char_decoded::<D>(
            encode_state::<D>(s.drop_last()),
            s.last(),
        )
    }
}

proof fn lemma_fold_concat<D: Dialect>(st: DecState, a: Seq<Signal>, b: Seq<Signal>)
    ensures
        dec_fold::<D>(st, a + b) == (
            dec_fold::<D>(dec_fold::<D>(st, a).0, b).0,
            dec_fold::<D>(st, a).1 + dec_fold::<D>(dec_fold::<D>(st, a).0, b).1,
        ),
    decreases a.len(),
{
    if a.len() == 0 {
        assert(a + b =~= b);
        assert(dec_fold::<D>(st, a).1 + dec_fold::<D>(st, b).1 =~= dec_fold::<D>(st, b).1);
    } else {
        let (g, l, o) = dec_step::<D>(st.0, st.1, a[0]);
        lemma_fold_concat::<D>((g, l), a.drop_first(), b);
        assert((a + b)[0] == a[0]);
        assert((a + b).drop_first() =~= a.drop_first() + b);
        let f1 = dec_fold::<D>((g, l), a.drop_first());
        let f2 = dec_fold::<D>(f1.0, b);
        assert(o + (f1.1 + f2.1) =~= (o + f1.1) + f2.1);
    }
}

proof fn lemma_run_after_fold<D: Dialect>(st: DecState, a: Seq<Signal>)
    ensures
        dec_run::<D>(st.0, st.1, all_ok(a)) == dec_fold::<D>(st, a).1 + dec_finish(
            dec_fold::<D>(st, a).0.0,
        ),
    decreases a.len(),
{
    if a.len() == 0 {
        assert(all_ok(a) =~= Seq::<Result<Signal, ErrorView>>::empty());
        assert(dec_fold::<D>(st, a).1 + dec_finish(st.0) =~= dec_finish(st.0));
    } else {
        let (g, l, o) = dec_step::<D>(st.0, st.1, a[0]);
        lemma_run_after_fold::<D>((g, l), a.drop_first());
        assert(all_ok(a)[0] == Ok::<Signal, ErrorView>(a[0]));
        assert(all_ok(a).drop_first() =~= all_ok(a.drop_first()));
        let f1 = dec_fold::<D>((g, l), a.drop_first());
        assert(o + (f1.1 + dec_finish(f1.0.0)) =~= (o + f1.1) + dec_finish(f1.0.0));
    }
}

/// A run of offs after an off group, with an empty letter, lengthens the group and gives a
/// space when it reaches seven units.
proof fn lemma_fold_offs<D: Dialect>(g: nat, n: nat)
    requires
        1 <= g,
        g + n <= 7,
    ensures
        dec_fold::<D>((Some(SignalGroup { state: OFF, duration: g as u8 }), seq![]), off_run(n)) == (
            (Some(SignalGroup { state: OFF, duration: (g + n) as u8 }), Seq::<CodePoint>::empty()),
            if g < 7 && g + n == 7 {
                seq![Ok::<char, ErrorView>(' ')]
            } else {
                Seq::<Result<char, ErrorView>>::empty()
            },
        ),
    decreases n,
{
    if n > 0 {
        let st = (Some(SignalGroup { state: OFF, duration: g as u8 }), Seq::<CodePoint>::empty());
        let (g1, l1, o1) = dec_step::<D>(st.0, st.1, OFF);
        assert(g1 == Some(SignalGroup { state: OFF, duration: (g + 1) as u8 }));
        assert(l1 == Seq::<CodePoint>::empty());
        assert(off_run(n)[0] == OFF);
        assert(off_run(n).drop_first() =~= off_run((n - 1) as nat));
        lemma_fold_offs::<D>(g + 1, (n - 1) as nat);
        if g + 1 == 7 {
            assert(o1 == seq![Ok::<char, ErrorView>(' ')]);
            assert(n == 1);
        } else {
            assert(o1 == Seq::<Result<char, ErrorView>>::empty());
        }
        let f = dec_fold::<D>((g1, l1), off_run((n - 1) as nat));
        assert(o1 + f.1 =~= (if g < 7 && g + n == 7 {
            seq![Ok::<char, ErrorView>(' ')]
        } else {
            Seq::<Result<char, ErrorView>>::empty()
        }));
    } else {
        assert(off_run(0) =~= Seq::<Signal>::empty());
    }
}

/// An off group or no group at all: where a symbol can start.
pub open spec fn before_symbol(st: DecState) -> bool {
    match st.0 {
        None => true,
        Some(g) => g.state == OFF && g.duration >= 1,
    }
}

/// A dot or a dash and its symbol pause add the symbol to the letter.
proof fn lemma_fold_symbol<D: Dialect>(st: DecState, cp: CodePoint)
    requires
        before_symbol(st),
        spec_is_dot_or_dash(cp),
    ensures
        dec_fold::<D>(st, signals_of(cp) + seq![OFF]) == (
            (Some(group_new(OFF)), st.1.push(cp)),
            Seq::<Result<char, ErrorView>>::empty(),
        ),
{
    let a = signals_of(cp) + seq![OFF];
    let s1 = dec_step::<D>(st.0, st.1, ON);
    assert(s1 == (Some(group_new(ON)), st.1, Seq::<Result<char, ErrorView>>::empty()));
    let e = Seq::<Result<char, ErrorView>>::empty();
    if cp is Dot {
        assert(a =~= seq![ON, OFF]);
        assert(a.drop_first() =~= seq![OFF]);
        assert(seq![OFF].drop_first() =~= Seq::<Signal>::empty());
        let s2 = dec_step::<D>(s1.0, s1.1, OFF);
        assert(s2 == (Some(group_new(OFF)), st.1.push(cp), e));
        assert(dec_fold::<D>((s2.0, s2.1), seq![OFF].drop_first()) == ((s2.0, s2.1), e));
        assert(dec_fold::<D>((s1.0, s1.1), seq![OFF]) == ((s2.0, s2.1), e + e));
        assert(e + e =~= e);
        assert(e + (e + e) =~= e);
    } else {
        assert(a =~= seq![ON, ON, ON, OFF]);
        let g2 = SignalGroup { state: ON, duration: 2 };
        let g3 = SignalGroup { state: ON, duration: 3 };
        let s2 = dec_step::<D>(s1.0, s1.1, ON);
        assert(s2 == (Some(g2), st.1, e));
        let s3 = dec_step::<D>(s2.0, s2.1, ON);
        assert(s3 == (Some(g3), st.1, e));
        let s4 = dec_step::<D>(s3.0, s3.1, OFF);
        assert(s4 == (Some(group_new(OFF)), st.1.push(cp), e));
        let t3 = seq![OFF];
        let t2 = seq![ON, OFF];
        let t1 = seq![ON, ON, OFF];
        assert(a.drop_first() =~= t1);
        assert(t1.drop_first() =~= t2);
        assert(t2.drop_first() =~= t3);
        assert(t3.drop_first() =~= Seq::<Signal>::empty());
        assert(dec_fold::<D>((s4.0, s4.1), t3.drop_first()) == ((s4.0, s4.1), e));
        assert(e + e =~= e);
        assert(dec_fold::<D>((s3.0, s3.1), t3) == ((s4.0, s4.1), e));
        assert(dec_fold::<D>((s2.0, s2.1), t2) == ((s4.0, s4.1), e));
        assert(dec_fold::<D>((s1.0, s1.1), t1) == ((s4.0, s4.1), e));
    }
}

/// The dots and dashes of a code, each with its symbol pause, make the letter.
proof fn lemma_fold_symbols<D: Dialect>(st: DecState, k: Seq<CodePoint>)
    requires
        before_symbol(st),
        st.1 == Seq::<CodePoint>::empty(),
        k.len() > 0,
        only_dots_and_dashes(k),
    ensures
        dec_fold::<D>(st, symbol_signals(k)) == (
            (Some(group_new(OFF)), k),
            Seq::<Result<char, ErrorView>>::empty(),
        ),
    decreases k.len(),
{
    let init = k.drop_last();
    let cp = k.last();
    assert(spec_is_dot_or_dash(k[k.len() - 1]));
    let e = Seq::<Result<char, ErrorView>>::empty();
    if init.len() == 0 {
        assert(symbol_signals(init) =~= Seq::<Signal>::empty());
        assert(symbol_signals(k) =~= signals_of(cp) + seq![OFF]);
        lemma_fold_symbol::<D>(st, cp);
        assert(st.1.push(cp) =~= k);
    } else {
        assert(only_dots_and_dashes(init)) by {
            assert forall|i: int| 0 <= i < init.len() implies spec_is_dot_or_dash(
                #[trigger] init[i],
            ) by {
                assert(init[i] == k[i]);
            }
        }
        lemma_fold_symbols::<D>(st, init);
        let mid = (Some(group_new(OFF)), init);
        lemma_fold_symbol::<D>(mid, cp);
        assert(symbol_signals(k) == symbol_signals(init) + (signals_of(cp) + seq![OFF])) by {
            assert(symbol_signals(k) =~= symbol_signals(init) + (signals_of(cp) + seq![OFF]));
        }
        lemma_fold_concat::<D>(st, symbol_signals(init), signals_of(cp) + seq![OFF]);
        assert(init.push(cp) =~= k);
        assert(e + e =~= e);
    }
}

/// The encoding of one character, from a character boundary, leads to the next boundary
/// and gives what `char_decoded` says.
proof fn lemma_fold_char<D: Dialect>(d: nat, c: char)
    requires
        d == 0 || d == 3 || d == 7,
        encodable::<D>(c),
    ensures
        char_step::<D>(d, c).0 == 3 || char_step::<D>(d, c).0 == 7,
        dec_fold::<D>(boundary_state(d), char_step::<D>(d, c).1) == (
            boundary_state(char_step::<D>(d, c).0),
            char_decoded::<D>(d, c),
        ),
{
    let st = boundary_state(d);
    let e = Seq::<Result<char, ErrorView>>::empty();
    match char_code::<D>(c) {
        Some(k) => {
            D::lemma_codes_are_dots_and_dashes();
            lemma_lookup_char_dots(D::spec_table(), uppercase_first(c), c);
            lemma_fold_symbols::<D>(st, k);
            let after = (Some(group_new(OFF)), k);
            let o1 = SignalGroup { state: OFF, duration: 2 };
            let o2 = SignalGroup { state: OFF, duration: 3 };
            let s1 = dec_step::<D>(after.0, after.1, OFF);
            assert(s1 == (Some(o1), k, e));
            let s2 = dec_step::<D>(s1.0, s1.1, OFF);
            assert(s2 == (Some(o2), Seq::<CodePoint>::empty(), char_decoded::<D>(d, c)));
            let t = off_run(2);
            assert(t =~= seq![OFF, OFF]);
            assert(t.drop_first() =~= seq![OFF]);
            assert(seq![OFF].drop_first() =~= Seq::<Signal>::empty());
            assert(dec_fold::<D>((s2.0, s2.1), Seq::<Signal>::empty()) == ((s2.0, s2.1), e));
            assert(char_decoded::<D>(d, c) + e =~= char_decoded::<D>(d, c));
            assert(dec_fold::<D>((s1.0, s1.1), seq![OFF]) == ((s2.0, s2.1), char_decoded::<D>(d, c)));
            assert(e + char_decoded::<D>(d, c) =~= char_decoded::<D>(d, c));
            assert(dec_fold::<D>(after, t) == ((s2.0, s2.1), char_decoded::<D>(d, c)));
            lemma_fold_concat::<D>(st, symbol_signals(k), t);
        },
        None => {
            if d == 0 {
                let s1 = dec_step::<D>(st.0, st.1, OFF);
                assert(s1 == (Some(group_new(OFF)), Seq::<CodePoint>::empty(), e));
                lemma_fold_offs::<D>(1, 6);
                let t = off_run(7);
                assert(t[0] == OFF);
                assert(t.drop_first() =~= off_run(6));
                assert(e + seq![Ok::<char, ErrorView>(' ')] =~= seq![Ok::<char, ErrorView>(' ')]);
            } else {
                lemma_fold_offs::<D>(d, (7 - d) as nat);
            }
        },
    }
}

/// The encoding of a text made of encodable characters ends at a character boundary, and
/// the decoder has then given what `decoded_text` says.
proof fn lemma_fold_text<D: Dialect>(s: Seq<char>)
    requires
        forall|i: int| 0 <= i < s.len() ==> encodable::<D>(#[trigger] s[i]),
    ensures
        encode_state::<D>(s) == 0 || encode_state::<D>(s) == 3 || encode_state::<D>(s) == 7,
        dec_fold::<D>((None, Seq::<CodePoint>::empty()), encode_signals::<D>(s)) == (
            boundary_state(encode_state::<D>(s)),
            decoded_text::<D>(s),
        ),
    decreases s.len(),
{
    if s.len() == 0 {
        assert(encode_signals::<D>(s) =~= Seq::<Signal>::empty());
    } else {
        let init = s.drop_last();
        assert forall|i: int| 0 <= i < init.len() implies encodable::<D>(#[trigger] init[i]) by {
            assert(init[i] == s[i]);
        }
        lemma_fold_text::<D>(init);
        let d = encode_state::<D>(init);
        assert(encodable::<D>(s[s.len() - 1]));
        lemma_fold_char::<D>(d, s.last());
        lemma_fold_concat::<D>(
            (None, Seq::<CodePoint>::empty()),
            encode_signals::<D>(init),
            char_step::<D>(d, s.last()).1,
        );
    }
}

/// Law: decoding the Morse encoding of a text whose characters are all known to the
/// dialect or whitespace gives, for each letter, the letter of its code (or the error for
/// a code that is no letter), and one space for each run of whitespace.
pub proof fn lemma_decode_encode<D: Dialect>(s: Seq<char>)
    requires
        forall|i: int| 0 <= i < s.len() ==> encodable::<D>(#[trigger] s[i]),
    ensures
        dec_run::<D>(None, Seq::<CodePoint>::empty(), all_ok(encode_signals::<D>(s)))
            == decoded_text::<D>(s),
{
    lemma_fold_text::<D>(s);
    lemma_run_after_fold::<D>((None, Seq::<CodePoint>::empty()), encode_signals::<D>(s));
    assert(decoded_text::<D>(s) + Seq::<Result<char, ErrorView>>::empty() =~= decoded_text::<D>(
        s,
    ));
}

/// An entry with the code of a later entry for another character comes after an entry
/// of that later character: the first code of each character decodes to it, and a
/// character may have alternative codes after it.
pub open spec fn first_codes_unambiguous(t: Seq<(char, Seq<CodePoint>)>) -> bool {
    forall|m: int, j: int|
        0 <= m < j < t.len() && #[trigger] t[m].1 == #[trigger] t[j].1 && t[m].0 != t[j].0
            ==> exists|i: int| 0 <= i < j && #[trigger] t[i].0 == t[j].0
}

/// A character of the dialect's table that is its own uppercase, with a code.
pub open spec fn table_letter<D: Dialect>(c: char) -> bool {
    &&& uppercase_first(c) == c
    &&& char_code::<D>(c) is Some
    &&& char_code::<D>(c)->0.len() > 0
}

/// A text of words made of characters of the dialect's table that are their own
/// uppercase, separated by single spaces.
pub open spec fn plain_text<D: Dialect>(s: Seq<char>) -> bool {
    &&& forall|i: int| 0 <= i < s.len() ==> #[trigger] s[i] == ' ' || table_letter::<D>(s[i])
    &&& forall|i: int| 0 <= i < s.len() - 1 ==> !(#[trigger] s[i] == ' ' && s[i + 1] == ' ')
}

/// The code found for a character that is its own uppercase is that of the first entry
/// of that character.
proof fn lemma_lookup_char_entry(t: Seq<(char, Seq<CodePoint>)>, c: char)
    requires
        lookup_char(t, c, c) is Some,
    ensures
        exists|j: int|
            0 <= j < t.len() && #[trigger] t[j].0 == c && t[j].1 == lookup_char(t, c, c)->0 && forall|i: int|
                0 <= i < j ==> t[i].0 != c,
    decreases t.len(),
{
    if t[0].0 != c {
        let r = t.drop_first();
        lemma_lookup_char_entry(r, c);
        let j = choose|j: int|
            0 <= j < r.len() && #[trigger] r[j].0 == c && r[j].1 == lookup_char(r, c, c)->0 && forall|i: int|
                0 <= i < j ==> r[i].0 != c;
        assert(t[j + 1] == r[j]);
        assert forall|i: int| 0 <= i < j + 1 implies t[i].0 != c by {
            if i > 0 {
                assert(t[i] == r[i - 1]);
            }
        }
    } else {
        assert(t[0].0 == c);
    }
}

/// The code of an entry that no earlier entry of another character has decodes to the
/// character of that entry.
proof fn lemma_lookup_code_entry(t: Seq<(char, Seq<CodePoint>)>, j: int)
    requires
        0 <= j < t.len(),
        forall|m: int| 0 <= m < j && #[trigger] t[m].1 == t[j].1 ==> t[m].0 == t[j].0,
    ensures
        lookup_code(t, t[j].1) == Some(t[j].0),
    decreases t.len(),
{
    if t[0].1 != t[j].1 {
        let r = t.drop_first();
        assert(r[j - 1] == t[j]);
        assert forall|m: int| 0 <= m < j - 1 && #[trigger] r[m].1 == r[j - 1].1 implies r[m].0 == r[j - 1].0 by {
            assert(r[m] == t[m + 1]);
        }
        lemma_lookup_code_entry(r, j - 1);
    }
}

/// Law: in a dialect whose first codes are unambiguous, `decode_char` gives back a
/// character that is its own uppercase from the code that `encode_char` gives it.
pub proof fn lemma_decode_char_encode_char<D: Dialect>(c: char)
    requires
        first_codes_unambiguous(D::spec_table()),
        uppercase_first(c) == c,
        char_code::<D>(c) is Some,
    ensures
        lookup_code(D::spec_table(), char_code::<D>(c)->0) == Some(c),
{
    let t = D::spec_table();
    lemma_lookup_char_entry(t, c);
    let j = choose|j: int|
        0 <= j < t.len() && #[trigger] t[j].0 == c && t[j].1 == lookup_char(t, c, c)->0 && forall|i: int|
            0 <= i < j ==> t[i].0 != c;
    assert forall|m: int| 0 <= m < j && #[trigger] t[m].1 == t[j].1 implies t[m].0 == t[j].0 by {
        if t[m].0 != t[j].0 {
            let i = choose|i: int| 0 <= i < j && #[trigger] t[i].0 == t[j].0;
            assert(t[i].0 != c);
        }
    }
    lemma_lookup_code_entry(t, j);
}

/// What the decoding of a plain text gives is the text, and the encoding of a text that
/// ends with a letter ends with a letter pause.
proof fn lemma_plain_decoded<D: Dialect>(s: Seq<char>)
    requires
        first_codes_unambiguous(D::spec_table()),
        char_code::<D>(' ') is None,
        plain_text::<D>(s),
    ensures
        decoded_text::<D>(s) == s.map_values(|c: char| Ok::<char, ErrorView>(c)),
        s.len() > 0 && s.last() != ' ' ==> encode_state::<D>(s) == 3,
    decreases s.len(),
{
    if s.len() > 0 {
        let init = s.drop_last();
        assert(plain_text::<D>(init)) by {
            assert forall|i: int| 0 <= i < init.len() implies #[trigger] init[i] == ' ' || table_letter::<D>(init[i]) by {
                assert(init[i] == s[i]);
            }
            assert forall|i: int| 0 <= i < init.len() - 1 implies !(#[trigger] init[i] == ' ' && init[i + 1] == ' ') by {
                assert(init[i] == s[i]);
                assert(init[i + 1] == s[i + 1]);
            }
        }
        lemma_plain_decoded::<D>(init);
        let c = s.last();
        assert(s[s.len() - 1] == c);
        if c == ' ' {
            assert(spec_is_ascii_whitespace(' '));
            if init.len() > 0 {
                assert(s[s.len() - 2] == init.last());
                assert(init.last() != ' ');
            }
        } else {
            lemma_decode_char_encode_char::<D>(c);
        }
        assert(decoded_text::<D>(s) =~= s.map_values(|c: char| Ok::<char, ErrorView>(c)));
    }
}

/// Law: decoding the Morse encoding of a plain text, in a dialect whose codes determine
/// their characters and which has no code for the space, gives back the text.
pub proof fn lemma_decode_encode_plain<D: Dialect>(s: Seq<char>)
    requires
        first_codes_unambiguous(D::spec_table()),
        char_code::<D>(' ') is None,
        plain_text::<D>(s),
    ensures
        dec_run::<D>(None, Seq::<CodePoint>::empty(), all_ok(encode_signals::<D>(s)))
            == s.map_values(|c: char| Ok::<char, ErrorView>(c)),
{
    assert forall|i: int| 0 <= i < s.len() implies encodable::<D>(#[trigger] s[i]) by {
        if s[i] == ' ' {
            assert(spec_is_ascii_whitespace(' '));
        }
    }
    lemma_decode_encode::<D>(s);
    lemma_plain_decoded::<D>(s);
}

/// The ITU table gives each character a first code that decodes to it.
#[verifier::spinoff_prover]
#[verifier::rlimit(100)]
pub proof fn lemma_itu_first_codes_unambiguous()
    ensures
        first_codes_unambiguous(ITU::spec_table()),
{
    let t = ITU::spec_table();
    assert forall|m: int, j: int|
        0 <= m < j < t.len() && #[trigger] t[m].1 == #[trigger] t[j].1 && t[m].0 != t[j].0 implies exists|i: int|
            0 <= i < j && #[trigger] t[i].0 == t[j].0 by {
        assert(t[m] == itu_entry(m));
        assert(t[j] == itu_entry(j));
        if j == 36 {
            assert(t[35].0 == t[j].0);
        } else {
            assert(t[m].1.len() == t[j].1.len());
            assert(t[m].1[0] == t[j].1[0]);
            assert(t[m].1.len() > 1 ==> t[m].1[1] == t[j].1[1]);
            assert(t[m].1.len() > 2 ==> t[m].1[2] == t[j].1[2]);
            assert(t[m].1.len() > 3 ==> t[m].1[3] == t[j].1[3]);
            assert(t[m].1.len() > 4 ==> t[m].1[4] == t[j].1[4]);
            assert(t[m].1.len() > 5 ==> t[m].1[5] == t[j].1[5]);
            assert(false);
        }
    }
}

/// A character that no entry has, in either form, has no code.
proof fn lemma_lookup_char_absent(t: Seq<(char, Seq<CodePoint>)>, upper: char, c: char)
    requires
        forall|i: int| 0 <= i < t.len() ==> (#[trigger] t[i]).0 != upper && t[i].0 != c,
    ensures
        lookup_char(t, upper, c) is None,
    decreases t.len(),
{
    if t.len() > 0 {
        assert(t[0].0 != upper && t[0].0 != c);
        assert forall|i: int| 0 <= i < t.drop_first().len() implies (#[trigger] t.drop_first()[i]).0 != upper
            && t.drop_first()[i].0 != c by {
            assert(t.drop_first()[i] == t[i + 1]);
        }
        lemma_lookup_char_absent(t.drop_first(), upper, c);
    }
}

/// Law: decoding the ITU encoding of a plain text gives back the text (the space being
/// its own uppercase).
pub proof fn lemma_itu_decode_encode(s: Seq<char>)
    requires
        uppercase_first(' ') == ' ',
        plain_text::<ITU>(s),
    ensures
        dec_run::<ITU>(None, Seq::<CodePoint>::empty(), all_ok(encode_signals::<ITU>(s)))
            == s.map_values(|c: char| Ok::<char, ErrorView>(c)),
{
    lemma_itu_first_codes_unambiguous();
    let t = ITU::spec_table();
    assert forall|i: int| 0 <= i < t.len() implies (#[trigger] t[i]).0 != ' ' && t[i].0 != ' ' by {
        assert(t[i] == itu_entry(i));
    }
    lemma_lookup_char_absent(t, ' ', ' ');
    lemma_decode_encode_plain::<ITU>(s);
}

/// A stream of values without errors collects to those values.
proof fn lemma_collected_all_ok<T>(s: Seq<T>)
    ensures
        collected(all_ok(s)) == Ok::<Seq<T>, ErrorView>(s),
    decreases s.len(),
{
    if s.len() > 0 {
        let rest = s.drop_first();
        assert(all_ok(s).drop_first() =~= all_ok(rest));
        lemma_collected_all_ok(rest);
        assert(all_ok(s)[0] == Ok::<T, ErrorView>(s[0]));
        assert(collected(all_ok(s)) == Ok::<Seq<T>, ErrorView>(seq![s[0]] + rest));
        assert(seq![s[0]] + rest =~= s);
    } else {
        assert(all_ok(s) =~= Seq::<Result<T, ErrorView>>::empty());
        assert(s =~= Seq::<T>::empty());
    }
}

/// Law: a fresh ITU decoder reading the signals of the encoding of a plain text gives
/// back the text, character by character, and collects to the whole text (the space being
/// its own uppercase).
pub proof fn lemma_itu_decoder_gives_back_text<X: Rx<Item = Signal>>(s: Seq<char>, rx: DecoderRx<ITU, X>)
    requires
        uppercase_first(' ') == ' ',
        plain_text::<ITU>(s),
        rx.group() is None,
        rx.letter() == Seq::<CodePoint>::empty(),
        rx.inner().outcomes() == all_ok(encode_signals::<ITU>(s)),
    ensures
        rx.outcomes() == all_ok(s),
        collected(rx.outcomes()) == Ok::<Seq<char>, ErrorView>(s),
{
    lemma_itu_decode_encode(s);
    assert(s.map_values(|c: char| Ok::<char, ErrorView>(c)) =~= all_ok(s));
    lemma_collected_all_ok(s);
}

/// The International Morse Code (ITU-R M.1677-1) of a letter, a figure or a punctuation
/// mark, written with `.` for a dot and `-` for a dash; `None` for other characters.
pub open spec fn international_code(c: char) -> Option<Seq<CodePoint>> {
    if c == 'A' {
        // .-
        Some(seq![CodePoint::Dot, CodePoint::Dash])
    } else if c == 'B' {
        // -...
        Some(seq![CodePoint::Dash, CodePoint::Dot, CodePoint::Dot, CodePoint::Dot])
    } else if c == 'C' {
        // -.-.
        Some(seq![CodePoint::Dash, CodePoint::Dot, CodePoint::Dash, CodePoint::Dot])
    } else if c == 'D' {
        // -..
        Some(seq![CodePoint::Dash, CodePoint::Dot, CodePoint::Dot])
    } else if c == 'E' {
        // .
        Some(seq![CodePoint::Dot])
    } else if c == 'F' {
        // ..-.
        Some(seq![CodePoint::Dot, CodePoint::Dot, CodePoint::Dash, CodePoint::Dot])
    } else if c == 'G' {
        // --.
        Some(seq![CodePoint::Dash, CodePoint::Dash, CodePoint::Dot])
    } else if c == 'H' {
        // ....
        Some(seq![CodePoint::Dot, CodePoint::Dot, CodePoint::Dot, CodePoint::Dot])
    } else if c == 'I' {
        // ..
        Some(seq![CodePoint::Dot, CodePoint::Dot])
    } else if c == 'J' {
        // .---
        Some(seq![CodePoint::Dot, CodePoint::Dash, CodePoint::Dash, CodePoint::Dash])
    } else if c == 'K' {
        // -.-
        Some(seq![CodePoint::Dash, CodePoint::Dot, CodePoint::Dash])
    } else if c == 'L' {
        // .-..
        Some(seq![CodePoint::Dot, CodePoint::Dash, CodePoint::Dot, CodePoint::Dot])
    } else if c == 'M' {
        // --
        Some(seq![CodePoint::Dash, CodePoint::Dash])
    } else if c == 'N' {
        // -.
        Some(seq![CodePoint::Dash, CodePoint::Dot])
    } else if c == 'O' {
        // ---
        Some(seq![CodePoint::Dash, CodePoint::Dash, CodePoint::Dash])
    } else if c == 'P' {
        // .--.
        Some(seq![CodePoint::Dot, CodePoint::Dash, CodePoint::Dash, CodePoint::Dot])
    } else if c == 'Q' {
        // --.-
        Some(seq![CodePoint::Dash, CodePoint::Dash, CodePoint::Dot, CodePoint::Dash])
    } else if c == 'R' {
        // .-.
        Some(seq![CodePoint::Dot, CodePoint::Dash, CodePoint::Dot])
    } else if c == 'S' {
        // ...
        Some(seq![CodePoint::Dot, CodePoint::Dot, CodePoint::Dot])
    } else if c == 'T' {
        // -
        Some(seq![CodePoint::Dash])
    } else if c == 'U' {
        // ..-
        Some(seq![CodePoint::Dot, CodePoint::Dot, CodePoint::Dash])
    } else if c == 'V' {
        // ...-
        Some(seq![CodePoint::Dot, CodePoint::Dot, CodePoint::Dot, CodePoint::Dash])
    } else if c == 'W' {
        // .--
        Some(seq![CodePoint::Dot, CodePoint::Dash, CodePoint::Dash])
    } else if c == 'X' {
        // -..-
        Some(seq![CodePoint::Dash, CodePoint::Dot, CodePoint::Dot, CodePoint::Dash])
    } else if c == 'Y' {
        // -.--
        Some(seq![CodePoint::Dash, CodePoint::Dot, CodePoint::Dash, CodePoint::Dash])
    } else if c == 'Z' {
        // --..
        Some(seq![CodePoint::Dash, CodePoint::Dash, CodePoint::Dot, CodePoint::Dot])
    } else if c == '1' {
        // .----
        Some(seq![CodePoint::Dot, CodePoint::Dash, CodePoint::Dash, CodePoint::Dash, CodePoint::Dash])
    } else if c == '2' {
        // ..---
        Some(seq![CodePoint::Dot, CodePoint::Dot, CodePoint::Dash, CodePoint::Dash, CodePoint::Dash])
    } else if c == '3' {
        // ...--
        Some(seq![CodePoint::Dot, CodePoint::Dot, CodePoint::Dot, CodePoint::Dash, CodePoint::Dash])
    } else if c == '4' {
        // ....-
        Some(seq![CodePoint::Dot, CodePoint::Dot, CodePoint::Dot, CodePoint::Dot, CodePoint::Dash])
    } else if c == '5' {
        // .....
        Some(seq![CodePoint::Dot, CodePoint::Dot, CodePoint::Dot, CodePoint::Dot, CodePoint::Dot])
    } else if c == '6' {
        // -....
        Some(seq![CodePoint::Dash, CodePoint::Dot, CodePoint::Dot, CodePoint::Dot, CodePoint::Dot])
    } else if c == '7' {
        // --...
        Some(seq![CodePoint::Dash, CodePoint::Dash, CodePoint::Dot, CodePoint::Dot, CodePoint::Dot])
    } else if c == '8' {
        // ---..
        Some(seq![CodePoint::Dash, CodePoint::Dash, CodePoint::Dash, CodePoint::Dot, CodePoint::Dot])
    } else if c == '9' {
        // ----.
        Some(seq![CodePoint::Dash, CodePoint::Dash, CodePoint::Dash, CodePoint::Dash, CodePoint::Dot])
    } else if c == '0' {
        // -----
        Some(seq![CodePoint::Dash, CodePoint::Dash, CodePoint::Dash, CodePoint::Dash, CodePoint::Dash])
    } else if c == '.' {
        // .-.-.-
        Some(seq![CodePoint::Dot, CodePoint::Dash, CodePoint::Dot, CodePoint::Dash, CodePoint::Dot, CodePoint::Dash])
    } else if c == ',' {
        // --..--
        Some(seq![CodePoint::Dash, CodePoint::Dash, CodePoint::Dot, CodePoint::Dot, CodePoint::Dash, CodePoint::Dash])
    } else if c == '?' {
        // ..--..
        Some(seq![CodePoint::Dot, CodePoint::Dot, CodePoint::Dash, CodePoint::Dash, CodePoint::Dot, CodePoint::Dot])
    } else if c == '\'' {
        // .----.
        Some(seq![CodePoint::Dot, CodePoint::Dash, CodePoint::Dash, CodePoint::Dash, CodePoint::Dash, CodePoint::Dot])
    } else if c == '!' {
        // -.-.--
        Some(seq![CodePoint::Dash, CodePoint::Dot, CodePoint::Dash, CodePoint::Dot, CodePoint::Dash, CodePoint::Dash])
    } else if c == '/' {
        // -..-.
        Some(seq![CodePoint::Dash, CodePoint::Dot, CodePoint::Dot, CodePoint::Dash, CodePoint::Dot])
    } else if c == '(' {
        // -.--.
        Some(seq![CodePoint::Dash, CodePoint::Dot, CodePoint::Dash, CodePoint::Dash, CodePoint::Dot])
    } else if c == ')' {
        // -.--.-
        Some(seq![CodePoint::Dash, CodePoint::Dot, CodePoint::Dash, CodePoint::Dash, CodePoint::Dot, CodePoint::Dash])
    } else if c == '&' {
        // .-...
        Some(seq![CodePoint::Dot, CodePoint::Dash, CodePoint::Dot, CodePoint::Dot, CodePoint::Dot])
    } else if c == ':' {
        // ---...
        Some(seq![CodePoint::Dash, CodePoint::Dash, CodePoint::Dash, CodePoint::Dot, CodePoint::Dot, CodePoint::Dot])
    } else if c == '=' {
        // -...-
        Some(seq![CodePoint::Dash, CodePoint::Dot, CodePoint::Dot, CodePoint::Dot, CodePoint::Dash])
    } else if c == '+' {
        // .-.-.
        Some(seq![CodePoint::Dot, CodePoint::Dash, CodePoint::Dot, CodePoint::Dash, CodePoint::Dot])
    } else if c == '-' {
        // -....-
        Some(seq![CodePoint::Dash, CodePoint::Dot, CodePoint::Dot, CodePoint::Dot, CodePoint::Dot, CodePoint::Dash])
    } else if c == '"' {
        // .-..-.
        Some(seq![CodePoint::Dot, CodePoint::Dash, CodePoint::Dot, CodePoint::Dot, CodePoint::Dash, CodePoint::Dot])
    } else if c == '@' {
        // .--.-.
        Some(seq![CodePoint::Dot, CodePoint::Dash, CodePoint::Dash, CodePoint::Dot, CodePoint::Dash, CodePoint::Dot])
    } else {
        None
    }
}

/// Every entry of the ITU table but the short alternative form of `'0'` gives its
/// character the international code.
proof fn lemma_itu_entries_international(i: int)
    requires
        0 <= i < ITU_TABLE_LEN,
        i != 36,
    ensures
        international_code(itu_entry(i).0) == Some(itu_entry(i).1),
{
    if i == 0 {
        assert(international_code(itu_entry(0).0) == Some(itu_entry(0).1));
    } else if i == 1 {
        assert(international_code(itu_entry(1).0) == Some(itu_entry(1).1));
    } else if i == 2 {
        assert(international_code(itu_entry(2).0) == Some(itu_entry(2).1));
    } else if i == 3 {
        assert(international_code(itu_entry(3).0) == Some(itu_entry(3).1));
    } else if i == 4 {
        assert(international_code(itu_entry(4).0) == Some(itu_entry(4).1));
    } else if i == 5 {
        assert(international_code(itu_entry(5).0) == Some(itu_entry(5).1));
    } else if i == 6 {
        assert(international_code(itu_entry(6).0) == Some(itu_entry(6).1));
    } else if i == 7 {
        assert(international_code(itu_entry(7).0) == Some(itu_entry(7).1));
    } else if i == 8 {
        assert(international_code(itu_entry(8).0) == Some(itu_entry(8).1));
    } else if i == 9 {
        assert(international_code(itu_entry(9).0) == Some(itu_entry(9).1));
    } else if i == 10 {
        assert(international_code(itu_entry(10).0) == Some(itu_entry(10).1));
    } else if i == 11 {
        assert(international_code(itu_entry(11).0) == Some(itu_entry(11).1));
    } else if i == 12 {
        assert(international_code(itu_entry(12).0) == Some(itu_entry(12).1));
    } else if i == 13 {
        assert(international_code(itu_entry(13).0) == Some(itu_entry(13).1));
    } else if i == 14 {
        assert(international_code(itu_entry(14).0) == Some(itu_entry(14).1));
    } else if i == 15 {
        assert(international_code(itu_entry(15).0) == Some(itu_entry(15).1));
    } else if i == 16 {
        assert(international_code(itu_entry(16).0) == Some(itu_entry(16).1));
    } else if i == 17 {
        assert(international_code(itu_entry(17).0) == Some(itu_entry(17).1));
    } else if i == 18 {
        assert(international_code(itu_entry(18).0) == Some(itu_entry(18).1));
    } else if i == 19 {
        assert(international_code(itu_entry(19).0) == Some(itu_entry(19).1));
    } else if i == 20 {
        assert(international_code(itu_entry(20).0) == Some(itu_entry(20).1));
    } else if i == 21 {
        assert(international_code(itu_entry(21).0) == Some(itu_entry(21).1));
    } else if i == 22 {
        assert(international_code(itu_entry(22).0) == Some(itu_entry(22).1));
    } else if i == 23 {
        assert(international_code(itu_entry(23).0) == Some(itu_entry(23).1));
    } else if i == 24 {
        assert(international_code(itu_entry(24).0) == Some(itu_entry(24).1));
    } else if i == 25 {
        assert(international_code(itu_entry(25).0) == Some(itu_entry(25).1));
    } else if i == 26 {
        assert(international_code(itu_entry(26).0) == Some(itu_entry(26).1));
    } else if i == 27 {
        assert(international_code(itu_entry(27).0) == Some(itu_entry(27).1));
    } else if i == 28 {
        assert(international_code(itu_entry(28).0) == Some(itu_entry(28).1));
    } else if i == 29 {
        assert(international_code(itu_entry(29).0) == Some(itu_entry(29).1));
    } else if i == 30 {
        assert(international_code(itu_entry(30).0) == Some(itu_entry(30).1));
    } else if i == 31 {
        assert(international_code(itu_entry(31).0) == Some(itu_entry(31).1));
    } else if i == 32 {
        assert(international_code(itu_entry(32).0) == Some(itu_entry(32).1));
    } else if i == 33 {
        assert(international_code(itu_entry(33).0) == Some(itu_entry(33).1));
    } else if i == 34 {
        assert(international_code(itu_entry(34).0) == Some(itu_entry(34).1));
    } else if i == 35 {
        assert(international_code(itu_entry(35).0) == Some(itu_entry(35).1));
    } else if i == 37 {
        assert(international_code(itu_entry(37).0) == Some(itu_entry(37).1));
    } else if i == 38 {
        assert(international_code(itu_entry(38).0) == Some(itu_entry(38).1));
    } else if i == 39 {
        assert(international_code(itu_entry(39).0) == Some(itu_entry(39).1));
    } else if i == 40 {
        assert(international_code(itu_entry(40).0) == Some(itu_entry(40).1));
    } else if i == 41 {
        assert(international_code(itu_entry(41).0) == Some(itu_entry(41).1));
    } else if i == 42 {
        assert(international_code(itu_entry(42).0) == Some(itu_entry(42).1));
    } else if i == 43 {
        assert(international_code(itu_entry(43).0) == Some(itu_entry(43).1));
    } else if i == 44 {
        assert(international_code(itu_entry(44).0) == Some(itu_entry(44).1));
    } else if i == 45 {
        assert(international_code(itu_entry(45).0) == Some(itu_entry(45).1));
    } else if i == 46 {
        assert(international_code(itu_entry(46).0) == Some(itu_entry(46).1));
    } else if i == 47 {
        assert(international_code(itu_entry(47).0) == Some(itu_entry(47).1));
    } else if i == 48 {
        assert(international_code(itu_entry(48).0) == Some(itu_entry(48).1));
    } else if i == 49 {
        assert(international_code(itu_entry(49).0) == Some(itu_entry(49).1));
    } else if i == 50 {
        assert(international_code(itu_entry(50).0) == Some(itu_entry(50).1));
    } else if i == 51 {
        assert(international_code(itu_entry(51).0) == Some(itu_entry(51).1));
    } else {
    }
}

/// The first entry of the ITU table for a character with an international code.
proof fn lemma_itu_has_entry(c: char) -> (j: int)
    requires
        international_code(c) is Some,
    ensures
        0 <= j < ITU_TABLE_LEN,
        itu_entry(j).0 == c,
{
    if c == 'A' {
        0
    } else if c == 'B' {
        1
    } else if c == 'C' {
        2
    } else if c == 'D' {
        3
    } else if c == 'E' {
        4
    } else if c == 'F' {
        5
    } else if c == 'G' {
        6
    } else if c == 'H' {
        7
    } else if c == 'I' {
        8
    } else if c == 'J' {
        9
    } else if c == 'K' {
        10
    } else if c == 'L' {
        11
    } else if c == 'M' {
        12
    } else if c == 'N' {
        13
    } else if c == 'O' {
        14
    } else if c == 'P' {
        15
    } else if c == 'Q' {
        16
    } else if c == 'R' {
        17
    } else if c == 'S' {
        18
    } else if c == 'T' {
        19
    } else if c == 'U' {
        20
    } else if c == 'V' {
        21
    } else if c == 'W' {
        22
    } else if c == 'X' {
        23
    } else if c == 'Y' {
        24
    } else if c == 'Z' {
        25
    } else if c == '1' {
        26
    } else if c == '2' {
        27
    } else if c == '3' {
        28
    } else if c == '4' {
        29
    } else if c == '5' {
        30
    } else if c == '6' {
        31
    } else if c == '7' {
        32
    } else if c == '8' {
        33
    } else if c == '9' {
        34
    } else if c == '0' {
        35
    } else if c == '.' {
        37
    } else if c == ',' {
        38
    } else if c == '?' {
        39
    } else if c == '\'' {
        40
    } else if c == '!' {
        41
    } else if c == '/' {
        42
    } else if c == '(' {
        43
    } else if c == ')' {
        44
    } else if c == '&' {
        45
    } else if c == ':' {
        46
    } else if c == '=' {
        47
    } else if c == '+' {
        48
    } else if c == '-' {
        49
    } else if c == '"' {
        50
    } else if c == '@' {
        51
    } else {
        0
    }
}
/// A table with an entry for `c` has a code for `c`.
proof fn lemma_lookup_char_found(t: Seq<(char, Seq<CodePoint>)>, c: char, j: int)
    requires
        0 <= j < t.len(),
        t[j].0 == c,
    ensures
        lookup_char(t, c, c) is Some,
    decreases t.len(),
{
    if t[0].0 != c {
        assert(t.drop_first()[j - 1] == t[j]);
        lemma_lookup_char_found(t.drop_first(), c, j - 1);
    }
}

/// Law: the ITU dialect gives each letter, figure and punctuation mark its international
/// Morse code (for instance `--.-` for `Q`), whatever the table lists after it.
pub proof fn lemma_itu_codes_international(c: char)
    requires
        international_code(c) is Some,
    ensures
        lookup_char(ITU::spec_table(), c, c) == international_code(c),
        uppercase_first(c) == c ==> char_code::<ITU>(c) == international_code(c),
{
    let t = ITU::spec_table();
    let j0 = lemma_itu_has_entry(c);
    assert(t[j0] == itu_entry(j0));
    lemma_lookup_char_found(t, c, j0);
    lemma_lookup_char_entry(t, c);
    let j = choose|j: int|
        0 <= j < t.len() && #[trigger] t[j].0 == c && t[j].1 == lookup_char(t, c, c)->0 && forall|i: int|
            0 <= i < j ==> t[i].0 != c;
    assert(t[j] == itu_entry(j));
    if j == 36 {
        assert(t[35] == itu_entry(35));
        assert(t[35].0 != c);
    }
    lemma_itu_entries_international(j);
}

/// The standard timing of Morse code: a dot is one unit on, a dash three units on, and
/// each is followed by one unit off.
pub open spec fn standard_timing(code: Seq<CodePoint>) -> Seq<Signal>
    decreases code.len(),
{
    if code.len() == 0 {
        seq![]
    } else {
        standard_timing(code.drop_last()) + if code.last() is Dot {
            seq![true, false]
        } else {
            seq![true, true, true, false]
        }
    }
}

/// Dots and dashes are sent with the standard timing.
proof fn lemma_symbols_standard_timing(code: Seq<CodePoint>)
    requires
        only_dots_and_dashes(code),
    ensures
        symbol_signals(code) == standard_timing(code),
    decreases code.len(),
{
    if code.len() > 0 {
        assert(only_dots_and_dashes(code.drop_last())) by {
            assert forall|i: int| 0 <= i < code.drop_last().len() implies spec_is_dot_or_dash(
                #[trigger] code.drop_last()[i],
            ) by {
                assert(code.drop_last()[i] == code[i]);
            }
        }
        lemma_symbols_standard_timing(code.drop_last());
        assert(spec_is_dot_or_dash(code[code.len() - 1]));
        if code.last() is Dot {
            assert(signals_of(code.last()) + seq![OFF] =~= seq![true, false]);
        } else {
            assert(signals_of(code.last()) + seq![OFF] =~= seq![true, true, true, false]);
        }
    }
}

/// Law: the ITU encoder sends a letter, a figure or a punctuation mark that is its own
/// uppercase as its international code with the standard timing, a dot one unit on and a
/// dash three, each followed by one unit off, and ends the letter with two more units
/// off (a pause of three units in all).
pub proof fn lemma_itu_letter_signals(c: char)
    requires
        international_code(c) is Some,
        uppercase_first(c) == c,
    ensures
        encode_signals::<ITU>(seq![c]) == standard_timing(international_code(c)->0) + seq![false, false],
{
    lemma_itu_codes_international(c);
    let k = international_code(c)->0;
    ITU::lemma_codes_are_dots_and_dashes();
    lemma_lookup_char_dots(ITU::spec_table(), c, c);
    lemma_symbols_standard_timing(k);
    let s = seq![c];
    assert(s.drop_last() =~= Seq::<char>::empty());
    assert(s.last() == c);
    assert(off_run(2) =~= seq![false, false]);
    assert(encode_signals::<ITU>(s.drop_last()) == Seq::<Signal>::empty());
    assert(encode_state::<ITU>(s.drop_last()) == 0);
    assert(char_code::<ITU>(c) == Some(k));
    assert(k.len() > 0);
    assert(char_step::<ITU>(0, c).1 == symbol_signals(k) + off_run(2));
    assert(encode_signals::<ITU>(s) =~= Seq::<Signal>::empty() + char_step::<ITU>(0, c).1);
}

} // verus!
