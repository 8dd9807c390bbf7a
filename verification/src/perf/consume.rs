//! The names and help texts of the registered performance counters, as the registry lists
//! them: index and text, one after the other, each followed by a nul.
use std::collections::BTreeMap;
use vstd::prelude::*;
use crate::perf::nom::units_at;
use crate::perf::provide::{all_digits, digits_value, is_digit, lemma_digits_value_grows};
use crate::winnt::{MAKELANGID, PRIMARYLANGID};
use widestring::U16Str;

verus! {

broadcast use vstd::laws_cmp::group_laws_cmp, vstd::std_specs::btree::group_btree_axioms;

/// The characters of UTF-16 code units, if they are valid UTF-16.
pub uninterp spec fn utf16_text(units: Seq<u16>) -> Option<Seq<char>>;

/// Calls widestring's `U16Str::to_string`: its result is named `utf16_text`; code units
/// outside the surrogate range are the characters of the same codes.
#[verifier::external_body]
fn utf16_to_string(units: &[u16]) -> (r: Option<String>)
    ensures
        r matches Some(s) ==> utf16_text(units@) == Some(s@),
        r is None ==> utf16_text(units@) is None,
        r is None ==> exists|i: int| 0 <= i < units@.len() && 0xD800 <= #[trigger] units@[i] < 0xE000,
        r matches Some(s) ==> ((forall|i: int| 0 <= i < units@.len() ==> units@[i] < 0xD800 || units@[i] >= 0xE000)
            ==> s@ == units@.map_values(|u: u16| u as char)),
{
    match U16Str::from_slice(units).to_string() {
        Ok(s) => Some(s),
        Err(_) => None,
    }
}

/// The number written in decimal by `w` after an optional `+`, if it is at most `max`.
pub open spec fn parse_decimal(w: Seq<char>, max: int) -> Option<int> {
    let body = if w.len() > 0 && w[0] == '+' {
        w.drop_first()
    } else {
        w
    };
    if body.len() == 0 || !all_digits(body) || digits_value(body) > max {
        None
    } else {
        Some(digits_value(body))
    }
}

/// The `usize` that `s` stands for, as `str::parse` reads it.
fn parse_usize(s: &str) -> (r: Option<usize>)
    ensures
        match r {
            Some(v) => parse_decimal(s@, usize::MAX as int) == Some(v as int),
            None => parse_decimal(s@, usize::MAX as int) is None,
        },
{
    match parse_unsigned(s, usize::MAX as u64) {
        Some(v) => Some(v as usize),
        None => None,
    }
}

/// The number that `s` stands for, as `str::parse` reads an unsigned integer type whose
/// largest value is `max`.
pub fn parse_unsigned(s: &str, max: u64) -> (r: Option<u64>)
    ensures
        match r {
            Some(v) => parse_decimal(s@, max as int) == Some(v as int),
            None => parse_decimal(s@, max as int) is None,
        },
{
    let n = s.unicode_len();
    let mut start: usize = 0;
    if n > 0 && s.get_char(0) == '+' {
        start = 1;
    }
    let ghost w = s@;
    let ghost body = if w.len() > 0 && w[0] == '+' {
        w.drop_first()
    } else {
        w
    };
    if start == n {
        return None;
    }
    let mut value: u128 = 0;
    let mut i: usize = start;
    while i < n
        invariant
            n == w.len(),
            w == s@,
            start <= i <= n,
            start == n - body.len(),
            body == w.skip(start as int),
            body == (if w.len() > 0 && w[0] == '+' { w.drop_first() } else { w }),
            body.len() > 0,
            value == digits_value(body.take(i - start)),
            value <= max,
            forall|j: int| 0 <= j < i - start ==> is_digit(#[trigger] body[j]),
        decreases n - i,
    {
        let c = s.get_char(i);
        proof {
            assert(body[i - start] == c);
            assert(body.take(i - start + 1).drop_last() =~= body.take(i - start));
        }
        if !('0' <= c && c <= '9') {
            proof {
                assert(!is_digit(body[i - start]));
                assert(!all_digits(body));
            }
            return None;
        }
        let d = (c as u32 - '0' as u32) as u128;
        value = value * 10 + d;
        if value > max as u128 {
            proof {
                assert(body.take(i - start + 1).last() == c);
                assert(value == digits_value(body.take(i - start + 1)));
                lemma_digits_value_grows(body, (i - start + 1) as int);
            }
            return None;
        }
        i = i + 1;
    }
    proof {
        assert(body.take(body.len() as int) =~= body);
        assert(all_digits(body));
    }
    Some(value as u64)
}

/// The pieces of `s` between nuls, `cur` being the piece in progress: as `split` on a slice
/// gives them, with an empty piece after a trailing nul.
pub open spec fn pieces_from(s: Seq<u16>, cur: Seq<u16>) -> Seq<Seq<u16>>
    decreases s.len(),
{
    if s.len() == 0 {
        seq![cur]
    } else if s[0] == 0 {
        seq![cur] + pieces_from(s.drop_first(), seq![])
    } else {
        pieces_from(s.drop_first(), cur.push(s[0]))
    }
}

/// The pieces of `s` between nuls.
pub open spec fn split_pieces(s: Seq<u16>) -> Seq<Seq<u16>> {
    pieces_from(s, seq![])
}

/// The views of pieces.
pub open spec fn pieces_view(v: Seq<Vec<u16>>) -> Seq<Seq<u16>> {
    v.map_values(|p: Vec<u16>| p@)
}

/// The pieces of `s` between nuls.
fn split_at_nul(s: &[u16]) -> (r: Vec<Vec<u16>>)
    ensures
        pieces_view(r@) == split_pieces(s@),
{
    let n = s.len();
    let mut out: Vec<Vec<u16>> = Vec::new();
    let mut cur: Vec<u16> = Vec::new();
    let mut i: usize = 0;
    proof {
        assert(s@.skip(0) =~= s@);
    }
    while i < n
        invariant
            n == s@.len(),
            i <= n,
            pieces_view(out@) + pieces_from(s@.skip(i as int), cur@) == split_pieces(s@),
        decreases n - i,
    {
        let c = s[i];
        let ghost rest = s@.skip(i as int);
        proof {
            assert(rest[0] == c);
            assert(rest.drop_first() =~= s@.skip(i + 1));
        }
        let ghost cur0 = cur@;
        if c == 0 {
            let ghost done = pieces_view(out@);
            let piece = cur;
            out.push(piece);
            cur = Vec::new();
            proof {
                assert(pieces_view(out@) =~= done + seq![cur0]);
                assert(cur@ =~= Seq::<u16>::empty());
                assert(done + (seq![cur0] + pieces_from(s@.skip(i + 1), seq![])) =~= (done + seq![cur0])
                    + pieces_from(s@.skip(i + 1), seq![]));
            }
        } else {
            cur.push(c);
            proof {
                assert(pieces_from(rest, cur0) == pieces_from(s@.skip(i + 1), cur0.push(c)));
            }
        }
        i = i + 1;
    }
    proof {
        assert(s@.skip(n as int) =~= Seq::<u16>::empty());
    }
    let ghost done = pieces_view(out@);
    let last = cur;
    out.push(last);
    proof {
        assert(pieces_view(out@) =~= done + seq![last@]);
    }
    out
}

/// The pieces taken two by two, an odd last piece dropped, and the first pair (the header
/// with the count) dropped too.
pub open spec fn key_value_pieces(pieces: Seq<Seq<u16>>) -> Seq<(Seq<u16>, Seq<u16>)> {
    let n = pieces.len() / 2;
    Seq::new(
        if n >= 1 { (n - 1) as nat } else { 0 },
        |i: int| (pieces[2 * (i + 1)], pieces[2 * (i + 1) + 1]),
    )
}

/// The characters of UTF-16 code units, if they are valid UTF-16: code units outside the
/// surrogate range are the characters of the same codes.
pub open spec fn utf16_decoded(units: Seq<u16>) -> Option<Seq<char>> {
    if forall|i: int| 0 <= i < units.len() ==> #[trigger] units[i] < 0xD800 || units[i] >= 0xE000 {
        Some(units.map_values(|u: u16| u as char))
    } else {
        utf16_text(units)
    }
}

/// The pairs whose index is a decimal `usize` and whose both parts are valid UTF-16, in
/// order; the others are skipped.
pub open spec fn text_pairs(ps: Seq<(Seq<u16>, Seq<u16>)>) -> Seq<(usize, Seq<char>)>
    decreases ps.len(),
{
    if ps.len() == 0 {
        seq![]
    } else {
        let rest = text_pairs(ps.drop_last());
        let (k, v) = ps.last();
        match (utf16_decoded(k), utf16_decoded(v)) {
            (Some(kt), Some(vt)) => match parse_decimal(kt, usize::MAX as int) {
                Some(i) => rest.push((i as usize, vt)),
                None => rest,
            },
            _ => rest,
        }
    }
}

/// The pairs of an index and a text in a list of nul-terminated UTF-16 strings that ends
/// with one more nul.
pub open spec fn spec_text_pairs(raw: Seq<u16>) -> Seq<(usize, Seq<char>)> {
    text_pairs(key_value_pieces(split_pieces(raw.take(raw.len() - 2))))
}

/// The view of a parsed pair.
pub open spec fn text_pair_view(p: (usize, String)) -> (usize, Seq<char>) {
    (p.0, p.1@)
}

/// The views of parsed pairs.
pub open spec fn text_pairs_view(v: Seq<(usize, String)>) -> Seq<(usize, Seq<char>)> {
    v.map_values(|p: (usize, String)| text_pair_view(p))
}

/// The pairs of an index and a text of a list of nul-terminated UTF-16 strings that ends
/// with one more nul. The first pair, the header, is dropped; a pair whose index is not a
/// decimal number or whose parts are not valid UTF-16 is skipped.
pub fn parse_null_separated_key_value_pairs(raw: &[u16]) -> (r: Vec<(usize, String)>)
    requires
        raw@.len() >= 2,
        raw@[raw@.len() - 2] == 0,
        raw@[raw@.len() - 1] == 0,
    ensures
        text_pairs_view(r@) == spec_text_pairs(raw@),
{
    let len = raw.len();
    let body = vstd::slice::slice_subrange(raw, 0, len - 2);
    assert(body@ =~= raw@.take(len - 2));
    let pieces = split_at_nul(body);
    let ghost ps = key_value_pieces(pieces_view(pieces@));
    let plen = pieces.len();
    let npairs = plen / 2;
    let mut out: Vec<(usize, String)> = Vec::new();
    if npairs == 0 {
        proof {
            assert(ps.len() == 0);
            assert(text_pairs_view(out@) =~= text_pairs(ps));
        }
        return out;
    }
    let mut k: usize = 1;
    proof {
        assert(ps.take(0) =~= Seq::<(Seq<u16>, Seq<u16>)>::empty());
        assert(text_pairs_view(out@) =~= text_pairs(ps.take(0)));
    }
    while k < npairs
        invariant
            1 <= k <= npairs,
            npairs == pieces@.len() / 2,
            plen == pieces@.len(),
            ps == key_value_pieces(pieces_view(pieces@)),
            ps.len() == npairs - 1,
            text_pairs_view(out@) == text_pairs(ps.take(k - 1)),
        decreases npairs - k,
    {
        let key = &pieces[2 * k];
        let value = &pieces[2 * k + 1];
        let ghost before = text_pairs_view(out@);
        proof {
            assert(ps[k - 1] == (key@, value@));
            assert(ps.take(k as int).drop_last() =~= ps.take(k - 1));
            assert(ps.take(k as int).last() == (key@, value@));
        }
        let kt = utf16_to_string(key.as_slice());
        let vt = utf16_to_string(value.as_slice());
        match (kt, vt) {
            (Some(kt), Some(vt)) => {
                match parse_usize(kt.as_str()) {
                    Some(index) => {
                        out.push((index, vt));
                        proof {
                            assert(text_pairs_view(out@) =~= before.push((index, vt@)));
                        }
                    },
                    None => {},
                }
            },
            _ => {},
        }
        k = k + 1;
    }
    proof {
        assert(ps.take(npairs - 1) =~= ps);
    }
    out
}

/// The 16-bit code units of little-endian bytes.
fn u8_as_u16_str(source: &[u8]) -> (r: Vec<u16>)
    requires
        source@.len() % 2 == 0,
    ensures
        r@ == units_at(source@, 0, source@.len() as int),
{
    let slen = source.len();
    let n = slen / 2;
    let mut out: Vec<u16> = Vec::new();
    let mut i: usize = 0;
    while i < n
        invariant
            n == source@.len() / 2,
            slen == source@.len(),
            i <= n,
            out@ == units_at(source@, 0, source@.len() as int).take(i as int),
        decreases n - i,
    {
        let u = (source[2 * i] as u16) | ((source[2 * i + 1] as u16) << 8u16);
        out.push(u);
        proof {
            assert(out@ =~= units_at(source@, 0, source@.len() as int).take(i + 1));
        }
        i = i + 1;
    }
    proof {
        assert(units_at(source@, 0, source@.len() as int).take(n as int) =~= units_at(source@, 0, source@.len() as int));
    }
    out
}

/// The pairs of an index and a text of a registry value of names or help texts: UTF-16
/// in little-endian bytes, ending with two nuls.
pub fn parse_performance_text_pairs(raw: &[u8]) -> (r: Vec<(usize, String)>)
    requires
        raw@.len() % 2 == 0,
        raw@.len() >= 4,
        units_at(raw@, 0, raw@.len() as int)[raw@.len() / 2 - 2] == 0,
        units_at(raw@, 0, raw@.len() as int)[raw@.len() / 2 - 1] == 0,
    ensures
        text_pairs_view(r@) == spec_text_pairs(units_at(raw@, 0, raw@.len() as int)),
{
    let units = u8_as_u16_str(raw);
    parse_null_separated_key_value_pairs(units.as_slice())
}

/// The name and the help text of a counter. The name index is even; the help index
/// follows it.
#[derive(Debug)]
pub struct CounterMeta {
    pub name_index: usize,
    pub name_value: String,
    pub help_index: usize,
    pub help_value: String,
}

pub struct MetaView {
    pub name_index: usize,
    pub name_value: Seq<char>,
    pub help_index: usize,
    pub help_value: Seq<char>,
}

impl View for CounterMeta {
    type V = MetaView;

    open spec fn view(&self) -> MetaView {
        MetaView {
            name_index: self.name_index,
            name_value: self.name_value@,
            help_index: self.help_index,
            help_value: self.help_value@,
        }
    }
}

/// The view of a counter's description.
pub open spec fn meta_view(m: CounterMeta) -> MetaView {
    m@
}

impl CounterMeta {
    /// An equal copy.
    pub fn duplicate(&self) -> (r: Self)
        ensures
            r@ == self@,
    {
        CounterMeta {
            name_index: self.name_index,
            name_value: self.name_value.clone(),
            help_index: self.help_index,
            help_value: self.help_value.clone(),
        }
    }
}

/// The description of a counter not seen yet: no texts, and the help index after the name
/// index.
pub open spec fn default_meta(name_index: usize) -> MetaView {
    MetaView { name_index, name_value: seq![], help_index: (name_index + 1) as usize, help_value: seq![] }
}

/// The descriptions of the counters by name index.
pub struct AllCounters {
    table: BTreeMap<usize, CounterMeta>,
}

impl View for AllCounters {
    type V = Map<usize, MetaView>;

    closed spec fn view(&self) -> Map<usize, MetaView> {
        self.table@.map_values(|m: CounterMeta| meta_view(m))
    }
}

/// The description of `name_index` after a name is read for it.
pub open spec fn named(m: Map<usize, MetaView>, name_index: usize, name_value: Seq<char>) -> MetaView {
    let old = if m.contains_key(name_index) {
        m[name_index]
    } else {
        default_meta(name_index)
    };
    MetaView { name_index, name_value, ..old }
}

/// The descriptions after the names are read, one after the other.
pub open spec fn with_names(m: Map<usize, MetaView>, pairs: Seq<(usize, Seq<char>)>) -> Map<usize, MetaView>
    decreases pairs.len(),
{
    if pairs.len() == 0 {
        m
    } else {
        let m1 = with_names(m, pairs.drop_last());
        let (i, v) = pairs.last();
        m1.insert(i, named(m1, i, v))
    }
}

/// The description of the counter before `help_index` after its help text is read.
pub open spec fn helped(m: Map<usize, MetaView>, help_index: usize, help_value: Seq<char>) -> MetaView {
    let i = (help_index - 1) as usize;
    let old = if m.contains_key(i) {
        m[i]
    } else {
        default_meta(i)
    };
    MetaView { help_index, help_value, ..old }
}

/// The descriptions after the help texts are read, one after the other.
pub open spec fn with_helps(m: Map<usize, MetaView>, pairs: Seq<(usize, Seq<char>)>) -> Map<usize, MetaView>
    decreases pairs.len(),
{
    if pairs.len() == 0 {
        m
    } else {
        let m1 = with_helps(m, pairs.drop_last());
        let (i, v) = pairs.last();
        m1.insert((i - 1) as usize, helped(m1, i, v))
    }
}

impl AllCounters {
    pub fn new() -> (r: Self)
        ensures
            r@ == Map::<usize, MetaView>::empty(),
    {
        let r = AllCounters { table: BTreeMap::new() };
        assert(r@ =~= Map::<usize, MetaView>::empty());
        r
    }

    /// The description of a counter.
    pub fn get(&self, name_index: usize) -> (r: Option<&CounterMeta>)
        ensures
            match r {
                Some(m) => self@.contains_key(name_index) && self@[name_index] == m@,
                None => !self@.contains_key(name_index),
            },
    {
        self.table.get(&name_index)
    }

    /// A copy of the description of a counter, or the description of a counter not seen
    /// yet.
    pub fn entry(&self, name_index: usize) -> (r: CounterMeta)
        requires
            name_index < usize::MAX,
        ensures
            r@ == (if self@.contains_key(name_index) {
                self@[name_index]
            } else {
                default_meta(name_index)
            }),
    {
        match self.table.get(&name_index) {
            Some(m) => m.duplicate(),
            None => CounterMeta {
                name_index,
                name_value: String::new(),
                help_index: name_index + 1,
                help_value: String::new(),
            },
        }
    }

    /// Put the description of a counter under `key`.
    pub fn put(&mut self, key: usize, meta: CounterMeta)
        ensures
            final(self)@ == old(self)@.insert(key, meta@),
    {
        let ghost m = meta@;
        self.table.insert(key, meta);
        assert(self@ =~= old(self)@.insert(key, m));
    }

    /// The descriptions by name index.
    pub fn map(&self) -> (r: &BTreeMap<usize, CounterMeta>)
        ensures
            r@.map_values(|m: CounterMeta| meta_view(m)) == self@,
    {
        &self.table
    }

    /// Read the names of counters: each name index gets its name.
    pub fn add_names(&mut self, pairs: &[(usize, String)])
        requires
            forall|i: int| 0 <= i < pairs@.len() ==> (#[trigger] pairs@[i]).0 < usize::MAX,
        ensures
            final(self)@ == with_names(old(self)@, text_pairs_view(pairs@)),
    {
        let mut k: usize = 0;
        while k < pairs.len()
            invariant
                k <= pairs@.len(),
                forall|i: int| 0 <= i < pairs@.len() ==> (#[trigger] pairs@[i]).0 < usize::MAX,
                self@ == with_names(old(self)@, text_pairs_view(pairs@).take(k as int)),
            decreases pairs.len() - k,
        {
            let (index, value) = &pairs[k];
            let ghost m0 = self@;
            let mut meta = self.entry(*index);
            meta.name_index = *index;
            meta.name_value = value.clone();
            self.put(*index, meta);
            proof {
                let t = text_pairs_view(pairs@);
                assert(t.take(k + 1).drop_last() =~= t.take(k as int));
                assert(t.take(k + 1).last() == (*index, value@));
            }
            k = k + 1;
        }
        proof {
            assert(text_pairs_view(pairs@).take(pairs@.len() as int) =~= text_pairs_view(pairs@));
        }
    }

    /// Read the help texts of counters: the counter before each help index gets its help
    /// text.
    pub fn add_helps(&mut self, pairs: &[(usize, String)])
        requires
            forall|i: int| 0 <= i < pairs@.len() ==> (#[trigger] pairs@[i]).0 >= 1,
        ensures
            final(self)@ == with_helps(old(self)@, text_pairs_view(pairs@)),
    {
        let mut k: usize = 0;
        while k < pairs.len()
            invariant
                k <= pairs@.len(),
                forall|i: int| 0 <= i < pairs@.len() ==> (#[trigger] pairs@[i]).0 >= 1,
                self@ == with_helps(old(self)@, text_pairs_view(pairs@).take(k as int)),
            decreases pairs.len() - k,
        {
            let (index, value) = &pairs[k];
            let mut meta = self.entry(*index - 1);
            meta.help_index = *index;
            meta.help_value = value.clone();
            self.put(*index - 1, meta);
            proof {
                let t = text_pairs_view(pairs@);
                assert(t.take(k + 1).drop_last() =~= t.take(k as int));
                assert(t.take(k + 1).last() == (*index, value@));
            }
            k = k + 1;
        }
        proof {
            assert(text_pairs_view(pairs@).take(pairs@.len() as int) =~= text_pairs_view(pairs@));
        }
    }
}

/// The registry key that the texts of a locale are read from.
#[derive(Clone, Copy, Debug, PartialEq, Eq, Structural)]
pub enum PerfTextKey {
    /// `HKEY_PERFORMANCE_TEXT`: English texts.
    Text,
    /// `HKEY_PERFORMANCE_NLSTEXT`: texts in the user's default UI language.
    NlsText,
    /// `HKEY_PERFORMANCE_DATA`: texts in the language of a language identifier.
    Data,
}

/// Which localization strategy is used to retrieve text data.
#[derive(Clone, Copy, Debug, PartialEq, Eq, Structural)]
pub enum UseLocale {
    /// English strings.
    English,
    /// Strings in the default UI language of the current user.
    UIDefault,
    /// Strings in the language of this language identifier.
    LangId(u16),
}

impl Default for UseLocale {
    fn default() -> (r: Self)
        ensures
            r == UseLocale::UIDefault,
    {
        UseLocale::UIDefault
    }
}

/// A lower-case hexadecimal digit.
pub open spec fn lower_hex_digit(d: int) -> char {
    if d < 10 {
        (48 + d) as char
    } else {
        (87 + d) as char
    }
}

/// The lower-case hexadecimal digits of `v`, at least `width` of them, zeros in front.
pub open spec fn lower_hex(v: nat, width: nat) -> Seq<char>
    decreases width + v,
{
    if v == 0 && width == 0 {
        seq![]
    } else {
        lower_hex(v / 16, if width > 0 { (width - 1) as nat } else { 0 }).push(lower_hex_digit((v % 16) as int))
    }
}

/// Append a character.
#[verifier::external_body]
pub(crate) fn push_char(s: &mut String, c: char)
    ensures
        final(s)@ == old(s)@.push(c),
{
    s.push(c)
}

/// `v` in lower-case hexadecimal, at least three digits.
fn lower_hex3(v: u16) -> (r: String)
    ensures
        r@ == lower_hex(v as nat, 3),
{
    let mut digits: Vec<char> = Vec::new();
    let mut x: u16 = v;
    let mut w: u32 = 3;
    while x != 0 || w != 0
        invariant
            w <= 3,
            lower_hex(v as nat, 3) == lower_hex(x as nat, w as nat) + digits@.reverse(),
        decreases x as int + w as int,
    {
        let d = x % 16;
        let c: char = if d < 10 {
            ((48 + d) as u8) as char
        } else {
            ((87 + d) as u8) as char
        };
        proof {
            assert(c == lower_hex_digit(d as int));
            let nw: nat = if w > 0 { (w - 1) as nat } else { 0 };
            assert(lower_hex(x as nat, w as nat) == lower_hex((x / 16) as nat, nw).push(c));
            assert(digits@.push(c).reverse() =~= seq![c] + digits@.reverse());
            assert(lower_hex((x / 16) as nat, nw).push(c) + digits@.reverse() =~= lower_hex(
                (x / 16) as nat,
                nw,
            ) + (seq![c] + digits@.reverse()));
        }
        digits.push(c);
        x = x / 16;
        if w > 0 {
            w = w - 1;
        }
    }
    let mut s = String::new();
    let mut i: usize = digits.len();
    proof {
        assert(lower_hex(0, 0) == Seq::<char>::empty());
        assert(Seq::<char>::empty() + digits@.reverse() =~= digits@.reverse());
        assert(s@ =~= digits@.reverse().take(0));
    }
    while i > 0
        invariant
            i <= digits@.len(),
            s@ == digits@.reverse().take(digits@.len() - i),
        decreases i,
    {
        i = i - 1;
        push_char(&mut s, digits[i]);
        proof {
            assert(s@ =~= digits@.reverse().take(digits@.len() - i));
        }
    }
    proof {
        assert(digits@.reverse().take(digits@.len() as int) =~= digits@.reverse());
    }
    s
}

impl UseLocale {
    /// The registry key the texts are read from.
    pub fn raw_hkey(&self) -> (r: PerfTextKey)
        ensures
            r == match self {
                UseLocale::English => PerfTextKey::Text,
                UseLocale::UIDefault => PerfTextKey::NlsText,
                UseLocale::LangId(_) => PerfTextKey::Data,
            },
    {
        match self {
            UseLocale::English => PerfTextKey::Text,
            UseLocale::UIDefault => PerfTextKey::NlsText,
            UseLocale::LangId(_) => PerfTextKey::Data,
        }
    }

    /// The value name to query: with a language identifier, the query, a space and the
    /// identifier in hexadecimal, at least three digits.
    pub fn format_query(&self, query: &str) -> (r: String)
        ensures
            r@ == match self {
                UseLocale::LangId(id) => query@ + seq![' '] + lower_hex(*id as nat, 3),
                _ => query@,
            },
    {
        match self {
            UseLocale::LangId(lang_id) => {
                let mut s = String::from_str(query);
                push_char(&mut s, ' ');
                let hex = lower_hex3(*lang_id);
                s.append(hex.as_str());
                s
            },
            _ => String::from_str(query),
        }
    }
}

/// `LANG_PORTUGUESE`.
pub const LANG_PORTUGUESE: u16 = 0x16;

/// `LANG_CHINESE`.
pub const LANG_CHINESE: u16 = 0x04;

/// The language identifier to read texts in, from the user's UI language and the version of
/// Windows: the complete identifier for Portuguese after build 5 and for Chinese on
/// Windows XP and Server 2003 (5.1 and later 5.x), else only its primary language.
pub fn language_id_for(lang_id: u16, major: u32, minor: u32, build: u32) -> (r: u16)
    ensures
        r == (if (lang_id % 1024 == LANG_PORTUGUESE && build > 5) || (lang_id % 1024 == LANG_CHINESE
            && major == 5 && minor >= 1) {
            lang_id
        } else {
            lang_id % 1024
        }),
{
    let primary = PRIMARYLANGID(lang_id);
    if (LANG_PORTUGUESE == primary && build > 5) || (LANG_CHINESE == primary && (major == 5 && minor >= 1)) {
        lang_id
    } else {
        let r = MAKELANGID(primary, 0);
        assert(((0u16 << 10u16) | primary) == primary) by (bit_vector);
        r
    }
}

} // verus!
