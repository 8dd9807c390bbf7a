//! Lists of UTF-16 strings written as one buffer: each string followed by a nul, and the
//! whole list followed by one more nul.
use vstd::prelude::*;

verus! {

/// No code unit of `s` is nul.
pub open spec fn has_no_nul(s: Seq<u16>) -> bool {
    forall|i: int| 0 <= i < s.len() ==> s[i] != 0
}

/// Each string followed by a nul, one after the other.
pub open spec fn nul_terminated_all(ss: Seq<Seq<u16>>) -> Seq<u16>
    decreases ss.len(),
{
    if ss.len() == 0 {
        seq![]
    } else {
        nul_terminated_all(ss.drop_last()) + ss.last() + seq![0u16]
    }
}

/// The buffer for a list of strings: each string followed by a nul, then one more nul;
/// two nuls for the empty list.
pub open spec fn double_nul_buffer(ss: Seq<Seq<u16>>) -> Seq<u16> {
    if ss.len() == 0 {
        seq![0u16, 0u16]
    } else {
        nul_terminated_all(ss) + seq![0u16]
    }
}

/// A nul followed by a nul starts at `i`.
pub open spec fn double_nul_at(buf: Seq<u16>, i: int) -> bool {
    0 <= i && i + 1 < buf.len() && buf[i] == 0 && buf[i + 1] == 0
}

/// The first position where two nuls start.
pub open spec fn first_double_nul(buf: Seq<u16>, i: int) -> bool {
    double_nul_at(buf, i) && forall|j: int| 0 <= j < i ==> !double_nul_at(buf, j)
}

/// The position of the first nul of `s`, or its length.
pub open spec fn first_nul(s: Seq<u16>) -> nat
    decreases s.len(),
{
    if s.len() == 0 {
        0
    } else if s[0] == 0 {
        0
    } else {
        1 + first_nul(s.drop_first())
    }
}

/// The nul-terminated strings that `s` is made of, in order; the last one may lack its nul.
pub open spec fn split_at_nuls(s: Seq<u16>) -> Seq<Seq<u16>>
    decreases s.len(),
{
    if s.len() == 0 {
        seq![]
    } else {
        let k = first_nul(s);
        if k >= s.len() {
            seq![s]
        } else {
            seq![s.take(k as int)] + split_at_nuls(s.skip(k as int + 1))
        }
    }
}

/// The strings of a buffer whose first double nul starts at `end`.
pub open spec fn strings_before(buf: Seq<u16>, end: int) -> Seq<Seq<u16>> {
    if end == 0 {
        seq![]
    } else {
        split_at_nuls(buf.take(end + 1))
    }
}

/// Join strings with nuls and end the whole with a double nul. The strings must not be
/// empty, to avoid a double nul in the middle: the position of the first empty string
/// is the error. Strings hold no nul.
pub fn join_nul_terminate_double_nul(strings: &[Vec<u16>]) -> (r: Result<Vec<u16>, usize>)
    requires
        forall|i: int| 0 <= i < strings@.len() ==> has_no_nul(#[trigger] strings@[i]@),
    ensures
        match r {
            Ok(buf) => (forall|i: int| 0 <= i < strings@.len() ==> (#[trigger] strings@[i]@).len()
                > 0) && buf@ == double_nul_buffer(strings@.map_values(|s: Vec<u16>| s@)),
            Err(i) => i < strings@.len() && strings@[i as int]@.len() == 0 && forall|j: int|
                0 <= j < i ==> (#[trigger] strings@[j]@).len() > 0,
        },
{
    let ghost views = strings@.map_values(|s: Vec<u16>| s@);
    let mut s: Vec<u16> = Vec::new();
    let mut i: usize = 0;
    while i < strings.len()
        invariant
            i <= strings@.len(),
            views == strings@.map_values(|s: Vec<u16>| s@),
            forall|j: int| 0 <= j < i ==> (#[trigger] strings@[j]@).len() > 0,
            s@ == nul_terminated_all(views.take(i as int)),
        decreases strings.len() - i,
    {
        let item = &strings[i];
        if item.len() == 0 {
            return Err(i);
        }
        let mut k: usize = 0;
        let ghost base = s@;
        while k < item.len()
            invariant
                k <= item@.len(),
                s@ == base + item@.take(k as int),
            decreases item.len() - k,
        {
            s.push(item[k]);
            proof {
                assert(item@.take(k + 1) =~= item@.take(k as int).push(item@[k as int]));
            }
            k = k + 1;
        }
        s.push(0);
        proof {
            assert(item@.take(item@.len() as int) =~= item@);
            let t = views.take(i + 1);
            assert(t.drop_last() =~= views.take(i as int));
            assert(t.last() == item@);
        }
        i = i + 1;
    }
    proof {
        assert(views.take(strings@.len() as int) =~= views);
    }
    if s.len() == 0 {
        s.push(0);
        s.push(0);
        proof {
            assert(views.len() == 0);
            assert(s@ =~= seq![0u16, 0u16]);
        }
    } else {
        s.push(0);
        proof {
            assert(views.len() > 0);
        }
    }
    Ok(s)
}

/// Whether two nuls start at `i`.
pub fn is_double_null_terminator(buf: &[u16], i: usize) -> (r: bool)
    requires
        i + 1 < buf@.len(),
    ensures
        r == double_nul_at(buf@, i as int),
{
    buf[i] == 0 && buf[i + 1] == 0
}

/// The position of the first double nul of a buffer that holds one.
pub fn find_double_null_terminator(buf: &[u16]) -> (r: usize)
    requires
        exists|j: int| #[trigger] double_nul_at(buf@, j),
    ensures
        first_double_nul(buf@, r as int),
{
    let ghost w = choose|j: int| #[trigger] double_nul_at(buf@, j);
    let n = buf.len();
    let mut i: usize = 0;
    while !is_double_null_terminator(buf, i)
        invariant
            n == buf@.len(),
            double_nul_at(buf@, w),
            i <= w,
            forall|j: int| 0 <= j < i ==> !double_nul_at(buf@, j),
        decreases w - i,
    {
        i = i + 1;
    }
    i
}

/// The strings of a buffer that ends with a double nul: the nul-terminated strings before
/// its first double nul.
pub fn split_nul_delimited_double_nul_terminated(buf: &[u16]) -> (r: Vec<Vec<u16>>)
    requires
        buf@.len() >= 2,
        double_nul_at(buf@, buf@.len() - 2),
    ensures
        exists|end: int|
            first_double_nul(buf@, end) && r@.map_values(|s: Vec<u16>| s@) == strings_before(
                buf@,
                end,
            ),
{
    let end = find_double_null_terminator(buf);
    let mut out: Vec<Vec<u16>> = Vec::new();
    if end == 0 {
        proof {
            assert(out@.map_values(|s: Vec<u16>| s@) =~= strings_before(buf@, end as int));
        }
        return out;
    }
    let ghost region = buf@.take(end + 1);
    let mut current: usize = 0;
    proof {
        assert(region.skip(0) =~= region);
        assert(out@.map_values(|s: Vec<u16>| s@) + split_at_nuls(region) =~= split_at_nuls(region));
    }
    while current <= end
        invariant
            end + 1 < buf@.len(),
            region == buf@.take(end + 1),
            current <= end + 1,
            buf@[end as int] == 0,
            out@.map_values(|s: Vec<u16>| s@) + split_at_nuls(region.skip(current as int))
                == split_at_nuls(region),
        decreases end + 1 - current,
    {
        let ghost rest = region.skip(current as int);
        let mut item: Vec<u16> = Vec::new();
        let mut k: usize = current;
        while buf[k] != 0
            invariant
                current <= k <= end,
                end + 1 < buf@.len(),
                buf@[end as int] == 0,
                rest == region.skip(current as int),
                region == buf@.take(end + 1),
                item@ == rest.take(k - current),
                forall|j: int| current <= j < k ==> buf@[j] != 0,
            decreases end - k,
        {
            item.push(buf[k]);
            proof {
                assert(rest.take(k + 1 - current) =~= rest.take(k - current).push(buf@[k as int]));
            }
            k = k + 1;
        }
        proof {
            lemma_first_nul(rest, (k - current) as nat);
            assert(rest.skip(k - current + 1) =~= region.skip(k + 1));
            assert(split_at_nuls(rest) == seq![item@] + split_at_nuls(rest.skip(k - current + 1)));
            assert(out@.push(item).map_values(|s: Vec<u16>| s@) =~= out@.map_values(
                |s: Vec<u16>| s@,
            ) + seq![item@]);
        }
        out.push(item);
        current = k + 1;
    }
    proof {
        assert(region.skip(current as int) =~= Seq::<u16>::empty());
        assert(region.skip(0) =~= region);
    }
    out
}

/// The first nul of `s` is at `k` when `s[k]` is nul and nothing before it is.
proof fn lemma_first_nul(s: Seq<u16>, k: nat)
    requires
        k < s.len(),
        s[k as int] == 0,
        forall|j: int| 0 <= j < k ==> s[j] != 0,
    ensures
        first_nul(s) == k,
    decreases k,
{
    if k > 0 {
        let t = s.drop_first();
        assert forall|j: int| 0 <= j < k - 1 implies t[j] != 0 by {
            assert(t[j] == s[j + 1]);
        }
        lemma_first_nul(t, (k - 1) as nat);
    }
}


/// The strings of a list, each followed by a nul, begin with the first string and its nul.
proof fn lemma_terminated_front(ss: Seq<Seq<u16>>)
    requires
        ss.len() > 0,
    ensures
        nul_terminated_all(ss) == ss[0] + seq![0u16] + nul_terminated_all(ss.drop_first()),
    decreases ss.len(),
{
    if ss.len() == 1 {
        assert(ss.drop_last() =~= Seq::<Seq<u16>>::empty());
        assert(ss.drop_first() =~= Seq::<Seq<u16>>::empty());
        assert(nul_terminated_all(ss.drop_last()) == Seq::<u16>::empty());
        assert(nul_terminated_all(ss.drop_first()) == Seq::<u16>::empty());
        assert(ss.last() == ss[0]);
        assert(nul_terminated_all(ss) =~= ss[0] + seq![0u16]);
        assert(nul_terminated_all(ss) =~= ss[0] + seq![0u16] + nul_terminated_all(ss.drop_first()));
    } else {
        let init = ss.drop_last();
        lemma_terminated_front(init);
        assert(init.drop_first() =~= ss.drop_first().drop_last());
        assert(ss.drop_first().last() == ss.last());
        assert(nul_terminated_all(ss) =~= ss[0] + seq![0u16] + nul_terminated_all(ss.drop_first()));
    }
}

/// A string without nul, its nul, then anything: the first piece is the string.
proof fn lemma_split_front(s: Seq<u16>, rest: Seq<u16>)
    requires
        has_no_nul(s),
    ensures
        split_at_nuls(s + seq![0u16] + rest) == seq![s] + split_at_nuls(rest),
{
    let t = s + seq![0u16] + rest;
    lemma_first_nul(t, s.len());
    assert(t.take(s.len() as int) =~= s);
    assert(t.skip(s.len() as int + 1) =~= rest);
}

/// Nonempty strings without nul, each followed by a nul: no two nuls meet before the last
/// code unit, and the first code unit is not nul.
proof fn lemma_terminated_shape(ss: Seq<Seq<u16>>)
    requires
        forall|i: int| 0 <= i < ss.len() ==> (#[trigger] ss[i]).len() > 0 && has_no_nul(ss[i]),
    ensures
        split_at_nuls(nul_terminated_all(ss)) == ss,
        forall|j: int|
            0 <= j < nul_terminated_all(ss).len() - 1 ==> !double_nul_at(nul_terminated_all(ss), j),
        ss.len() > 0 ==> nul_terminated_all(ss).len() > 0 && nul_terminated_all(ss)[0] != 0,
        ss.len() > 0 ==> nul_terminated_all(ss).last() == 0,
    decreases ss.len(),
{
    if ss.len() == 0 {
        assert(split_at_nuls(seq![]) =~= ss);
    } else {
        let rest = ss.drop_first();
        assert forall|i: int| 0 <= i < rest.len() implies (#[trigger] rest[i]).len() > 0 && has_no_nul(
            rest[i],
        ) by {
            assert(rest[i] == ss[i + 1]);
        }
        lemma_terminated_shape(rest);
        lemma_terminated_front(ss);
        let b = nul_terminated_all(ss);
        let br = nul_terminated_all(rest);
        let s0 = ss[0];
        assert(s0.len() > 0 && has_no_nul(s0));
        lemma_split_front(s0, br);
        assert(split_at_nuls(b) =~= ss);
        assert forall|j: int| 0 <= j < b.len() - 1 implies !double_nul_at(b, j) by {
            if j < s0.len() {
                assert(b[j] == s0[j]);
            } else if j == s0.len() {
                if rest.len() > 0 {
                    assert(b[j + 1] == br[0]);
                } else {
                    assert(b.len() == s0.len() + 1);
                }
            } else {
                assert(b[j] == br[j - s0.len() - 1]);
                assert(b[j + 1] == br[j - s0.len()]);
                assert(!double_nul_at(br, j - s0.len() - 1));
            }
        }
        assert(b[0] == s0[0]);
    }
}

/// Law: the strings of the buffer that joins nonempty strings without nul are those
/// strings.
pub proof fn lemma_split_join(ss: Seq<Seq<u16>>)
    requires
        forall|i: int| 0 <= i < ss.len() ==> (#[trigger] ss[i]).len() > 0 && has_no_nul(ss[i]),
    ensures
        ({
            let buf = double_nul_buffer(ss);
            &&& buf.len() >= 2
            &&& double_nul_at(buf, buf.len() - 2)
            &&& forall|end: int| first_double_nul(buf, end) ==> strings_before(buf, end) == ss
        }),
{
    let buf = double_nul_buffer(ss);
    if ss.len() == 0 {
        assert forall|end: int| first_double_nul(buf, end) implies strings_before(buf, end)
            == ss by {
            assert(end == 0);
        }
    } else {
        lemma_terminated_shape(ss);
        let b = nul_terminated_all(ss);
        let e = b.len() - 1;
        assert(double_nul_at(buf, e));
        assert forall|end: int| first_double_nul(buf, end) implies strings_before(buf, end)
            == ss by {
            if end < e {
                assert(buf[end] == b[end] && buf[end + 1] == b[end + 1]);
                assert(!double_nul_at(b, end));
            }
            assert(end == e);
            assert(end > 0);
            assert(buf.take(end + 1) =~= b);
        }
    }
}

} // verus!
