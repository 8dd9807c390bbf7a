//! Language and locale identifier macros of `<winnt.h>`.
#![allow(non_snake_case)]

use vstd::prelude::*;

verus! {

/// Builds a language identifier from a primary and a sub-language identifier.
pub fn MAKELANGID(p: u16, s: u16) -> (r: u16)
    ensures
        r == ((s << 10u16) | p),
{
    (s << 10) | p
}

/// The primary language part of a language identifier: its low ten bits.
pub fn PRIMARYLANGID(lgid: u16) -> (r: u16)
    ensures
        r == lgid & 0x3ffu16,
        r == lgid % 1024,
{
    let r = lgid & 0x3ff;
    assert(lgid & 0x3ffu16 == lgid % 1024) by (bit_vector);
    r
}

/// The sub-language part of a language identifier: its high six bits.
pub fn SUBLANGID(lgid: u16) -> (r: u16)
    ensures
        r == lgid >> 10u16,
        r == lgid / 1024,
{
    let r = lgid >> 10;
    assert(lgid >> 10u16 == lgid / 1024) by (bit_vector);
    r
}

/// Builds a locale identifier from a language identifier and a sort identifier.
pub fn MAKELCID(lgid: u16, srtid: u16) -> (r: u32)
    ensures
        r == (((srtid as u32) << 16u32) | (lgid as u32)),
        r == srtid * 65536 + lgid,
{
    let r = ((srtid as u32) << 16) | (lgid as u32);
    assert((((srtid as u32) << 16u32) | (lgid as u32)) == srtid * 65536 + lgid) by (bit_vector);
    r
}

/// Builds a locale identifier that also carries a sort version.
pub fn MAKESORTLCID(lgid: u16, srtid: u16, ver: u16) -> (r: u32)
    ensures
        r == ((((srtid as u32) << 16u32) | (lgid as u32)) | ((ver as u32) << 20u32)),
{
    MAKELCID(lgid, srtid) | ((ver as u32) << 20)
}

/// The language identifier of a locale identifier: its low sixteen bits.
pub fn LANGIDFROMLCID(lcid: u32) -> (r: u16)
    ensures
        r == lcid % 65536,
{
    let r = lcid as u16;
    assert(lcid as u16 == lcid % 65536) by (bit_vector);
    r
}

/// The sort identifier of a locale identifier: bits sixteen to nineteen.
pub fn SORTIDFROMLCID(lcid: u32) -> (r: u16)
    ensures
        r == (lcid / 65536) % 16,
{
    let r = ((lcid >> 16) & 0xf) as u16;
    assert(((lcid >> 16u32) & 0xfu32) as u16 == (lcid / 65536) % 16) by (bit_vector);
    r
}

/// The sort version of a locale identifier: bits twenty to twenty-three.
pub fn SORTVERSIONFROMLCID(lcid: u32) -> (r: u16)
    ensures
        r == (lcid / 0x10_0000) % 16,
{
    let r = ((lcid >> 20) & 0xf) as u16;
    assert(((lcid >> 20u32) & 0xfu32) as u16 == (lcid / 0x10_0000) % 16) by (bit_vector);
    r
}

/// A language identifier built from a primary language below 1024 and a sub-language below 64
/// gives both parts back.
pub proof fn lemma_langid_roundtrip(p: u16, s: u16)
    requires
        p < 1024,
        s < 64,
    ensures
        (((s << 10u16) | p) & 0x3ffu16) == p,
        (((s << 10u16) | p) >> 10u16) == s,
{
    assert((((s << 10u16) | p) & 0x3ffu16) == p) by (bit_vector)
        requires p < 1024u16, s < 64u16;
    assert((((s << 10u16) | p) >> 10u16) == s) by (bit_vector)
        requires p < 1024u16, s < 64u16;
}

/// A locale identifier gives back the language identifier it was built from.
pub proof fn lemma_lcid_roundtrip(lgid: u16, srtid: u16)
    requires
        srtid < 16,
    ensures
        (srtid * 65536 + lgid) % 65536 == lgid,
        ((srtid * 65536 + lgid) / 65536) % 16 == srtid,
{
}

/// Law: a locale identifier built with a sort identifier and a sort version below sixteen
/// gives back its language identifier, its sort identifier and its sort version.
pub proof fn lemma_sort_lcid_roundtrip(lgid: u16, srtid: u16, ver: u16)
    requires
        srtid < 16,
        ver < 16,
    ensures
        ({
            let lcid = (((srtid as u32) << 16u32) | (lgid as u32)) | ((ver as u32) << 20u32);
            &&& lcid % 65536 == lgid
            &&& (lcid / 65536) % 16 == srtid
            &&& (lcid / 0x10_0000) % 16 == ver
        }),
{
    assert(({
        let lcid = (((srtid as u32) << 16u32) | (lgid as u32)) | ((ver as u32) << 20u32);
        &&& lcid % 65536 == lgid
        &&& (lcid / 65536) % 16 == srtid
        &&& (lcid / 0x10_0000) % 16 == ver
    })) by (bit_vector)
        requires
            srtid < 16u16,
            ver < 16u16,
    ;
}

} // verus!
