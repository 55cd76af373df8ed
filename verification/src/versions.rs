//! Parsing of version-probe output.
//!
//! Each supported program variant is probed with its version flag; the
//! banner's last space-separated word is the version, trimmed of
//! whitespace, and for the development binary stripped of the parentheses
//! its banner puts around the revision. A probe that failed reports the
//! "unknown" sentinel instead.

use vstd::prelude::*;

verus! {

/// Version numbers of the two supported program variants, as their
/// version probes reported them.
pub struct Versions {
    /// Version of the release binary.
    pub release: String,
    /// Version of the development binary.
    pub master: String,
}

/// ASCII whitespace as the banners use it.
pub open spec fn is_ws(b: u8) -> bool {
    b == 32 || b == 9 || b == 10 || b == 13
}

/// The last space-separated word of a banner; empty when the banner ends
/// in a space, the whole banner when it holds no space.
pub open spec fn last_token_spec(s: Seq<u8>) -> Seq<u8>
    decreases s.len(),
{
    if s.len() == 0 {
        s
    } else if s.last() == 32 {
        Seq::empty()
    } else {
        last_token_spec(s.drop_last()).push(s.last())
    }
}

/// The banner with every parenthesis byte removed.
pub open spec fn strip_parens_spec(s: Seq<u8>) -> Seq<u8>
    decreases s.len(),
{
    if s.len() == 0 {
        s
    } else {
        let rest = strip_parens_spec(s.drop_last());
        if s.last() != 40 && s.last() != 41 {
            rest.push(s.last())
        } else {
            rest
        }
    }
}

/// Whitespace dropped from the front.
pub open spec fn trim_front_spec(s: Seq<u8>) -> Seq<u8>
    decreases s.len(),
{
    if s.len() > 0 && is_ws(s.first()) {
        trim_front_spec(s.drop_first())
    } else {
        s
    }
}

/// Whitespace dropped from the back.
pub open spec fn trim_back_spec(s: Seq<u8>) -> Seq<u8>
    decreases s.len(),
{
    if s.len() > 0 && is_ws(s.last()) {
        trim_back_spec(s.drop_last())
    } else {
        s
    }
}

/// Whitespace dropped from both ends.
pub open spec fn trim_spec(s: Seq<u8>) -> Seq<u8> {
    trim_back_spec(trim_front_spec(s))
}

/// The sentinel reported when a version probe failed: `unknown`.
pub open spec fn unknown_bytes() -> Seq<u8> {
    seq![117u8, 110u8, 107u8, 110u8, 111u8, 119u8, 110u8]
}

proof fn lemma_last_token_tail(s: Seq<u8>, j: int)
    requires
        0 <= j <= s.len(),
        forall|k: int| j <= k < s.len() ==> s[k] != 32,
        j == 0 || s[j - 1] == 32,
    ensures
        last_token_spec(s) == s.subrange(j, s.len() as int),
    decreases s.len(),
{
    if j == s.len() {
        if s.len() == 0 {
            assert(s.subrange(0, 0) =~= s);
        } else {
            assert(s.last() == 32);
            assert(s.subrange(j, s.len() as int) =~= Seq::<u8>::empty());
        }
    } else {
        let sl = s.drop_last();
        assert(s.last() != 32);
        lemma_last_token_tail(sl, j);
        assert(sl.subrange(j, sl.len() as int).push(s.last()) =~= s.subrange(
            j,
            s.len() as int,
        ));
    }
}

proof fn lemma_trim_front_at(s: Seq<u8>, i: int)
    requires
        0 <= i <= s.len(),
        forall|k: int| 0 <= k < i ==> is_ws(s[k]),
        i == s.len() || !is_ws(s[i]),
    ensures
        trim_front_spec(s) == s.subrange(i, s.len() as int),
    decreases i,
{
    if i == 0 {
        assert(s.subrange(0, s.len() as int) =~= s);
    } else {
        let sd = s.drop_first();
        assert(is_ws(s.first()));
        lemma_trim_front_at(sd, i - 1);
        assert(sd.subrange(i - 1, sd.len() as int) =~= s.subrange(i, s.len() as int));
    }
}

proof fn lemma_trim_back_at(s: Seq<u8>, j: int)
    requires
        0 <= j <= s.len(),
        forall|k: int| j <= k < s.len() ==> is_ws(s[k]),
        j == 0 || !is_ws(s[j - 1]),
    ensures
        trim_back_spec(s) == s.subrange(0, j),
    decreases s.len(),
{
    if j == s.len() {
        assert(s.subrange(0, j) =~= s);
    } else {
        let sl = s.drop_last();
        assert(is_ws(s.last()));
        lemma_trim_back_at(sl, j);
        assert(sl.subrange(0, j) =~= s.subrange(0, j));
    }
}

/// Copy `s[from..to]` into a fresh vector.
fn copy_range(s: &[u8], from: usize, to: usize) -> (r: Vec<u8>)
    requires
        from <= to <= s@.len(),
    ensures
        r@ == s@.subrange(from as int, to as int),
{
    vstd::slice::slice_to_vec(vstd::slice::slice_subrange(s, from, to))
}

/// Take the last space-separated word of a banner.
fn last_token(s: &[u8]) -> (r: Vec<u8>)
    ensures
        r@ == last_token_spec(s@),
{
    let mut j: usize = s.len();
    while j > 0 && s[j - 1] != 32
        invariant
            j <= s@.len(),
            forall|k: int| j <= k < s@.len() ==> s@[k] != 32,
        decreases j,
    {
        j -= 1;
    }
    proof {
        lemma_last_token_tail(s@, j as int);
    }
    copy_range(s, j, s.len())
}

/// Drop every parenthesis byte of a banner.
fn strip_parens(s: &[u8]) -> (r: Vec<u8>)
    ensures
        r@ == strip_parens_spec(s@),
{
    let mut out: Vec<u8> = Vec::new();
    let mut i: usize = 0;
    while i < s.len()
        invariant
            i <= s@.len(),
            out@ == strip_parens_spec(s@.subrange(0, i as int)),
        decreases s@.len() - i,
    {
        let b = s[i];
        proof {
            assert(s@.subrange(0, i as int + 1).drop_last() =~= s@.subrange(0, i as int));
            assert(s@.subrange(0, i as int + 1).last() == s@[i as int]);
        }
        if b != 40 && b != 41 {
            out.push(b);
        }
        i += 1;
    }
    proof {
        assert(s@.subrange(0, s@.len() as int) =~= s@);
    }
    out
}

/// Trim ASCII whitespace from both ends of a banner word.
fn trim_ws(s: &[u8]) -> (r: Vec<u8>)
    ensures
        r@ == trim_spec(s@),
{
    let mut i: usize = 0;
    while i < s.len() && (s[i] == 32 || s[i] == 9 || s[i] == 10 || s[i] == 13)
        invariant
            i <= s@.len(),
            forall|k: int| 0 <= k < i ==> is_ws(s@[k]),
        decreases s@.len() - i,
    {
        i += 1;
    }
    proof {
        lemma_trim_front_at(s@, i as int);
    }
    if i == s.len() {
        proof {
            assert(s@.subrange(i as int, s@.len() as int) =~= Seq::<u8>::empty());
        }
        return Vec::new();
    }
    let mut j: usize = s.len();
    while j > i && (s[j - 1] == 32 || s[j - 1] == 9 || s[j - 1] == 10 || s[j - 1] == 13)
        invariant
            i <= j <= s@.len(),
            forall|k: int| j <= k < s@.len() ==> is_ws(s@[k]),
        decreases j,
    {
        j -= 1;
    }
    proof {
        let t = s@.subrange(i as int, s@.len() as int);
        assert(forall|k: int| j - i <= k < t.len() ==> is_ws(#[trigger] t[k]));
        lemma_trim_back_at(t, j as int - i as int);
        assert(t.subrange(0, j as int - i as int) =~= s@.subrange(i as int, j as int));
    }
    copy_range(s, i, j)
}

fn unknown_vec() -> (r: Vec<u8>)
    ensures
        r@ == unknown_bytes(),
{
    let mut v: Vec<u8> = Vec::new();
    v.push(117);
    v.push(110);
    v.push(107);
    v.push(110);
    v.push(111);
    v.push(119);
    v.push(110);
    proof {
        assert(v@ =~= unknown_bytes());
    }
    v
}

/// The version word of the release binary's banner: the last
/// space-separated word, trimmed; the `unknown` sentinel when the probe
/// failed.
pub fn release_version(probe: Option<&[u8]>) -> (r: Vec<u8>)
    ensures
        match probe {
            Some(out) => r@ == trim_spec(last_token_spec(out@)),
            None => r@ == unknown_bytes(),
        },
{
    match probe {
        Some(out) => {
            let t = last_token(out);
            trim_ws(t.as_slice())
        },
        None => unknown_vec(),
    }
}

/// The version word of the development binary's banner: the last
/// space-separated word with its parentheses dropped, trimmed; the
/// `unknown` sentinel when the probe failed.
pub fn master_version(probe: Option<&[u8]>) -> (r: Vec<u8>)
    ensures
        match probe {
            Some(out) => r@ == trim_spec(strip_parens_spec(last_token_spec(out@))),
            None => r@ == unknown_bytes(),
        },
{
    match probe {
        Some(out) => {
            let t = last_token(out);
            let u = strip_parens(t.as_slice());
            trim_ws(u.as_slice())
        },
        None => unknown_vec(),
    }
}

} // verus!
