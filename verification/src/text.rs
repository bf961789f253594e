//! Byte-level text utilities shared by the configuration rewriter and the
//! console: ASCII trimming, prefix tests, byte search, and rendering of
//! decimal numbers.
use vstd::prelude::*;
use vstd::string::StrSliceExecFns;
use vstd::string::StringSliceAdditionalSpecFns;

verus! {

/// The bytes of an ASCII string literal, character by character.
pub open spec fn ascii(s: Seq<char>) -> Seq<u8> {
    Seq::new(s.len(), |i: int| s[i] as u8)
}

/// A byte counts as whitespace when trimming a line: horizontal tab through
/// carriage return, and space.
pub open spec fn spec_is_ws(b: u8) -> bool {
    b == 9 || b == 10 || b == 11 || b == 12 || b == 13 || b == 32
}

pub fn is_ws(b: u8) -> (r: bool)
    ensures
        r == spec_is_ws(b),
{
    b == 9 || b == 10 || b == 11 || b == 12 || b == 13 || b == 32
}

/// `s` without its leading whitespace.
pub open spec fn spec_trim_start(s: Seq<u8>) -> Seq<u8>
    decreases s.len(),
{
    if s.len() == 0 {
        s
    } else if spec_is_ws(s[0]) {
        spec_trim_start(s.drop_first())
    } else {
        s
    }
}

/// `s` without its trailing whitespace.
pub open spec fn spec_trim_end(s: Seq<u8>) -> Seq<u8>
    decreases s.len(),
{
    if s.len() == 0 {
        s
    } else if spec_is_ws(s.last()) {
        spec_trim_end(s.drop_last())
    } else {
        s
    }
}

/// `s` without surrounding whitespace.
pub open spec fn spec_trim(s: Seq<u8>) -> Seq<u8> {
    spec_trim_end(spec_trim_start(s))
}

proof fn lemma_trim_start_skip(s: Seq<u8>, k: int)
    requires
        0 <= k <= s.len(),
        forall|i: int| 0 <= i < k ==> spec_is_ws(s[i]),
        k < s.len() ==> !spec_is_ws(s[k]),
    ensures
        spec_trim_start(s) == s.skip(k),
    decreases k,
{
    if k == 0 {
        assert(s.skip(0) =~= s);
    } else {
        let t = s.drop_first();
        assert(forall|i: int| 0 <= i < k - 1 ==> spec_is_ws(t[i]));
        lemma_trim_start_skip(t, k - 1);
        assert(t.skip(k - 1) =~= s.skip(k));
    }
}

proof fn lemma_trim_end_take(s: Seq<u8>, k: int)
    requires
        0 <= k <= s.len(),
        forall|i: int| k <= i < s.len() ==> spec_is_ws(s[i]),
        k > 0 ==> !spec_is_ws(s[k - 1]),
    ensures
        spec_trim_end(s) == s.take(k),
    decreases s.len() - k,
{
    if k == s.len() {
        if s.len() == 0 {
            assert(s.take(0) =~= s);
        } else {
            assert(s.take(k) =~= s);
        }
    } else {
        let t = s.drop_last();
        assert(forall|i: int| k <= i < t.len() ==> spec_is_ws(t[i]));
        lemma_trim_end_take(t, k);
        assert(t.take(k) =~= s.take(k));
    }
}

/// Copy of `v` with surrounding whitespace removed.
pub fn trim(v: &Vec<u8>) -> (r: Vec<u8>)
    ensures
        r@ == spec_trim(v@),
{
    let n = v.len();
    let mut lo: usize = 0;
    while lo < n && is_ws(v[lo])
        invariant
            0 <= lo <= n,
            n == v.len(),
            forall|i: int| 0 <= i < lo ==> spec_is_ws(v@[i]),
        decreases n - lo,
    {
        lo = lo + 1;
    }
    proof {
        lemma_trim_start_skip(v@, lo as int);
    }
    let mut hi: usize = n;
    while hi > lo && is_ws(v[hi - 1])
        invariant
            lo <= hi <= n,
            n == v.len(),
            lo < n ==> !spec_is_ws(v@[lo as int]),
            forall|i: int| hi <= i < n ==> spec_is_ws(v@[i]),
        decreases hi,
    {
        hi = hi - 1;
    }
    let mut r: Vec<u8> = Vec::new();
    let mut i: usize = lo;
    while i < hi
        invariant
            lo <= i <= hi <= n,
            n == v.len(),
            r@ == v@.subrange(lo as int, i as int),
        decreases hi - i,
    {
        r.push(v[i]);
        proof {
            assert(v@.subrange(lo as int, i + 1 as int) =~= v@.subrange(
                lo as int,
                i as int,
            ).push(v@[i as int]));
        }
        i = i + 1;
    }
    proof {
        let t = v@.skip(lo as int);
        assert(forall|j: int| hi - lo <= j < t.len() ==> spec_is_ws(t[j]));
        lemma_trim_end_take(t, hi - lo);
        assert(r@ =~= t.take(hi - lo));
    }
    r
}

/// `p` is a prefix of `s`.
pub open spec fn spec_starts_with(s: Seq<u8>, p: Seq<u8>) -> bool {
    p.len() <= s.len() && s.take(p.len() as int) == p
}

pub fn starts_with(v: &Vec<u8>, p: &Vec<u8>) -> (r: bool)
    ensures
        r == spec_starts_with(v@, p@),
{
    if p.len() > v.len() {
        return false;
    }
    let mut i: usize = 0;
    while i < p.len()
        invariant
            0 <= i <= p.len() <= v.len(),
            forall|j: int| 0 <= j < i ==> v@[j] == p@[j],
        decreases p.len() - i,
    {
        if v[i] != p[i] {
            proof {
                assert(v@.take(p@.len() as int)[i as int] != p@[i as int]);
            }
            return false;
        }
        i = i + 1;
    }
    proof {
        assert(v@.take(p@.len() as int) =~= p@);
    }
    true
}

pub fn bytes_eq(a: &Vec<u8>, b: &Vec<u8>) -> (r: bool)
    ensures
        r == (a@ == b@),
{
    if a.len() != b.len() {
        return false;
    }
    let mut i: usize = 0;
    while i < a.len()
        invariant
            0 <= i <= a.len() == b.len(),
            forall|j: int| 0 <= j < i ==> a@[j] == b@[j],
        decreases a.len() - i,
    {
        if a[i] != b[i] {
            return false;
        }
        i = i + 1;
    }
    proof {
        assert(a@ =~= b@);
    }
    true
}

/// Index of the first occurrence of `b` in `s`, if any.
pub open spec fn spec_find(s: Seq<u8>, b: u8) -> Option<int>
    decreases s.len(),
{
    if s.len() == 0 {
        Option::None
    } else if s[0] == b {
        Option::Some(0int)
    } else {
        match spec_find(s.drop_first(), b) {
            Option::None => Option::None,
            Option::Some(i) => Option::Some(i + 1),
        }
    }
}

/// What `spec_find` returns: the position it names holds `b` and nothing
/// before it does; `None` means `b` does not occur at all.
pub proof fn lemma_find(s: Seq<u8>, b: u8)
    ensures
        match spec_find(s, b) {
            Option::Some(i) => 0 <= i < s.len() && s[i] == b && (forall|j: int|
                0 <= j < i ==> s[j] != b),
            Option::None => forall|j: int| 0 <= j < s.len() ==> s[j] != b,
        },
    decreases s.len(),
{
    if s.len() > 0 && s[0] != b {
        let t = s.drop_first();
        lemma_find(t, b);
        assert(forall|j: int| 1 <= j < s.len() ==> s[j] == t[j - 1]);
        match spec_find(t, b) {
            Option::Some(i) => {
                assert(s[i + 1] == t[i]);
            },
            Option::None => {},
        }
    }
}

/// Append every byte of `src` to `dst`.
pub fn push_all(dst: &mut Vec<u8>, src: &Vec<u8>)
    ensures
        final(dst)@ == old(dst)@ + src@,
{
    let mut i: usize = 0;
    while i < src.len()
        invariant
            0 <= i <= src.len(),
            dst@ == old(dst)@ + src@.take(i as int),
        decreases src.len() - i,
    {
        dst.push(src[i]);
        proof {
            assert(old(dst)@ + src@.take(i + 1 as int) =~= (old(dst)@ + src@.take(
                i as int,
            )).push(src@[i as int]));
        }
        i = i + 1;
    }
    proof {
        assert(src@.take(src@.len() as int) =~= src@);
    }
}

/// The bytes `v[a..b]`, as a fresh vector.
pub fn subvec(v: &Vec<u8>, a: usize, b: usize) -> (r: Vec<u8>)
    requires
        a <= b <= v@.len(),
    ensures
        r@ == v@.subrange(a as int, b as int),
{
    let mut r: Vec<u8> = Vec::new();
    let mut i: usize = a;
    while i < b
        invariant
            a <= i <= b <= v@.len(),
            r@ == v@.subrange(a as int, i as int),
        decreases b - i,
    {
        r.push(v[i]);
        proof {
            assert(v@.subrange(a as int, i + 1 as int) =~= v@.subrange(
                a as int,
                i as int,
            ).push(v@[i as int]));
        }
        i = i + 1;
    }
    r
}

/// A fresh copy of `v`.
pub fn copy_bytes(v: &Vec<u8>) -> (r: Vec<u8>)
    ensures
        r@ == v@,
{
    let mut r: Vec<u8> = Vec::new();
    push_all(&mut r, v);
    proof {
        assert(Seq::<u8>::empty() + v@ =~= v@);
    }
    r
}

pub fn find_byte(v: &Vec<u8>, b: u8) -> (r: Option<usize>)
    ensures
        match r {
            Option::Some(i) => i < v@.len() && spec_find(v@, b) == Option::Some(i as int),
            Option::None => spec_find(v@, b) is None,
        },
{
    proof {
        lemma_find(v@, b);
    }
    let mut i: usize = 0;
    while i < v.len()
        invariant
            0 <= i <= v.len(),
            forall|j: int| 0 <= j < i ==> v@[j] != b,
            match spec_find(v@, b) {
                Option::Some(k) => 0 <= k < v@.len() && v@[k] == b && (forall|j: int|
                    0 <= j < k ==> v@[j] != b),
                Option::None => forall|j: int| 0 <= j < v@.len() ==> v@[j] != b,
            },
        decreases v.len() - i,
    {
        if v[i] == b {
            return Option::Some(i);
        }
        i = i + 1;
    }
    Option::None
}

/// A UTF-8 continuation byte.
pub open spec fn spec_is_cont(b: u8) -> bool {
    128 <= b <= 191
}

/// The bytes form well-formed UTF-8: ASCII passes through, multi-byte
/// sequences must be complete, not overlong, and must not encode surrogates
/// or code points past U+10FFFF.
pub open spec fn spec_decodable(s: Seq<u8>) -> bool
    decreases s.len(),
{
    if s.len() == 0 {
        true
    } else {
        let b0 = s[0];
        if b0 < 128 {
            spec_decodable(s.drop_first())
        } else if 194 <= b0 <= 223 {
            s.len() >= 2 && spec_is_cont(s[1]) && spec_decodable(s.skip(2))
        } else if b0 == 224 {
            s.len() >= 3 && 160 <= s[1] <= 191 && spec_is_cont(s[2]) && spec_decodable(s.skip(3))
        } else if 225 <= b0 <= 236 || b0 == 238 || b0 == 239 {
            s.len() >= 3 && spec_is_cont(s[1]) && spec_is_cont(s[2]) && spec_decodable(s.skip(3))
        } else if b0 == 237 {
            s.len() >= 3 && 128 <= s[1] <= 159 && spec_is_cont(s[2]) && spec_decodable(s.skip(3))
        } else if b0 == 240 {
            s.len() >= 4 && 144 <= s[1] <= 191 && spec_is_cont(s[2]) && spec_is_cont(s[3])
                && spec_decodable(s.skip(4))
        } else if 241 <= b0 <= 243 {
            s.len() >= 4 && spec_is_cont(s[1]) && spec_is_cont(s[2]) && spec_is_cont(s[3])
                && spec_decodable(s.skip(4))
        } else if b0 == 244 {
            s.len() >= 4 && 128 <= s[1] <= 143 && spec_is_cont(s[2]) && spec_is_cont(s[3])
                && spec_decodable(s.skip(4))
        } else {
            false
        }
    }
}

fn is_cont(b: u8) -> (r: bool)
    ensures
        r == spec_is_cont(b),
{
    128 <= b && b <= 191
}

/// Whether `v` decodes as text: the executable counterpart of
/// `spec_decodable`.
pub fn is_decodable(v: &Vec<u8>) -> (r: bool)
    ensures
        r == spec_decodable(v@),
{
    let n = v.len();
    let mut i: usize = 0;
    proof {
        assert(v@.skip(0) =~= v@);
    }
    while i < n
        invariant
            0 <= i <= n,
            n == v.len(),
            spec_decodable(v@) == spec_decodable(v@.skip(i as int)),
        decreases n - i,
    {
        let ghost s = v@.skip(i as int);
        proof {
            assert(s[0] == v@[i as int]);
            assert(forall|j: int| 0 < j < s.len() ==> s[j] == v@[i + j]);
        }
        let b0 = v[i];
        let left = n - i;
        if b0 < 128 {
            proof {
                assert(s.drop_first() =~= v@.skip(i + 1));
            }
            i = i + 1;
        } else if 194 <= b0 && b0 <= 223 {
            if left < 2 || !is_cont(v[i + 1]) {
                return false;
            }
            proof {
                assert(s.skip(2) =~= v@.skip(i + 2));
            }
            i = i + 2;
        } else if 224 <= b0 && b0 <= 239 {
            if left < 3 {
                return false;
            }
            let b1 = v[i + 1];
            let ok1 = if b0 == 224 {
                160 <= b1 && b1 <= 191
            } else if b0 == 237 {
                128 <= b1 && b1 <= 159
            } else {
                is_cont(b1)
            };
            if !ok1 || !is_cont(v[i + 2]) {
                return false;
            }
            proof {
                assert(s.skip(3) =~= v@.skip(i + 3));
            }
            i = i + 3;
        } else if 240 <= b0 && b0 <= 244 {
            if left < 4 {
                return false;
            }
            let b1 = v[i + 1];
            let ok1 = if b0 == 240 {
                144 <= b1 && b1 <= 191
            } else if b0 == 244 {
                128 <= b1 && b1 <= 143
            } else {
                is_cont(b1)
            };
            if !ok1 || !is_cont(v[i + 2]) || !is_cont(v[i + 3]) {
                return false;
            }
            proof {
                assert(s.skip(4) =~= v@.skip(i + 4));
            }
            i = i + 4;
        } else {
            return false;
        }
    }
    proof {
        assert(v@.skip(n as int) =~= Seq::<u8>::empty());
    }
    true
}

/// The decimal digits of `n`, most significant first.
pub open spec fn spec_udec(n: nat) -> Seq<u8>
    decreases n,
{
    if n < 10 {
        seq![(48 + n) as u8]
    } else {
        spec_udec(n / 10) + seq![(48 + n % 10) as u8]
    }
}

/// The decimal rendering of `n`, with a leading minus sign when negative.
pub open spec fn spec_idec(n: int) -> Seq<u8> {
    if n < 0 {
        seq![45u8] + spec_udec((-n) as nat)
    } else {
        spec_udec(n as nat)
    }
}

fn udec_u32(m: u32) -> (r: Vec<u8>)
    ensures
        r@ == spec_udec(m as nat),
{
    let mut tmp: Vec<u8> = Vec::new();
    let mut x = m;
    proof {
        assert(tmp@.reverse() =~= Seq::<u8>::empty());
        assert(spec_udec(m as nat) + Seq::<u8>::empty() =~= spec_udec(m as nat));
    }
    while x >= 10
        invariant
            spec_udec(m as nat) == spec_udec(x as nat) + tmp@.reverse(),
        decreases x,
    {
        let d = (x % 10) as u8 + 48;
        proof {
            assert(tmp@.push(d).reverse() =~= seq![d] + tmp@.reverse());
            assert(spec_udec((x / 10) as nat) + seq![d] + tmp@.reverse() =~= spec_udec(
                (x / 10) as nat,
            ) + (seq![d] + tmp@.reverse()));
            assert(spec_udec(x as nat) == spec_udec((x / 10) as nat) + seq![d]);
        }
        tmp.push(d);
        x = x / 10;
    }
    let d = x as u8 + 48;
    proof {
        assert(tmp@.push(d).reverse() =~= seq![d] + tmp@.reverse());
        assert(spec_udec(x as nat) == seq![d]);
    }
    tmp.push(d);
    let mut r: Vec<u8> = Vec::new();
    let mut i: usize = tmp.len();
    while i > 0
        invariant
            0 <= i <= tmp.len(),
            r@ =~= tmp@.reverse().take(tmp@.len() - i),
        decreases i,
    {
        r.push(tmp[i - 1]);
        proof {
            assert(tmp@.reverse().take(tmp@.len() - (i - 1)) =~= tmp@.reverse().take(
                tmp@.len() - i,
            ).push(tmp@[i - 1]));
        }
        i = i - 1;
    }
    proof {
        assert(tmp@.reverse().take(tmp@.len() as int) =~= tmp@.reverse());
    }
    r
}

/// Render `n` in decimal, as the bytes of the usual base-ten notation.
pub fn i32_dec(n: i32) -> (r: Vec<u8>)
    ensures
        r@ == spec_idec(n as int),
{
    if n < 0 {
        let mag: u32 = (-(n as i64)) as u32;
        proof {
            assert(mag as int == -(n as int));
        }
        let mut r: Vec<u8> = Vec::new();
        r.push(45);
        let digits = udec_u32(mag);
        push_all(&mut r, &digits);
        proof {
            assert(Seq::<u8>::empty().push(45u8) + digits@ =~= seq![45u8] + spec_udec(mag as nat));
        }
        r
    } else {
        udec_u32(n as u32)
    }
}

/// The bytes of an ASCII string slice, as a vector.
pub fn lit_bytes(s: &str) -> (r: Vec<u8>)
    requires
        s.is_ascii(),
    ensures
        r@ == ascii(s@),
{
    proof {
        broadcast use vstd::string::is_ascii_spec_bytes;

        assert(s.spec_bytes() =~= ascii(s@));
    }
    s.as_bytes_vec()
}

} // verus!
