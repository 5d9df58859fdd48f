//! Character-level helpers shared by the parsing and rendering code.
//!
//! The library works on `Vec<char>` internally so that every scan is a plain
//! indexed loop; these helpers convert between `&str`/`String` and `Vec<char>`
//! and give the character classes their specifications.
use vstd::prelude::*;

verus! {

/// Is `c` an ASCII decimal digit?
pub open spec fn spec_is_digit(c: char) -> bool {
    48 <= c as u32 && c as u32 <= 57
}

/// The numeric value of a digit character.
pub open spec fn digit_of(c: char) -> int {
    c as u32 - 48
}

/// Is `c` ASCII whitespace (the characters our trimming removes)?
pub open spec fn spec_is_space(c: char) -> bool {
    c as u32 == 32 || c as u32 == 9 || c as u32 == 10 || c as u32 == 13
}

/// `c` with an ASCII upper-case letter mapped to lower case.
pub open spec fn spec_lower(c: char) -> int {
    if 65 <= c as u32 && c as u32 <= 90 {
        c as u32 + 32
    } else {
        c as u32 as int
    }
}

pub fn is_digit(c: char) -> (r: bool)
    ensures
        r == spec_is_digit(c),
{
    let u = c as u32;
    48 <= u && u <= 57
}

pub fn is_space(c: char) -> (r: bool)
    ensures
        r == spec_is_space(c),
{
    let u = c as u32;
    u == 32 || u == 9 || u == 10 || u == 13
}

pub fn lower(c: char) -> (r: u32)
    ensures
        r == spec_lower(c),
{
    let u = c as u32;
    if 65 <= u && u <= 90 {
        u + 32
    } else {
        u
    }
}

/// The characters of `s`, in order.
pub fn chars_of(s: &str) -> (r: Vec<char>)
    ensures
        r@ == s@,
{
    let n = s.unicode_len();
    let mut r: Vec<char> = Vec::new();
    let mut i: usize = 0;
    while i < n
        invariant
            n == s@.len(),
            i <= n,
            r@ == s@.take(i as int),
        decreases n - i,
    {
        let c = s.get_char(i);
        r.push(c);
        i = i + 1;
        proof {
            assert(r@ =~= s@.take(i as int));
        }
    }
    proof {
        assert(r@ =~= s@);
    }
    r
}

/// Relies on std's `String::push`: appends exactly the one character.
#[verifier::external_body]
fn push_char(s: &mut String, c: char)
    ensures
        final(s)@ == old(s)@.push(c),
{
    s.push(c)
}

/// A `String` whose characters are those of `v`.
pub fn string_of(v: &Vec<char>) -> (r: String)
    ensures
        r@ == v@,
{
    let mut r = String::new();
    let mut i: usize = 0;
    while i < v.len()
        invariant
            i <= v@.len(),
            r@ == v@.take(i as int),
        decreases v@.len() - i,
    {
        push_char(&mut r, v[i]);
        i = i + 1;
        proof {
            assert(r@ =~= v@.take(i as int));
        }
    }
    proof {
        assert(r@ =~= v@);
    }
    r
}

/// Do the characters of `v` spell exactly `s`?
pub fn chars_eq_str(v: &Vec<char>, s: &str) -> (r: bool)
    ensures
        r == (v@ == s@),
{
    let n = s.unicode_len();
    if v.len() != n {
        proof {
            assert(v@ != s@);
        }
        return false;
    }
    let mut i: usize = 0;
    while i < n
        invariant
            n == s@.len(),
            v@.len() == n,
            i <= n,
            forall|j: int| 0 <= j < i ==> v@[j] == s@[j],
        decreases n - i,
    {
        if v[i] != s.get_char(i) {
            return false;
        }
        i = i + 1;
    }
    proof {
        assert(v@ =~= s@);
    }
    true
}

/// `s` without leading and trailing ASCII whitespace.
pub open spec fn spec_trim(s: Seq<char>) -> Seq<char>
    decreases s.len(),
{
    if s.len() == 0 {
        s
    } else if spec_is_space(s[0]) {
        spec_trim(s.skip(1))
    } else if spec_is_space(s.last()) {
        spec_trim(s.take(s.len() - 1))
    } else {
        s
    }
}

/// The trimmed sequence is what lies between the first and last non-space
/// characters.
proof fn lemma_trim_bounds(s: Seq<char>, lo: int, hi: int)
    requires
        0 <= lo <= hi <= s.len(),
        forall|j: int| 0 <= j < lo ==> spec_is_space(s[j]),
        forall|j: int| hi <= j < s.len() ==> spec_is_space(s[j]),
        lo < hi ==> !spec_is_space(s[lo]),
        lo < hi ==> !spec_is_space(s[hi - 1]),
    ensures
        spec_trim(s) =~= s.subrange(lo, hi),
    decreases s.len(),
{
    if s.len() == 0 {
    } else if spec_is_space(s[0]) {
        if lo < hi {
            lemma_trim_bounds(s.skip(1), lo - 1, hi - 1);
            assert(s.skip(1).subrange(lo - 1, hi - 1) =~= s.subrange(lo, hi));
        } else {
            lemma_trim_bounds(s.skip(1), 0, 0);
            assert(s.skip(1).subrange(0, 0) =~= s.subrange(lo, hi));
        }
    } else if spec_is_space(s.last()) {
        lemma_trim_bounds(s.take(s.len() - 1), lo, hi);
        assert(s.take(s.len() - 1).subrange(lo, hi) =~= s.subrange(lo, hi));
    } else {
        assert(lo == 0 && hi == s.len());
        assert(s.subrange(0, s.len() as int) =~= s);
    }
}

/// The subrange of `v` between the first and last non-space characters,
/// which is exactly `spec_trim` of the whole.
pub fn trim_chars(v: &Vec<char>) -> (r: Vec<char>)
    ensures
        r@ == spec_trim(v@),
{
    let n = v.len();
    let mut lo: usize = 0;
    while lo < n && is_space(v[lo])
        invariant
            n == v@.len(),
            lo <= n,
            forall|j: int| 0 <= j < lo ==> spec_is_space(v@[j]),
        decreases n - lo,
    {
        lo = lo + 1;
    }
    let mut hi: usize = n;
    while hi > lo && is_space(v[hi - 1])
        invariant
            n == v@.len(),
            lo <= hi <= n,
            forall|j: int| 0 <= j < lo ==> spec_is_space(v@[j]),
            forall|j: int| hi <= j < n ==> spec_is_space(v@[j]),
            lo == n || !spec_is_space(v@[lo as int]),
        decreases hi,
    {
        hi = hi - 1;
    }
    proof {
        lemma_trim_bounds(v@, lo as int, hi as int);
    }
    let mut r: Vec<char> = Vec::new();
    let mut i: usize = lo;
    while i < hi
        invariant
            n == v@.len(),
            lo <= i <= hi <= n,
            r@ == v@.subrange(lo as int, i as int),
            spec_trim(v@) == v@.subrange(lo as int, hi as int),
        decreases hi - i,
    {
        r.push(v[i]);
        i = i + 1;
        proof {
            assert(r@ =~= v@.subrange(lo as int, i as int));
        }
    }
    r
}

/// Are two string slices the same sequence of characters?
pub fn str_eq(a: &str, b: &str) -> (r: bool)
    ensures
        r == (a@ == b@),
{
    let n = a.unicode_len();
    if b.unicode_len() != n {
        return false;
    }
    let mut i: usize = 0;
    while i < n
        invariant
            n == a@.len(),
            b@.len() == n,
            i <= n,
            forall|j: int| 0 <= j < i ==> a@[j] == b@[j],
        decreases n - i,
    {
        if a.get_char(i) != b.get_char(i) {
            return false;
        }
        i = i + 1;
    }
    proof {
        assert(a@ =~= b@);
    }
    true
}

/// Appends the characters `v[from..to]` to `out`.
pub fn extend_range(out: &mut Vec<char>, v: &Vec<char>, from: usize, to: usize)
    requires
        from <= to <= v@.len(),
    ensures
        final(out)@ == old(out)@ + v@.subrange(from as int, to as int),
{
    let mut j: usize = from;
    while j < to
        invariant
            from <= j <= to <= v@.len(),
            out@ == old(out)@ + v@.subrange(from as int, j as int),
        decreases to - j,
    {
        out.push(v[j]);
        j = j + 1;
        proof {
            assert(out@ =~= old(out)@ + v@.subrange(from as int, j as int));
        }
    }
    proof {
        assert(out@ =~= old(out)@ + v@.subrange(from as int, to as int));
    }
}

/// Appends all of `s`'s characters to `out`.
pub fn append_str(out: &mut Vec<char>, s: &str)
    ensures
        final(out)@ == old(out)@ + s@,
{
    let n = s.unicode_len();
    let mut j: usize = 0;
    while j < n
        invariant
            n == s@.len(),
            j <= n,
            out@ == old(out)@ + s@.take(j as int),
        decreases n - j,
    {
        out.push(s.get_char(j));
        j = j + 1;
        proof {
            assert(out@ =~= old(out)@ + s@.take(j as int));
        }
    }
    proof {
        assert(out@ =~= old(out)@ + s@);
    }
}

/// Does `s` start with `prefix`?
pub fn starts_with(s: &str, prefix: &str) -> (r: bool)
    ensures
        r == (prefix@.len() <= s@.len() && prefix@ == s@.take(prefix@.len() as int)),
{
    let n = prefix.unicode_len();
    if s.unicode_len() < n {
        return false;
    }
    let mut i: usize = 0;
    while i < n
        invariant
            n == prefix@.len(),
            n <= s@.len(),
            i <= n,
            forall|j: int| 0 <= j < i ==> prefix@[j] == s@[j],
        decreases n - i,
    {
        if prefix.get_char(i) != s.get_char(i) {
            return false;
        }
        i = i + 1;
    }
    proof {
        assert(prefix@ =~= s@.take(prefix@.len() as int));
    }
    true
}

/// `s` with every (non-overlapping, left-to-right) occurrence of `pat`
/// replaced by `rep`.
pub open spec fn spec_replace(s: Seq<char>, pat: Seq<char>, rep: Seq<char>) -> Seq<char>
    decreases s.len(),
{
    if pat.len() == 0 || s.len() < pat.len() {
        s
    } else if s.take(pat.len() as int) == pat {
        rep + spec_replace(s.skip(pat.len() as int), pat, rep)
    } else {
        s.take(1) + spec_replace(s.skip(1), pat, rep)
    }
}

/// Replaces every occurrence of `pat` in `s` by `rep`, left to right.
pub fn replace_chars(s: &Vec<char>, pat: &Vec<char>, rep: &Vec<char>) -> (r: Vec<char>)
    requires
        pat@.len() > 0,
    ensures
        r@ == spec_replace(s@, pat@, rep@),
{
    let n = s.len();
    let plen = pat.len();
    let mut out: Vec<char> = Vec::new();
    let mut i: usize = 0;
    proof {
        assert(s@.skip(0) =~= s@);
        assert(out@ + spec_replace(s@, pat@, rep@) =~= spec_replace(s@, pat@, rep@));
    }
    while n - i >= plen
        invariant
            n == s@.len(),
            plen == pat@.len(),
            plen > 0,
            i <= n,
            spec_replace(s@, pat@, rep@) == out@ + spec_replace(s@.skip(i as int), pat@, rep@),
        decreases n - i,
    {
        // does pat occur at i?
        let mut q: usize = 0;
        let mut hit = true;
        while q < plen && hit
            invariant
                n == s@.len(),
                plen == pat@.len(),
                i + plen <= n,
                q <= plen,
                hit ==> forall|x: int| 0 <= x < q ==> s@[i + x] == pat@[x],
                !hit ==> exists|x: int| 0 <= x < plen && s@[i + x] != pat@[x],
            decreases plen - q,
        {
            if s[i + q] != pat[q] {
                hit = false;
            }
            q = q + 1;
        }
        let ghost tail = s@.skip(i as int);
        if hit {
            proof {
                assert(tail.take(plen as int) =~= pat@);
                assert(tail.skip(plen as int) =~= s@.skip(i + plen));
                assert(spec_replace(tail, pat@, rep@) == rep@ + spec_replace(
                    s@.skip(i + plen),
                    pat@,
                    rep@,
                ));
            }
            let ghost out0 = out@;
            let mut x: usize = 0;
            while x < rep.len()
                invariant
                    x <= rep@.len(),
                    out@ == out0 + rep@.take(x as int),
                decreases rep@.len() - x,
            {
                out.push(rep[x]);
                x = x + 1;
                proof {
                    assert(out@ =~= out0 + rep@.take(x as int));
                }
            }
            proof {
                assert(out@ =~= out0 + rep@);
                assert((out0 + rep@) + spec_replace(s@.skip(i + plen), pat@, rep@) =~= out0 + (rep@
                    + spec_replace(s@.skip(i + plen), pat@, rep@)));
            }
            i = i + plen;
        } else {
            proof {
                assert(tail.take(plen as int) != pat@) by {
                    let x = choose|x: int| 0 <= x < plen && s@[i + x] != pat@[x];
                    assert(tail.take(plen as int)[x] == s@[i + x]);
                };
                assert(tail.take(1) =~= seq![s@[i as int]]);
                assert(tail.skip(1) =~= s@.skip(i + 1));
                assert(spec_replace(tail, pat@, rep@) == seq![s@[i as int]] + spec_replace(
                    s@.skip(i + 1),
                    pat@,
                    rep@,
                ));
            }
            let ghost out0 = out@;
            out.push(s[i]);
            proof {
                assert(out@ =~= out0 + seq![s@[i as int]]);
                assert((out0 + seq![s@[i as int]]) + spec_replace(s@.skip(i + 1), pat@, rep@) =~=
                    out0 + (seq![s@[i as int]] + spec_replace(s@.skip(i + 1), pat@, rep@)));
            }
            i = i + 1;
        }
    }
    // the tail is shorter than the pattern: copied as is
    let ghost out1 = out@;
    let ghost rest = s@.skip(i as int);
    proof {
        assert(rest.len() < plen);
        assert(spec_replace(rest, pat@, rep@) == rest);
    }
    let mut j: usize = i;
    while j < n
        invariant
            n == s@.len(),
            i <= j <= n,
            out@ == out1 + s@.subrange(i as int, j as int),
        decreases n - j,
    {
        out.push(s[j]);
        j = j + 1;
        proof {
            assert(out@ =~= out1 + s@.subrange(i as int, j as int));
        }
    }
    proof {
        assert(s@.subrange(i as int, n as int) =~= s@.skip(i as int));
        assert(out@ =~= spec_replace(s@, pat@, rep@));
    }
    out
}

/// The character for one decimal digit.
pub open spec fn spec_digit_char(d: int) -> char {
    if d == 0 { '0' } else if d == 1 { '1' } else if d == 2 { '2' } else if d == 3 { '3' }
    else if d == 4 { '4' } else if d == 5 { '5' } else if d == 6 { '6' } else if d == 7 { '7' }
    else if d == 8 { '8' } else { '9' }
}

/// The decimal digits of a non-negative number, most significant first.
pub open spec fn spec_dec(n: int) -> Seq<char>
    decreases n,
{
    if n < 10 {
        seq![spec_digit_char(n)]
    } else {
        spec_dec(n / 10).push(spec_digit_char(n % 10))
    }
}

fn digit_char(d: usize) -> (r: char)
    requires
        d < 10,
    ensures
        r == spec_digit_char(d as int),
{
    match d {
        0 => '0',
        1 => '1',
        2 => '2',
        3 => '3',
        4 => '4',
        5 => '5',
        6 => '6',
        7 => '7',
        8 => '8',
        _ => '9',
    }
}

/// The decimal digits of `n`.
pub fn u_to_dec(n: usize) -> (r: Vec<char>)
    ensures
        r@ == spec_dec(n as int),
    decreases n,
{
    if n < 10 {
        let mut v: Vec<char> = Vec::new();
        v.push(digit_char(n));
        proof {
            assert(v@ =~= spec_dec(n as int));
        }
        v
    } else {
        let mut v = u_to_dec(n / 10);
        v.push(digit_char(n % 10));
        v
    }
}

} // verus!
