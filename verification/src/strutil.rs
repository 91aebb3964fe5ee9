//! Verified text utilities: decimal parsing with a default, extraction of
//! the first run of digits, decimal rendering, prefix and substring tests,
//! trimming and splitting.

use vstd::prelude::*;
use vstd::string::*;

verus! {

/// Whether `c` is a decimal digit.
pub open spec fn is_digit(c: char) -> bool {
    48 <= c as int <= 57
}

/// The numeric value of a digit character.
pub open spec fn digit_val(c: char) -> nat {
    (c as int - 48) as nat
}

/// Whether every character of `s` is a decimal digit.
pub open spec fn all_digits(s: Seq<char>) -> bool {
    forall|i: int| 0 <= i < s.len() ==> is_digit(s[i])
}

/// The value of `s` read as a decimal numeral.
pub open spec fn dec_value(s: Seq<char>) -> nat
    decreases s.len(),
{
    if s.len() == 0 {
        0
    } else {
        dec_value(s.drop_last()) * 10 + digit_val(s.last())
    }
}

/// The number that `s` denotes: a run of one to eighteen decimal digits
/// and nothing else. Longer runs are not accepted, so every accepted
/// value fits well inside a `u64`.
pub open spec fn parse_dec(s: Seq<char>) -> Option<nat> {
    if 1 <= s.len() <= 18 && all_digits(s) {
        Some(dec_value(s))
    } else {
        None
    }
}

/// `parse_dec`, with `d` where `s` is not a numeral.
pub open spec fn parse_dec_or(s: Seq<char>, d: nat) -> nat {
    match parse_dec(s) {
        Some(v) => v,
        None => d,
    }
}

/// Ten to the `n`.
pub open spec fn pow10(n: nat) -> nat
    decreases n,
{
    if n == 0 {
        1
    } else {
        10 * pow10((n - 1) as nat)
    }
}

proof fn lemma_pow10_18()
    ensures
        pow10(18) == 1000000000000000000,
{
    reveal_with_fuel(pow10, 19);
}

proof fn lemma_pow10_increases(a: nat, b: nat)
    requires
        a <= b,
    ensures
        pow10(a) <= pow10(b),
    decreases b,
{
    if a < b {
        lemma_pow10_increases(a, (b - 1) as nat);
        assert(pow10(b) == 10 * pow10((b - 1) as nat));
    }
}

/// The collected characters of `s`, one per loop step.
pub fn chars_vec(s: &str) -> (r: Vec<char>)
    ensures
        r@ == s@,
{
    let n = s.unicode_len();
    let mut r: Vec<char> = Vec::new();
    let mut i: usize = 0;
    while i < n
        invariant
            0 <= i <= n,
            n == s@.len(),
            r@ == s@.take(i as int),
        decreases n - i,
    {
        let c = s.get_char(i);
        r.push(c);
        proof {
            assert(r@ =~= s@.take(i as int + 1));
        }
        i += 1;
    }
    proof {
        assert(s@.take(n as int) =~= s@);
    }
    r
}

fn is_digit_exec(c: char) -> (r: bool)
    ensures
        r == is_digit(c),
{
    let v = c as u32;
    48 <= v && v <= 57
}

/// The value of the digit string `cs`, or `default` where `cs` is empty,
/// longer than eighteen characters, or holds a non-digit.
pub fn parse_decimal(cs: &Vec<char>, default: u64) -> (r: u64)
    ensures
        r as nat == parse_dec_or(cs@, default as nat),
{
    let n = cs.len();
    if n == 0 || n > 18 {
        return default;
    }
    let ghost s = cs@;
    let mut acc: u64 = 0;
    let mut i: usize = 0;
    while i < n
        invariant
            0 <= i <= n,
            1 <= n <= 18,
            n == s.len(),
            s == cs@,
            all_digits(s.take(i as int)),
            acc as nat == dec_value(s.take(i as int)),
            (acc as nat) < pow10(i as nat),
        decreases n - i,
    {
        let c = cs[i];
        if !is_digit_exec(c) {
            proof {
                assert(!is_digit(s[i as int]));
                assert(!all_digits(s));
            }
            return default;
        }
        let d: u64 = (c as u32 - 48) as u64;
        proof {
            let p = pow10(i as nat);
            assert(pow10(i as nat + 1) == 10 * p);
            assert((acc as nat) * 10 + (d as nat) < p * 10) by (nonlinear_arith)
                requires
                    (acc as nat) < p,
                    (d as nat) <= 9,
            ;
            lemma_pow10_increases(i as nat + 1, 18);
            lemma_pow10_18();
            assert(s.take(i as int + 1).drop_last() =~= s.take(i as int));
            assert(s.take(i as int + 1).last() == s[i as int]);
        }
        acc = acc * 10 + d;
        i += 1;
    }
    proof {
        assert(s.take(n as int) =~= s);
    }
    acc
}

/// `parse_decimal` on the characters of a string.
pub fn parse_decimal_str(s: &str, default: u64) -> (r: u64)
    ensures
        r as nat == parse_dec_or(s@, default as nat),
{
    let cs = chars_vec(s);
    parse_decimal(&cs, default)
}

/// The run of digits at the head of `s`.
pub open spec fn digit_prefix(s: Seq<char>) -> Seq<char>
    decreases s.len(),
{
    if s.len() > 0 && is_digit(s[0]) {
        seq![s[0]] + digit_prefix(s.drop_first())
    } else {
        Seq::empty()
    }
}

/// The first maximal run of digits of `s`, read left to right; empty
/// where `s` has no digit.
pub open spec fn first_digit_run(s: Seq<char>) -> Seq<char>
    decreases s.len(),
{
    if s.len() == 0 {
        Seq::empty()
    } else if is_digit(s[0]) {
        digit_prefix(s)
    } else {
        first_digit_run(s.drop_first())
    }
}

/// The chapter number that a title denotes: its first run of digits read
/// as a decimal number, zero where there is none or the run is too long
/// to accept.
pub open spec fn chapter_num(s: Seq<char>) -> nat {
    parse_dec_or(first_digit_run(s), 0)
}

/// The first maximal run of digits of `cs`.
pub fn first_digit_run_vec(cs: &Vec<char>) -> (r: Vec<char>)
    ensures
        r@ == first_digit_run(cs@),
{
    let ghost s = cs@;
    let n = cs.len();
    let mut i: usize = 0;
    proof {
        assert(s.skip(0) =~= s);
    }
    while i < n && !is_digit_exec(cs[i])
        invariant
            0 <= i <= n,
            n == s.len(),
            s == cs@,
            first_digit_run(s) == first_digit_run(s.skip(i as int)),
        decreases n - i,
    {
        proof {
            assert(s.skip(i as int)[0] == s[i as int]);
            assert(s.skip(i as int).drop_first() =~= s.skip(i as int + 1));
        }
        i += 1;
    }
    if i == n {
        proof {
            assert(s.skip(n as int) =~= Seq::<char>::empty());
        }
        return Vec::new();
    }
    proof {
        assert(s.skip(i as int)[0] == s[i as int]);
        assert(first_digit_run(s) == digit_prefix(s.skip(i as int)));
    }
    let mut out: Vec<char> = Vec::new();
    let mut j: usize = i;
    while j < n && is_digit_exec(cs[j])
        invariant
            i <= j <= n,
            n == s.len(),
            s == cs@,
            first_digit_run(s) == out@ + digit_prefix(s.skip(j as int)),
        decreases n - j,
    {
        proof {
            assert(s.skip(j as int)[0] == s[j as int]);
            assert(s.skip(j as int).drop_first() =~= s.skip(j as int + 1));
            assert(digit_prefix(s.skip(j as int)) == seq![s[j as int]] + digit_prefix(
                s.skip(j as int + 1),
            ));
        }
        out.push(cs[j]);
        proof {
            assert(out@ + digit_prefix(s.skip(j as int + 1)) =~= first_digit_run(s));
        }
        j += 1;
    }
    proof {
        if j == n {
            assert(s.skip(n as int) =~= Seq::<char>::empty());
        }
        assert(digit_prefix(s.skip(j as int)) =~= Seq::<char>::empty());
        assert(out@ =~= first_digit_run(s));
    }
    out
}

/// The first run of digits of `s` as a number, zero where `s` has no
/// digit or the run is too long to accept.
pub fn extract_chapter_number(s: &str) -> (r: u64)
    ensures
        r as nat == chapter_num(s@),
{
    let cs = chars_vec(s);
    let run = first_digit_run_vec(&cs);
    parse_decimal(&run, 0)
}

/// Whether `p` stands at the head of `s`.
pub open spec fn starts_with(s: Seq<char>, p: Seq<char>) -> bool {
    p.len() <= s.len() && s.take(p.len() as int) == p
}

/// Whether the string `s` begins with `p`.
pub fn starts_with_str(s: &str, p: &str) -> (r: bool)
    ensures
        r == starts_with(s@, p@),
{
    let n = s.unicode_len();
    let m = p.unicode_len();
    if m > n {
        return false;
    }
    let mut i: usize = 0;
    while i < m
        invariant
            0 <= i <= m,
            m <= n,
            n == s@.len(),
            m == p@.len(),
            forall|j: int| 0 <= j < i ==> s@[j] == p@[j],
        decreases m - i,
    {
        if s.get_char(i) != p.get_char(i) {
            proof {
                assert(s@.take(m as int)[i as int] != p@[i as int]);
            }
            return false;
        }
        i += 1;
    }
    proof {
        assert(s@.take(m as int) =~= p@);
    }
    true
}

/// Whether `p` occurs anywhere inside `s`.
pub open spec fn has_substr(s: Seq<char>, p: Seq<char>) -> bool {
    exists|k: int|
        0 <= k <= s.len() - p.len() && (#[trigger] s.skip(k)).take(p.len() as int) == p
}

/// Whether the string `s` holds `p` anywhere inside it.
pub fn contains_str(s: &str, p: &str) -> (r: bool)
    ensures
        r == has_substr(s@, p@),
{
    let scs = chars_vec(s);
    let pcs = chars_vec(p);
    let n = scs.len();
    let m = pcs.len();
    if m > n {
        return false;
    }
    if m == 0 {
        proof {
            assert(s@.skip(0).take(0) =~= p@);
        }
        return true;
    }
    let mut k: usize = 0;
    while k <= n - m
        invariant
            0 <= k <= n - m + 1,
            1 <= m <= n,
            n == s@.len(),
            m == p@.len(),
            scs@ == s@,
            pcs@ == p@,
            forall|k2: int| 0 <= k2 < k ==> (#[trigger] s@.skip(k2)).take(p@.len() as int) != p@,
        decreases n - m + 1 - k,
    {
        let mut j: usize = 0;
        let mut hit = true;
        while j < m
            invariant
                0 <= j <= m,
                k + m <= n,
                n == s@.len(),
                m == p@.len(),
                scs@ == s@,
                pcs@ == p@,
                hit ==> forall|t: int| 0 <= t < j ==> s@[k + t] == p@[t],
                !hit ==> s@.skip(k as int).take(m as int) != p@,
            decreases m - j,
        {
            if scs[k + j] != pcs[j] {
                proof {
                    assert(s@.skip(k as int).take(m as int)[j as int] == s@[k + j]);
                }
                hit = false;
                j = m;
            } else {
                j += 1;
            }
        }
        if hit {
            proof {
                assert(s@.skip(k as int).take(m as int) =~= p@);
            }
            return true;
        }
        k += 1;
    }
    false
}

/// Whether the two strings hold the same characters.
pub fn str_eq(a: &str, b: &str) -> (r: bool)
    ensures
        r == (a@ == b@),
{
    let n = a.unicode_len();
    let m = b.unicode_len();
    if n != m {
        return false;
    }
    let mut i: usize = 0;
    while i < n
        invariant
            0 <= i <= n,
            n == a@.len(),
            n == b@.len(),
            forall|j: int| 0 <= j < i ==> a@[j] == b@[j],
        decreases n - i,
    {
        if a.get_char(i) != b.get_char(i) {
            return false;
        }
        i += 1;
    }
    proof {
        assert(a@ =~= b@);
    }
    true
}

/// The prefix of `s` that stands before the first `d`; all of `s` where
/// `d` does not occur.
pub open spec fn seg_before(s: Seq<char>, d: char) -> Seq<char>
    decreases s.len(),
{
    if s.len() == 0 {
        Seq::empty()
    } else if s[0] == d {
        Seq::empty()
    } else {
        seq![s[0]] + seg_before(s.drop_first(), d)
    }
}

/// The position of the first `d` at or after `from`, or the length where
/// there is none, characterized through `seg_before`.
pub fn find_delim(cs: &Vec<char>, from: usize, d: char) -> (r: usize)
    requires
        from <= cs.len(),
    ensures
        from <= r <= cs.len(),
        seg_before(cs@.skip(from as int), d) == cs@.subrange(from as int, r as int),
        r < cs.len() ==> cs@[r as int] == d,
    decreases cs.len() - from,
{
    let ghost s = cs@;
    let n = cs.len();
    let mut j: usize = from;
    while j < n
        invariant
            from <= j <= n,
            n == s.len(),
            s == cs@,
            seg_before(s.skip(from as int), d) == s.subrange(from as int, j as int)
                + seg_before(s.skip(j as int), d),
        decreases n - j,
    {
        proof {
            assert(s.skip(j as int)[0] == s[j as int]);
            assert(s.skip(j as int).drop_first() =~= s.skip(j as int + 1));
        }
        if cs[j] == d {
            proof {
                assert(seg_before(s.skip(j as int), d) =~= Seq::<char>::empty());
                assert(seg_before(s.skip(from as int), d) =~= s.subrange(from as int, j as int));
            }
            return j;
        }
        proof {
            assert(s.subrange(from as int, j as int + 1) =~= s.subrange(from as int, j as int)
                + seq![s[j as int]]);
            assert(s.subrange(from as int, j as int + 1) + seg_before(s.skip(j as int + 1), d)
                =~= seg_before(s.skip(from as int), d));
        }
        j += 1;
    }
    proof {
        assert(s.skip(n as int) =~= Seq::<char>::empty());
        assert(seg_before(s.skip(n as int), d) =~= Seq::<char>::empty());
        assert(seg_before(s.skip(from as int), d) =~= s.subrange(from as int, n as int));
    }
    n
}

/// Whether `c` counts as trimmable whitespace.
pub open spec fn is_space(c: char) -> bool {
    c == ' ' || c == '\t' || c == '\n' || c == '\r'
}

/// `s` with its leading whitespace removed.
pub open spec fn trim_start(s: Seq<char>) -> Seq<char>
    decreases s.len(),
{
    if s.len() > 0 && is_space(s[0]) {
        trim_start(s.drop_first())
    } else {
        s
    }
}

/// `s` with its trailing whitespace removed.
pub open spec fn trim_end(s: Seq<char>) -> Seq<char>
    decreases s.len(),
{
    if s.len() > 0 && is_space(s.last()) {
        trim_end(s.drop_last())
    } else {
        s
    }
}

/// `s` with whitespace removed at both ends.
pub open spec fn trim_spec(s: Seq<char>) -> Seq<char> {
    trim_end(trim_start(s))
}

fn is_space_exec(c: char) -> (r: bool)
    ensures
        r == is_space(c),
{
    c == ' ' || c == '\t' || c == '\n' || c == '\r'
}

/// The characters of `cs` with whitespace removed at both ends.
pub fn trim_vec(cs: &Vec<char>) -> (r: Vec<char>)
    ensures
        r@ == trim_spec(cs@),
{
    let ghost s = cs@;
    let n = cs.len();
    let mut a: usize = 0;
    proof {
        assert(s.skip(0) =~= s);
    }
    while a < n && is_space_exec(cs[a])
        invariant
            0 <= a <= n,
            n == s.len(),
            s == cs@,
            trim_start(s) == trim_start(s.skip(a as int)),
        decreases n - a,
    {
        proof {
            assert(s.skip(a as int)[0] == s[a as int]);
            assert(s.skip(a as int).drop_first() =~= s.skip(a as int + 1));
        }
        a += 1;
    }
    proof {
        if a < n {
            assert(s.skip(a as int)[0] == s[a as int]);
        }
        assert(trim_start(s) == s.skip(a as int));
    }
    let mut b: usize = n;
    while b > a && is_space_exec(cs[b - 1])
        invariant
            a <= b <= n,
            n == s.len(),
            s == cs@,
            trim_end(s.skip(a as int)) == trim_end(s.subrange(a as int, b as int)),
        decreases b,
    {
        proof {
            assert(s.subrange(a as int, b as int).last() == s[b as int - 1]);
            assert(s.subrange(a as int, b as int).drop_last() =~= s.subrange(
                a as int,
                b as int - 1,
            ));
        }
        b -= 1;
    }
    proof {
        if b > a {
            assert(s.subrange(a as int, b as int).last() == s[b as int - 1]);
        }
        assert(trim_end(s.subrange(a as int, b as int)) == s.subrange(a as int, b as int));
    }
    let mut out: Vec<char> = Vec::new();
    let mut i: usize = a;
    while i < b
        invariant
            a <= i <= b <= n,
            n == s.len(),
            s == cs@,
            out@ == s.subrange(a as int, i as int),
        decreases b - i,
    {
        out.push(cs[i]);
        proof {
            assert(s.subrange(a as int, i as int + 1) =~= s.subrange(a as int, i as int)
                + seq![s[i as int]]);
            assert(out@ =~= s.subrange(a as int, i as int + 1));
        }
        i += 1;
    }
    proof {
        assert(s.skip(a as int) =~= s.subrange(a as int, n as int));
        assert(out@ =~= trim_spec(s));
    }
    out
}

/// Relies on String::push: it appends exactly the one character to the
/// end of the string.
#[verifier::external_body]
fn push_char(s: &mut String, c: char)
    ensures
        final(s)@ == old(s)@.push(c),
{
    s.push(c);
}

/// A string holding exactly the characters of `cs`.
pub fn string_of_chars(cs: &Vec<char>) -> (r: String)
    ensures
        r@ == cs@,
{
    let mut r = String::new();
    let mut i: usize = 0;
    while i < cs.len()
        invariant
            0 <= i <= cs.len(),
            r@ == cs@.take(i as int),
        decreases cs.len() - i,
    {
        push_char(&mut r, cs[i]);
        proof {
            assert(cs@.take(i as int).push(cs@[i as int]) =~= cs@.take(i as int + 1));
        }
        i += 1;
    }
    proof {
        assert(cs@.take(cs@.len() as int) =~= cs@);
    }
    r
}

/// The trimmed segment, kept only where something remains of it.
pub open spec fn kept_segment(t: Seq<char>) -> Seq<Seq<char>> {
    let tt = trim_spec(t);
    if tt.len() > 0 {
        seq![tt]
    } else {
        Seq::empty()
    }
}

/// `s` split on `d`, each segment trimmed, empty segments dropped.
pub open spec fn split_trim_nonempty(s: Seq<char>, d: char) -> Seq<Seq<char>>
    decreases s.len(),
{
    let i = seg_before(s, d).len() as int;
    if i >= s.len() {
        kept_segment(s)
    } else {
        kept_segment(s.take(i)) + split_trim_nonempty(s.skip(i + 1), d)
    }
}

proof fn lemma_seg_before_len(s: Seq<char>, d: char)
    ensures
        seg_before(s, d).len() <= s.len(),
        seg_before(s, d).len() < s.len() ==> s[seg_before(s, d).len() as int] == d,
        seg_before(s, d) == s.take(seg_before(s, d).len() as int),
    decreases s.len(),
{
    if s.len() == 0 {
    } else if s[0] == d {
        assert(seg_before(s, d) =~= s.take(0));
    } else {
        lemma_seg_before_len(s.drop_first(), d);
        let k = seg_before(s.drop_first(), d).len() as int;
        assert(seg_before(s, d).len() == k + 1);
        assert(seg_before(s, d) =~= s.take(k + 1));
    }
}

/// The segments of `cs` split on `d`, each trimmed, empty ones dropped,
/// as strings.
pub fn split_trim_nonempty_vec(cs: &Vec<char>, d: char) -> (r: Vec<String>)
    ensures
        r.deep_view() == split_trim_nonempty(cs@, d),
{
    let ghost s = cs@;
    let n = cs.len();
    let mut out: Vec<String> = Vec::new();
    let mut pos: usize = 0;
    let mut done = false;
    proof {
        assert(s.skip(0) =~= s);
    }
    while !done
        invariant
            0 <= pos <= n,
            n == s.len(),
            s == cs@,
            split_trim_nonempty(s, d) == out.deep_view() + split_trim_nonempty(
                s.skip(pos as int),
                d,
            ),
            done ==> split_trim_nonempty(s.skip(pos as int), d) =~= Seq::<Seq<char>>::empty(),
        decreases n - pos + 1, (if done { 0int } else { 1int }),
    {
        if done {
            proof {
                assert(false);
            }
        }
        let j = find_delim(cs, pos, d);
        let ghost rest = s.skip(pos as int);
        proof {
            lemma_seg_before_len(rest, d);
            assert(seg_before(rest, d) == s.subrange(pos as int, j as int));
            assert(seg_before(rest, d).len() == j - pos);
        }
        let mut seg: Vec<char> = Vec::new();
        let mut t: usize = pos;
        while t < j
            invariant
                pos <= t <= j <= n,
                s == cs@,
                n == s.len(),
                seg@ == s.subrange(pos as int, t as int),
            decreases j - t,
        {
            seg.push(cs[t]);
            proof {
                assert(s.subrange(pos as int, t as int + 1) =~= s.subrange(pos as int, t as int)
                    + seq![s[t as int]]);
                assert(seg@ =~= s.subrange(pos as int, t as int + 1));
            }
            t += 1;
        }
        let trimmed = trim_vec(&seg);
        let ghost old_out = out.deep_view();
        if trimmed.len() > 0 {
            let piece = string_of_chars(&trimmed);
            out.push(piece);
            proof {
                assert(out.deep_view() =~~= old_out.push(trim_spec(seg@)));
            }
        }
        proof {
            assert(out.deep_view() =~~= old_out + kept_segment(seg@));
        }
        if j == n {
            proof {
                assert(rest =~= s.subrange(pos as int, n as int));
                assert(seg_before(rest, d).len() as int >= rest.len());
                assert(split_trim_nonempty(rest, d) == kept_segment(rest));
                assert(seg@ =~= rest);
                assert(split_trim_nonempty(s, d) =~~= out.deep_view() + Seq::<
                    Seq<char>,
                >::empty());
            }
            done = true;
            proof {
                let e = s.skip(n as int);
                assert(e =~= Seq::<char>::empty());
                assert(seg_before(e, d).len() as int >= e.len());
                assert(split_trim_nonempty(e, d) == kept_segment(e));
                assert(trim_start(e) == e);
                assert(trim_end(e) == e);
                assert(kept_segment(e) =~= Seq::<Seq<char>>::empty());
                assert(split_trim_nonempty(s, d) =~~= out.deep_view() + split_trim_nonempty(
                    e,
                    d,
                ));
            }
            pos = n;
        } else {
            proof {
                let i0 = seg_before(rest, d).len() as int;
                assert(i0 == j - pos);
                assert(i0 < rest.len());
                assert(rest.take(i0) =~= s.subrange(pos as int, j as int));
                assert(rest.take(i0) =~= seg@);
                assert(rest.skip(i0 + 1) =~= s.skip(j as int + 1));
                assert(split_trim_nonempty(rest, d) == kept_segment(seg@) + split_trim_nonempty(
                    s.skip(j as int + 1),
                    d,
                ));
                assert(split_trim_nonempty(s, d) =~~= out.deep_view() + split_trim_nonempty(
                    s.skip(j as int + 1),
                    d,
                ));
            }
            pos = j + 1;
        }
    }
    proof {
        assert(split_trim_nonempty(s, d) =~~= out.deep_view());
    }
    out
}

/// The digit character for `d`; `d` is a single decimal digit.
pub open spec fn digit_char(d: nat) -> char {
    if d == 0 {
        '0'
    } else if d == 1 {
        '1'
    } else if d == 2 {
        '2'
    } else if d == 3 {
        '3'
    } else if d == 4 {
        '4'
    } else if d == 5 {
        '5'
    } else if d == 6 {
        '6'
    } else if d == 7 {
        '7'
    } else if d == 8 {
        '8'
    } else {
        '9'
    }
}

/// The decimal numeral of `n`, most significant digit first.
pub open spec fn dec_digits_of(n: nat) -> Seq<char>
    decreases n,
{
    if n < 10 {
        seq![digit_char(n)]
    } else {
        dec_digits_of(n / 10).push(digit_char(n % 10))
    }
}

/// The decimal rendering of `v`, a minus sign first where `v` is
/// negative.
pub open spec fn dec_str_of(v: int) -> Seq<char> {
    if v < 0 {
        seq!['-'] + dec_digits_of((-v) as nat)
    } else {
        dec_digits_of(v as nat)
    }
}

fn digit_char_exec(d: u64) -> (r: char)
    requires
        d < 10,
    ensures
        r == digit_char(d as nat),
{
    if d == 0 {
        '0'
    } else if d == 1 {
        '1'
    } else if d == 2 {
        '2'
    } else if d == 3 {
        '3'
    } else if d == 4 {
        '4'
    } else if d == 5 {
        '5'
    } else if d == 6 {
        '6'
    } else if d == 7 {
        '7'
    } else if d == 8 {
        '8'
    } else {
        '9'
    }
}

fn push_digits(n: u64, out: &mut Vec<char>)
    ensures
        final(out)@ == old(out)@ + dec_digits_of(n as nat),
    decreases n,
{
    if n < 10 {
        out.push(digit_char_exec(n));
        proof {
            assert(final(out)@ =~= old(out)@ + dec_digits_of(n as nat));
        }
    } else {
        proof {
            assert(n / 10 < n) by (nonlinear_arith)
                requires
                    n >= 10,
            ;
        }
        push_digits(n / 10, out);
        out.push(digit_char_exec(n % 10));
        proof {
            assert(final(out)@ =~= old(out)@ + dec_digits_of(n as nat));
        }
    }
}

/// The decimal rendering of `v` as a string.
pub fn i32_to_string(v: i32) -> (r: String)
    ensures
        r@ == dec_str_of(v as int),
{
    let mut cs: Vec<char> = Vec::new();
    if v < 0 {
        cs.push('-');
        let m: u64 = (-(v as i64)) as u64;
        proof {
            assert(m as nat == (-(v as int)) as nat);
        }
        push_digits(m, &mut cs);
        proof {
            assert(cs@ =~= dec_str_of(v as int));
        }
    } else {
        push_digits(v as u64, &mut cs);
        proof {
            assert(cs@ =~= dec_str_of(v as int));
        }
    }
    string_of_chars(&cs)
}

} // verus!
