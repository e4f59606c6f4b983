//! Text helpers for building SQL: string views, joins, decimal rendering
//! and a few searches over lists of names.
use vstd::prelude::*;

verus! {

/// Whether `name` occurs among the views of `names`.
pub open spec fn seq_has(names: Seq<String>, name: Seq<char>) -> bool {
    exists|i: int| 0 <= i < names.len() && (#[trigger] names[i])@ == name
}

/// Tests whether `names` holds a string equal to `name`.
pub fn vec_has(names: &Vec<String>, name: &String) -> (r: bool)
    ensures
        r == seq_has(names@, name@),
{
    let mut i: usize = 0;
    while i < names.len()
        invariant
            i <= names.len(),
            forall|j: int| 0 <= j < i ==> (#[trigger] names@[j])@ != name@,
        decreases names.len() - i,
    {
        if names[i] == *name {
            return true;
        }
        i = i + 1;
    }
    false
}

/// Tests whether the string `s` reads `lit`.
pub fn str_is(s: &String, lit: &str) -> (r: bool)
    ensures
        r == (s@ == lit@),
{
    let t = String::from_str(lit);
    *s == t
}

/// The decimal digits of `n`, most significant first.
pub open spec fn decimal(n: nat) -> Seq<char>
    decreases n,
{
    if n < 10 {
        seq![digit_char(n)]
    } else {
        decimal(n / 10) + seq![digit_char(n % 10)]
    }
}

pub open spec fn digit_char(d: nat) -> char {
    if d == 0 { '0' }
    else if d == 1 { '1' }
    else if d == 2 { '2' }
    else if d == 3 { '3' }
    else if d == 4 { '4' }
    else if d == 5 { '5' }
    else if d == 6 { '6' }
    else if d == 7 { '7' }
    else if d == 8 { '8' }
    else { '9' }
}

fn digit_str(d: u64) -> (r: &'static str)
    requires
        d < 10,
    ensures
        r@ == seq![digit_char(d as nat)],
{
    proof {
        reveal_strlit("0");
        reveal_strlit("1");
        reveal_strlit("2");
        reveal_strlit("3");
        reveal_strlit("4");
        reveal_strlit("5");
        reveal_strlit("6");
        reveal_strlit("7");
        reveal_strlit("8");
        reveal_strlit("9");
    }
    if d == 0 { "0" }
    else if d == 1 { "1" }
    else if d == 2 { "2" }
    else if d == 3 { "3" }
    else if d == 4 { "4" }
    else if d == 5 { "5" }
    else if d == 6 { "6" }
    else if d == 7 { "7" }
    else if d == 8 { "8" }
    else { "9" }
}

/// Appends the decimal form of `n` to `out`.
pub fn push_decimal(out: &mut String, n: u64)
    ensures
        final(out)@ == old(out)@ + decimal(n as nat),
    decreases n,
{
    if n < 10 {
        out.append(digit_str(n));
    } else {
        push_decimal(out, n / 10);
        out.append(digit_str(n % 10));
        assert(final(out)@ == old(out)@ + decimal(n as nat));
    }
}

} // verus!

verus! {

/// The code of `c` with ASCII capitals folded to lower case.
pub open spec fn fold_code(c: char) -> u32 {
    if 'A' <= c && c <= 'Z' {
        ((c as u32) + 32) as u32
    } else {
        c as u32
    }
}

/// `s` as codes, with ASCII capitals folded to lower case.
pub open spec fn folded(s: Seq<char>) -> Seq<u32> {
    s.map_values(|c: char| fold_code(c))
}

/// `s` as codes.
pub open spec fn codes(s: Seq<char>) -> Seq<u32> {
    s.map_values(|c: char| c as u32)
}

/// Tests whether `s`, with ASCII capitals folded to lower case, reads `lower`.
pub fn name_is(s: &String, lower: &str) -> (r: bool)
    ensures
        r == (folded(s@) == codes(lower@)),
{
    let n = s.as_str().unicode_len();
    let m = lower.unicode_len();
    if n != m {
        assert(folded(s@).len() != codes(lower@).len());
        return false;
    }
    let mut i: usize = 0;
    while i < n
        invariant
            n == s@.len(),
            m == lower@.len(),
            n == m,
            i <= n,
            forall|j: int| 0 <= j < i ==> fold_code(#[trigger] s@[j]) == lower@[j] as u32,
        decreases n - i,
    {
        let c = s.as_str().get_char(i);
        let d = lower.get_char(i);
        let same = if 'A' <= c && c <= 'Z' {
            (c as u32) + 32 == (d as u32)
        } else {
            c == d
        };
        if !same {
            assert(folded(s@)[i as int] != codes(lower@)[i as int]);
            return false;
        }
        i = i + 1;
    }
    assert(folded(s@) =~= codes(lower@));
    true
}

} // verus!

verus! {

/// The views of a list of strings.
pub open spec fn keys(v: Seq<String>) -> Seq<Seq<char>> {
    v.map_values(|s: String| s@)
}

/// The parts, with `sep` between each two.
pub open spec fn join(parts: Seq<Seq<char>>, sep: Seq<char>) -> Seq<char>
    decreases parts.len(),
{
    if parts.len() == 0 {
        Seq::empty()
    } else if parts.len() == 1 {
        parts[0]
    } else {
        join(parts.drop_last(), sep) + sep + parts.last()
    }
}

proof fn lemma_join_step(parts: Seq<Seq<char>>, sep: Seq<char>, i: int)
    requires
        0 < i < parts.len(),
    ensures
        join(parts.take(i + 1), sep) == join(parts.take(i), sep) + sep + parts[i],
{
    assert(parts.take(i + 1).drop_last() =~= parts.take(i));
}

/// Appends the views of `parts` to `out`, with `sep` between each two.
pub fn push_joined(out: &mut String, parts: &Vec<String>, sep: &str)
    ensures
        final(out)@ == old(out)@ + join(keys(parts@), sep@),
{
    let ghost start = out@;
    let ghost ks = keys(parts@);
    let mut i: usize = 0;
    while i < parts.len()
        invariant
            i <= parts.len(),
            ks == keys(parts@),
            out@ == start + join(ks.take(i as int), sep@),
        decreases parts.len() - i,
    {
        if i > 0 {
            out.append(sep);
            proof { lemma_join_step(ks, sep@, i as int); }
        } else {
            assert(ks.take(1) =~= seq![ks[0]]);
        }
        out.append(parts[i].as_str());
        proof {
            assert(out@ == start + join(ks.take(i as int + 1), sep@));
        }
        i = i + 1;
    }
    assert(ks.take(parts.len() as int) =~= ks);
}

/// `s` with every `.` written as `_`.
pub open spec fn dots_to_underscores(s: Seq<char>) -> Seq<char> {
    s.map_values(|c: char| if c == '.' { '_' } else { c })
}

/// Appends `s` to `out`, writing every `.` as `_`.
pub fn push_without_dots(out: &mut String, s: &String)
    ensures
        final(out)@ == old(out)@ + dots_to_underscores(s@),
{
    let ghost start = out@;
    let n = s.as_str().unicode_len();
    let mut i: usize = 0;
    while i < n
        invariant
            n == s@.len(),
            i <= n,
            out@ == start + dots_to_underscores(s@.take(i as int)),
        decreases n - i,
    {
        let c = s.as_str().get_char(i);
        let ghost piece = dots_to_underscores(s@.subrange(i as int, i as int + 1));
        let ghost before = out@;
        if c == '.' {
            out.append("_");
            proof { reveal_strlit("_"); }
            assert(piece =~= "_"@);
        } else {
            let sub = s.as_str().substring_char(i, i + 1);
            out.append(sub);
            assert(piece =~= sub@);
        }
        assert(out@ =~= before + piece);
        assert(dots_to_underscores(s@.take(i as int + 1)) =~= dots_to_underscores(s@.take(i as int)) + dots_to_underscores(s@.subrange(i as int, i as int + 1)));
        i = i + 1;
    }
    assert(s@.take(n as int) =~= s@);
}

} // verus!
