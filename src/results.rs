//! Naming of result files: `q<N>.csv` holds the result of query `N`.
use vstd::prelude::*;

verus! {

pub open spec fn is_digit(c: char) -> bool {
    '0' <= c && c <= '9'
}

/// The value of a string of decimal digits.
pub open spec fn digits_value(s: Seq<char>) -> nat
    decreases s.len(),
{
    if s.len() == 0 {
        0
    } else {
        digits_value(s.drop_last()) * 10 + ((s.last() as u32) - ('0' as u32)) as nat
    }
}

/// The number `N` of a file named `q<N>.csv`, `N` being decimal digits whose
/// value fits in `usize`; zero for any other name.
pub open spec fn query_number(name: Seq<char>) -> nat {
    let n = name.len();
    if n >= 5 && name[0] == 'q' && name.subrange(n - 4, n as int) == ".csv"@
        && (forall|i: int| 1 <= i < n - 4 ==> is_digit(#[trigger] name[i]))
        && digits_value(name.subrange(1, n - 4)) <= usize::MAX {
        digits_value(name.subrange(1, n - 4))
    } else {
        0
    }
}

/// The query number in a result file's name (`q5.csv` gives 5), or 0.
pub fn extract_query_number(name: &String) -> (r: usize)
    ensures
        r == query_number(name@),
{
    proof { reveal_strlit(".csv"); }
    let s = name.as_str();
    let n = s.unicode_len();
    if n < 5 || s.get_char(0) != 'q' {
        return 0;
    }
    let suffix = s.substring_char(n - 4, n);
    let dot_csv = String::from_str(".csv");
    if String::from_str(suffix) != dot_csv {
        return 0;
    }
    assert(name@.subrange(n - 4, n as int) == ".csv"@);
    let mut value: usize = 0;
    let mut i: usize = 1;
    while i < n - 4
        invariant
            n == name@.len(),
            s@ == name@,
            n >= 5,
            name@[0] == 'q',
            name@.subrange(n - 4, n as int) == ".csv"@,
            1 <= i <= n - 4,
            forall|j: int| 1 <= j < i ==> is_digit(#[trigger] name@[j]),
            value == digits_value(name@.subrange(1, i as int)),
        decreases n - 4 - i,
    {
        let c = s.get_char(i);
        if !('0' <= c && c <= '9') {
            assert(!is_digit(name@[i as int]));
            return 0;
        }
        let d = (c as u32 - '0' as u32) as usize;
        assert(name@.subrange(1, i as int + 1).drop_last() =~= name@.subrange(1, i as int));
        match value.checked_mul(10) {
            Some(v) => match v.checked_add(d) {
                Some(w) => value = w,
                None => {
                    proof { lemma_digits_grow(name@, i as int + 1, n as int - 4); }
                    return 0;
                },
            },
            None => {
                proof { lemma_digits_grow(name@, i as int + 1, n as int - 4); }
                return 0;
            },
        }
        i = i + 1;
    }
    value
}

proof fn lemma_digits_grow(name: Seq<char>, k: int, end: int)
    requires
        1 <= k <= end <= name.len(),
    ensures
        digits_value(name.subrange(1, k)) <= digits_value(name.subrange(1, end)),
    decreases end - k,
{
    if k < end {
        lemma_digits_grow(name, k, end - 1);
        assert(name.subrange(1, end).drop_last() =~= name.subrange(1, end - 1));
        let p = digits_value(name.subrange(1, end - 1));
        assert(p <= p * 10 + ((name.subrange(1, end).last() as u32) - ('0' as u32)) as nat) by (nonlinear_arith);
    }
}

} // verus!
