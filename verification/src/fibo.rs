//! The Fibonacci sequence over 32-bit integers, computed iteratively with
//! checked addition: `None` exactly when the mathematical value does not
//! fit in a `u32`.

use vstd::prelude::*;

verus! {

/// The Fibonacci sequence: 0, 1, 1, 2, 3, 5, ...
pub open spec fn spec_fib(n: nat) -> nat
    decreases n,
{
    if n == 0 {
        0
    } else if n == 1 {
        1
    } else {
        spec_fib((n - 2) as nat) + spec_fib((n - 1) as nat)
    }
}

/// Law: the sequence is monotonically non-decreasing.
pub proof fn lemma_fib_monotone(i: nat, j: nat)
    requires
        i <= j,
    ensures
        spec_fib(i) <= spec_fib(j),
    decreases j - i,
{
    if i < j {
        lemma_fib_monotone(i, (j - 1) as nat);
        if j >= 2 {
            assert(spec_fib(j) == spec_fib((j - 2) as nat) + spec_fib((j - 1) as nat));
        }
    }
}

/// The `n`-th Fibonacci number, or `None` exactly when it exceeds
/// `u32::MAX`.
pub fn fibo(n: u32) -> (r: Option<u32>)
    ensures
        match r {
            Some(v) => v == spec_fib(n as nat),
            None => spec_fib(n as nat) > u32::MAX,
        },
{
    let mut fibo_0: u32 = 0;
    let mut fibo_1: u32 = 1;
    let mut somme: u32 = 0;
    match n {
        0 => Some(fibo_0),
        1 => Some(fibo_1),
        _ => {
            let mut i: u64 = 2;
            while i <= n as u64
                invariant
                    n >= 2,
                    2 <= i <= n as u64 + 1,
                    fibo_0 == spec_fib((i - 2) as nat),
                    fibo_1 == spec_fib((i - 1) as nat),
                    i > 2 ==> somme == fibo_1,
                decreases n as u64 + 1 - i,
            {
                somme = match fibo_0.checked_add(fibo_1) {
                    Some(s) => s,
                    None => {
                        proof {
                            assert(spec_fib(i as nat) == spec_fib((i - 2) as nat) + spec_fib(
                                (i - 1) as nat,
                            ));
                            lemma_fib_monotone(i as nat, n as nat);
                        }
                        return None;
                    },
                };
                fibo_0 = fibo_1;
                fibo_1 = somme;
                i = i + 1;
            }
            Some(somme)
        },
    }
}

} // verus!
