use vstd::prelude::*;
use vstd::wrapping::i64_specs;

use crate::numeric::ints_of;

verus! {

/// A pure native numeric function callable through the dispatch path.
///
/// A native function is stateless and synchronous: it takes an ordered
/// sequence of numeric inputs and returns a single numeric output, and
/// `spec_call` is the mathematical function it computes.
pub trait RustFunction: Sized {
    /// The mathematical function this callable computes.
    spec fn spec_call(&self, args: Seq<int>) -> int;

    /// Applies the function to `args`.
    fn call(&self, args: &[i64]) -> (r: i64)
        ensures
            r as int == self.spec_call(ints_of(args@)),
    ;
}

/// Cropping into the 64-bit signed range leaves an in-range value alone.
proof fn lemma_signed_crop_identity(v: i64)
    ensures
        i64_specs::signed_crop(v as int) == v,
{
    let range: int = 18446744073709551616;
    if v >= 0 {
        assert((v as int) % range == v as int) by (nonlinear_arith)
            requires
                0 <= (v as int) < range,
        ;
    } else {
        assert((v as int) % range == v as int + range) by (nonlinear_arith)
            requires
                -range <= (v as int) < 0,
        ;
    }
}

/// The product of the inputs in wrapping 64-bit arithmetic, one when
/// there is no input.
pub open spec fn spec_wrapping_product(args: Seq<int>) -> i64
    decreases args.len(),
{
    if args.len() == 0 {
        1i64
    } else {
        i64_specs::wrapping_mul(
            spec_wrapping_product(args.drop_last()),
            i64_specs::signed_crop(args.last()),
        )
    }
}

/// The sum of the inputs in wrapping 64-bit arithmetic, zero when there
/// is no input.
pub open spec fn spec_wrapping_sum(args: Seq<int>) -> i64
    decreases args.len(),
{
    if args.len() == 0 {
        0i64
    } else {
        i64_specs::wrapping_add(
            spec_wrapping_sum(args.drop_last()),
            i64_specs::signed_crop(args.last()),
        )
    }
}

/// A sample native function: the product of its inputs, in wrapping
/// 64-bit arithmetic.
#[derive(Clone, Copy)]
pub struct ProductFunction;

impl RustFunction for ProductFunction {
    open spec fn spec_call(&self, args: Seq<int>) -> int {
        spec_wrapping_product(args) as int
    }

    #[verifier::loop_isolation(false)]
    fn call(&self, args: &[i64]) -> (r: i64) {
        let mut acc: i64 = 1;
        let ghost s = ints_of(args@);
        proof {
            assert(s.take(0) =~= Seq::<int>::empty());
        }
        let mut i: usize = 0;
        while i < args.len()
            invariant
                i <= args@.len(),
                acc == spec_wrapping_product(s.take(i as int)),
            decreases args@.len() - i,
        {
            proof {
                assert(s.take(i + 1).drop_last() =~= s.take(i as int));
                assert(s.take(i + 1).last() == s[i as int]);
                lemma_signed_crop_identity(args[i as int]);
            }
            acc = acc.wrapping_mul(args[i]);
            i = i + 1;
        }
        proof {
            assert(s.take(args@.len() as int) =~= s);
        }
        acc
    }
}

/// A sample native function: the sum of its inputs, in wrapping 64-bit
/// arithmetic.
#[derive(Clone, Copy)]
pub struct SumFunction;

impl RustFunction for SumFunction {
    open spec fn spec_call(&self, args: Seq<int>) -> int {
        spec_wrapping_sum(args) as int
    }

    #[verifier::loop_isolation(false)]
    fn call(&self, args: &[i64]) -> (r: i64) {
        let mut acc: i64 = 0;
        let ghost s = ints_of(args@);
        proof {
            assert(s.take(0) =~= Seq::<int>::empty());
        }
        let mut i: usize = 0;
        while i < args.len()
            invariant
                i <= args@.len(),
                acc == spec_wrapping_sum(s.take(i as int)),
            decreases args@.len() - i,
        {
            proof {
                assert(s.take(i + 1).drop_last() =~= s.take(i as int));
                assert(s.take(i + 1).last() == s[i as int]);
                lemma_signed_crop_identity(args[i as int]);
            }
            acc = acc.wrapping_add(args[i]);
            i = i + 1;
        }
        proof {
            assert(s.take(args@.len() as int) =~= s);
        }
        acc
    }
}

/// A callable with its externally visible metadata: the descriptor shape
/// a provider sends to the remote model, together with the function
/// itself.
#[derive(Clone)]
pub struct Function<F> {
    pub name: String,
    pub description: String,
    pub function: F,
}

impl<F> Function<F> {
    /// Builds a descriptor around `function`.
    pub fn new(name: String, description: String, function: F) -> (r: Self)
        ensures
            r.name == name,
            r.description == description,
            r.function == function,
    {
        Function { name, description, function }
    }
}

} // verus!
