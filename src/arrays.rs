use vstd::prelude::*;

verus! {

/// The sequence of `n` elements that starts at position `offset` of `src`
/// and wraps around its end as often as needed.
pub open spec fn rolled<T>(src: Seq<T>, offset: int, n: nat) -> Seq<T>
    recommends
        src.len() > 0,
{
    Seq::new(n, |i: int| src[(offset + i) % (src.len() as int)])
}

/// Tiles `src_vec` into a new vector of `elements` items, starting at
/// position `src_offset` (taken modulo the length of `src_vec`).
pub fn roll_vec<T: Copy>(src_vec: &Vec<T>, src_offset: usize, elements: usize) -> (rolled_vec:
    Vec<T>)
    requires
        src_vec@.len() > 0,
    ensures
        rolled_vec@ == rolled(src_vec@, src_offset as int, elements as nat),
{
    let len = src_vec.len();
    let mut rolled_vec = Vec::<T>::with_capacity(elements);
    let mut read = src_offset % len;
    let mut copied: usize = 0;
    while copied < elements
        invariant
            len == src_vec@.len(),
            len > 0,
            copied <= elements,
            read < len,
            read as int == (src_offset + copied) % (len as int),
            rolled_vec@ == rolled(src_vec@, src_offset as int, copied as nat),
        decreases elements - copied,
    {
        rolled_vec.push(src_vec[read]);
        proof {
            lemma_mod_step(src_offset as int, copied as int, len as int);
        }
        read = if read + 1 == len {
            0
        } else {
            read + 1
        };
        copied = copied + 1;
        assert(rolled_vec@ =~= rolled(src_vec@, src_offset as int, copied as nat));
    }
    rolled_vec
}

/// Moving one position further along a wrapped sequence either advances the
/// position by one or wraps it back to zero.
proof fn lemma_mod_step(a: int, i: int, m: int)
    requires
        a >= 0,
        i >= 0,
        m > 0,
    ensures
        (a + i + 1) % m == if (a + i) % m + 1 == m {
            0
        } else {
            (a + i) % m + 1
        },
{
    let x = a + i;
    vstd::arithmetic::div_mod::lemma_fundamental_div_mod(x, m);
    vstd::arithmetic::div_mod::lemma_mod_bound(x, m);
    if x % m + 1 == m {
        assert((x / m + 1) * m == m * (x / m) + m) by (nonlinear_arith);
        vstd::arithmetic::div_mod::lemma_fundamental_div_mod_converse(x + 1, m, x / m + 1, 0);
    } else {
        assert((x / m) * m == m * (x / m)) by (nonlinear_arith);
        vstd::arithmetic::div_mod::lemma_fundamental_div_mod_converse(x + 1, m, x / m, x % m + 1);
    }
}

/// Where the source holds a single element, every element of a rolled copy
/// is that element.
pub proof fn lemma_roll_single_element<T>(src: Seq<T>, offset: int, n: nat)
    requires
        src.len() == 1,
    ensures
        forall|i: int| 0 <= i < n ==> #[trigger] rolled(src, offset, n)[i] == src[0],
{
    assert forall|i: int| 0 <= i < n implies #[trigger] rolled(src, offset, n)[i] == src[0] by {
        vstd::arithmetic::div_mod::lemma_mod_bound(offset + i, 1);
    }
}

/// Rolling `n1` elements and then `n2` more from where the first copy ended
/// gives the same elements as rolling `n1 + n2` at once.
pub proof fn lemma_roll_concat<T>(src: Seq<T>, offset: int, n1: nat, n2: nat)
    requires
        src.len() > 0,
        offset >= 0,
    ensures
        rolled(src, offset, n1) + rolled(src, (offset + n1) % (src.len() as int), n2) == rolled(
            src,
            offset,
            n1 + n2,
        ),
{
    let m = src.len() as int;
    let left = rolled(src, offset, n1) + rolled(src, (offset + n1) % m, n2);
    let right = rolled(src, offset, n1 + n2);
    assert forall|i: int| 0 <= i < n1 + n2 implies #[trigger] left[i] == right[i] by {
        if i >= n1 {
            vstd::arithmetic::div_mod::lemma_add_mod_noop(offset + n1, i - n1, m);
            vstd::arithmetic::div_mod::lemma_mod_twice(offset + n1, m);
            vstd::arithmetic::div_mod::lemma_mod_bound(i - n1, m);
            vstd::arithmetic::div_mod::lemma_add_mod_noop((offset + n1) % m, i - n1, m);
        }
    }
    assert(left =~= right);
}

} // verus!
