//! Page arithmetic: how many zero bytes take a length to the next page
//! boundary, and which numbers can be a page size.

use vstd::arithmetic::power2::is_pow2;
use vstd::prelude::*;

verus! {

/// A page size is a power of two.
pub open spec fn valid_page_size(page: nat) -> bool {
    is_pow2(page as int)
}

/// The number of bytes between `len` and the next multiple of `page` at or
/// above it.
pub open spec fn padding_len(len: nat, page: nat) -> nat
    recommends
        page > 0,
{
    if len % page == 0 {
        0
    } else {
        (page - len % page) as nat
    }
}

/// `len` rounded up to a multiple of `page`.
pub open spec fn padded_len(len: nat, page: nat) -> nat
    recommends
        page > 0,
{
    len + padding_len(len, page)
}

/// A power of two is positive.
pub proof fn lemma_page_size_positive(page: nat)
    requires
        valid_page_size(page),
    ensures
        page > 0,
{
    reveal(is_pow2);
}

/// The padded length is the least multiple of the page size that is not below
/// the length: it is a multiple, it is reached with less than one page of
/// padding, and no multiple lies between the length and it.
pub proof fn lemma_padded_len_is_least_multiple(len: nat, page: nat, multiple: nat)
    requires
        page > 0,
    ensures
        padded_len(len, page) % page == 0,
        len <= padded_len(len, page) < len + page,
        multiple % page == 0 && len <= multiple ==> padded_len(len, page) <= multiple,
{
    let r = len % page;
    let q = len / page;
    assert(len == page * q + r && 0 <= r < page) by {
        vstd::arithmetic::div_mod::lemma_fundamental_div_mod(len as int, page as int);
        vstd::arithmetic::div_mod::lemma_mod_bound(len as int, page as int);
    }
    if r == 0 {
        assert(padded_len(len, page) == len);
    } else {
        assert(padded_len(len, page) == page * (q + 1)) by (nonlinear_arith)
            requires
                padded_len(len, page) == len + page - r,
                len == page * q + r,
        ;
        assert(padded_len(len, page) % page == 0) by {
            vstd::arithmetic::div_mod::lemma_mod_multiples_basic((q + 1) as int, page as int);
            assert((q + 1) * page == page * (q + 1)) by (nonlinear_arith);
        }
    }
    if multiple % page == 0 && len <= multiple {
        let m = multiple / page;
        assert(multiple == page * m) by {
            vstd::arithmetic::div_mod::lemma_fundamental_div_mod(multiple as int, page as int);
        }
        if r != 0 {
            assert(m >= q + 1) by (nonlinear_arith)
                requires
                    page * m >= page * q + r,
                    r > 0,
                    page > 0,
            ;
            assert(page * m >= page * (q + 1)) by (nonlinear_arith)
                requires
                    m >= q + 1,
                    page > 0,
            ;
        }
    }
}

/// A length that already is a whole number of pages gets no padding, so the
/// padded length is the length itself and no extra page is added.
pub proof fn lemma_aligned_len_needs_no_padding(len: nat, page: nat)
    requires
        page > 0,
        len % page == 0,
    ensures
        padding_len(len, page) == 0,
        padded_len(len, page) == len,
{
}

/// Padding is less than a page, and one page at most is touched beyond the
/// last full one.
pub proof fn lemma_padding_below_page(len: nat, page: nat)
    requires
        page > 0,
    ensures
        padding_len(len, page) < page,
        (len + padding_len(len, page)) % page == 0,
{
    lemma_padded_len_is_least_multiple(len, page, 0);
}

/// A length at or below a capacity that is a whole number of pages stays at or
/// below it when padded.
pub proof fn lemma_padded_len_within_capacity(len: nat, page: nat, capacity: nat)
    requires
        page > 0,
        capacity % page == 0,
        len <= capacity,
    ensures
        padded_len(len, page) <= capacity,
{
    lemma_padded_len_is_least_multiple(len, page, capacity);
}

/// `get` of the `page_size` crate: the memory page size of the machine that
/// the program runs on. Nothing is said of the value.
#[verifier::external_body]
pub(crate) fn system_page_size() -> (page: usize) {
    page_size::get()
}

/// Whether `page` can be a page size, that is, whether it is a power of two.
pub fn is_page_size(page: usize) -> (valid: bool)
    ensures
        valid == valid_page_size(page as nat),
{
    if page == 0 {
        proof {
            reveal(is_pow2);
        }
        return false;
    }
    let mut rest: usize = page;
    while rest % 2 == 0
        invariant
            rest > 0,
            is_pow2(rest as int) == is_pow2(page as int),
        decreases rest,
    {
        proof {
            reveal(is_pow2);
        }
        rest = rest / 2;
    }
    proof {
        reveal(is_pow2);
    }
    rest == 1
}

/// The number of zero bytes that take `len` to the next page boundary.
pub fn padding_for(len: usize, page: usize) -> (pad: usize)
    requires
        page > 0,
    ensures
        pad == padding_len(len as nat, page as nat),
        pad < page,
{
    let over: usize = len % page;
    if over == 0 {
        0
    } else {
        page - over
    }
}

/// `len` rounded up to a whole number of pages, or `None` where that number
/// does not fit the machine's word.
pub fn round_up_to_page(len: usize, page: usize) -> (rounded: Option<usize>)
    requires
        page > 0,
    ensures
        match rounded {
            Some(r) => r == padded_len(len as nat, page as nat),
            None => padded_len(len as nat, page as nat) > usize::MAX,
        },
{
    let pad: usize = padding_for(len, page);
    len.checked_add(pad)
}

} // verus!
