//! The small inline list of account keys carried by a candidate.
//!
//! The list keeps its keys in a `smallvec::SmallVec<[Pubkey; 8]>` held in a
//! private field (Verus cannot take `SmallVec`'s `Array` bound on a declared
//! type). Its contents are named `account_items`; every operation is given a
//! contract over that name.

use vstd::prelude::*;

use crate::pubkey::Pubkey;
use smallvec::SmallVec;

verus! {

/// An ordered list of account keys, stored inline for up to eight keys.
#[verifier::external_body]
pub struct AccountList {
    inner: SmallVec<[Pubkey; 8]>,
}

/// The keys held by an account list, in order.
pub uninterp spec fn account_items(v: AccountList) -> Seq<Pubkey>;

/// `SmallVec::new`: an empty list.
#[verifier::external_body]
fn smallvec_new() -> (v: AccountList)
    ensures
        account_items(v) == Seq::<Pubkey>::empty(),
{
    AccountList { inner: SmallVec::new() }
}

/// `SmallVec::push`: appends one key at the end.
#[verifier::external_body]
fn smallvec_push(v: &mut AccountList, k: Pubkey)
    requires
        account_items(*old(v)).len() < usize::MAX,
    ensures
        account_items(*final(v)) == account_items(*old(v)).push(k),
{
    v.inner.push(k)
}

/// `SmallVec::len`: the number of keys held.
#[verifier::external_body]
fn smallvec_len(v: &AccountList) -> (n: usize)
    ensures
        n as int == account_items(*v).len(),
{
    v.inner.len()
}

/// `SmallVec` indexing: the key at position `i`.
#[verifier::external_body]
fn smallvec_get(v: &AccountList, i: usize) -> (k: Pubkey)
    requires
        i < account_items(*v).len(),
    ensures
        k == account_items(*v)[i as int],
{
    v.inner[i]
}

/// `SmallVec::clone`: a list with the same keys.
#[verifier::external_body]
fn smallvec_clone(v: &AccountList) -> (c: AccountList)
    ensures
        account_items(c) == account_items(*v),
{
    AccountList { inner: v.inner.clone() }
}

impl AccountList {
    /// An empty list.
    pub fn new() -> (v: AccountList)
        ensures
            account_items(v) == Seq::<Pubkey>::empty(),
    {
        smallvec_new()
    }

    /// Appends a key at the end.
    pub fn push(&mut self, k: Pubkey)
        requires
            account_items(*old(self)).len() < usize::MAX,
        ensures
            account_items(*final(self)) == account_items(*old(self)).push(k),
    {
        smallvec_push(self, k)
    }

    /// The number of keys held.
    pub fn len(&self) -> (n: usize)
        ensures
            n as int == account_items(*self).len(),
    {
        smallvec_len(self)
    }

    /// Whether no key is held.
    pub fn is_empty(&self) -> (b: bool)
        ensures
            b == (account_items(*self).len() == 0),
    {
        smallvec_len(self) == 0
    }

    /// The key at position `i`.
    pub fn get(&self, i: usize) -> (k: Pubkey)
        requires
            i < account_items(*self).len(),
        ensures
            k == account_items(*self)[i as int],
    {
        smallvec_get(self, i)
    }
}

impl Clone for AccountList {
    fn clone(&self) -> (c: AccountList)
        ensures
            account_items(c) == account_items(*self),
    {
        smallvec_clone(self)
    }
}

} // verus!
