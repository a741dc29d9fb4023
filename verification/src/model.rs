//! Mathematical models of the values that the ledger stores.

use vstd::prelude::*;

verus! {

/// A byte string.
pub type Bytes = Vec<u8>;

/// A value with a mathematical model, which a copy of the value keeps.
pub trait Modeled: Sized {
    /// What the value means.
    type M;

    spec fn model(&self) -> Self::M;

    fn copied(&self) -> (copy: Self)
        ensures
            copy.model() == self.model(),
    ;
}

impl Modeled for u32 {
    type M = u32;

    open spec fn model(&self) -> u32 {
        *self
    }

    fn copied(&self) -> (copy: u32) {
        *self
    }
}

impl Modeled for Vec<u8> {
    type M = Seq<u8>;

    open spec fn model(&self) -> Seq<u8> {
        self@
    }

    fn copied(&self) -> (copy: Vec<u8>) {
        let copy = self.clone();
        assert(copy@ =~= self@);
        copy
    }
}

/// A list of byte strings means the sequence of them.
impl Modeled for Vec<Vec<u8>> {
    type M = Seq<Seq<u8>>;

    open spec fn model(&self) -> Seq<Seq<u8>> {
        models(self@)
    }

    fn copied(&self) -> (copy: Vec<Vec<u8>>) {
        copied_list(self)
    }
}

impl<T: Modeled> Modeled for Option<T> {
    type M = Option<T::M>;

    open spec fn model(&self) -> Option<T::M> {
        match self {
            Some(value) => Some(value.model()),
            None => None,
        }
    }

    fn copied(&self) -> (copy: Option<T>) {
        match self {
            Some(value) => Some(value.copied()),
            None => None,
        }
    }
}

/// What the items of a list mean, in order.
pub open spec fn models<T: Modeled>(items: Seq<T>) -> Seq<T::M> {
    Seq::new(items.len(), |i: int| items[i].model())
}

/// A copy of a list, item by item.
pub fn copied_list<T: Modeled>(items: &Vec<T>) -> (copy: Vec<T>)
    ensures
        models(copy@) == models(items@),
{
    let mut copy: Vec<T> = Vec::new();
    let mut i: usize = 0;
    while i < items.len()
        invariant
            i <= items.len(),
            models(copy@) == models(items@).take(i as int),
        decreases items.len() - i,
    {
        let ghost before: Seq<T> = copy@;
        let item = items[i].copied();
        copy.push(item);
        assert(models(copy@) =~= models(before).push(item.model()));
        i += 1;
        assert(models(copy@) =~= models(items@).take(i as int));
    }
    assert(models(items@).take(i as int) =~= models(items@));
    copy
}

/// Whether two byte strings are equal.
pub fn bytes_eq(a: &Bytes, b: &Bytes) -> (equal: bool)
    ensures
        equal == (a@ == b@),
{
    if a.len() != b.len() {
        return false;
    }
    let mut i: usize = 0;
    while i < a.len()
        invariant
            i <= a.len(),
            a.len() == b.len(),
            a@.take(i as int) == b@.take(i as int),
        decreases a.len() - i,
    {
        if a[i] != b[i] {
            assert(a@[i as int] != b@[i as int]);
            return false;
        }
        i += 1;
        assert(a@.take(i as int) =~= a@.take(i - 1).push(a@[i - 1]));
        assert(b@.take(i as int) =~= b@.take(i - 1).push(b@[i - 1]));
    }
    assert(a@.take(i as int) =~= a@);
    assert(b@.take(i as int) =~= b@);
    true
}

/// Whether a list of byte strings holds the given one.
pub fn list_contains(items: &Vec<Bytes>, item: &Bytes) -> (found: bool)
    ensures
        found == items.model().contains(item@),
{
    let mut i: usize = 0;
    while i < items.len()
        invariant
            i <= items.len(),
            forall|j: int| 0 <= j < i ==> items.model()[j] != item@,
        decreases items.len() - i,
    {
        if bytes_eq(&items[i], item) {
            assert(items.model()[i as int] == item@);
            return true;
        }
        i += 1;
    }
    false
}

} // verus!
