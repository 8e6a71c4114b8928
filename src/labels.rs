//! Labels written with content into the store: the distribution source and
//! the garbage-collection references from a parent to its children.

use vstd::prelude::*;
use crate::maps::StringMap;
use crate::text::{concat_str, push_char};

verus! {

pub open spec fn digit_char(d: nat) -> char {
    if d == 0 { '0' } else if d == 1 { '1' } else if d == 2 { '2' } else if d == 3 { '3' }
    else if d == 4 { '4' } else if d == 5 { '5' } else if d == 6 { '6' } else if d == 7 { '7' }
    else if d == 8 { '8' } else { '9' }
}

/// The decimal digits of `n`.
pub open spec fn decimal_of(n: nat) -> Seq<char>
    decreases n,
{
    if n < 10 {
        seq![digit_char(n)]
    } else {
        decimal_of(n / 10).push(digit_char(n % 10))
    }
}

fn digit(d: u64) -> (c: char)
    requires
        d < 10,
    ensures
        c == digit_char(d as nat),
{
    if d == 0 { '0' } else if d == 1 { '1' } else if d == 2 { '2' } else if d == 3 { '3' }
    else if d == 4 { '4' } else if d == 5 { '5' } else if d == 6 { '6' } else if d == 7 { '7' }
    else if d == 8 { '8' } else { '9' }
}

/// `n` written in decimal.
pub fn decimal(n: u64) -> (r: String)
    ensures
        r@ == decimal_of(n as nat),
    decreases n,
{
    if n < 10 {
        let mut s = String::new();
        push_char(&mut s, digit(n));
        assert(s@ =~= seq![digit_char(n as nat)]);
        s
    } else {
        let mut s = decimal(n / 10);
        push_char(&mut s, digit(n % 10));
        s
    }
}

pub open spec fn source_label_key() -> Seq<char> {
    "containerd.io/distribution.source.docker.io"@
}

/// `m` with `<prefix><i>` mapped to `ds[i]` for every `i`, in order.
pub open spec fn indexed_labels(m: Map<Seq<char>, Seq<char>>, prefix: Seq<char>, ds: Seq<Seq<char>>) -> Map<Seq<char>, Seq<char>>
    decreases ds.len(),
{
    if ds.len() == 0 {
        m
    } else {
        indexed_labels(m, prefix, ds.drop_last()).insert(prefix + decimal_of((ds.len() - 1) as nat), ds.last())
    }
}

/// Adds `<prefix><i>` mapped to `ds[i]` for every `i`.
pub fn add_indexed_labels(labels: &mut StringMap, prefix: &str, ds: &Vec<String>)
    ensures
        final(labels)@ == indexed_labels(old(labels)@, prefix@, ds.deep_view()),
{
    let ghost start = labels@;
    let mut i: usize = 0;
    while i < ds.len()
        invariant
            i <= ds@.len(),
            labels@ == indexed_labels(start, prefix@, ds.deep_view().subrange(0, i as int)),
        decreases ds@.len() - i,
    {
        let key = concat_str(prefix, decimal(i as u64).as_str());
        let ghost sub = ds.deep_view().subrange(0, i + 1);
        assert(sub.drop_last() =~= ds.deep_view().subrange(0, i as int));
        labels.insert(key, ds[i].clone());
        i = i + 1;
    }
    assert(ds.deep_view().subrange(0, i as int) =~= ds.deep_view());
}

/// The labels of a blob that only names its source repository.
pub fn source_labels(library_name: &str) -> (r: StringMap)
    ensures
        r@ == Map::<Seq<char>, Seq<char>>::empty().insert(source_label_key(), library_name@),
{
    let mut m = StringMap::new();
    m.insert(String::from_str("containerd.io/distribution.source.docker.io"), String::from_str(library_name));
    m
}

} // verus!
