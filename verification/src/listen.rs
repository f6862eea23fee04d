//! The addresses that the proxy listens on.

use vstd::prelude::*;

verus! {

/// The texts of a list of addresses.
pub open spec fn texts(addresses: Seq<String>) -> Seq<Seq<char>> {
    addresses.map_values(|address: String| address@)
}

/// The addresses of `s` without repetition: each where it occurs first.
pub open spec fn distinct(s: Seq<Seq<char>>) -> Seq<Seq<char>>
    decreases s.len(),
{
    if s.len() == 0 {
        Seq::empty()
    } else if distinct(s.drop_last()).contains(s.last()) {
        distinct(s.drop_last())
    } else {
        distinct(s.drop_last()).push(s.last())
    }
}

/// No address occurs twice among the distinct ones, and they are the
/// addresses that were given: none is lost and none is added.
pub proof fn law_distinct(s: Seq<Seq<char>>)
    ensures
        distinct(s).no_duplicates(),
        forall|address: Seq<char>| distinct(s).contains(address) <==> s.contains(address),
    decreases s.len(),
{
    if s.len() > 0 {
        let head = s.drop_last();
        let kept = distinct(head);
        law_distinct(head);
        assert forall|address: Seq<char>| distinct(s).contains(address) <==> s.contains(
            address,
        ) by {
            if s.contains(address) {
                let i = choose|i: int| 0 <= i < s.len() && s[i] == address;
                if i < head.len() {
                    assert(head[i] == address);
                    assert(head.contains(address));
                    assert(kept.contains(address));
                    let j = choose|j: int| 0 <= j < kept.len() && kept[j] == address;
                    assert(distinct(s)[j] == address);
                } else if !kept.contains(s.last()) {
                    assert(distinct(s)[kept.len() as int] == address);
                }
            }
            if distinct(s).contains(address) {
                let j = choose|j: int| 0 <= j < distinct(s).len() && distinct(s)[j] == address;
                if j < kept.len() {
                    assert(kept[j] == address);
                    assert(head.contains(address));
                    let i = choose|i: int| 0 <= i < head.len() && head[i] == address;
                    assert(s[i] == address);
                } else {
                    assert(s[s.len() - 1] == address);
                }
            }
        }
    }
}

fn holds(addresses: &Vec<String>, address: &String) -> (r: bool)
    ensures
        r == texts(addresses@).contains(address@),
{
    let mut i: usize = 0;
    while i < addresses.len()
        invariant
            i <= addresses.len(),
            forall|j: int| 0 <= j < i ==> texts(addresses@)[j] != address@,
        decreases addresses.len() - i,
    {
        if addresses[i] == *address {
            assert(texts(addresses@)[i as int] == address@);
            return true;
        }
        i += 1;
    }
    false
}

/// The addresses to listen on: those that were asked for, each once, in the
/// order in which they were first named.
pub fn listen_addresses(requested: Vec<String>) -> (addresses: Vec<String>)
    ensures
        texts(addresses@) == distinct(texts(requested@)),
{
    let ghost all = requested@;
    let mut addresses: Vec<String> = Vec::new();
    assert(texts(all.take(0)) =~= Seq::<Seq<char>>::empty());
    for address in it: requested
        invariant
            it.seq() == all,
            texts(addresses@) == distinct(texts(all.take(it.index() as int))),
    {
        proof {
            let before = texts(all.take(it.index() as int));
            let now = texts(all.take(it.index() + 1));
            assert(now.drop_last() =~= before);
            assert(now.last() == address@);
        }
        let ghost so_far = addresses@;
        if !holds(&addresses, &address) {
            addresses.push(address);
            assert(texts(addresses@) =~= texts(so_far).push(address@));
        }
    }
    assert(all.take(all.len() as int) =~= all);
    addresses
}

} // verus!
