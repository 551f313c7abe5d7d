//! Keys of ordered collections, listed from the lowest to the highest.

use std::collections::BTreeMap;

use vstd::prelude::*;

verus! {

broadcast use vstd::laws_cmp::group_laws_cmp;

/// Whether a list goes strictly up.
pub open spec fn increasing(list: Seq<u64>) -> bool {
    forall|i: int, j: int| 0 <= i < j < list.len() ==> list[i] < list[j]
}

/// Whether a list holds exactly the members of a set, from the lowest to the
/// highest.
pub open spec fn lists(list: Seq<u64>, members: Set<u64>) -> bool {
    &&& increasing(list)
    &&& forall|member: u64| #[trigger] members.contains(member) <==> list.contains(member)
}

/// A set has at most one such list.
pub proof fn lemma_lists_unique(first: Seq<u64>, second: Seq<u64>, members: Set<u64>)
    requires
        lists(first, members),
        lists(second, members),
    ensures
        first == second,
    decreases first.len(),
{
    if first.len() == 0 {
        if second.len() > 0 {
            assert(second.contains(second[0]));
            assert(members.contains(second[0]));
        }
        assert(first =~= second);
    } else {
        let top = first.last();
        assert(first.contains(top));
        assert(members.contains(top));
        let at = choose|at: int| 0 <= at < second.len() && second[at] == top;
        assert(second.contains(second.last()));
        assert(members.contains(second.last()));
        let back = choose|back: int| 0 <= back < first.len() && first[back] == second.last();
        assert(second.last() == top);
        let rest = members.remove(top);
        assert forall|member: u64| #[trigger] rest.contains(member) <==> first.drop_last().contains(
            member,
        ) by {
            if rest.contains(member) {
                assert(first.contains(member));
                let k = choose|k: int| 0 <= k < first.len() && first[k] == member;
                assert(first.drop_last()[k] == member);
            }
            if first.drop_last().contains(member) {
                let k = choose|k: int|
                    0 <= k < first.drop_last().len() && first.drop_last()[k] == member;
                assert(first[k] == member);
                assert(members.contains(member));
            }
        }
        assert forall|member: u64| #[trigger] rest.contains(
            member,
        ) <==> second.drop_last().contains(member) by {
            if rest.contains(member) {
                assert(second.contains(member));
                let k = choose|k: int| 0 <= k < second.len() && second[k] == member;
                assert(second.drop_last()[k] == member);
            }
            if second.drop_last().contains(member) {
                let k = choose|k: int|
                    0 <= k < second.drop_last().len() && second.drop_last()[k] == member;
                assert(second[k] == member);
                assert(members.contains(member));
            }
        }
        lemma_lists_unique(first.drop_last(), second.drop_last(), rest);
        assert(first =~= first.drop_last().push(top));
        assert(second =~= second.drop_last().push(top));
    }
}

/// The members of a set, from the lowest to the highest.
pub open spec fn in_order(members: Set<u64>) -> Seq<u64> {
    choose|list: Seq<u64>| lists(list, members)
}

/// A list of all members in order is the one such list.
pub proof fn lemma_in_order(list: Seq<u64>, members: Set<u64>)
    requires
        lists(list, members),
    ensures
        list == in_order(members),
{
    lemma_lists_unique(list, in_order(members), members);
}

/// Every set has a list of its members in order.
pub proof fn lemma_in_order_lists(members: Set<u64>)
    ensures
        lists(in_order(members), members),
{
    lemma_bounded_lists(members, u64::MAX as int + 1);
}

proof fn lemma_bounded_lists(members: Set<u64>, bound: int)
    requires
        0 <= bound <= u64::MAX as int + 1,
        forall|member: u64| #[trigger] members.contains(member) ==> member < bound,
    ensures
        exists|list: Seq<u64>| lists(list, members),
    decreases bound,
{
    if bound == 0 {
        let list = Seq::<u64>::empty();
        assert(lists(list, members));
    } else {
        let top = (bound - 1) as u64;
        let rest = members.remove(top);
        lemma_bounded_lists(rest, bound - 1);
        let below = choose|list: Seq<u64>| lists(list, rest);
        if members.contains(top) {
            let list = below.push(top);
            assert forall|i: int, j: int| 0 <= i < j < list.len() implies list[i] < list[j] by {
                assert(below.contains(below[i]));
                assert(rest.contains(below[i]));
            }
            assert forall|member: u64| #[trigger] members.contains(member) <==> list.contains(
                member,
            ) by {
                if members.contains(member) {
                    if member == top {
                        assert(list[below.len() as int] == top);
                    } else {
                        assert(rest.contains(member));
                        let k = choose|k: int| 0 <= k < below.len() && below[k] == member;
                        assert(list[k] == member);
                    }
                }
                if list.contains(member) {
                    let k = choose|k: int| 0 <= k < list.len() && list[k] == member;
                    if k < below.len() {
                        assert(below.contains(below[k]));
                        assert(rest.contains(member));
                    }
                }
            }
            assert(lists(list, members));
        } else {
            assert(rest =~= members);
        }
    }
}

/// Borrow the value of a key for change.
///
/// Calls `BTreeMap::get_mut`, which gives a mutable reference to the value of
/// the key if the map holds it, and touches nothing else in the map.
#[verifier::external_body]
pub(crate) fn value_mut<V>(map: &mut BTreeMap<u64, V>, key: u64) -> (value: Option<&mut V>)
    ensures
        match value {
            Some(value) => {
                &&& old(map)@.contains_key(key)
                &&& *value == old(map)@[key]
                &&& final(map)@ == old(map)@.insert(key, *final(value))
            },
            None => {
                &&& !old(map)@.contains_key(key)
                &&& final(map)@ == old(map)@
            },
        },
{
    map.get_mut(&key)
}

/// Keys of a map, from the lowest to the highest.
pub fn ordered_keys<V>(map: &BTreeMap<u64, V>) -> (keys: Vec<u64>)
    ensures
        lists(keys@, map@.dom()),
        keys@ == in_order(map@.dom()),
{
    let mut keys: Vec<u64> = Vec::new();
    let pairs = map.iter();
    let ghost all = vstd::std_specs::iter::IteratorSpec::remaining(&pairs);
    let ghost names = all.map_values(|pair: (&u64, &V)| *pair.0);
    for pair in iter: pairs
        invariant
            iter.seq() == all,
            keys@ == names.take(iter.index()),
            names == all.map_values(|pair: (&u64, &V)| *pair.0),
    {
        keys.push(*pair.0);
        assert(keys@ =~= names.take(iter.index() + 1));
    }
    proof {
        assert(keys@ =~= names);
        assert forall|i: int, j: int| 0 <= i < j < keys@.len() implies keys@[i] < keys@[j] by {
            assert(vstd::std_specs::btree::increasing_seq(names));
            assert(vstd::std_specs::cmp::OrdSpec::cmp_spec(&names[i], &names[j]) is Less);
        }
        assert forall|member: u64| #[trigger] map@.dom().contains(member) <==> keys@.contains(
            member,
        ) by {
            if map@.contains_key(member) {
                assert(all.contains((&member, &map@[member])));
                let k = choose|k: int| 0 <= k < all.len() && all[k] == (&member, &map@[member]);
                assert(keys@[k] == member);
            }
            if keys@.contains(member) {
                let k = choose|k: int| 0 <= k < keys@.len() && keys@[k] == member;
                assert(map@.contains_key(*all[k].0));
            }
        }
        lemma_in_order(keys@, map@.dom());
    }
    keys
}

/// Law: the members of a set are listed from the lowest to the highest, each
/// once and no others.
pub proof fn law_members_are_listed_in_order(members: Set<u64>, i: int, j: int)
    requires
        members.finite(),
        0 <= i < j < in_order(members).len(),
    ensures
        in_order(members)[i] < in_order(members)[j],
        members.contains(in_order(members)[i]),
        members.contains(in_order(members)[j]),
{
    lemma_in_order_lists(members);
    assert(in_order(members).contains(in_order(members)[i]));
    assert(in_order(members).contains(in_order(members)[j]));
}

} // verus!
