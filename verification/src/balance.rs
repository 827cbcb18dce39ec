//! Candidate ranking inside a group: the members that may serve a request,
//! best score first, cut to the three that the weighted draw chooses among.
use vstd::prelude::*;
use crate::errors::ProxyError;
use crate::routing::{contains_id, id_listed, GroupInfo, GroupItemInfo};

verus! {

/// How many of the best-scored members the weighted draw chooses among.
pub const TOP_K: usize = 3;

/// Whether member `i` may serve: it has a positive score (given as an
/// order-preserving key) and its channel is not excluded.
pub open spec fn eligible_member(items: Seq<GroupItemInfo>, exclude: Seq<String>, keys: Seq<Option<u64>>, i: int) -> bool {
    0 <= i < items.len() && i < keys.len() && keys[i] is Some && !id_listed(exclude, items[i].channel_id@)
}

/// Rank order: a higher key first, and between equal keys the earlier member
/// first (the order a stable sort by descending score gives).
pub open spec fn ranks_before(keys: Seq<Option<u64>>, i: int, j: int) -> bool {
    keys[i].unwrap() > keys[j].unwrap() || (keys[i].unwrap() == keys[j].unwrap() && i < j)
}

/// `top` lists, in rank order, the best eligible members, as many as
/// `TOP_K` allows.
pub open spec fn is_top_ranked(items: Seq<GroupItemInfo>, exclude: Seq<String>, keys: Seq<Option<u64>>, top: Seq<usize>) -> bool {
    &&& 1 <= top.len() <= TOP_K
    &&& forall|a: int| 0 <= a < top.len() ==> eligible_member(items, exclude, keys, #[trigger] top[a] as int)
    &&& forall|a: int, b: int| 0 <= a < b < top.len() ==> ranks_before(keys, #[trigger] top[a] as int, #[trigger] top[b] as int)
    &&& forall|j: int| eligible_member(items, exclude, keys, j) && !top.contains(j as usize) ==>
            top.len() == TOP_K && forall|a: int| 0 <= a < top.len() ==> ranks_before(keys, #[trigger] top[a] as int, j)
}

/// Text of the error for a group without members.
pub open spec fn empty_group_text() -> Seq<char> {
    "分组没有可用渠道"@
}

/// Text of the error when no member of a group may serve.
pub open spec fn all_unavailable_text() -> Seq<char> {
    "所有渠道都不可用"@
}

/// Whether the member with key `ki` at `i` ranks before the one with key `kj` at `j`.
fn before(ki: u64, i: usize, kj: u64, j: usize) -> (r: bool)
    ensures
        r == (ki > kj || (ki == kj && i < j)),
{
    ki > kj || (ki == kj && i < j)
}

/// The members of a group that the weighted draw chooses among: the eligible
/// ones (positive score, channel not excluded) in rank order, at most three.
/// `keys[i]` is the order-preserving key of member `i`'s score, `None` when
/// that score is not positive.
pub fn rank_group_items(group: &GroupInfo, exclude_ids: &[String], keys: &Vec<Option<u64>>) -> (r: Result<Vec<usize>, ProxyError>)
    requires
        keys@.len() == group.items@.len(),
    ensures
        group.items@.len() == 0 ==> (r matches Err(ProxyError::NoAvailableChannel(m)) && m@ == empty_group_text()),
        group.items@.len() > 0 && !(exists|j: int| eligible_member(group.items@, exclude_ids@, keys@, j))
            ==> (r matches Err(ProxyError::NoAvailableChannel(m)) && m@ == all_unavailable_text()),
        (exists|j: int| eligible_member(group.items@, exclude_ids@, keys@, j)) ==> r is Ok,
        r matches Ok(top) ==> is_top_ranked(group.items@, exclude_ids@, keys@, top@),
{
    let n = group.items.len();
    if n == 0 {
        return Err(ProxyError::NoAvailableChannel(String::from_str("分组没有可用渠道")));
    }
    let ghost items = group.items@;
    let ghost ex = exclude_ids@;
    let ghost ks = keys@;
    let mut elig: Vec<bool> = Vec::new();
    let mut i: usize = 0;
    while i < n
        invariant
            n == items.len(),
            items == group.items@,
            ex == exclude_ids@,
            ks == keys@,
            ks.len() == n,
            0 <= i <= n,
            elig@.len() == i,
            forall|j: int| 0 <= j < i ==> #[trigger] elig@[j] == eligible_member(items, ex, ks, j),
        decreases n - i,
    {
        let e = keys[i].is_some() && !contains_id(exclude_ids, group.items[i].channel_id.as_str());
        elig.push(e);
        i = i + 1;
    }
    let mut top: Vec<usize> = Vec::new();
    let mut done = false;
    while !done && top.len() < TOP_K
        invariant
            n == items.len(),
            ks.len() == n,
            ks == keys@,
            elig@.len() == n,
            forall|j: int| 0 <= j < n ==> #[trigger] elig@[j] == eligible_member(items, ex, ks, j),
            top@.len() <= TOP_K,
            forall|a: int| 0 <= a < top@.len() ==> eligible_member(items, ex, ks, #[trigger] top@[a] as int),
            forall|a: int, b: int| 0 <= a < b < top@.len() ==> ranks_before(ks, #[trigger] top@[a] as int, #[trigger] top@[b] as int),
            forall|j: int| eligible_member(items, ex, ks, j) && !top@.contains(j as usize) ==>
                forall|a: int| 0 <= a < top@.len() ==> ranks_before(ks, #[trigger] top@[a] as int, j),
            done ==> forall|j: int| eligible_member(items, ex, ks, j) ==> top@.contains(j as usize),
        decreases TOP_K - top@.len() + (if done { 0int } else { 1int }),
    {
        let t = top.len();
        let mut best: Option<usize> = None;
        let mut j: usize = 0;
        while j < n
            invariant
                n == items.len(),
                ks.len() == n,
                ks == keys@,
                elig@.len() == n,
                forall|k: int| 0 <= k < n ==> #[trigger] elig@[k] == eligible_member(items, ex, ks, k),
                t == top@.len(),
                0 <= j <= n,
                forall|a: int| 0 <= a < top@.len() ==> eligible_member(items, ex, ks, #[trigger] top@[a] as int),
                match best {
                    Some(b) => b < j && eligible_member(items, ex, ks, b as int)
                        && (t == 0 || ranks_before(ks, top@[t - 1] as int, b as int))
                        && forall|k: int| 0 <= k < j && eligible_member(items, ex, ks, k)
                            && (t == 0 || ranks_before(ks, top@[t - 1] as int, k)) && k != b
                            ==> ranks_before(ks, b as int, k),
                    None => forall|k: int| 0 <= k < j && eligible_member(items, ex, ks, k)
                        ==> !(t == 0 || ranks_before(ks, top@[t - 1] as int, k)),
                },
            decreases n - j,
        {
            if elig[j] {
                let kj = keys[j].unwrap();
                let after_last = if t == 0 {
                    true
                } else {
                    let last = top[t - 1];
                    proof { assert(eligible_member(items, ex, ks, top@[t - 1] as int)); }
                    before(keys[last].unwrap(), last, kj, j)
                };
                assert(after_last == (t == 0 || ranks_before(ks, top@[t - 1] as int, j as int)));
                if after_last {
                    match best {
                        None => {
                            best = Some(j);
                        },
                        Some(b) => {
                            if before(kj, j, keys[b].unwrap(), b) {
                                best = Some(j);
                                proof {
                                    assert forall|k: int| 0 <= k < j + 1 && eligible_member(items, ex, ks, k)
                                        && (t == 0 || ranks_before(ks, top@[t - 1] as int, k)) && k != j
                                        implies ranks_before(ks, j as int, k) by {
                                        if k != b {
                                            assert(ranks_before(ks, b as int, k));
                                        }
                                    }
                                }
                            } else {
                                assert(ranks_before(ks, b as int, j as int));
                            }
                        },
                    }
                }
            }
            j = j + 1;
        }
        match best {
            None => {
                proof {
                    assert forall|k: int| eligible_member(items, ex, ks, k) implies top@.contains(k as usize) by {
                        if !top@.contains(k as usize) {
                            if t > 0 {
                                assert(ranks_before(ks, top@[t - 1] as int, k));
                            }
                        }
                    }
                }
                done = true;
            },
            Some(b) => {
                let ghost old_top = top@;
                top.push(b);
                proof {
                    assert forall|j2: int| eligible_member(items, ex, ks, j2) && !top@.contains(j2 as usize) implies
                        forall|a: int| 0 <= a < top@.len() ==> ranks_before(ks, #[trigger] top@[a] as int, j2) by {
                        assert(!old_top.contains(j2 as usize)) by {
                            if old_top.contains(j2 as usize) {
                                let w = choose|w: int| 0 <= w < old_top.len() && old_top[w] == j2 as usize;
                                assert(top@[w] == j2 as usize);
                            }
                        }
                        assert(j2 as usize != b) by {
                            assert(top@[t as int] == b);
                        }
                        if t > 0 {
                            assert(ranks_before(ks, old_top[t - 1] as int, j2));
                        }
                        assert forall|a: int| 0 <= a < top@.len() implies ranks_before(ks, #[trigger] top@[a] as int, j2) by {
                            if a < t {
                                assert(top@[a] == old_top[a]);
                            }
                        }
                    }
                    assert forall|a: int, c: int| 0 <= a < c < top@.len() implies ranks_before(ks, #[trigger] top@[a] as int, #[trigger] top@[c] as int) by {
                        if c == t && a < t - 1 {
                            assert(ranks_before(ks, old_top[a] as int, old_top[t - 1] as int));
                        }
                    }
                }
            },
        }
    }
    if top.len() == 0 {
        proof {
            assert forall|j: int| !eligible_member(items, ex, ks, j) by {
                if eligible_member(items, ex, ks, j) {
                    assert(!top@.contains(j as usize));
                }
            }
        }
        return Err(ProxyError::NoAvailableChannel(String::from_str("所有渠道都不可用")));
    }
    assert(eligible_member(items, ex, ks, top@[0] as int));
    Ok(top)
}

} // verus!
