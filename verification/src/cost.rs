//! Which price list answers for a model: the locally set prices first, then
//! the fetched ones by exact name, then the first fetched name that shares a
//! prefix with the model's name stripped of its last `-` part.
use vstd::prelude::*;
use vstd::string::*;
use crate::text::{text_eq, is_prefix, char_prefix};

verus! {

/// Where a model's price comes from: a position in the local or the fetched
/// list of priced model names.
#[derive(Debug, Clone, Copy, PartialEq, Eq, Structural)]
pub enum PricingSource {
    Local(usize),
    Remote(usize),
}

/// Position of the last `-` among the first `n` characters of `m`.
pub open spec fn last_dash_before(m: Seq<char>, n: int) -> Option<int>
    decreases n,
{
    if n <= 0 {
        None
    } else if m[n - 1] == '-' {
        Some(n - 1)
    } else {
        last_dash_before(m, n - 1)
    }
}

/// A model name without its version suffix: what precedes its last `-`, or
/// the whole name when it has none.
pub open spec fn base_model_spec(m: Seq<char>) -> Seq<char> {
    match last_dash_before(m, m.len() as int) {
        Some(i) => m.subrange(0, i),
        None => m,
    }
}

/// Whether a priced name loosely matches a base name: one starts with the other.
pub open spec fn loose_match(key: Seq<char>, base: Seq<char>) -> bool {
    is_prefix(base, key) || is_prefix(key, base)
}

/// First position at or after `i` whose name is `k`.
pub open spec fn first_equal(keys: Seq<Seq<char>>, k: Seq<char>, i: int) -> Option<int>
    decreases keys.len() - i,
{
    if i < 0 || i >= keys.len() {
        None
    } else if keys[i] == k {
        Some(i)
    } else {
        first_equal(keys, k, i + 1)
    }
}

/// First position at or after `i` whose name loosely matches `base`.
pub open spec fn first_loose(keys: Seq<Seq<char>>, base: Seq<char>, i: int) -> Option<int>
    decreases keys.len() - i,
{
    if i < 0 || i >= keys.len() {
        None
    } else if loose_match(keys[i], base) {
        Some(i)
    } else {
        first_loose(keys, base, i + 1)
    }
}

/// The price listed for exactly this model: local first, then fetched.
pub open spec fn listed_spec(model: Seq<char>, local: Seq<Seq<char>>, remote: Seq<Seq<char>>) -> Option<PricingSource> {
    match first_equal(local, model, 0) {
        Some(i) => Some(PricingSource::Local(i as usize)),
        None => match first_equal(remote, model, 0) {
            Some(j) => Some(PricingSource::Remote(j as usize)),
            None => None,
        },
    }
}

/// The price a cost is computed with: the listed one, else the first fetched
/// name that loosely matches the model's base name.
pub open spec fn cost_spec(model: Seq<char>, local: Seq<Seq<char>>, remote: Seq<Seq<char>>) -> Option<PricingSource> {
    match listed_spec(model, local, remote) {
        Some(s) => Some(s),
        None => match first_loose(remote, base_model_spec(model), 0) {
            Some(j) => Some(PricingSource::Remote(j as usize)),
            None => None,
        },
    }
}

/// The names of a list of strings.
pub open spec fn names(v: Seq<String>) -> Seq<Seq<char>> {
    v.map_values(|s: String| s@)
}

/// A model name without its version suffix (what precedes its last `-`).
pub fn base_model(model: &str) -> (r: &str)
    ensures
        r@ == base_model_spec(model@),
{
    let n = model.unicode_len();
    let mut i: usize = n;
    while i > 0
        invariant
            n == model@.len(),
            0 <= i <= n,
            last_dash_before(model@, n as int) == last_dash_before(model@, i as int),
        decreases i,
    {
        if model.get_char(i - 1) == '-' {
            return model.substring_char(0, i - 1);
        }
        i = i - 1;
    }
    model
}

fn find_equal(keys: &Vec<String>, k: &str) -> (r: Option<usize>)
    ensures
        match first_equal(names(keys@), k@, 0) {
            Some(i) => r == Some(i as usize),
            None => r is None,
        },
{
    let ghost ks = names(keys@);
    let mut i: usize = 0;
    while i < keys.len()
        invariant
            ks == names(keys@),
            ks.len() == keys@.len(),
            0 <= i <= keys@.len(),
            first_equal(ks, k@, 0) == first_equal(ks, k@, i as int),
        decreases keys@.len() - i,
    {
        assert(ks[i as int] == keys@[i as int]@);
        if text_eq(keys[i].as_str(), k) {
            return Some(i);
        }
        i = i + 1;
    }
    None
}

fn find_loose(keys: &Vec<String>, base: &str) -> (r: Option<usize>)
    ensures
        match first_loose(names(keys@), base@, 0) {
            Some(i) => r == Some(i as usize),
            None => r is None,
        },
{
    let ghost ks = names(keys@);
    let mut i: usize = 0;
    while i < keys.len()
        invariant
            ks == names(keys@),
            ks.len() == keys@.len(),
            0 <= i <= keys@.len(),
            first_loose(ks, base@, 0) == first_loose(ks, base@, i as int),
        decreases keys@.len() - i,
    {
        assert(ks[i as int] == keys@[i as int]@);
        let key = keys[i].as_str();
        if char_prefix(base, key) || char_prefix(key, base) {
            return Some(i);
        }
        i = i + 1;
    }
    None
}

/// The price listed for exactly `model`: a local one first, then a fetched
/// one (`None` when neither list names it).
pub fn get_pricing(model: &str, local: &Vec<String>, remote: &Vec<String>) -> (r: Option<PricingSource>)
    ensures
        r == listed_spec(model@, names(local@), names(remote@)),
{
    match find_equal(local, model) {
        Some(i) => Some(PricingSource::Local(i)),
        None => match find_equal(remote, model) {
            Some(j) => Some(PricingSource::Remote(j)),
            None => None,
        },
    }
}

/// The price a request's cost is computed with: the listed one, else the first
/// fetched name that starts with the model's base name or that the base name
/// starts with (`None`: the cost is zero).
pub fn cost_pricing(model: &str, local: &Vec<String>, remote: &Vec<String>) -> (r: Option<PricingSource>)
    ensures
        r == cost_spec(model@, names(local@), names(remote@)),
{
    match get_pricing(model, local, remote) {
        Some(s) => Some(s),
        None => match find_loose(remote, base_model(model)) {
            Some(j) => Some(PricingSource::Remote(j)),
            None => None,
        },
    }
}

/// Every price, once: all local ones in order, then each fetched one whose
/// model has no local price.
pub open spec fn all_pricing_spec(local: Seq<Seq<char>>, remote: Seq<Seq<char>>, j: int) -> Seq<PricingSource>
    decreases j,
{
    if j <= 0 {
        Seq::new(local.len(), |i: int| PricingSource::Local(i as usize))
    } else {
        let rest = all_pricing_spec(local, remote, j - 1);
        if first_equal(local, remote[j - 1], 0) is Some {
            rest
        } else {
            rest.push(PricingSource::Remote((j - 1) as usize))
        }
    }
}

/// Every price, once: the local ones, then the fetched ones not set locally.
pub fn get_all_pricing(local: &Vec<String>, remote: &Vec<String>) -> (r: Vec<PricingSource>)
    ensures
        r@ == all_pricing_spec(names(local@), names(remote@), remote@.len() as int),
{
    let ghost ls = names(local@);
    let ghost rs = names(remote@);
    let mut all: Vec<PricingSource> = Vec::new();
    let mut i: usize = 0;
    while i < local.len()
        invariant
            0 <= i <= local@.len(),
            all@ =~= Seq::new(i as nat, |k: int| PricingSource::Local(k as usize)),
        decreases local@.len() - i,
    {
        all.push(PricingSource::Local(i));
        i = i + 1;
    }
    assert(all@ == all_pricing_spec(ls, rs, 0));
    let mut j: usize = 0;
    while j < remote.len()
        invariant
            ls == names(local@),
            rs == names(remote@),
            rs.len() == remote@.len(),
            0 <= j <= remote@.len(),
            all@ == all_pricing_spec(ls, rs, j as int),
        decreases remote@.len() - j,
    {
        assert(rs[j as int] == remote@[j as int]@);
        if find_equal(local, remote[j].as_str()).is_none() {
            all.push(PricingSource::Remote(j));
        }
        j = j + 1;
    }
    all
}

/// A locally set price always wins: it is used for the model's cost and
/// shown as its price, whatever the fetched prices say.
pub proof fn lemma_local_price_first(model: Seq<char>, local: Seq<Seq<char>>, remote: Seq<Seq<char>>)
    requires
        first_equal(local, model, 0) is Some,
    ensures
        listed_spec(model, local, remote) == Some(PricingSource::Local(first_equal(local, model, 0)->0 as usize)),
        cost_spec(model, local, remote) == listed_spec(model, local, remote),
{
}

proof fn lemma_first_equal_none(keys: Seq<Seq<char>>, k: Seq<char>, i: int)
    requires
        0 <= i,
    ensures
        first_equal(keys, k, i) is None <==> forall|j: int| i <= j < keys.len() ==> keys[j] != k,
    decreases keys.len() - i,
{
    if i < keys.len() {
        lemma_first_equal_none(keys, k, i + 1);
    }
}

/// The full price list shows every local price, and a fetched price exactly
/// when no local price has the same model name.
pub proof fn lemma_all_pricing(local: Seq<Seq<char>>, remote: Seq<Seq<char>>, n: int)
    requires
        0 <= n <= remote.len(),
        local.len() <= usize::MAX,
        remote.len() <= usize::MAX,
    ensures
        forall|i: usize| i < local.len() ==> #[trigger] all_pricing_spec(local, remote, n).contains(PricingSource::Local(i)),
        forall|j: usize| j < n ==> (#[trigger] all_pricing_spec(local, remote, n).contains(PricingSource::Remote(j))
            <==> !local.contains(remote[j as int])),
    decreases n,
{
    let all = all_pricing_spec(local, remote, n);
    if n == 0 {
        assert forall|i: usize| i < local.len() implies #[trigger] all.contains(PricingSource::Local(i)) by {
            assert(all[i as int] == PricingSource::Local(i));
        }
    } else {
        lemma_all_pricing(local, remote, n - 1);
        let rest = all_pricing_spec(local, remote, n - 1);
        lemma_first_equal_none(local, remote[n - 1], 0);
        assert(first_equal(local, remote[n - 1], 0) is None <==> !local.contains(remote[n - 1])) by {
            if local.contains(remote[n - 1]) {
                let k = choose|k: int| 0 <= k < local.len() && local[k] == remote[n - 1];
            }
        }
        assert forall|x: PricingSource| rest.contains(x) implies all.contains(x) by {
            let k = choose|k: int| 0 <= k < rest.len() && rest[k] == x;
            if all != rest {
                assert(all[k] == x);
            }
        }
        lemma_remote_positions(local, remote, n - 1);
        assert forall|j: usize| j < n implies (#[trigger] all.contains(PricingSource::Remote(j))
            <==> !local.contains(remote[j as int])) by {
            let x = PricingSource::Remote(j);
            if all != rest {
                assert(all == rest.push(PricingSource::Remote((n - 1) as usize)));
                if all.contains(x) {
                    let k = choose|k: int| 0 <= k < all.len() && all[k] == x;
                    if k < rest.len() {
                        assert(rest[k] == x);
                    }
                }
            }
            if j < n - 1 {
                assert(rest.contains(x) <==> !local.contains(remote[j as int]));
                if all != rest {
                    assert(x != PricingSource::Remote((n - 1) as usize));
                    assert(all.contains(x) ==> rest.contains(x));
                }
                assert(all.contains(x) <==> rest.contains(x));
            } else {
                assert(j as int == n - 1);
                assert((n - 1) as usize == j);
                if all != rest {
                    assert(all[rest.len() as int] == x);
                    assert(first_equal(local, remote[n - 1], 0) is None);
                } else {
                    if rest.contains(x) {
                        assert(match x {
                            PricingSource::Local(i) => i < local.len(),
                            PricingSource::Remote(j) => j < n - 1,
                        });
                    }
                }
            }
        }
    }
}

/// The fetched prices listed among the first `n` are at positions below `n`.
proof fn lemma_remote_positions(local: Seq<Seq<char>>, remote: Seq<Seq<char>>, n: int)
    requires
        0 <= n <= remote.len(),
        local.len() <= usize::MAX,
        remote.len() <= usize::MAX,
    ensures
        forall|x: PricingSource| all_pricing_spec(local, remote, n).contains(x) ==> match x {
            PricingSource::Local(i) => i < local.len(),
            PricingSource::Remote(j) => j < n,
        },
    decreases n,
{
    let all = all_pricing_spec(local, remote, n);
    if n > 0 {
        lemma_remote_positions(local, remote, n - 1);
        let rest = all_pricing_spec(local, remote, n - 1);
        assert forall|x: PricingSource| all.contains(x) implies match x {
            PricingSource::Local(i) => i < local.len(),
            PricingSource::Remote(j) => j < n,
        } by {
            let k = choose|k: int| 0 <= k < all.len() && all[k] == x;
            if k < rest.len() {
                assert(rest[k] == x);
                assert(rest.contains(x));
            }
        }
    } else {
        assert forall|x: PricingSource| all.contains(x) implies match x {
            PricingSource::Local(i) => i < local.len(),
            PricingSource::Remote(j) => j < n,
        } by {
            let k = choose|k: int| 0 <= k < all.len() && all[k] == x;
        }
    }
}

/// Whether `s` starts with `p`.
pub open spec fn starts_with(s: Seq<char>, p: Seq<char>) -> bool {
    p.len() <= s.len() && s.subrange(0, p.len() as int) =~= p
}

proof fn lemma_first_equal_absent(keys: Seq<Seq<char>>, k: Seq<char>, i: int)
    requires
        0 <= i,
        forall|j: int| 0 <= j < keys.len() ==> keys[j] != k,
    ensures
        first_equal(keys, k, i) is None,
    decreases keys.len() - i,
{
    if i < keys.len() {
        lemma_first_equal_absent(keys, k, i + 1);
    }
}

proof fn lemma_first_loose_at(keys: Seq<Seq<char>>, base: Seq<char>, j: int, k: int)
    requires
        0 <= k <= j < keys.len(),
        starts_with(keys[j], base) || starts_with(base, keys[j]),
        forall|m: int| 0 <= m < j ==> !(starts_with(keys[m], base) || starts_with(base, keys[m])),
    ensures
        first_loose(keys, base, k) == Some(j),
    decreases j - k,
{
    if k < j {
        lemma_first_loose_at(keys, base, j, k + 1);
    }
}

/// Loose price matching: when neither list prices the model by its exact
/// name, the price used is the first fetched one whose name starts with the
/// model's base name, or that the base name starts with; so there is always
/// one when some fetched name starts with the base name.
pub proof fn lemma_loose_price(model: Seq<char>, local: Seq<Seq<char>>, remote: Seq<Seq<char>>, j: int)
    requires
        forall|k: int| 0 <= k < local.len() ==> local[k] != model,
        forall|k: int| 0 <= k < remote.len() ==> remote[k] != model,
        0 <= j < remote.len(),
        starts_with(remote[j], base_model_spec(model)) || starts_with(base_model_spec(model), remote[j]),
        forall|m: int| 0 <= m < j ==> !(starts_with(remote[m], base_model_spec(model))
            || starts_with(base_model_spec(model), remote[m])),
    ensures
        cost_spec(model, local, remote) == Some(PricingSource::Remote(j as usize)),
{
    lemma_first_equal_absent(local, model, 0);
    lemma_first_equal_absent(remote, model, 0);
    lemma_first_loose_at(remote, base_model_spec(model), j, 0);
}

proof fn lemma_last_dash(m: Seq<char>, i: int, n: int)
    requires
        0 <= i < n <= m.len(),
        m[i] == '-',
        forall|k: int| i < k < n ==> m[k] != '-',
    ensures
        last_dash_before(m, n) == Some(i),
    decreases n,
{
    if n - 1 > i {
        lemma_last_dash(m, i, n - 1);
    }
}

proof fn lemma_no_dash(m: Seq<char>, n: int)
    requires
        n <= m.len(),
        forall|k: int| 0 <= k < n ==> m[k] != '-',
    ensures
        last_dash_before(m, n) is None,
    decreases n,
{
    if n > 0 {
        lemma_no_dash(m, n - 1);
    }
}

/// A model's base name is the text before its last `-`.
pub proof fn lemma_base_model_cut(m: Seq<char>, i: int)
    requires
        0 <= i < m.len(),
        m[i] == '-',
        forall|k: int| i < k < m.len() ==> m[k] != '-',
    ensures
        base_model_spec(m) == m.subrange(0, i),
{
    lemma_last_dash(m, i, m.len() as int);
}

/// A model name without a `-` is its own base name.
pub proof fn lemma_base_model_whole(m: Seq<char>)
    requires
        forall|k: int| 0 <= k < m.len() ==> m[k] != '-',
    ensures
        base_model_spec(m) == m,
{
    lemma_no_dash(m, m.len() as int);
}

} // verus!
