//! Channels, groups and model mapping: which channel serves a model, what
//! model name is sent upstream, and which API key a request uses.
use vstd::prelude::*;
use crate::endpoint::{EndpointConfig, EndpointType};
use crate::errors::ProxyError;
use crate::text::{contains_char, replace_char, replace_char_spec, text_eq};
use crate::wildcard::{has_wildcard, regex_matches, regex_search, wildcard_match, wildcard_matches};

verus! {

/// One model mapping of a channel: a source model pattern and, when the
/// configured target is a JSON string, that target.
#[derive(Debug, Clone)]
pub struct ModelMapEntry {
    pub source: String,
    pub target: Option<String>,
}

/// The model mappings of a channel, in the order the configuration lists them.
#[derive(Debug, Clone)]
pub struct ModelMaps {
    pub entries: Vec<ModelMapEntry>,
}

/// View of an optional string.
pub open spec fn opt_view(o: Option<String>) -> Option<Seq<char>> {
    match o {
        Some(s) => Some(s@),
        None => None,
    }
}

/// View of the entries: pairs of source pattern and optional string target.
pub open spec fn entries_view(entries: Seq<ModelMapEntry>) -> Seq<(Seq<char>, Option<Seq<char>>)> {
    Seq::new(entries.len(), |i: int| (entries[i].source@, opt_view(entries[i].target)))
}

/// The mapping pairs that `serde_json` reads from a channel's `model_maps`
/// text: the members of the top-level object (none when the text is not an
/// object), each with its target when that is a string.
pub uninterp spec fn model_map_pairs(text: Seq<char>) -> Seq<(Seq<char>, Option<Seq<char>>)>;

/// Parses `text` with `serde_json` (a parse failure reads as JSON `null`) and
/// lists the members of the top-level object in `serde_json`'s iteration
/// order, keeping a target when `as_str` gives one.
#[verifier::external_body]
fn read_model_map_pairs(text: &str) -> (r: Vec<ModelMapEntry>)
    ensures
        entries_view(r@) == model_map_pairs(text@),
{
    let value: serde_json::Value = serde_json::from_str(text).unwrap_or_default();
    let mut entries = Vec::new();
    if let Some(object) = value.as_object() {
        for (source, target) in object {
            entries.push(ModelMapEntry { source: source.clone(), target: target.as_str().map(|t| t.to_string()) });
        }
    }
    entries
}

impl ModelMaps {
    /// Reads the model mappings stored as JSON text on a channel.
    pub fn parse(text: &str) -> (r: ModelMaps)
        ensures
            entries_view(r.entries@) == model_map_pairs(text@),
    {
        ModelMaps { entries: read_model_map_pairs(text) }
    }
}

/// The target of the first mapping whose source is exactly `model`, starting at `i`.
pub open spec fn exact_entry(entries: Seq<ModelMapEntry>, model: Seq<char>, i: int) -> Option<Option<Seq<char>>>
    decreases entries.len() - i,
{
    if i < 0 || i >= entries.len() {
        None
    } else if entries[i].source@ == model {
        Some(opt_view(entries[i].target))
    } else {
        exact_entry(entries, model, i + 1)
    }
}

/// Whether a mapping applies to `model` as a wildcard with a string target.
pub open spec fn wildcard_applies(e: ModelMapEntry, model: Seq<char>) -> bool {
    has_wildcard(e.source@) && e.target is Some && wildcard_matches(e.source@, model)
}

/// The mapped model from the first wildcard mapping (from `i`) that applies:
/// its target with each `*` replaced by `model`.
pub open spec fn wildcard_entry(entries: Seq<ModelMapEntry>, model: Seq<char>, i: int) -> Option<Seq<char>>
    decreases entries.len() - i,
{
    if i < 0 || i >= entries.len() {
        None
    } else if wildcard_applies(entries[i], model) {
        Some(replace_char_spec(entries[i].target.unwrap()@, '*', model))
    } else {
        wildcard_entry(entries, model, i + 1)
    }
}

/// The model name sent upstream for a requested `model`: an exact mapping
/// with a string target wins, then the first applicable wildcard mapping,
/// else the model itself.
pub open spec fn mapped_model(maps: ModelMaps, model: Seq<char>) -> Seq<char> {
    match exact_entry(maps.entries@, model, 0) {
        Some(Some(t)) => t,
        _ => match wildcard_entry(maps.entries@, model, 0) {
            Some(t) => t,
            None => model,
        },
    }
}

fn exact_target(maps: &ModelMaps, model: &str) -> (r: Option<Option<String>>)
    ensures
        match r {
            Some(t) => exact_entry(maps.entries@, model@, 0) == Some(opt_view(t)),
            None => exact_entry(maps.entries@, model@, 0) is None,
        },
{
    let n = maps.entries.len();
    let mut i: usize = 0;
    while i < n
        invariant
            n == maps.entries@.len(),
            0 <= i <= n,
            exact_entry(maps.entries@, model@, 0) == exact_entry(maps.entries@, model@, i as int),
        decreases n - i,
    {
        let e = &maps.entries[i];
        if text_eq(e.source.as_str(), model) {
            return Some(e.target.clone());
        }
        i = i + 1;
    }
    None
}

fn wildcard_target(maps: &ModelMaps, model: &str) -> (r: Option<String>)
    ensures
        opt_view(r) == wildcard_entry(maps.entries@, model@, 0),
{
    let n = maps.entries.len();
    let mut i: usize = 0;
    while i < n
        invariant
            n == maps.entries@.len(),
            0 <= i <= n,
            wildcard_entry(maps.entries@, model@, 0) == wildcard_entry(maps.entries@, model@, i as int),
        decreases n - i,
    {
        let e = &maps.entries[i];
        let src = e.source.as_str();
        if contains_char(src, '*') || contains_char(src, '?') {
            match &e.target {
                Some(t) => {
                    if wildcard_match(src, model) {
                        return Some(replace_char(t.as_str(), '*', model));
                    }
                },
                None => {},
            }
        }
        i = i + 1;
    }
    None
}

/// The model name to send upstream for `model` on a channel with these mappings.
pub fn apply_model_mapping(maps: &ModelMaps, model: &str) -> (r: String)
    ensures
        r@ == mapped_model(*maps, model@),
{
    match exact_target(maps, model) {
        Some(Some(t)) => {
            return t;
        },
        _ => {},
    }
    match wildcard_target(maps, model) {
        Some(t) => t,
        None => String::from_str(model),
    }
}

/// Whether a mapping makes its channel serve `model`: the source is the
/// model, the catch-all `*`, or a wildcard pattern that matches it.
pub open spec fn entry_serves(e: ModelMapEntry, model: Seq<char>) -> bool {
    e.source@ == model || e.source@ == "*"@ || (has_wildcard(e.source@) && wildcard_matches(e.source@, model))
}

/// Whether a channel with these mappings serves `model`.
pub open spec fn serves_model(maps: ModelMaps, model: Seq<char>) -> bool {
    exists|i: int| 0 <= i < maps.entries@.len() && #[trigger] entry_serves(maps.entries@[i], model)
}

/// Whether a channel with these mappings serves `model`.
pub fn channel_serves_model(maps: &ModelMaps, model: &str) -> (r: bool)
    ensures
        r == serves_model(*maps, model@),
{
    let n = maps.entries.len();
    let mut i: usize = 0;
    while i < n
        invariant
            n == maps.entries@.len(),
            0 <= i <= n,
            forall|j: int| 0 <= j < i ==> !#[trigger] entry_serves(maps.entries@[j], model@),
        decreases n - i,
    {
        let src = maps.entries[i].source.as_str();
        if text_eq(src, model) || text_eq(src, "*") {
            assert(entry_serves(maps.entries@[i as int], model@));
            return true;
        }
        if (contains_char(src, '*') || contains_char(src, '?')) && wildcard_match(src, model) {
            assert(entry_serves(maps.entries@[i as int], model@));
            return true;
        }
        i = i + 1;
    }
    false
}

/// A channel as the router sees it.
#[derive(Debug, Clone)]
pub struct ChannelInfo {
    pub id: String,
    pub name: String,
    pub api_keys: Vec<String>,
    pub endpoints: Vec<EndpointConfig>,
    pub model_maps: ModelMaps,
}

/// The first endpoint of the given type, from index `i` on.
pub open spec fn endpoint_of_type(endpoints: Seq<EndpointConfig>, t: EndpointType, i: int) -> Option<EndpointConfig>
    decreases endpoints.len() - i,
{
    if i < 0 || i >= endpoints.len() {
        None
    } else if endpoints[i].endpoint_type == t {
        Some(endpoints[i])
    } else {
        endpoint_of_type(endpoints, t, i + 1)
    }
}

/// Whether a channel has an endpoint of the given type.
pub open spec fn has_endpoint(c: ChannelInfo, t: EndpointType) -> bool {
    exists|i: int| 0 <= i < c.endpoints@.len() && #[trigger] c.endpoints@[i].endpoint_type == t
}

proof fn lemma_endpoint_of_type(endpoints: Seq<EndpointConfig>, t: EndpointType, i: int)
    requires
        0 <= i <= endpoints.len(),
    ensures
        endpoint_of_type(endpoints, t, i) is Some <==> exists|j: int| i <= j < endpoints.len() && #[trigger] endpoints[j].endpoint_type == t,
    decreases endpoints.len() - i,
{
    if i < endpoints.len() {
        lemma_endpoint_of_type(endpoints, t, i + 1);
    }
}

impl ChannelInfo {
    /// The first endpoint of the given type.
    pub fn find_endpoint(&self, endpoint_type: &EndpointType) -> (r: Option<EndpointConfig>)
        ensures
            r == endpoint_of_type(self.endpoints@, *endpoint_type, 0),
            r is Some <==> has_endpoint(*self, *endpoint_type),
    {
        proof { lemma_endpoint_of_type(self.endpoints@, *endpoint_type, 0); }
        let n = self.endpoints.len();
        let mut i: usize = 0;
        while i < n
            invariant
                n == self.endpoints@.len(),
                0 <= i <= n,
                endpoint_of_type(self.endpoints@, *endpoint_type, 0) == endpoint_of_type(self.endpoints@, *endpoint_type, i as int),
            decreases n - i,
        {
            if self.endpoints[i].endpoint_type == *endpoint_type {
                return Some(self.endpoints[i].duplicate());
            }
            i = i + 1;
        }
        None
    }

    /// The first endpoint, whatever its type.
    pub fn first_endpoint(&self) -> (r: Option<EndpointConfig>)
        ensures
            r == (if self.endpoints@.len() > 0 { Some(self.endpoints@[0]) } else { None::<EndpointConfig> }),
    {
        if self.endpoints.len() > 0 {
            Some(self.endpoints[0].duplicate())
        } else {
            None
        }
    }
}

/// Whether `id` is among `ids`.
pub open spec fn id_listed(ids: Seq<String>, id: Seq<char>) -> bool {
    exists|j: int| 0 <= j < ids.len() && #[trigger] ids[j]@ == id
}

/// Whether `id` is among `ids`.
pub fn contains_id(ids: &[String], id: &str) -> (r: bool)
    ensures
        r == id_listed(ids@, id@),
{
    let n = ids.len();
    let mut i: usize = 0;
    while i < n
        invariant
            n == ids@.len(),
            0 <= i <= n,
            forall|j: int| 0 <= j < i ==> #[trigger] ids@[j]@ != id@,
        decreases n - i,
    {
        if text_eq(ids[i].as_str(), id) {
            return true;
        }
        i = i + 1;
    }
    false
}

/// Whether a channel may directly serve `model` on endpoints of type `t`.
pub open spec fn eligible_typed(c: ChannelInfo, model: Seq<char>, t: EndpointType, exclude: Seq<String>) -> bool {
    !id_listed(exclude, c.id@) && has_endpoint(c, t) && serves_model(c.model_maps, model)
}

/// Whether a channel may directly serve `model` on any of its endpoints.
pub open spec fn eligible_any(c: ChannelInfo, model: Seq<char>, exclude: Seq<String>) -> bool {
    !id_listed(exclude, c.id@) && c.endpoints@.len() > 0 && serves_model(c.model_maps, model)
}

/// The first channel from index `i` on that is eligible for `model` on type `t`.
pub open spec fn first_typed(cands: Seq<ChannelInfo>, model: Seq<char>, t: EndpointType, exclude: Seq<String>, i: int) -> Option<ChannelInfo>
    decreases cands.len() - i,
{
    if i < 0 || i >= cands.len() {
        None
    } else if eligible_typed(cands[i], model, t, exclude) {
        Some(cands[i])
    } else {
        first_typed(cands, model, t, exclude, i + 1)
    }
}

/// The first channel from index `i` on that is eligible for `model` on any endpoint.
pub open spec fn first_any(cands: Seq<ChannelInfo>, model: Seq<char>, exclude: Seq<String>, i: int) -> Option<ChannelInfo>
    decreases cands.len() - i,
{
    if i < 0 || i >= cands.len() {
        None
    } else if eligible_any(cands[i], model, exclude) {
        Some(cands[i])
    } else {
        first_any(cands, model, exclude, i + 1)
    }
}

/// The text of the error when no channel is left to serve a request.
pub open spec fn no_channel_text() -> Seq<char> {
    "没有可用渠道"@
}

/// Whether `e` is the error for a request that no channel is left to serve.
pub open spec fn is_no_channel(e: ProxyError) -> bool {
    e matches ProxyError::NoAvailableChannel(m) && m@ == no_channel_text()
}

/// The error for a request that no channel is left to serve.
pub fn no_channel_error() -> (e: ProxyError)
    ensures
        is_no_channel(e),
{
    ProxyError::NoAvailableChannel(String::from_str("没有可用渠道"))
}

fn first_typed_index(cands: &Vec<ChannelInfo>, model: &str, endpoint_type: &EndpointType, exclude_ids: &[String]) -> (r: Option<usize>)
    ensures
        match r {
            Some(i) => i < cands@.len() && first_typed(cands@, model@, *endpoint_type, exclude_ids@, 0) == Some(cands@[i as int]),
            None => first_typed(cands@, model@, *endpoint_type, exclude_ids@, 0) is None,
        },
{
    let n = cands.len();
    let mut i: usize = 0;
    while i < n
        invariant
            n == cands@.len(),
            0 <= i <= n,
            first_typed(cands@, model@, *endpoint_type, exclude_ids@, 0) == first_typed(cands@, model@, *endpoint_type, exclude_ids@, i as int),
        decreases n - i,
    {
        let c = &cands[i];
        if !contains_id(exclude_ids, c.id.as_str()) {
            let found = c.find_endpoint(endpoint_type);
            if found.is_some() && channel_serves_model(&c.model_maps, model) {
                return Some(i);
            }
        }
        i = i + 1;
    }
    None
}

fn first_any_index(cands: &Vec<ChannelInfo>, model: &str, exclude_ids: &[String]) -> (r: Option<usize>)
    ensures
        match r {
            Some(i) => i < cands@.len() && first_any(cands@, model@, exclude_ids@, 0) == Some(cands@[i as int]),
            None => first_any(cands@, model@, exclude_ids@, 0) is None,
        },
{
    let n = cands.len();
    let mut i: usize = 0;
    while i < n
        invariant
            n == cands@.len(),
            0 <= i <= n,
            first_any(cands@, model@, exclude_ids@, 0) == first_any(cands@, model@, exclude_ids@, i as int),
        decreases n - i,
    {
        let c = &cands[i];
        if !contains_id(exclude_ids, c.id.as_str()) && c.endpoints.len() > 0
            && channel_serves_model(&c.model_maps, model) {
            return Some(i);
        }
        i = i + 1;
    }
    None
}

/// The first enabled channel (in the given order) that is not excluded, has
/// an endpoint of the requested type and serves `model`; when there is none,
/// the no-channel error.
pub fn find_channel_by_model_and_type_with_exclude(
    candidates: Vec<ChannelInfo>,
    model: &str,
    endpoint_type: &EndpointType,
    exclude_ids: &[String],
) -> (r: Result<ChannelInfo, ProxyError>)
    ensures
        match first_typed(candidates@, model@, *endpoint_type, exclude_ids@, 0) {
            Some(c) => r == Ok::<ChannelInfo, ProxyError>(c),
            None => r is Err && is_no_channel(r->Err_0),
        },
        r matches Ok(c) ==> !id_listed(exclude_ids@, c.id@) && has_endpoint(c, *endpoint_type)
            && serves_model(c.model_maps, model@),
        (exists|j: int| 0 <= j < candidates@.len() && !id_listed(exclude_ids@, (#[trigger] candidates@[j]).id@)
            && has_endpoint(candidates@[j], *endpoint_type) && serves_model(candidates@[j].model_maps, model@)) ==> r is Ok,
{
    proof { lemma_first_typed_eligible(candidates@, model@, *endpoint_type, exclude_ids@, 0); }
    match first_typed_index(&candidates, model, endpoint_type, exclude_ids) {
        Some(i) => {
            let mut v = candidates;
            let c = v.swap_remove(i);
            Ok(c)
        },
        None => Err(no_channel_error()),
    }
}

/// The first enabled channel (in the given order) that is not excluded, has
/// at least one endpoint and serves `model`; when there is none, the
/// no-channel error.
pub fn find_channel_by_model_with_exclude(
    candidates: Vec<ChannelInfo>,
    model: &str,
    exclude_ids: &[String],
) -> (r: Result<ChannelInfo, ProxyError>)
    ensures
        match first_any(candidates@, model@, exclude_ids@, 0) {
            Some(c) => r == Ok::<ChannelInfo, ProxyError>(c),
            None => r is Err && is_no_channel(r->Err_0),
        },
        r matches Ok(c) ==> !id_listed(exclude_ids@, c.id@) && c.endpoints@.len() > 0
            && serves_model(c.model_maps, model@),
        (exists|j: int| 0 <= j < candidates@.len() && !id_listed(exclude_ids@, (#[trigger] candidates@[j]).id@)
            && candidates@[j].endpoints@.len() > 0 && serves_model(candidates@[j].model_maps, model@)) ==> r is Ok,
{
    proof { lemma_first_any_eligible(candidates@, model@, exclude_ids@, 0); }
    match first_any_index(&candidates, model, exclude_ids) {
        Some(i) => {
            let mut v = candidates;
            let c = v.swap_remove(i);
            Ok(c)
        },
        None => Err(no_channel_error()),
    }
}

/// The API key at turn `turn`: keys take turns in order; a channel without
/// keys uses the empty key.
pub open spec fn api_key_at(keys: Seq<String>, turn: nat) -> Seq<char> {
    if keys.len() == 0 {
        Seq::empty()
    } else {
        keys[(turn % keys.len()) as int]@
    }
}

/// The API key at turn `turn`.
pub fn select_api_key_at(channel: &ChannelInfo, turn: usize) -> (r: String)
    ensures
        r@ == api_key_at(channel.api_keys@, turn as nat),
{
    if channel.api_keys.len() == 0 {
        return String::new();
    }
    let idx = turn % channel.api_keys.len();
    channel.api_keys[idx].clone()
}

/// The turn recorded for channel `id`: that of its last record, 0 for a
/// channel never served.
pub open spec fn turn_in(turns: Seq<(String, usize)>, id: Seq<char>) -> nat
    decreases turns.len(),
{
    if turns.len() == 0 {
        0
    } else if turns.last().0@ == id {
        turns.last().1 as nat
    } else {
        turn_in(turns.drop_last(), id)
    }
}

/// The turn after `turn` among `n` keys (kept below `n`).
pub open spec fn next_turn(turn: nat, n: nat) -> nat {
    if n == 0 { turn } else { (turn % n + 1) % n }
}

/// Round-robin choice of a channel's API keys: for each channel, the turn
/// of the key its next request uses.
#[derive(Debug)]
pub struct KeyRotation {
    turns: Vec<(String, usize)>,
}

impl KeyRotation {
    /// The turn of the next key of channel `id`.
    pub closed spec fn turn(&self, id: Seq<char>) -> nat {
        turn_in(self.turns@, id)
    }

    /// A rotation in which every channel starts with its first key.
    pub fn new() -> (r: KeyRotation)
        ensures
            forall|id: Seq<char>| #[trigger] r.turn(id) == 0,
    {
        KeyRotation { turns: Vec::new() }
    }

    /// The key for the next request to `channel` (the empty key for a
    /// channel without keys); the channel's turn moves on to its next key,
    /// and every other channel's turn stays.
    pub fn select_api_key(&mut self, channel: &ChannelInfo) -> (r: String)
        ensures
            r@ == api_key_at(channel.api_keys@, old(self).turn(channel.id@)),
            final(self).turn(channel.id@) == next_turn(old(self).turn(channel.id@), channel.api_keys@.len()),
            forall|id: Seq<char>| id != channel.id@ ==> #[trigger] final(self).turn(id) == old(self).turn(id),
    {
        let n = channel.api_keys.len();
        let len = self.turns.len();
        let mut i: usize = len;
        let mut found = false;
        assert(self.turns@.subrange(0, len as int) =~= self.turns@);
        while i > 0 && !found
            invariant
                i <= len == self.turns@.len(),
                turn_in(self.turns@.subrange(0, i as int), channel.id@) == turn_in(self.turns@, channel.id@),
                forall|j: int| i <= j < len ==> self.turns@[j].0@ != channel.id@,
                found ==> i > 0 && self.turns@[i - 1].0@ == channel.id@,
            decreases i + (if found { 0int } else { 1int }),
        {
            proof {
                let s = self.turns@.subrange(0, i as int);
                assert(s.drop_last() =~= self.turns@.subrange(0, i - 1));
            }
            if text_eq(self.turns[i - 1].0.as_str(), channel.id.as_str()) {
                found = true;
            } else {
                i = i - 1;
            }
        }
        let at: Option<usize> = if found { Some(i - 1) } else { None };
        proof {
            if found {
                let s = self.turns@.subrange(0, i as int);
                assert(s.last() == self.turns@[i - 1]);
            }
        }
        match at {
            Some(k) => {
                let current = self.turns[k].1;
                let key = select_api_key_at(channel, current);
                if n > 0 {
                    let next = (current % n + 1) % n;
                    proof {
                        assert forall|q: Seq<char>| #![auto]
                            turn_in(self.turns@.update(k as int, (channel.id, next)), q)
                                == if q == channel.id@ { next as nat } else { turn_in(self.turns@, q) } by {
                            lemma_turn_update(self.turns@, k as int, channel.id, next, q);
                        }
                    }
                    self.turns.set(k, (channel.id.clone(), next));
                }
                key
            },
            None => {
                assert(self.turns@.subrange(0, i as int) =~= Seq::<(String, usize)>::empty());
                let key = select_api_key_at(channel, 0);
                if n > 0 {
                    let next: usize = 1 % n;
                    let ghost before = self.turns@;
                    self.turns.push((channel.id.clone(), next));
                    assert(self.turns@.drop_last() =~= before);
                }
                key
            },
        }
    }
}

/// Recording turn `v` for the channel of key `k` at the last position of
/// that channel changes that channel's turn to `v` and no other.
proof fn lemma_turn_update(s: Seq<(String, usize)>, i: int, k: String, v: usize, q: Seq<char>)
    requires
        0 <= i < s.len(),
        s[i].0@ == k@,
        forall|j: int| i < j < s.len() ==> s[j].0@ != k@,
    ensures
        turn_in(s.update(i, (k, v)), q) == if q == k@ { v as nat } else { turn_in(s, q) },
    decreases s.len(),
{
    let u = s.update(i, (k, v));
    if i == s.len() - 1 {
        assert(u.drop_last() =~= s.drop_last());
    } else {
        assert(u.drop_last() =~= s.drop_last().update(i, (k, v)));
        lemma_turn_update(s.drop_last(), i, k, v, q);
    }
}

/// The turn of a channel with `n` keys after `k` requests from turn `t`.
pub open spec fn turn_after(t: nat, n: nat, k: nat) -> nat
    decreases k,
{
    if k == 0 {
        t
    } else {
        next_turn(turn_after(t, n, (k - 1) as nat), n)
    }
}

proof fn lemma_turn_after_mod(t: nat, n: nat, k: nat)
    requires
        n > 0,
    ensures
        turn_after(t, n, k) % n == (t + k) % n,
    decreases k,
{
    if k > 0 {
        let a = turn_after(t, n, (k - 1) as nat);
        lemma_turn_after_mod(t, n, (k - 1) as nat);
        vstd::arithmetic::div_mod::lemma_mod_bound(a as int, n as int);
        vstd::arithmetic::div_mod::lemma_add_mod_noop_right(1, a as int, n as int);
        vstd::arithmetic::div_mod::lemma_add_mod_noop_right(1, (t + k - 1) as int, n as int);
        vstd::arithmetic::div_mod::lemma_mod_bound(a as int % n as int + 1, n as int);
        vstd::arithmetic::div_mod::lemma_small_mod(((a % n + 1) % n) as nat, n);
    }
}

/// Round robin: over `n` consecutive requests to a channel with `n` keys,
/// starting from any turn, each key is used exactly once: no two of those
/// requests take the same key, and every key is taken by one of them.
pub proof fn lemma_round_robin(t: nat, n: nat)
    requires
        n > 0,
    ensures
        forall|k1: nat, k2: nat| k1 < k2 < n ==> #[trigger] turn_after(t, n, k1) % n != #[trigger] turn_after(t, n, k2) % n,
        forall|j: nat| j < n ==> #[trigger] key_taken_within(t, n, j),
{
    assert forall|k1: nat, k2: nat| k1 < k2 < n implies #[trigger] turn_after(t, n, k1) % n != #[trigger] turn_after(t, n, k2) % n by {
        lemma_turn_after_mod(t, n, k1);
        lemma_turn_after_mod(t, n, k2);
        vstd::arithmetic::div_mod::lemma_mod_equivalence((t + k2) as int, (t + k1) as int, n as int);
        vstd::arithmetic::div_mod::lemma_small_mod((k2 - k1) as nat, n);
    }
    assert forall|j: nat| j < n implies #[trigger] key_taken_within(t, n, j) by {
        vstd::arithmetic::div_mod::lemma_mod_bound(t as int, n as int);
        let k: nat = ((j + n - t % n) % n as int) as nat;
        vstd::arithmetic::div_mod::lemma_mod_bound((j + n - t % n) as int, n as int);
        lemma_turn_after_mod(t, n, k);
        vstd::arithmetic::div_mod::lemma_add_mod_noop_right(t as int, (j + n - t % n) as int, n as int);
        vstd::arithmetic::div_mod::lemma_fundamental_div_mod(t as int, n as int);
        assert(t + (j + n - t % n) == n * (t / n) + n + j);
        vstd::arithmetic::div_mod::lemma_mod_multiples_vanish((t / n + 1) as int, j as int, n as int);
        assert(n * (t / n) + n + j == n * (t / n + 1) + j) by (nonlinear_arith);
        vstd::arithmetic::div_mod::lemma_small_mod(j, n);
        assert(turn_after(t, n, k) % n == j);
    }
}

/// Whether one of `n` consecutive requests from turn `t` takes key `j`.
pub open spec fn key_taken_within(t: nat, n: nat, j: nat) -> bool {
    exists|k: nat| k < n && #[trigger] (turn_after(t, n, k) % n) == j
}

/// A group member: a channel and the model it serves for the group.
#[derive(Debug, Clone)]
pub struct GroupItemInfo {
    pub channel_id: String,
    pub model_name: String,
    pub priority: i32,
    pub weight: i32,
}

/// A group as the router sees it, with its members in priority order.
#[derive(Debug, Clone)]
pub struct GroupInfo {
    pub id: String,
    pub name: String,
    pub items: Vec<GroupItemInfo>,
}

/// A group that may match models by expression.
#[derive(Debug, Clone)]
pub struct GroupPattern {
    pub id: String,
    pub name: String,
    pub match_regex: Option<String>,
}

/// Whether a group's match expression matches `model`.
pub open spec fn pattern_matches(g: GroupPattern, model: Seq<char>) -> bool {
    g.match_regex is Some && regex_search(g.match_regex.unwrap()@, model) == Some(true)
}

/// The first group (in the given order) whose match expression matches `model`.
pub fn find_group_by_regex(groups: &Vec<GroupPattern>, model: &str) -> (r: Option<usize>)
    ensures
        match r {
            Some(i) => i < groups@.len() && pattern_matches(groups@[i as int], model@)
                && forall|j: int| 0 <= j < i ==> !pattern_matches(#[trigger] groups@[j], model@),
            None => forall|j: int| 0 <= j < groups@.len() ==> !pattern_matches(#[trigger] groups@[j], model@),
        },
{
    let n = groups.len();
    let mut i: usize = 0;
    while i < n
        invariant
            n == groups@.len(),
            0 <= i <= n,
            forall|j: int| 0 <= j < i ==> !pattern_matches(#[trigger] groups@[j], model@),
        decreases n - i,
    {
        match &groups[i].match_regex {
            Some(re) => {
                if regex_matches(re.as_str(), model) {
                    return Some(i);
                }
            },
            None => {},
        }
        i = i + 1;
    }
    None
}

/// A channel chosen for a model is never an excluded one, serves the model,
/// and has an endpoint of the requested type; one is chosen whenever some
/// candidate qualifies.
pub proof fn lemma_first_typed_eligible(cands: Seq<ChannelInfo>, model: Seq<char>, t: EndpointType, exclude: Seq<String>, i: int)
    requires
        0 <= i <= cands.len(),
    ensures
        first_typed(cands, model, t, exclude, i) matches Some(c) ==> !id_listed(exclude, c.id@) && has_endpoint(c, t)
            && serves_model(c.model_maps, model),
        first_typed(cands, model, t, exclude, i) is None
            <==> forall|j: int| i <= j < cands.len() ==> !(!id_listed(exclude, (#[trigger] cands[j]).id@)
                && has_endpoint(cands[j], t) && serves_model(cands[j].model_maps, model)),
    decreases cands.len() - i,
{
    if i < cands.len() {
        lemma_first_typed_eligible(cands, model, t, exclude, i + 1);
    }
}

/// A channel chosen for a model on any endpoint is never an excluded one,
/// serves the model and has an endpoint; one is chosen whenever some
/// candidate qualifies.
pub proof fn lemma_first_any_eligible(cands: Seq<ChannelInfo>, model: Seq<char>, exclude: Seq<String>, i: int)
    requires
        0 <= i <= cands.len(),
    ensures
        first_any(cands, model, exclude, i) matches Some(c) ==> !id_listed(exclude, c.id@) && c.endpoints@.len() > 0
            && serves_model(c.model_maps, model),
        first_any(cands, model, exclude, i) is None
            <==> forall|j: int| i <= j < cands.len() ==> !(!id_listed(exclude, (#[trigger] cands[j]).id@)
                && cands[j].endpoints@.len() > 0 && serves_model(cands[j].model_maps, model)),
    decreases cands.len() - i,
{
    if i < cands.len() {
        lemma_first_any_eligible(cands, model, exclude, i + 1);
    }
}

proof fn lemma_exact_entry_at(entries: Seq<ModelMapEntry>, model: Seq<char>, i: int, k: int)
    requires
        0 <= k <= i < entries.len(),
        entries[i].source@ == model,
        forall|j: int| 0 <= j < i ==> entries[j].source@ != model,
    ensures
        exact_entry(entries, model, k) == Some(opt_view(entries[i].target)),
    decreases i - k,
{
    if k < i {
        lemma_exact_entry_at(entries, model, i, k + 1);
    }
}

proof fn lemma_exact_entry_none_or_target(entries: Seq<ModelMapEntry>, model: Seq<char>, k: int)
    requires
        0 <= k,
        forall|j: int| 0 <= j < entries.len() && entries[j].source@ == model ==> entries[j].target is None,
    ensures
        !(exact_entry(entries, model, k) matches Some(Some(_))),
    decreases entries.len() - k,
{
    if k < entries.len() {
        lemma_exact_entry_none_or_target(entries, model, k + 1);
    }
}

proof fn lemma_wildcard_entry_at(entries: Seq<ModelMapEntry>, model: Seq<char>, i: int, k: int)
    requires
        0 <= k <= i < entries.len(),
        has_wildcard(entries[i].source@),
        entries[i].target is Some,
        wildcard_matches(entries[i].source@, model),
        forall|j: int| 0 <= j < i ==> !(has_wildcard(entries[j].source@) && entries[j].target is Some
            && wildcard_matches(entries[j].source@, model)),
    ensures
        wildcard_entry(entries, model, k) == Some(replace_char_spec(entries[i].target.unwrap()@, '*', model)),
    decreases i - k,
{
    if k < i {
        lemma_wildcard_entry_at(entries, model, i, k + 1);
    }
}

proof fn lemma_wildcard_entry_none(entries: Seq<ModelMapEntry>, model: Seq<char>, k: int)
    requires
        0 <= k,
        forall|j: int| 0 <= j < entries.len() ==> !(has_wildcard(entries[j].source@) && entries[j].target is Some
            && wildcard_matches(entries[j].source@, model)),
    ensures
        wildcard_entry(entries, model, k) is None,
    decreases entries.len() - k,
{
    if k < entries.len() {
        lemma_wildcard_entry_none(entries, model, k + 1);
    }
}

/// Exact mapping first: when the first mapping whose source is exactly the
/// requested model has a string target, that target is the model sent
/// upstream, whatever wildcard mappings also match the model.
pub proof fn lemma_exact_mapping_wins(maps: ModelMaps, model: Seq<char>, i: int)
    requires
        0 <= i < maps.entries@.len(),
        maps.entries@[i].source@ == model,
        maps.entries@[i].target is Some,
        forall|j: int| 0 <= j < i ==> maps.entries@[j].source@ != model,
    ensures
        mapped_model(maps, model) == maps.entries@[i].target.unwrap()@,
{
    lemma_exact_entry_at(maps.entries@, model, i, 0);
}

/// Wildcard mapping next: when no mapping with a string target has exactly
/// the requested model as its source, the first mapping whose wildcard
/// source matches the model (and has a string target) decides, with each
/// `*` of its target replaced by the model.
pub proof fn lemma_wildcard_mapping_next(maps: ModelMaps, model: Seq<char>, i: int)
    requires
        forall|j: int| 0 <= j < maps.entries@.len() && maps.entries@[j].source@ == model ==> maps.entries@[j].target is None,
        0 <= i < maps.entries@.len(),
        has_wildcard(maps.entries@[i].source@),
        maps.entries@[i].target is Some,
        wildcard_matches(maps.entries@[i].source@, model),
        forall|j: int| 0 <= j < i ==> !(has_wildcard(maps.entries@[j].source@) && maps.entries@[j].target is Some
            && wildcard_matches(maps.entries@[j].source@, model)),
    ensures
        mapped_model(maps, model) == replace_char_spec(maps.entries@[i].target.unwrap()@, '*', model),
{
    lemma_exact_entry_none_or_target(maps.entries@, model, 0);
    lemma_wildcard_entry_at(maps.entries@, model, i, 0);
}

/// Otherwise the model goes upstream unchanged: with no exact mapping with a
/// string target and no wildcard mapping that matches, the name is kept.
pub proof fn lemma_unmapped_model_kept(maps: ModelMaps, model: Seq<char>)
    requires
        forall|j: int| 0 <= j < maps.entries@.len() && maps.entries@[j].source@ == model ==> maps.entries@[j].target is None,
        forall|j: int| 0 <= j < maps.entries@.len() ==> !(has_wildcard(maps.entries@[j].source@) && maps.entries@[j].target is Some
            && wildcard_matches(maps.entries@[j].source@, model)),
    ensures
        mapped_model(maps, model) == model,
{
    lemma_exact_entry_none_or_target(maps.entries@, model, 0);
    lemma_wildcard_entry_none(maps.entries@, model, 0);
}

} // verus!
