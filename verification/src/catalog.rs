//! The model list offered to proxy clients: every enabled group's name and
//! every model an enabled channel declares, each once.
use vstd::prelude::*;
use crate::json::{JsonStep, json_items_at, opt_views, read_json_items};
use crate::text::text_eq;

verus! {

/// The strings among optional strings, in order.
pub open spec fn strings_of(items: Seq<Option<Seq<char>>>) -> Seq<Seq<char>>
    decreases items.len(),
{
    if items.len() == 0 {
        Seq::empty()
    } else {
        let rest = strings_of(items.drop_last());
        match items.last() {
            Some(s) => rest.push(s),
            None => rest,
        }
    }
}

/// Where a channel's declared models are when its list is an object.
pub open spec fn available_models_path() -> Seq<JsonStep> {
    seq![JsonStep::Key("available_models")]
}

/// The models a channel declares in its stored JSON: the strings of a
/// top-level array, else of its `available_models` array, else none.
pub open spec fn channel_models_spec(text: Seq<char>) -> Seq<Seq<char>> {
    match json_items_at(text, Seq::empty()) {
        Some(items) => strings_of(items),
        None => match json_items_at(text, available_models_path()) {
            Some(items) => strings_of(items),
            None => Seq::empty(),
        },
    }
}

/// Text views of strings.
pub open spec fn views(v: Seq<String>) -> Seq<Seq<char>> {
    v.map_values(|s: String| s@)
}

fn push_strings(out: &mut Vec<String>, items: &Vec<Option<String>>)
    ensures
        views(final(out)@) == views(old(out)@) + strings_of(opt_views(items@)),
{
    let ghost start = views(out@);
    let mut i: usize = 0;
    while i < items.len()
        invariant
            0 <= i <= items@.len(),
            views(out@) == start + strings_of(opt_views(items@.subrange(0, i as int))),
        decreases items@.len() - i,
    {
        assert(opt_views(items@.subrange(0, i + 1)).drop_last() =~= opt_views(items@.subrange(0, i as int)));
        match &items[i] {
            Some(s) => {
                let ghost before = views(out@);
                out.push(s.clone());
                assert(views(out@) =~= before.push(s@));
                assert(opt_views(items@.subrange(0, i + 1)).last() == Some(s@));
            },
            None => {
                assert(opt_views(items@.subrange(0, i + 1)).last() is None);
            },
        }
        i = i + 1;
    }
    assert(items@.subrange(0, items@.len() as int) =~= items@);
}

/// The models a channel declares in its stored JSON.
pub fn channel_model_names(text: &str) -> (r: Vec<String>)
    ensures
        views(r@) == channel_models_spec(text@),
{
    let mut out: Vec<String> = Vec::new();
    let top: Vec<JsonStep> = Vec::new();
    assert(top@ =~= Seq::<JsonStep>::empty());
    match read_json_items(text, &top) {
        Some(items) => {
            push_strings(&mut out, &items);
        },
        None => {
            let path = vec![JsonStep::Key("available_models")];
            assert(path@ == available_models_path());
            match read_json_items(text, &path) {
                Some(items) => {
                    push_strings(&mut out, &items);
                },
                None => {},
            }
        },
    }
    assert(views(out@) =~= channel_models_spec(text@));
    out
}

/// `s` with each name kept at its first occurrence only.
pub open spec fn dedup_spec(s: Seq<Seq<char>>) -> Seq<Seq<char>>
    decreases s.len(),
{
    if s.len() == 0 {
        Seq::empty()
    } else {
        let rest = dedup_spec(s.drop_last());
        if rest.contains(s.last()) {
            rest
        } else {
            rest.push(s.last())
        }
    }
}

/// The names declared by a list of channels' stored JSON, in order.
pub open spec fn all_channel_models(texts: Seq<String>) -> Seq<Seq<char>>
    decreases texts.len(),
{
    if texts.len() == 0 {
        Seq::empty()
    } else {
        all_channel_models(texts.drop_last()) + channel_models_spec(texts.last()@)
    }
}

/// Every name once: the group names, then the channels' declared models.
pub open spec fn catalog_spec(group_names: Seq<String>, channel_models: Seq<String>) -> Seq<Seq<char>> {
    dedup_spec(views(group_names) + all_channel_models(channel_models))
}

fn contains_name(v: &Vec<String>, name: &str) -> (r: bool)
    ensures
        r == views(v@).contains(name@),
{
    let mut i: usize = 0;
    while i < v.len()
        invariant
            0 <= i <= v@.len(),
            forall|j: int| 0 <= j < i ==> v@[j]@ != name@,
        decreases v@.len() - i,
    {
        if text_eq(v[i].as_str(), name) {
            assert(views(v@)[i as int] == name@);
            return true;
        }
        i = i + 1;
    }
    assert forall|j: int| 0 <= j < views(v@).len() implies views(v@)[j] != name@ by {
        assert(views(v@)[j] == v@[j]@);
    }
    false
}

fn push_new(out: &mut Vec<String>, names: &Vec<String>, Ghost(seen): Ghost<Seq<Seq<char>>>)
    requires
        views(old(out)@) == dedup_spec(seen),
    ensures
        views(final(out)@) == dedup_spec(seen + views(names@)),
{
    let mut i: usize = 0;
    assert(seen + views(names@).subrange(0, 0) =~= seen);
    while i < names.len()
        invariant
            0 <= i <= names@.len(),
            views(out@) == dedup_spec(seen + views(names@).subrange(0, i as int)),
        decreases names@.len() - i,
    {
        let ghost prev = seen + views(names@).subrange(0, i as int);
        let ghost next = seen + views(names@).subrange(0, i + 1);
        assert(next.drop_last() =~= prev);
        assert(next.last() == names@[i as int]@);
        if !contains_name(out, names[i].as_str()) {
            let ghost before = views(out@);
            out.push(names[i].clone());
            assert(views(out@) =~= before.push(names@[i as int]@));
        }
        i = i + 1;
    }
    assert(views(names@).subrange(0, names@.len() as int) =~= views(names@));
}

/// The models offered to proxy clients: every enabled group's name, then
/// every model an enabled channel declares, each once.
pub fn available_models(group_names: &Vec<String>, channel_models: &Vec<String>) -> (r: Vec<String>)
    ensures
        views(r@) == catalog_spec(group_names@, channel_models@),
{
    let mut out: Vec<String> = Vec::new();
    assert(views(out@) =~= dedup_spec(Seq::empty()));
    push_new(&mut out, group_names, Ghost(Seq::empty()));
    assert(Seq::<Seq<char>>::empty() + views(group_names@) =~= views(group_names@));
    let ghost base = views(group_names@);
    let mut i: usize = 0;
    assert(base + all_channel_models(channel_models@.subrange(0, 0)) =~= base);
    while i < channel_models.len()
        invariant
            0 <= i <= channel_models@.len(),
            base == views(group_names@),
            views(out@) == dedup_spec(base + all_channel_models(channel_models@.subrange(0, i as int))),
        decreases channel_models@.len() - i,
    {
        let names = channel_model_names(channel_models[i].as_str());
        let ghost seen = base + all_channel_models(channel_models@.subrange(0, i as int));
        push_new(&mut out, &names, Ghost(seen));
        assert(channel_models@.subrange(0, i + 1).drop_last() =~= channel_models@.subrange(0, i as int));
        assert(seen + views(names@) =~= base + all_channel_models(channel_models@.subrange(0, i + 1)));
        i = i + 1;
    }
    assert(channel_models@.subrange(0, channel_models@.len() as int) =~= channel_models@);
    out
}

/// The offered list names each model once, and names exactly the models it
/// was built from.
pub proof fn lemma_dedup(s: Seq<Seq<char>>)
    ensures
        forall|x: Seq<char>| dedup_spec(s).contains(x) <==> s.contains(x),
        forall|i: int, j: int| 0 <= i < j < dedup_spec(s).len() ==> dedup_spec(s)[i] != dedup_spec(s)[j],
    decreases s.len(),
{
    if s.len() > 0 {
        lemma_dedup(s.drop_last());
        let rest = dedup_spec(s.drop_last());
        assert(s =~= s.drop_last().push(s.last()));
        assert forall|x: Seq<char>| dedup_spec(s).contains(x) <==> s.contains(x) by {
            if s.contains(x) {
                let k = choose|k: int| 0 <= k < s.len() && s[k] == x;
                if k < s.len() - 1 {
                    assert(s.drop_last()[k] == x);
                    assert(s.drop_last().contains(x));
                }
            }
            if s.drop_last().contains(x) {
                let k = choose|k: int| 0 <= k < s.len() - 1 && s.drop_last()[k] == x;
                assert(s[k] == x);
            }
            if !rest.contains(s.last()) {
                assert(rest.push(s.last())[rest.len() as int] == s.last());
                if rest.push(s.last()).contains(x) {
                    let k = choose|k: int| 0 <= k < rest.len() + 1 && rest.push(s.last())[k] == x;
                    if k < rest.len() {
                        assert(rest[k] == x);
                    }
                }
                if rest.contains(x) {
                    let k = choose|k: int| 0 <= k < rest.len() && rest[k] == x;
                    assert(rest.push(s.last())[k] == x);
                }
            }
            assert(s[s.len() - 1] == s.last());
        }
        if !rest.contains(s.last()) {
            let d = rest.push(s.last());
            assert forall|i: int, j: int| 0 <= i < j < d.len() implies d[i] != d[j] by {
                if j == rest.len() {
                    assert(d[i] == rest[i]);
                    if d[i] == d[j] {
                        assert(rest.contains(s.last()));
                    }
                } else {
                    assert(d[i] == rest[i] && d[j] == rest[j]);
                }
            }
        }
    }
}

} // verus!
