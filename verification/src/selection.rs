//! Channel selection for a request, as a machine that the request handler
//! drives: it names the lookup to make next (sticky session, group by name,
//! group by expression, group member, channel, direct channel) and decides
//! from each answer. The order is: a live sticky channel, then the group
//! named like the model, then a group whose expression matches, then a
//! channel that maps the model itself.
use vstd::prelude::*;
use crate::endpoint::{EndpointConfig, EndpointType};
use crate::errors::ProxyError;
use crate::routing::{
    apply_model_mapping, contains_id, endpoint_of_type, id_listed, is_no_channel, mapped_model,
    no_channel_error, ChannelInfo, GroupInfo, GroupItemInfo,
};
use crate::text::text_eq;

verus! {

/// Which endpoints a selection accepts.
#[derive(Debug, Clone, Copy, PartialEq, Eq, Structural)]
pub enum SelectionMode {
    /// Only an endpoint of this type (no protocol conversion).
    Endpoint(EndpointType),
    /// A channel's first endpoint, whatever its type (for conversion).
    AnyEndpoint,
}

/// The channel, upstream model name and endpoint a request goes to.
#[derive(Debug, Clone)]
pub struct SelectionResult {
    pub channel: ChannelInfo,
    pub target_model: String,
    pub endpoint: EndpointConfig,
}

/// Where the selection stands: what answer it waits for.
#[derive(Debug, Clone, Copy, PartialEq, Eq, Structural)]
pub enum SelectionPhase {
    Start,
    Sticky,
    StickyChannel,
    GroupByName,
    GroupByRegex,
    GroupItem,
    GroupChannel,
    DirectChannel,
    Finished,
}

/// How far a selection has come: every step moves it strictly further, and
/// the finished selection is furthest.
pub open spec fn phase_rank(p: SelectionPhase) -> nat {
    match p {
        SelectionPhase::Start => 0,
        SelectionPhase::Sticky => 1,
        SelectionPhase::StickyChannel => 2,
        SelectionPhase::GroupByName => 3,
        SelectionPhase::GroupByRegex => 4,
        SelectionPhase::GroupItem => 5,
        SelectionPhase::GroupChannel => 6,
        SelectionPhase::DirectChannel => 7,
        SelectionPhase::Finished => 8,
    }
}

/// A selection ends: each step moves it further along a scale of nine
/// phases, so at most eight steps are taken before it has finished.
pub proof fn lemma_selection_ends(p: SelectionPhase)
    ensures
        phase_rank(p) <= phase_rank(SelectionPhase::Finished),
        phase_rank(p) == phase_rank(SelectionPhase::Finished) ==> p == SelectionPhase::Finished,
{
}

/// An answer to the last lookup.
#[derive(Debug)]
pub enum SelectionEvent {
    /// Start the selection.
    Begin,
    /// The channel id stored for the session, if any.
    StickyLookedUp(Option<String>),
    /// The channel that was asked for (or the direct channel), or why there is none.
    ChannelLoaded(Result<ChannelInfo, ProxyError>),
    /// The group found, none, or why the lookup failed.
    GroupFound(Result<Option<GroupInfo>, ProxyError>),
    /// The group member drawn, or why none could be.
    ItemChosen(Result<GroupItemInfo, ProxyError>),
}

/// What the handler does next.
#[derive(Debug)]
pub enum SelectionAction {
    /// Look up the channel stored for this session hash.
    LookupSticky(String),
    /// Load the enabled channel with this id.
    LoadChannel(String),
    /// Find the enabled group named like the model.
    FindGroupByName,
    /// Find the first enabled group whose expression matches the model.
    FindGroupByRegex,
    /// Draw a member of this group, skipping excluded channels.
    ChooseGroupItem(GroupInfo),
    /// Find the first enabled channel that serves the model directly.
    FindDirectChannel,
    /// The selection is over; when `remember` is set, store its channel id for its session hash.
    Finish { outcome: Result<SelectionResult, ProxyError>, remember: Option<(String, String)> },
}

/// The state of one selection.
#[derive(Debug, Clone)]
pub struct ChannelSelector {
    pub model: String,
    pub mode: SelectionMode,
    pub session_hash: Option<String>,
    pub exclude_ids: Vec<String>,
    pub phase: SelectionPhase,
    /// The id of the channel last asked to be loaded, if any.
    pub requested: Option<String>,
}

/// The endpoint a channel offers for the mode.
pub open spec fn endpoint_for_mode(c: ChannelInfo, mode: SelectionMode) -> Option<EndpointConfig> {
    match mode {
        SelectionMode::Endpoint(t) => endpoint_of_type(c.endpoints@, t, 0),
        SelectionMode::AnyEndpoint => if c.endpoints@.len() > 0 {
            Some(c.endpoints@[0])
        } else {
            None
        },
    }
}

/// Whether a loaded channel may finish the selection: it is not excluded,
/// it is the channel that was asked for (when one was), and it offers an
/// endpoint for the mode.
pub open spec fn loaded_fits(s: ChannelSelector, c: ChannelInfo) -> bool {
    &&& !id_listed(s.exclude_ids@, c.id@)
    &&& (s.requested matches Some(x) ==> x@ == c.id@)
    &&& endpoint_for_mode(c, s.mode) is Some
}

/// Whether an event answers the lookup that the phase waits for.
pub open spec fn accepts(phase: SelectionPhase, event: SelectionEvent) -> bool {
    match phase {
        SelectionPhase::Start => event is Begin,
        SelectionPhase::Sticky => event is StickyLookedUp,
        SelectionPhase::StickyChannel | SelectionPhase::GroupChannel | SelectionPhase::DirectChannel => event is ChannelLoaded,
        SelectionPhase::GroupByName | SelectionPhase::GroupByRegex => event is GroupFound,
        SelectionPhase::GroupItem => event is ItemChosen,
        SelectionPhase::Finished => false,
    }
}

/// `a` finishes with `c`, the mapped model and the mode's endpoint, storing
/// the session (when `remember`) under the channel's id.
pub open spec fn finishes_on(a: SelectionAction, c: ChannelInfo, model: Seq<char>, mode: SelectionMode, session: Option<String>, remember: bool) -> bool {
    a matches SelectionAction::Finish { outcome, remember: stored } && outcome matches Ok(sel)
        && sel.channel == c && sel.target_model@ == mapped_model(c.model_maps, model)
        && Some(sel.endpoint) == endpoint_for_mode(c, mode)
        && (if remember && session is Some {
            stored matches Some(p) && p.0@ == session.unwrap()@ && p.1@ == c.id@
        } else {
            stored is None
        })
}

/// `a` finishes with the error `e`.
pub open spec fn finishes_failing(a: SelectionAction, e: ProxyError) -> bool {
    a matches SelectionAction::Finish { outcome, remember } && outcome == Err::<SelectionResult, ProxyError>(e) && remember is None
}

impl ChannelSelector {
    /// A selection for `model` in the given mode, skipping the excluded channels.
    pub fn new(model: String, mode: SelectionMode, session_hash: Option<String>, exclude_ids: Vec<String>) -> (r: ChannelSelector)
        ensures
            r.model == model,
            r.mode == mode,
            r.session_hash == session_hash,
            r.exclude_ids == exclude_ids,
            r.phase == SelectionPhase::Start,
            r.requested is None,
    {
        ChannelSelector { model, mode, session_hash, exclude_ids, phase: SelectionPhase::Start, requested: None }
    }

    /// Whether a loaded channel may finish the selection (see `loaded_fits`).
    fn fits(&self, c: &ChannelInfo) -> (r: Option<EndpointConfig>)
        ensures
            r is Some <==> loaded_fits(*self, *c),
            r matches Some(ep) ==> Some(ep) == endpoint_for_mode(*c, self.mode),
    {
        if contains_id(self.exclude_ids.as_slice(), c.id.as_str()) {
            return None;
        }
        match &self.requested {
            Some(x) => {
                if !text_eq(x.as_str(), c.id.as_str()) {
                    return None;
                }
            },
            None => {},
        }
        self.endpoint_for(c)
    }

    fn endpoint_for(&self, c: &ChannelInfo) -> (r: Option<EndpointConfig>)
        ensures
            r == endpoint_for_mode(*c, self.mode),
    {
        match self.mode {
            SelectionMode::Endpoint(t) => c.find_endpoint(&t),
            SelectionMode::AnyEndpoint => c.first_endpoint(),
        }
    }

    fn finish_on(&mut self, c: ChannelInfo, endpoint: EndpointConfig, remember: bool) -> (r: SelectionAction)
        requires
            Some(endpoint) == endpoint_for_mode(c, old(self).mode),
        ensures
            finishes_on(r, c, old(self).model@, old(self).mode, old(self).session_hash, remember),
            final(self).phase == SelectionPhase::Finished,
            final(self).model == old(self).model,
            final(self).mode == old(self).mode,
            final(self).session_hash == old(self).session_hash,
            final(self).exclude_ids == old(self).exclude_ids,
    {
        let target_model = apply_model_mapping(&c.model_maps, self.model.as_str());
        let stored = if remember {
            match &self.session_hash {
                Some(h) => Some((h.clone(), c.id.clone())),
                None => None,
            }
        } else {
            None
        };
        self.phase = SelectionPhase::Finished;
        SelectionAction::Finish {
            outcome: Ok(SelectionResult { channel: c, target_model, endpoint }),
            remember: stored,
        }
    }

    fn fail(&mut self, e: ProxyError) -> (r: SelectionAction)
        ensures
            finishes_failing(r, e),
            final(self).phase == SelectionPhase::Finished,
            final(self).model == old(self).model,
            final(self).mode == old(self).mode,
            final(self).session_hash == old(self).session_hash,
            final(self).exclude_ids == old(self).exclude_ids,
    {
        self.phase = SelectionPhase::Finished;
        SelectionAction::Finish { outcome: Err(e), remember: None }
    }

    /// Whether `event` answers the lookup this selection waits for.
    pub fn accepts_event(&self, event: &SelectionEvent) -> (r: bool)
        ensures
            r == accepts(self.phase, *event),
    {
        match self.phase {
            SelectionPhase::Start => matches!(event, SelectionEvent::Begin),
            SelectionPhase::Sticky => matches!(event, SelectionEvent::StickyLookedUp(_)),
            SelectionPhase::StickyChannel | SelectionPhase::GroupChannel | SelectionPhase::DirectChannel => {
                matches!(event, SelectionEvent::ChannelLoaded(_))
            },
            SelectionPhase::GroupByName | SelectionPhase::GroupByRegex => matches!(event, SelectionEvent::GroupFound(_)),
            SelectionPhase::GroupItem => matches!(event, SelectionEvent::ItemChosen(_)),
            SelectionPhase::Finished => false,
        }
    }

    /// Takes the answer to the last lookup and says what to do next.
    pub fn step(&mut self, event: SelectionEvent) -> (r: SelectionAction)
        requires
            accepts(old(self).phase, event),
        ensures
            final(self).model == old(self).model,
            final(self).mode == old(self).mode,
            final(self).session_hash == old(self).session_hash,
            final(self).exclude_ids == old(self).exclude_ids,
            phase_rank(final(self).phase) > phase_rank(old(self).phase),
            // A selection never finishes on an excluded channel.
            r matches SelectionAction::Finish { outcome: Ok(sel), .. } ==> !id_listed(old(self).exclude_ids@, sel.channel.id@),
            // Start: ask for the sticky channel of the session, if there is one.
            old(self).phase == SelectionPhase::Start ==> match old(self).session_hash {
                Some(h) => r matches SelectionAction::LookupSticky(x) && x@ == h@ && final(self).phase == SelectionPhase::Sticky,
                None => r is FindGroupByName && final(self).phase == SelectionPhase::GroupByName,
            },
            // A stored channel that is not excluded is loaded; otherwise groups are tried.
            old(self).phase == SelectionPhase::Sticky ==> match event {
                SelectionEvent::StickyLookedUp(Some(id)) => if !id_listed(old(self).exclude_ids@, id@) {
                    r matches SelectionAction::LoadChannel(x) && x@ == id@ && final(self).phase == SelectionPhase::StickyChannel
                        && final(self).requested == Some(id)
                } else {
                    r is FindGroupByName && final(self).phase == SelectionPhase::GroupByName
                },
                _ => r is FindGroupByName && final(self).phase == SelectionPhase::GroupByName,
            },
            // The loaded sticky channel wins when it fits; anything else falls back to groups.
            old(self).phase == SelectionPhase::StickyChannel ==> match event {
                SelectionEvent::ChannelLoaded(Ok(c)) => if loaded_fits(*old(self), c) {
                    finishes_on(r, c, old(self).model@, old(self).mode, old(self).session_hash, false)
                        && final(self).phase == SelectionPhase::Finished
                } else {
                    r is FindGroupByName && final(self).phase == SelectionPhase::GroupByName
                },
                _ => r is FindGroupByName && final(self).phase == SelectionPhase::GroupByName,
            },
            // The group named like the model; else a matching expression.
            old(self).phase == SelectionPhase::GroupByName ==> match event {
                SelectionEvent::GroupFound(Err(e)) => finishes_failing(r, e) && final(self).phase == SelectionPhase::Finished,
                SelectionEvent::GroupFound(Ok(Some(g))) => r matches SelectionAction::ChooseGroupItem(x) && x == g
                    && final(self).phase == SelectionPhase::GroupItem,
                _ => r is FindGroupByRegex && final(self).phase == SelectionPhase::GroupByRegex,
            },
            // A group found by expression; else a channel that serves the model directly.
            old(self).phase == SelectionPhase::GroupByRegex ==> match event {
                SelectionEvent::GroupFound(Err(e)) => finishes_failing(r, e) && final(self).phase == SelectionPhase::Finished,
                SelectionEvent::GroupFound(Ok(Some(g))) => r matches SelectionAction::ChooseGroupItem(x) && x == g
                    && final(self).phase == SelectionPhase::GroupItem,
                _ => r is FindDirectChannel && final(self).phase == SelectionPhase::DirectChannel && final(self).requested is None,
            },
            // The drawn member's channel is loaded; a failed draw ends the selection.
            old(self).phase == SelectionPhase::GroupItem ==> match event {
                SelectionEvent::ItemChosen(Ok(item)) => r matches SelectionAction::LoadChannel(x) && x@ == item.channel_id@
                    && final(self).phase == SelectionPhase::GroupChannel && final(self).requested == Some(item.channel_id),
                SelectionEvent::ItemChosen(Err(e)) => finishes_failing(r, e) && final(self).phase == SelectionPhase::Finished,
                _ => false,
            },
            // The group's channel wins when it fits; else the direct lookup follows.
            old(self).phase == SelectionPhase::GroupChannel ==> match event {
                SelectionEvent::ChannelLoaded(Ok(c)) => if loaded_fits(*old(self), c) {
                    finishes_on(r, c, old(self).model@, old(self).mode, old(self).session_hash, true)
                        && final(self).phase == SelectionPhase::Finished
                } else {
                    r is FindDirectChannel && final(self).phase == SelectionPhase::DirectChannel && final(self).requested is None
                },
                SelectionEvent::ChannelLoaded(Err(e)) => finishes_failing(r, e) && final(self).phase == SelectionPhase::Finished,
                _ => false,
            },
            // The direct channel wins when it fits; else no channel is left.
            old(self).phase == SelectionPhase::DirectChannel ==> final(self).phase == SelectionPhase::Finished && match event {
                SelectionEvent::ChannelLoaded(Ok(c)) => if loaded_fits(*old(self), c) {
                    finishes_on(r, c, old(self).model@, old(self).mode, old(self).session_hash, true)
                } else {
                    r matches SelectionAction::Finish { outcome: Err(e), remember: None } && is_no_channel(e)
                },
                SelectionEvent::ChannelLoaded(Err(e)) => finishes_failing(r, e),
                _ => false,
            },
    {
        match self.phase {
            SelectionPhase::Start => {
                match &self.session_hash {
                    Some(h) => {
                        let x = h.clone();
                        self.phase = SelectionPhase::Sticky;
                        SelectionAction::LookupSticky(x)
                    },
                    None => {
                        self.phase = SelectionPhase::GroupByName;
                        SelectionAction::FindGroupByName
                    },
                }
            },
            SelectionPhase::Sticky => {
                match event {
                    SelectionEvent::StickyLookedUp(Some(id)) => {
                        if !contains_id(self.exclude_ids.as_slice(), id.as_str()) {
                            self.phase = SelectionPhase::StickyChannel;
                            self.requested = Some(id.clone());
                            SelectionAction::LoadChannel(id)
                        } else {
                            self.phase = SelectionPhase::GroupByName;
                            SelectionAction::FindGroupByName
                        }
                    },
                    _ => {
                        self.phase = SelectionPhase::GroupByName;
                        SelectionAction::FindGroupByName
                    },
                }
            },
            SelectionPhase::StickyChannel => {
                match event {
                    SelectionEvent::ChannelLoaded(Ok(c)) => {
                        match self.fits(&c) {
                            Some(ep) => self.finish_on(c, ep, false),
                            None => {
                                self.phase = SelectionPhase::GroupByName;
                                SelectionAction::FindGroupByName
                            },
                        }
                    },
                    _ => {
                        self.phase = SelectionPhase::GroupByName;
                        SelectionAction::FindGroupByName
                    },
                }
            },
            SelectionPhase::GroupByName => {
                match event {
                    SelectionEvent::GroupFound(Err(e)) => self.fail(e),
                    SelectionEvent::GroupFound(Ok(Some(g))) => {
                        self.phase = SelectionPhase::GroupItem;
                        SelectionAction::ChooseGroupItem(g)
                    },
                    _ => {
                        self.phase = SelectionPhase::GroupByRegex;
                        SelectionAction::FindGroupByRegex
                    },
                }
            },
            SelectionPhase::GroupByRegex => {
                match event {
                    SelectionEvent::GroupFound(Err(e)) => self.fail(e),
                    SelectionEvent::GroupFound(Ok(Some(g))) => {
                        self.phase = SelectionPhase::GroupItem;
                        SelectionAction::ChooseGroupItem(g)
                    },
                    _ => {
                        self.phase = SelectionPhase::DirectChannel;
                        self.requested = None;
                        SelectionAction::FindDirectChannel
                    },
                }
            },
            SelectionPhase::GroupItem => {
                match event {
                    SelectionEvent::ItemChosen(Ok(item)) => {
                        self.phase = SelectionPhase::GroupChannel;
                        self.requested = Some(item.channel_id.clone());
                        SelectionAction::LoadChannel(item.channel_id)
                    },
                    SelectionEvent::ItemChosen(Err(e)) => self.fail(e),
                    _ => self.fail(no_channel_error()),
                }
            },
            SelectionPhase::GroupChannel => {
                match event {
                    SelectionEvent::ChannelLoaded(Ok(c)) => {
                        match self.fits(&c) {
                            Some(ep) => self.finish_on(c, ep, true),
                            None => {
                                self.phase = SelectionPhase::DirectChannel;
                                self.requested = None;
                                SelectionAction::FindDirectChannel
                            },
                        }
                    },
                    SelectionEvent::ChannelLoaded(Err(e)) => self.fail(e),
                    _ => self.fail(no_channel_error()),
                }
            },
            SelectionPhase::DirectChannel => {
                match event {
                    SelectionEvent::ChannelLoaded(Ok(c)) => {
                        match self.fits(&c) {
                            Some(ep) => self.finish_on(c, ep, true),
                            None => self.fail(no_channel_error()),
                        }
                    },
                    SelectionEvent::ChannelLoaded(Err(e)) => self.fail(e),
                    _ => self.fail(no_channel_error()),
                }
            },
            SelectionPhase::Finished => self.fail(no_channel_error()),
        }
    }
}

/// The model a request names, `unknown` when its body names none.
pub fn requested_model(body_model: Option<String>) -> (r: String)
    ensures
        r@ == match body_model {
            Some(m) => m@,
            None => "unknown"@,
        },
{
    match body_model {
        Some(m) => m,
        None => String::from_str("unknown"),
    }
}

/// The session hash of a request: the `x-session-hash` header when it is
/// readable text, else the body's `session_hash` field.
pub fn session_hash_for(header: Option<String>, body_field: Option<String>) -> (r: Option<String>)
    ensures
        r == match header {
            Some(h) => Some(h),
            None => body_field,
        },
{
    match header {
        Some(h) => Some(h),
        None => body_field,
    }
}

} // verus!
