//! Watching endpoints: whose volume is watched, and what a notification tells.

use vstd::prelude::*;
use crate::device::{BackendEvent, EventView};
use crate::seq_laws::lemma_filter_keeps_the_order;
use crate::text::has_name;
use crate::volume::Volume;

verus! {

/// The watched endpoints that are to be watched no longer: they are gone.
pub open spec fn dropped(watched: Seq<Seq<char>>, endpoints: Seq<Seq<char>>) -> Seq<Seq<char>> {
    watched.filter(|id: Seq<char>| !endpoints.contains(id))
}

/// The watched endpoints that stay watched.
pub open spec fn kept(watched: Seq<Seq<char>>, endpoints: Seq<Seq<char>>) -> Seq<Seq<char>> {
    watched.filter(|id: Seq<char>| endpoints.contains(id))
}

/// Watched ids, parted into those that stay and those that go. Watches are kept
/// and not made anew, since a change that fell between would be lost.
pub fn refresh_volume_watches(watched: &Vec<String>, endpoints: &Vec<String>) -> (r: (
    Vec<String>,
    Vec<String>,
))
    ensures
        r.0.deep_view() == kept(watched.deep_view(), endpoints.deep_view()),
        r.1.deep_view() == dropped(watched.deep_view(), endpoints.deep_view()),
{
    let ghost model = watched.deep_view();
    let ghost ids = endpoints.deep_view();
    let ghost stays = |id: Seq<char>| ids.contains(id);
    let ghost goes = |id: Seq<char>| !ids.contains(id);
    let mut keep: Vec<String> = Vec::new();
    let mut drop: Vec<String> = Vec::new();
    let mut i: usize = 0;
    assert(keep.deep_view() =~= model.take(0).filter(stays)) by {
        reveal(Seq::filter);
    }
    assert(drop.deep_view() =~= model.take(0).filter(goes)) by {
        reveal(Seq::filter);
    }
    while i < watched.len()
        invariant
            i <= watched.len(),
            model == watched.deep_view(),
            ids == endpoints.deep_view(),
            stays == (|id: Seq<char>| ids.contains(id)),
            goes == (|id: Seq<char>| !ids.contains(id)),
            keep.deep_view() == model.take(i as int).filter(stays),
            drop.deep_view() == model.take(i as int).filter(goes),
        decreases watched.len() - i,
    {
        let ghost kept_before = keep.deep_view();
        let ghost dropped_before = drop.deep_view();
        proof {
            reveal(Seq::filter);
            assert(model.take(i + 1).drop_last() =~= model.take(i as int));
            assert(model.take(i + 1).last() == watched[i as int]@);
        }
        if has_name(endpoints, watched[i].as_str()) {
            keep.push(watched[i].clone());
            assert(keep.deep_view() =~= kept_before.push(watched[i as int]@));
        } else {
            drop.push(watched[i].clone());
            assert(drop.deep_view() =~= dropped_before.push(watched[i as int]@));
        }
        i += 1;
    }
    assert(model.take(i as int) =~= model);
    (keep, drop)
}

/// What is done next to bring the watches in line.
#[derive(Debug)]
pub enum WatchAction<T> {
    /// The watch of the endpoint given ends.
    End(T),
    /// A watch of the endpoint given is registered.
    Watch(T),
}

impl DeepView for WatchAction<String> {
    type V = WatchAction<Seq<char>>;

    open spec fn deep_view(&self) -> WatchAction<Seq<char>> {
        match *self {
            WatchAction::End(id) => WatchAction::End(id@),
            WatchAction::Watch(id) => WatchAction::Watch(id@),
        }
    }
}

/// How far the watches are.
#[derive(Debug, Clone, Copy, PartialEq, Eq, Structural)]
pub enum WatchPhase {
    /// The watch at this position among those that go ends.
    Ending(usize),
    /// The endpoint at this position is not watched: a watch is registered.
    Registering(usize),
    /// The watches are in line.
    Ended,
}

/// Watches that are brought in line with the active endpoints.
#[derive(Debug)]
pub struct WatchRefresh {
    /// The ids that are watched.
    pub watched: Vec<String>,
    /// The ids whose watches go.
    pub gone: Vec<String>,
    /// The ids of the active endpoints.
    pub endpoints: Vec<String>,
    pub phase: WatchPhase,
}

/// What a [`WatchRefresh`] says, in terms of text.
pub struct RefreshView {
    pub watched: Seq<Seq<char>>,
    pub gone: Seq<Seq<char>>,
    pub endpoints: Seq<Seq<char>>,
    pub phase: WatchPhase,
}

impl DeepView for WatchRefresh {
    type V = RefreshView;

    open spec fn deep_view(&self) -> RefreshView {
        RefreshView {
            watched: self.watched.deep_view(),
            gone: self.gone.deep_view(),
            endpoints: self.endpoints.deep_view(),
            phase: self.phase,
        }
    }
}

/// Position of the first endpoint from `from` on that is not watched, or the
/// number of endpoints.
pub open spec fn unwatched(watched: Seq<Seq<char>>, endpoints: Seq<Seq<char>>, from: int) -> int
    decreases endpoints.len() - from,
{
    if from < 0 || from >= endpoints.len() {
        endpoints.len() as int
    } else if watched.contains(endpoints[from]) {
        unwatched(watched, endpoints, from + 1)
    } else {
        from
    }
}

impl RefreshView {
    /// What each phase relies on.
    pub open spec fn wf(self) -> bool {
        &&& self.endpoints.len() <= usize::MAX
        &&& self.gone.len() <= usize::MAX
        &&& self.phase matches WatchPhase::Ending(at) ==> at < self.gone.len()
        &&& self.phase matches WatchPhase::Registering(at) ==> at < self.endpoints.len()
            && !self.watched.contains(self.endpoints[at as int])
    }

    /// The endpoints from `from` on are looked through.
    pub open spec fn seek(self, from: int) -> RefreshView {
        let at = unwatched(self.watched, self.endpoints, from);
        RefreshView {
            phase: if at < self.endpoints.len() {
                WatchPhase::Registering(at as usize)
            } else {
                WatchPhase::Ended
            },
            ..self
        }
    }

    /// The watches that go from `at` on end, then the endpoints are looked
    /// through.
    pub open spec fn drop_from(self, at: int) -> RefreshView {
        if at < self.gone.len() {
            RefreshView { phase: WatchPhase::Ending(at as usize), ..self }
        } else {
            self.seek(0)
        }
    }

    /// The next action.
    pub open spec fn action(self) -> WatchAction<Seq<char>>
        recommends
            !(self.phase is Ended),
    {
        match self.phase {
            WatchPhase::Ending(at) => WatchAction::End(self.gone[at as int]),
            WatchPhase::Registering(at) => WatchAction::Watch(self.endpoints[at as int]),
            WatchPhase::Ended => arbitrary(),
        }
    }

    /// The action worked, or it did not. A watch that could not be registered
    /// is left out, one that could not be ended is forgotten.
    pub open spec fn next(self, worked: bool) -> RefreshView {
        match self.phase {
            WatchPhase::Ending(at) => self.drop_from(at + 1),
            WatchPhase::Registering(at) => if worked {
                RefreshView {
                    watched: self.watched.push(self.endpoints[at as int]),
                    ..self
                }.seek(at + 1)
            } else {
                self.seek(at + 1)
            },
            WatchPhase::Ended => self,
        }
    }
}

/// How a refresh begins.
pub open spec fn refreshing(watched: Seq<Seq<char>>, endpoints: Seq<Seq<char>>) -> RefreshView {
    (RefreshView {
        watched: kept(watched, endpoints),
        gone: dropped(watched, endpoints),
        endpoints,
        phase: WatchPhase::Ended,
    }).drop_from(0)
}

impl WatchRefresh {
    /// Begins to bring watches in line with the active endpoints. Those of
    /// endpoints that stay are kept, and not made anew.
    pub fn begin(watched: &Vec<String>, endpoints: Vec<String>) -> (r: WatchRefresh)
        ensures
            r.deep_view().wf(),
            r.deep_view() == refreshing(watched.deep_view(), endpoints.deep_view()),
    {
        let (keep, gone) = refresh_volume_watches(watched, &endpoints);
        let mut r = WatchRefresh { watched: keep, gone, endpoints, phase: WatchPhase::Ended };
        r.drop_from(0);
        r
    }

    fn seek(&mut self, from: usize)
        ensures
            final(self).deep_view() == old(self).deep_view().seek(from as int),
            final(self).deep_view().wf(),
    {
        let ghost watched = self.watched.deep_view();
        let ghost ids = self.endpoints.deep_view();
        assert(self.gone.deep_view().len() == self.gone.len());
        let mut at: usize = from;
        while at < self.endpoints.len()
            invariant_except_break
                unwatched(watched, ids, from as int) == unwatched(watched, ids, at as int),
            invariant
                *self == *old(self),
                watched == self.watched.deep_view(),
                ids == self.endpoints.deep_view(),
            ensures
                at < ids.len() ==> unwatched(watched, ids, from as int) == at
                    && !watched.contains(ids[at as int]),
                at >= ids.len() ==> unwatched(watched, ids, from as int) == ids.len(),
            decreases self.endpoints.len() - at,
        {
            assert(ids[at as int] == self.endpoints[at as int]@);
            if !has_name(&self.watched, self.endpoints[at].as_str()) {
                break;
            }
            at += 1;
        }
        if at < self.endpoints.len() {
            self.phase = WatchPhase::Registering(at);
        } else {
            self.phase = WatchPhase::Ended;
        }
        assert(self.endpoints.deep_view().len() == self.endpoints.len());
    }

    fn drop_from(&mut self, at: usize)
        ensures
            final(self).deep_view() == old(self).deep_view().drop_from(at as int),
            final(self).deep_view().wf(),
    {
        assert(self.gone.deep_view().len() == self.gone.len());
        assert(self.endpoints.deep_view().len() == self.endpoints.len());
        if at < self.gone.len() {
            self.phase = WatchPhase::Ending(at);
        } else {
            self.seek(0);
        }
    }

    /// The next action; none when the watches are in line.
    pub fn action(&self) -> (r: Option<WatchAction<String>>)
        requires
            self.deep_view().wf(),
        ensures
            self.deep_view().phase is Ended <==> r is None,
            r is Some ==> r->0.deep_view() == self.deep_view().action(),
    {
        match self.phase {
            WatchPhase::Ending(at) => {
                assert(self.gone.deep_view()[at as int] == self.gone[at as int]@);
                Some(WatchAction::End(self.gone[at].clone()))
            },
            WatchPhase::Registering(at) => {
                assert(self.endpoints.deep_view()[at as int] == self.endpoints[at as int]@);
                Some(WatchAction::Watch(self.endpoints[at].clone()))
            },
            WatchPhase::Ended => None,
        }
    }

    /// Takes whether the action worked and goes on.
    pub fn step(&mut self, worked: bool)
        requires
            old(self).deep_view().wf(),
            !(old(self).deep_view().phase is Ended),
        ensures
            final(self).deep_view() == old(self).deep_view().next(worked),
            final(self).deep_view().wf(),
    {
        match self.phase {
            WatchPhase::Ending(at) => self.drop_from(at + 1),
            WatchPhase::Registering(at) => {
                let ghost before = self.watched.deep_view();
                let ghost ids = self.endpoints.deep_view();
                assert(ids[at as int] == self.endpoints[at as int]@);
                if worked {
                    self.watched.push(self.endpoints[at].clone());
                    assert(self.watched.deep_view() =~= before.push(ids[at as int]));
                }
                self.seek(at + 1);
            },
            WatchPhase::Ended => {},
        }
    }
}

/// The events of a volume notification. It does not say what changed, so both
/// volume and mute are told; the echo of a change of our own tells nothing.
pub fn volume_notification(id: &str, own: bool, volume: Volume, muted: bool) -> (events: Vec<
    BackendEvent,
>)
    ensures
        events.deep_view() == if own {
            Seq::empty()
        } else {
            seq![
                EventView::VolumeChanged { id: id@, volume: volume.in_unit() },
                EventView::MuteChanged { id: id@, muted },
            ]
        },
{
    let mut events: Vec<BackendEvent> = Vec::new();
    if !own {
        let change = BackendEvent::VolumeChanged {
            id: id.to_owned(),
            volume: volume.clamp_unit(),
        };
        let mute = BackendEvent::MuteChanged { id: id.to_owned(), muted };
        events.push(change);
        events.push(mute);
    }
    assert(events.deep_view() =~= if own {
        Seq::empty()
    } else {
        seq![
            EventView::VolumeChanged { id: id@, volume: volume.in_unit() },
            EventView::MuteChanged { id: id@, muted },
        ]
    });
    events
}

/// The number of the render direction, and of the console role.
pub const RENDER_FLOW: i32 = 0;

pub const CONSOLE_ROLE: i32 = 0;

/// Whether a change of the default endpoint is told. It comes once per role,
/// and one of them is enough.
pub fn tells_default_change(flow: i32, role: i32) -> (r: bool)
    ensures
        r == (flow == RENDER_FLOW && role == CONSOLE_ROLE),
        r <==> flow == 0 && role == 0,
{
    flow == RENDER_FLOW && role == CONSOLE_ROLE
}

/// After a refresh exactly the active endpoints among the watched ones are
/// watched, and no watch is both kept and dropped.
pub proof fn lemma_watches_follow_the_endpoints(
    watched: Seq<Seq<char>>,
    endpoints: Seq<Seq<char>>,
    id: Seq<char>,
)
    ensures
        kept(watched, endpoints).contains(id) <==> watched.contains(id) && endpoints.contains(id),
        dropped(watched, endpoints).contains(id) <==> watched.contains(id)
            && !endpoints.contains(id),
{
    let stays = |id: Seq<char>| endpoints.contains(id);
    let goes = |id: Seq<char>| !endpoints.contains(id);
    lemma_filter_picks(watched, stays, id);
    lemma_filter_picks(watched, goes, id);
}

proof fn lemma_filter_picks(s: Seq<Seq<char>>, keep: spec_fn(Seq<char>) -> bool, id: Seq<char>)
    ensures
        s.filter(keep).contains(id) <==> s.contains(id) && keep(id),
{
    let picked = s.filter(keep);
    if picked.contains(id) {
        let i = choose|i: int| 0 <= i < picked.len() && picked[i] == id;
        s.lemma_filter_pred(keep, i);
        s.lemma_filter_contains_rev(keep, id);
    }
    if s.contains(id) && keep(id) {
        let i = choose|i: int| 0 <= i < s.len() && s[i] == id;
        s.lemma_filter_contains(keep, i);
    }
}

/// A refresh after some steps, of which each tells whether its action worked.
pub open spec fn refreshed(start: RefreshView, worked: Seq<bool>) -> RefreshView
    decreases worked.len(),
{
    if worked.len() == 0 {
        start
    } else {
        refreshed(start, worked.drop_last()).next(worked.last())
    }
}

/// The endpoints before `at` are watched, and only active ones are, each once.
spec fn in_line_up_to(r: RefreshView, at: int) -> bool {
    &&& r.watched.no_duplicates()
    &&& forall|id: Seq<char>| #[trigger] r.watched.contains(id) ==> r.endpoints.contains(id)
    &&& forall|j: int|
        0 <= j < at && j < r.endpoints.len() ==> r.watched.contains(#[trigger] r.endpoints[j])
}

proof fn lemma_seek(r: RefreshView, from: int)
    requires
        r.endpoints.len() <= usize::MAX,
        0 <= from,
        in_line_up_to(r, from),
    ensures
        ({
            let at = unwatched(r.watched, r.endpoints, from);
            &&& in_line_up_to(r, at)
            &&& 0 <= at <= r.endpoints.len()
            &&& at < r.endpoints.len() ==> !r.watched.contains(r.endpoints[at])
        }),
    decreases r.endpoints.len() - from,
{
    if from < r.endpoints.len() && r.watched.contains(r.endpoints[from]) {
        lemma_seek(r, from + 1);
    }
}

spec fn phase_holds(r: RefreshView) -> bool {
    &&& r.endpoints.len() <= usize::MAX
    &&& r.gone.len() <= usize::MAX
    &&& match r.phase {
        WatchPhase::Ending(_) => in_line_up_to(r, 0),
        WatchPhase::Registering(at) => {
            &&& in_line_up_to(r, at as int)
            &&& at < r.endpoints.len()
            &&& !r.watched.contains(r.endpoints[at as int])
        },
        WatchPhase::Ended => in_line_up_to(r, r.endpoints.len() as int),
    }
}

proof fn lemma_refresh_holds(start: RefreshView, worked: Seq<bool>)
    requires
        phase_holds(start),
        forall|i: int| 0 <= i < worked.len() ==> #[trigger] worked[i],
    ensures
        phase_holds(refreshed(start, worked)),
        refreshed(start, worked).endpoints == start.endpoints,
    decreases worked.len(),
{
    if worked.len() > 0 {
        let front = worked.drop_last();
        assert forall|i: int| 0 <= i < front.len() implies #[trigger] front[i] by {
            assert(worked[i]);
        }
        lemma_refresh_holds(start, front);
        let r = refreshed(start, front);
        assert(worked[worked.len() - 1]);
        match r.phase {
            WatchPhase::Ending(at) => {
                lemma_seek(r, 0);
            },
            WatchPhase::Registering(at) => {
                let id = r.endpoints[at as int];
                let more = RefreshView { watched: r.watched.push(id), ..r };
                assert forall|i: int, j: int|
                    0 <= i < j < more.watched.len() implies more.watched[i]
                    != more.watched[j] by {
                    if j == r.watched.len() {
                        assert(r.watched.contains(r.watched[i]));
                    }
                }
                assert forall|x: Seq<char>| #[trigger]
                    more.watched.contains(x) implies more.endpoints.contains(x) by {
                    if x != id {
                        let k = choose|k: int| 0 <= k < more.watched.len() && more.watched[k] == x;
                        assert(r.watched[k] == x);
                        assert(r.watched.contains(x));
                    }
                }
                assert forall|j: int| 0 <= j < at + 1 && j < more.endpoints.len() implies
                    more.watched.contains(#[trigger] more.endpoints[j]) by {
                    if j < at {
                        assert(r.watched.contains(r.endpoints[j]));
                        let k = choose|k: int|
                            0 <= k < r.watched.len() && r.watched[k] == r.endpoints[j];
                        assert(more.watched[k] == r.endpoints[j]);
                    } else {
                        assert(more.watched.last() == id);
                    }
                }
                lemma_seek(more, at + 1);
            },
            WatchPhase::Ended => {},
        }
    }
}

/// When every registration works, a refresh ends with exactly the active
/// endpoints watched, each once.
pub proof fn lemma_a_refresh_watches_all_endpoints(
    watched: Seq<Seq<char>>,
    endpoints: Seq<Seq<char>>,
    worked: Seq<bool>,
)
    requires
        watched.no_duplicates(),
        endpoints.len() <= usize::MAX,
        watched.len() <= usize::MAX,
        forall|i: int| 0 <= i < worked.len() ==> #[trigger] worked[i],
        refreshed(refreshing(watched, endpoints), worked).phase is Ended,
    ensures
        ({
            let after = refreshed(refreshing(watched, endpoints), worked).watched;
            &&& after.no_duplicates()
            &&& forall|id: Seq<char>| #[trigger]
                after.contains(id) <==> endpoints.contains(id)
        }),
{
    let stays = |id: Seq<char>| endpoints.contains(id);
    let goes = |id: Seq<char>| !endpoints.contains(id);
    let start = RefreshView {
        watched: kept(watched, endpoints),
        gone: dropped(watched, endpoints),
        endpoints,
        phase: WatchPhase::Ended,
    };
    watched.lemma_filter_len(goes);
    lemma_filter_keeps_distinct(watched, stays);
    assert forall|id: Seq<char>| #[trigger] start.watched.contains(id) implies endpoints.contains(
        id,
    ) by {
        lemma_watches_follow_the_endpoints(watched, endpoints, id);
    }
    assert(in_line_up_to(start, 0));
    lemma_seek(start, 0);
    lemma_refresh_holds(refreshing(watched, endpoints), worked);
    let end = refreshed(refreshing(watched, endpoints), worked);
    assert forall|id: Seq<char>| #[trigger] end.watched.contains(id) <==> endpoints.contains(id) by {
        if endpoints.contains(id) {
            let j = choose|j: int| 0 <= j < endpoints.len() && endpoints[j] == id;
            assert(end.watched.contains(end.endpoints[j]));
        }
    }
}

/// Whatever works, the watches that a refresh keeps stay to its end, and none
/// of them is registered anew on the way.
pub proof fn lemma_kept_watches_are_not_made_anew(
    watched: Seq<Seq<char>>,
    endpoints: Seq<Seq<char>>,
    worked: Seq<bool>,
)
    requires
        endpoints.len() <= usize::MAX,
        watched.len() <= usize::MAX,
    ensures
        ({
            let r = refreshed(refreshing(watched, endpoints), worked);
            &&& kept(watched, endpoints).is_prefix_of(r.watched)
            &&& r.phase is Registering ==> (r.action() matches WatchAction::Watch(id)
                && endpoints.contains(id) && !watched.contains(id))
        }),
    decreases worked.len(),
{
    let stay = kept(watched, endpoints);
    let r = refreshed(refreshing(watched, endpoints), worked);
    watched.lemma_filter_len(|id: Seq<char>| !endpoints.contains(id));
    lemma_refresh_keeps_wf(watched, endpoints, worked);
    if worked.len() > 0 {
        lemma_kept_watches_are_not_made_anew(watched, endpoints, worked.drop_last());
        lemma_refresh_keeps_wf(watched, endpoints, worked.drop_last());
    }
    if let WatchPhase::Registering(at) = r.phase {
        let id = r.endpoints[at as int];
        assert(endpoints.contains(id));
        if watched.contains(id) {
            lemma_watches_follow_the_endpoints(watched, endpoints, id);
            let k = choose|k: int| 0 <= k < stay.len() && stay[k] == id;
            assert(r.watched[k] == id);
        }
    }
}

proof fn lemma_unwatched(watched: Seq<Seq<char>>, endpoints: Seq<Seq<char>>, from: int)
    requires
        0 <= from,
    ensures
        ({
            let at = unwatched(watched, endpoints, from);
            &&& 0 <= at <= endpoints.len()
            &&& at < endpoints.len() ==> !watched.contains(endpoints[at])
        }),
    decreases endpoints.len() - from,
{
    if from < endpoints.len() && watched.contains(endpoints[from]) {
        lemma_unwatched(watched, endpoints, from + 1);
    }
}

proof fn lemma_refresh_keeps_wf(
    watched: Seq<Seq<char>>,
    endpoints: Seq<Seq<char>>,
    worked: Seq<bool>,
)
    requires
        endpoints.len() <= usize::MAX,
        watched.len() <= usize::MAX,
    ensures
        refreshed(refreshing(watched, endpoints), worked).wf(),
        refreshed(refreshing(watched, endpoints), worked).endpoints == endpoints,
    decreases worked.len(),
{
    let start = refreshing(watched, endpoints);
    if worked.len() == 0 {
        watched.lemma_filter_len(|id: Seq<char>| !endpoints.contains(id));
        lemma_unwatched(start.watched, endpoints, 0);
    } else {
        lemma_refresh_keeps_wf(watched, endpoints, worked.drop_last());
        let r = refreshed(start, worked.drop_last());
        lemma_unwatched(r.watched, endpoints, 0);
        if let WatchPhase::Registering(at) = r.phase {
            lemma_unwatched(r.watched, endpoints, at + 1);
            lemma_unwatched(r.watched.push(endpoints[at as int]), endpoints, at + 1);
        }
    }
}

proof fn lemma_filter_keeps_distinct(s: Seq<Seq<char>>, keep: spec_fn(Seq<char>) -> bool)
    requires
        s.no_duplicates(),
    ensures
        s.filter(keep).no_duplicates(),
    decreases s.len(),
{
    reveal(Seq::filter);
    if s.len() > 0 {
        let front = s.drop_last();
        assert(front.no_duplicates());
        lemma_filter_keeps_distinct(front, keep);
        let before = front.filter(keep);
        if keep(s.last()) {
            lemma_filter_picks(front, keep, s.last());
            let all = before.push(s.last());
            assert(!front.contains(s.last())) by {
                if front.contains(s.last()) {
                    let i = choose|i: int| 0 <= i < front.len() && front[i] == s.last();
                    assert(s[i] == s[s.len() - 1]);
                }
            }
            assert forall|i: int, j: int| 0 <= i < j < all.len() implies all[i] != all[j] by {
                if j == before.len() {
                    assert(before.contains(before[i]));
                }
            }
        }
    }
}

/// What stays watched and what goes stand in the order in which they were
/// watched.
pub proof fn lemma_watches_keep_the_order(
    watched: Seq<Seq<char>>,
    endpoints: Seq<Seq<char>>,
    i: int,
    j: int,
)
    requires
        0 <= i < j < watched.len(),
    ensures
        endpoints.contains(watched[i]) && endpoints.contains(watched[j]) ==> exists|
            p: int,
            q: int,
        |
            0 <= p < q < kept(watched, endpoints).len() && #[trigger] kept(watched, endpoints)[p]
                == watched[i] && #[trigger] kept(watched, endpoints)[q] == watched[j],
        !endpoints.contains(watched[i]) && !endpoints.contains(watched[j]) ==> exists|
            p: int,
            q: int,
        |
            0 <= p < q < dropped(watched, endpoints).len() && #[trigger] dropped(
                watched,
                endpoints,
            )[p] == watched[i] && #[trigger] dropped(watched, endpoints)[q] == watched[j],
{
    if endpoints.contains(watched[i]) && endpoints.contains(watched[j]) {
        let picked = kept(watched, endpoints);
        lemma_filter_keeps_the_order(watched, |id: Seq<char>| endpoints.contains(id), i, j);
        let (p, q) = choose|p: int, q: int|
            0 <= p < q < picked.len() && #[trigger] picked[p] == watched[i]
                && #[trigger] picked[q] == watched[j];
        assert(picked[p] == watched[i] && picked[q] == watched[j]);
    }
    if !endpoints.contains(watched[i]) && !endpoints.contains(watched[j]) {
        let picked = dropped(watched, endpoints);
        lemma_filter_keeps_the_order(watched, |id: Seq<char>| !endpoints.contains(id), i, j);
        let (p, q) = choose|p: int, q: int|
            0 <= p < q < picked.len() && #[trigger] picked[p] == watched[i]
                && #[trigger] picked[q] == watched[j];
        assert(picked[p] == watched[i] && picked[q] == watched[j]);
    }
}

/// Each watch stays or goes, once.
pub proof fn lemma_each_watch_stays_or_goes(watched: Seq<Seq<char>>, endpoints: Seq<Seq<char>>)
    ensures
        kept(watched, endpoints).len() + dropped(watched, endpoints).len() == watched.len(),
    decreases watched.len(),
{
    reveal(Seq::filter);
    if watched.len() > 0 {
        lemma_each_watch_stays_or_goes(watched.drop_last(), endpoints);
    }
}

/// Every watch that goes is ended, one after the other and whether or not that
/// works, before any is registered.
pub proof fn lemma_every_watch_that_goes_is_ended(
    watched: Seq<Seq<char>>,
    endpoints: Seq<Seq<char>>,
    worked: Seq<bool>,
)
    requires
        endpoints.len() <= usize::MAX,
        watched.len() <= usize::MAX,
        worked.len() < dropped(watched, endpoints).len(),
    ensures
        ({
            let r = refreshed(refreshing(watched, endpoints), worked);
            &&& !(r.phase is Ended)
            &&& r.action() == WatchAction::End(
                dropped(watched, endpoints)[worked.len() as int],
            )
            &&& r.watched == kept(watched, endpoints)
        }),
    decreases worked.len(),
{
    watched.lemma_filter_len(|id: Seq<char>| !endpoints.contains(id));
    lemma_endings(watched, endpoints, worked);
}

proof fn lemma_endings(
    watched: Seq<Seq<char>>,
    endpoints: Seq<Seq<char>>,
    worked: Seq<bool>,
)
    requires
        dropped(watched, endpoints).len() <= usize::MAX,
        worked.len() < dropped(watched, endpoints).len(),
    ensures
        ({
            let r = refreshed(refreshing(watched, endpoints), worked);
            &&& r.phase == WatchPhase::Ending(worked.len() as usize)
            &&& r.gone == dropped(watched, endpoints)
            &&& r.watched == kept(watched, endpoints)
        }),
    decreases worked.len(),
{
    if worked.len() > 0 {
        lemma_endings(watched, endpoints, worked.drop_last());
    }
}

/// The first endpoint that is not watched is the next to be registered: those
/// before it are watched already. An endpoint is watched from then on if its
/// registration worked, and not if it did not; either way the ones behind it come
/// next, and the refresh ends when each of them is watched.
pub proof fn lemma_only_watched_endpoints_are_passed_over(r: RefreshView, at: usize, worked: bool)
    requires
        r.wf(),
        r.phase == WatchPhase::Registering(at),
    ensures
        r.action() == WatchAction::Watch(r.endpoints[at as int]),
        ({
            let next = r.next(worked);
            &&& next.watched == if worked {
                r.watched.push(r.endpoints[at as int])
            } else {
                r.watched
            }
            &&& !(next.phase is Ending)
            &&& next.phase matches WatchPhase::Registering(k) ==> at < k < r.endpoints.len()
                && !next.watched.contains(r.endpoints[k as int]) && forall|j: int|
                at < j < k ==> next.watched.contains(#[trigger] r.endpoints[j])
            &&& next.phase is Ended ==> forall|j: int|
                at < j < r.endpoints.len() ==> next.watched.contains(#[trigger] r.endpoints[j])
        }),
{
    lemma_passed_over(r.next(worked).watched, r.endpoints, at + 1);
}

/// Once the watches that go are ended, the first endpoint that is not watched is
/// registered; if there is none, the refresh ends.
pub proof fn lemma_the_first_unwatched_endpoint_comes_first(r: RefreshView, at: usize, worked: bool)
    requires
        r.wf(),
        r.phase == WatchPhase::Ending(at),
        at + 1 == r.gone.len(),
    ensures
        ({
            let next = r.next(worked);
            &&& next.watched == r.watched
            &&& !(next.phase is Ending)
            &&& next.phase matches WatchPhase::Registering(k) ==> k < r.endpoints.len()
                && !next.watched.contains(r.endpoints[k as int]) && forall|j: int|
                0 <= j < k ==> next.watched.contains(#[trigger] r.endpoints[j])
            &&& next.phase is Ended ==> forall|j: int|
                0 <= j < r.endpoints.len() ==> next.watched.contains(#[trigger] r.endpoints[j])
        }),
{
    lemma_passed_over(r.watched, r.endpoints, 0);
}

proof fn lemma_passed_over(watched: Seq<Seq<char>>, endpoints: Seq<Seq<char>>, from: int)
    requires
        0 <= from,
    ensures
        ({
            let at = unwatched(watched, endpoints, from);
            &&& 0 <= at <= endpoints.len()
            &&& at < endpoints.len() ==> from <= at && !watched.contains(endpoints[at])
            &&& forall|j: int| from <= j < at ==> watched.contains(#[trigger] endpoints[j])
        }),
    decreases endpoints.len() - from,
{
    if from < endpoints.len() && watched.contains(endpoints[from]) {
        lemma_passed_over(watched, endpoints, from + 1);
    }
}

/// Without a watch that goes, a refresh begins with the first endpoint that is
/// not watched, and is done at once if there is none.
pub proof fn lemma_what_a_refresh_begins_with(watched: Seq<Seq<char>>, endpoints: Seq<Seq<char>>)
    requires
        endpoints.len() <= usize::MAX,
        dropped(watched, endpoints).len() == 0,
    ensures
        ({
            let r = refreshing(watched, endpoints);
            &&& r.watched == kept(watched, endpoints)
            &&& !(r.phase is Ending)
            &&& r.phase matches WatchPhase::Registering(k) ==> k < endpoints.len()
                && r.action() == WatchAction::Watch(endpoints[k as int])
                && !kept(watched, endpoints).contains(endpoints[k as int]) && forall|j: int|
                0 <= j < k ==> kept(watched, endpoints).contains(#[trigger] endpoints[j])
            &&& r.phase is Ended ==> forall|j: int|
                0 <= j < endpoints.len() ==> kept(watched, endpoints).contains(
                    #[trigger] endpoints[j],
                )
        }),
{
    lemma_passed_over(kept(watched, endpoints), endpoints, 0);
}

} // verus!
