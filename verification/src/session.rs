//! The run of one login, as a machine that is fed events and answers with
//! the next thing to do.
//!
//! A run waits for a match until it has one or until the browser's stream of
//! addresses ends. The program around the library does what an [`Action`]
//! names and hands back what came of it as an [`Event`]:
//!
//! - after [`Action::AwaitNavigation`], the next address of the browser, or
//!   the news that there will be none;
//! - after [`Action::QueryCookies`], the cookies of the store under the
//!   given scope, or the news that the query failed;
//! - after [`Action::Finish`], nothing: the run is over.
//!
//! One query is in flight at most, and no address is looked at before the
//! query for the one before it is answered. An event that answers nothing
//! that was asked leaves the run as it is.

use vstd::prelude::*;
use crate::cookie::{extract_session_cookie, extracted, Cookie, CookieModel};
use crate::portal::{cookie_scope, is_portal, scope_of};

verus! {

/// Where a run stands.
#[derive(Debug, Clone, PartialEq, Eq)]
pub enum State {
    /// No credential yet. `query` is the scope of the cookie query in
    /// flight, if one is.
    AwaitingMatch { query: Option<String> },
    /// The credential was found: the run is over.
    Matched { credential: String },
    /// The browser will send no further address: the run is over, without
    /// a credential.
    StreamEnded,
}

/// What the program around the library reports.
#[derive(Debug, Clone, PartialEq, Eq)]
pub enum Event {
    /// The browser is now at `url`.
    Navigated { url: String },
    /// The browser will send no further address.
    StreamClosed,
    /// The cookie store answered the query in flight.
    CookiesFetched { cookies: Vec<Cookie> },
    /// The cookie store failed on the query in flight.
    CookieQueryFailed,
}

/// What the program around the library is to do next.
#[derive(Debug, Clone, PartialEq, Eq)]
pub enum Action {
    /// Wait for the browser's next address.
    AwaitNavigation,
    /// Ask the cookie store for the cookies under `scope`.
    QueryCookies { scope: String },
    /// Close the window and report `result`.
    Finish { result: Option<String> },
}

/// A [`State`] as contracts see it.
pub ghost enum StateModel {
    AwaitingMatch { query: Option<Seq<char>> },
    Matched { credential: Seq<char> },
    StreamEnded,
}

/// An [`Event`] as contracts see it.
pub ghost enum EventModel {
    Navigated { url: Seq<char> },
    StreamClosed,
    CookiesFetched { cookies: Seq<CookieModel> },
    CookieQueryFailed,
}

/// An [`Action`] as contracts see it.
pub ghost enum ActionModel {
    AwaitNavigation,
    QueryCookies { scope: Seq<char> },
    Finish { result: Option<Seq<char>> },
}

impl View for State {
    type V = StateModel;

    open spec fn view(&self) -> StateModel {
        match self {
            State::AwaitingMatch { query } => StateModel::AwaitingMatch {
                query: query.deep_view(),
            },
            State::Matched { credential } => StateModel::Matched { credential: credential@ },
            State::StreamEnded => StateModel::StreamEnded,
        }
    }
}

impl View for Event {
    type V = EventModel;

    open spec fn view(&self) -> EventModel {
        match self {
            Event::Navigated { url } => EventModel::Navigated { url: url@ },
            Event::StreamClosed => EventModel::StreamClosed,
            Event::CookiesFetched { cookies } => EventModel::CookiesFetched {
                cookies: cookies.deep_view(),
            },
            Event::CookieQueryFailed => EventModel::CookieQueryFailed,
        }
    }
}

impl DeepView for Event {
    type V = EventModel;

    open spec fn deep_view(&self) -> EventModel {
        self.view()
    }
}

impl View for Action {
    type V = ActionModel;

    open spec fn view(&self) -> ActionModel {
        match self {
            Action::AwaitNavigation => ActionModel::AwaitNavigation,
            Action::QueryCookies { scope } => ActionModel::QueryCookies { scope: scope@ },
            Action::Finish { result } => ActionModel::Finish { result: result.deep_view() },
        }
    }
}

/// The state in which every run starts.
pub open spec fn initial() -> StateModel {
    StateModel::AwaitingMatch { query: None }
}

/// The run is over in `state`.
pub open spec fn is_final(state: StateModel) -> bool {
    state is Matched || state is StreamEnded
}

/// The state that follows `state` on `event`.
pub open spec fn next_state(state: StateModel, event: EventModel) -> StateModel {
    match state {
        StateModel::AwaitingMatch { query: None } => match event {
            EventModel::Navigated { url } => StateModel::AwaitingMatch { query: scope_of(url) },
            EventModel::StreamClosed => StateModel::StreamEnded,
            EventModel::CookiesFetched { .. } => state,
            EventModel::CookieQueryFailed => state,
        },
        StateModel::AwaitingMatch { query: Some(_) } => match event {
            EventModel::Navigated { .. } => state,
            EventModel::StreamClosed => StateModel::StreamEnded,
            EventModel::CookiesFetched { cookies } => match extracted(cookies) {
                Some(credential) => StateModel::Matched { credential },
                None => StateModel::AwaitingMatch { query: None },
            },
            EventModel::CookieQueryFailed => StateModel::AwaitingMatch { query: None },
        },
        StateModel::Matched { .. } => state,
        StateModel::StreamEnded => state,
    }
}

/// What is to be done in `state`.
pub open spec fn pending(state: StateModel) -> ActionModel {
    match state {
        StateModel::AwaitingMatch { query: None } => ActionModel::AwaitNavigation,
        StateModel::AwaitingMatch { query: Some(scope) } => ActionModel::QueryCookies { scope },
        StateModel::Matched { credential } => ActionModel::Finish { result: Some(credential) },
        StateModel::StreamEnded => ActionModel::Finish { result: None },
    }
}

/// The state that `events`, fed one after the other, lead to from `state`.
pub open spec fn run(state: StateModel, events: Seq<EventModel>) -> StateModel
    decreases events.len(),
{
    if events.len() == 0 {
        state
    } else {
        next_state(run(state, events.drop_last()), events.last())
    }
}

impl State {
    /// A run at its start: nothing found, nothing asked.
    pub fn new() -> (state: State)
        ensures
            state@ == initial(),
    {
        State::AwaitingMatch { query: None }
    }

    /// What is to be done in this state.
    pub fn action(&self) -> (action: Action)
        ensures
            action@ == pending(self@),
    {
        match self {
            State::AwaitingMatch { query: None } => Action::AwaitNavigation,
            State::AwaitingMatch { query: Some(scope) } => Action::QueryCookies {
                scope: scope.clone(),
            },
            State::Matched { credential } => Action::Finish { result: Some(credential.clone()) },
            State::StreamEnded => Action::Finish { result: None },
        }
    }

    /// Takes `event` in, and tells where the run stands then and what is to
    /// be done next.
    pub fn step(self, event: &Event) -> (after: (State, Action))
        ensures
            after.0@ == next_state(self@, event@),
            after.1@ == pending(after.0@),
    {
        let state = match self {
            State::AwaitingMatch { query: None } => match event {
                Event::Navigated { url } => State::AwaitingMatch {
                    query: cookie_scope(url.as_str()),
                },
                Event::StreamClosed => State::StreamEnded,
                Event::CookiesFetched { .. } => State::AwaitingMatch { query: None },
                Event::CookieQueryFailed => State::AwaitingMatch { query: None },
            },
            State::AwaitingMatch { query: Some(scope) } => match event {
                Event::Navigated { .. } => State::AwaitingMatch { query: Some(scope) },
                Event::StreamClosed => State::StreamEnded,
                Event::CookiesFetched { cookies } => match extract_session_cookie(
                    cookies.as_slice(),
                ) {
                    Some(credential) => State::Matched { credential },
                    None => State::AwaitingMatch { query: None },
                },
                Event::CookieQueryFailed => State::AwaitingMatch { query: None },
            },
            State::Matched { credential } => State::Matched { credential },
            State::StreamEnded => State::StreamEnded,
        };
        let action = state.action();
        (state, action)
    }

    /// Feeds a recorded sequence of events, first to last, and tells where
    /// the run stands after the last.
    pub fn replay(self, events: &[Event]) -> (end: State)
        ensures
            end@ == run(self@, events.deep_view()),
    {
        let ghost start = self@;
        let ghost trace = events.deep_view();
        let mut state = self;
        let mut i: usize = 0;
        while i < events.len()
            invariant
                i <= events.len(),
                trace == events.deep_view(),
                state@ == run(start, trace.take(i as int)),
            decreases events.len() - i,
        {
            proof {
                let upto = trace.take(i + 1);
                assert(upto.drop_last() =~= trace.take(i as int));
                assert(upto.last() == events[i as int]@);
            }
            let (after, _) = state.step(&events[i]);
            state = after;
            i += 1;
        }
        proof {
            assert(trace.take(events.len() as int) =~= trace);
        }
        state
    }
}

/// Feeding `first` and then `then` is feeding the two as one sequence.
pub proof fn lemma_run_in_two(state: StateModel, first: Seq<EventModel>, then: Seq<EventModel>)
    ensures
        run(state, first + then) == run(run(state, first), then),
    decreases then.len(),
{
    if then.len() == 0 {
        assert(first + then =~= first);
    } else {
        lemma_run_in_two(state, first, then.drop_last());
        assert((first + then).drop_last() =~= first + then.drop_last());
        assert((first + then).last() == then.last());
    }
}

/// A run that is over stays as it is, whatever it is fed: a second arrival
/// at the portal gives no second credential.
pub proof fn lemma_final_state_is_kept(state: StateModel, events: Seq<EventModel>)
    requires
        is_final(state),
    ensures
        run(state, events) == state,
    decreases events.len(),
{
    if events.len() > 0 {
        lemma_final_state_is_kept(state, events.drop_last());
    }
}

/// A run gives one credential at most: once it stands at a credential after
/// `i` events, it stands at the same one after any `j >= i` of them.
pub proof fn lemma_one_credential_per_run(
    state: StateModel,
    events: Seq<EventModel>,
    i: int,
    j: int,
)
    requires
        0 <= i <= j <= events.len(),
        run(state, events.take(i)) is Matched,
    ensures
        run(state, events.take(j)) == run(state, events.take(i)),
{
    assert(events.take(j) =~= events.take(i) + events.subrange(i, j));
    lemma_run_in_two(state, events.take(i), events.subrange(i, j));
    lemma_final_state_is_kept(run(state, events.take(i)), events.subrange(i, j));
}

/// An address that is not of the portal changes nothing, in whatever state
/// it comes: no query is asked for on its account.
pub proof fn lemma_other_address_changes_nothing(state: StateModel, url: Seq<char>)
    requires
        !is_portal(url),
    ensures
        next_state(state, EventModel::Navigated { url }) == state,
        pending(next_state(state, EventModel::Navigated { url })) == pending(state),
{
}

/// A query is started by an address of the portal and by nothing else, and
/// it is asked under the scope of that address.
pub proof fn lemma_query_comes_from_portal(
    state: StateModel,
    event: EventModel,
    scope: Seq<char>,
)
    requires
        pending(state) !is QueryCookies,
        pending(next_state(state, event)) == (ActionModel::QueryCookies { scope }),
    ensures
        state == initial(),
        event is Navigated,
        is_portal(event->url),
        scope_of(event->url) == Some(scope),
{
}

/// A credential comes from the cookies that answer a query in flight, and
/// from nothing else.
pub proof fn lemma_credential_comes_from_answer(
    state: StateModel,
    event: EventModel,
    credential: Seq<char>,
)
    requires
        state !is Matched,
        next_state(state, event) == (StateModel::Matched { credential }),
    ensures
        state matches StateModel::AwaitingMatch { query: Some(_) },
        event is CookiesFetched,
        extracted(event->cookies) == Some(credential),
{
}

/// No event of `events` reports an address of the portal.
pub open spec fn never_at_portal(events: Seq<EventModel>) -> bool {
    forall|i: int|
        0 <= i < events.len() && (#[trigger] events[i]) is Navigated ==> !is_portal(
            events[i]->url,
        )
}

/// Some event of `events` reports the end of the stream.
pub open spec fn stream_closes(events: Seq<EventModel>) -> bool {
    exists|i: int| 0 <= i < events.len() && (#[trigger] events[i]) is StreamClosed
}

/// A run in which the browser never reaches the portal finds nothing and
/// asks the cookie store nothing. It ends, without a result, exactly when
/// the stream closes.
pub proof fn lemma_no_portal_no_result(events: Seq<EventModel>)
    requires
        never_at_portal(events),
    ensures
        run(initial(), events) !is Matched,
        pending(run(initial(), events)) !is QueryCookies,
        stream_closes(events) <==> run(initial(), events) == StateModel::StreamEnded,
        !stream_closes(events) <==> run(initial(), events) == initial(),
    decreases events.len(),
{
    if events.len() > 0 {
        let before = events.drop_last();
        assert forall|i: int| 0 <= i < before.len() && (#[trigger] before[i]) is Navigated
            implies !is_portal(before[i]->url) by {
            assert(before[i] == events[i]);
        }
        lemma_no_portal_no_result(before);
        let last = events.last();
        assert(last == events[events.len() - 1]);
        if stream_closes(before) {
            let k = choose|k: int| 0 <= k < before.len() && (#[trigger] before[k]) is StreamClosed;
            assert(events[k] is StreamClosed);
        }
        if stream_closes(events) && !stream_closes(before) {
            let k = choose|k: int| 0 <= k < events.len() && (#[trigger] events[k]) is StreamClosed;
            if k < before.len() {
                assert(before[k] is StreamClosed);
            }
        }
    }
}

} // verus!
