//! The search for an ffmpeg that runs.

use vstd::prelude::*;

use crate::error::RenderError;

verus! {

/// The search: what is to be tried next, or its result. `E` is the error that locating the
/// running executable can end with.
#[derive(Debug)]
pub enum FfmpegSearch<E> {
    /// Try the program `ffmpeg` of the system.
    TryGlobal,
    /// Find out where the bundled program would be: beside the running executable.
    LocateBundled,
    /// Try the bundled program.
    TryBundled(String),
    /// The program to use, if any.
    Done(Option<String>),
    /// The running executable could not be located.
    Failed(E),
}

/// What came of a try.
#[derive(Debug)]
pub enum SearchEvent<E> {
    /// The program that was to be tried can be started, or not.
    Probed(bool),
    /// The bundled program would be here.
    Located(String),
    /// The running executable could not be located.
    Unlocated(E),
}

/// The search, with the contents of its texts.
#[verifier::ext_equal]
pub enum SearchModel<E> {
    TryGlobal,
    LocateBundled,
    TryBundled(Seq<char>),
    Done(Option<Seq<char>>),
    Failed(E),
}

/// What came of a try, with the contents of its text.
pub enum EventModel<E> {
    Probed(bool),
    Located(Seq<char>),
    Unlocated(E),
}

impl<E> View for FfmpegSearch<E> {
    type V = SearchModel<E>;

    open spec fn view(&self) -> SearchModel<E> {
        match *self {
            FfmpegSearch::TryGlobal => SearchModel::TryGlobal,
            FfmpegSearch::LocateBundled => SearchModel::LocateBundled,
            FfmpegSearch::TryBundled(path) => SearchModel::TryBundled(path@),
            FfmpegSearch::Done(Some(program)) => SearchModel::Done(Some(program@)),
            FfmpegSearch::Done(None) => SearchModel::Done(None),
            FfmpegSearch::Failed(error) => SearchModel::Failed(error),
        }
    }
}

impl<E> View for SearchEvent<E> {
    type V = EventModel<E>;

    open spec fn view(&self) -> EventModel<E> {
        match *self {
            SearchEvent::Probed(runs) => EventModel::Probed(runs),
            SearchEvent::Located(path) => EventModel::Located(path@),
            SearchEvent::Unlocated(error) => EventModel::Unlocated(error),
        }
    }
}

/// The search goes on: the program of the system is taken if it runs, else the bundled one if
/// that runs, else none. It fails where the bundled program is asked for and the running
/// executable cannot be located. An event that answers nothing asked changes nothing.
pub open spec fn search_step<E>(search: SearchModel<E>, event: EventModel<E>) -> SearchModel<E> {
    match (search, event) {
        (SearchModel::TryGlobal, EventModel::Probed(runs)) => if runs {
            SearchModel::Done(Some("ffmpeg"@))
        } else {
            SearchModel::LocateBundled
        },
        (SearchModel::LocateBundled, EventModel::Located(path)) => SearchModel::TryBundled(path),
        (SearchModel::LocateBundled, EventModel::Unlocated(error)) => SearchModel::Failed(error),
        (SearchModel::TryBundled(path), EventModel::Probed(runs)) => if runs {
            SearchModel::Done(Some(path))
        } else {
            SearchModel::Done(None)
        },
        _ => search,
    }
}

/// Goes on with the search, which starts at `FfmpegSearch::TryGlobal`.
pub fn find_ffmpeg<E>(search: FfmpegSearch<E>, event: SearchEvent<E>) -> (next: FfmpegSearch<E>)
    ensures
        next@ == search_step(search@, event@),
        search is TryGlobal && event == SearchEvent::<E>::Probed(true) ==> (next
            matches FfmpegSearch::Done(Some(program)) && program@ == "ffmpeg"@),
        search is TryGlobal && event == SearchEvent::<E>::Probed(false) ==> next is LocateBundled,
        search is LocateBundled ==> (event matches SearchEvent::Located(path) ==> next
            == FfmpegSearch::<E>::TryBundled(path)),
        search is LocateBundled ==> (event matches SearchEvent::Unlocated(error) ==> next
            == FfmpegSearch::<E>::Failed(error)),
        search matches FfmpegSearch::TryBundled(path) ==> (event matches SearchEvent::Probed(runs)
            ==> next == FfmpegSearch::<E>::Done(
            if runs {
                Some(path)
            } else {
                None
            },
        )),
        search is Done || search is Failed ==> next == search,
        (search is TryGlobal || search is TryBundled) && !(event is Probed) ==> next == search,
        search is LocateBundled && event is Probed ==> next == search,
{
    match search {
        FfmpegSearch::TryGlobal => match event {
            SearchEvent::Probed(true) => FfmpegSearch::Done(Some("ffmpeg".to_owned())),
            SearchEvent::Probed(false) => FfmpegSearch::LocateBundled,
            _ => FfmpegSearch::TryGlobal,
        },
        FfmpegSearch::LocateBundled => match event {
            SearchEvent::Located(path) => FfmpegSearch::TryBundled(path),
            SearchEvent::Unlocated(error) => FfmpegSearch::Failed(error),
            SearchEvent::Probed(_) => FfmpegSearch::LocateBundled,
        },
        FfmpegSearch::TryBundled(path) => match event {
            SearchEvent::Probed(true) => FfmpegSearch::Done(Some(path)),
            SearchEvent::Probed(false) => FfmpegSearch::Done(None),
            _ => FfmpegSearch::TryBundled(path),
        },
        FfmpegSearch::Done(program) => FfmpegSearch::Done(program),
        FfmpegSearch::Failed(error) => FfmpegSearch::Failed(error),
    }
}

impl<E> FfmpegSearch<E> {
    /// The search is over.
    pub open spec fn over(self) -> bool {
        self is Done || self is Failed
    }

    /// Gives the result of a search that is over.
    pub fn result(self) -> (found: Result<Option<String>, E>)
        requires
            self.over(),
        ensures
            match self {
                FfmpegSearch::Failed(error) => found == Err::<Option<String>, E>(error),
                FfmpegSearch::Done(program) => found == Ok::<Option<String>, E>(program),
                _ => false,
            },
    {
        match self {
            FfmpegSearch::Failed(error) => Err(error),
            FfmpegSearch::Done(program) => Ok(program),
            _ => Ok(None),
        }
    }
}

/// The file name of the bundled program.
pub fn bundled_name(windows: bool) -> (name: &'static str)
    ensures
        name@ == if windows {
            "ffmpeg.exe"@
        } else {
            "ffmpeg"@
        },
{
    if windows {
        "ffmpeg.exe"
    } else {
        "ffmpeg"
    }
}

/// The creation flags under which a program starts without a console window of its own; only
/// Windows needs any.
pub fn hidden_creation_flags(windows: bool) -> (flags: Option<u32>)
    ensures
        flags == if windows {
            Some(0x0800_0000u32)
        } else {
            None
        },
{
    if windows {
        Some(0x0800_0000)
    } else {
        None
    }
}

/// A render cannot go on without ffmpeg.
pub fn require_ffmpeg(found: Option<String>) -> (program: Result<String, RenderError>)
    ensures
        program == (match found {
            Some(program) => Ok::<String, RenderError>(program),
            None => Err::<String, RenderError>(RenderError::FfmpegMissing),
        }),
{
    match found {
        Some(program) => Ok(program),
        None => Err(RenderError::FfmpegMissing),
    }
}

/// What a search meets: whether the program of the system runs, where the bundled program would
/// be or why that cannot be told, and whether the bundled program runs.
pub struct Surroundings<E> {
    pub global_runs: bool,
    pub bundled: Result<Seq<char>, E>,
    pub bundled_runs: bool,
}

impl<E> Surroundings<E> {
    /// What comes of the try that a search asks for; nothing once the search is over.
    pub open spec fn answer(self, search: SearchModel<E>) -> Option<EventModel<E>> {
        match search {
            SearchModel::TryGlobal => Some(EventModel::Probed(self.global_runs)),
            SearchModel::LocateBundled => Some(
                match self.bundled {
                    Ok(path) => EventModel::Located(path),
                    Err(error) => EventModel::Unlocated(error),
                },
            ),
            SearchModel::TryBundled(_) => Some(EventModel::Probed(self.bundled_runs)),
            _ => None,
        }
    }

    /// The search after `n` answers to what it asked.
    pub open spec fn search_after(self, n: nat) -> SearchModel<E>
        decreases n,
    {
        if n == 0 {
            SearchModel::TryGlobal
        } else {
            let before = self.search_after((n - 1) as nat);
            match self.answer(before) {
                Some(event) => search_step(before, event),
                None => before,
            }
        }
    }

    /// The end of the search.
    pub open spec fn result(self) -> SearchModel<E> {
        if self.global_runs {
            SearchModel::Done(Some("ffmpeg"@))
        } else {
            match self.bundled {
                Err(error) => SearchModel::Failed(error),
                Ok(path) => SearchModel::Done(
                    if self.bundled_runs {
                        Some(path)
                    } else {
                        None
                    },
                ),
            }
        }
    }
}

/// A search ends after three answers at most, and for good: with the program of the system if
/// that runs; else with the error of locating the running executable if there is one; else with
/// the bundled program if that runs; else with none.
pub proof fn law_search_result<E>(surroundings: Surroundings<E>, n: nat)
    requires
        n >= 3,
    ensures
        surroundings.search_after(n) == surroundings.result(),
        surroundings.global_runs ==> surroundings.search_after(n) == SearchModel::<E>::Done(
            Some("ffmpeg"@),
        ),
        !surroundings.global_runs ==> (surroundings.bundled matches Err(error)
            ==> surroundings.search_after(n) == SearchModel::<E>::Failed(error)),
        !surroundings.global_runs ==> (surroundings.bundled matches Ok(path)
            ==> surroundings.search_after(n) == SearchModel::<E>::Done(
            if surroundings.bundled_runs {
                Some(path)
            } else {
                None
            },
        )),
    decreases n,
{
    if n == 3 {
        reveal_with_fuel(Surroundings::search_after, 4);
    } else {
        law_search_result(surroundings, (n - 1) as nat);
    }
}

/// A search fails if and only if the program of the system does not run and the running
/// executable cannot be located, and then with the error of locating it.
pub proof fn law_search_failure<E>(surroundings: Surroundings<E>, n: nat)
    requires
        n >= 3,
    ensures
        surroundings.search_after(n) is Failed <==> !surroundings.global_runs
            && surroundings.bundled is Err,
        surroundings.search_after(n) matches SearchModel::Failed(error) ==> surroundings.bundled
            == Err::<Seq<char>, E>(error),
{
    law_search_result(surroundings, n);
}

/// Only one step leads to failure: the answer that the running executable cannot be located, to
/// a search that asked where it is. In particular no probe does, whatever comes of it.
pub proof fn law_failure_is_of_locating<E>(search: SearchModel<E>, event: EventModel<E>)
    requires
        !(search is Failed),
    ensures
        search_step(search, event) is Failed <==> search is LocateBundled && event is Unlocated,
        search_step(search, event) matches SearchModel::Failed(error) ==> event
            == EventModel::Unlocated(error),
{
}

/// Two searches that meet the same go the same way and end alike; what was searched before has
/// no influence.
pub proof fn law_search_is_repeatable<E>(first: Surroundings<E>, second: Surroundings<E>, n: nat)
    requires
        first.global_runs == second.global_runs,
        first.bundled == second.bundled,
        first.bundled_runs == second.bundled_runs,
    ensures
        first.search_after(n) == second.search_after(n),
        first.result() == second.result(),
{
}

/// A search that is over stays over.
pub proof fn law_search_stays_over<E>(search: SearchModel<E>, event: EventModel<E>)
    requires
        search is Done || search is Failed,
    ensures
        search_step(search, event) == search,
{
}

/// What each answer leads to. In particular the program of the system is always tried first, and
/// the bundled one only after it did not run.
pub proof fn law_search_steps<E>(path: Seq<char>, error: E)
    ensures
        search_step(SearchModel::<E>::TryGlobal, EventModel::Probed(true)) == SearchModel::<E>::Done(
            Some("ffmpeg"@),
        ),
        search_step(SearchModel::<E>::TryGlobal, EventModel::Probed(false))
            == SearchModel::<E>::LocateBundled,
        search_step(SearchModel::<E>::LocateBundled, EventModel::Located(path))
            == SearchModel::<E>::TryBundled(path),
        search_step(SearchModel::<E>::LocateBundled, EventModel::Unlocated(error))
            == SearchModel::<E>::Failed(error),
        search_step(SearchModel::<E>::TryBundled(path), EventModel::Probed(true))
            == SearchModel::<E>::Done(Some(path)),
        search_step(SearchModel::<E>::TryBundled(path), EventModel::Probed(false))
            == SearchModel::<E>::Done(None),
{
}

} // verus!
