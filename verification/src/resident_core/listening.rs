//! How a Resident Core comes to listen at its endpoint: it takes the place of
//! one that has ended, but of nobody else.

use vstd::prelude::*;
use vstd::string::*;

verus! {

/// What came of listening at the endpoint.
pub enum BindOutcome {
    Listening,
    /// Something is there already.
    InUse { error: String },
    Failed { error: String },
}

/// What is done next.
#[derive(Debug, PartialEq, Eq)]
pub enum ListenStep {
    Bind,
    /// Ask whether somebody answers.
    Probe,
    /// Look at what is there.
    Inspect,
    /// Remove what is there, and listen again.
    Reclaim,
    Serve,
    /// Another core serves.
    Yield,
    Fail(String),
}

pub enum ListenStepView {
    Bind,
    Probe,
    Inspect,
    Reclaim,
    Serve,
    Yield,
    Fail(Seq<char>),
}

impl View for ListenStep {
    type V = ListenStepView;

    open spec fn view(&self) -> ListenStepView {
        match *self {
            ListenStep::Bind => ListenStepView::Bind,
            ListenStep::Probe => ListenStepView::Probe,
            ListenStep::Inspect => ListenStepView::Inspect,
            ListenStep::Reclaim => ListenStepView::Reclaim,
            ListenStep::Serve => ListenStepView::Serve,
            ListenStep::Yield => ListenStepView::Yield,
            ListenStep::Fail(message) => ListenStepView::Fail(message@),
        }
    }
}

fn fail(what: &str, error: &str) -> (step: ListenStep)
    ensures
        step@ == ListenStepView::Fail(what@ + error@),
{
    let mut message = what.to_owned();
    message.append(error);
    ListenStep::Fail(message)
}

/// Goes on after asking for the lock of the endpoint. `held` says whether
/// another core has it.
pub fn after_lock(held: bool, result: Result<(), String>) -> (step: ListenStep)
    ensures
        step@ == match result {
            Ok(()) => ListenStepView::Bind,
            Err(error) => if held {
                ListenStepView::Yield
            } else {
                ListenStepView::Fail("lock Resident Core startup: "@ + error@)
            },
        },
{
    match result {
        Ok(()) => ListenStep::Bind,
        Err(error) => if held {
            ListenStep::Yield
        } else {
            fail("lock Resident Core startup: ", error.as_str())
        },
    }
}

/// Goes on after listening for the first time.
pub fn after_bind(outcome: BindOutcome) -> (step: ListenStep)
    ensures
        step@ == match outcome {
            BindOutcome::Listening => ListenStepView::Serve,
            BindOutcome::InUse { .. } => ListenStepView::Probe,
            BindOutcome::Failed { error } => ListenStepView::Fail(
                "listen at Resident Core endpoint: "@ + error@,
            ),
        },
{
    match outcome {
        BindOutcome::Listening => ListenStep::Serve,
        BindOutcome::InUse { .. } => ListenStep::Probe,
        BindOutcome::Failed { error } => fail(
            "listen at Resident Core endpoint: ",
            error.as_str(),
        ),
    }
}

/// Goes on after asking whether somebody answers. `deserted` says whether a
/// failure means that there is nobody.
pub fn after_probe(deserted: bool, result: Result<(), String>) -> (step: ListenStep)
    ensures
        step@ == match result {
            Ok(()) => ListenStepView::Yield,
            Err(error) => if deserted {
                ListenStepView::Inspect
            } else {
                ListenStepView::Fail("probe existing Resident Core endpoint: "@ + error@)
            },
        },
{
    match result {
        Ok(()) => ListenStep::Yield,
        Err(error) => if deserted {
            ListenStep::Inspect
        } else {
            fail("probe existing Resident Core endpoint: ", error.as_str())
        },
    }
}

/// Goes on after looking at what is there: only a socket of the same user is
/// removed.
pub fn after_inspection(is_socket: bool, owner: u32, user: u32, path: &str) -> (step: ListenStep)
    ensures
        step@ == if is_socket && owner == user {
            ListenStepView::Reclaim
        } else {
            ListenStepView::Fail(
                "refuse to reclaim unverified Resident Core endpoint: "@ + path@,
            )
        },
{
    if is_socket && owner == user {
        ListenStep::Reclaim
    } else {
        fail("refuse to reclaim unverified Resident Core endpoint: ", path)
    }
}

/// Goes on after listening again.
pub fn after_reclaim(outcome: BindOutcome) -> (step: ListenStep)
    ensures
        step@ == match outcome {
            BindOutcome::Listening => ListenStepView::Serve,
            BindOutcome::InUse { error } => ListenStepView::Fail(
                "listen at reclaimed Resident Core endpoint: "@ + error@,
            ),
            BindOutcome::Failed { error } => ListenStepView::Fail(
                "listen at reclaimed Resident Core endpoint: "@ + error@,
            ),
        },
{
    match outcome {
        BindOutcome::Listening => ListenStep::Serve,
        BindOutcome::InUse { error } => fail(
            "listen at reclaimed Resident Core endpoint: ",
            error.as_str(),
        ),
        BindOutcome::Failed { error } => fail(
            "listen at reclaimed Resident Core endpoint: ",
            error.as_str(),
        ),
    }
}

/// Whether a directory may hold what only one user may read, or what is said.
pub fn check_owned_directory(is_directory: bool, owner: u32, user: u32, path: &str) -> (result:
    Result<(), String>)
    ensures
        result is Ok <==> is_directory && owner == user,
        result matches Err(error) ==> error@
            == "Resident Core runtime directory is not owned by the current user: "@ + path@,
{
    if is_directory && owner == user {
        return Ok(());
    }
    let mut message =
        "Resident Core runtime directory is not owned by the current user: ".to_owned();
    message.append(path);
    Err(message)
}

/// Whether a client may be served: it belongs to the same user.
pub fn same_user(peer: Option<u32>, user: u32) -> (same: bool)
    ensures
        same == (peer == Some(user)),
{
    match peer {
        Some(peer) => peer == user,
        None => false,
    }
}

} // verus!
