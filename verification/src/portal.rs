//! Waiting for the desktop portal to appear on the session bus.
//!
//! Two names count: that of the portal itself, without which nothing works, and
//! that of the KDE backend, which provides screen casts. Both may take time to
//! appear after the system has started.

use vstd::prelude::*;

verus! {

/// How many seconds each of the names is waited for.
pub const PATIENCE: u64 = 30;

/// What the check of the portal does next.
#[derive(Debug, Clone, Copy, PartialEq, Eq, Structural)]
pub enum PortalCheck {
    /// Ask whether the portal has its name.
    AskPortal { waited: u64 },
    /// Wait a second for the portal.
    AwaitPortal { waited: u64 },
    /// Ask whether the backend has its name.
    AskBackend { waited: u64 },
    /// Wait a second for the backend.
    AwaitBackend { waited: u64 },
    /// The portal is there; so is the backend, or it is not.
    Available { backend: bool },
    /// The portal is not there.
    Unavailable,
}

/// What the check of the portal wants done next.
#[derive(Debug, Clone, Copy)]
pub enum PortalRequest {
    /// Ask whether a bus name has an owner.
    HasOwner { name: &'static str },
    /// Wait.
    Pause { millis: u64 },
    /// Nothing: the check is over.
    Finished { available: bool },
}

/// A [`PortalRequest`] as a mathematical value.
#[verifier::ext_equal]
pub ghost enum PortalRequestModel {
    HasOwner { name: Seq<char> },
    Pause { millis: nat },
    Finished { available: bool },
}

impl View for PortalRequest {
    type V = PortalRequestModel;

    open spec fn view(&self) -> PortalRequestModel {
        match *self {
            PortalRequest::HasOwner { name } => PortalRequestModel::HasOwner { name: name@ },
            PortalRequest::Pause { millis } => PortalRequestModel::Pause { millis: millis as nat },
            PortalRequest::Finished { available } => PortalRequestModel::Finished { available },
        }
    }
}

/// What the check asks for.
pub open spec fn portal_request(check: PortalCheck) -> PortalRequestModel {
    match check {
        PortalCheck::AskPortal { .. } => PortalRequestModel::HasOwner {
            name: "org.freedesktop.portal.Desktop"@,
        },
        PortalCheck::AskBackend { .. } => PortalRequestModel::HasOwner {
            name: "org.freedesktop.impl.portal.desktop.kde"@,
        },
        PortalCheck::AwaitPortal { .. } => PortalRequestModel::Pause { millis: 1000 },
        PortalCheck::AwaitBackend { .. } => PortalRequestModel::Pause { millis: 1000 },
        PortalCheck::Available { .. } => PortalRequestModel::Finished { available: true },
        PortalCheck::Unavailable => PortalRequestModel::Finished { available: false },
    }
}

/// The check after the answer whether a name has an owner.
pub open spec fn portal_answered(check: PortalCheck, owned: bool) -> PortalCheck {
    match check {
        PortalCheck::AskPortal { waited } => if owned {
            PortalCheck::AskBackend { waited: 0 }
        } else if waited < PATIENCE {
            PortalCheck::AwaitPortal { waited }
        } else {
            PortalCheck::Unavailable
        },
        PortalCheck::AskBackend { waited } => if owned {
            PortalCheck::Available { backend: true }
        } else if waited < PATIENCE {
            PortalCheck::AwaitBackend { waited }
        } else {
            PortalCheck::Available { backend: false }
        },
        _ => check,
    }
}

/// The check after a pause.
pub open spec fn portal_rested(check: PortalCheck) -> PortalCheck {
    match check {
        PortalCheck::AwaitPortal { waited } => PortalCheck::AskPortal {
            waited: if waited < PATIENCE {
                (waited + 1) as u64
            } else {
                waited
            },
        },
        PortalCheck::AwaitBackend { waited } => PortalCheck::AskBackend {
            waited: if waited < PATIENCE {
                (waited + 1) as u64
            } else {
                waited
            },
        },
        _ => check,
    }
}

/// Starts to check whether the portal is available.
pub fn check_portal_available() -> (r: PortalCheck)
    ensures
        r == (PortalCheck::AskPortal { waited: 0 }),
{
    PortalCheck::AskPortal { waited: 0 }
}

impl PortalCheck {
    /// What is to be done next.
    pub fn request(&self) -> (r: PortalRequest)
        ensures
            r@ == portal_request(*self),
    {
        match self {
            PortalCheck::AskPortal { .. } => PortalRequest::HasOwner {
                name: "org.freedesktop.portal.Desktop",
            },
            PortalCheck::AskBackend { .. } => PortalRequest::HasOwner {
                name: "org.freedesktop.impl.portal.desktop.kde",
            },
            PortalCheck::AwaitPortal { .. } => PortalRequest::Pause { millis: 1000 },
            PortalCheck::AwaitBackend { .. } => PortalRequest::Pause { millis: 1000 },
            PortalCheck::Available { .. } => PortalRequest::Finished { available: true },
            PortalCheck::Unavailable => PortalRequest::Finished { available: false },
        }
    }

    /// Takes the answer whether the name has an owner.
    pub fn accept(&mut self, owned: bool)
        ensures
            *final(self) == portal_answered(*old(self), owned),
    {
        let next = match *self {
            PortalCheck::AskPortal { waited } => if owned {
                PortalCheck::AskBackend { waited: 0 }
            } else if waited < PATIENCE {
                PortalCheck::AwaitPortal { waited }
            } else {
                PortalCheck::Unavailable
            },
            PortalCheck::AskBackend { waited } => if owned {
                PortalCheck::Available { backend: true }
            } else if waited < PATIENCE {
                PortalCheck::AwaitBackend { waited }
            } else {
                PortalCheck::Available { backend: false }
            },
            other => other,
        };
        *self = next;
    }

    /// Goes on after a pause.
    pub fn proceed(&mut self)
        ensures
            *final(self) == portal_rested(*old(self)),
    {
        let next = match *self {
            PortalCheck::AwaitPortal { waited } => PortalCheck::AskPortal {
                waited: if waited < PATIENCE {
                    waited + 1
                } else {
                    waited
                },
            },
            PortalCheck::AwaitBackend { waited } => PortalCheck::AskBackend {
                waited: if waited < PATIENCE {
                    waited + 1
                } else {
                    waited
                },
            },
            other => other,
        };
        *self = next;
    }
}

// ---------------------------------------------------------------------------
// Laws
// ---------------------------------------------------------------------------

/// The check after some answers, with the pauses between them.
pub open spec fn after_answers(check: PortalCheck, answers: Seq<bool>) -> PortalCheck
    decreases answers.len(),
{
    if answers.len() == 0 {
        check
    } else {
        portal_rested(portal_answered(after_answers(check, answers.drop_last()), answers.last()))
    }
}

proof fn lemma_all_refused(answers: Seq<bool>, backend: bool)
    requires
        answers.len() <= PATIENCE,
        forall|i: int| 0 <= i < answers.len() ==> !#[trigger] answers[i],
    ensures
        !backend ==> after_answers(PortalCheck::AskPortal { waited: 0 }, answers) == (
        PortalCheck::AskPortal { waited: answers.len() as u64 }),
        backend ==> after_answers(PortalCheck::AskBackend { waited: 0 }, answers) == (
        PortalCheck::AskBackend { waited: answers.len() as u64 }),
    decreases answers.len(),
{
    if answers.len() > 0 {
        assert forall|i: int| 0 <= i < answers.len() - 1 implies !#[trigger] answers.drop_last()[i] by {
            assert(answers.drop_last()[i] == answers[i]);
        }
        assert(!answers[answers.len() - 1]);
        lemma_all_refused(answers.drop_last(), backend);
    }
}

/// The portal is found at whichever question it first has its name, as long as
/// no more than the whole patience was waited before.
pub proof fn portal_is_found_in_time(answers: Seq<bool>)
    requires
        0 < answers.len() <= PATIENCE + 1,
        answers.last(),
        forall|i: int| 0 <= i < answers.len() - 1 ==> !#[trigger] answers[i],
    ensures
        after_answers(PortalCheck::AskPortal { waited: 0 }, answers) == (PortalCheck::AskBackend {
            waited: 0,
        }),
{
    assert forall|i: int| 0 <= i < answers.drop_last().len() implies !#[trigger] answers.drop_last()[i] by {
        assert(answers.drop_last()[i] == answers[i]);
    }
    lemma_all_refused(answers.drop_last(), false);
}

/// The portal is given up when it has no name after the whole patience, and not
/// before.
pub proof fn portal_is_given_up_after_patience(answers: Seq<bool>)
    requires
        answers.len() <= PATIENCE + 1,
        forall|i: int| 0 <= i < answers.len() ==> !#[trigger] answers[i],
    ensures
        after_answers(PortalCheck::AskPortal { waited: 0 }, answers) == PortalCheck::Unavailable
            <==> answers.len() == PATIENCE + 1,
{
    if answers.len() <= PATIENCE {
        lemma_all_refused(answers, false);
    } else {
        assert forall|i: int| 0 <= i < answers.drop_last().len() implies !#[trigger] answers.drop_last()[i] by {
            assert(answers.drop_last()[i] == answers[i]);
        }
        assert(!answers[answers.len() - 1]);
        lemma_all_refused(answers.drop_last(), false);
    }
}

/// Once the portal is found it counts as available, whether the backend ever
/// appears or not, and the backend is waited for no longer than the patience
/// allows.
pub proof fn backend_does_not_matter(answers: Seq<bool>)
    ensures
        after_answers(PortalCheck::AskBackend { waited: 0 }, answers) != PortalCheck::Unavailable,
        answers.len() > PATIENCE ==> after_answers(
            PortalCheck::AskBackend { waited: 0 },
            answers,
        ) is Available,
{
    lemma_backend(answers);
}

proof fn lemma_backend(answers: Seq<bool>)
    ensures
        match after_answers(PortalCheck::AskBackend { waited: 0 }, answers) {
            PortalCheck::AskBackend { waited } => waited == answers.len() && waited <= PATIENCE,
            PortalCheck::Available { .. } => true,
            _ => false,
        },
    decreases answers.len(),
{
    if answers.len() > 0 {
        lemma_backend(answers.drop_last());
    }
}

/// The backend is found at whichever question it first has its name, as long as no
/// more than thirty seconds were waited before. After that it is given up, and the
/// portal counts as available all the same.
pub proof fn backend_is_found_in_time(answers: Seq<bool>)
    requires
        0 < answers.len() <= 31,
        forall|i: int| 0 <= i < answers.len() - 1 ==> !#[trigger] answers[i],
    ensures
        answers.last() ==> after_answers(PortalCheck::AskBackend { waited: 0 }, answers) == (
        PortalCheck::Available { backend: true }),
        !answers.last() && answers.len() == 31 ==> after_answers(
            PortalCheck::AskBackend { waited: 0 },
            answers,
        ) == (PortalCheck::Available { backend: false }),
        !answers.last() && answers.len() < 31 ==> after_answers(
            PortalCheck::AskBackend { waited: 0 },
            answers,
        ) is AskBackend,
{
    assert forall|i: int| 0 <= i < answers.drop_last().len() implies !#[trigger] answers.drop_last()[i] by {
        assert(answers.drop_last()[i] == answers[i]);
    }
    lemma_all_refused(answers.drop_last(), true);
}

/// Thirty seconds are waited for the portal, one second between two questions.
pub proof fn portal_has_thirty_seconds(answers: Seq<bool>)
    requires
        answers.len() == 31,
        forall|i: int| 0 <= i < answers.len() - 1 ==> !#[trigger] answers[i],
    ensures
        after_answers(PortalCheck::AskPortal { waited: 0 }, answers.drop_last()) is AskPortal,
        answers.last() ==> after_answers(PortalCheck::AskPortal { waited: 0 }, answers) == (
        PortalCheck::AskBackend { waited: 0 }),
        !answers.last() ==> after_answers(PortalCheck::AskPortal { waited: 0 }, answers)
            == PortalCheck::Unavailable,
{
    assert forall|i: int| 0 <= i < answers.drop_last().len() implies !#[trigger] answers.drop_last()[i] by {
        assert(answers.drop_last()[i] == answers[i]);
    }
    lemma_all_refused(answers.drop_last(), false);
}

/// What is asked for: the name of the portal or of the backend, or a pause of a
/// second. The check ends with whether the portal is there.
pub proof fn check_asks_for_the_two_names(waited: u64, backend: bool)
    ensures
        portal_request(PortalCheck::AskPortal { waited }) == (PortalRequestModel::HasOwner {
            name: "org.freedesktop.portal.Desktop"@,
        }),
        portal_request(PortalCheck::AskBackend { waited }) == (PortalRequestModel::HasOwner {
            name: "org.freedesktop.impl.portal.desktop.kde"@,
        }),
        portal_request(PortalCheck::AwaitPortal { waited }) == (PortalRequestModel::Pause {
            millis: 1000,
        }),
        portal_request(PortalCheck::AwaitBackend { waited }) == (PortalRequestModel::Pause {
            millis: 1000,
        }),
        portal_request(PortalCheck::Available { backend }) == (PortalRequestModel::Finished {
            available: true,
        }),
        portal_request(PortalCheck::Unavailable) == (PortalRequestModel::Finished {
            available: false,
        }),
{
}

} // verus!
