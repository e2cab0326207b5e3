//! Answering what a turn asks of the user.

use crate::app;
use crate::app::{App, AppView};
use crate::dialogs;
use crate::events;
use crate::focus;
use crate::focus::OverlayFocus;
use crate::state::{Effect, EffectView, PermissionResponse};
use crate::turns;
use vstd::prelude::*;

verus! {

/// The first permission request answered; the next one is shown, or whatever else waits.
#[verifier::opaque]
pub open spec fn permission_answered(a: AppView, response: PermissionResponse) -> AppView {
    if a.permissions.len() == 0 {
        a
    } else {
        let b = app::with_effect(
            AppView { permissions: a.permissions.skip(1), ..a },
            EffectView::AnswerPermission { request: a.permissions[0], response },
        );
        if b.permissions.len() > 0 {
            AppView { overlay_focus: OverlayFocus::PermissionDialog, ..b }
        } else {
            events::wait_over(b)
        }
    }
}

/// The first question answered with what the caller holds.
#[verifier::opaque]
pub open spec fn question_answered(a: AppView) -> AppView {
    if a.questions.len() == 0 {
        a
    } else {
        let b = app::with_effect(
            AppView { questions: a.questions.skip(1), ..a },
            EffectView::AnswerQuestion { request: a.questions[0] },
        );
        if b.questions.len() > 0 {
            AppView { overlay_focus: OverlayFocus::QuestionDialog, ..b }
        } else {
            events::wait_over(b)
        }
    }
}

pub open spec fn questions_cleared(a: AppView) -> AppView {
    app::with_effect(AppView { questions: Seq::empty(), ..a }, EffectView::DropQuestions)
}

pub open spec fn turn_cancelled(a: AppView) -> AppView {
    match a.current {
        Some(id) => turns::stream_cancelled(a, id),
        None => a,
    }
}

/// The questions turned down, and the turn that asked them with them.
#[verifier::opaque]
pub open spec fn question_cancelled(a: AppView) -> AppView {
    if a.questions.len() == 0 {
        a
    } else {
        turn_cancelled(events::wait_over(questions_cleared(a)))
    }
}

/// The keyboard back where it was: with the search, if there is one.
pub open spec fn focus_restored(a: AppView) -> AppView {
    AppView {
        overlay_focus: if a.find_active && dialogs::can_find(a) {
            OverlayFocus::FindBar
        } else {
            OverlayFocus::Nothing
        },
        ..a
    }
}

/// The questions turned down from the keyboard.
#[verifier::opaque]
pub open spec fn question_left(a: AppView) -> AppView {
    turn_cancelled(focus_restored(questions_cleared(a)))
}

impl App {
    fn take_permission(&mut self, response: PermissionResponse)
        requires
            old(self).permissions@.len() > 0,
        ensures
            final(self)@ == app::with_effect(
                AppView { permissions: old(self)@.permissions.skip(1), ..old(self)@ },
                EffectView::AnswerPermission { request: old(self)@.permissions[0], response },
            ),
    {
        let ghost before = self.permissions@;
        let request: u64 = self.permissions.remove(0);
        assert(self.permissions@ =~= before.skip(1));
        self.push_effect(Effect::AnswerPermission { request, response });
    }

    fn focus_request(&mut self, dialog: OverlayFocus)
        ensures
            final(self)@ == (AppView { overlay_focus: dialog, ..old(self)@ }),
    {
        self.overlay_focus = dialog;
    }

    /// Answers the first permission request with the response given; says whether there is one.
    pub fn remote_respond_permission(&mut self, response: PermissionResponse) -> (r: bool)
        ensures
            r == (old(self)@.permissions.len() > 0),
            final(self)@ == permission_answered(old(self)@, response),
            r ==> final(self)@.effects == old(self)@.effects.push(
                EffectView::AnswerPermission { request: old(self)@.permissions[0], response },
            ),
    {
        proof {
            lemma_answered_as_given(self@, response);
        }
        self.respond_to_first(response)
    }

    fn respond_to_first(&mut self, response: PermissionResponse) -> (r: bool)
        ensures
            r == (old(self)@.permissions.len() > 0),
            final(self)@ == permission_answered(old(self)@, response),
    {
        reveal(permission_answered);
        if self.permissions.len() == 0 {
            return false;
        }
        self.take_permission(response);
        if self.permissions.len() > 0 {
            self.focus_request(OverlayFocus::PermissionDialog);
            return true;
        }
        self.resume_remote_wait_if_clear();
        true
    }

    fn take_question(&mut self)
        requires
            old(self).questions@.len() > 0,
        ensures
            final(self)@ == app::with_effect(
                AppView { questions: old(self)@.questions.skip(1), ..old(self)@ },
                EffectView::AnswerQuestion { request: old(self)@.questions[0] },
            ),
    {
        let ghost before = self.questions@;
        let request: u64 = self.questions.remove(0);
        assert(self.questions@ =~= before.skip(1));
        self.push_effect(Effect::AnswerQuestion { request });
    }

    /// Answers the question on the screen; says whether there was one.
    pub fn remote_answer_question(&mut self) -> (r: bool)
        ensures
            r == (old(self)@.questions.len() > 0),
            final(self)@ == question_answered(old(self)@),
    {
        reveal(question_answered);
        if self.questions.len() == 0 {
            return false;
        }
        self.take_question();
        if self.questions.len() > 0 {
            self.focus_request(OverlayFocus::QuestionDialog);
            return true;
        }
        self.resume_remote_wait_if_clear();
        true
    }

    fn clear_questions(&mut self)
        ensures
            final(self)@ == questions_cleared(old(self)@),
    {
        self.questions = Vec::new();
        self.push_effect(Effect::DropQuestions);
    }

    /// Turns the questions down and cancels the turn; says whether there were any.
    pub fn remote_cancel_question(&mut self) -> (r: bool)
        ensures
            r == (old(self)@.questions.len() > 0),
            final(self)@ == question_cancelled(old(self)@),
    {
        reveal(question_cancelled);
        if self.questions.len() == 0 {
            return false;
        }
        self.clear_questions();
        self.resume_remote_wait_if_clear();
        self.cancel_streaming();
        true
    }

    pub fn restore_focus_after_priority_overlay(&mut self)
        ensures
            final(self)@ == focus_restored(old(self)@),
    {
        self.overlay_focus = if self.find_active && self.can_open_find_bar() {
            OverlayFocus::FindBar
        } else {
            OverlayFocus::Nothing
        };
    }

    pub fn leave_question(&mut self)
        ensures
            final(self)@ == question_left(old(self)@),
    {
        reveal(question_left);
        self.clear_questions();
        self.restore_focus_after_priority_overlay();
        self.cancel_streaming();
    }
}

proof fn lemma_answered_as_given(a: AppView, response: PermissionResponse)
    ensures
        a.permissions.len() > 0 ==> permission_answered(a, response).effects == a.effects.push(
            EffectView::AnswerPermission { request: a.permissions[0], response },
        ),
{
    reveal(permission_answered);
}

/// Once nothing is asked any more, no request has the screen; as long as something is asked, one
/// has.
pub proof fn law_next_request_is_shown(a: AppView, response: PermissionResponse)
    requires
        a.permissions.len() > 0,
    ensures
        ({
            let b = permission_answered(a, response);
            &&& b.permissions == a.permissions.skip(1)
            &&& b.questions == a.questions
            &&& b.overlay_focus == match focus::claimed_overlay(
                b.permissions.len(),
                b.questions.len(),
                b.terminals.len(),
            ) {
                Some(overlay) => overlay,
                None => OverlayFocus::Nothing,
            }
        }),
{
    reveal(permission_answered);
}

/// The same for questions, but that a permission request that waits goes first once the last
/// question is answered.
pub proof fn law_next_question_is_shown(a: AppView)
    requires
        a.questions.len() > 0,
    ensures
        ({
            let b = question_answered(a);
            &&& b.questions == a.questions.skip(1)
            &&& b.permissions == a.permissions
            &&& a.questions.len() > 1 ==> b.overlay_focus == OverlayFocus::QuestionDialog
            &&& a.questions.len() == 1 && a.permissions.len() > 0 ==> b.overlay_focus
                == OverlayFocus::PermissionDialog
        }),
{
    reveal(question_answered);
}

} // verus!
