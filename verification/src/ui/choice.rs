//! The answers that a prompt offers.
use crate::types::ApprovalScope;
use vstd::prelude::*;

verus! {

#[derive(Clone, Copy, Debug, PartialEq, Eq, Structural)]
pub enum PermissionChoice {
    AllowOnce,
    AllowSession,
    AllowAlways,
    Deny,
    Quit,
}

#[derive(Clone, Copy, Debug, PartialEq, Eq, Structural)]
pub enum FilePreviewChoice {
    Apply,
    Reject,
    Quit,
}

#[derive(Clone, Copy, Debug, PartialEq, Eq, Structural)]
pub enum PlanChoice {
    Approve,
    Revise,
    Reject,
    Quit,
}

impl PlanChoice {
    /// The place of the choice in the order in which the choices are shown.
    pub open spec fn position(self) -> int {
        match self {
            PlanChoice::Approve => 0,
            PlanChoice::Revise => 1,
            PlanChoice::Reject => 2,
            PlanChoice::Quit => 3,
        }
    }

    pub open spec fn following(self) -> PlanChoice {
        match self {
            PlanChoice::Approve => PlanChoice::Revise,
            PlanChoice::Revise => PlanChoice::Reject,
            PlanChoice::Reject => PlanChoice::Quit,
            PlanChoice::Quit => PlanChoice::Approve,
        }
    }

    pub open spec fn preceding(self) -> PlanChoice {
        match self {
            PlanChoice::Approve => PlanChoice::Quit,
            PlanChoice::Revise => PlanChoice::Approve,
            PlanChoice::Reject => PlanChoice::Revise,
            PlanChoice::Quit => PlanChoice::Reject,
        }
    }

    pub open spec fn name(self) -> Seq<char> {
        match self {
            PlanChoice::Approve => "Approve"@,
            PlanChoice::Revise => "Revise"@,
            PlanChoice::Reject => "Reject"@,
            PlanChoice::Quit => "Quit"@,
        }
    }

    pub fn label(self) -> (r: &'static str)
        ensures
            r@ == self.name(),
    {
        match self {
            PlanChoice::Approve => "Approve",
            PlanChoice::Revise => "Revise",
            PlanChoice::Reject => "Reject",
            PlanChoice::Quit => "Quit",
        }
    }

    /// The choice shown after this one; the first follows the last.
    pub fn next(self) -> (r: Self)
        ensures
            r == self.following(),
            r.position() == (self.position() + 1) % 4,
    {
        match self {
            PlanChoice::Approve => PlanChoice::Revise,
            PlanChoice::Revise => PlanChoice::Reject,
            PlanChoice::Reject => PlanChoice::Quit,
            PlanChoice::Quit => PlanChoice::Approve,
        }
    }

    /// The choice shown before this one; the last precedes the first.
    pub fn previous(self) -> (r: Self)
        ensures
            r == self.preceding(),
            r.position() == (self.position() + 3) % 4,
    {
        match self {
            PlanChoice::Approve => PlanChoice::Quit,
            PlanChoice::Revise => PlanChoice::Approve,
            PlanChoice::Reject => PlanChoice::Revise,
            PlanChoice::Quit => PlanChoice::Reject,
        }
    }
}

/// Each choice has its own place, and going on and going back undo each other.
pub proof fn law_plan_choices_cycle(a: PlanChoice, b: PlanChoice, c: PlanChoice)
    requires
        b.position() == (a.position() + 1) % 4,
        c.position() == (b.position() + 3) % 4,
    ensures
        c == a,
        b != a,
{
}

impl FilePreviewChoice {
    /// The place of the choice in the order in which the choices are shown.
    pub open spec fn position(self) -> int {
        match self {
            FilePreviewChoice::Apply => 0,
            FilePreviewChoice::Reject => 1,
            FilePreviewChoice::Quit => 2,
        }
    }

    pub open spec fn following(self) -> FilePreviewChoice {
        match self {
            FilePreviewChoice::Apply => FilePreviewChoice::Reject,
            FilePreviewChoice::Reject => FilePreviewChoice::Quit,
            FilePreviewChoice::Quit => FilePreviewChoice::Apply,
        }
    }

    pub open spec fn preceding(self) -> FilePreviewChoice {
        match self {
            FilePreviewChoice::Apply => FilePreviewChoice::Quit,
            FilePreviewChoice::Reject => FilePreviewChoice::Apply,
            FilePreviewChoice::Quit => FilePreviewChoice::Reject,
        }
    }

    pub open spec fn name(self) -> Seq<char> {
        match self {
            FilePreviewChoice::Apply => "Apply"@,
            FilePreviewChoice::Reject => "Reject"@,
            FilePreviewChoice::Quit => "Quit"@,
        }
    }

    pub fn label(self) -> (r: &'static str)
        ensures
            r@ == self.name(),
    {
        match self {
            FilePreviewChoice::Apply => "Apply",
            FilePreviewChoice::Reject => "Reject",
            FilePreviewChoice::Quit => "Quit",
        }
    }

    /// The choice shown after this one; the first follows the last.
    pub fn next(self) -> (r: Self)
        ensures
            r == self.following(),
            r.position() == (self.position() + 1) % 3,
    {
        match self {
            FilePreviewChoice::Apply => FilePreviewChoice::Reject,
            FilePreviewChoice::Reject => FilePreviewChoice::Quit,
            FilePreviewChoice::Quit => FilePreviewChoice::Apply,
        }
    }

    /// The choice shown before this one; the last precedes the first.
    pub fn previous(self) -> (r: Self)
        ensures
            r == self.preceding(),
            r.position() == (self.position() + 2) % 3,
    {
        match self {
            FilePreviewChoice::Apply => FilePreviewChoice::Quit,
            FilePreviewChoice::Reject => FilePreviewChoice::Apply,
            FilePreviewChoice::Quit => FilePreviewChoice::Reject,
        }
    }

    /// Whether the change is approved; leaving is no answer.
    pub fn response(self) -> (r: Option<bool>)
        ensures
            r == (match self {
                FilePreviewChoice::Apply => Some(true),
                FilePreviewChoice::Reject => Some(false),
                FilePreviewChoice::Quit => None,
            }),
    {
        match self {
            FilePreviewChoice::Apply => Some(true),
            FilePreviewChoice::Reject => Some(false),
            FilePreviewChoice::Quit => None,
        }
    }
}

/// Each choice has its own place, and going on and going back undo each other.
pub proof fn law_file_preview_choices_cycle(
    a: FilePreviewChoice,
    b: FilePreviewChoice,
    c: FilePreviewChoice,
)
    requires
        b.position() == (a.position() + 1) % 3,
        c.position() == (b.position() + 2) % 3,
    ensures
        c == a,
        b != a,
{
}

impl PermissionChoice {
    /// The place of the choice in the order in which the choices are shown.
    pub open spec fn position(self) -> int {
        match self {
            PermissionChoice::AllowOnce => 0,
            PermissionChoice::AllowSession => 1,
            PermissionChoice::AllowAlways => 2,
            PermissionChoice::Deny => 3,
            PermissionChoice::Quit => 4,
        }
    }

    pub open spec fn following(self) -> PermissionChoice {
        match self {
            PermissionChoice::AllowOnce => PermissionChoice::AllowSession,
            PermissionChoice::AllowSession => PermissionChoice::AllowAlways,
            PermissionChoice::AllowAlways => PermissionChoice::Deny,
            PermissionChoice::Deny => PermissionChoice::Quit,
            PermissionChoice::Quit => PermissionChoice::AllowOnce,
        }
    }

    pub open spec fn preceding(self) -> PermissionChoice {
        match self {
            PermissionChoice::AllowOnce => PermissionChoice::Quit,
            PermissionChoice::AllowSession => PermissionChoice::AllowOnce,
            PermissionChoice::AllowAlways => PermissionChoice::AllowSession,
            PermissionChoice::Deny => PermissionChoice::AllowAlways,
            PermissionChoice::Quit => PermissionChoice::Deny,
        }
    }

    pub open spec fn name(self) -> Seq<char> {
        match self {
            PermissionChoice::AllowOnce => "Allow once"@,
            PermissionChoice::AllowSession => "Allow session"@,
            PermissionChoice::AllowAlways => "Always allow"@,
            PermissionChoice::Deny => "Deny"@,
            PermissionChoice::Quit => "Quit"@,
        }
    }

    pub fn label(self) -> (r: &'static str)
        ensures
            r@ == self.name(),
    {
        match self {
            PermissionChoice::AllowOnce => "Allow once",
            PermissionChoice::AllowSession => "Allow session",
            PermissionChoice::AllowAlways => "Always allow",
            PermissionChoice::Deny => "Deny",
            PermissionChoice::Quit => "Quit",
        }
    }

    /// The choice shown after this one; the first follows the last.
    pub fn next(self) -> (r: Self)
        ensures
            r == self.following(),
            r.position() == (self.position() + 1) % 5,
    {
        match self {
            PermissionChoice::AllowOnce => PermissionChoice::AllowSession,
            PermissionChoice::AllowSession => PermissionChoice::AllowAlways,
            PermissionChoice::AllowAlways => PermissionChoice::Deny,
            PermissionChoice::Deny => PermissionChoice::Quit,
            PermissionChoice::Quit => PermissionChoice::AllowOnce,
        }
    }

    /// The choice shown before this one; the last precedes the first.
    pub fn previous(self) -> (r: Self)
        ensures
            r == self.preceding(),
            r.position() == (self.position() + 4) % 5,
    {
        match self {
            PermissionChoice::AllowOnce => PermissionChoice::Quit,
            PermissionChoice::AllowSession => PermissionChoice::AllowOnce,
            PermissionChoice::AllowAlways => PermissionChoice::AllowSession,
            PermissionChoice::Deny => PermissionChoice::AllowAlways,
            PermissionChoice::Quit => PermissionChoice::Deny,
        }
    }

    /// Whether the call is approved, and for how long; leaving is no answer.
    pub open spec fn answer(self) -> Option<(bool, ApprovalScope)> {
        match self {
            PermissionChoice::AllowOnce => Some((true, ApprovalScope::Once)),
            PermissionChoice::AllowSession => Some((true, ApprovalScope::Session)),
            PermissionChoice::AllowAlways => Some((true, ApprovalScope::Persistent)),
            PermissionChoice::Deny => Some((false, ApprovalScope::Once)),
            PermissionChoice::Quit => None,
        }
    }

    pub fn response(self) -> (r: Option<(bool, ApprovalScope)>)
        ensures
            r == self.answer(),
    {
        match self {
            PermissionChoice::AllowOnce => Some((true, ApprovalScope::Once)),
            PermissionChoice::AllowSession => Some((true, ApprovalScope::Session)),
            PermissionChoice::AllowAlways => Some((true, ApprovalScope::Persistent)),
            PermissionChoice::Deny => Some((false, ApprovalScope::Once)),
            PermissionChoice::Quit => None,
        }
    }
}

/// Each choice has its own place, and going on and going back undo each other.
pub proof fn law_permission_choices_cycle(
    a: PermissionChoice,
    b: PermissionChoice,
    c: PermissionChoice,
)
    requires
        b.position() == (a.position() + 1) % 5,
        c.position() == (b.position() + 4) % 5,
    ensures
        c == a,
        b != a,
{
}

} // verus!
