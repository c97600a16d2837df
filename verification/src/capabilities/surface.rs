//! Where a field or action may appear, and the policy attached to it.
use vstd::prelude::*;
use crate::text::to_owned_string;

verus! {

/// Where a field or action is allowed to appear.
#[derive(Clone, Copy, Debug, PartialEq, Eq, Hash, Structural)]
pub enum Surface {
    /// Main visible product surface.
    PrimaryUi,
    /// Secondary / expandable surface.
    SecondaryUi,
    /// Collapsed / detail view.
    CollapsedUi,
    /// API response only — never UI.
    ApiOnly,
    /// Documentation only.
    DocsOnly,
    /// Authenticated operators only.
    OperatorOnly,
    /// Permanently hidden — must never appear in any surface.
    HiddenEnforced,
    /// Only callable by agents within permission scope.
    AgentOnly,
    /// Never exposed anywhere — forbidden in all outputs.
    NeverUi,
}

/// Shown to end users.
pub open spec fn user_visible(s: Surface) -> bool {
    s is PrimaryUi || s is SecondaryUi || s is CollapsedUi
}

/// Forbidden in every output.
pub open spec fn forbidden_surface(s: Surface) -> bool {
    s is NeverUi || s is HiddenEnforced
}

/// The name of a surface.
pub open spec fn surface_name(s: Surface) -> Seq<char> {
    match s {
        Surface::PrimaryUi => "PrimaryUi"@,
        Surface::SecondaryUi => "SecondaryUi"@,
        Surface::CollapsedUi => "CollapsedUi"@,
        Surface::ApiOnly => "ApiOnly"@,
        Surface::DocsOnly => "DocsOnly"@,
        Surface::OperatorOnly => "OperatorOnly"@,
        Surface::HiddenEnforced => "HiddenEnforced"@,
        Surface::AgentOnly => "AgentOnly"@,
        Surface::NeverUi => "NeverUi"@,
    }
}

impl Surface {
    pub fn is_user_visible(&self) -> (b: bool)
        ensures
            b == user_visible(*self),
    {
        matches!(self, Surface::PrimaryUi | Surface::SecondaryUi | Surface::CollapsedUi)
    }

    pub fn is_restricted(&self) -> (b: bool)
        ensures
            b == (*self is OperatorOnly || *self is AgentOnly || *self is NeverUi || *self is HiddenEnforced),
    {
        matches!(self, Surface::OperatorOnly | Surface::AgentOnly | Surface::NeverUi | Surface::HiddenEnforced)
    }

    pub fn allows_in_html(&self) -> (b: bool)
        ensures
            b == user_visible(*self),
    {
        matches!(self, Surface::PrimaryUi | Surface::SecondaryUi | Surface::CollapsedUi)
    }

    pub fn allows_in_api(&self) -> (b: bool)
        ensures
            b == !forbidden_surface(*self),
    {
        !matches!(self, Surface::NeverUi | Surface::HiddenEnforced)
    }

    pub fn allows_in_docs(&self) -> (b: bool)
        ensures
            b == !forbidden_surface(*self),
    {
        !matches!(self, Surface::NeverUi | Surface::HiddenEnforced)
    }

    /// The surface's name, as it is displayed.
    pub fn as_str(&self) -> (s: &'static str)
        ensures
            s@ == surface_name(*self),
    {
        match self {
            Surface::PrimaryUi => "PrimaryUi",
            Surface::SecondaryUi => "SecondaryUi",
            Surface::CollapsedUi => "CollapsedUi",
            Surface::ApiOnly => "ApiOnly",
            Surface::DocsOnly => "DocsOnly",
            Surface::OperatorOnly => "OperatorOnly",
            Surface::HiddenEnforced => "HiddenEnforced",
            Surface::AgentOnly => "AgentOnly",
            Surface::NeverUi => "NeverUi",
        }
    }

    pub fn to_string(&self) -> (s: String)
        ensures
            s@ == surface_name(*self),
    {
        to_owned_string(self.as_str())
    }
}

/// A surface allowed in HTML is allowed in the API and the docs, and a
/// surface forbidden everywhere is allowed in neither.
pub proof fn law_html_implies_api(s: Surface)
    ensures
        user_visible(s) ==> !forbidden_surface(s),
        forbidden_surface(s) ==> !user_visible(s),
{
}

#[derive(Clone, Debug)]
pub struct SurfacePolicy {
    pub surface: Surface,
    pub label: String,
    pub reason: String,
    pub pii: bool,
    pub audit_on_access: bool,
}

impl SurfacePolicy {
    pub fn new(surface: Surface, label: &str, reason: &str) -> (p: Self)
        ensures
            p.surface == surface,
            p.label@ == label@,
            p.reason@ == reason@,
            !p.pii,
            !p.audit_on_access,
    {
        SurfacePolicy { surface, label: to_owned_string(label), reason: to_owned_string(reason), pii: false,
            audit_on_access: false }
    }

    pub fn pii(self) -> (p: Self)
        ensures
            p == (SurfacePolicy { pii: true, ..self }),
    {
        SurfacePolicy { pii: true, ..self }
    }

    pub fn audit(self) -> (p: Self)
        ensures
            p == (SurfacePolicy { audit_on_access: true, ..self }),
    {
        SurfacePolicy { audit_on_access: true, ..self }
    }
}

} // verus!
