use vstd::prelude::*;
use crate::alternative::{
    Alternative, AlternativeView, alternatives_view, duplicate_alternatives,
};

verus! {

/// A group as the built-in database stores it: a name, a mode ("Auto" or
/// manual), the path chosen in manual mode, and the alternatives.
#[derive(Debug)]
pub struct BuiltIn {
    pub name: String,
    pub mode: String,
    pub manual_path: String,
    pub alternatives: Vec<Alternative>,
}

/// A group as a drop-in file declares it: a name and the alternatives.
#[derive(Debug)]
pub struct DropIn {
    pub name: String,
    pub alternatives: Vec<Alternative>,
}

/// A named group of alternatives, from the database or from a drop-in file.
#[derive(Debug)]
pub enum AlternativeGroup {
    BuiltIn(BuiltIn),
    DropIn(DropIn),
}

/// What a group holds, as plain values.
pub ghost enum AlternativeGroupView {
    BuiltIn {
        name: Seq<char>,
        mode: Seq<char>,
        manual_path: Seq<char>,
        alternatives: Seq<AlternativeView>,
    },
    DropIn { name: Seq<char>, alternatives: Seq<AlternativeView> },
}

/// The mode that a group gets when it is made a built-in one anew.
pub open spec fn auto_mode() -> Seq<char> {
    seq!['A', 'u', 't', 'o']
}

impl AlternativeGroupView {
    pub open spec fn name(self) -> Seq<char> {
        match self {
            AlternativeGroupView::BuiltIn { name, .. } => name,
            AlternativeGroupView::DropIn { name, .. } => name,
        }
    }

    pub open spec fn alternatives(self) -> Seq<AlternativeView> {
        match self {
            AlternativeGroupView::BuiltIn { alternatives, .. } => alternatives,
            AlternativeGroupView::DropIn { alternatives, .. } => alternatives,
        }
    }

    /// The built-in form: a drop-in group gets mode "Auto" and an empty
    /// manual path; a built-in group stays as it is.
    pub open spec fn to_builtin(self) -> AlternativeGroupView {
        match self {
            AlternativeGroupView::DropIn { name, alternatives } => AlternativeGroupView::BuiltIn {
                name,
                mode: auto_mode(),
                manual_path: Seq::empty(),
                alternatives,
            },
            AlternativeGroupView::BuiltIn { .. } => self,
        }
    }

    /// The drop-in form: a built-in group loses its mode and manual path.
    pub open spec fn to_dropin(self) -> AlternativeGroupView {
        AlternativeGroupView::DropIn { name: self.name(), alternatives: self.alternatives() }
    }

    /// The group with one more alternative at the end.
    pub open spec fn with_alternative(self, alt: AlternativeView) -> AlternativeGroupView {
        match self {
            AlternativeGroupView::BuiltIn { name, mode, manual_path, alternatives } =>
                AlternativeGroupView::BuiltIn {
                name,
                mode,
                manual_path,
                alternatives: alternatives.push(alt),
            },
            AlternativeGroupView::DropIn { name, alternatives } => AlternativeGroupView::DropIn {
                name,
                alternatives: alternatives.push(alt),
            },
        }
    }
}

impl View for AlternativeGroup {
    type V = AlternativeGroupView;

    open spec fn view(&self) -> AlternativeGroupView {
        match self {
            AlternativeGroup::BuiltIn(g) => AlternativeGroupView::BuiltIn {
                name: g.name@,
                mode: g.mode@,
                manual_path: g.manual_path@,
                alternatives: alternatives_view(g.alternatives@),
            },
            AlternativeGroup::DropIn(g) => AlternativeGroupView::DropIn {
                name: g.name@,
                alternatives: alternatives_view(g.alternatives@),
            },
        }
    }
}

/// The view of every group of a sequence, in order.
pub open spec fn groups_view(s: Seq<AlternativeGroup>) -> Seq<AlternativeGroupView> {
    s.map_values(|g: AlternativeGroup| g@)
}

/// Pushing an alternative pushes its view.
pub proof fn lemma_alternatives_view_push(s: Seq<Alternative>, a: Alternative)
    ensures
        alternatives_view(s.push(a)) == alternatives_view(s).push(a@),
{
    assert(alternatives_view(s.push(a)) =~= alternatives_view(s).push(a@));
}

impl AlternativeGroup {
    /// The group in its built-in form (see `AlternativeGroupView::to_builtin`).
    pub fn to_builtin(&self) -> (r: AlternativeGroup)
        ensures
            r@ == self@.to_builtin(),
    {
        broadcast use vstd::string::to_string_from_display_ensures_for_str;

        match self {
            AlternativeGroup::DropIn(group) => {
                let mode = "Auto".to_string();
                proof {
                    reveal_strlit("Auto");
                    assert(mode@ =~= auto_mode());
                }
                let manual_path = "".to_string();
                proof {
                    reveal_strlit("");
                    assert(manual_path@ =~= Seq::<char>::empty());
                }
                AlternativeGroup::BuiltIn(
                    BuiltIn {
                        name: group.name.clone(),
                        mode,
                        manual_path,
                        alternatives: duplicate_alternatives(&group.alternatives),
                    },
                )
            },
            AlternativeGroup::BuiltIn(group) => AlternativeGroup::BuiltIn(
                BuiltIn {
                    name: group.name.clone(),
                    mode: group.mode.clone(),
                    manual_path: group.manual_path.clone(),
                    alternatives: duplicate_alternatives(&group.alternatives),
                },
            ),
        }
    }

    /// A copy of the group.
    pub fn duplicate(&self) -> (r: AlternativeGroup)
        ensures
            r@ == self@,
    {
        match self {
            AlternativeGroup::DropIn(group) => AlternativeGroup::DropIn(
                DropIn {
                    name: group.name.clone(),
                    alternatives: duplicate_alternatives(&group.alternatives),
                },
            ),
            AlternativeGroup::BuiltIn(group) => AlternativeGroup::BuiltIn(
                BuiltIn {
                    name: group.name.clone(),
                    mode: group.mode.clone(),
                    manual_path: group.manual_path.clone(),
                    alternatives: duplicate_alternatives(&group.alternatives),
                },
            ),
        }
    }

    /// The group in its drop-in form (see `AlternativeGroupView::to_dropin`).
    pub fn to_dropin(&self) -> (r: AlternativeGroup)
        ensures
            r@ == self@.to_dropin(),
    {
        match self {
            AlternativeGroup::BuiltIn(group) => AlternativeGroup::DropIn(
                DropIn {
                    name: group.name.clone(),
                    alternatives: duplicate_alternatives(&group.alternatives),
                },
            ),
            _ => self.duplicate(),
        }
    }

    /// A drop-in group with the given name and alternatives.
    pub fn new_dropin(name: String, alternatives: Vec<Alternative>) -> (r: AlternativeGroup)
        ensures
            r == AlternativeGroup::DropIn(DropIn { name, alternatives }),
            r@ == (AlternativeGroupView::DropIn {
                name: name@,
                alternatives: alternatives_view(alternatives@),
            }),
    {
        AlternativeGroup::DropIn(DropIn { name, alternatives })
    }

    /// A built-in group in mode "Auto", with an empty manual path.
    pub fn new_builtin(name: String, alternatives: Vec<Alternative>) -> (r: AlternativeGroup)
        ensures
            r@ == (AlternativeGroupView::BuiltIn {
                name: name@,
                mode: auto_mode(),
                manual_path: Seq::empty(),
                alternatives: alternatives_view(alternatives@),
            }),
    {
        let aux = AlternativeGroup::new_dropin(name, alternatives);
        aux.to_builtin()
    }

    /// Adds an alternative at the end of the group.
    pub fn append_alternative(&mut self, alt: Alternative)
        ensures
            final(self)@ == old(self)@.with_alternative(alt@),
            final(self)@.name() == old(self)@.name(),
            final(self)@.alternatives() == old(self)@.alternatives().push(alt@),
            *old(self) matches AlternativeGroup::BuiltIn(g) ==> (*final(self) matches AlternativeGroup::BuiltIn(h)
                && h.mode@ == g.mode@ && h.manual_path@ == g.manual_path@),
            *old(self) is DropIn ==> *final(self) is DropIn,
    {
        match self {
            AlternativeGroup::DropIn(group) => {
                proof {
                    lemma_alternatives_view_push(group.alternatives@, alt);
                }
                group.alternatives.push(alt);
            },
            AlternativeGroup::BuiltIn(group) => {
                proof {
                    lemma_alternatives_view_push(group.alternatives@, alt);
                }
                group.alternatives.push(alt);
            },
        }
    }

    /// The name of the group.
    pub fn get_name(&self) -> (r: String)
        ensures
            r@ == self@.name(),
    {
        let rv = match self {
            AlternativeGroup::DropIn(group) => &group.name,
            AlternativeGroup::BuiltIn(group) => &group.name,
        };
        rv.clone()
    }

    /// A copy of the alternatives of the group.
    pub fn get_alternatives(&self) -> (r: Vec<Alternative>)
        ensures
            alternatives_view(r@) == self@.alternatives(),
    {
        let rv = match self {
            AlternativeGroup::DropIn(group) => &group.alternatives,
            AlternativeGroup::BuiltIn(group) => &group.alternatives,
        };
        duplicate_alternatives(rv)
    }

    /// Whether the two groups have the same name.
    pub fn alternative_group_cmp_name(&self, other: &AlternativeGroup) -> (r: bool)
        ensures
            r == (self@.name() == other@.name()),
    {
        self.get_name() == other.get_name()
    }
}

} // verus!
