//! Properties that hold across the operations of the library.
use vstd::prelude::*;
use crate::alternative::{
    AlternativeView, FollowerView, follower_at, is_first_highest, new_alternative,
};
use crate::group::{AlternativeGroupView, auto_mode};
use crate::database::{
    filtered_builtin, has_named, installed, is_first_named, is_last_named, last_named,
    merged_alternatives,
    lemma_first_named_exists,
};

verus! {

/// Reading an alternative that `Alternative::new` built gives back its link,
/// path, priority and followers.
pub proof fn law_new_alternative_reads_back(
    link: Seq<char>,
    path: Seq<char>,
    priority: i32,
    followers: Seq<FollowerView>,
)
    ensures
        new_alternative(link, path, priority, followers).link() == link,
        new_alternative(link, path, priority, followers).path() == path,
        new_alternative(link, path, priority, followers).priority() == priority,
        new_alternative(link, path, priority, followers).followers() == followers,
{
}

/// Both conversions of a group keep its name and its alternatives.
pub proof fn law_conversions_keep_name_and_alternatives(g: AlternativeGroupView)
    ensures
        g.to_builtin().name() == g.name(),
        g.to_builtin().alternatives() == g.alternatives(),
        g.to_dropin().name() == g.name(),
        g.to_dropin().alternatives() == g.alternatives(),
{
}

/// A built-in group is already in its built-in form, and the drop-in form of
/// any group is a drop-in group.
pub proof fn law_builtin_form_of_builtin_is_itself(g: AlternativeGroupView)
    ensures
        g is BuiltIn ==> g.to_builtin() == g,
        g.to_dropin() is DropIn,
        g is DropIn ==> g.to_dropin() == g,
{
}

/// An alternative built without followers has none, one built with followers
/// keeps them.
pub proof fn law_new_alternative_form(
    link: Seq<char>,
    path: Seq<char>,
    priority: i32,
    followers: Seq<FollowerView>,
)
    ensures
        new_alternative(link, path, priority, followers) is WithoutFollowers <==> followers.len()
            == 0,
{
}

/// A non-empty list has exactly one first position of a highest priority, and
/// no alternative of the list has a higher priority than the one there.
pub proof fn law_first_highest_unique(s: Seq<AlternativeView>, i: int, k: int)
    requires
        is_first_highest(s, i),
        is_first_highest(s, k),
    ensures
        i == k,
        forall|j: int| 0 <= j < s.len() ==> #[trigger] s[j].priority() <= s[i].priority(),
{
    if i < k {
        assert(s[i].priority() < s[k].priority());
    } else if k < i {
        assert(s[k].priority() < s[i].priority());
    }
}

/// Converting twice to the same form changes nothing more, and the drop-in
/// form of the built-in form is the drop-in form.
pub proof fn law_conversions_idempotent(g: AlternativeGroupView)
    ensures
        g.to_builtin().to_builtin() == g.to_builtin(),
        g.to_dropin().to_dropin() == g.to_dropin(),
        g.to_builtin().to_dropin() == g.to_dropin(),
{
}

/// A new built-in group is the built-in form of a new drop-in group with the
/// same name and alternatives.
pub proof fn law_new_builtin_is_converted_dropin(name: Seq<char>, alts: Seq<AlternativeView>)
    ensures
        (AlternativeGroupView::DropIn { name, alternatives: alts }).to_builtin()
            == (AlternativeGroupView::BuiltIn {
            name,
            mode: auto_mode(),
            manual_path: Seq::empty(),
            alternatives: alts,
        }),
{
}

/// Appending an alternative changes nothing but the list of alternatives: the
/// name and the form of the group stay, a built-in group keeps its mode and
/// its manual path, and the alternative comes after all the others.
pub proof fn law_append_keeps_name(g: AlternativeGroupView, alt: AlternativeView)
    ensures
        g.with_alternative(alt).name() == g.name(),
        g.with_alternative(alt).alternatives() == g.alternatives().push(alt),
        g.with_alternative(alt).to_dropin() == g.to_dropin().with_alternative(alt),
        g is DropIn <==> g.with_alternative(alt) is DropIn,
        g matches AlternativeGroupView::BuiltIn { mode, manual_path, .. } ==> (g.with_alternative(
            alt,
        ) matches AlternativeGroupView::BuiltIn { mode: m, manual_path: p, .. } && m == mode && p
            == manual_path),
{
}

/// Installing under a name that some group bears changes only the first such
/// group, and in it only the list of alternatives, which gets `alt` at the
/// end: the form of the group, its mode and its manual path stay.
pub proof fn law_install_into_named_group(
    gs: Seq<AlternativeGroupView>,
    name: Seq<char>,
    alt: AlternativeView,
    k: int,
)
    requires
        is_first_named(name, gs, k),
    ensures
        installed(gs, name, alt).len() == gs.len(),
        forall|j: int| 0 <= j < gs.len() && j != k ==> #[trigger] installed(gs, name, alt)[j]
            == gs[j],
        installed(gs, name, alt)[k].name() == gs[k].name(),
        installed(gs, name, alt)[k].alternatives() == gs[k].alternatives().push(alt),
        gs[k] is DropIn <==> installed(gs, name, alt)[k] is DropIn,
        gs[k] matches AlternativeGroupView::BuiltIn { mode, manual_path, .. } ==> (installed(
            gs,
            name,
            alt,
        )[k] matches AlternativeGroupView::BuiltIn { mode: m, manual_path: p, .. } && m == mode
            && p == manual_path),
{
    assert(has_named(name, gs));
    let c = choose|c: int| is_first_named(name, gs, c);
    crate::database::lemma_first_named_unique(name, gs, k, c);
    law_append_keeps_name(gs[k], alt);
}

/// Merging a list that holds a single group gives exactly that group's
/// alternatives, followers included, when it bears the name, and nothing
/// otherwise.
pub proof fn law_merge_single(name: Seq<char>, g: AlternativeGroupView)
    ensures
        g.name() == name ==> merged_alternatives(name, seq![g]) == g.alternatives(),
        g.name() != name ==> merged_alternatives(name, seq![g]) == Seq::<AlternativeView>::empty(),
{
    let s = seq![g];
    assert(s.drop_last() =~= Seq::<AlternativeGroupView>::empty());
    assert(merged_alternatives(name, s.drop_last()) == Seq::<AlternativeView>::empty());
    assert(s.last() == g);
    assert(Seq::<AlternativeView>::empty() + g.alternatives() =~= g.alternatives());
}

/// Every merged alternative is, as a whole value, an alternative of some group
/// that bears the name.
pub proof fn law_merge_members(name: Seq<char>, gs: Seq<AlternativeGroupView>, x: AlternativeView)
    requires
        merged_alternatives(name, gs).contains(x),
    ensures
        exists|i: int|
            0 <= i < gs.len() && gs[i].name() == name && (#[trigger] gs[i]).alternatives().contains(
                x,
            ),
    decreases gs.len(),
{
    let d = gs.drop_last();
    let rest = merged_alternatives(name, d);
    let m = merged_alternatives(name, gs);
    let t = choose|t: int| 0 <= t < m.len() && m[t] == x;
    if gs.last().name() == name && t >= rest.len() {
        let l = gs.last().alternatives();
        assert(l[t - rest.len()] == x);
        assert(l.contains(x));
        assert(gs[gs.len() - 1] == gs.last());
    } else {
        assert(rest[t] == x);
        assert(rest.contains(x));
        law_merge_members(name, d, x);
        let i = choose|i: int|
            0 <= i < d.len() && d[i].name() == name && (#[trigger] d[i]).alternatives().contains(x);
        assert(gs[i] == d[i]);
    }
}

/// The group that the database yields for a name is the last group of that
/// name, unchanged (mode and manual path included); without one it is an
/// empty built-in group of that name in mode "Auto" with an empty manual path.
pub proof fn law_filter_picks_last_named(name: Seq<char>, gs: Seq<AlternativeGroupView>)
    ensures
        forall|k: int| is_last_named(name, gs, k) ==> filtered_builtin(name, gs) == #[trigger] gs[k],
        !has_named(name, gs) ==> filtered_builtin(name, gs) == (AlternativeGroupView::BuiltIn {
            name,
            mode: auto_mode(),
            manual_path: Seq::empty(),
            alternatives: Seq::empty(),
        }),
{
    assert forall|k: int| is_last_named(name, gs, k) implies filtered_builtin(name, gs)
        == #[trigger] gs[k] by {
        lemma_last_named_is(name, gs, k);
    }
    if !has_named(name, gs) {
        lemma_last_named_none(name, gs);
    }
}

/// The `i`-th follower that the command-line values describe has the link,
/// name and path given at positions `3 * i`, `3 * i + 1` and `3 * i + 2`.
pub proof fn law_follower_at_reads_triple(arg: Seq<String>, i: int)
    ensures
        follower_at(arg, i).link == arg[3 * i]@,
        follower_at(arg, i).name == arg[3 * i + 1]@,
        follower_at(arg, i).path == arg[3 * i + 2]@,
{
}

/// Merging two lists of groups one after the other gives the merge of the
/// first followed by the merge of the second.
pub proof fn law_merge_concat(
    name: Seq<char>,
    a: Seq<AlternativeGroupView>,
    b: Seq<AlternativeGroupView>,
)
    ensures
        merged_alternatives(name, a + b) == merged_alternatives(name, a) + merged_alternatives(
            name,
            b,
        ),
    decreases b.len(),
{
    if b.len() == 0 {
        assert(a + b =~= a);
        assert(merged_alternatives(name, a) + Seq::<AlternativeView>::empty() =~= merged_alternatives(name, a));
    } else {
        assert((a + b).drop_last() =~= a + b.drop_last());
        assert((a + b).last() == b.last());
        law_merge_concat(name, a, b.drop_last());
        if b.last().name() == name {
            assert(merged_alternatives(name, a + b) =~= merged_alternatives(name, a)
                + merged_alternatives(name, b));
        }
    }
}

/// Merging the drop-in forms of groups gives what merging the groups gives.
pub proof fn law_merge_of_dropin_forms(name: Seq<char>, gs: Seq<AlternativeGroupView>)
    ensures
        merged_alternatives(name, gs.map_values(|g: AlternativeGroupView| g.to_dropin()))
            == merged_alternatives(name, gs),
    decreases gs.len(),
{
    let ds = gs.map_values(|g: AlternativeGroupView| g.to_dropin());
    if gs.len() > 0 {
        assert(ds.drop_last() =~= gs.drop_last().map_values(
            |g: AlternativeGroupView| g.to_dropin(),
        ));
        law_merge_of_dropin_forms(name, gs.drop_last());
    }
}

/// Merging groups none of which bears the name gives no alternative.
pub proof fn law_merge_without_name(name: Seq<char>, gs: Seq<AlternativeGroupView>)
    requires
        !has_named(name, gs),
    ensures
        merged_alternatives(name, gs) == Seq::<AlternativeView>::empty(),
    decreases gs.len(),
{
    if gs.len() > 0 {
        assert(gs[gs.len() - 1].name() != name);
        assert forall|i: int| 0 <= i < gs.drop_last().len() implies #[trigger] gs.drop_last()[i].name()
            != name by {
            assert(gs.drop_last()[i] == gs[i]);
        }
        law_merge_without_name(name, gs.drop_last());
    }
}

/// The last group that bears the name is found by `last_named`.
pub proof fn lemma_last_named_is(name: Seq<char>, gs: Seq<AlternativeGroupView>, k: int)
    requires
        0 <= k < gs.len(),
        gs[k].name() == name,
        forall|j: int| k < j < gs.len() ==> #[trigger] gs[j].name() != name,
    ensures
        last_named(name, gs) == Some(gs[k]),
    decreases gs.len(),
{
    if k < gs.len() - 1 {
        assert(gs.last().name() != name);
        let d = gs.drop_last();
        assert forall|j: int| k < j < d.len() implies #[trigger] d[j].name() != name by {
            assert(d[j] == gs[j]);
        }
        lemma_last_named_is(name, d, k);
    }
}

/// Without a group of the name there is no last one.
pub proof fn lemma_last_named_none(name: Seq<char>, gs: Seq<AlternativeGroupView>)
    requires
        !has_named(name, gs),
    ensures
        last_named(name, gs) is None,
    decreases gs.len(),
{
    if gs.len() > 0 {
        assert(gs[gs.len() - 1].name() != name);
        let d = gs.drop_last();
        assert forall|i: int| 0 <= i < d.len() implies #[trigger] d[i].name() != name by {
            assert(d[i] == gs[i]);
        }
        lemma_last_named_none(name, d);
    }
}

/// Replacing a group that does not bear `other` by another that does not
/// either leaves the last group named `other` as it was.
pub proof fn lemma_last_named_update(
    other: Seq<char>,
    gs: Seq<AlternativeGroupView>,
    k: int,
    g: AlternativeGroupView,
)
    requires
        0 <= k < gs.len(),
        gs[k].name() != other,
        g.name() != other,
    ensures
        last_named(other, gs.update(k, g)) == last_named(other, gs),
    decreases gs.len(),
{
    let u = gs.update(k, g);
    if k == gs.len() - 1 {
        assert(u.drop_last() =~= gs.drop_last());
    } else {
        assert(u.drop_last() =~= gs.drop_last().update(k, g));
        assert(u.last() == gs.last());
        lemma_last_named_update(other, gs.drop_last(), k, g);
    }
}

/// No two groups of the database bear the same name.
pub open spec fn names_unique(gs: Seq<AlternativeGroupView>) -> bool {
    forall|i: int, j: int| 0 <= i < j < gs.len() ==> #[trigger] gs[i].name() != #[trigger] gs[j].name()
}

/// Reading back a write: after installing an alternative under a name, the
/// group that the database yields for that name is the one it yielded before
/// with the alternative appended (an empty built-in group of that name in
/// mode "Auto" when there was none), provided that no two groups share a name.
pub proof fn law_install_then_filter(
    gs: Seq<AlternativeGroupView>,
    name: Seq<char>,
    alt: AlternativeView,
)
    requires
        names_unique(gs),
    ensures
        filtered_builtin(name, installed(gs, name, alt)) == filtered_builtin(
            name,
            gs,
        ).with_alternative(alt),
{
    if has_named(name, gs) {
        lemma_first_named_exists(name, gs);
        let k = choose|k: int| is_first_named(name, gs, k);
        let u = gs.update(k, gs[k].with_alternative(alt));
        assert forall|j: int| k < j < gs.len() implies #[trigger] gs[j].name() != name by {
            assert(gs[k].name() != gs[j].name());
        }
        lemma_last_named_is(name, gs, k);
        assert forall|j: int| k < j < u.len() implies #[trigger] u[j].name() != name by {
            assert(u[j] == gs[j]);
        }
        lemma_last_named_is(name, u, k);
    } else {
        lemma_last_named_none(name, gs);
        let n = AlternativeGroupView::BuiltIn {
            name,
            mode: auto_mode(),
            manual_path: Seq::empty(),
            alternatives: seq![alt],
        };
        let p = gs.push(n);
        assert(p.drop_last() =~= gs);
        assert(last_named(name, p) == Some(n));
        assert(Seq::<AlternativeView>::empty().push(alt) =~= seq![alt]);
    }
}

/// Installing under one name does not change what the database yields for
/// any other name.
pub proof fn law_install_keeps_other_names(
    gs: Seq<AlternativeGroupView>,
    name: Seq<char>,
    other: Seq<char>,
    alt: AlternativeView,
)
    requires
        other != name,
    ensures
        filtered_builtin(other, installed(gs, name, alt)) == filtered_builtin(other, gs),
{
    if has_named(name, gs) {
        lemma_first_named_exists(name, gs);
        let k = choose|k: int| is_first_named(name, gs, k);
        lemma_last_named_update(other, gs, k, gs[k].with_alternative(alt));
    } else {
        let n = AlternativeGroupView::BuiltIn {
            name,
            mode: auto_mode(),
            manual_path: Seq::empty(),
            alternatives: seq![alt],
        };
        assert(gs.push(n).drop_last() =~= gs);
    }
}

/// Installing keeps the names of the database unique.
pub proof fn law_install_keeps_names_unique(
    gs: Seq<AlternativeGroupView>,
    name: Seq<char>,
    alt: AlternativeView,
)
    requires
        names_unique(gs),
    ensures
        names_unique(installed(gs, name, alt)),
        installed(gs, name, alt).len() == if has_named(name, gs) {
            gs.len()
        } else {
            gs.len() + 1
        },
{
    let r = installed(gs, name, alt);
    if has_named(name, gs) {
        lemma_first_named_exists(name, gs);
        let k = choose|k: int| is_first_named(name, gs, k);
        assert forall|i: int, j: int| 0 <= i < j < r.len() implies #[trigger] r[i].name()
            != #[trigger] r[j].name() by {
            assert(r[i].name() == gs[i].name());
            assert(r[j].name() == gs[j].name());
        }
    } else {
        assert forall|i: int, j: int| 0 <= i < j < r.len() implies #[trigger] r[i].name()
            != #[trigger] r[j].name() by {
            if j == gs.len() {
                assert(r[i] == gs[i]);
            } else {
                assert(r[i] == gs[i]);
                assert(r[j] == gs[j]);
            }
        }
    }
}

/// What the database yields for a name always bears that name.
pub proof fn law_filter_bears_name(name: Seq<char>, gs: Seq<AlternativeGroupView>)
    ensures
        filtered_builtin(name, gs).name() == name,
    decreases gs.len(),
{
    if gs.len() > 0 && gs.last().name() != name {
        law_filter_bears_name(name, gs.drop_last());
    }
}

} // verus!
