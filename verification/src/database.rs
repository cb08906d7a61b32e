use vstd::prelude::*;
use crate::alternative::{Alternative, AlternativeView, alternatives_view};
use crate::group::{
    AlternativeGroup, AlternativeGroupView, auto_mode, groups_view,
};

verus! {

/// The alternatives that all groups named `name` hold together, group after
/// group, in order.
pub open spec fn merged_alternatives(
    name: Seq<char>,
    gs: Seq<AlternativeGroupView>,
) -> Seq<AlternativeView>
    decreases gs.len(),
{
    if gs.len() == 0 {
        Seq::empty()
    } else {
        let rest = merged_alternatives(name, gs.drop_last());
        if gs.last().name() == name {
            rest + gs.last().alternatives()
        } else {
            rest
        }
    }
}

/// Collects the drop-in groups named `name` into one drop-in group of that
/// name that holds all their alternatives, in order.
pub fn merge_dropins(name: String, groups: Vec<AlternativeGroup>) -> (rv: AlternativeGroup)
    ensures
        rv@ == (AlternativeGroupView::DropIn {
            name: name@,
            alternatives: merged_alternatives(name@, groups_view(groups@)),
        }),
{
    let ghost gs = groups_view(groups@);
    let empty: Vec<Alternative> = Vec::new();
    proof {
        assert(alternatives_view(empty@) =~= Seq::<AlternativeView>::empty());
        assert(gs.take(0) =~= Seq::<AlternativeGroupView>::empty());
    }
    let mut rv = AlternativeGroup::new_dropin(name.clone(), empty);
    let mut i: usize = 0;
    while i < groups.len()
        invariant
            gs == groups_view(groups@),
            i <= groups@.len(),
            rv@ == (AlternativeGroupView::DropIn {
                name: name@,
                alternatives: merged_alternatives(name@, gs.take(i as int)),
            }),
        decreases groups@.len() - i,
    {
        let a_g = &groups[i];
        proof {
            assert(gs.take(i + 1).drop_last() =~= gs.take(i as int));
            assert(gs.take(i + 1).last() == a_g@);
        }
        if a_g.get_name() == name {
            let alts = a_g.get_alternatives();
            let ghost before = rv@.alternatives();
            let mut j: usize = 0;
            while j < alts.len()
                invariant
                    j <= alts@.len(),
                    rv@ == (AlternativeGroupView::DropIn {
                        name: name@,
                        alternatives: before + alternatives_view(alts@).take(j as int),
                    }),
                decreases alts@.len() - j,
            {
                rv.append_alternative(alts[j].duplicate());
                proof {
                    assert(alternatives_view(alts@).take(j + 1) =~= alternatives_view(
                        alts@,
                    ).take(j as int).push(alts@[j as int]@));
                    assert(before + alternatives_view(alts@).take(j + 1) =~= (before
                        + alternatives_view(alts@).take(j as int)).push(alts@[j as int]@));
                }
                j = j + 1;
            }
            proof {
                assert(alternatives_view(alts@).take(j as int) =~= alternatives_view(alts@));
            }
        }
        i = i + 1;
    }
    proof {
        assert(gs.take(i as int) =~= gs);
    }
    rv
}

/// The last group named `name`, if there is one.
pub open spec fn last_named(name: Seq<char>, gs: Seq<AlternativeGroupView>) -> Option<
    AlternativeGroupView,
>
    decreases gs.len(),
{
    if gs.len() == 0 {
        None
    } else if gs.last().name() == name {
        Some(gs.last())
    } else {
        last_named(name, gs.drop_last())
    }
}

/// The built-in group that the database holds for `name`: the last group of
/// that name, or else an empty built-in group of that name in mode "Auto".
pub open spec fn filtered_builtin(name: Seq<char>, gs: Seq<AlternativeGroupView>)
    -> AlternativeGroupView
{
    match last_named(name, gs) {
        Some(g) => g,
        None => AlternativeGroupView::BuiltIn {
            name,
            mode: auto_mode(),
            manual_path: Seq::empty(),
            alternatives: Seq::empty(),
        },
    }
}

/// Picks the group named `name` out of the groups of the database: the last
/// one of that name, or a new empty built-in group when there is none.
pub fn filter_buildins(name: String, groups: Vec<AlternativeGroup>) -> (rv: AlternativeGroup)
    ensures
        rv@ == filtered_builtin(name@, groups_view(groups@)),
        forall|k: int|
            is_last_named(name@, groups_view(groups@), k) ==> rv@ == #[trigger] groups_view(
                groups@,
            )[k],
        !has_named(name@, groups_view(groups@)) ==> rv@ == (AlternativeGroupView::BuiltIn {
            name: name@,
            mode: auto_mode(),
            manual_path: Seq::empty(),
            alternatives: Seq::empty(),
        }),
{
    let ghost gs = groups_view(groups@);
    let empty: Vec<Alternative> = Vec::new();
    proof {
        assert(alternatives_view(empty@) =~= Seq::<AlternativeView>::empty());
        assert(gs.take(0) =~= Seq::<AlternativeGroupView>::empty());
    }
    let mut rv = AlternativeGroup::new_builtin(name.clone(), empty);
    let mut i: usize = 0;
    while i < groups.len()
        invariant
            gs == groups_view(groups@),
            i <= groups@.len(),
            rv@ == filtered_builtin(name@, gs.take(i as int)),
        decreases groups@.len() - i,
    {
        let a_g = &groups[i];
        proof {
            assert(gs.take(i + 1).drop_last() =~= gs.take(i as int));
            assert(gs.take(i + 1).last() == a_g@);
        }
        if a_g.get_name() == name {
            rv = a_g.duplicate();
        }
        i = i + 1;
    }
    proof {
        assert(gs.take(i as int) =~= gs);
        crate::laws::law_filter_picks_last_named(name@, gs);
    }
    rv
}

/// `i` is the position of the last group named `name`.
pub open spec fn is_last_named(name: Seq<char>, gs: Seq<AlternativeGroupView>, i: int) -> bool {
    &&& 0 <= i < gs.len()
    &&& gs[i].name() == name
    &&& forall|j: int| i < j < gs.len() ==> #[trigger] gs[j].name() != name
}

/// `i` is the position of the first group named `name`.
pub open spec fn is_first_named(name: Seq<char>, gs: Seq<AlternativeGroupView>, i: int) -> bool {
    &&& 0 <= i < gs.len()
    &&& gs[i].name() == name
    &&& forall|j: int| 0 <= j < i ==> #[trigger] gs[j].name() != name
}

/// Some group of `gs` is named `name`.
pub open spec fn has_named(name: Seq<char>, gs: Seq<AlternativeGroupView>) -> bool {
    exists|i: int| 0 <= i < gs.len() && #[trigger] gs[i].name() == name
}

/// The database after installing `alt` under `name`: the first group of that
/// name gets `alt` at the end of its alternatives; when there is no such
/// group, a new built-in group of that name in mode "Auto", holding `alt`
/// alone, comes at the end.
pub open spec fn installed(
    gs: Seq<AlternativeGroupView>,
    name: Seq<char>,
    alt: AlternativeView,
) -> Seq<AlternativeGroupView> {
    if has_named(name, gs) {
        let k = choose|k: int| is_first_named(name, gs, k);
        gs.update(k, gs[k].with_alternative(alt))
    } else {
        gs.push(
            AlternativeGroupView::BuiltIn {
                name,
                mode: auto_mode(),
                manual_path: Seq::empty(),
                alternatives: seq![alt],
            },
        )
    }
}

/// A sequence in which some group is named `name` has a first such group.
pub proof fn lemma_first_named_exists(name: Seq<char>, gs: Seq<AlternativeGroupView>)
    requires
        has_named(name, gs),
    ensures
        exists|k: int| is_first_named(name, gs, k),
    decreases gs.len(),
{
    if gs[0].name() == name {
        assert(is_first_named(name, gs, 0));
    } else {
        let i = choose|i: int| 0 <= i < gs.len() && #[trigger] gs[i].name() == name;
        let rest = gs.drop_first();
        assert(rest[i - 1].name() == name);
        lemma_first_named_exists(name, rest);
        let k = choose|k: int| is_first_named(name, rest, k);
        assert forall|j: int| 0 <= j < k + 1 implies #[trigger] gs[j].name() != name by {
            if j > 0 {
                assert(gs[j] == rest[j - 1]);
            }
        }
        assert(is_first_named(name, gs, k + 1));
    }
}

/// There is at most one first group of a name.
pub proof fn lemma_first_named_unique(
    name: Seq<char>,
    gs: Seq<AlternativeGroupView>,
    i: int,
    k: int,
)
    requires
        is_first_named(name, gs, i),
        is_first_named(name, gs, k),
    ensures
        i == k,
{
    if i < k {
        assert(gs[i].name() != name);
    } else if k < i {
        assert(gs[k].name() != name);
    }
}

/// Installs the alternative `alt` under `name` in the database `db`: it is
/// added to the first group of that name, or, when there is none, a new
/// built-in group holding it alone is added at the end. Returns the position
/// of the group that was extended, or `None` when a new group was added.
pub fn install_alternative(db: &mut Vec<AlternativeGroup>, name: String, alt: Alternative) -> (r:
    Option<usize>)
    ensures
        groups_view(final(db)@) == installed(groups_view(old(db)@), name@, alt@),
        r matches Some(k) ==> is_first_named(name@, groups_view(old(db)@), k as int),
        r is None <==> !has_named(name@, groups_view(old(db)@)),
{
    let ghost gs = groups_view(db@);
    let mut i: usize = 0;
    while i < db.len()
        invariant
            db@ == old(db)@,
            gs == groups_view(db@),
            i <= db@.len(),
            forall|j: int| 0 <= j < i ==> #[trigger] gs[j].name() != name@,
        decreases db@.len() - i,
    {
        if db[i].get_name() == name {
            proof {
                assert(is_first_named(name@, gs, i as int));
                assert(has_named(name@, gs));
                let k = choose|k: int| is_first_named(name@, gs, k);
                lemma_first_named_unique(name@, gs, i as int, k);
            }
            let mut group = db.remove(i);
            group.append_alternative(alt);
            db.insert(i, group);
            proof {
                assert(groups_view(db@) =~= gs.update(i as int, gs[i as int].with_alternative(alt@)));
            }
            return Some(i);
        }
        i = i + 1;
    }
    proof {
        assert(!has_named(name@, gs));
    }
    let ghost a = alt@;
    let mut alts: Vec<Alternative> = Vec::new();
    alts.push(alt);
    proof {
        assert(alternatives_view(alts@) =~= seq![a]);
    }
    let new_alt_group = AlternativeGroup::new_builtin(name, alts);
    let ghost old_db = db@;
    db.push(new_alt_group);
    proof {
        assert(groups_view(db@) =~= groups_view(old_db).push(new_alt_group@));
    }
    None
}

/// Every group in its drop-in form, in order: what the drop-in directory
/// yields once its files are read.
pub fn dropins_of(groups: &Vec<AlternativeGroup>) -> (r: Vec<AlternativeGroup>)
    ensures
        groups_view(r@) == groups_view(groups@).map_values(
            |g: AlternativeGroupView| g.to_dropin(),
        ),
{
    let mut r: Vec<AlternativeGroup> = Vec::new();
    let mut i: usize = 0;
    while i < groups.len()
        invariant
            i <= groups@.len(),
            r@.len() == i,
            forall|j: int| 0 <= j < i ==> #[trigger] r@[j]@ == groups@[j]@.to_dropin(),
        decreases groups@.len() - i,
    {
        r.push(groups[i].to_dropin());
        i = i + 1;
    }
    assert(groups_view(r@) =~= groups_view(groups@).map_values(
        |g: AlternativeGroupView| g.to_dropin(),
    ));
    r
}

/// A configuration file of the database: where it lives, the groups it holds,
/// and whether they changed since it was read.
#[derive(Debug)]
pub struct ConfigFile {
    pub path: String,
    pub content: Vec<AlternativeGroup>,
    pub modified: bool,
}

/// The configuration files that must be written back, in order: those that
/// are marked modified. Writing each one's content to its path is left to the
/// caller.
pub fn write_db(files: Vec<ConfigFile>) -> (writes: Vec<ConfigFile>)
    ensures
        writes@ == files@.filter(|f: ConfigFile| f.modified),
{
    let ghost pred = |f: ConfigFile| f.modified;
    let ghost all = files@;
    let mut writes: Vec<ConfigFile> = Vec::new();
    for f in it: files.into_iter()
        invariant
            it.seq() == all,
            pred == (|f: ConfigFile| f.modified),
            writes@ == all.take(it.index() as int).filter(pred),
    {
        let ghost idx = it.index() as int;
        proof {
            assert(f == all[idx]);
            assert(all.take(idx + 1).drop_last() =~= all.take(idx));
        }
        if f.modified {
            writes.push(f);
        }
        proof {
            reveal(Seq::filter);
            assert(all.take(idx + 1).last() == f);
            assert(writes@ == all.take(idx + 1).filter(pred));
        }
    }
    assert(all.take(all.len() as int) =~= all);
    writes
}

} // verus!
