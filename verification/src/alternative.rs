use vstd::prelude::*;

verus! {

/// A follower link that is switched together with its alternative.
#[derive(Debug)]
pub struct Follower {
    pub link: String,
    pub name: String,
    pub path: String,
}

/// What a follower holds, as plain sequences of characters.
pub ghost struct FollowerView {
    pub link: Seq<char>,
    pub name: Seq<char>,
    pub path: Seq<char>,
}

impl View for Follower {
    type V = FollowerView;

    open spec fn view(&self) -> FollowerView {
        FollowerView { link: self.link@, name: self.name@, path: self.path@ }
    }
}

/// The view of every follower of a sequence, in order.
pub open spec fn followers_view(s: Seq<Follower>) -> Seq<FollowerView> {
    s.map_values(|f: Follower| f@)
}

impl Follower {
    /// A copy of the follower.
    pub fn duplicate(&self) -> (r: Follower)
        ensures
            r@ == self@,
    {
        Follower { link: self.link.clone(), name: self.name.clone(), path: self.path.clone() }
    }
}

/// The follower that three consecutive parser values (link, name, path)
/// starting at `3 * i` describe.
pub open spec fn follower_at(arg: Seq<String>, i: int) -> FollowerView {
    FollowerView { link: arg[3 * i]@, name: arg[3 * i + 1]@, path: arg[3 * i + 2]@ }
}

/// Turns the flat list of values that the command line gives for
/// `--follower LINK NAME PATH` (repeated) into followers, three values each.
pub fn unwrap_followers(arg: &[String]) -> (rv: Vec<Follower>)
    requires
        arg@.len() % 3 == 0,
    ensures
        rv@.len() == arg@.len() / 3,
        forall|i: int| 0 <= i < rv@.len() ==> #[trigger] rv@[i]@ == follower_at(arg@, i),
        forall|i: int|
            0 <= i < rv@.len() ==> {
                &&& (#[trigger] rv@[i]).link@ == arg@[3 * i]@
                &&& rv@[i].name@ == arg@[3 * i + 1]@
                &&& rv@[i].path@ == arg@[3 * i + 2]@
            },
{
    let mut rv: Vec<Follower> = Vec::new();
    let n: usize = arg.len() / 3;
    let mut k: usize = 0;
    while k < n
        invariant
            n == arg@.len() / 3,
            arg@.len() % 3 == 0,
            k <= n,
            rv@.len() == k,
            forall|i: int| 0 <= i < k ==> #[trigger] rv@[i]@ == follower_at(arg@, i),
        decreases n - k,
    {
        assert(3 * k + 2 < arg.len()) by (nonlinear_arith)
            requires
                k < n,
                n == arg.len() / 3,
                arg.len() % 3 == 0,
        ;
        let f = Follower {
            link: arg[3 * k].clone(),
            name: arg[3 * k + 1].clone(),
            path: arg[3 * k + 2].clone(),
        };
        rv.push(f);
        k = k + 1;
    }
    assert forall|i: int| 0 <= i < rv@.len() implies {
        &&& (#[trigger] rv@[i]).link@ == arg@[3 * i]@
        &&& rv@[i].name@ == arg@[3 * i + 1]@
        &&& rv@[i].path@ == arg@[3 * i + 2]@
    } by {
        assert(rv@[i]@ == follower_at(arg@, i));
    }
    rv
}

/// An alternative that carries followers.
#[derive(Debug)]
pub struct WithFollowers {
    pub link: String,
    pub path: String,
    pub priority: i32,
    pub followers: Vec<Follower>,
}

/// An alternative without followers.
#[derive(Debug)]
pub struct WithoutFollowers {
    pub link: String,
    pub path: String,
    pub priority: i32,
}

/// One implementation that a group of alternatives can point to.
#[derive(Debug)]
pub enum Alternative {
    WithFollowers(WithFollowers),
    WithoutFollowers(WithoutFollowers),
}

/// What an alternative holds, as plain values.
pub ghost enum AlternativeView {
    WithFollowers {
        link: Seq<char>,
        path: Seq<char>,
        priority: i32,
        followers: Seq<FollowerView>,
    },
    WithoutFollowers { link: Seq<char>, path: Seq<char>, priority: i32 },
}

impl AlternativeView {
    pub open spec fn link(self) -> Seq<char> {
        match self {
            AlternativeView::WithFollowers { link, .. } => link,
            AlternativeView::WithoutFollowers { link, .. } => link,
        }
    }

    pub open spec fn path(self) -> Seq<char> {
        match self {
            AlternativeView::WithFollowers { path, .. } => path,
            AlternativeView::WithoutFollowers { path, .. } => path,
        }
    }

    pub open spec fn priority(self) -> i32 {
        match self {
            AlternativeView::WithFollowers { priority, .. } => priority,
            AlternativeView::WithoutFollowers { priority, .. } => priority,
        }
    }

    /// The followers of the alternative; none for one without followers.
    pub open spec fn followers(self) -> Seq<FollowerView> {
        match self {
            AlternativeView::WithFollowers { followers, .. } => followers,
            AlternativeView::WithoutFollowers { .. } => Seq::empty(),
        }
    }
}

impl View for Alternative {
    type V = AlternativeView;

    open spec fn view(&self) -> AlternativeView {
        match self {
            Alternative::WithFollowers(a) => AlternativeView::WithFollowers {
                link: a.link@,
                path: a.path@,
                priority: a.priority,
                followers: followers_view(a.followers@),
            },
            Alternative::WithoutFollowers(a) => AlternativeView::WithoutFollowers {
                link: a.link@,
                path: a.path@,
                priority: a.priority,
            },
        }
    }
}

/// The view of every alternative of a sequence, in order.
pub open spec fn alternatives_view(s: Seq<Alternative>) -> Seq<AlternativeView> {
    s.map_values(|a: Alternative| a@)
}

/// The alternative that `Alternative::new` builds: one without followers
/// exactly when the list of followers is empty.
pub open spec fn new_alternative(
    link: Seq<char>,
    path: Seq<char>,
    priority: i32,
    followers: Seq<FollowerView>,
) -> AlternativeView {
    if followers.len() == 0 {
        AlternativeView::WithoutFollowers { link, path, priority }
    } else {
        AlternativeView::WithFollowers { link, path, priority, followers }
    }
}

/// A copy of a list of followers.
pub fn duplicate_followers(v: &Vec<Follower>) -> (r: Vec<Follower>)
    ensures
        followers_view(r@) == followers_view(v@),
{
    let mut r: Vec<Follower> = Vec::new();
    let mut i: usize = 0;
    while i < v.len()
        invariant
            i <= v@.len(),
            r@.len() == i,
            forall|j: int| 0 <= j < i ==> #[trigger] r@[j]@ == v@[j]@,
        decreases v@.len() - i,
    {
        r.push(v[i].duplicate());
        i = i + 1;
    }
    assert(followers_view(r@) =~= followers_view(v@));
    r
}

impl Alternative {
    /// The path of the implementation that the alternative points to.
    pub fn path(&self) -> (r: &String)
        ensures
            r@ == self@.path(),
    {
        match self {
            Alternative::WithoutFollowers(alt) => &alt.path,
            Alternative::WithFollowers(alt) => &alt.path,
        }
    }

    /// The link of the alternative.
    pub fn link(&self) -> (r: &String)
        ensures
            r@ == self@.link(),
    {
        match self {
            Alternative::WithoutFollowers(alt) => &alt.link,
            Alternative::WithFollowers(alt) => &alt.link,
        }
    }

    /// The priority of the alternative.
    pub fn priority(&self) -> (r: i32)
        ensures
            r == self@.priority(),
    {
        match self {
            Alternative::WithoutFollowers(alt) => alt.priority,
            Alternative::WithFollowers(alt) => alt.priority,
        }
    }

    /// Builds an alternative; it carries followers only when some are given.
    pub fn new(link: String, path: String, priority: i32, followers: Vec<Follower>) -> (r:
        Alternative)
        ensures
            r@ == new_alternative(link@, path@, priority, followers_view(followers@)),
            followers@.len() == 0 ==> r == Alternative::WithoutFollowers(
                WithoutFollowers { link, path, priority },
            ),
            followers@.len() != 0 ==> r == Alternative::WithFollowers(
                WithFollowers { link, path, priority, followers },
            ),
    {
        if followers.len() == 0 {
            Alternative::WithoutFollowers(WithoutFollowers { link, path, priority })
        } else {
            Alternative::WithFollowers(WithFollowers { link, path, priority, followers })
        }
    }

    /// A copy of the alternative.
    pub fn duplicate(&self) -> (r: Alternative)
        ensures
            r@ == self@,
    {
        match self {
            Alternative::WithoutFollowers(alt) => Alternative::WithoutFollowers(
                WithoutFollowers {
                    link: alt.link.clone(),
                    path: alt.path.clone(),
                    priority: alt.priority,
                },
            ),
            Alternative::WithFollowers(alt) => Alternative::WithFollowers(
                WithFollowers {
                    link: alt.link.clone(),
                    path: alt.path.clone(),
                    priority: alt.priority,
                    followers: duplicate_followers(&alt.followers),
                },
            ),
        }
    }
}

/// A copy of a list of alternatives.
pub fn duplicate_alternatives(v: &Vec<Alternative>) -> (r: Vec<Alternative>)
    ensures
        alternatives_view(r@) == alternatives_view(v@),
{
    let mut r: Vec<Alternative> = Vec::new();
    let mut i: usize = 0;
    while i < v.len()
        invariant
            i <= v@.len(),
            r@.len() == i,
            forall|j: int| 0 <= j < i ==> #[trigger] r@[j]@ == v@[j]@,
        decreases v@.len() - i,
    {
        r.push(v[i].duplicate());
        i = i + 1;
    }
    assert(alternatives_view(r@) =~= alternatives_view(v@));
    r
}

/// `i` is the first position of a highest priority in `s`.
pub open spec fn is_first_highest(s: Seq<AlternativeView>, i: int) -> bool {
    &&& 0 <= i < s.len()
    &&& forall|j: int| 0 <= j < s.len() ==> #[trigger] s[j].priority() <= s[i].priority()
    &&& forall|j: int| 0 <= j < i ==> #[trigger] s[j].priority() < s[i].priority()
}

/// The alternative with the highest priority; `None` for an empty list.
/// Among alternatives of equal highest priority the first one is chosen.
pub fn highest_prio(alts: Vec<Alternative>) -> (r: Option<Alternative>)
    ensures
        r is None <==> alts@.len() == 0,
        r matches Some(a) ==> exists|i: int|
            is_first_highest(alternatives_view(alts@), i) && a == #[trigger] alts@[i],
{
    let mut alts = alts;
    if alts.len() == 0 {
        return None;
    }
    let ghost s = alternatives_view(alts@);
    let mut best: usize = 0;
    let mut best_prio: i32 = alts[0].priority();
    let mut i: usize = 1;
    while i < alts.len()
        invariant
            s == alternatives_view(alts@),
            1 <= i <= alts@.len(),
            best < i,
            best_prio == s[best as int].priority(),
            forall|j: int| 0 <= j < i ==> #[trigger] s[j].priority() <= best_prio,
            forall|j: int| 0 <= j < best ==> #[trigger] s[j].priority() < best_prio,
        decreases alts@.len() - i,
    {
        let p = alts[i].priority();
        if p > best_prio {
            best = i;
            best_prio = p;
        }
        i = i + 1;
    }
    let ghost old_alts = alts@;
    assert(is_first_highest(s, best as int));
    let a = alts.remove(best);
    assert(a == old_alts[best as int]);
    Some(a)
}

} // verus!
