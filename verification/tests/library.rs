use alternatives::{
    dropins_of, filter_buildins, highest_prio, install_alternative, merge_dropins,
    unwrap_followers, write_db, Alternative, AlternativeGroup, ConfigFile, Follower,
};

fn s(x: &str) -> String {
    x.to_string()
}

fn alt(link: &str, path: &str, priority: i32) -> Alternative {
    Alternative::new(s(link), s(path), priority, Vec::new())
}

fn paths(alts: &[Alternative]) -> Vec<String> {
    alts.iter().map(|a| a.path().clone()).collect()
}

fn group_paths(g: &AlternativeGroup) -> Vec<String> {
    paths(&g.get_alternatives())
}

fn is_builtin(g: &AlternativeGroup) -> bool {
    matches!(g, AlternativeGroup::BuiltIn(_))
}

fn mode_and_manual(g: &AlternativeGroup) -> Option<(String, String)> {
    match g {
        AlternativeGroup::BuiltIn(b) => Some((b.mode.clone(), b.manual_path.clone())),
        AlternativeGroup::DropIn(_) => None,
    }
}

#[test]
fn unwrap_followers_groups_values_by_three() {
    let args = vec![s("l1"), s("n1"), s("p1"), s("l2"), s("n2"), s("p2")];
    let fs = unwrap_followers(&args);
    assert_eq!(fs.len(), 2);
    assert_eq!((fs[0].link.as_str(), fs[0].name.as_str(), fs[0].path.as_str()), ("l1", "n1", "p1"));
    assert_eq!((fs[1].link.as_str(), fs[1].name.as_str(), fs[1].path.as_str()), ("l2", "n2", "p2"));
}

#[test]
fn unwrap_followers_of_nothing_is_empty() {
    let args: Vec<String> = Vec::new();
    assert!(unwrap_followers(&args).is_empty());
}

#[test]
fn new_alternative_without_followers() {
    let a = alt("/usr/bin/editor", "/usr/bin/vim", 10);
    assert!(matches!(a, Alternative::WithoutFollowers(_)));
    assert_eq!(a.link(), "/usr/bin/editor");
    assert_eq!(a.path(), "/usr/bin/vim");
    assert_eq!(a.priority(), 10);
}

#[test]
fn new_alternative_with_followers() {
    let fs = vec![Follower { link: s("foo1"), name: s("foo1"), path: s("foo1") }];
    let a = Alternative::new(s("sl_to_vim"), s("/usr/bin/vim"), -3, fs);
    match &a {
        Alternative::WithFollowers(w) => {
            assert_eq!(w.followers.len(), 1);
            assert_eq!(w.followers[0].path, "foo1");
        }
        Alternative::WithoutFollowers(_) => panic!("followers were given"),
    }
    assert_eq!(a.link(), "sl_to_vim");
    assert_eq!(a.priority(), -3);
}

#[test]
fn highest_prio_of_empty_list_is_none() {
    assert!(highest_prio(Vec::new()).is_none());
}

#[test]
fn highest_prio_picks_the_highest() {
    let alts = vec![alt("a", "/p/low", 9), alt("b", "/p/high", 100), alt("c", "/p/mid", 10)];
    let best = highest_prio(alts).unwrap();
    assert_eq!(best.path(), "/p/high");
    assert_eq!(best.priority(), 100);
}

#[test]
fn highest_prio_takes_the_first_of_equal_priorities() {
    let alts = vec![alt("a", "/p/one", 5), alt("b", "/p/two", 7), alt("c", "/p/three", 7)];
    assert_eq!(highest_prio(alts).unwrap().path(), "/p/two");
}

#[test]
fn dropin_to_builtin_gets_auto_mode() {
    let g = AlternativeGroup::new_dropin(s("editor"), vec![alt("l", "/usr/bin/vim", 1)]);
    let b = g.to_builtin();
    assert!(is_builtin(&b));
    assert_eq!(mode_and_manual(&b), Some((s("Auto"), s(""))));
    assert_eq!(b.get_name(), "editor");
    assert_eq!(group_paths(&b), vec![s("/usr/bin/vim")]);
}

#[test]
fn builtin_to_builtin_keeps_mode() {
    let g = AlternativeGroup::BuiltIn(alternatives::BuiltIn {
        name: s("editor"),
        mode: s("manual"),
        manual_path: s("/usr/bin/emacs"),
        alternatives: vec![alt("l", "/usr/bin/emacs", 9)],
    });
    let b = g.to_builtin();
    assert_eq!(mode_and_manual(&b), Some((s("manual"), s("/usr/bin/emacs"))));
    let d = b.to_dropin();
    assert!(!is_builtin(&d));
    assert_eq!(d.get_name(), "editor");
    assert_eq!(group_paths(&d), vec![s("/usr/bin/emacs")]);
    // the drop-in form of the drop-in form is the same
    let dd = d.to_dropin();
    assert!(!is_builtin(&dd));
    assert_eq!(group_paths(&dd), vec![s("/usr/bin/emacs")]);
}

#[test]
fn new_builtin_is_empty_auto_group() {
    let g = AlternativeGroup::new_builtin(s("pager"), Vec::new());
    assert_eq!(mode_and_manual(&g), Some((s("Auto"), s(""))));
    assert_eq!(g.get_name(), "pager");
    assert!(g.get_alternatives().is_empty());
}

#[test]
fn append_alternative_adds_at_the_end() {
    let mut g = AlternativeGroup::new_dropin(s("editor"), vec![alt("l", "/a", 1)]);
    g.append_alternative(alt("l", "/b", 2));
    assert!(!is_builtin(&g));
    assert_eq!(group_paths(&g), vec![s("/a"), s("/b")]);
    assert_eq!(g.get_name(), "editor");
}

#[test]
fn cmp_name_compares_names_only() {
    let a = AlternativeGroup::new_dropin(s("editor"), vec![alt("l", "/a", 1)]);
    let b = AlternativeGroup::new_builtin(s("editor"), Vec::new());
    let c = AlternativeGroup::new_dropin(s("pager"), vec![alt("l", "/a", 1)]);
    assert!(a.alternative_group_cmp_name(&b));
    assert!(!a.alternative_group_cmp_name(&c));
}

fn sample_groups() -> Vec<AlternativeGroup> {
    vec![
        AlternativeGroup::new_dropin(s("editor"), vec![alt("l", "/vim", 10), alt("l", "/vi", 5)]),
        AlternativeGroup::new_dropin(s("pager"), vec![alt("l", "/less", 10)]),
        AlternativeGroup::new_dropin(s("editor"), vec![alt("l", "/emacs", 9)]),
    ]
}

#[test]
fn merge_dropins_joins_groups_of_the_name() {
    let m = merge_dropins(s("editor"), sample_groups());
    assert!(!is_builtin(&m));
    assert_eq!(m.get_name(), "editor");
    assert_eq!(group_paths(&m), vec![s("/vim"), s("/vi"), s("/emacs")]);
}

#[test]
fn merge_dropins_without_match_is_empty() {
    let m = merge_dropins(s("browser"), sample_groups());
    assert_eq!(m.get_name(), "browser");
    assert!(m.get_alternatives().is_empty());
}

#[test]
fn merge_of_concatenation_is_concatenation_of_merges() {
    let mut all = sample_groups();
    let more = sample_groups();
    let first = group_paths(&merge_dropins(s("editor"), sample_groups()));
    let second = group_paths(&merge_dropins(s("editor"), sample_groups()));
    all.extend(more);
    let whole = group_paths(&merge_dropins(s("editor"), all));
    let mut expected = first;
    expected.extend(second);
    assert_eq!(whole, expected);
}

#[test]
fn filter_buildins_takes_the_last_of_the_name() {
    let g = filter_buildins(s("editor"), sample_groups());
    assert_eq!(g.get_name(), "editor");
    assert_eq!(group_paths(&g), vec![s("/emacs")]);
    assert!(!is_builtin(&g));
}

#[test]
fn filter_buildins_without_match_is_new_builtin() {
    let g = filter_buildins(s("browser"), sample_groups());
    assert_eq!(g.get_name(), "browser");
    assert_eq!(mode_and_manual(&g), Some((s("Auto"), s(""))));
    assert!(g.get_alternatives().is_empty());
}

#[test]
fn install_appends_to_the_first_group_of_the_name() {
    let mut db = sample_groups();
    let r = install_alternative(&mut db, s("editor"), alt("l", "/nano", 1));
    assert_eq!(r, Some(0));
    assert_eq!(db.len(), 3);
    assert_eq!(group_paths(&db[0]), vec![s("/vim"), s("/vi"), s("/nano")]);
    assert_eq!(group_paths(&db[2]), vec![s("/emacs")]);
}

#[test]
fn install_creates_a_builtin_group_when_absent() {
    let mut db = sample_groups();
    let r = install_alternative(&mut db, s("browser"), alt("l", "/firefox", 50));
    assert_eq!(r, None);
    assert_eq!(db.len(), 4);
    assert_eq!(db[3].get_name(), "browser");
    assert_eq!(mode_and_manual(&db[3]), Some((s("Auto"), s(""))));
    assert_eq!(group_paths(&db[3]), vec![s("/firefox")]);
}

fn unique_db() -> Vec<AlternativeGroup> {
    vec![
        AlternativeGroup::new_builtin(s("editor"), vec![alt("l", "/vim", 10)]),
        AlternativeGroup::new_builtin(s("pager"), vec![alt("l", "/less", 10)]),
    ]
}

#[test]
fn install_then_filter_reads_back_the_alternative() {
    let mut db = unique_db();
    install_alternative(&mut db, s("pager"), alt("l", "/more", 3));
    let g = filter_buildins(s("pager"), db);
    assert_eq!(group_paths(&g), vec![s("/less"), s("/more")]);

    let mut db = unique_db();
    install_alternative(&mut db, s("browser"), alt("l", "/lynx", 3));
    let g = filter_buildins(s("browser"), db);
    assert_eq!(group_paths(&g), vec![s("/lynx")]);
    assert_eq!(mode_and_manual(&g), Some((s("Auto"), s(""))));
}

#[test]
fn install_keeps_other_names_unchanged() {
    let mut db = unique_db();
    install_alternative(&mut db, s("pager"), alt("l", "/more", 3));
    let g = filter_buildins(s("editor"), db);
    assert_eq!(group_paths(&g), vec![s("/vim")]);
}

#[test]
fn dropins_of_converts_every_group() {
    let db = unique_db();
    let ds = dropins_of(&db);
    assert_eq!(ds.len(), 2);
    assert!(ds.iter().all(|g| !is_builtin(g)));
    assert_eq!(ds[1].get_name(), "pager");
    assert_eq!(group_paths(&ds[0]), vec![s("/vim")]);
}

#[test]
fn write_db_keeps_modified_files_in_order() {
    let files = vec![
        ConfigFile { path: s("/a"), content: unique_db(), modified: true },
        ConfigFile { path: s("/b"), content: Vec::new(), modified: false },
        ConfigFile { path: s("/c"), content: Vec::new(), modified: true },
    ];
    let writes = write_db(files);
    let ps: Vec<&str> = writes.iter().map(|f| f.path.as_str()).collect();
    assert_eq!(ps, vec!["/a", "/c"]);
    assert_eq!(writes[0].content.len(), 2);
}

#[test]
fn write_db_of_unmodified_files_writes_nothing() {
    let files = vec![ConfigFile { path: s("/b"), content: Vec::new(), modified: false }];
    assert!(write_db(files).is_empty());
}
