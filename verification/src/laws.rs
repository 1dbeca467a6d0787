//! The reconciler's general properties, stated over the run specifications
//! and proved for every filesystem state, mapping collection and flag
//! combination the statements admit.

use vstd::prelude::*;

use crate::config::MappingModel;
use crate::links::answer_at;
use crate::links::install_rec;
use crate::links::install_step_spec;
use crate::links::is_actual_link_spec;
use crate::links::list_rec;
use crate::links::list_step_spec;
use crate::links::remove_rec;
use crate::links::remove_step_spec;
use crate::links::FsModel;
use crate::links::NoticeModel;
use crate::links::resolve_dest_spec;
use crate::links::resolve_src_spec;

verus! {

/// Skip on missing source: a mapping whose resolved source does not exist
/// leaves the state untouched and performs no action, whatever `force`,
/// `dry_run` and the operator's answer are; the mapping is only reported.
pub proof fn lemma_install_skips_missing_source(
    fs: FsModel,
    m: MappingModel,
    root: Seq<char>,
    home: Option<Seq<char>>,
    force: bool,
    dry_run: bool,
    answer: bool,
)
    requires
        resolve_src_spec(home, root, m) is Some,
        !fs.contains_key(resolve_src_spec(home, root, m)->Some_0),
    ensures
        ({
            let st = install_step_spec(fs, m, root, home, force, dry_run, answer);
            &&& st.fs == fs
            &&& st.actions == Seq::<crate::links::ActionModel>::empty()
            &&& st.used_answer == false
            &&& (resolve_dest_spec(home, m) is Some ==> st.failure is None
                && st.notices == seq![
                    NoticeModel::SourceMissing { src: resolve_src_spec(home, root, m)->Some_0 },
                ])
        }),
{
}

/// List/Remove consistency: both go by the shared is-actual-link predicate,
/// so List reports a mapping as installed exactly when Remove deletes its
/// destination, and Remove changes nothing else.
pub proof fn lemma_list_remove_consistent(
    fs: FsModel,
    m: MappingModel,
    root: Seq<char>,
    home: Option<Seq<char>>,
)
    ensures
        ({
            let ls = list_step_spec(fs, m, root, home);
            let rs = remove_step_spec(fs, m, root, home);
            &&& ls.failure == rs.failure
            &&& ls.fs == fs
            &&& (resolve_src_spec(home, root, m) matches Some(src) ==> resolve_dest_spec(
                home,
                m,
            ) matches Some(dest) ==> {
                &&& ((ls.notices == seq![NoticeModel::Link { src, dest }]) <==> is_actual_link_spec(
                    fs,
                    src,
                    dest,
                ))
                &&& ((rs.fs == fs.remove(dest) && rs.notices == seq![
                    NoticeModel::Unlink { dest },
                ]) <==> is_actual_link_spec(fs, src, dest))
                &&& (!is_actual_link_spec(fs, src, dest) ==> rs.fs == fs)
            })
        }),
{
    let ls = list_step_spec(fs, m, root, home);
    let rs = remove_step_spec(fs, m, root, home);
    if resolve_src_spec(home, root, m) is Some && resolve_dest_spec(home, m) is Some {
        let src = resolve_src_spec(home, root, m)->Some_0;
        let dest = resolve_dest_spec(home, m)->Some_0;
        if is_actual_link_spec(fs, src, dest) {
            assert(ls.notices == seq![NoticeModel::Link { src, dest }]);
            assert(rs.fs == fs.remove(dest));
            assert(rs.notices == seq![NoticeModel::Unlink { dest }]);
        } else {
            assert(ls.notices.len() == 0);
            assert(rs.notices[0] == NoticeModel::NoMatch { dest, src });
            assert(seq![NoticeModel::Unlink { dest }][0] == NoticeModel::Unlink { dest });
            assert(rs.notices != seq![NoticeModel::Unlink { dest }]);
            assert(rs.fs == fs);
        }
    }
}

/// Dry-run purity: a dry Install changes nothing, asks for no action and
/// consumes no answer, on every input.
pub proof fn lemma_install_dry_run_pure(
    fs: FsModel,
    ms: Seq<MappingModel>,
    root: Seq<char>,
    home: Option<Seq<char>>,
    force: bool,
    answers: Seq<bool>,
    ai: int,
)
    ensures
        ({
            let r = install_rec(fs, ms, root, home, force, true, answers, ai);
            &&& r.fs == fs
            &&& r.actions == Seq::<crate::links::ActionModel>::empty()
            &&& r.answers_used == ai
        }),
    decreases ms.len(),
{
    if ms.len() > 0 {
        let st = install_step_spec(fs, ms[0], root, home, force, true, answer_at(answers, ai));
        if st.failure is None {
            lemma_install_dry_run_pure(st.fs, ms.drop_first(), root, home, force, answers, ai);
            let rest = install_rec(st.fs, ms.drop_first(), root, home, force, true, answers, ai);
            assert(st.actions + rest.actions =~= Seq::<crate::links::ActionModel>::empty());
        }
    }
}

/// One state is contained in another: everything it holds, the other holds
/// unchanged.
pub open spec fn is_submap(a: FsModel, b: FsModel) -> bool {
    forall|k: Seq<char>| #[trigger] a.contains_key(k) ==> b.contains_key(k) && a[k] == b[k]
}

/// Remove only ever deletes: its final state is contained in its initial
/// one.
pub proof fn lemma_remove_rec_submap(
    fs: FsModel,
    ms: Seq<MappingModel>,
    root: Seq<char>,
    home: Option<Seq<char>>,
)
    ensures
        is_submap(remove_rec(fs, ms, root, home).fs, fs),
    decreases ms.len(),
{
    if ms.len() > 0 {
        let st = remove_step_spec(fs, ms[0], root, home);
        if st.failure is None {
            lemma_remove_rec_submap(st.fs, ms.drop_first(), root, home);
        }
    }
}

/// Non-destructive remove: whatever a Remove run deleted was, in the state
/// the run started from, a symlink declared by one of its mappings — with
/// the target that mapping resolves to, not merely at its path.
pub proof fn lemma_remove_non_destructive(
    fs: FsModel,
    ms: Seq<MappingModel>,
    root: Seq<char>,
    home: Option<Seq<char>>,
    p: Seq<char>,
)
    requires
        fs.contains_key(p),
        !remove_rec(fs, ms, root, home).fs.contains_key(p),
    ensures
        exists|i: int|
            0 <= i < ms.len() && (#[trigger] resolve_dest_spec(home, ms[i])) == Some(p)
                && resolve_src_spec(home, root, ms[i]) is Some && fs[p] == Some(
                resolve_src_spec(home, root, ms[i])->Some_0,
            ),
    decreases ms.len(),
{
    let st = remove_step_spec(fs, ms[0], root, home);
    if st.failure is None {
        let src = resolve_src_spec(home, root, ms[0])->Some_0;
        let dest = resolve_dest_spec(home, ms[0])->Some_0;
        if is_actual_link_spec(fs, src, dest) && dest == p {
            assert(resolve_dest_spec(home, ms[0]) == Some(p));
        } else {
            lemma_remove_non_destructive(st.fs, ms.drop_first(), root, home, p);
            let i = choose|i: int|
                0 <= i < ms.drop_first().len() && (#[trigger] resolve_dest_spec(
                    home,
                    ms.drop_first()[i],
                )) == Some(p) && resolve_src_spec(home, root, ms.drop_first()[i]) is Some
                    && st.fs[p] == Some(resolve_src_spec(home, root, ms.drop_first()[i])->Some_0);
            assert(ms[i + 1] == ms.drop_first()[i]);
            assert(st.fs[p] == fs[p]);
            assert(resolve_dest_spec(home, ms[i + 1]) == Some(p));
        }
    }
}

/// What Remove leaves behind: after a Remove run that was not aborted, no
/// mapping of the run is still installed — the shared predicate holds for
/// none of them. In particular, a Remove right after an Install removes
/// every link the Install created, and a List of the final state reports
/// none of the mappings.
pub proof fn lemma_remove_clears(
    fs: FsModel,
    ms: Seq<MappingModel>,
    root: Seq<char>,
    home: Option<Seq<char>>,
)
    ensures
        ({
            let r = remove_rec(fs, ms, root, home);
            r.failure is None ==> forall|i: int|
                0 <= i < ms.len() ==> !is_actual_link_spec(
                    r.fs,
                    (#[trigger] resolve_src_spec(home, root, ms[i]))->Some_0,
                    resolve_dest_spec(home, ms[i])->Some_0,
                )
        }),
    decreases ms.len(),
{
    let r = remove_rec(fs, ms, root, home);
    if ms.len() > 0 && r.failure is None {
        let st = remove_step_spec(fs, ms[0], root, home);
        let rest = remove_rec(st.fs, ms.drop_first(), root, home);
        lemma_remove_clears(st.fs, ms.drop_first(), root, home);
        lemma_remove_rec_submap(st.fs, ms.drop_first(), root, home);
        let src0 = resolve_src_spec(home, root, ms[0])->Some_0;
        let dest0 = resolve_dest_spec(home, ms[0])->Some_0;
        assert forall|i: int| 0 <= i < ms.len() implies !is_actual_link_spec(
            r.fs,
            (#[trigger] resolve_src_spec(home, root, ms[i]))->Some_0,
            resolve_dest_spec(home, ms[i])->Some_0,
        ) by {
            if i == 0 {
                if is_actual_link_spec(fs, src0, dest0) {
                    assert(!st.fs.contains_key(dest0));
                    assert(!r.fs.contains_key(dest0));
                } else {
                    if r.fs.contains_key(dest0) {
                        assert(r.fs[dest0] == fs[dest0]);
                    }
                }
            } else {
                assert(ms.drop_first()[i - 1] == ms[i]);
                assert(!is_actual_link_spec(
                    rest.fs,
                    resolve_src_spec(home, root, ms.drop_first()[i - 1])->Some_0,
                    resolve_dest_spec(home, ms.drop_first()[i - 1])->Some_0,
                ));
            }
        }
    }
}

/// Whether an Install over `ms` may write at `p`: some mapping's resolved
/// destination, or the parent of one, is `p`.
pub open spec fn touched(home: Option<Seq<char>>, ms: Seq<MappingModel>, p: Seq<char>) -> bool {
    exists|i: int|
        0 <= i < ms.len() && ((#[trigger] resolve_dest_spec(home, ms[i])) matches Some(d) && (d == p
            || crate::paths::parent_spec(d) == Some(p)))
}

/// No mapping's resolved source is a path an Install over `ms` may write at.
pub open spec fn sources_untouched(
    home: Option<Seq<char>>,
    root: Seq<char>,
    ms: Seq<MappingModel>,
) -> bool {
    forall|i: int|
        0 <= i < ms.len() ==> ((#[trigger] resolve_src_spec(home, root, ms[i])) matches Some(s)
            ==> !touched(home, ms, s))
}

/// No two mappings resolve to the same destination.
pub open spec fn dests_distinct(home: Option<Seq<char>>, ms: Seq<MappingModel>) -> bool {
    forall|i: int, j: int|
        #![trigger resolve_dest_spec(home, ms[i]), resolve_dest_spec(home, ms[j])]
        0 <= i < ms.len() && 0 <= j < ms.len() && i != j && resolve_dest_spec(home, ms[i]) is Some
            ==> resolve_dest_spec(home, ms[i]) != resolve_dest_spec(home, ms[j])
}

proof fn lemma_touched_drop_first(home: Option<Seq<char>>, ms: Seq<MappingModel>, p: Seq<char>)
    requires
        ms.len() > 0,
        touched(home, ms.drop_first(), p),
    ensures
        touched(home, ms, p),
{
    let i = choose|i: int|
        0 <= i < ms.drop_first().len() && ((#[trigger] resolve_dest_spec(
            home,
            ms.drop_first()[i],
        )) matches Some(d) && (d == p || crate::paths::parent_spec(d) == Some(p)));
    assert(ms[i + 1] == ms.drop_first()[i]);
    assert(resolve_dest_spec(home, ms[i + 1]) == resolve_dest_spec(home, ms.drop_first()[i]));
}

proof fn lemma_requires_drop_first(home: Option<Seq<char>>, root: Seq<char>, ms: Seq<MappingModel>)
    requires
        ms.len() > 0,
    ensures
        sources_untouched(home, root, ms) ==> sources_untouched(home, root, ms.drop_first()),
        dests_distinct(home, ms) ==> dests_distinct(home, ms.drop_first()),
{
    let rest = ms.drop_first();
    if sources_untouched(home, root, ms) {
        assert forall|i: int|
            0 <= i < rest.len() implies ((#[trigger] resolve_src_spec(home, root, rest[i]))
            matches Some(s) ==> !touched(home, rest, s)) by {
            assert(ms[i + 1] == rest[i]);
            assert(resolve_src_spec(home, root, ms[i + 1]) matches Some(s) ==> !touched(
                home,
                ms,
                s,
            ));
            if resolve_src_spec(home, root, rest[i]) is Some {
                let s = resolve_src_spec(home, root, rest[i])->Some_0;
                if touched(home, rest, s) {
                    lemma_touched_drop_first(home, ms, s);
                }
            }
        }
    }
    if dests_distinct(home, ms) {
        assert forall|i: int, j: int|
            #![trigger resolve_dest_spec(home, rest[i]), resolve_dest_spec(home, rest[j])]
            0 <= i < rest.len() && 0 <= j < rest.len() && i != j && resolve_dest_spec(
                home,
                rest[i],
            ) is Some implies resolve_dest_spec(home, rest[i]) != resolve_dest_spec(
            home,
            rest[j],
        ) by {
            assert(ms[i + 1] == rest[i]);
            assert(ms[j + 1] == rest[j]);
            assert(resolve_dest_spec(home, ms[i + 1]) != resolve_dest_spec(home, ms[j + 1]));
        }
    }
}

proof fn lemma_last_slash_bounds(p: Seq<char>)
    ensures
        -1 <= crate::paths::last_slash(p) < p.len(),
    decreases p.len(),
{
    if p.len() > 0 && p[p.len() - 1] != '/' {
        lemma_last_slash_bounds(p.drop_last());
    }
}

/// A path's parent is strictly shorter than the path, so never the path
/// itself.
proof fn lemma_parent_shorter(d: Seq<char>)
    ensures
        crate::paths::parent_spec(d) matches Some(par) ==> par.len() < d.len() && par != d,
{
    lemma_last_slash_bounds(d);
    if crate::paths::parent_spec(d) is Some {
        if crate::paths::last_slash(d) == 0 && d.len() == 1 {
            if d[0] != '/' {
                assert(crate::paths::last_slash(d) == crate::paths::last_slash(d.drop_last()));
                assert(d.drop_last().len() == 0);
            }
            assert(d =~= seq!['/']);
        }
    }
}

/// An Install leaves every path it could not write at exactly as it was.
pub proof fn lemma_install_untouched(
    fs: FsModel,
    ms: Seq<MappingModel>,
    root: Seq<char>,
    home: Option<Seq<char>>,
    force: bool,
    dry_run: bool,
    answers: Seq<bool>,
    ai: int,
    p: Seq<char>,
)
    requires
        !touched(home, ms, p),
    ensures
        ({
            let r = install_rec(fs, ms, root, home, force, dry_run, answers, ai);
            &&& r.fs.contains_key(p) == fs.contains_key(p)
            &&& (fs.contains_key(p) ==> r.fs[p] == fs[p])
        }),
    decreases ms.len(),
{
    if ms.len() > 0 {
        let st = install_step_spec(fs, ms[0], root, home, force, dry_run, answer_at(answers, ai));
        if st.failure is None {
            if resolve_dest_spec(home, ms[0]) is Some {
                let d0 = resolve_dest_spec(home, ms[0])->Some_0;
                if d0 == p || crate::paths::parent_spec(d0) == Some(p) {
                    assert(touched(home, ms, p));
                }
            }
            assert(st.fs.contains_key(p) == fs.contains_key(p));
            assert(fs.contains_key(p) ==> st.fs[p] == fs[p]);
            if touched(home, ms.drop_first(), p) {
                lemma_touched_drop_first(home, ms, p);
            }
            let ai1 = ai + if st.used_answer {
                1int
            } else {
                0int
            };
            lemma_install_untouched(
                st.fs,
                ms.drop_first(),
                root,
                home,
                force,
                dry_run,
                answers,
                ai1,
                p,
            );
        }
    }
}

/// An Install never makes an occupied path empty.
pub proof fn lemma_install_monotone(
    fs: FsModel,
    ms: Seq<MappingModel>,
    root: Seq<char>,
    home: Option<Seq<char>>,
    force: bool,
    dry_run: bool,
    answers: Seq<bool>,
    ai: int,
    p: Seq<char>,
)
    requires
        fs.contains_key(p),
    ensures
        install_rec(fs, ms, root, home, force, dry_run, answers, ai).fs.contains_key(p),
    decreases ms.len(),
{
    if ms.len() > 0 {
        let st = install_step_spec(fs, ms[0], root, home, force, dry_run, answer_at(answers, ai));
        if st.failure is None {
            let ai1 = ai + if st.used_answer {
                1int
            } else {
                0int
            };
            lemma_install_monotone(
                st.fs,
                ms.drop_first(),
                root,
                home,
                force,
                dry_run,
                answers,
                ai1,
                p,
            );
        }
    }
}

/// An Install leaves an occupied path that is no mapping's resolved
/// destination exactly as it was.
pub proof fn lemma_install_preserves_present(
    fs: FsModel,
    ms: Seq<MappingModel>,
    root: Seq<char>,
    home: Option<Seq<char>>,
    force: bool,
    dry_run: bool,
    answers: Seq<bool>,
    ai: int,
    p: Seq<char>,
)
    requires
        fs.contains_key(p),
        forall|i: int|
            0 <= i < ms.len() ==> (#[trigger] resolve_dest_spec(home, ms[i])) != Some(p),
    ensures
        ({
            let r = install_rec(fs, ms, root, home, force, dry_run, answers, ai);
            r.fs.contains_key(p) && r.fs[p] == fs[p]
        }),
    decreases ms.len(),
{
    if ms.len() > 0 {
        let st = install_step_spec(fs, ms[0], root, home, force, dry_run, answer_at(answers, ai));
        if st.failure is None {
            assert(resolve_dest_spec(home, ms[0]) != Some(p));
            assert(st.fs.contains_key(p) && st.fs[p] == fs[p]);
            assert forall|i: int|
                0 <= i < ms.drop_first().len() implies (#[trigger] resolve_dest_spec(
                home,
                ms.drop_first()[i],
            )) != Some(p) by {
                assert(ms[i + 1] == ms.drop_first()[i]);
                assert(resolve_dest_spec(home, ms[i + 1]) != Some(p));
            }
            let ai1 = ai + if st.used_answer {
                1int
            } else {
                0int
            };
            lemma_install_preserves_present(
                st.fs,
                ms.drop_first(),
                root,
                home,
                force,
                dry_run,
                answers,
                ai1,
                p,
            );
        }
    }
}

/// Idempotence of a forced Install: running it again from the state the
/// first run produced changes nothing, whatever answers either run was
/// offered. It asks that no mapping's resolved source be a path the run
/// writes at, and that no two mappings share a resolved destination.
pub proof fn lemma_install_idempotent(
    fs: FsModel,
    ms: Seq<MappingModel>,
    root: Seq<char>,
    home: Option<Seq<char>>,
    a1: Seq<bool>,
    ai1: int,
    a2: Seq<bool>,
    ai2: int,
)
    requires
        sources_untouched(home, root, ms),
        dests_distinct(home, ms),
    ensures
        ({
            let r1 = install_rec(fs, ms, root, home, true, false, a1, ai1);
            install_rec(r1.fs, ms, root, home, true, false, a2, ai2).fs == r1.fs
        }),
    decreases ms.len(),
{
    if ms.len() > 0 {
        let rest = ms.drop_first();
        lemma_requires_drop_first(home, root, ms);
        let st1 = install_step_spec(fs, ms[0], root, home, true, false, answer_at(a1, ai1));
        if st1.failure is Some {
            let r1 = install_rec(fs, ms, root, home, true, false, a1, ai1);
            assert(r1.fs == fs);
            let st2 = install_step_spec(fs, ms[0], root, home, true, false, answer_at(a2, ai2));
            assert(st2.failure is Some);
        } else {
            let s0 = resolve_src_spec(home, root, ms[0])->Some_0;
            let d0 = resolve_dest_spec(home, ms[0])->Some_0;
            assert(resolve_src_spec(home, root, ms[0]) matches Some(s) ==> !touched(home, ms, s));
            assert(!touched(home, rest, s0)) by {
                if touched(home, rest, s0) {
                    lemma_touched_drop_first(home, ms, s0);
                }
            }
            let r1 = install_rec(fs, ms, root, home, true, false, a1, ai1);
            if !fs.contains_key(s0) {
                assert(st1.fs == fs);
                assert(r1.fs == install_rec(fs, rest, root, home, true, false, a1, ai1).fs);
                lemma_install_untouched(fs, rest, root, home, true, false, a1, ai1, s0);
                assert(!r1.fs.contains_key(s0));
                let st2 = install_step_spec(
                    r1.fs,
                    ms[0],
                    root,
                    home,
                    true,
                    false,
                    answer_at(a2, ai2),
                );
                assert(st2.fs == r1.fs);
                lemma_install_idempotent(fs, rest, root, home, a1, ai1, a2, ai2);
            } else {
                // The first step wrote the link; the rest of the run keeps
                // the written entry, the source and the parent in place, so
                // the second run's first step rewrites the same entry.
                if d0 == s0 || crate::paths::parent_spec(d0) == Some(s0) {
                    assert(touched(home, ms, s0));
                }
                assert(st1.fs[d0] == Some(s0));
                assert(st1.fs.contains_key(s0) == fs.contains_key(s0));
                assert(r1.fs == install_rec(st1.fs, rest, root, home, true, false, a1, ai1).fs);
                lemma_install_untouched(st1.fs, rest, root, home, true, false, a1, ai1, s0);
                assert(r1.fs.contains_key(s0));
                assert forall|i: int|
                    0 <= i < rest.len() implies (#[trigger] resolve_dest_spec(home, rest[i]))
                    != Some(d0) by {
                    assert(ms[i + 1] == rest[i]);
                    assert(resolve_dest_spec(home, ms[0]) != resolve_dest_spec(home, ms[i + 1]));
                }
                lemma_install_preserves_present(
                    st1.fs,
                    rest,
                    root,
                    home,
                    true,
                    false,
                    a1,
                    ai1,
                    d0,
                );
                assert(r1.fs[d0] == Some(s0));
                lemma_parent_shorter(d0);
                if crate::paths::parent_spec(d0) is Some {
                    let par = crate::paths::parent_spec(d0)->Some_0;
                    if par.len() > 0 {
                        assert(st1.fs.contains_key(par));
                        lemma_install_monotone(st1.fs, rest, root, home, true, false, a1, ai1, par);
                        assert(r1.fs.contains_key(par));
                    }
                }
                let st2 = install_step_spec(
                    r1.fs,
                    ms[0],
                    root,
                    home,
                    true,
                    false,
                    answer_at(a2, ai2),
                );
                assert(st2.fs =~= r1.fs) by {
                    if crate::paths::parent_spec(d0) is Some {
                        let par = crate::paths::parent_spec(d0)->Some_0;
                        if par.len() > 0 {
                            assert(r1.fs.remove(d0).contains_key(par));
                        }
                    }
                    assert(st2.fs =~= r1.fs.remove(d0).insert(d0, Some(s0)));
                }
                lemma_install_idempotent(st1.fs, rest, root, home, a1, ai1, a2, ai2);
            }
        }
    }
}

/// Dry-run faithfulness: under `force`, a dry Install reports exactly the
/// notices a real Install reports, provided no mapping's resolved source is
/// a path the real run writes at. (Without `force` the two runs may differ:
/// a real run can be declined at an occupied destination, which a dry run
/// never asks about.) Stated for two starting states that agree on every
/// resolved source, which covers the runs starting from the same state.
pub proof fn lemma_dry_run_notices(
    s1: FsModel,
    s2: FsModel,
    ms: Seq<MappingModel>,
    root: Seq<char>,
    home: Option<Seq<char>>,
    a1: Seq<bool>,
    ai1: int,
    a2: Seq<bool>,
    ai2: int,
)
    requires
        sources_untouched(home, root, ms),
        forall|i: int|
            0 <= i < ms.len() ==> ((#[trigger] resolve_src_spec(home, root, ms[i])) matches Some(s)
                ==> s1.contains_key(s) == s2.contains_key(s)),
    ensures
        install_rec(s1, ms, root, home, true, true, a1, ai1).notices == install_rec(
            s2,
            ms,
            root,
            home,
            true,
            false,
            a2,
            ai2,
        ).notices,
    decreases ms.len(),
{
    if ms.len() > 0 {
        let rest = ms.drop_first();
        lemma_requires_drop_first(home, root, ms);
        let st1 = install_step_spec(s1, ms[0], root, home, true, true, answer_at(a1, ai1));
        let st2 = install_step_spec(s2, ms[0], root, home, true, false, answer_at(a2, ai2));
        assert(resolve_src_spec(home, root, ms[0]) matches Some(s) ==> s1.contains_key(s)
            == s2.contains_key(s));
        if st1.failure is Some {
            assert(st2.failure is Some);
        } else {
            let s0 = resolve_src_spec(home, root, ms[0])->Some_0;
            assert(resolve_src_spec(home, root, ms[0]) matches Some(s) ==> !touched(home, ms, s));
            assert(st1.notices == st2.notices);
            assert forall|i: int|
                0 <= i < rest.len() implies ((#[trigger] resolve_src_spec(home, root, rest[i]))
                matches Some(s) ==> s1.contains_key(s) == st2.fs.contains_key(s)) by {
                assert(ms[i + 1] == rest[i]);
                if resolve_src_spec(home, root, rest[i]) is Some {
                    let s = resolve_src_spec(home, root, rest[i])->Some_0;
                    assert(resolve_src_spec(home, root, ms[i + 1]) matches Some(t) ==> !touched(
                        home,
                        ms,
                        t,
                    ));
                    if resolve_dest_spec(home, ms[0]) is Some {
                        let d0 = resolve_dest_spec(home, ms[0])->Some_0;
                        if d0 == s || crate::paths::parent_spec(d0) == Some(s) {
                            assert(touched(home, ms, s));
                        }
                    }
                    assert(st2.fs.contains_key(s) == s2.contains_key(s));
                }
            }
            let ai2n = ai2 + if st2.used_answer {
                1int
            } else {
                0int
            };
            lemma_dry_run_notices(s1, st2.fs, rest, root, home, a1, ai1, a2, ai2n);
        }
    }
}

/// An Install that was not aborted resolved every mapping's paths.
pub proof fn lemma_install_ok_resolutions(
    fs: FsModel,
    ms: Seq<MappingModel>,
    root: Seq<char>,
    home: Option<Seq<char>>,
    force: bool,
    dry_run: bool,
    answers: Seq<bool>,
    ai: int,
)
    ensures
        install_rec(fs, ms, root, home, force, dry_run, answers, ai).failure is None
            ==> forall|i: int|
            0 <= i < ms.len() ==> (#[trigger] resolve_src_spec(home, root, ms[i])) is Some
                && resolve_dest_spec(home, ms[i]) is Some,
    decreases ms.len(),
{
    if ms.len() > 0 {
        let st = install_step_spec(fs, ms[0], root, home, force, dry_run, answer_at(answers, ai));
        if st.failure is None {
            let ai1 = ai + if st.used_answer {
                1int
            } else {
                0int
            };
            lemma_install_ok_resolutions(
                st.fs,
                ms.drop_first(),
                root,
                home,
                force,
                dry_run,
                answers,
                ai1,
            );
            let r = install_rec(fs, ms, root, home, force, dry_run, answers, ai);
            if r.failure is None {
                assert forall|i: int|
                    0 <= i < ms.len() implies (#[trigger] resolve_src_spec(home, root, ms[i]))
                    is Some && resolve_dest_spec(home, ms[i]) is Some by {
                    if i > 0 {
                        assert(ms.drop_first()[i - 1] == ms[i]);
                        assert(resolve_src_spec(home, root, ms.drop_first()[i - 1]) is Some
                            && resolve_dest_spec(home, ms.drop_first()[i - 1]) is Some);
                    }
                }
            }
        }
    }
}

/// A Remove whose every mapping resolves is never aborted.
pub proof fn lemma_remove_no_failure(
    fs: FsModel,
    ms: Seq<MappingModel>,
    root: Seq<char>,
    home: Option<Seq<char>>,
)
    requires
        forall|i: int|
            0 <= i < ms.len() ==> (#[trigger] resolve_src_spec(home, root, ms[i])) is Some
                && resolve_dest_spec(home, ms[i]) is Some,
    ensures
        remove_rec(fs, ms, root, home).failure is None,
    decreases ms.len(),
{
    if ms.len() > 0 {
        let st = remove_step_spec(fs, ms[0], root, home);
        assert(resolve_src_spec(home, root, ms[0]) is Some);
        assert forall|i: int|
            0 <= i < ms.drop_first().len() implies (#[trigger] resolve_src_spec(
            home,
            root,
            ms.drop_first()[i],
        )) is Some && resolve_dest_spec(home, ms.drop_first()[i]) is Some by {
            assert(ms[i + 1] == ms.drop_first()[i]);
            assert(resolve_src_spec(home, root, ms[i + 1]) is Some && resolve_dest_spec(
                home,
                ms[i + 1],
            ) is Some);
        }
        lemma_remove_no_failure(st.fs, ms.drop_first(), root, home);
    }
}

/// A forced Install establishes, for every mapping whose resolved source
/// existed when the run began, the declared link in the final state.
pub proof fn lemma_install_establishes(
    fs: FsModel,
    ms: Seq<MappingModel>,
    root: Seq<char>,
    home: Option<Seq<char>>,
    answers: Seq<bool>,
    ai: int,
)
    requires
        sources_untouched(home, root, ms),
        dests_distinct(home, ms),
    ensures
        ({
            let r = install_rec(fs, ms, root, home, true, false, answers, ai);
            r.failure is None ==> forall|i: int|
                0 <= i < ms.len() ==> ((#[trigger] resolve_src_spec(home, root, ms[i]))
                    matches Some(s) ==> (fs.contains_key(s) ==> is_actual_link_spec(
                    r.fs,
                    s,
                    resolve_dest_spec(home, ms[i])->Some_0,
                )))
        }),
    decreases ms.len(),
{
    let r = install_rec(fs, ms, root, home, true, false, answers, ai);
    if ms.len() > 0 && r.failure is None {
        let rest = ms.drop_first();
        lemma_requires_drop_first(home, root, ms);
        let st = install_step_spec(fs, ms[0], root, home, true, false, answer_at(answers, ai));
        let s0 = resolve_src_spec(home, root, ms[0])->Some_0;
        let d0 = resolve_dest_spec(home, ms[0])->Some_0;
        lemma_install_establishes(st.fs, rest, root, home, answers, ai);
        assert forall|i: int|
            0 <= i < ms.len() implies ((#[trigger] resolve_src_spec(home, root, ms[i]))
            matches Some(s) ==> (fs.contains_key(s) ==> is_actual_link_spec(
            r.fs,
            s,
            resolve_dest_spec(home, ms[i])->Some_0,
        ))) by {
            if resolve_src_spec(home, root, ms[i]) is Some && fs.contains_key(
                resolve_src_spec(home, root, ms[i])->Some_0,
            ) {
                let s = resolve_src_spec(home, root, ms[i])->Some_0;
                if i == 0 {
                    assert(st.fs[d0] == Some(s0));
                    assert forall|j: int|
                        0 <= j < rest.len() implies (#[trigger] resolve_dest_spec(home, rest[j]))
                        != Some(d0) by {
                        assert(ms[j + 1] == rest[j]);
                        assert(resolve_dest_spec(home, ms[0]) != resolve_dest_spec(
                            home,
                            ms[j + 1],
                        ));
                    }
                    lemma_install_preserves_present(
                        st.fs,
                        rest,
                        root,
                        home,
                        true,
                        false,
                        answers,
                        ai + if st.used_answer {
                            1int
                        } else {
                            0int
                        },
                        d0,
                    );
                } else {
                    assert(ms[i] == rest[i - 1]);
                    assert(resolve_src_spec(home, root, ms[i]) matches Some(t) ==> !touched(
                        home,
                        ms,
                        t,
                    ));
                    assert(!touched(home, rest, s)) by {
                        if touched(home, rest, s) {
                            lemma_touched_drop_first(home, ms, s);
                        }
                    }
                    if resolve_dest_spec(home, ms[0]) is Some {
                        let dd = resolve_dest_spec(home, ms[0])->Some_0;
                        if dd == s || crate::paths::parent_spec(dd) == Some(s) {
                            assert(touched(home, ms, s));
                        }
                    }
                    assert(st.fs.contains_key(s) == fs.contains_key(s));
                    assert(resolve_src_spec(home, root, rest[i - 1]) matches Some(t) ==> (
                    st.fs.contains_key(t) ==> is_actual_link_spec(
                        r.fs,
                        t,
                        resolve_dest_spec(home, rest[i - 1])->Some_0,
                    )));
                }
            }
        }
    }
}

/// Round trip: after a forced Install (not aborted) and then a Remove of the
/// same mappings against the same root, no mapping is still installed, and
/// the destination of every mapping whose source existed is gone. The Remove
/// is never aborted.
pub proof fn lemma_round_trip(
    fs: FsModel,
    ms: Seq<MappingModel>,
    root: Seq<char>,
    home: Option<Seq<char>>,
    answers: Seq<bool>,
)
    requires
        sources_untouched(home, root, ms),
        dests_distinct(home, ms),
        install_rec(fs, ms, root, home, true, false, answers, 0).failure is None,
    ensures
        ({
            let r1 = install_rec(fs, ms, root, home, true, false, answers, 0);
            let r2 = remove_rec(r1.fs, ms, root, home);
            &&& r2.failure is None
            &&& forall|i: int|
                0 <= i < ms.len() ==> !is_actual_link_spec(
                    r2.fs,
                    (#[trigger] resolve_src_spec(home, root, ms[i]))->Some_0,
                    resolve_dest_spec(home, ms[i])->Some_0,
                )
            &&& forall|i: int|
                0 <= i < ms.len() ==> ((#[trigger] resolve_src_spec(home, root, ms[i]))
                    matches Some(s) ==> (fs.contains_key(s) ==> !r2.fs.contains_key(
                    resolve_dest_spec(home, ms[i])->Some_0,
                )))
        }),
{
    let r1 = install_rec(fs, ms, root, home, true, false, answers, 0);
    let r2 = remove_rec(r1.fs, ms, root, home);
    lemma_install_ok_resolutions(fs, ms, root, home, true, false, answers, 0);
    lemma_remove_no_failure(r1.fs, ms, root, home);
    lemma_remove_clears(r1.fs, ms, root, home);
    lemma_remove_rec_submap(r1.fs, ms, root, home);
    lemma_install_establishes(fs, ms, root, home, answers, 0);
    assert forall|i: int|
        0 <= i < ms.len() implies ((#[trigger] resolve_src_spec(home, root, ms[i]))
        matches Some(s) ==> (fs.contains_key(s) ==> !r2.fs.contains_key(
        resolve_dest_spec(home, ms[i])->Some_0,
    ))) by {
        if resolve_src_spec(home, root, ms[i]) is Some && fs.contains_key(
            resolve_src_spec(home, root, ms[i])->Some_0,
        ) {
            let s = resolve_src_spec(home, root, ms[i])->Some_0;
            let d = resolve_dest_spec(home, ms[i])->Some_0;
            assert(is_actual_link_spec(r1.fs, s, d));
            if r2.fs.contains_key(d) {
                assert(r2.fs[d] == r1.fs[d]);
                assert(is_actual_link_spec(r2.fs, s, d));
                assert(!is_actual_link_spec(
                    r2.fs,
                    resolve_src_spec(home, root, ms[i])->Some_0,
                    resolve_dest_spec(home, ms[i])->Some_0,
                ));
            }
        }
    }
}

} // verus!
