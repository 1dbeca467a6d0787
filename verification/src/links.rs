//! The link reconciliation engine.
//!
//! Given the declared mappings, the dotfiles root, the home directory and the
//! operation flags, the engine computes — against a value-level filesystem
//! state — the outcome of installing, removing or listing the declared
//! symlinks: the new state, one notice per reported event, and the filesystem
//! operations a caller must perform to realise the new state.
//!
//! Mappings are processed independently, in order. A path whose
//! home-directory placeholder cannot be resolved aborts the run at that
//! mapping; everything the run did up to that point is kept and reported.

use vstd::prelude::*;

use crate::config::Mapping;
use crate::config::MappingModel;
use crate::error::Error;
use crate::error::ErrorModel;
use crate::paths::expand_path;
use crate::paths::expand_spec;
use crate::paths::join_paths;
use crate::paths::join_spec;
use crate::paths::parent_path;
use crate::paths::parent_spec;
use crate::state::Entry;
use crate::state::Fs;
use vstd::string::StrSliceExecFns;
use vstd::string::StringExecFns;

verus! {

/// The view of a filesystem state: path to occupant, a symbolic link's
/// target for a symlink, `None` for any other entry.
pub type FsModel = Map<Seq<char>, Option<Seq<char>>>;

/// One reported event.
#[derive(Debug, Clone, PartialEq, Eq)]
pub enum Notice {
    /// The resolved source does not exist; the mapping was skipped.
    SourceMissing { src: String },
    /// A link from `dest` to `src` was created (or, on a dry run or a
    /// listing, reported).
    Link { src: String, dest: String },
    /// The operator declined to overwrite an existing destination.
    SkippingDest { dest: String },
    /// The link at `dest` was removed.
    Unlink { dest: String },
    /// `dest` is not a symlink to `src`, so it was left alone.
    NoMatch { dest: String, src: String },
}

/// The value of a [`Notice`].
pub enum NoticeModel {
    SourceMissing { src: Seq<char> },
    Link { src: Seq<char>, dest: Seq<char> },
    SkippingDest { dest: Seq<char> },
    Unlink { dest: Seq<char> },
    NoMatch { dest: Seq<char>, src: Seq<char> },
}

impl View for Notice {
    type V = NoticeModel;

    open spec fn view(&self) -> NoticeModel {
        match self {
            Notice::SourceMissing { src } => NoticeModel::SourceMissing { src: src@ },
            Notice::Link { src, dest } => NoticeModel::Link { src: src@, dest: dest@ },
            Notice::SkippingDest { dest } => NoticeModel::SkippingDest { dest: dest@ },
            Notice::Unlink { dest } => NoticeModel::Unlink { dest: dest@ },
            Notice::NoMatch { dest, src } => NoticeModel::NoMatch { dest: dest@, src: src@ },
        }
    }
}

impl DeepView for Notice {
    type V = NoticeModel;

    open spec fn deep_view(&self) -> NoticeModel {
        self@
    }
}

/// The console line a notice is reported with.
pub open spec fn notice_message_spec(n: NoticeModel) -> Seq<char> {
    match n {
        NoticeModel::SourceMissing { src } => "Source file "@ + src
            + " does not exist. Skipping."@,
        NoticeModel::Link { src, dest } => "Link: "@ + src + " -> "@ + dest,
        NoticeModel::SkippingDest { dest } => "Skipping "@ + dest,
        NoticeModel::Unlink { dest } => "Unlink: "@ + dest,
        NoticeModel::NoMatch { dest, src } => dest + " does not symlink to "@ + src
            + ". Skipping."@,
    }
}

impl Notice {
    /// The console line this notice is reported with.
    pub fn message(&self) -> (r: String)
        ensures
            r@ == notice_message_spec(self@),
    {
        match self {
            Notice::SourceMissing { src } => {
                let mut r = String::from_str("Source file ");
                r.append(src.as_str());
                r.append(" does not exist. Skipping.");
                proof {
                    assert(r@ =~= notice_message_spec(self@));
                }
                r
            },
            Notice::Link { src, dest } => {
                let mut r = String::from_str("Link: ");
                r.append(src.as_str());
                r.append(" -> ");
                r.append(dest.as_str());
                proof {
                    assert(r@ =~= notice_message_spec(self@));
                }
                r
            },
            Notice::SkippingDest { dest } => {
                let mut r = String::from_str("Skipping ");
                r.append(dest.as_str());
                proof {
                    assert(r@ =~= notice_message_spec(self@));
                }
                r
            },
            Notice::Unlink { dest } => {
                let mut r = String::from_str("Unlink: ");
                r.append(dest.as_str());
                proof {
                    assert(r@ =~= notice_message_spec(self@));
                }
                r
            },
            Notice::NoMatch { dest, src } => {
                let mut r = dest.clone();
                r.append(" does not symlink to ");
                r.append(src.as_str());
                r.append(". Skipping.");
                proof {
                    assert(r@ =~= notice_message_spec(self@));
                }
                r
            },
        }
    }
}

/// The question asked before an occupied destination is overwritten.
pub fn overwrite_prompt_message(dest: &String) -> (r: String)
    ensures
        r@ == "Destination file "@ + dest@ + " already exists. Do you want to overwrite it?"@,
{
    let mut r = String::from_str("Destination file ");
    r.append(dest.as_str());
    r.append(" already exists. Do you want to overwrite it?");
    proof {
        assert(r@ =~= "Destination file "@ + dest@
            + " already exists. Do you want to overwrite it?"@);
    }
    r
}

/// One filesystem operation a caller must perform.
#[derive(Debug, Clone, PartialEq, Eq)]
pub enum Action {
    /// Remove the entry at `dest`.
    RemoveEntry { dest: String },
    /// Create the directory `dir` and its missing ancestors.
    CreateDirAll { dir: String },
    /// Create a symbolic link at `dest` pointing to `src`.
    CreateSymlink { src: String, dest: String },
}

/// The value of an [`Action`].
pub enum ActionModel {
    RemoveEntry { dest: Seq<char> },
    CreateDirAll { dir: Seq<char> },
    CreateSymlink { src: Seq<char>, dest: Seq<char> },
}

impl View for Action {
    type V = ActionModel;

    open spec fn view(&self) -> ActionModel {
        match self {
            Action::RemoveEntry { dest } => ActionModel::RemoveEntry { dest: dest@ },
            Action::CreateDirAll { dir } => ActionModel::CreateDirAll { dir: dir@ },
            Action::CreateSymlink { src, dest } => ActionModel::CreateSymlink {
                src: src@,
                dest: dest@,
            },
        }
    }
}

impl DeepView for Action {
    type V = ActionModel;

    open spec fn deep_view(&self) -> ActionModel {
        self@
    }
}

/// A mapping's source, joined with the dotfiles root and expanded.
pub open spec fn resolve_src_spec(
    home: Option<Seq<char>>,
    root: Seq<char>,
    m: MappingModel,
) -> Option<Seq<char>> {
    expand_spec(home, join_spec(root, m.src))
}

/// A mapping's destination, expanded.
pub open spec fn resolve_dest_spec(home: Option<Seq<char>>, m: MappingModel) -> Option<
    Seq<char>,
> {
    expand_spec(home, m.dest)
}

/// The shared predicate behind Remove and List: `dest` holds a symbolic link
/// whose target is exactly `src`.
pub open spec fn is_actual_link_spec(fs: FsModel, src: Seq<char>, dest: Seq<char>) -> bool {
    fs.contains_key(dest) && fs[dest] == Some(src)
}

/// Whether `dest` currently holds a symbolic link pointing exactly at `src`.
pub fn is_actual_link(fs: &Fs, src: &String, dest: &String) -> (r: bool)
    ensures
        r == is_actual_link_spec(fs@, src@, dest@),
{
    fs.is_symlink_to(dest, src)
}

/// What processing one mapping did: the state afterwards, the notices and
/// actions it produced, whether it consumed a confirmation answer, and the
/// error that aborted it, if one did.
pub struct StepModel {
    pub fs: FsModel,
    pub notices: Seq<NoticeModel>,
    pub actions: Seq<ActionModel>,
    pub used_answer: bool,
    pub failure: Option<ErrorModel>,
}

/// Processing one mapping under Install. `answer` is the confirmation the
/// operator would give if asked; it is consumed (and `used_answer` set) only
/// when the destination exists, `force` is off and the run is not dry.
pub open spec fn install_step_spec(
    fs: FsModel,
    m: MappingModel,
    root: Seq<char>,
    home: Option<Seq<char>>,
    force: bool,
    dry_run: bool,
    answer: bool,
) -> StepModel {
    match resolve_src_spec(home, root, m) {
        None => StepModel {
            fs,
            notices: Seq::empty(),
            actions: Seq::empty(),
            used_answer: false,
            failure: Some(ErrorModel::FailedToExpandTilde(join_spec(root, m.src))),
        },
        Some(src) => match resolve_dest_spec(home, m) {
            None => StepModel {
                fs,
                notices: Seq::empty(),
                actions: Seq::empty(),
                used_answer: false,
                failure: Some(ErrorModel::FailedToExpandTilde(m.dest)),
            },
            Some(dest) => {
                if !fs.contains_key(src) {
                    StepModel {
                        fs,
                        notices: seq![NoticeModel::SourceMissing { src }],
                        actions: Seq::empty(),
                        used_answer: false,
                        failure: None,
                    }
                } else if dry_run {
                    StepModel {
                        fs,
                        notices: seq![NoticeModel::Link { src, dest }],
                        actions: Seq::empty(),
                        used_answer: false,
                        failure: None,
                    }
                } else {
                    let prompts = fs.contains_key(dest) && !force;
                    if prompts && !answer {
                        StepModel {
                            fs,
                            notices: seq![NoticeModel::SkippingDest { dest }],
                            actions: Seq::empty(),
                            used_answer: true,
                            failure: None,
                        }
                    } else {
                        let removed = if fs.contains_key(dest) {
                            fs.remove(dest)
                        } else {
                            fs
                        };
                        let racts = if fs.contains_key(dest) {
                            seq![ActionModel::RemoveEntry { dest }]
                        } else {
                            Seq::<ActionModel>::empty()
                        };
                        let made = install_mkdir_spec(removed, dest);
                        StepModel {
                            fs: made.0.insert(dest, Some(src)),
                            notices: seq![NoticeModel::Link { src, dest }],
                            actions: racts + made.1 + seq![
                                ActionModel::CreateSymlink { src, dest },
                            ],
                            used_answer: prompts,
                            failure: None,
                        }
                    }
                }
            },
        },
    }
}

/// Ensuring a destination's parent directory exists: when the parent is a
/// non-empty path with nothing at it, it is created.
pub open spec fn install_mkdir_spec(fs: FsModel, dest: Seq<char>) -> (
    FsModel,
    Seq<ActionModel>,
) {
    match parent_spec(dest) {
        Some(par) => {
            if par.len() > 0 && !fs.contains_key(par) {
                (fs.insert(par, None), seq![ActionModel::CreateDirAll { dir: par }])
            } else {
                (fs, Seq::<ActionModel>::empty())
            }
        },
        None => (fs, Seq::<ActionModel>::empty()),
    }
}

/// Processing one mapping under Remove: the destination is deleted exactly
/// when it is the symlink this mapping would have created.
pub open spec fn remove_step_spec(
    fs: FsModel,
    m: MappingModel,
    root: Seq<char>,
    home: Option<Seq<char>>,
) -> StepModel {
    match resolve_src_spec(home, root, m) {
        None => StepModel {
            fs,
            notices: Seq::empty(),
            actions: Seq::empty(),
            used_answer: false,
            failure: Some(ErrorModel::FailedToExpandTilde(join_spec(root, m.src))),
        },
        Some(src) => match resolve_dest_spec(home, m) {
            None => StepModel {
                fs,
                notices: Seq::empty(),
                actions: Seq::empty(),
                used_answer: false,
                failure: Some(ErrorModel::FailedToExpandTilde(m.dest)),
            },
            Some(dest) => {
                if is_actual_link_spec(fs, src, dest) {
                    StepModel {
                        fs: fs.remove(dest),
                        notices: seq![NoticeModel::Unlink { dest }],
                        actions: seq![ActionModel::RemoveEntry { dest }],
                        used_answer: false,
                        failure: None,
                    }
                } else {
                    StepModel {
                        fs,
                        notices: seq![NoticeModel::NoMatch { dest, src }],
                        actions: Seq::empty(),
                        used_answer: false,
                        failure: None,
                    }
                }
            },
        },
    }
}

/// Processing one mapping under List: installed mappings are reported, the
/// rest are passed over silently, and nothing is changed.
pub open spec fn list_step_spec(
    fs: FsModel,
    m: MappingModel,
    root: Seq<char>,
    home: Option<Seq<char>>,
) -> StepModel {
    match resolve_src_spec(home, root, m) {
        None => StepModel {
            fs,
            notices: Seq::empty(),
            actions: Seq::empty(),
            used_answer: false,
            failure: Some(ErrorModel::FailedToExpandTilde(join_spec(root, m.src))),
        },
        Some(src) => match resolve_dest_spec(home, m) {
            None => StepModel {
                fs,
                notices: Seq::empty(),
                actions: Seq::empty(),
                used_answer: false,
                failure: Some(ErrorModel::FailedToExpandTilde(m.dest)),
            },
            Some(dest) => {
                if is_actual_link_spec(fs, src, dest) {
                    StepModel {
                        fs,
                        notices: seq![NoticeModel::Link { src, dest }],
                        actions: Seq::empty(),
                        used_answer: false,
                        failure: None,
                    }
                } else {
                    StepModel {
                        fs,
                        notices: Seq::empty(),
                        actions: Seq::empty(),
                        used_answer: false,
                        failure: None,
                    }
                }
            },
        },
    }
}

/// The outcome of processing one mapping.
pub struct Step {
    pub fs: Fs,
    pub notices: Vec<Notice>,
    pub actions: Vec<Action>,
    pub used_answer: bool,
    pub failure: Option<Error>,
}

impl View for Step {
    type V = StepModel;

    open spec fn view(&self) -> StepModel {
        StepModel {
            fs: self.fs@,
            notices: self.notices.deep_view(),
            actions: self.actions.deep_view(),
            used_answer: self.used_answer,
            failure: self.failure.deep_view(),
        }
    }
}

/// Resolving both paths of a mapping; `Err` names the path that could not be
/// expanded.
fn resolve_mapping(m: &Mapping, dotfiles_dir: &String, home: &Option<String>) -> (r: Result<
    (String, String),
    Error,
>)
    ensures
        ({
            let src = resolve_src_spec(home.deep_view(), dotfiles_dir@, m@);
            let dest = resolve_dest_spec(home.deep_view(), m@);
            match r {
                Ok(sd) => src == Some(sd.0@) && dest == Some(sd.1@),
                Err(e) => if src is None {
                    e@ == ErrorModel::FailedToExpandTilde(join_spec(dotfiles_dir@, m@.src))
                } else {
                    dest is None && e@ == ErrorModel::FailedToExpandTilde(m@.dest)
                },
            }
        }),
{
    let joined = join_paths(dotfiles_dir, &m.src);
    let src = match expand_path(home, &joined) {
        Some(s) => s,
        None => {
            return Err(Error::FailedToExpandTilde(joined));
        },
    };
    let dest = match expand_path(home, &m.dest) {
        Some(d) => d,
        None => {
            return Err(Error::FailedToExpandTilde(m.dest.clone()));
        },
    };
    Ok((src, dest))
}

/// One Install step. `answer` stands for the operator's reply to the
/// overwrite prompt; it is consulted only when the step prompts.
pub fn install_step(
    fs: Fs,
    m: &Mapping,
    dotfiles_dir: &String,
    home: &Option<String>,
    force: bool,
    dry_run: bool,
    answer: bool,
) -> (r: Step)
    ensures
        r@ == install_step_spec(
            fs@,
            m@,
            dotfiles_dir@,
            home.deep_view(),
            force,
            dry_run,
            answer,
        ),
{
    let ghost fs0 = fs@;
    let (src, dest) = match resolve_mapping(m, dotfiles_dir, home) {
        Ok(sd) => sd,
        Err(e) => {
            let r = Step {
                fs,
                notices: Vec::new(),
                actions: Vec::new(),
                used_answer: false,
                failure: Some(e),
            };
            proof {
                assert(r@.notices =~= Seq::<NoticeModel>::empty());
                assert(r@.actions =~= Seq::<ActionModel>::empty());
            }
            return r;
        },
    };
    if !fs.contains_path(&src) {
        let r = Step {
            fs,
            notices: vec![Notice::SourceMissing { src }],
            actions: Vec::new(),
            used_answer: false,
            failure: None,
        };
        proof {
            assert(r@.notices =~= install_step_spec(
                fs0,
                m@,
                dotfiles_dir@,
                home.deep_view(),
                force,
                dry_run,
                answer,
            ).notices);
            assert(r@.actions =~= Seq::<ActionModel>::empty());
        }
        return r;
    }
    if dry_run {
        let r = Step {
            fs,
            notices: vec![Notice::Link { src, dest }],
            actions: Vec::new(),
            used_answer: false,
            failure: None,
        };
        proof {
            assert(r@.notices =~= install_step_spec(
                fs0,
                m@,
                dotfiles_dir@,
                home.deep_view(),
                force,
                dry_run,
                answer,
            ).notices);
            assert(r@.actions =~= Seq::<ActionModel>::empty());
        }
        return r;
    }
    let dest_exists = fs.contains_path(&dest);
    let prompts = dest_exists && !force;
    if prompts && !answer {
        let r = Step {
            fs,
            notices: vec![Notice::SkippingDest { dest }],
            actions: Vec::new(),
            used_answer: true,
            failure: None,
        };
        proof {
            assert(r@.notices =~= install_step_spec(
                fs0,
                m@,
                dotfiles_dir@,
                home.deep_view(),
                force,
                dry_run,
                answer,
            ).notices);
            assert(r@.actions =~= Seq::<ActionModel>::empty());
        }
        return r;
    }
    let mut actions: Vec<Action> = Vec::new();
    let removed = if dest_exists {
        actions.push(Action::RemoveEntry { dest: dest.clone() });
        fs.remove_path(&dest)
    } else {
        fs
    };
    let ghost racts = if fs0.contains_key(dest@) {
        seq![ActionModel::RemoveEntry { dest: dest@ }]
    } else {
        Seq::<ActionModel>::empty()
    };
    proof {
        assert(actions.deep_view() =~= racts);
    }
    let made = match parent_path(&dest) {
        Some(par) => {
            if par.as_str().unicode_len() > 0 && !removed.contains_path(&par) {
                actions.push(Action::CreateDirAll { dir: par.clone() });
                removed.set_entry(par, Entry::Other)
            } else {
                removed
            }
        },
        None => removed,
    };
    proof {
        assert(made@ == install_mkdir_spec(fs0.remove(dest@), dest@).0 || (!fs0.contains_key(
            dest@,
        ) && made@ == install_mkdir_spec(fs0, dest@).0));
        assert(actions.deep_view() =~= racts + install_mkdir_spec(
            if fs0.contains_key(dest@) {
                fs0.remove(dest@)
            } else {
                fs0
            },
            dest@,
        ).1);
    }
    let linked = made.set_entry(dest.clone(), Entry::Symlink { target: src.clone() });
    actions.push(Action::CreateSymlink { src: src.clone(), dest: dest.clone() });
    let r = Step {
        fs: linked,
        notices: vec![Notice::Link { src, dest }],
        actions,
        used_answer: prompts,
        failure: None,
    };
    proof {
        let st = install_step_spec(
            fs0,
            m@,
            dotfiles_dir@,
            home.deep_view(),
            force,
            dry_run,
            answer,
        );
        assert(r@.notices =~= st.notices);
        assert(r@.actions =~= st.actions);
    }
    r
}

/// One Remove step.
pub fn remove_step(fs: Fs, m: &Mapping, dotfiles_dir: &String, home: &Option<String>) -> (r:
    Step)
    ensures
        r@ == remove_step_spec(fs@, m@, dotfiles_dir@, home.deep_view()),
{
    let ghost fs0 = fs@;
    let (src, dest) = match resolve_mapping(m, dotfiles_dir, home) {
        Ok(sd) => sd,
        Err(e) => {
            let r = Step {
                fs,
                notices: Vec::new(),
                actions: Vec::new(),
                used_answer: false,
                failure: Some(e),
            };
            proof {
                assert(r@.notices =~= Seq::<NoticeModel>::empty());
                assert(r@.actions =~= Seq::<ActionModel>::empty());
            }
            return r;
        },
    };
    if is_actual_link(&fs, &src, &dest) {
        let removed = fs.remove_path(&dest);
        let r = Step {
            fs: removed,
            notices: vec![Notice::Unlink { dest: dest.clone() }],
            actions: vec![Action::RemoveEntry { dest }],
            used_answer: false,
            failure: None,
        };
        proof {
            let st = remove_step_spec(fs0, m@, dotfiles_dir@, home.deep_view());
            assert(r@.notices =~= st.notices);
            assert(r@.actions =~= st.actions);
        }
        r
    } else {
        let r = Step {
            fs,
            notices: vec![Notice::NoMatch { dest, src }],
            actions: Vec::new(),
            used_answer: false,
            failure: None,
        };
        proof {
            let st = remove_step_spec(fs0, m@, dotfiles_dir@, home.deep_view());
            assert(r@.notices =~= st.notices);
            assert(r@.actions =~= Seq::<ActionModel>::empty());
        }
        r
    }
}

/// One List step.
pub fn list_step(fs: Fs, m: &Mapping, dotfiles_dir: &String, home: &Option<String>) -> (r:
    Step)
    ensures
        r@ == list_step_spec(fs@, m@, dotfiles_dir@, home.deep_view()),
{
    let ghost fs0 = fs@;
    let (src, dest) = match resolve_mapping(m, dotfiles_dir, home) {
        Ok(sd) => sd,
        Err(e) => {
            let r = Step {
                fs,
                notices: Vec::new(),
                actions: Vec::new(),
                used_answer: false,
                failure: Some(e),
            };
            proof {
                assert(r@.notices =~= Seq::<NoticeModel>::empty());
                assert(r@.actions =~= Seq::<ActionModel>::empty());
            }
            return r;
        },
    };
    if is_actual_link(&fs, &src, &dest) {
        let r = Step {
            fs,
            notices: vec![Notice::Link { src, dest }],
            actions: Vec::new(),
            used_answer: false,
            failure: None,
        };
        proof {
            let st = list_step_spec(fs0, m@, dotfiles_dir@, home.deep_view());
            assert(r@.notices =~= st.notices);
            assert(r@.actions =~= Seq::<ActionModel>::empty());
        }
        r
    } else {
        let r = Step {
            fs,
            notices: Vec::new(),
            actions: Vec::new(),
            used_answer: false,
            failure: None,
        };
        proof {
            assert(r@.notices =~= Seq::<NoticeModel>::empty());
            assert(r@.actions =~= Seq::<ActionModel>::empty());
        }
        r
    }
}

/// The confirmation consumed at position `i`: answers past the end of the
/// supplied sequence stand for a refusal, as a prompt that cannot be answered
/// declines.
pub open spec fn answer_at(answers: Seq<bool>, i: int) -> bool {
    if 0 <= i < answers.len() {
        answers[i]
    } else {
        false
    }
}

/// What a whole run did: the state afterwards, every notice and action in
/// order, the error that aborted it (if one did, everything before it kept),
/// and how many confirmation answers it consumed.
pub struct RunModel {
    pub fs: FsModel,
    pub notices: Seq<NoticeModel>,
    pub actions: Seq<ActionModel>,
    pub failure: Option<ErrorModel>,
    pub answers_used: int,
}

/// Install over the mappings from position `ai` of the answer sequence on.
pub open spec fn install_rec(
    fs: FsModel,
    ms: Seq<MappingModel>,
    root: Seq<char>,
    home: Option<Seq<char>>,
    force: bool,
    dry_run: bool,
    answers: Seq<bool>,
    ai: int,
) -> RunModel
    decreases ms.len(),
{
    if ms.len() == 0 {
        RunModel {
            fs,
            notices: Seq::empty(),
            actions: Seq::empty(),
            failure: None,
            answers_used: ai,
        }
    } else {
        let st = install_step_spec(fs, ms[0], root, home, force, dry_run, answer_at(answers, ai));
        if st.failure is Some {
            RunModel {
                fs,
                notices: Seq::empty(),
                actions: Seq::empty(),
                failure: st.failure,
                answers_used: ai,
            }
        } else {
            let ai1 = ai + if st.used_answer {
                1int
            } else {
                0int
            };
            let rest = install_rec(st.fs, ms.drop_first(), root, home, force, dry_run, answers, ai1);
            RunModel {
                fs: rest.fs,
                notices: st.notices + rest.notices,
                actions: st.actions + rest.actions,
                failure: rest.failure,
                answers_used: rest.answers_used,
            }
        }
    }
}

/// Remove over the mappings.
pub open spec fn remove_rec(
    fs: FsModel,
    ms: Seq<MappingModel>,
    root: Seq<char>,
    home: Option<Seq<char>>,
) -> RunModel
    decreases ms.len(),
{
    if ms.len() == 0 {
        RunModel {
            fs,
            notices: Seq::empty(),
            actions: Seq::empty(),
            failure: None,
            answers_used: 0,
        }
    } else {
        let st = remove_step_spec(fs, ms[0], root, home);
        if st.failure is Some {
            RunModel {
                fs,
                notices: Seq::empty(),
                actions: Seq::empty(),
                failure: st.failure,
                answers_used: 0,
            }
        } else {
            let rest = remove_rec(st.fs, ms.drop_first(), root, home);
            RunModel {
                fs: rest.fs,
                notices: st.notices + rest.notices,
                actions: st.actions + rest.actions,
                failure: rest.failure,
                answers_used: 0,
            }
        }
    }
}

/// List over the mappings.
pub open spec fn list_rec(
    fs: FsModel,
    ms: Seq<MappingModel>,
    root: Seq<char>,
    home: Option<Seq<char>>,
) -> RunModel
    decreases ms.len(),
{
    if ms.len() == 0 {
        RunModel {
            fs,
            notices: Seq::empty(),
            actions: Seq::empty(),
            failure: None,
            answers_used: 0,
        }
    } else {
        let st = list_step_spec(fs, ms[0], root, home);
        if st.failure is Some {
            RunModel {
                fs,
                notices: Seq::empty(),
                actions: Seq::empty(),
                failure: st.failure,
                answers_used: 0,
            }
        } else {
            let rest = list_rec(st.fs, ms.drop_first(), root, home);
            RunModel {
                fs: rest.fs,
                notices: st.notices + rest.notices,
                actions: st.actions + rest.actions,
                failure: rest.failure,
                answers_used: 0,
            }
        }
    }
}

/// The outcome of a whole run.
pub struct Run {
    pub fs: Fs,
    pub notices: Vec<Notice>,
    pub actions: Vec<Action>,
    pub failure: Option<Error>,
    pub answers_used: usize,
}

impl View for Run {
    type V = RunModel;

    open spec fn view(&self) -> RunModel {
        RunModel {
            fs: self.fs@,
            notices: self.notices.deep_view(),
            actions: self.actions.deep_view(),
            failure: self.failure.deep_view(),
            answers_used: self.answers_used as int,
        }
    }
}

fn install_from(
    fs: Fs,
    mappings: &Vec<Mapping>,
    i: usize,
    dotfiles_dir: &String,
    home: &Option<String>,
    force: bool,
    dry_run: bool,
    answers: &Vec<bool>,
    ai: usize,
) -> (r: Run)
    requires
        i <= mappings@.len(),
        ai <= i,
    ensures
        r@ == install_rec(
            fs@,
            mappings.deep_view().skip(i as int),
            dotfiles_dir@,
            home.deep_view(),
            force,
            dry_run,
            answers@,
            ai as int,
        ),
    decreases mappings@.len() - i,
{
    let ghost ms = mappings.deep_view().skip(i as int);
    if i == mappings.len() {
        let r = Run {
            fs,
            notices: Vec::new(),
            actions: Vec::new(),
            failure: None,
            answers_used: ai,
        };
        proof {
            assert(ms =~= Seq::<MappingModel>::empty());
            assert(r@.notices =~= Seq::<NoticeModel>::empty());
            assert(r@.actions =~= Seq::<ActionModel>::empty());
        }
        return r;
    }
    let answer = if ai < answers.len() {
        answers[ai]
    } else {
        false
    };
    let ghost fs0 = fs@;
    let st = install_step(fs, &mappings[i], dotfiles_dir, home, force, dry_run, answer);
    proof {
        assert(ms[0] == mappings.deep_view()[i as int]);
        assert(answer == answer_at(answers@, ai as int));
    }
    match st.failure {
        Some(e) => {
            let r = Run {
                fs: st.fs,
                notices: Vec::new(),
                actions: Vec::new(),
                failure: Some(e),
                answers_used: ai,
            };
            proof {
                assert(st@.fs == fs0);
                assert(r@.notices =~= Seq::<NoticeModel>::empty());
                assert(r@.actions =~= Seq::<ActionModel>::empty());
            }
            return r;
        },
        None => {
        },
    }
    let ai1 = if st.used_answer {
        ai + 1
    } else {
        ai
    };
    let mut rest = install_from(
        st.fs,
        mappings,
        i + 1,
        dotfiles_dir,
        home,
        force,
        dry_run,
        answers,
        ai1,
    );
    proof {
        assert(ms.drop_first() =~= mappings.deep_view().skip(i + 1));
    }
    let mut notices = st.notices;
    let mut actions = st.actions;
    notices.append(&mut rest.notices);
    actions.append(&mut rest.actions);
    let r = Run {
        fs: rest.fs,
        notices,
        actions,
        failure: rest.failure,
        answers_used: rest.answers_used,
    };
    proof {
        let total = install_rec(
            fs0,
            ms,
            dotfiles_dir@,
            home.deep_view(),
            force,
            dry_run,
            answers@,
            ai as int,
        );
        assert(r@.notices =~= total.notices);
        assert(r@.actions =~= total.actions);
    }
    r
}

/// Install: for each mapping in order, resolve both paths (aborting the run
/// on an expansion failure), skip it with a notice when the resolved source
/// does not exist, on a dry run only report the link, otherwise clear an
/// existing destination (asking first unless `force` is set, a declined or
/// unanswerable prompt skipping the mapping), ensure the destination's
/// parent directory exists, and record the link. Answers are consumed from
/// `answers` in prompt order.
pub fn install(
    fs: Fs,
    mappings: &Vec<Mapping>,
    dotfiles_dir: &String,
    home: &Option<String>,
    force: bool,
    dry_run: bool,
    answers: &Vec<bool>,
) -> (r: Run)
    ensures
        r@ == install_rec(
            fs@,
            mappings.deep_view(),
            dotfiles_dir@,
            home.deep_view(),
            force,
            dry_run,
            answers@,
            0,
        ),
{
    let r = install_from(fs, mappings, 0, dotfiles_dir, home, force, dry_run, answers, 0);
    proof {
        assert(mappings.deep_view().skip(0) =~= mappings.deep_view());
    }
    r
}

fn remove_from(
    fs: Fs,
    mappings: &Vec<Mapping>,
    i: usize,
    dotfiles_dir: &String,
    home: &Option<String>,
) -> (r: Run)
    requires
        i <= mappings@.len(),
    ensures
        r@ == remove_rec(
            fs@,
            mappings.deep_view().skip(i as int),
            dotfiles_dir@,
            home.deep_view(),
        ),
    decreases mappings@.len() - i,
{
    let ghost ms = mappings.deep_view().skip(i as int);
    if i == mappings.len() {
        let r = Run {
            fs,
            notices: Vec::new(),
            actions: Vec::new(),
            failure: None,
            answers_used: 0,
        };
        proof {
            assert(ms =~= Seq::<MappingModel>::empty());
            assert(r@.notices =~= Seq::<NoticeModel>::empty());
            assert(r@.actions =~= Seq::<ActionModel>::empty());
        }
        return r;
    }
    let ghost fs0 = fs@;
    let st = remove_step(fs, &mappings[i], dotfiles_dir, home);
    proof {
        assert(ms[0] == mappings.deep_view()[i as int]);
    }
    match st.failure {
        Some(e) => {
            let r = Run {
                fs: st.fs,
                notices: Vec::new(),
                actions: Vec::new(),
                failure: Some(e),
                answers_used: 0,
            };
            proof {
                assert(st@.fs == fs0);
                assert(r@.notices =~= Seq::<NoticeModel>::empty());
                assert(r@.actions =~= Seq::<ActionModel>::empty());
            }
            return r;
        },
        None => {
        },
    }
    let mut rest = remove_from(st.fs, mappings, i + 1, dotfiles_dir, home);
    proof {
        assert(ms.drop_first() =~= mappings.deep_view().skip(i + 1));
    }
    let mut notices = st.notices;
    let mut actions = st.actions;
    notices.append(&mut rest.notices);
    actions.append(&mut rest.actions);
    let r = Run {
        fs: rest.fs,
        notices,
        actions,
        failure: rest.failure,
        answers_used: 0,
    };
    proof {
        let total = remove_rec(fs0, ms, dotfiles_dir@, home.deep_view());
        assert(r@.notices =~= total.notices);
        assert(r@.actions =~= total.actions);
    }
    r
}

/// Remove: for each mapping in order, resolve both paths (aborting the run
/// on an expansion failure) and delete the destination exactly when it is
/// the symlink this mapping would have created, reporting a skip otherwise.
pub fn remove(fs: Fs, mappings: &Vec<Mapping>, dotfiles_dir: &String, home: &Option<String>) -> (r:
    Run)
    ensures
        r@ == remove_rec(fs@, mappings.deep_view(), dotfiles_dir@, home.deep_view()),
{
    let r = remove_from(fs, mappings, 0, dotfiles_dir, home);
    proof {
        assert(mappings.deep_view().skip(0) =~= mappings.deep_view());
    }
    r
}

fn list_from(
    fs: Fs,
    mappings: &Vec<Mapping>,
    i: usize,
    dotfiles_dir: &String,
    home: &Option<String>,
) -> (r: Run)
    requires
        i <= mappings@.len(),
    ensures
        r@ == list_rec(
            fs@,
            mappings.deep_view().skip(i as int),
            dotfiles_dir@,
            home.deep_view(),
        ),
    decreases mappings@.len() - i,
{
    let ghost ms = mappings.deep_view().skip(i as int);
    if i == mappings.len() {
        let r = Run {
            fs,
            notices: Vec::new(),
            actions: Vec::new(),
            failure: None,
            answers_used: 0,
        };
        proof {
            assert(ms =~= Seq::<MappingModel>::empty());
            assert(r@.notices =~= Seq::<NoticeModel>::empty());
            assert(r@.actions =~= Seq::<ActionModel>::empty());
        }
        return r;
    }
    let ghost fs0 = fs@;
    let st = list_step(fs, &mappings[i], dotfiles_dir, home);
    proof {
        assert(ms[0] == mappings.deep_view()[i as int]);
    }
    match st.failure {
        Some(e) => {
            let r = Run {
                fs: st.fs,
                notices: Vec::new(),
                actions: Vec::new(),
                failure: Some(e),
                answers_used: 0,
            };
            proof {
                assert(st@.fs == fs0);
                assert(r@.notices =~= Seq::<NoticeModel>::empty());
                assert(r@.actions =~= Seq::<ActionModel>::empty());
            }
            return r;
        },
        None => {
        },
    }
    let mut rest = list_from(st.fs, mappings, i + 1, dotfiles_dir, home);
    proof {
        assert(ms.drop_first() =~= mappings.deep_view().skip(i + 1));
    }
    let mut notices = st.notices;
    let mut actions = st.actions;
    notices.append(&mut rest.notices);
    actions.append(&mut rest.actions);
    let r = Run {
        fs: rest.fs,
        notices,
        actions,
        failure: rest.failure,
        answers_used: 0,
    };
    proof {
        let total = list_rec(fs0, ms, dotfiles_dir@, home.deep_view());
        assert(r@.notices =~= total.notices);
        assert(r@.actions =~= total.actions);
    }
    r
}

/// List: report, without changing anything, each mapping whose destination
/// currently is the symlink it declares; resolution failures abort as under
/// Install and Remove.
pub fn list(fs: Fs, mappings: &Vec<Mapping>, dotfiles_dir: &String, home: &Option<String>) -> (r:
    Run)
    ensures
        r@ == list_rec(fs@, mappings.deep_view(), dotfiles_dir@, home.deep_view()),
{
    let r = list_from(fs, mappings, 0, dotfiles_dir, home);
    proof {
        assert(mappings.deep_view().skip(0) =~= mappings.deep_view());
    }
    r
}

/// Whether an Install step for this mapping would ask for confirmation, and
/// for which destination: it does exactly when both paths resolve, the
/// resolved source exists, the run is not dry, something occupies the
/// resolved destination and `force` is off.
pub open spec fn prompt_spec(
    fs: FsModel,
    m: MappingModel,
    root: Seq<char>,
    home: Option<Seq<char>>,
    force: bool,
    dry_run: bool,
) -> Option<Seq<char>> {
    match resolve_src_spec(home, root, m) {
        None => None,
        Some(src) => match resolve_dest_spec(home, m) {
            None => None,
            Some(dest) => {
                if fs.contains_key(src) && !dry_run && fs.contains_key(dest) && !force {
                    Some(dest)
                } else {
                    None
                }
            },
        },
    }
}

/// The destination an Install step for `m` would ask to overwrite, when it
/// would ask at all. The step consumes a confirmation answer exactly when
/// this returns one.
pub fn install_prompt(
    fs: &Fs,
    m: &Mapping,
    dotfiles_dir: &String,
    home: &Option<String>,
    force: bool,
    dry_run: bool,
) -> (r: Option<String>)
    ensures
        r.deep_view() == prompt_spec(fs@, m@, dotfiles_dir@, home.deep_view(), force, dry_run),
        forall|answer: bool|
            (#[trigger] install_step_spec(
                fs@,
                m@,
                dotfiles_dir@,
                home.deep_view(),
                force,
                dry_run,
                answer,
            )).used_answer == r is Some,
{
    let (src, dest) = match resolve_mapping(m, dotfiles_dir, home) {
        Ok(sd) => sd,
        Err(_) => {
            return None;
        },
    };
    if fs.contains_path(&src) && !dry_run && fs.contains_path(&dest) && !force {
        Some(dest)
    } else {
        None
    }
}

} // verus!
