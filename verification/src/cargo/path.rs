//! Qualified paths: paths that know what they are relative to.
//!
//! Files that Cargo and build scripts write hold absolute paths that are
//! semantically relative, to the profile directory or to `$CARGO_HOME`. A
//! qualified path recognises these, so that it can be written down again for
//! another machine where the two directories lie elsewhere.

use vstd::hash_set::StringHashSet;
use vstd::prelude::*;
use vstd::string::*;

use crate::cargo::rustc::RustcTarget;
use crate::cargo::workspace::{UnitPlanInfo, Workspace};
use crate::path;
use crate::path::{AbsDirPath, AbsFilePath, RelFilePath};
use crate::text;

verus! {

/// A qualified path inside a Cargo project.
#[derive(Debug)]
pub enum QualifiedPath {
    /// A path that was written as relative, and is kept as it is.
    Rootless(RelFilePath),
    /// A path relative to the profile directory.
    RelativeTargetProfile(RelFilePath),
    /// A path relative to `$CARGO_HOME`.
    RelativeCargoHome(RelFilePath),
    /// An absolute path that is relative to no known root.
    Absolute(AbsFilePath),
}

/// A [`QualifiedPath`] in terms of characters.
pub enum QualifiedPathView {
    Rootless(Seq<char>),
    RelativeTargetProfile(Seq<char>),
    RelativeCargoHome(Seq<char>),
    Absolute(Seq<char>),
}

impl View for QualifiedPath {
    type V = QualifiedPathView;

    open spec fn view(&self) -> QualifiedPathView {
        match self {
            QualifiedPath::Rootless(p) => QualifiedPathView::Rootless(p@),
            QualifiedPath::RelativeTargetProfile(p) => QualifiedPathView::RelativeTargetProfile(p@),
            QualifiedPath::RelativeCargoHome(p) => QualifiedPathView::RelativeCargoHome(p@),
            QualifiedPath::Absolute(p) => QualifiedPathView::Absolute(p@),
        }
    }
}

impl Clone for QualifiedPath {
    fn clone(&self) -> (r: Self)
        ensures
            r == *self,
    {
        match self {
            QualifiedPath::Rootless(p) => QualifiedPath::Rootless(p.clone()),
            QualifiedPath::RelativeTargetProfile(p) => {
                QualifiedPath::RelativeTargetProfile(p.clone())
            },
            QualifiedPath::RelativeCargoHome(p) => QualifiedPath::RelativeCargoHome(p.clone()),
            QualifiedPath::Absolute(p) => QualifiedPath::Absolute(p.clone()),
        }
    }
}

/// The two directories that qualified paths are relative to.
pub struct Roots {
    /// The profile directory.
    pub profile: Seq<char>,
    /// `$CARGO_HOME`.
    pub cargo_home: Seq<char>,
}

impl Workspace {
    /// The roots for what is built for a platform.
    pub open spec fn roots(&self, target: Option<Seq<char>>) -> Roots {
        Roots { profile: self.spec_arch_profile_dir(target), cargo_home: self.cargo_home@ }
    }
}

/// The qualified path of an absolute path.
pub open spec fn qualify_abs(roots: Roots, p: Seq<char>) -> QualifiedPathView {
    match path::below(roots.profile, p) {
        Some(rel) => QualifiedPathView::RelativeTargetProfile(rel),
        None => match path::below(roots.cargo_home, p) {
            Some(rel) => QualifiedPathView::RelativeCargoHome(rel),
            None => QualifiedPathView::Absolute(p),
        },
    }
}

/// The qualified path of a path, where `existing` holds the paths that there are
/// on disk.
pub open spec fn qualify(
    roots: Roots,
    existing: Set<Seq<char>>,
    p: Seq<char>,
) -> QualifiedPathView {
    if path::is_abs(p) {
        qualify_abs(roots, p)
    } else if existing.contains(path::join(roots.profile, p)) {
        QualifiedPathView::RelativeTargetProfile(p)
    } else if existing.contains(path::join(roots.cargo_home, p)) {
        QualifiedPathView::RelativeCargoHome(p)
    } else {
        QualifiedPathView::Rootless(p)
    }
}

/// A qualified path written down for the given roots.
pub open spec fn placed(roots: Roots, q: QualifiedPathView) -> Seq<char> {
    match q {
        QualifiedPathView::Rootless(rel) => rel,
        QualifiedPathView::RelativeTargetProfile(rel) => path::join(roots.profile, rel),
        QualifiedPathView::RelativeCargoHome(rel) => path::join(roots.cargo_home, rel),
        QualifiedPathView::Absolute(abs) => abs,
    }
}

/// The paths, of those that were asked about, that there are on disk.
pub struct Existing {
    paths: StringHashSet,
}

impl View for Existing {
    type V = Set<Seq<char>>;

    closed spec fn view(&self) -> Set<Seq<char>> {
        self.paths@
    }
}

impl Existing {
    /// No path.
    pub fn new() -> (r: Existing)
        ensures
            r@ == Set::<Seq<char>>::empty(),
    {
        Existing { paths: StringHashSet::new() }
    }

    /// Adds a path.
    pub fn insert(&mut self, p: &AbsFilePath)
        ensures
            final(self)@ == old(self)@.insert(p@),
    {
        self.paths.insert(text::copy(p.as_str()));
    }

    /// Whether a path is there.
    pub fn contains(&self, p: &AbsFilePath) -> (r: bool)
        ensures
            r == self@.contains(p@),
    {
        self.paths.contains(p.as_str())
    }
}

impl QualifiedPath {
    /// The paths of which `parse` needs to know whether they exist: those that a
    /// relative path names below the two roots.
    pub fn candidates(ws: &Workspace, target: &RustcTarget, p: &str) -> (r: Vec<AbsFilePath>)
        ensures
            path::is_abs(p@) ==> r@.len() == 0,
            !path::is_abs(p@) ==> {
                &&& r@.len() == 2
                &&& r@[0]@ == path::join(ws.roots(target@).profile, p@)
                &&& r@[1]@ == path::join(ws.roots(target@).cargo_home, p@)
            },
    {
        let mut r: Vec<AbsFilePath> = Vec::new();
        if let Ok(rel) = RelFilePath::new(p) {
            r.push(ws.arch_profile_dir(target).join_file(&rel));
            r.push(ws.cargo_home.join_file(&rel));
        }
        r
    }

    /// Qualifies a path.
    pub fn parse(ws: &Workspace, target: &RustcTarget, existing: &Existing, p: &str) -> (r: Self)
        ensures
            r@ == qualify(ws.roots(target@), existing@, p@),
    {
        match AbsFilePath::new(p) {
            Ok(abs) => Self::parse_abs(ws, target, &abs),
            Err(_) => {
                let rel = RelFilePath::known(p);
                if existing.contains(&ws.arch_profile_dir(target).join_file(&rel)) {
                    QualifiedPath::RelativeTargetProfile(rel)
                } else if existing.contains(&ws.cargo_home.join_file(&rel)) {
                    QualifiedPath::RelativeCargoHome(rel)
                } else {
                    QualifiedPath::Rootless(rel)
                }
            },
        }
    }

    /// Qualifies an absolute path.
    pub fn parse_abs(ws: &Workspace, target: &RustcTarget, p: &AbsFilePath) -> (r: Self)
        ensures
            r@ == qualify_abs(ws.roots(target@), p@),
    {
        let profile_dir = ws.arch_profile_dir(target);
        if let Some(rel) = p.relative_to(&profile_dir) {
            QualifiedPath::RelativeTargetProfile(rel)
        } else if let Some(rel) = p.relative_to(&ws.cargo_home) {
            QualifiedPath::RelativeCargoHome(rel)
        } else {
            QualifiedPath::Absolute(p.clone())
        }
    }

    /// The text of the path on this machine.
    pub fn reconstruct_string(&self, ws: &Workspace, target: &RustcTarget) -> (r: String)
        ensures
            r@ == placed(ws.roots(target@), self@),
    {
        self.reconstruct_inner(&ws.arch_profile_dir(target), &ws.cargo_home)
    }

    /// The text of the path on this machine, for a file of a unit.
    pub fn reconstruct(&self, ws: &Workspace, unit_info: &UnitPlanInfo) -> (r: String)
        ensures
            r@ == placed(ws.roots(unit_info.target_arch@), self@),
    {
        self.reconstruct_inner(&ws.unit_profile_dir(unit_info), &ws.cargo_home)
    }

    /// The text of the path with the given roots.
    pub fn reconstruct_inner(&self, profile_dir: &AbsDirPath, cargo_home: &AbsDirPath) -> (r: String)
        ensures
            r@ == placed(Roots { profile: profile_dir@, cargo_home: cargo_home@ }, self@),
    {
        match self {
            QualifiedPath::Rootless(rel) => text::copy(rel.as_str()),
            QualifiedPath::RelativeTargetProfile(rel) => {
                text::copy(profile_dir.join_file(rel).as_str())
            },
            QualifiedPath::RelativeCargoHome(rel) => text::copy(cargo_home.join_file(rel).as_str()),
            QualifiedPath::Absolute(abs) => text::copy(abs.as_str()),
        }
    }
}

/// Whether a path is written down again as it was, when the roots are the same:
/// it is relative and not found below a root, or absolute and outside of both
/// roots, or a clean path put inside the first root that holds it.
pub open spec fn is_stable(roots: Roots, existing: Set<Seq<char>>, p: Seq<char>) -> bool {
    match qualify(roots, existing, p) {
        QualifiedPathView::Rootless(_) => true,
        QualifiedPathView::Absolute(_) => true,
        QualifiedPathView::RelativeTargetProfile(rel) => path::is_abs(p) && p == path::join(
            roots.profile,
            rel,
        ),
        QualifiedPathView::RelativeCargoHome(rel) => path::is_abs(p) && p == path::join(
            roots.cargo_home,
            rel,
        ),
    }
}

/// A stable path is written down again as it was on the machine where it was
/// read.
pub proof fn law_stable_path_round_trips(roots: Roots, existing: Set<Seq<char>>, p: Seq<char>)
    requires
        is_stable(roots, existing, p),
    ensures
        placed(roots, qualify(roots, existing, p)) == p,
{
}

/// A clean path inside the profile directory is stable.
pub proof fn law_profile_path_is_stable(roots: Roots, existing: Set<Seq<char>>, rel: Seq<char>)
    requires
        path::is_clean(rel),
        path::is_abs(roots.profile),
    ensures
        is_stable(roots, existing, path::join(roots.profile, rel)),
        qualify(roots, existing, path::join(roots.profile, rel))
            == QualifiedPathView::RelativeTargetProfile(rel),
{
    path::lemma_below_join(roots.profile, rel);
    assert(path::join(roots.profile, rel)[0] == roots.profile[0]);
}

/// A clean path inside `$CARGO_HOME`, and outside of the profile directory, is
/// stable.
pub proof fn law_cargo_home_path_is_stable(roots: Roots, existing: Set<Seq<char>>, rel: Seq<char>)
    requires
        path::is_clean(rel),
        path::is_abs(roots.cargo_home),
        path::below(roots.profile, path::join(roots.cargo_home, rel)) is None,
    ensures
        is_stable(roots, existing, path::join(roots.cargo_home, rel)),
        qualify(roots, existing, path::join(roots.cargo_home, rel))
            == QualifiedPathView::RelativeCargoHome(rel),
{
    path::lemma_below_join(roots.cargo_home, rel);
    assert(path::join(roots.cargo_home, rel)[0] == roots.cargo_home[0]);
}

/// A path inside the profile directory of one machine is written down inside the
/// profile directory of another, and read there as the same qualified path.
pub proof fn law_profile_path_relocates(
    here: Roots,
    there: Roots,
    existing: Set<Seq<char>>,
    existing_there: Set<Seq<char>>,
    rel: Seq<char>,
)
    requires
        path::is_clean(rel),
        path::is_abs(here.profile),
        path::is_abs(there.profile),
    ensures
        ({
            let q = qualify(here, existing, path::join(here.profile, rel));
            &&& placed(there, q) == path::join(there.profile, rel)
            &&& qualify(there, existing_there, placed(there, q)) == q
        }),
{
    law_profile_path_is_stable(here, existing, rel);
    law_profile_path_is_stable(there, existing_there, rel);
}

/// A path inside `$CARGO_HOME` of one machine is written down inside
/// `$CARGO_HOME` of another, and read there as the same qualified path, where
/// neither profile directory holds it.
pub proof fn law_cargo_home_path_relocates(
    here: Roots,
    there: Roots,
    existing: Set<Seq<char>>,
    existing_there: Set<Seq<char>>,
    rel: Seq<char>,
)
    requires
        path::is_clean(rel),
        path::is_abs(here.cargo_home),
        path::is_abs(there.cargo_home),
        path::below(here.profile, path::join(here.cargo_home, rel)) is None,
        path::below(there.profile, path::join(there.cargo_home, rel)) is None,
    ensures
        ({
            let q = qualify(here, existing, path::join(here.cargo_home, rel));
            &&& placed(there, q) == path::join(there.cargo_home, rel)
            &&& qualify(there, existing_there, placed(there, q)) == q
        }),
{
    law_cargo_home_path_is_stable(here, existing, rel);
    law_cargo_home_path_is_stable(there, existing_there, rel);
}

/// A path that is read on one machine and written down on another has its root replaced:
/// an absolute path below the profile directory of the one lies below that of the other,
/// and else likewise for `$CARGO_HOME`. A relative path that is found below one of the
/// roots is written below that root of the other machine. Any other path stays as it is.
pub proof fn law_paths_have_their_roots_replaced(
    here: Roots,
    there: Roots,
    existing: Set<Seq<char>>,
    p: Seq<char>,
)
    ensures
        placed(there, qualify(here, existing, p)) == (if p.len() > 0 && p[0] == '/' {
            match (path::below(here.profile, p), path::below(here.cargo_home, p)) {
                (Some(rel), _) => path::join(there.profile, rel),
                (None, Some(rel)) => path::join(there.cargo_home, rel),
                (None, None) => p,
            }
        } else if existing.contains(path::join(here.profile, p)) {
            path::join(there.profile, p)
        } else if existing.contains(path::join(here.cargo_home, p)) {
            path::join(there.cargo_home, p)
        } else {
            p
        }),
        p.len() > 0 && p[0] == '/' ==> qualify_abs(here, p) == qualify(here, existing, p),
{
}

/// Paths that are relative to no root are the same on every machine.
pub proof fn law_rootless_and_absolute_paths_stay(
    here: Roots,
    there: Roots,
    existing: Set<Seq<char>>,
    p: Seq<char>,
)
    requires
        qualify(here, existing, p) is Rootless || qualify(here, existing, p) is Absolute,
    ensures
        placed(there, qualify(here, existing, p)) == p,
{
}

} // verus!
