//! The `new` command: where a project is put, whether what stands there may go, and how
//! a template becomes the project.

use crate::shared::Clearance;
use crate::text::replace;
use crate::text::same_text;
use crate::text::substituted;
use std::path::PathBuf;
use vstd::prelude::*;

verus! {

/// `std::path::PathBuf`, carried as it is.
#[verifier::external_type_specification]
#[verifier::external_body]
pub struct ExPathBuf(PathBuf);

/// The arguments of the `new` command.
pub struct New {
    /// Where the project goes; `.` stands for the working directory itself.
    pub target: String,
    /// The name of the project, where it is not to be taken from the target.
    pub name: Option<String>,
    /// The template that the project starts from.
    pub template: Option<String>,
    /// Whether a directory in the way is removed without asking.
    pub yes: bool,
}

/// The directory that a project is placed in or under.
#[derive(Debug, Clone, Copy, PartialEq, Eq, Structural)]
pub enum Anchor {
    /// The working directory.
    WorkDir,
    /// The target, taken as it is written.
    Target,
    /// The target, taken from the working directory.
    TargetInWorkDir,
}

/// Where a project goes and what it is called.
#[derive(Debug, PartialEq, Eq)]
pub enum Placement {
    /// The project goes into a directory of its name under the anchor.
    Named { anchor: Anchor, name: String },
    /// The project goes into the anchor, and is called as the anchor's last component.
    InPlace { anchor: Anchor },
}

/// The mathematical form of a [`Placement`].
pub enum PlacementView {
    Named { anchor: Anchor, name: Seq<char> },
    InPlace { anchor: Anchor },
}

impl View for Placement {
    type V = PlacementView;

    open spec fn view(&self) -> PlacementView {
        match self {
            Placement::Named { anchor, name } => PlacementView::Named { anchor: *anchor, name: name@ },
            Placement::InPlace { anchor } => PlacementView::InPlace { anchor: *anchor },
        }
    }
}

/// The text that a template holds in place of the project's name.
pub open spec fn placeholder() -> Seq<char> {
    "TEMPLATE_NAME"@
}

/// The content of a file of the project, made from the content of the template's file:
/// the project's name stands wherever the template holds the placeholder.
pub fn fill_template(content: &str, project_name: &str) -> (filled: String)
    ensures
        filled@ == substituted(content@, placeholder(), project_name@),
{
    proof {
        reveal_strlit("TEMPLATE_NAME");
    }
    replace(content, "TEMPLATE_NAME", project_name)
}

impl New {
    /// Whether the project is set up in the working directory itself.
    pub open spec fn spec_is_init(&self) -> bool {
        self.target@ == "."@
    }

    /// Where the project goes. With a name it goes under the working directory or under
    /// the target as written; without one it goes into the working directory or into the
    /// target under it, and takes its name from there.
    pub open spec fn spec_placement(&self) -> PlacementView {
        match self.name {
            Some(name) => PlacementView::Named {
                anchor: if self.spec_is_init() {
                    Anchor::WorkDir
                } else {
                    Anchor::Target
                },
                name: name@,
            },
            None => PlacementView::InPlace {
                anchor: if self.spec_is_init() {
                    Anchor::WorkDir
                } else {
                    Anchor::TargetInWorkDir
                },
            },
        }
    }

    /// The address of the repository of the template `template`.
    pub open spec fn spec_template_url(template: Seq<char>) -> Seq<char> {
        "https://github.com/nidrs/"@ + template + "-template"@
    }

    /// Whether the user has to be asked before a directory is removed: only where one
    /// stands in the way and the arguments do not answer for the user.
    pub open spec fn spec_needs_confirmation(&self, exists: bool) -> bool {
        !self.spec_is_init() && exists && !self.yes
    }

    /// What is done about the directory, given whether it exists and what the user
    /// answered where asked.
    pub open spec fn spec_clearance(&self, exists: bool, confirmed: bool) -> Clearance {
        if self.spec_is_init() || !exists {
            Clearance::Proceed
        } else if self.yes || confirmed {
            Clearance::RemoveFirst
        } else {
            Clearance::Refuse
        }
    }

    pub fn is_init(&self) -> (init: bool)
        ensures
            init == self.spec_is_init(),
    {
        same_text(self.target.as_str(), ".")
    }

    pub fn placement(&self) -> (placement: Placement)
        ensures
            placement@ == self.spec_placement(),
    {
        let init = self.is_init();
        match &self.name {
            Some(name) => Placement::Named {
                anchor: if init {
                    Anchor::WorkDir
                } else {
                    Anchor::Target
                },
                name: name.clone(),
            },
            None => Placement::InPlace {
                anchor: if init {
                    Anchor::WorkDir
                } else {
                    Anchor::TargetInWorkDir
                },
            },
        }
    }

    /// The address of the repository that the template is fetched from, where the
    /// arguments name a template.
    pub fn template_url(&self) -> (url: Option<String>)
        ensures
            match url {
                Some(url) => self.template is Some && url@ == Self::spec_template_url(self.template->0@),
                None => self.template is None,
            },
    {
        match &self.template {
            Some(template) => {
                let mut url = "https://github.com/nidrs/".to_owned();
                url.append(template.as_str());
                url.append("-template");
                Some(url)
            },
            None => None,
        }
    }

    pub fn needs_confirmation(&self, exists: bool) -> (ask: bool)
        ensures
            ask == self.spec_needs_confirmation(exists),
    {
        !self.is_init() && exists && !self.yes
    }

    pub fn clearance(&self, exists: bool, confirmed: bool) -> (clearance: Clearance)
        ensures
            clearance == self.spec_clearance(exists, confirmed),
    {
        if self.is_init() || !exists {
            Clearance::Proceed
        } else if self.yes || confirmed {
            Clearance::RemoveFirst
        } else {
            Clearance::Refuse
        }
    }
}

/// One directory of a project: where it lies, where its manifest lies, and the
/// environments of the workspace members below it.
pub struct WorkEnv {
    cargo_toml: Option<PathBuf>,
    base_dir: PathBuf,
    is_init_git: bool,
    is_root: bool,
    workspaces: Vec<WorkEnv>,
}

impl WorkEnv {
    pub closed spec fn spec_cargo_toml(&self) -> Option<PathBuf> {
        self.cargo_toml
    }

    pub closed spec fn spec_base_dir(&self) -> PathBuf {
        self.base_dir
    }

    pub closed spec fn spec_is_root(&self) -> bool {
        self.is_root
    }

    pub closed spec fn spec_is_init_git(&self) -> bool {
        self.is_init_git
    }

    pub closed spec fn spec_workspace(&self) -> Seq<WorkEnv> {
        self.workspaces@
    }

    pub fn new(base_dir: PathBuf, is_root: bool, cargo_toml: PathBuf, is_init_git: bool) -> (env: Self)
        ensures
            env.spec_base_dir() == base_dir,
            env.spec_cargo_toml() == Some(cargo_toml),
            env.spec_is_root() == is_root,
            env.spec_is_init_git() == is_init_git,
            env.spec_workspace() == Seq::<WorkEnv>::empty(),
    {
        WorkEnv { cargo_toml: Some(cargo_toml), base_dir, workspaces: Vec::new(), is_init_git, is_root }
    }

    pub fn init(self, members: Vec<WorkEnv>) -> (env: Self)
        ensures
            env.spec_base_dir() == self.spec_base_dir(),
            env.spec_cargo_toml() == self.spec_cargo_toml(),
            env.spec_is_root() == self.spec_is_root(),
            env.spec_is_init_git() == self.spec_is_init_git(),
            env.spec_workspace() == self.spec_workspace() + members@,
    {
        let mut env = self;
        let mut members = members;
        env.workspaces.append(&mut members);
        env
    }

    pub fn base_dir(&self) -> (dir: &PathBuf)
        ensures
            *dir == self.spec_base_dir(),
    {
        &self.base_dir
    }

    pub fn is_root(&self) -> (root: bool)
        ensures
            root == self.spec_is_root(),
    {
        self.is_root
    }

    pub fn is_init_git(&self) -> (git: bool)
        ensures
            git == self.spec_is_init_git(),
    {
        self.is_init_git
    }

    pub fn workspace(&self) -> (members: &Vec<WorkEnv>)
        ensures
            members@ == self.spec_workspace(),
    {
        &self.workspaces
    }

    pub fn mut_workspace(&mut self) -> (members: &mut Vec<WorkEnv>)
        ensures
            members@ == old(self).spec_workspace(),
            final(self).spec_workspace() == final(members)@,
            final(self).spec_base_dir() == old(self).spec_base_dir(),
            final(self).spec_cargo_toml() == old(self).spec_cargo_toml(),
            final(self).spec_is_root() == old(self).spec_is_root(),
            final(self).spec_is_init_git() == old(self).spec_is_init_git(),
    {
        &mut self.workspaces
    }
}

} // verus!
