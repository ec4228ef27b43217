//! A working directory tagged by whether its process is a priority command,
//! and the rules by which a process and its children compete.

use vstd::prelude::*;

verus! {

/// A process's working directory. `Priority` marks a process whose executable
/// is one of the caller's priority commands; the tag is set once, by
/// [`Cwd::new`], and only compared afterwards.
#[derive(Clone, Debug, PartialEq, Eq)]
pub enum Cwd {
    Regular(String),
    Priority(String),
}

/// What a [`Cwd`] stands for: the path's text and the tag.
pub struct CwdModel {
    pub path: Seq<char>,
    pub priority: bool,
}

/// Which of a process's two links could not be read.
#[derive(Clone, Copy, Debug, PartialEq, Eq, Structural)]
pub enum ProcessFile {
    Exe,
    Cwd,
}

/// Why a process, or the subtree below it, yields no working directory.
#[derive(Clone, Debug, PartialEq, Eq)]
pub enum CwdError {
    /// The process table had no readable link of this kind for the process.
    ProcessRead { pid: u32, file: ProcessFile },
    /// The directory was gone when it was about to be handed out.
    Vanished { path: String },
}

/// What a [`CwdError`] stands for.
pub enum CwdErrorModel {
    ProcessRead { pid: u32, file: ProcessFile },
    Vanished { path: Seq<char> },
}

impl View for Cwd {
    type V = CwdModel;

    open spec fn view(&self) -> CwdModel {
        match *self {
            Cwd::Regular(path) => CwdModel { path: path@, priority: false },
            Cwd::Priority(path) => CwdModel { path: path@, priority: true },
        }
    }
}

impl View for CwdError {
    type V = CwdErrorModel;

    open spec fn view(&self) -> CwdErrorModel {
        match *self {
            CwdError::ProcessRead { pid, file } => CwdErrorModel::ProcessRead { pid, file },
            CwdError::Vanished { path } => CwdErrorModel::Vanished { path: path@ },
        }
    }
}

/// The texts of a list of strings.
pub open spec fn texts(list: Seq<String>) -> Seq<Seq<char>> {
    list.map_values(|s: String| s@)
}

/// The view of a resolution's result.
pub open spec fn outcome_view(r: Result<Cwd, CwdError>) -> Result<CwdModel, CwdErrorModel> {
    match r {
        Ok(cwd) => Ok(cwd@),
        Err(error) => Err(error@),
    }
}

/// The working directory `cwd` of a process that runs `exe`: `Priority`
/// exactly when `exe` equals an entry of `priority`, letter for letter.
pub open spec fn classify(cwd: Seq<char>, exe: Seq<char>, priority: Seq<Seq<char>>) -> CwdModel {
    CwdModel { path: cwd, priority: priority.contains(exe) }
}

/// A process outranks its chosen child only when it is a priority command and
/// the child is not.
pub open spec fn outranks(own: CwdModel, child: CwdModel) -> bool {
    own.priority && !child.priority
}

/// The result for a process with no child to follow: its own directory, if
/// that still exists.
pub open spec fn keep_if_exists(own: CwdModel, exists: bool) -> Result<CwdModel, CwdErrorModel> {
    if exists {
        Ok(own)
    } else {
        Err(CwdErrorModel::Vanished { path: own.path })
    }
}

/// The result for a process and the child that was chosen below it.
///
/// A priority child, or any child of a regular process, wins outright. A
/// priority process wins over a regular child while its own directory still
/// exists; otherwise the child's directory is handed out instead, if that one
/// exists, and if neither does the failure is the process's own.
pub open spec fn settle(own: CwdModel, child: CwdModel, own_exists: bool, child_exists: bool)
    -> Result<CwdModel, CwdErrorModel> {
    if !outranks(own, child) {
        Ok(child)
    } else if own_exists {
        Ok(own)
    } else if child_exists {
        Ok(child)
    } else {
        Err(CwdErrorModel::Vanished { path: own.path })
    }
}

impl Cwd {
    /// Tags `cwd` by whether `exe` is one of `priority_commands`.
    pub fn new(cwd: String, exe: &str, priority_commands: &[String]) -> (tagged: Cwd)
        ensures
            tagged@ == classify(cwd@, exe@, texts(priority_commands@)),
    {
        let exe_text = exe.to_owned();
        let mut found = false;
        let mut i: usize = 0;
        while i < priority_commands.len()
            invariant
                i <= priority_commands@.len(),
                exe_text@ == exe@,
                found <==> exists|j: int| 0 <= j < i && #[trigger] priority_commands@[j]@ == exe@,
            decreases priority_commands@.len() - i,
        {
            if priority_commands[i] == exe_text {
                found = true;
            }
            i += 1;
        }
        proof {
            let list = texts(priority_commands@);
            if found {
                let j = choose|j: int| 0 <= j < i && #[trigger] priority_commands@[j]@ == exe@;
                assert(list[j] == exe@);
            }
            if list.contains(exe@) {
                let j = choose|j: int| 0 <= j < list.len() && list[j] == exe@;
                assert(priority_commands@[j]@ == exe@);
            }
        }
        if found {
            Cwd::Priority(cwd)
        } else {
            Cwd::Regular(cwd)
        }
    }

    /// Hands the directory on if it still exists. The caller has looked on disk
    /// and passes what it found.
    pub fn exists_or_err(self, exists: bool) -> (r: Result<Cwd, CwdError>)
        ensures
            outcome_view(r) == keep_if_exists(self@, exists),
            exists ==> r == Ok::<Cwd, CwdError>(self),
    {
        if exists {
            Ok(self)
        } else {
            Err(CwdError::Vanished { path: self.into() })
        }
    }

    /// The path's text, without the tag.
    pub fn as_ref(&self) -> (path: &str)
        ensures
            path@ == self@.path,
    {
        match self {
            Cwd::Regular(cwd) => cwd.as_str(),
            Cwd::Priority(cwd) => cwd.as_str(),
        }
    }

    /// The path alone: the tag is dropped.
    pub fn into(self) -> (path: String)
        ensures
            path@ == self@.path,
    {
        match self {
            Cwd::Regular(cwd) => cwd,
            Cwd::Priority(cwd) => cwd,
        }
    }

    /// Whether the directory belongs to a priority command.
    pub fn is_priority(&self) -> (priority: bool)
        ensures
            priority == self@.priority,
    {
        match self {
            Cwd::Regular(_) => false,
            Cwd::Priority(_) => true,
        }
    }

    /// Whether this process's directory is preferred over `child`'s, provided
    /// it still exists.
    pub fn outranks(&self, child: &Cwd) -> (wins: bool)
        ensures
            wins == outranks(self@, child@),
    {
        self.is_priority() && !child.is_priority()
    }
}

} // verus!
