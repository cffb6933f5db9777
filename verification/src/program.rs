//! The catalog data model: a program entry, its install status, the loaded
//! catalog, and the severity carried by the status channel.

use vstd::prelude::*;

verus! {

/// Severity of the single status-channel slot.
#[derive(Clone, Copy, Debug, PartialEq, Eq, Structural)]
pub enum StatusMessageType {
    Error,
    Success,
    Info,
}

/// Whether a program is currently installed.
#[derive(Clone, Copy, Debug, PartialEq, Eq, Structural)]
pub enum ProgrammStatus {
    Installed,
    NotInstalled,
}

/// The two tracked operations a script completion can belong to.
#[derive(Clone, Copy, Debug, PartialEq, Eq, Structural)]
pub enum ProgrammManipulation {
    Install,
    Uninstall,
}

/// The status a completed operation of the given kind leaves behind.
pub open spec fn status_after(kind: ProgrammManipulation) -> ProgrammStatus {
    match kind {
        ProgrammManipulation::Install => ProgrammStatus::Installed,
        ProgrammManipulation::Uninstall => ProgrammStatus::NotInstalled,
    }
}

/// One catalog entry.  Everything but `status` is immutable after load.
pub struct Programm {
    /// Unique, non-empty key of the entry.
    pub name: String,
    /// Optional invocation alias used for "run" and "locate".
    pub call: Option<String>,
    /// Description text; markup is opaque to the core.
    pub description_md: String,
    /// Optional documentation URL.
    pub docs_link: Option<String>,
    pub status: ProgrammStatus,
    /// Script text run on install.
    pub installation: String,
    /// Script text run on uninstall.
    pub deletion: String,
}

/// Mathematical image of a [`Programm`]: the same fields over `Seq<char>`.
#[verifier::ext_equal]
pub ghost struct SpecProgram {
    pub name: Seq<char>,
    pub call: Option<Seq<char>>,
    pub description_md: Seq<char>,
    pub docs_link: Option<Seq<char>>,
    pub status: ProgrammStatus,
    pub installation: Seq<char>,
    pub deletion: Seq<char>,
}

pub open spec fn view_opt_string(o: Option<String>) -> Option<Seq<char>> {
    match o {
        Some(s) => Some(s@),
        None => None,
    }
}

impl View for Programm {
    type V = SpecProgram;

    open spec fn view(&self) -> SpecProgram {
        SpecProgram {
            name: self.name@,
            call: view_opt_string(self.call),
            description_md: self.description_md@,
            docs_link: view_opt_string(self.docs_link),
            status: self.status,
            installation: self.installation@,
            deletion: self.deletion@,
        }
    }
}

impl DeepView for Programm {
    type V = SpecProgram;

    open spec fn deep_view(&self) -> SpecProgram {
        self.view()
    }
}

impl Programm {
    /// A field-by-field copy whose view equals this entry's view.
    pub fn duplicate(&self) -> (r: Programm)
        ensures
            r@ == self@,
    {
        let r = Programm {
            name: self.name.clone(),
            call: clone_opt_string(&self.call),
            description_md: self.description_md.clone(),
            docs_link: clone_opt_string(&self.docs_link),
            status: self.status,
            installation: self.installation.clone(),
            deletion: self.deletion.clone(),
        };
        proof {
            assert(r@ =~= self@);
        }
        r
    }

    /// The same entry with another install status.
    pub fn with_status(&self, status: ProgrammStatus) -> (r: Programm)
        ensures
            r@ == (SpecProgram { status, ..self@ }),
    {
        let mut r = self.duplicate();
        r.status = status;
        proof {
            assert(r@ =~= (SpecProgram { status, ..self@ }));
        }
        r
    }
}

fn clone_opt_string(o: &Option<String>) -> (r: Option<String>)
    ensures
        view_opt_string(r) == view_opt_string(*o),
{
    match o {
        Some(s) => Some(s.clone()),
        None => None,
    }
}

/// The catalog as loaded: its name and the ordered program list.
pub struct ConfigLoad {
    pub name: String,
    pub programms: Vec<Programm>,
}

} // verus!
