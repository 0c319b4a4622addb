//! Telling someone their fan is not being controlled because PawnIO is
//! missing.
//!
//! The engine's own diagnosis is good and unreachable, so the tray asks from
//! outside the engine: is the driver registered, and are the module files
//! where we expect them.

use vstd::prelude::*;

use crate::paths::with_file_name;
use crate::pawnio::Layout;

verus! {

/// The download page.
pub const DOWNLOAD_URL: &'static str = "https://pawnio.eu";

/// What is missing, if anything.
#[derive(Debug)]
pub enum Missing {
    /// The driver is not registered on this machine.
    Driver,
    /// The driver is there, but a module Yamato hands it is not beside the
    /// executable.
    Module(String),
    /// Nothing obviously missing.
    Nothing,
}

/// What is missing, mathematically.
pub ghost enum MissingView {
    Driver,
    Module(Seq<char>),
    Nothing,
}

impl View for Missing {
    type V = MissingView;

    open spec fn view(&self) -> MissingView {
        match self {
            Missing::Driver => MissingView::Driver,
            Missing::Module(path) => MissingView::Module(path@),
            Missing::Nothing => MissingView::Nothing,
        }
    }
}

impl MissingView {
    /// A sentence for a tooltip.
    pub open spec fn brief(self) -> Seq<char> {
        match self {
            MissingView::Driver => "PawnIO is not installed. Right-click to fix it."@,
            MissingView::Module(_) =>
                "A file is missing beside Yamato. Right-click for details."@,
            MissingView::Nothing =>
                "Starting up, or the engine could not reach the controller."@,
        }
    }

    /// The longer version, for a message box.
    pub open spec fn words(self) -> Seq<char> {
        match self {
            MissingView::Driver =>
                "Yamato cannot control the fan because PawnIO is not installed.\n\nPawnIO is a small signed driver, written by someone else, that Yamato uses to reach the embedded controller. It is not bundled with Yamato, so it is a separate download.\n\nOpen the PawnIO download page now?"@,
            MissingView::Module(path) =>
                "Yamato cannot control the fan because a file it needs is missing:\n\n"@ + path
                    + "\n\nThis file is installed alongside Yamato. Reinstalling should restore it."@,
            MissingView::Nothing =>
                "PawnIO is installed and the module file is where it should be.\n\nPawnIO is a small signed driver, written by someone else, that Yamato uses to reach the embedded controller. It is not bundled with Yamato and is not ours to sign for, so it lives at pawnio.eu.\n\nOpen the download page anyway, to reinstall it or to read what it is?"@,
        }
    }
}

impl Missing {
    /// A sentence for a tooltip. Kept short: the tray's tip has a hard limit
    /// and the profile name is already competing for it.
    pub fn short(&self) -> (r: &'static str)
        ensures
            r@ == self@.brief(),
    {
        match self {
            Missing::Driver => "PawnIO is not installed. Right-click to fix it.",
            Missing::Module(_) => "A file is missing beside Yamato. Right-click for details.",
            Missing::Nothing => "Starting up, or the engine could not reach the controller.",
        }
    }

    /// The longer version, for a message box, where there is room to explain
    /// what PawnIO is rather than just naming it.
    pub fn explain(&self) -> (r: String)
        ensures
            r@ == self@.words(),
    {
        match self {
            Missing::Driver =>
                "Yamato cannot control the fan because PawnIO is not installed.\n\nPawnIO is a small signed driver, written by someone else, that Yamato uses to reach the embedded controller. It is not bundled with Yamato, so it is a separate download.\n\nOpen the PawnIO download page now?".to_owned(),
            Missing::Module(path) => {
                let mut s =
                    "Yamato cannot control the fan because a file it needs is missing:\n\n".to_owned();
                s.append(path.as_str());
                s.append(
                    "\n\nThis file is installed alongside Yamato. Reinstalling should restore it.",
                );
                s
            },
            Missing::Nothing =>
                "PawnIO is installed and the module file is where it should be.\n\nPawnIO is a small signed driver, written by someone else, that Yamato uses to reach the embedded controller. It is not bundled with Yamato and is not ours to sign for, so it lives at pawnio.eu.\n\nOpen the download page anyway, to reinstall it or to read what it is?".to_owned(),
        }
    }
}

/// A module file beside the executable.
pub open spec fn beside(exe: Seq<char>, layout: Layout) -> Seq<char> {
    crate::paths::renamed(exe, layout.module()@)
}

/// What is missing, given whether the driver is registered, where the
/// executable is, and which module files are beside it.
pub open spec fn diagnosis(
    registered: bool,
    exe: Option<Seq<char>>,
    standard_there: bool,
    alternate_there: bool,
) -> MissingView {
    if !registered {
        MissingView::Driver
    } else {
        match exe {
            None => MissingView::Nothing,
            Some(exe) => if !standard_there {
                MissingView::Module(beside(exe, Layout::Standard))
            } else if !alternate_there {
                MissingView::Module(beside(exe, Layout::Alternate))
            } else {
                MissingView::Nothing
            },
        }
    }
}

/// Where a layout's module file belongs: next to the binary, not in the
/// working directory.
pub fn beside_exe(exe: &str, layout: Layout) -> (r: String)
    ensures
        r@ == beside(exe@, layout),
{
    with_file_name(exe, layout.module_file())
}

/// Looks for the reasons the engine most often cannot start.
///
/// Both modules are checked, because both ship: which one the engine ends up
/// needing depends on where this machine keeps its controller.
pub fn diagnose(
    registered: bool,
    exe: Option<&str>,
    standard_there: bool,
    alternate_there: bool,
) -> (r: Missing)
    ensures
        r@ == diagnosis(
            registered,
            match exe {
                Some(path) => Some(path@),
                None => None,
            },
            standard_there,
            alternate_there,
        ),
{
    if !registered {
        return Missing::Driver;
    }
    match exe {
        None => Missing::Nothing,
        Some(path) => if !standard_there {
            Missing::Module(beside_exe(path, Layout::Standard))
        } else if !alternate_there {
            Missing::Module(beside_exe(path, Layout::Alternate))
        } else {
            Missing::Nothing
        },
    }
}

/// Every state says something a shared tooltip can hold.
pub proof fn every_state_is_brief(missing: MissingView)
    ensures
        0 < missing.brief().len() < 64,
{
    reveal_strlit("PawnIO is not installed. Right-click to fix it.");
    reveal_strlit("A file is missing beside Yamato. Right-click for details.");
    reveal_strlit("Starting up, or the engine could not reach the controller.");
}

/// The long form names the missing file.
pub proof fn the_long_form_names_the_missing_file(path: Seq<char>)
    ensures
        crate::text::holds(MissingView::Module(path).words(), path),
{
    let before = "Yamato cannot control the fan because a file it needs is missing:\n\n"@;
    let words = MissingView::Module(path).words();
    assert(words.subrange(before.len() as int, (before.len() + path.len()) as int) =~= path);
    assert(crate::text::stands_at(words, path, before.len() as int));
}

/// What is missing is told in the order it has to be mended: the driver first,
/// then the standard module beside the program, then the alternate one; and
/// nothing is missing where all of them are there, or where it cannot be told
/// where the program is.
pub proof fn what_is_missing_is_told_in_order(
    registered: bool,
    exe: Option<Seq<char>>,
    standard_there: bool,
    alternate_there: bool,
)
    ensures
        ({
            let told = diagnosis(registered, exe, standard_there, alternate_there);
            &&& !registered ==> told == MissingView::Driver
            &&& registered && (exe is None || standard_there && alternate_there) ==> told
                == MissingView::Nothing
            &&& registered && exe is Some && !standard_there ==> told == MissingView::Module(
                crate::paths::renamed(exe->0, Layout::Standard.module()@),
            )
            &&& registered && exe is Some && standard_there && !alternate_there ==> told
                == MissingView::Module(
                crate::paths::renamed(exe->0, Layout::Alternate.module()@),
            )
        }),
{
}

/// A layout's module lies beside the program, under its own name.
pub proof fn a_module_lies_beside_the_program(dir: Seq<char>, exe: Seq<char>, layout: Layout)
    requires
        crate::paths::full_directory(dir),
        crate::paths::plain_name(exe),
        crate::paths::plain_name(layout.module()@),
    ensures
        beside(dir + seq!['\\'] + exe, layout) == dir + seq!['\\'] + layout.module()@,
{
    crate::paths::a_file_goes_by_its_name(dir, exe, layout.module()@);
}

} // verus!
