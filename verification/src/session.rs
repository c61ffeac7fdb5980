//! One run, as two decisions around the operator's answer: what to show, and
//! what to do once a line was read. A run that fails at the first shows no
//! menu; one that fails at the second touches nothing.

use vstd::prelude::*;
use crate::active::{active_of, read_active, CurrentEntry, EntryView};
use crate::error::SwitchError;
use crate::link::{plan_ops, plan_selection, LinkOp};
use crate::lister::{is_listing_of, list_versions, DirEntry, DirListing};
use crate::menu::{build_menu, menu_entry, MenuEntry};
use crate::select::{line_of, resolve_selection, resolved, system_name};
use crate::text::{names, opt_name};

verus! {

/// What is put before the operator: the versions on offer, the active one,
/// and the menu made of them.
#[derive(Clone, Debug, PartialEq, Eq)]
pub struct Prompt {
    pub versions: Vec<String>,
    pub active: Option<String>,
    pub menu: Vec<MenuEntry>,
}

/// What the operator's answer comes to: the chosen name, and the operations
/// that make it the active version.
#[derive(Clone, Debug, PartialEq, Eq)]
pub struct Decision {
    pub chosen: String,
    pub plan: Vec<LinkOp>,
}

/// Whether `prompt` is what is to be shown for these entries of the
/// installation directory and this `current` entry.
pub open spec fn is_prompt_for(prompt: Prompt, entries: Seq<DirEntry>, entry: EntryView) -> bool {
    &&& is_listing_of(names(prompt.versions@), entries)
    &&& opt_name(prompt.active) == active_of(entry)
    &&& prompt.menu@.len() == prompt.versions@.len() + 1
    &&& forall|k: int|
        0 <= k < prompt.menu@.len() ==> (#[trigger] prompt.menu@[k])@ == menu_entry(
            names(prompt.versions@),
            opt_name(prompt.active),
            k,
        )
}

/// Prepares what is shown to the operator. Where the installation directory
/// is missing or cannot be read there is an error and nothing to show.
pub fn open_menu(listing: &DirListing, entry: &CurrentEntry) -> (r: Result<Prompt, SwitchError>)
    ensures
        match *listing {
            DirListing::Missing => r is Err && r->Err_0 == SwitchError::DirectoryNotFound,
            DirListing::Unreadable => r is Err && r->Err_0 == SwitchError::DirectoryUnreadable,
            DirListing::Entries(entries) => r is Ok && is_prompt_for(r->Ok_0, entries@, entry@),
        },
{
    match list_versions(listing) {
        Err(e) => Err(e),
        Ok(versions) => {
            let active = read_active(entry);
            let menu = build_menu(&versions, &active);
            Ok(Prompt { versions, active, menu })
        },
    }
}

/// Judges the operator's answer; `input` is the line that was read, or `None`
/// where the input ended first, and `present` says whether anything bears
/// the name `current` now. An answer that selects nothing gives an error and
/// no operation.
pub fn decide(versions: &Vec<String>, present: bool, input: Option<&str>) -> (r: Result<
    Decision,
    SwitchError,
>)
    ensures
        match resolved(names(versions@), line_of(input)) {
            Err(e) => r is Err && r->Err_0 == e,
            Ok(name) => r is Ok && r->Ok_0.chosen@ == name && r->Ok_0.plan@ == plan_ops(
                present,
                name == system_name(),
            ),
        },
{
    match resolve_selection(versions, input) {
        Err(e) => Err(e),
        Ok(chosen) => {
            let plan = plan_selection(present, chosen.as_str());
            Ok(Decision { chosen, plan })
        },
    }
}

} // verus!
