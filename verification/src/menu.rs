//! The numbered menu: entry 0 stands for the system's own version, entry `i`
//! for the `i`-th installed version, and the active one carries a marker.

use vstd::prelude::*;
use crate::text::{names, opt_name, str_eq};

verus! {

broadcast use vstd::string::group_string_axioms;

/// The decimal digit for `d`, which is below ten.
pub open spec fn digit_char(d: nat) -> char {
    if d == 0 {
        '0'
    } else if d == 1 {
        '1'
    } else if d == 2 {
        '2'
    } else if d == 3 {
        '3'
    } else if d == 4 {
        '4'
    } else if d == 5 {
        '5'
    } else if d == 6 {
        '6'
    } else if d == 7 {
        '7'
    } else if d == 8 {
        '8'
    } else {
        '9'
    }
}

/// `n` written in base ten, without leading zeros.
pub open spec fn decimal_digits(n: nat) -> Seq<char>
    decreases n,
{
    if n < 10 {
        seq![digit_char(n)]
    } else {
        decimal_digits(n / 10).push(digit_char(n % 10))
    }
}

/// The label of entry 0.
pub open spec fn system_label() -> Seq<char> {
    seq!['S', 'y', 's', 't', 'e', 'm']
}

/// What separates an entry's number from its label.
pub open spec fn separator() -> Seq<char> {
    seq![':', ' ']
}

/// What follows the label of the active entry.
pub open spec fn marker() -> Seq<char> {
    seq![' ', '*']
}

/// One entry of the menu: its number, what it offers, and whether that is
/// what is active now.
#[derive(Clone, Debug, PartialEq, Eq)]
pub struct MenuEntry {
    pub index: usize,
    pub label: String,
    pub active: bool,
}

/// A menu entry as plain values.
pub struct MenuEntryView {
    pub index: nat,
    pub label: Seq<char>,
    pub active: bool,
}

impl View for MenuEntry {
    type V = MenuEntryView;

    open spec fn view(&self) -> MenuEntryView {
        MenuEntryView { index: self.index as nat, label: self.label@, active: self.active }
    }
}

/// Entry `k` of the menu for `versions` when `active` is the active version:
/// entry 0 offers the system's own version and is marked when no version is
/// active; entry `k` offers `versions[k - 1]` and is marked when that is the
/// active version.
pub open spec fn menu_entry(
    versions: Seq<Seq<char>>,
    active: Option<Seq<char>>,
    k: int,
) -> MenuEntryView {
    if k == 0 {
        MenuEntryView { index: 0, label: system_label(), active: active is None }
    } else {
        MenuEntryView {
            index: k as nat,
            label: versions[k - 1],
            active: active == Some(versions[k - 1]),
        }
    }
}

/// The whole menu: one entry more than there are versions.
pub open spec fn menu_model(
    versions: Seq<Seq<char>>,
    active: Option<Seq<char>>,
) -> Seq<MenuEntryView> {
    Seq::new(versions.len() + 1, |k: int| menu_entry(versions, active, k))
}

/// The line that shows an entry: its number, a colon and a space, its label,
/// and the marker if it is the active one.
pub open spec fn line_text(e: MenuEntryView) -> Seq<char> {
    decimal_digits(e.index) + separator() + e.label + if e.active {
        marker()
    } else {
        Seq::<char>::empty()
    }
}

/// Exactly what is active carries the marker. With no active version that is
/// entry 0 and no other; with an active version it is not entry 0, and a
/// version's entry carries it exactly if the version is the active one.
pub proof fn lemma_marker_placement(versions: Seq<Seq<char>>, active: Option<Seq<char>>)
    ensures
        menu_model(versions, active).len() == versions.len() + 1,
        menu_model(versions, active)[0].active <==> active is None,
        forall|k: int|
            1 <= k <= versions.len() ==> (#[trigger] menu_model(versions, active)[k].active <==> active
                == Some(versions[k - 1])),
        active is None ==> forall|k: int|
            1 <= k <= versions.len() ==> !#[trigger] menu_model(versions, active)[k].active,
{
}

fn digit_str(d: usize) -> (s: &'static str)
    requires
        d < 10,
    ensures
        s@ == seq![digit_char(d as nat)],
{
    proof {
        reveal_strlit("0");
        reveal_strlit("1");
        reveal_strlit("2");
        reveal_strlit("3");
        reveal_strlit("4");
        reveal_strlit("5");
        reveal_strlit("6");
        reveal_strlit("7");
        reveal_strlit("8");
        reveal_strlit("9");
    }
    let s = if d == 0 {
        "0"
    } else if d == 1 {
        "1"
    } else if d == 2 {
        "2"
    } else if d == 3 {
        "3"
    } else if d == 4 {
        "4"
    } else if d == 5 {
        "5"
    } else if d == 6 {
        "6"
    } else if d == 7 {
        "7"
    } else if d == 8 {
        "8"
    } else {
        "9"
    };
    assert(s@ =~= seq![digit_char(d as nat)]);
    s
}

/// Writes `n` in base ten.
pub fn decimal(n: usize) -> (s: String)
    ensures
        s@ == decimal_digits(n as nat),
    decreases n,
{
    if n < 10 {
        String::from_str(digit_str(n))
    } else {
        let mut s = decimal(n / 10);
        s.append(digit_str(n % 10));
        assert(s@ =~= decimal_digits(n as nat));
        s
    }
}

impl MenuEntry {
    /// The line that shows this entry.
    pub fn line(&self) -> (s: String)
        ensures
            s@ == line_text(self@),
    {
        proof {
            reveal_strlit(": ");
            reveal_strlit(" *");
        }
        let mut s = decimal(self.index);
        s.append(": ");
        s.append(self.label.as_str());
        if self.active {
            s.append(" *");
        }
        assert(s@ =~= line_text(self@));
        s
    }
}

/// Builds the menu for `versions`, marking what `active` names: entry 0 when
/// it names nothing, else every entry whose version it names.
pub fn build_menu(versions: &Vec<String>, active: &Option<String>) -> (menu: Vec<MenuEntry>)
    ensures
        menu@.len() == versions@.len() + 1,
        forall|k: int|
            0 <= k < menu@.len() ==> (#[trigger] menu@[k])@ == menu_entry(
                names(versions@),
                opt_name(*active),
                k,
            ),
{
    proof {
        reveal_strlit("System");
    }
    let mut menu: Vec<MenuEntry> = Vec::new();
    let system = String::from_str("System");
    assert(system@ =~= system_label());
    menu.push(MenuEntry { index: 0, label: system, active: active.is_none() });
    let mut i: usize = 0;
    while i < versions.len()
        invariant
            i <= versions@.len(),
            menu@.len() == i + 1,
            forall|k: int|
                0 <= k < menu@.len() ==> (#[trigger] menu@[k])@ == menu_entry(
                    names(versions@),
                    opt_name(*active),
                    k,
                ),
        decreases versions@.len() - i,
    {
        let version = &versions[i];
        let is_active = match active {
            Some(a) => str_eq(a.as_str(), version.as_str()),
            None => false,
        };
        menu.push(MenuEntry { index: i + 1, label: version.clone(), active: is_active });
        i += 1;
    }
    menu
}

/// The lines of a menu, one for each entry, in order.
pub fn render_menu(menu: &Vec<MenuEntry>) -> (lines: Vec<String>)
    ensures
        lines@.len() == menu@.len(),
        forall|k: int| 0 <= k < lines@.len() ==> (#[trigger] lines@[k])@ == line_text(menu@[k]@),
{
    let mut lines: Vec<String> = Vec::new();
    let mut i: usize = 0;
    while i < menu.len()
        invariant
            i <= menu@.len(),
            lines@.len() == i,
            forall|k: int| 0 <= k < lines@.len() ==> (#[trigger] lines@[k])@ == line_text(menu@[k]@),
        decreases menu@.len() - i,
    {
        lines.push(menu[i].line());
        i += 1;
    }
    lines
}

} // verus!
