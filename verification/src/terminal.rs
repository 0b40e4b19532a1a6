//! Choosing a terminal emulator: the fixed preference list, and the pick
//! of the first one that is installed.  Probing the system for installed
//! commands stays outside; the pick takes the probe results as a plain
//! list.

use vstd::prelude::*;
use vstd::string::StringExecFns;
use crate::registry::view_strings;
use crate::text;

verus! {

/// The terminal emulators tried, in order of preference.
pub open spec fn spec_terminal_names() -> Seq<Seq<char>> {
    seq![
        "kitty"@,
        "alacritty"@,
        "konsole"@,
        "gnome-terminal"@,
        "st"@,
        "2term"@,
        "xterm"@,
    ]
}

/// The first name of the preference list that is among the available
/// commands.
pub open spec fn spec_first_available(
    names: Seq<Seq<char>>,
    available: Seq<Seq<char>>,
) -> Option<Seq<char>>
    decreases names.len(),
{
    if names.len() == 0 {
        None
    } else if available.contains(names[0]) {
        Some(names[0])
    } else {
        spec_first_available(names.skip(1), available)
    }
}

/// Picks the preferred terminal emulator among the available commands:
/// the first of the fixed preference list that the caller found
/// installed, or nothing when none of them is.
pub fn get_available_terminal(available: &Vec<String>) -> (r: Option<String>)
    ensures
        (match r {
            Some(t) => spec_first_available(spec_terminal_names(), view_strings(available@))
                == Some(t@),
            None => spec_first_available(spec_terminal_names(), view_strings(available@))
                is None,
        }),
{
    if text::string_list_contains(available, "kitty") {
        proof {
            lemma_first_available_unfold(view_strings(available@), 0);
        }
        return Some(String::from_str("kitty"));
    }
    if text::string_list_contains(available, "alacritty") {
        proof {
            lemma_first_available_unfold(view_strings(available@), 1);
        }
        return Some(String::from_str("alacritty"));
    }
    if text::string_list_contains(available, "konsole") {
        proof {
            lemma_first_available_unfold(view_strings(available@), 2);
        }
        return Some(String::from_str("konsole"));
    }
    if text::string_list_contains(available, "gnome-terminal") {
        proof {
            lemma_first_available_unfold(view_strings(available@), 3);
        }
        return Some(String::from_str("gnome-terminal"));
    }
    if text::string_list_contains(available, "st") {
        proof {
            lemma_first_available_unfold(view_strings(available@), 4);
        }
        return Some(String::from_str("st"));
    }
    if text::string_list_contains(available, "2term") {
        proof {
            lemma_first_available_unfold(view_strings(available@), 5);
        }
        return Some(String::from_str("2term"));
    }
    if text::string_list_contains(available, "xterm") {
        proof {
            lemma_first_available_unfold(view_strings(available@), 6);
        }
        return Some(String::from_str("xterm"));
    }
    proof {
        lemma_first_available_unfold(view_strings(available@), 7);
    }
    None
}

/// Unfolds the preference walk down to position `upto`, under the
/// assumption that no earlier name is available.
proof fn lemma_first_available_unfold(available: Seq<Seq<char>>, upto: int)
    requires
        0 <= upto <= spec_terminal_names().len(),
        forall|j: int| 0 <= j < upto ==> !available.contains(#[trigger] spec_terminal_names()[j]),
    ensures
        spec_first_available(spec_terminal_names(), available) == (if upto
            < spec_terminal_names().len() && available.contains(spec_terminal_names()[upto]) {
            Some(spec_terminal_names()[upto])
        } else if upto < spec_terminal_names().len() {
            spec_first_available(spec_terminal_names().skip(upto + 1), available)
        } else {
            None::<Seq<char>>
        }),
{
    lemma_first_available_skip(spec_terminal_names(), available, upto);
    if upto < spec_terminal_names().len() {
        assert(spec_terminal_names().skip(upto)[0] == spec_terminal_names()[upto]);
        assert(spec_terminal_names().skip(upto).skip(1) =~= spec_terminal_names().skip(
            upto + 1,
        ));
    } else {
        assert(spec_terminal_names().skip(upto).len() == 0);
    }
}

/// Walking the list past unavailable names does not change the pick.
proof fn lemma_first_available_skip(
    names: Seq<Seq<char>>,
    available: Seq<Seq<char>>,
    upto: int,
)
    requires
        0 <= upto <= names.len(),
        forall|j: int| 0 <= j < upto ==> !available.contains(#[trigger] names[j]),
    ensures
        spec_first_available(names, available) == spec_first_available(
            names.skip(upto),
            available,
        ),
    decreases upto,
{
    if upto > 0 {
        assert(names.skip(0) =~= names);
        assert(!available.contains(names[0]));
        lemma_first_available_skip(names.skip(1), available, upto - 1);
        assert(forall|j: int| 0 <= j < upto - 1 ==> names.skip(1)[j] == names[j + 1]);
        assert(names.skip(1).skip(upto - 1) =~= names.skip(upto));
    } else {
        assert(names.skip(0) =~= names);
    }
}

} // verus!
