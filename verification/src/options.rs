//! The option lines of the menus, and enumerated selection lists: each menu
//! entry is shown with its first letter bracketed, since the first letter is
//! accepted as a shortcut for the whole word.

use vstd::prelude::*;
use crate::numerals::{count_digits, index_width, u64_to_dec_padded, zero_padded_dec};
use crate::order::views;

verus! {

/// A menu entry with its first letter bracketed: `Add` becomes `[A]dd`.
pub open spec fn option_tag(s: Seq<char>) -> Seq<char> {
    "["@ + s.take(1) + "]"@ + s.skip(1)
}

/// The menu line: the prefix, a colon, and each entry's tag.
pub open spec fn options_text(prefix: Seq<char>, opts: Seq<Seq<char>>) -> Seq<char>
    decreases opts.len(),
{
    if opts.len() == 0 {
        prefix + ":"@
    } else {
        options_text(prefix, opts.drop_last()) + " "@ + option_tag(opts.last())
    }
}

/// Renders a menu line from a prefix and the entries.
pub fn map_options(prefix: &str, options: Vec<&str>) -> (r: String)
    requires
        forall|i: int| 0 <= i < options@.len() ==> options@[i]@.len() > 0,
    ensures
        r@ == options_text(prefix@, options@.map_values(|s: &str| s@)),
{
    let ghost opts = options@.map_values(|s: &str| s@);
    let mut r = String::from_str(prefix);
    r.append(":");
    proof {
        assert(opts.take(0) =~= Seq::<Seq<char>>::empty());
        assert(r@ == options_text(prefix@, opts.take(0)));
    }
    let mut i: usize = 0;
    while i < options.len()
        invariant
            i <= options@.len(),
            opts == options@.map_values(|s: &str| s@),
            opts.len() == options@.len(),
            forall|k: int| 0 <= k < options@.len() ==> options@[k]@.len() > 0,
            r@ == options_text(prefix@, opts.take(i as int)),
        decreases options@.len() - i,
    {
        let s = options[i];
        let len = s.unicode_len();
        let first = s.substring_char(0, 1);
        let rest = s.substring_char(1, len);
        r.append(" ");
        r.append("[");
        r.append(first);
        r.append("]");
        r.append(rest);
        proof {
            assert(opts[i as int] == s@);
            assert(first@ =~= s@.take(1));
            assert(rest@ =~= s@.skip(1));
            assert(opts.take(i + 1).drop_last() =~= opts.take(i as int));
            assert(opts.take(i + 1).last() == opts[i as int]);
            assert(r@ =~= options_text(prefix@, opts.take(i as int)) + " "@ + option_tag(
                opts[i as int],
            ));
        }
        i += 1;
    }
    proof {
        assert(opts.take(opts.len() as int) =~= opts);
    }
    r
}

/// The entries of the main menu.
pub open spec fn main_option_names() -> Seq<Seq<char>> {
    seq!["Add"@, "Remove"@, "Show"@, "Enable"@, "Disable"@, "Configure"@, "Quit"@]
}

/// The entries of the registry category menu.
pub open spec fn conf_option_names() -> Seq<Seq<char>> {
    seq!["Hosts"@, "Targets"@, "Quit"@]
}

/// The entries of the registry operation menu.
pub open spec fn conf_sub_option_names() -> Seq<Seq<char>> {
    seq!["Add"@, "Remove"@, "Quit"@]
}

/// The main menu line.
pub fn get_main_options() -> (r: String)
    ensures
        r@ == options_text("Options"@, main_option_names()),
{
    proof {
        reveal_strlit("Add");
        reveal_strlit("Remove");
        reveal_strlit("Show");
        reveal_strlit("Enable");
        reveal_strlit("Disable");
        reveal_strlit("Configure");
        reveal_strlit("Quit");
    }
    let options = vec!["Add", "Remove", "Show", "Enable", "Disable", "Configure", "Quit"];
    proof {
        assert(options@.map_values(|s: &str| s@) =~= main_option_names());
    }
    map_options("Options", options)
}

/// The registry category menu line.
pub fn get_conf_options() -> (r: String)
    ensures
        r@ == options_text("Configure"@, conf_option_names()),
{
    proof {
        reveal_strlit("Hosts");
        reveal_strlit("Targets");
        reveal_strlit("Quit");
    }
    let options = vec!["Hosts", "Targets", "Quit"];
    proof {
        assert(options@.map_values(|s: &str| s@) =~= conf_option_names());
    }
    map_options("Configure", options)
}

/// The registry operation menu line.
pub fn get_conf_sub_options() -> (r: String)
    ensures
        r@ == options_text("Configure"@, conf_sub_option_names()),
{
    proof {
        reveal_strlit("Add");
        reveal_strlit("Remove");
        reveal_strlit("Quit");
    }
    let options = vec!["Add", "Remove", "Quit"];
    proof {
        assert(options@.map_values(|s: &str| s@) =~= conf_sub_option_names());
    }
    map_options("Configure", options)
}

/// One line of an enumerated list: the zero-padded index in brackets, then
/// the value.
pub open spec fn indexed_line(i: nat, w: nat, value: Seq<char>) -> Seq<char> {
    "["@ + zero_padded_dec(i, w) + "]: "@ + value
}

/// The lines of an enumerated list, indices padded to a common width.
pub open spec fn indexed_lines_spec(values: Seq<Seq<char>>) -> Seq<Seq<char>> {
    let w = count_digits(values.len());
    Seq::new(values.len(), |i: int| indexed_line(i as nat, w, values[i]))
}

/// Renders the values as an enumerated list for selection by index.
pub fn indexed_lines(values: &Vec<String>) -> (r: Vec<String>)
    ensures
        views(r@) == indexed_lines_spec(views(values@)),
{
    let w = index_width(values.len());
    let mut lines: Vec<String> = Vec::new();
    let mut i: usize = 0;
    while i < values.len()
        invariant
            i <= values@.len(),
            w == count_digits(values@.len() as nat),
            views(lines@) =~= indexed_lines_spec(views(values@)).take(i as int),
        decreases values@.len() - i,
    {
        let ghost before = views(lines@);
        let mut line = String::from_str("[");
        let padded = u64_to_dec_padded(i as u64, w);
        line.append(padded.as_str());
        line.append("]: ");
        line.append(values[i].as_str());
        proof {
            assert(line@ =~= indexed_line(i as nat, w as nat, views(values@)[i as int]));
        }
        lines.push(line);
        proof {
            let full = indexed_lines_spec(views(values@));
            assert(views(lines@) =~= before.push(full[i as int]));
            assert(full.take(i + 1) =~= full.take(i as int).push(full[i as int]));
        }
        i += 1;
    }
    proof {
        assert(indexed_lines_spec(views(values@)).take(values@.len() as int) =~= indexed_lines_spec(
            views(values@),
        ));
    }
    lines
}

} // verus!
