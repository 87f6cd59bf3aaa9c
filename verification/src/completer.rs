//! Completion of the first word of a line to the names of commands.

use vstd::prelude::*;
use vstd::string::StringExecFns;
use crate::text::{chars_of, has_char, starts_with, views};

verus! {

/// Whether a line can be completed with the cursor at the byte `pos`: it
/// holds no space yet, and the cursor stands at its end.
pub open spec fn completes(line: Seq<char>, pos: usize) -> bool {
    !line.contains(' ') && vstd::utf8::encode_utf8(line).len() as usize == pos
}

/// The names of `commands` that begin with `line`, each with a space behind
/// it, in the order of `commands`.
pub open spec fn candidates(line: Seq<char>, commands: Seq<Seq<char>>) -> Seq<Seq<char>> {
    commands.filter(|name: Seq<char>| line.is_prefix_of(name)).map_values(
        |name: Seq<char>| name + " "@,
    )
}

/// The completions of `line` with the cursor at the byte `pos`: the start of
/// the word that they replace, which is the start of the line, and the names
/// of `commands` that begin with the line, each with a space behind it. The
/// match is exact in case. A line that holds a space, or a cursor that is
/// not at the end of the line, gets none.
pub fn complete(line: &str, pos: usize, commands: &Vec<String>) -> (r: (usize, Vec<String>))
    ensures
        r.0 == 0,
        views(r.1@) == if completes(line@, pos) {
            candidates(line@, views(commands@))
        } else {
            Seq::<Seq<char>>::empty()
        },
{
    let chars = chars_of(line);
    let mut results: Vec<String> = Vec::new();
    assert(views(results@) =~= Seq::<Seq<char>>::empty());
    if has_char(&chars, ' ') || line.len() != pos {
        return (0, results);
    }
    let ghost all = views(commands@);
    let ghost matching = |name: Seq<char>| line@.is_prefix_of(name);
    let ghost spaced = |name: Seq<char>| name + " "@;
    let mut i: usize = 0;
    assert(all.take(0).filter(matching) =~= Seq::<Seq<char>>::empty());
    while i < commands.len()
        invariant
            i <= commands.len(),
            chars@ == line@,
            all == views(commands@),
            matching == (|name: Seq<char>| line@.is_prefix_of(name)),
            spaced == (|name: Seq<char>| name + " "@),
            views(results@) == all.take(i as int).filter(matching).map_values(spaced),
        decreases commands.len() - i,
    {
        let name = chars_of(commands[i].as_str());
        let ghost kept = views(results@);
        proof {
            assert(all.take(i + 1) =~= all.take(i as int).push(name@));
            all.take(i as int).lemma_filter_push(name@, matching);
        }
        if starts_with(&name, &chars) {
            let mut entry = commands[i].clone();
            entry.append(" ");
            results.push(entry);
            assert(views(results@) =~= kept.push(name@ + " "@));
            assert(all.take(i as int).filter(matching).push(name@).map_values(spaced) =~= kept.push(
                name@ + " "@,
            ));
        }
        i += 1;
    }
    assert(all.take(commands.len() as int) =~= all);
    (0, results)
}

} // verus!
