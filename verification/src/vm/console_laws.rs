//! What the console sends.
use vstd::prelude::*;
use vstd::string::*;

use super::console::{
    chunks, terminal_char, terminal_message, terminal_name, terminal_size_line, terminal_type_line,
    ChunkView, TerminalSize, Wanted,
};
use crate::number::dec;
use crate::text::lemma_find_at;

verus! {

/// Keystrokes before the first escape key go out together, and the escape key
/// is counted behind them; what follows is treated in the same way. Without an
/// escape key they all go out, and nothing is counted.
pub proof fn law_escape_key(before: Seq<u8>, rest: Seq<u8>)
    requires
        !before.contains(0x1du8),
    ensures
        chunks(before.push(0x1du8) + rest) == seq![ChunkView { data: before, escaped: true }]
            + chunks(rest),
        before.len() > 0 ==> chunks(before) == seq![ChunkView { data: before, escaped: false }],
        chunks(Seq::empty()) == Seq::<ChunkView>::empty(),
{
    let keys = before.push(0x1du8) + rest;
    let n = before.len() as int;
    assert forall|i: int| 0 <= i < n implies before[i] != 0x1du8 by {
        assert(before.contains(before[i]));
    }
    assert forall|i: int| 0 <= i < n implies keys[i] != 0x1du8 by {
        assert(keys[i] == before[i]);
    }
    assert(keys[n] == 0x1du8);
    lemma_find_at(keys, 0x1du8, n);
    lemma_find_at(before, 0x1du8, n);
    assert(keys.take(n) == before);
    assert(keys.skip(n + 1) == rest);
}

/// Whether `c` may stand in a terminal's name, by its code point.
pub open spec fn name_code(c: int) -> bool {
    ||| 48 <= c < 58
    ||| 65 <= c < 91
    ||| 97 <= c < 123
    ||| c == 43
    ||| c == 45
    ||| c == 46
    ||| c == 95
}

/// A terminal's name is one or more letters, digits, dots, underscores, pluses
/// and hyphens.
pub proof fn law_terminal_names(s: Seq<char>)
    ensures
        terminal_name(s) <==> s.len() > 0 && forall|i: int|
            0 <= i < s.len() ==> name_code(#[trigger] s[i] as int),
{
    assert forall|i: int| 0 <= i < s.len() implies terminal_char(#[trigger] s[i]) == name_code(
        s[i] as int,
    ) by {
    }
    if s.len() > 0 && forall|i: int| 0 <= i < s.len() ==> name_code(#[trigger] s[i] as int) {
        assert forall|i: int| 0 <= i < s.len() implies terminal_char(#[trigger] s[i]) by {
            assert(name_code(s[i] as int));
        }
    }
    if terminal_name(s) {
        assert forall|i: int| 0 <= i < s.len() implies name_code(#[trigger] s[i] as int) by {
            assert(terminal_char(s[i]));
        }
    }
}

/// The guest is told the terminal's type and color type as they are set,
/// but for values that are no names.
pub proof fn law_terminal_type(term: Seq<char>, color: Seq<char>, bad: Option<Seq<char>>)
    requires
        terminal_name(term),
        terminal_name(color),
        bad is Some ==> !terminal_name(bad->0),
    ensures
        terminal_type_line(Some(term), Some(color)) == seq!['t', 'e', 'r', 'm', ' '] + term + seq![
            ' ',
        ] + color + seq!['\n'],
        terminal_type_line(Some(term), bad) == seq!['t', 'e', 'r', 'm', ' '] + term + seq!['\n'],
        terminal_type_line(bad, Some(color)) == seq!['t', 'e', 'r', 'm', '\n'],
        terminal_type_line(bad, bad) == seq!['t', 'e', 'r', 'm', '\n'],
{
    reveal_strlit("term");
    assert("term"@ == seq!['t', 'e', 'r', 'm']);
    assert(terminal_type_line(Some(term), Some(color)) =~= seq!['t', 'e', 'r', 'm', ' '] + term
        + seq![' '] + color + seq!['\n']);
    assert(terminal_type_line(Some(term), bad) =~= seq!['t', 'e', 'r', 'm', ' '] + term + seq![
        '\n',
    ]);
    assert(terminal_type_line(bad, Some(color)) =~= seq!['t', 'e', 'r', 'm', '\n']);
    assert(terminal_type_line(bad, bad) =~= seq!['t', 'e', 'r', 'm', '\n']);
}

/// The guest is told rows and columns, in this order, if both are known.
pub proof fn law_terminal_size(size: TerminalSize)
    ensures
        size.rows > 0 && size.cols > 0 ==> terminal_size_line(Some(size)) == Some(
            dec(size.rows as nat) + seq![' '] + dec(size.cols as nat) + seq!['\n'],
        ),
        size.rows == 0 || size.cols == 0 ==> terminal_size_line(Some(size)) is None,
        terminal_size_line(None) is None,
{
    reveal_strlit(" ");
    reveal_strlit("\n");
    assert(" "@ == seq![' ']);
    assert("\n"@ == seq!['\n']);
}

/// A guest that asked gets the type and then the size; one whose terminal was
/// resized gets the size; and others get nothing.
pub proof fn law_terminal_message(
    wanted: Wanted,
    term: Option<Seq<char>>,
    color: Option<Seq<char>>,
    size: Option<TerminalSize>,
)
    ensures
        ({
            let said = terminal_message(wanted, term, color, size);
            let kind = terminal_type_line(term, color);
            let line = terminal_size_line(size);
            &&& wanted.asked && line is Some ==> said == kind + line->0
            &&& wanted.asked && line is None ==> said == kind
            &&& !wanted.asked && wanted.resized && line is Some ==> said == line->0
            &&& !wanted.asked && (!wanted.resized || line is None) ==> said == Seq::<char>::empty()
        }),
{
    let line = terminal_size_line(size);
    if line is Some {
        assert(Seq::<char>::empty() + line->0 == line->0);
    }
}

} // verus!
