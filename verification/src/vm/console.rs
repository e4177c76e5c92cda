//! Connecting the host terminal to the guest's virtio console.
//!
//! Keystrokes are forwarded to the guest, but for the escape key (Ctrl-]),
//! which is counted instead. The guest's console can't tell what kind of
//! terminal it is connected to or how large it is, so a third port carries
//! both: when the guest asks, it is sent the terminal's type ($TERM and
//! $COLORTERM) and size, and the size again whenever the terminal is resized.
use vstd::prelude::*;
use vstd::string::*;

use crate::number::{dec, decimal};
use crate::path::sub_bytes;
use crate::text::text_view;

verus! {

/// Ctrl-]
pub const ESCAPE_KEY: u8 = 0x1d;

// ---------------------------------------------------------------------------
// Keystrokes
// ---------------------------------------------------------------------------

/// Keystrokes to forward, and whether the escape key was pressed after them.
#[derive(Debug)]
pub struct Chunk {
    pub data: Vec<u8>,
    pub escaped: bool,
}

/// Keystrokes to forward, as a mathematical value.
pub struct ChunkView {
    pub data: Seq<u8>,
    pub escaped: bool,
}

impl View for Chunk {
    type V = ChunkView;

    open spec fn view(&self) -> ChunkView {
        ChunkView { data: self.data@, escaped: self.escaped }
    }
}

/// The chunks' values.
pub open spec fn chunk_views(v: Seq<Chunk>) -> Seq<ChunkView> {
    Seq::new(v.len(), |i: int| v[i]@)
}

/// Where the first escape key in `keys` is, or their number.
pub open spec fn escape_at(keys: Seq<u8>) -> nat {
    crate::text::find(keys, ESCAPE_KEY)
}

/// The keystrokes up to each escape key, and those behind the last one, if
/// any.
pub open spec fn chunks(keys: Seq<u8>) -> Seq<ChunkView>
    decreases keys.len(),
{
    let at = escape_at(keys) as int;
    if keys.len() == 0 {
        Seq::empty()
    } else if at < keys.len() {
        seq![ChunkView { data: keys.take(at), escaped: true }] + chunks(keys.skip(at + 1))
    } else {
        seq![ChunkView { data: keys, escaped: false }]
    }
}

/// Splits what was read from the keyboard at the escape keys.
pub fn split_keys(keys: &[u8]) -> (v: Vec<Chunk>)
    ensures
        chunk_views(v@) == chunks(keys@),
{
    let mut v: Vec<Chunk> = Vec::new();
    let mut from: usize = 0;
    assert(keys@.skip(0) == keys@);
    while from < keys.len()
        invariant
            from <= keys@.len(),
            chunks(keys@) == chunk_views(v@) + chunks(keys@.skip(from as int)),
        decreases keys.len() - from,
    {
        let ghost rest = keys@.skip(from as int);
        let ghost before = chunk_views(v@);
        let mut at = from;
        while at < keys.len() && keys[at] != ESCAPE_KEY
            invariant
                from <= at <= keys@.len(),
                rest == keys@.skip(from as int),
                forall|i: int| 0 <= i < at - from ==> rest[i] != ESCAPE_KEY,
            decreases keys.len() - at,
        {
            assert(rest[at - from] == keys@[at as int]);
            at += 1;
        }
        assert(at < keys@.len() ==> rest[at - from] == keys@[at as int]);
        proof {
            crate::text::lemma_find_at(rest, ESCAPE_KEY, at - from);
        }
        let data = sub_bytes(keys, from, at);
        assert(data@ == rest.take(at - from));
        if at < keys.len() {
            v.push(Chunk { data, escaped: true });
            assert(chunk_views(v@) == before.push(v@.last()@));
            assert(rest.skip(at - from + 1) == keys@.skip(at + 1));
            assert(before + (seq![v@.last()@] + chunks(keys@.skip(at + 1))) == before.push(
                v@.last()@,
            ) + chunks(keys@.skip(at + 1)));
            from = at + 1;
        } else {
            assert(rest.take(at - from) == rest);
            v.push(Chunk { data, escaped: false });
            assert(chunk_views(v@) == before.push(v@.last()@));
            assert(before + seq![v@.last()@] == before.push(v@.last()@) + chunks(
                keys@.skip(at as int),
            ));
            from = at;
        }
    }
    assert(chunks(keys@.skip(from as int)).len() == 0);
    v
}

/// All keystrokes that are forwarded.
pub open spec fn forwarded(list: Seq<ChunkView>) -> Seq<u8>
    decreases list.len(),
{
    if list.len() == 0 {
        Seq::empty()
    } else {
        list[0].data + forwarded(list.skip(1))
    }
}

/// How often the escape key was pressed.
pub open spec fn escapes_in(list: Seq<ChunkView>) -> nat
    decreases list.len(),
{
    if list.len() == 0 {
        0
    } else {
        (if list[0].escaped {
            1nat
        } else {
            0
        }) + escapes_in(list.skip(1))
    }
}

/// The keystrokes without the escape keys.
pub open spec fn without_escapes(keys: Seq<u8>) -> Seq<u8>
    decreases keys.len(),
{
    if keys.len() == 0 {
        Seq::empty()
    } else if keys[0] == ESCAPE_KEY {
        without_escapes(keys.skip(1))
    } else {
        seq![keys[0]] + without_escapes(keys.skip(1))
    }
}

/// How many of the keystrokes are escape keys.
pub open spec fn count_escapes(keys: Seq<u8>) -> nat
    decreases keys.len(),
{
    if keys.len() == 0 {
        0
    } else {
        (if keys[0] == ESCAPE_KEY {
            1nat
        } else {
            0
        }) + count_escapes(keys.skip(1))
    }
}

proof fn lemma_plain_keys(keys: Seq<u8>, n: int)
    requires
        0 <= n <= keys.len(),
        forall|i: int| 0 <= i < n ==> keys[i] != ESCAPE_KEY,
    ensures
        without_escapes(keys) == keys.take(n) + without_escapes(keys.skip(n)),
        count_escapes(keys) == count_escapes(keys.skip(n)),
    decreases n,
{
    if n == 0 {
        assert(keys.skip(0) == keys);
        assert(keys.take(0) + without_escapes(keys) == without_escapes(keys));
    } else {
        let rest = keys.skip(1);
        assert forall|i: int| 0 <= i < n - 1 implies rest[i] != ESCAPE_KEY by {
            assert(rest[i] == keys[i + 1]);
        }
        lemma_plain_keys(rest, n - 1);
        assert(rest.skip(n - 1) == keys.skip(n));
        assert(seq![keys[0]] + (rest.take(n - 1) + without_escapes(keys.skip(n))) == keys.take(n)
            + without_escapes(keys.skip(n)));
    }
}

/// The guest gets every keystroke but the escape keys, in order, and every
/// escape key is counted.
pub proof fn law_keys_reach_the_guest(keys: Seq<u8>)
    ensures
        forwarded(chunks(keys)) == without_escapes(keys),
        escapes_in(chunks(keys)) == count_escapes(keys),
    decreases keys.len(),
{
    let at = escape_at(keys) as int;
    crate::text::lemma_find(keys, ESCAPE_KEY);
    if keys.len() > 0 {
        lemma_plain_keys(keys, at);
        let list = chunks(keys);
        if at < keys.len() {
            let rest = keys.skip(at + 1);
            law_keys_reach_the_guest(rest);
            assert(list.skip(1) == chunks(rest));
            assert(keys.skip(at)[0] == ESCAPE_KEY);
            assert(keys.skip(at).skip(1) == rest);
        } else {
            assert(keys.skip(at) == Seq::<u8>::empty());
            assert(keys.take(at) == keys);
            assert(list.skip(1) == Seq::<ChunkView>::empty());
            assert(forwarded(list.skip(1)) == Seq::<u8>::empty());
            assert(escapes_in(list.skip(1)) == 0);
        }
    }
}

// ---------------------------------------------------------------------------
// The terminal's type and size
// ---------------------------------------------------------------------------

/// A character of a terminal's name: a letter, a digit or one of `._+-`.
pub open spec fn terminal_char(c: char) -> bool {
    ||| '0' <= c <= '9'
    ||| 'A' <= c <= 'Z'
    ||| 'a' <= c <= 'z'
    ||| c == '.'
    ||| c == '_'
    ||| c == '+'
    ||| c == '-'
}

/// Text that looks like a terminal's name.
pub open spec fn terminal_name(s: Seq<char>) -> bool {
    s.len() > 0 && forall|i: int| 0 <= i < s.len() ==> terminal_char(#[trigger] s[i])
}

/// Whether `value` looks like a terminal's name.
pub fn is_terminal_name(value: &str) -> (r: bool)
    ensures
        r == terminal_name(value@),
{
    let chars = crate::text::chars_of(value);
    if chars.len() == 0 {
        return false;
    }
    let mut i: usize = 0;
    while i < chars.len()
        invariant
            i <= chars@.len(),
            chars@ == value@,
            forall|j: int| 0 <= j < i ==> terminal_char(#[trigger] value@[j]),
        decreases chars.len() - i,
    {
        let c = chars[i];
        if !(('0' <= c && c <= '9') || ('A' <= c && c <= 'Z') || ('a' <= c && c <= 'z') || c == '.'
            || c == '_' || c == '+' || c == '-') {
            assert(!terminal_char(value@[i as int]));
            return false;
        }
        i += 1;
    }
    true
}

/// The terminal's type as a line. Values that are unset or don't look like a
/// terminal's name are left out, and so is the color type if the type is.
pub open spec fn terminal_type_line(term: Option<Seq<char>>, color: Option<Seq<char>>) -> Seq<
    char,
> {
    if term is Some && terminal_name(term->0) {
        if color is Some && terminal_name(color->0) {
            "term"@.push(' ') + term->0.push(' ') + color->0.push('\n')
        } else {
            "term"@.push(' ') + term->0.push('\n')
        }
    } else {
        "term"@.push('\n')
    }
}

/// The terminal's type as a `term <TERM> [<COLORTERM>]` line.
pub fn terminal_type(term: &Option<String>, color: &Option<String>) -> (line: String)
    ensures
        line@ == terminal_type_line(text_view(*term), text_view(*color)),
{
    let mut line = "term".to_owned();
    match term {
        Some(value) => if is_terminal_name(value.as_str()) {
            line.push(' ');
            line.append(value.as_str());
            match color {
                Some(value) => if is_terminal_name(value.as_str()) {
                    line.push(' ');
                    line.append(value.as_str());
                },
                None => {},
            }
        },
        None => {},
    }
    line.push('\n');
    assert(line@ == terminal_type_line(text_view(*term), text_view(*color)));
    line
}

/// Whatever the terminal's type is set to, what the guest reads of it is one
/// line.
pub proof fn law_type_is_one_line(term: Option<Seq<char>>, color: Option<Seq<char>>)
    ensures
        crate::text::lines(terminal_type_line(term, color)) == seq![
            terminal_type_line(term, color).drop_last(),
        ],
{
    let line = terminal_type_line(term, color);
    let body = line.drop_last();
    reveal_strlit("term");
    assert forall|i: int| 0 <= i < body.len() implies !crate::text::is_control(
        #[trigger] body[i],
    ) by {
        if term is Some && terminal_name(term->0) {
            let n = term->0.len() as int;
            if 5 <= i < 5 + n {
                assert(terminal_char(term->0[i - 5]));
            } else if i > 5 + n {
                assert(terminal_char(color->0[i - 6 - n]));
            }
        }
    }
    assert(crate::mounts::one_line(body));
    crate::mounts::lemma_lines_read_back(seq![body], Seq::empty());
    assert(seq![body].drop_last() == Seq::<Seq<char>>::empty());
    assert(crate::mounts::text_of_lines(Seq::<Seq<char>>::empty()) == Seq::<char>::empty());
    assert(crate::mounts::text_of_lines(seq![body]) + Seq::<char>::empty() == line);
    assert(crate::text::lines(Seq::<char>::empty()) == Seq::<Seq<char>>::empty());
    assert(seq![body] + Seq::<Seq<char>>::empty() == seq![body]);
}

/// The size of a terminal.
#[derive(Clone, Copy, Debug, PartialEq, Eq, Structural)]
pub struct TerminalSize {
    pub rows: u16,
    pub cols: u16,
}

/// The terminal's size as a line; none if it isn't known.
pub open spec fn terminal_size_line(size: Option<TerminalSize>) -> Option<Seq<char>> {
    match size {
        Some(size) => if size.rows == 0 || size.cols == 0 {
            None
        } else {
            Some(dec(size.rows as nat) + " "@ + dec(size.cols as nat) + "\n"@)
        },
        None => None,
    }
}

/// The terminal's size as a `<rows> <cols>` line, if stdout is a terminal
/// that says how large it is.
pub fn terminal_size(size: Option<TerminalSize>) -> (line: Option<String>)
    ensures
        text_view(line) == terminal_size_line(size),
{
    match size {
        Some(size) => if size.rows == 0 || size.cols == 0 {
            None
        } else {
            Some(
                decimal(size.rows as u64).concat(" ").concat(
                    decimal(size.cols as u64).as_str(),
                ).concat("\n"),
            )
        },
        None => None,
    }
}

/// What came in at a port.
#[derive(Debug)]
pub enum Incoming {
    /// Nothing to read.
    Nothing,
    /// The other side is gone, or reading failed.
    Closed,
    /// These bytes.
    Data(Vec<u8>),
}

/// The question mark with which the guest asks for the terminal.
pub const QUESTION: u8 = 63;

/// Which of the two descriptors that wake up the sender are still open.
#[derive(Clone, Copy, Debug, PartialEq, Eq, Structural)]
pub struct TerminalPort {
    /// Signalled when the terminal is resized.
    pub resize: bool,
    /// What the guest writes.
    pub guest: bool,
}

/// What the guest is to be told.
#[derive(Clone, Copy, Debug, PartialEq, Eq, Structural)]
pub struct Wanted {
    /// The guest asked for the terminal.
    pub asked: bool,
    /// The terminal was resized.
    pub resized: bool,
}

impl TerminalPort {
    /// Both descriptors are open at first.
    pub fn new() -> (p: Self)
        ensures
            p == (TerminalPort { resize: true, guest: true }),
    {
        TerminalPort { resize: true, guest: true }
    }

    /// Takes in what came in. A descriptor that is closed stays so.
    pub fn receive(&mut self, resize: &Incoming, guest: &Incoming) -> (w: Wanted)
        ensures
            w.asked == (guest is Data && guest->Data_0@.contains(QUESTION)),
            w.asked <==> guest is Data && guest->Data_0@.contains(63u8),
            w.resized == (resize is Data),
            final(self).resize == (old(self).resize && resize !is Closed),
            final(self).guest == (old(self).guest && guest !is Closed),
    {
        let resized = match resize {
            Incoming::Nothing => false,
            Incoming::Closed => {
                self.resize = false;
                false
            },
            Incoming::Data(_) => true,
        };
        let asked = match guest {
            Incoming::Nothing => false,
            Incoming::Closed => {
                self.guest = false;
                false
            },
            Incoming::Data(bytes) => has_byte(bytes.as_slice(), QUESTION),
        };
        Wanted { asked, resized }
    }
}

/// Whether `b` is among `bytes`.
fn has_byte(bytes: &[u8], b: u8) -> (r: bool)
    ensures
        r == bytes@.contains(b),
{
    let mut i: usize = 0;
    while i < bytes.len()
        invariant
            i <= bytes@.len(),
            forall|j: int| 0 <= j < i ==> bytes@[j] != b,
        decreases bytes.len() - i,
    {
        if bytes[i] == b {
            assert(bytes@[i as int] == b);
            return true;
        }
        i += 1;
    }
    false
}

/// What the guest is sent: the terminal's type if it asked, and the size if
/// it asked or the terminal was resized.
pub open spec fn terminal_message(
    wanted: Wanted,
    term: Option<Seq<char>>,
    color: Option<Seq<char>>,
    size: Option<TerminalSize>,
) -> Seq<char> {
    let head = if wanted.asked {
        terminal_type_line(term, color)
    } else {
        Seq::empty()
    };
    if (wanted.asked || wanted.resized) && terminal_size_line(size) is Some {
        head + terminal_size_line(size)->0
    } else {
        head
    }
}

/// What to send to the guest, which may be nothing.
pub fn send_terminal(
    wanted: Wanted,
    term: &Option<String>,
    color: &Option<String>,
    size: Option<TerminalSize>,
) -> (message: String)
    ensures
        message@ == terminal_message(wanted, text_view(*term), text_view(*color), size),
{
    let mut message = String::new();
    if wanted.asked {
        message.append(terminal_type(term, color).as_str());
    }
    assert(message@ == (if wanted.asked {
        terminal_type_line(text_view(*term), text_view(*color))
    } else {
        Seq::empty()
    }));
    if wanted.asked || wanted.resized {
        match terminal_size(size) {
            Some(line) => {
                message.append(line.as_str());
            },
            None => {},
        }
    }
    message
}

// ---------------------------------------------------------------------------
// Where the output goes
// ---------------------------------------------------------------------------

/// Where the output of a port goes.
#[derive(Clone, Copy, Debug, PartialEq, Eq, Structural)]
pub enum Output {
    /// Nowhere.
    Discard,
    /// To stdout.
    Show,
    /// To stdout and to the log.
    ShowAndLog,
}

/// Where the guest's ports go.
#[derive(Clone, Copy, Debug, PartialEq, Eq, Structural)]
pub struct Routing {
    /// The login console, /dev/hvc0 in the guest.
    pub main: Output,
    /// Output-only port for provisioning, /dev/hvc1 in the guest.
    pub log: Output,
    /// Whether Ctrl-C keeps raising SIGINT instead of reaching the guest.
    pub keep_signals: bool,
}

/// Without a log, the login console is shown. With one, it is discarded, and
/// the second port's output is shown and logged: nothing runs a getty on that
/// port, so provisioning output can't be cut off by one hanging up the
/// terminal. Nothing in the guest reads keystrokes then.
pub fn attach(log: bool) -> (r: Routing)
    ensures
        log ==> r == (Routing {
            main: Output::Discard,
            log: Output::ShowAndLog,
            keep_signals: true,
        }),
        !log ==> r == (Routing { main: Output::Show, log: Output::Discard, keep_signals: false }),
{
    if log {
        Routing { main: Output::Discard, log: Output::ShowAndLog, keep_signals: true }
    } else {
        Routing { main: Output::Show, log: Output::Discard, keep_signals: false }
    }
}

} // verus!
