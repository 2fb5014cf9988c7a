//! The pure decision logic of the terminal interface: what each key press
//! does to the interface state, which actions it asks of the surrounding
//! event loop, and how a line's highlights and header fields are laid out
//! for display.  The event loop itself (terminal I/O, key reading,
//! painting) lives outside the library and only carries these decisions
//! out.

use crate::highlight::Highlight;
use crate::mbox::{Message, Status};
use crate::text::string_push;
use vstd::prelude::*;
use vstd::string::StrSliceExecFns;
use vstd::string::StringExecFns;

verus! {

/// How the interface session ended: with the mailbox to be written back,
/// or discarding all changes.
#[derive(Clone, Copy, Debug, PartialEq, Eq, Structural)]
pub enum ExitType {
    NoChange,
    Update,
}

/// An action the event loop must carry out on behalf of a key decision:
/// move the selection, or flag the selected message.
#[derive(Clone, Copy, Debug, PartialEq, Eq, Structural)]
pub enum UiAction {
    SelectNext,
    SelectPrev,
    MarkSelected(Status),
}

/// The interface state the library decides over: whether the session is
/// finished, how far the body pane is scrolled, and whether long lines
/// wrap.  (The selected message index lives in the widget state outside.)
#[derive(Clone, Copy, Debug, PartialEq, Eq)]
pub struct UiState {
    pub finished: Option<ExitType>,
    pub scroll_count: usize,
    pub wrap: bool,
}

/// How many lines one page-scroll key press moves the body pane.
pub const SCROLL_LINES_COUNT: usize = 24;

/// What a key press does: the interface state after it, and the actions
/// the event loop must carry out, in order.
pub open spec fn spec_handle_key(pre: UiState, key: char) -> (UiState, Seq<UiAction>) {
    if key == 'q' {
        (UiState { finished: Some(ExitType::Update), ..pre }, Seq::empty())
    } else if key == 'x' {
        (UiState { finished: Some(ExitType::NoChange), ..pre }, Seq::empty())
    } else if key == 'j' {
        (
            UiState { scroll_count: 0, ..pre },
            seq![UiAction::SelectNext, UiAction::MarkSelected(Status::Read)],
        )
    } else if key == 'k' {
        (
            UiState { scroll_count: 0, ..pre },
            seq![UiAction::SelectPrev, UiAction::MarkSelected(Status::Read)],
        )
    } else if key == ' ' {
        (
            UiState {
                scroll_count: if pre.scroll_count + SCROLL_LINES_COUNT > usize::MAX {
                    usize::MAX
                } else {
                    (pre.scroll_count + SCROLL_LINES_COUNT) as usize
                },
                ..pre
            },
            Seq::empty(),
        )
    } else if key == 'b' {
        (
            UiState {
                scroll_count: if pre.scroll_count >= SCROLL_LINES_COUNT {
                    (pre.scroll_count - SCROLL_LINES_COUNT) as usize
                } else {
                    0
                },
                ..pre
            },
            Seq::empty(),
        )
    } else if key == 'g' {
        (UiState { scroll_count: 0, ..pre }, Seq::empty())
    } else if key == 's' {
        (UiState { wrap: !pre.wrap, ..pre }, Seq::empty())
    } else if key == 'd' {
        (
            UiState { scroll_count: 0, ..pre },
            seq![
                UiAction::MarkSelected(Status::Deleted),
                UiAction::SelectNext,
                UiAction::MarkSelected(Status::Read),
            ],
        )
    } else {
        (pre, Seq::empty())
    }
}

impl UiState {
    /// The state a session starts in: not finished, top of the body pane,
    /// no wrapping.
    pub fn new() -> (r: UiState)
        ensures
            r == (UiState { finished: None, scroll_count: 0, wrap: false }),
    {
        UiState { finished: None, scroll_count: 0, wrap: false }
    }

    /// Whether the session ended asking for the mailbox to be written
    /// back.
    pub fn should_save(&self) -> (r: bool)
        ensures
            r == (self.finished == Some(ExitType::Update)),
    {
        match self.finished {
            Some(ExitType::Update) => true,
            _ => false,
        }
    }

    /// Apply one key press (see [`spec_handle_key`]) and return the
    /// actions the event loop must carry out, in order.
    pub fn handle_key(&mut self, key: char) -> (actions: Vec<UiAction>)
        ensures
            *final(self) == spec_handle_key(*old(self), key).0,
            actions@ == spec_handle_key(*old(self), key).1,
    {
        let mut actions: Vec<UiAction> = Vec::new();
        if key == 'q' {
            self.finished = Some(ExitType::Update);
        } else if key == 'x' {
            self.finished = Some(ExitType::NoChange);
        } else if key == 'j' {
            self.scroll_count = 0;
            actions.push(UiAction::SelectNext);
            actions.push(UiAction::MarkSelected(Status::Read));
        } else if key == 'k' {
            self.scroll_count = 0;
            actions.push(UiAction::SelectPrev);
            actions.push(UiAction::MarkSelected(Status::Read));
        } else if key == ' ' {
            self.scroll_count = self.scroll_count.saturating_add(SCROLL_LINES_COUNT);
        } else if key == 'b' {
            self.scroll_count = self.scroll_count.saturating_sub(SCROLL_LINES_COUNT);
        } else if key == 'g' {
            self.scroll_count = 0;
        } else if key == 's' {
            self.wrap = !self.wrap;
        } else if key == 'd' {
            self.scroll_count = 0;
            actions.push(UiAction::MarkSelected(Status::Deleted));
            actions.push(UiAction::SelectNext);
            actions.push(UiAction::MarkSelected(Status::Read));
        }
        proof {
            assert(actions@ =~= spec_handle_key(*old(self), key).1);
        }
        actions
    }
}

/// One display span of a line: the half-open byte range `[begin, end)`,
/// painted with palette entry `colour` or left unstyled.
#[derive(Clone, Copy, Debug, PartialEq, Eq)]
pub struct TextSpan {
    pub begin: usize,
    pub end: usize,
    pub colour: Option<u8>,
}

/// How a line of `len` bytes with highlights `hs` is laid out for display:
/// a line without highlights is one unstyled span; otherwise an unstyled
/// span up to the first highlight (if it starts past 0), one coloured span
/// per highlight in order, and an unstyled span after the last highlight
/// (if it ends before the line does).
pub open spec fn spec_line_spans(len: usize, hs: Seq<Highlight>) -> Seq<TextSpan> {
    if hs.len() == 0 {
        seq![TextSpan { begin: 0, end: len, colour: None }]
    } else {
        let mids = hs.map_values(
            |h: Highlight| TextSpan { begin: h.begin, end: h.end, colour: Some(h.colour) },
        );
        let pre = if hs[0].begin > 0 {
            seq![TextSpan { begin: 0, end: hs[0].begin, colour: None }]
        } else {
            Seq::<TextSpan>::empty()
        };
        let post = if hs.last().end < len {
            seq![TextSpan { begin: hs.last().end, end: len, colour: None }]
        } else {
            Seq::<TextSpan>::empty()
        };
        pre + mids + post
    }
}

/// Lay a line of `len` bytes with highlights `hs` out for display (see
/// [`spec_line_spans`]).
pub fn line_spans(len: usize, hs: &Vec<Highlight>) -> (r: Vec<TextSpan>)
    ensures
        r@ == spec_line_spans(len, hs@),
{
    let mut r: Vec<TextSpan> = Vec::new();
    let n = hs.len();
    if n == 0 {
        r.push(TextSpan { begin: 0, end: len, colour: None });
        proof {
            assert(r@ =~= spec_line_spans(len, hs@));
        }
        return r;
    }
    let ghost mids = hs@.map_values(
        |h: Highlight| TextSpan { begin: h.begin, end: h.end, colour: Some(h.colour) },
    );
    let ghost pre = if hs@[0].begin > 0 {
        seq![TextSpan { begin: 0, end: hs@[0].begin, colour: None }]
    } else {
        Seq::<TextSpan>::empty()
    };
    if hs[0].begin > 0 {
        r.push(TextSpan { begin: 0, end: hs[0].begin, colour: None });
    }
    let mut k: usize = 0;
    while k < n
        invariant
            k <= n,
            n == hs@.len(),
            mids == hs@.map_values(
                |h: Highlight| TextSpan { begin: h.begin, end: h.end, colour: Some(h.colour) },
            ),
            pre == (if hs@[0].begin > 0 {
                seq![TextSpan { begin: 0, end: hs@[0].begin, colour: None }]
            } else {
                Seq::<TextSpan>::empty()
            }),
            r@ == pre + mids.take(k as int),
        decreases n - k,
    {
        let h = hs[k];
        r.push(TextSpan { begin: h.begin, end: h.end, colour: Some(h.colour) });
        proof {
            assert(r@ =~= pre + mids.take(k + 1 as int));
        }
        k += 1;
    }
    proof {
        assert(mids.take(n as int) =~= mids);
    }
    if hs[n - 1].end < len {
        r.push(TextSpan { begin: hs[n - 1].end, end: len, colour: None });
    }
    proof {
        assert(r@ =~= spec_line_spans(len, hs@));
    }
    r
}

/// The first position at or after `i` where the characters `a`, `b` stand
/// next to each other in `s`.
pub open spec fn find_pair_from(s: Seq<char>, a: char, b: char, i: int) -> Option<int>
    decreases s.len() - i,
{
    if i < 0 || i + 2 > s.len() {
        None
    } else if s[i] == a && s[i + 1] == b {
        Some(i)
    } else {
        find_pair_from(s, a, b, i + 1)
    }
}

/// Find the first position at or after `from` where the characters `a`,
/// `b` stand next to each other in `s`.
pub fn find_pair(s: &str, a: char, b: char, from: usize) -> (r: Option<usize>)
    ensures
        match r {
            Some(p) => find_pair_from(s@, a, b, from as int) == Some(p as int),
            None => find_pair_from(s@, a, b, from as int) is None,
        },
{
    let n = s.unicode_len();
    if from > n {
        return None;
    }
    let mut i: usize = from;
    while i < n && i + 1 < n
        invariant
            from <= i,
            i <= n,
            n == s@.len(),
            forall|j: int| from <= j < i ==> !((#[trigger] s@[j]) == a && s@[j + 1] == b),
        decreases n - i,
    {
        if s.get_char(i) == a && s.get_char(i + 1) == b {
            proof {
                lemma_find_pair_skip(s@, a, b, from as int, i as int);
            }
            return Some(i);
        }
        i += 1;
    }
    proof {
        lemma_find_pair_skip(s@, a, b, from as int, i as int);
    }
    None
}

/// When the pair does not occur between `from` and `i`, the search may as
/// well start at `i`.
proof fn lemma_find_pair_skip(s: Seq<char>, a: char, b: char, from: int, i: int)
    requires
        0 <= from <= i,
        forall|j: int| from <= j < i ==> !((#[trigger] s[j]) == a && s[j + 1] == b),
    ensures
        find_pair_from(s, a, b, from) == find_pair_from(s, a, b, i),
    decreases i - from,
{
    if from < i && from + 2 <= s.len() {
        lemma_find_pair_skip(s, a, b, from + 1, i);
    }
}

/// A found pair lies at or after where the search began, and fits in the
/// text.
proof fn lemma_find_pair_props(s: Seq<char>, a: char, b: char, i: int)
    requires
        0 <= i,
        find_pair_from(s, a, b, i) is Some,
    ensures
        i <= find_pair_from(s, a, b, i).unwrap(),
        find_pair_from(s, a, b, i).unwrap() + 2 <= s.len(),
    decreases s.len() - i,
{
    if i + 2 <= s.len() && !(s[i] == a && s[i + 1] == b) {
        lemma_find_pair_props(s, a, b, i + 1);
    }
}

/// `n` space characters.
pub open spec fn spaces(n: nat) -> Seq<char> {
    Seq::new(n, |i: int| ' ')
}

/// The text of a header line as the selector shows it: the piece between
/// the first `": "` and the next one (to the end, when there is no second
/// one), or the whole line when it has no `": "` at all.
pub open spec fn second_piece(s: Seq<char>) -> Seq<char> {
    match find_pair_from(s, ':', ' ', 0) {
        None => s,
        Some(p) => match find_pair_from(s, ':', ' ', p + 2) {
            None => s.subrange(p + 2, s.len() as int),
            Some(q) => s.subrange(p + 2, q),
        },
    }
}

/// A header line prepared for a fixed-width selector column: its
/// [`second_piece`], cut to at most `width` characters and padded with
/// spaces up to `width`.
pub open spec fn spec_prepare_field(s: Seq<char>, width: usize) -> Seq<char> {
    let inner = second_piece(s);
    let cut = if inner.len() > width {
        inner.take(width as int)
    } else {
        inner
    };
    cut + spaces((width - cut.len()) as nat)
}

/// Prepare a header line for a fixed-width selector column (see
/// [`spec_prepare_field`]).
pub fn prepare_field(line: &str, width: usize) -> (r: String)
    ensures
        r@ == spec_prepare_field(line@, width),
{
    let n = line.unicode_len();
    let inner: &str = match find_pair(line, ':', ' ', 0) {
        None => line,
        Some(p) => {
            proof {
                lemma_find_pair_props(line@, ':', ' ', 0);
            }
            match find_pair(line, ':', ' ', p + 2) {
                None => line.substring_char(p + 2, n),
                Some(q) => {
                    proof {
                        lemma_find_pair_props(line@, ':', ' ', p + 2 as int);
                    }
                    line.substring_char(p + 2, q)
                },
            }
        },
    };
    let ilen = inner.unicode_len();
    let cut: &str = if ilen > width {
        inner.substring_char(0, width)
    } else {
        inner
    };
    let clen = cut.unicode_len();
    let mut out = cut.to_owned();
    let mut k: usize = clen;
    while k < width
        invariant
            clen <= k <= width,
            clen == cut@.len(),
            out@ == cut@ + spaces((k - clen) as nat),
        decreases width - k,
    {
        string_push(&mut out, ' ');
        proof {
            assert(out@ =~= cut@ + spaces((k + 1 - clen) as nat));
        }
        k += 1;
    }
    proof {
        assert(out@ =~= spec_prepare_field(line@, width));
    }
    out
}

/// A date line cut before its first ` +`: the time-zone tail of a date in
/// the usual mbox form is not shown in the selector.
pub open spec fn spec_date_head(s: Seq<char>) -> Seq<char> {
    match find_pair_from(s, ' ', '+', 0) {
        None => s,
        Some(p) => s.take(p),
    }
}

/// Cut a date line before its first ` +` (see [`spec_date_head`]).
pub fn date_head(line: &str) -> (r: &str)
    ensures
        r@ == spec_date_head(line@),
{
    match find_pair(line, ' ', '+', 0) {
        None => line,
        Some(p) => {
            proof {
                lemma_find_pair_props(line@, ' ', '+', 0);
            }
            line.substring_char(0, p)
        },
    }
}

/// The text of header field `f`, or `???` when the message lacks it.
pub open spec fn spec_field_or_unknown(m: Message, f: crate::mbox::FieldType) -> Seq<char> {
    match m.spec_field(f) {
        Some(t) => t,
        None => "???"@,
    }
}

/// One row of the message selector: a deleted mark (`D` or blank), a read
/// mark (blank when read, `U` when merely non-recent, `N` when new), and
/// the date (cut before its time zone), sender and subject fields in
/// fixed-width columns, separated by ` | `.
pub open spec fn spec_selector_row(m: Message) -> Seq<char> {
    let del: char = if m.spec_has_status(Status::Deleted) {
        'D'
    } else {
        ' '
    };
    let read: char = if m.spec_has_status(Status::Read) {
        ' '
    } else if m.spec_has_status(Status::NonRecent) {
        'U'
    } else {
        'N'
    };
    seq![del, read, ' '] + spec_prepare_field(
        spec_date_head(spec_field_or_unknown(m, crate::mbox::FieldType::Date)),
        25,
    ) + " | "@ + spec_prepare_field(spec_field_or_unknown(m, crate::mbox::FieldType::From), 40)
        + " | "@ + spec_prepare_field(spec_field_or_unknown(m, crate::mbox::FieldType::Subject), 80)
}

/// Build one row of the message selector (see [`spec_selector_row`]).
pub fn selector_row(msg: &Message) -> (r: String)
    requires
        msg.wf(),
    ensures
        r@ == spec_selector_row(*msg),
{
    let mut out = String::new();
    let del = if msg.has_status(Status::Deleted) {
        'D'
    } else {
        ' '
    };
    let read = if msg.has_status(Status::Read) {
        ' '
    } else if msg.has_status(Status::NonRecent) {
        'U'
    } else {
        'N'
    };
    string_push(&mut out, del);
    string_push(&mut out, read);
    string_push(&mut out, ' ');
    let date_line: &str = match msg.field(crate::mbox::FieldType::Date) {
        Some(l) => l,
        None => "???",
    };
    let date = prepare_field(date_head(date_line), 25);
    out.append(date.as_str());
    out.append(" | ");
    let from_line: &str = match msg.field(crate::mbox::FieldType::From) {
        Some(l) => l,
        None => "???",
    };
    let from = prepare_field(from_line, 40);
    out.append(from.as_str());
    out.append(" | ");
    let subject_line: &str = match msg.field(crate::mbox::FieldType::Subject) {
        Some(l) => l,
        None => "???",
    };
    let subject = prepare_field(subject_line, 80);
    out.append(subject.as_str());
    proof {
        assert(out@ =~= spec_selector_row(*msg));
    }
    out
}

} // verus!
