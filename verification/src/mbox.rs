//! The mailbox model: messages as line lists with remembered header-field
//! positions, splitting a flat line list into messages, and the read /
//! deleted status flags kept inside the `Status:` header line.

use crate::text::{filter_out_char, str_contains_char, str_starts_with, string_push, without_char};
use vstd::prelude::*;
use vstd::string::StringExecFns;

verus! {

/// The header fields a message remembers the position of.  `Body` is not a
/// header field: it marks the first line after the header block.
#[derive(Copy, Clone, Debug, Eq, Hash, PartialEq, Structural)]
pub enum FieldType {
    Date,
    From,
    Subject,
    Status,
    Body,
}

/// A status flag of a message, kept as one character of its `Status:`
/// header line.
#[derive(Copy, Clone, Debug, Eq, Hash, PartialEq, Structural)]
pub enum Status {
    Read,
    NonRecent,
    Deleted,
}

impl Status {
    /// The character that stands for this flag in a `Status:` line.
    pub open spec fn spec_field_char(self) -> char {
        match self {
            Status::Read => 'R',
            Status::NonRecent => 'O',
            Status::Deleted => 'D',
        }
    }

    /// The character that stands for this flag in a `Status:` line.
    pub fn field_char(&self) -> (c: char)
        ensures
            c == self.spec_field_char(),
    {
        match self {
            Status::Read => 'R',
            Status::NonRecent => 'O',
            Status::Deleted => 'D',
        }
    }
}

/// Where each field of a message sits in its line list: one optional line
/// index per field.  (`body` points at the first body line, one past the
/// blank separator line.)
#[derive(Copy, Clone, Debug)]
pub struct FieldIndices {
    pub date: Option<usize>,
    pub from: Option<usize>,
    pub subject: Option<usize>,
    pub status: Option<usize>,
    pub body: Option<usize>,
}

impl FieldIndices {
    /// The index recorded for field `f`.
    pub open spec fn spec_get(self, f: FieldType) -> Option<usize> {
        match f {
            FieldType::Date => self.date,
            FieldType::From => self.from,
            FieldType::Subject => self.subject,
            FieldType::Status => self.status,
            FieldType::Body => self.body,
        }
    }

    /// These indices with field `f` recorded at `i`.
    pub open spec fn spec_set(self, f: FieldType, i: usize) -> FieldIndices {
        match f {
            FieldType::Date => FieldIndices { date: Some(i), ..self },
            FieldType::From => FieldIndices { from: Some(i), ..self },
            FieldType::Subject => FieldIndices { subject: Some(i), ..self },
            FieldType::Status => FieldIndices { status: Some(i), ..self },
            FieldType::Body => FieldIndices { body: Some(i), ..self },
        }
    }

    /// Indices fit a message of `n` lines: header fields point at lines,
    /// and the body mark is one past a line (so at least 1, at most `n`).
    pub open spec fn fits(self, n: int) -> bool {
        &&& (self.date is Some ==> self.date.unwrap() < n)
        &&& (self.from is Some ==> self.from.unwrap() < n)
        &&& (self.subject is Some ==> self.subject.unwrap() < n)
        &&& (self.status is Some ==> self.status.unwrap() < n)
        &&& (self.body is Some ==> 1 <= self.body.unwrap() <= n)
    }

    /// No field recorded anywhere.
    pub fn empty() -> (r: FieldIndices)
        ensures
            r == (FieldIndices {
                date: None,
                from: None,
                subject: None,
                status: None,
                body: None,
            }),
    {
        FieldIndices { date: None, from: None, subject: None, status: None, body: None }
    }

    /// The index recorded for field `f`.
    pub fn get(&self, f: FieldType) -> (r: Option<usize>)
        ensures
            r == self.spec_get(f),
    {
        match f {
            FieldType::Date => self.date,
            FieldType::From => self.from,
            FieldType::Subject => self.subject,
            FieldType::Status => self.status,
            FieldType::Body => self.body,
        }
    }

    /// Record field `f` at line index `i`.
    pub fn set(&mut self, f: FieldType, i: usize)
        ensures
            *final(self) == old(self).spec_set(f, i),
    {
        match f {
            FieldType::Date => self.date = Some(i),
            FieldType::From => self.from = Some(i),
            FieldType::Subject => self.subject = Some(i),
            FieldType::Status => self.status = Some(i),
            FieldType::Body => self.body = Some(i),
        }
    }
}

/// The header prefixes the parser looks for, with the field each one marks,
/// in scan order.
pub open spec fn default_prefixes() -> Seq<(Seq<char>, FieldType)> {
    seq![
        ("Date: "@, FieldType::Date),
        ("From: "@, FieldType::From),
        ("Subject: "@, FieldType::Subject),
        ("Status: "@, FieldType::Status),
    ]
}

/// The field marked by the first prefix of `prefixes`, from index `i` on,
/// that `line` starts with.
pub open spec fn prefix_field_from(
    prefixes: Seq<(Seq<char>, FieldType)>,
    line: Seq<char>,
    i: int,
) -> Option<FieldType>
    decreases prefixes.len() - i,
{
    if i < 0 || i >= prefixes.len() {
        None
    } else if prefixes[i].0.is_prefix_of(line) {
        Some(prefixes[i].1)
    } else {
        prefix_field_from(prefixes, line, i + 1)
    }
}

/// The field marked by the first prefix of `prefixes` that `line` starts
/// with, if any.
pub open spec fn prefix_field(prefixes: Seq<(Seq<char>, FieldType)>, line: Seq<char>) -> Option<
    FieldType,
> {
    prefix_field_from(prefixes, line, 0)
}

/// One step of field gathering: line `idx` of a message records its field's
/// position (a later line with the same prefix wins), and the first blank
/// line marks the line after it as the start of the body.
pub open spec fn gather_step(
    prefixes: Seq<(Seq<char>, FieldType)>,
    acc: FieldIndices,
    line: Seq<char>,
    idx: usize,
) -> FieldIndices {
    match prefix_field(prefixes, line) {
        Some(f) => acc.spec_set(f, idx),
        None => if line.len() == 0 && acc.body is None {
            acc.spec_set(FieldType::Body, (idx + 1) as usize)
        } else {
            acc
        },
    }
}

/// The field indices gathered from the lines of one message.
pub open spec fn spec_gather(prefixes: Seq<(Seq<char>, FieldType)>, lines: Seq<String>) -> FieldIndices
    decreases lines.len(),
{
    if lines.len() == 0 {
        FieldIndices { date: None, from: None, subject: None, status: None, body: None }
    } else {
        gather_step(
            prefixes,
            spec_gather(prefixes, lines.drop_last()),
            lines.last()@,
            (lines.len() - 1) as usize,
        )
    }
}

/// Whether a prefix list is fit for gathering: none of its prefixes marks
/// `Body`, which is not a header field and is recorded only at blank lines.
pub open spec fn prefixes_wf(prefixes: Seq<(Seq<char>, FieldType)>) -> bool {
    forall|j: int| 0 <= j < prefixes.len() ==> (#[trigger] prefixes[j]).1 != FieldType::Body
}

/// A prefix match never yields `Body` when the prefix list is well formed.
proof fn lemma_prefix_field_not_body(
    prefixes: Seq<(Seq<char>, FieldType)>,
    line: Seq<char>,
    i: int,
)
    requires
        prefixes_wf(prefixes),
    ensures
        prefix_field_from(prefixes, line, i) != Some(FieldType::Body),
    decreases prefixes.len() - i,
{
    if 0 <= i < prefixes.len() {
        lemma_prefix_field_not_body(prefixes, line, i + 1);
    }
}

/// Gathered indices fit the message they were gathered from.
pub proof fn lemma_gather_fits(prefixes: Seq<(Seq<char>, FieldType)>, lines: Seq<String>)
    requires
        lines.len() <= usize::MAX,
        prefixes_wf(prefixes),
    ensures
        spec_gather(prefixes, lines).fits(lines.len() as int),
    decreases lines.len(),
{
    if lines.len() > 0 {
        lemma_gather_fits(prefixes, lines.drop_last());
        lemma_prefix_field_not_body(prefixes, lines.last()@, 0);
    }
}

/// Finds the header fields of a message: the prefixes it scans each line
/// for, in order, with the field each one marks.
pub struct FieldsParser {
    pub field_prefixes: Vec<(String, FieldType)>,
}

impl FieldsParser {
    /// The prefixes of this parser, by text.
    pub open spec fn prefixes(&self) -> Seq<(Seq<char>, FieldType)> {
        self.field_prefixes@.map_values(|p: (String, FieldType)| (p.0@, p.1))
    }

    /// The standard parser: the `Date:`, `From:`, `Subject:` and `Status:`
    /// header prefixes.
    pub fn default() -> (r: FieldsParser)
        ensures
            r.prefixes() == default_prefixes(),
            prefixes_wf(r.prefixes()),
    {
        let mut field_prefixes: Vec<(String, FieldType)> = Vec::new();
        field_prefixes.push((String::from_str("Date: "), FieldType::Date));
        field_prefixes.push((String::from_str("From: "), FieldType::From));
        field_prefixes.push((String::from_str("Subject: "), FieldType::Subject));
        field_prefixes.push((String::from_str("Status: "), FieldType::Status));
        let r = FieldsParser { field_prefixes };
        proof {
            assert(r.prefixes() =~= default_prefixes());
        }
        r
    }

    /// The field marked by the first prefix that `line` starts with.
    fn prefix_field_of(&self, line: &str) -> (r: Option<FieldType>)
        ensures
            r == prefix_field(self.prefixes(), line@),
    {
        let n = self.field_prefixes.len();
        let mut i: usize = 0;
        while i < n
            invariant
                i <= n,
                n == self.field_prefixes@.len(),
                forall|j: int|
                    0 <= j < i ==> !(#[trigger] self.prefixes()[j]).0.is_prefix_of(line@),
            decreases n - i,
        {
            if str_starts_with(line, self.field_prefixes[i].0.as_str()) {
                proof {
                    lemma_prefix_field_skip(self.prefixes(), line@, i as int);
                }
                return Some(self.field_prefixes[i].1);
            }
            i += 1;
        }
        proof {
            lemma_prefix_field_skip(self.prefixes(), line@, n as int);
        }
        None
    }

    /// Gather the header-field positions of one message's lines.
    pub fn gather_fields(&self, lines: &Vec<String>) -> (r: FieldIndices)
        requires
            prefixes_wf(self.prefixes()),
        ensures
            r == spec_gather(self.prefixes(), lines@),
            r.fits(lines@.len() as int),
    {
        let n = lines.len();
        let mut fields = FieldIndices::empty();
        let mut idx: usize = 0;
        while idx < n
            invariant
                idx <= n,
                n == lines@.len(),
                fields == spec_gather(self.prefixes(), lines@.take(idx as int)),
            decreases n - idx,
        {
            let line = &lines[idx];
            match self.prefix_field_of(line.as_str()) {
                Some(f) => {
                    fields.set(f, idx);
                },
                None => {
                    let is_blank = line.as_str().is_empty();
                    let body_unset = match fields.body {
                        Some(_) => false,
                        None => true,
                    };
                    if is_blank && body_unset {
                        fields.set(FieldType::Body, idx + 1);
                    }
                },
            }
            proof {
                assert(lines@.take(idx + 1 as int).drop_last() =~= lines@.take(idx as int));
                assert(lines@.take(idx + 1 as int).last() == lines@[idx as int]);
            }
            idx += 1;
        }
        proof {
            assert(lines@.take(n as int) =~= lines@);
            lemma_gather_fits(self.prefixes(), lines@);
        }
        fields
    }
}

/// One message of a mailbox: its lines (headers, separator and body, in
/// file order) and where its fields sit in them.
pub struct Message {
    pub lines: Vec<String>,
    pub fields: FieldIndices,
}

/// How `set_status` changes a message, adding status flag `status`:
/// - with a `Status:` line that already carries the flag's character,
///   nothing changes;
/// - with a `Status:` line without it, the character is appended to that
///   line;
/// - without a `Status:` line but with a body mark, a fresh `Status:` line
///   is inserted right before the blank separator line (one before the body
///   mark), and the body mark moves one line down;
/// - without either, nothing changes.
pub open spec fn set_status_rel(pre: Message, post: Message, status: Status) -> bool {
    let ch = status.spec_field_char();
    match pre.fields.status {
        Some(i) => {
            &&& post.fields == pre.fields
            &&& post.lines@.len() == pre.lines@.len()
            &&& (if pre.lines@[i as int]@.contains(ch) {
                post.lines@ == pre.lines@
            } else {
                &&& post.lines@[i as int]@ == pre.lines@[i as int]@.push(ch)
                &&& (forall|j: int|
                    0 <= j < pre.lines@.len() && j != i ==> post.lines@[j] == pre.lines@[j])
            })
        },
        None => match pre.fields.body {
            Some(b) => {
                &&& post.fields == pre.fields.spec_set(
                    FieldType::Status,
                    (b - 1) as usize,
                ).spec_set(FieldType::Body, (b + 1) as usize)
                &&& post.lines@.len() == pre.lines@.len() + 1
                &&& (forall|j: int| 0 <= j < b - 1 ==> post.lines@[j] == pre.lines@[j])
                &&& post.lines@[b - 1]@ == "Status: "@.push(ch)
                &&& (forall|j: int|
                    b <= j <= pre.lines@.len() ==> post.lines@[j] == pre.lines@[j - 1])
            },
            None => post == pre,
        },
    }
}

/// How `unset_status` changes a message: every occurrence of the flag's
/// character is removed from the `Status:` line, if there is one.
pub open spec fn unset_status_rel(pre: Message, post: Message, status: Status) -> bool {
    match pre.fields.status {
        Some(i) => {
            &&& post.fields == pre.fields
            &&& post.lines@.len() == pre.lines@.len()
            &&& post.lines@[i as int]@ == without_char(
                pre.lines@[i as int]@,
                status.spec_field_char(),
            )
            &&& (forall|j: int|
                0 <= j < pre.lines@.len() && j != i ==> post.lines@[j] == pre.lines@[j])
        },
        None => post == pre,
    }
}

impl Message {
    /// A message is well formed when its field indices fit its line count.
    pub open spec fn wf(self) -> bool {
        self.fields.fits(self.lines@.len() as int)
    }

    /// A message from its lines and their gathered field positions.
    pub fn new(lines: Vec<String>, fields: FieldIndices) -> (r: Message)
        requires
            fields.fits(lines@.len() as int),
        ensures
            r == (Message { lines, fields }),
            r.wf(),
    {
        Message { lines, fields }
    }

    /// The text of header field `f`, when the message has it.
    pub open spec fn spec_field(self, f: FieldType) -> Option<Seq<char>> {
        match self.fields.spec_get(f) {
            Some(i) => Some(self.lines@[i as int]@),
            None => None,
        }
    }

    /// The line of header field `f`, when the message has it.  (`Body` is
    /// not a header field; its mark may sit one past the last line.)
    pub fn field(&self, f: FieldType) -> (r: Option<&str>)
        requires
            self.wf(),
            f != FieldType::Body,
        ensures
            r is Some <==> self.spec_field(f) is Some,
            r is Some ==> r.unwrap()@ == self.spec_field(f).unwrap(),
    {
        match self.fields.get(f) {
            Some(i) => Some(self.lines[i].as_str()),
            None => None,
        }
    }

    /// Whether the message's `Status:` line carries the flag's character.
    pub open spec fn spec_has_status(self, status: Status) -> bool {
        match self.fields.status {
            Some(i) => self.lines@[i as int]@.contains(status.spec_field_char()),
            None => false,
        }
    }

    /// Whether the message carries status flag `status`.
    pub fn has_status(&self, status: Status) -> (r: bool)
        requires
            self.wf(),
        ensures
            r == self.spec_has_status(status),
    {
        match self.fields.get(FieldType::Status) {
            Some(i) => str_contains_char(self.lines[i].as_str(), status.field_char()),
            None => false,
        }
    }

    /// Add status flag `status` to the message (see [`set_status_rel`]).
    pub fn set_status(&mut self, status: Status)
        requires
            old(self).wf(),
            old(self).lines@.len() < usize::MAX,
        ensures
            final(self).wf(),
            set_status_rel(*old(self), *final(self), status),
    {
        let ch = status.field_char();
        match self.fields.get(FieldType::Status) {
            Some(idx) => {
                // Append the status character if it isn't already there.
                if !str_contains_char(self.lines[idx].as_str(), ch) {
                    let line = &mut self.lines[idx];
                    string_push(line, ch);
                }
            },
            None => {
                // Create a new status line right before the blank line that
                // separates the headers from the body.
                match self.fields.get(FieldType::Body) {
                    Some(b) => {
                        let status_idx = b - 1;
                        self.fields.set(FieldType::Status, status_idx);
                        self.fields.set(FieldType::Body, b + 1);
                        let mut line = String::from_str("Status: ");
                        string_push(&mut line, ch);
                        self.lines.insert(status_idx, line);
                    },
                    None => {},
                }
            },
        }
    }

    /// Remove status flag `status` from the message (see
    /// [`unset_status_rel`]).
    pub fn unset_status(&mut self, status: Status)
        requires
            old(self).wf(),
        ensures
            final(self).wf(),
            unset_status_rel(*old(self), *final(self), status),
    {
        match self.fields.get(FieldType::Status) {
            Some(idx) => {
                // None of the flag characters occurs in the 'Status: '
                // prefix, so the whole line can be filtered.
                let filtered = filter_out_char(self.lines[idx].as_str(), status.field_char());
                let line = &mut self.lines[idx];
                *line = filtered;
            },
            None => {},
        }
    }

    /// All lines of the message, in file order.
    pub fn all_lines(&self) -> (r: &[String])
        ensures
            r@ == self.lines@,
    {
        self.lines.as_slice()
    }

    /// The body lines of the message: everything from the body mark on,
    /// when the message has one.
    pub fn body_lines(&self) -> (r: Option<&[String]>)
        requires
            self.wf(),
        ensures
            r is Some <==> self.fields.body is Some,
            r is Some ==> r.unwrap()@ == self.lines@.subrange(
                self.fields.body.unwrap() as int,
                self.lines@.len() as int,
            ),
    {
        match self.fields.get(FieldType::Body) {
            Some(b) => Some(
                vstd::slice::slice_subrange(self.lines.as_slice(), b, self.lines.len()),
            ),
            None => None,
        }
    }
}

/// Whether a line opens a new mbox message: mbox files separate messages
/// with lines starting `From ` (the envelope line).
pub open spec fn is_from_line(line: Seq<char>) -> bool {
    "From "@.is_prefix_of(line)
}

/// How a flat list of file lines splits into messages: a `From ` line
/// starts a new message; other lines belong to the message in progress, or
/// open an unmarked first message when no `From ` line came before.
pub open spec fn split_messages(lines: Seq<String>) -> Seq<Seq<String>>
    decreases lines.len(),
{
    if lines.len() == 0 {
        Seq::empty()
    } else {
        let rest = split_messages(lines.drop_last());
        let l = lines.last();
        if is_from_line(l@) {
            rest.push(seq![l])
        } else if rest.len() == 0 {
            seq![seq![l]]
        } else {
            rest.update(rest.len() - 1, rest.last().push(l))
        }
    }
}

/// The line lists of a list of messages.
pub open spec fn message_lines(msgs: Seq<Message>) -> Seq<Seq<String>> {
    msgs.map_values(|m: Message| m.lines@)
}

/// A whole mailbox: its messages, in file order.
pub struct Mbox {
    pub messages: Vec<Message>,
}

impl Mbox {
    /// A mailbox is well formed when each of its messages is.
    pub open spec fn wf(self) -> bool {
        forall|i: int| 0 <= i < self.messages@.len() ==> (#[trigger] self.messages@[i]).wf()
    }

    /// Parse a mailbox from the lines of an mbox file: split at `From `
    /// lines (see [`split_messages`]) and gather each message's header
    /// fields (see [`spec_gather`]).
    pub fn from_iter(lines: Vec<String>) -> (r: Mbox)
        ensures
            message_lines(r.messages@) == split_messages(lines@),
            forall|i: int|
                0 <= i < r.messages@.len() ==> (#[trigger] r.messages@[i]).fields == spec_gather(
                    default_prefixes(),
                    r.messages@[i].lines@,
                ),
            r.wf(),
    {
        let field_parser = FieldsParser::default();
        let n = lines.len();
        let mut messages: Vec<Message> = Vec::new();
        let mut acc: Vec<String> = Vec::new();
        let mut i: usize = 0;
        while i < n
            invariant
                i <= n,
                n == lines@.len(),
                field_parser.prefixes() == default_prefixes(),
                prefixes_wf(field_parser.prefixes()),
                acc@.len() == 0 ==> i == 0 && messages@.len() == 0,
                acc@.len() > 0 ==> message_lines(messages@).push(acc@) == split_messages(
                    lines@.take(i as int),
                ),
                forall|k: int|
                    0 <= k < messages@.len() ==> (#[trigger] messages@[k]).fields == spec_gather(
                        default_prefixes(),
                        messages@[k].lines@,
                    ) && messages@[k].wf(),
            decreases n - i,
        {
            proof {
                assert(lines@.take(i + 1 as int).drop_last() =~= lines@.take(i as int));
                assert(lines@.take(i + 1 as int).last() == lines@[i as int]);
            }
            let line = lines[i].clone();
            let ghost prev_msgs = messages@;
            let ghost prev_acc = acc@;
            if str_starts_with(line.as_str(), "From ") {
                // Save the message in progress and start a new one.
                if acc.len() > 0 {
                    let fields = field_parser.gather_fields(&acc);
                    messages.push(Message::new(acc, fields));
                    acc = Vec::new();
                }
                acc.push(line);
                proof {
                    assert(acc@ =~= seq![lines@[i as int]]);
                    if prev_acc.len() > 0 {
                        assert(message_lines(messages@) =~= message_lines(prev_msgs).push(
                            prev_acc,
                        ));
                    } else {
                        assert(message_lines(messages@) =~= Seq::<Seq<String>>::empty());
                        assert(split_messages(lines@.take(i as int)) =~= Seq::<
                            Seq<String>,
                        >::empty());
                    }
                    assert(split_messages(lines@.take(i + 1 as int)) == split_messages(
                        lines@.take(i as int),
                    ).push(seq![lines@[i as int]]));
                    assert(message_lines(messages@).push(acc@) == split_messages(
                        lines@.take(i + 1 as int),
                    ));
                }
            } else {
                acc.push(line);
                proof {
                    assert(acc@ == prev_acc.push(lines@[i as int]));
                    if prev_acc.len() == 0 {
                        assert(split_messages(lines@.take(i as int)) =~= Seq::<
                            Seq<String>,
                        >::empty());
                        assert(message_lines(messages@) =~= Seq::<Seq<String>>::empty());
                        assert(prev_acc =~= Seq::<String>::empty());
                        assert(split_messages(lines@.take(i + 1 as int)) == seq![
                            seq![lines@[i as int]],
                        ]);
                        assert(acc@ == seq![lines@[i as int]]);
                        assert(message_lines(messages@).push(acc@) =~= seq![
                            seq![lines@[i as int]],
                        ]);
                    } else {
                        let rest = split_messages(lines@.take(i as int));
                        assert(rest == message_lines(prev_msgs).push(prev_acc));
                        assert(rest.last() == prev_acc);
                        assert(split_messages(lines@.take(i + 1 as int)) == rest.update(
                            rest.len() - 1,
                            prev_acc.push(lines@[i as int]),
                        ));
                        assert(rest.update(rest.len() - 1, prev_acc.push(lines@[i as int]))
                            =~= message_lines(prev_msgs).push(prev_acc.push(lines@[i as int])));
                        assert(message_lines(messages@).push(acc@) == split_messages(
                            lines@.take(i + 1 as int),
                        ));
                    }
                }
            }
            i += 1;
        }
        proof {
            assert(lines@.take(n as int) =~= lines@);
        }
        let ghost prev_msgs = messages@;
        let ghost prev_acc = acc@;
        if acc.len() > 0 {
            let fields = field_parser.gather_fields(&acc);
            messages.push(Message::new(acc, fields));
            proof {
                assert(message_lines(messages@) =~= message_lines(prev_msgs).push(prev_acc));
            }
        } else {
            proof {
                assert(split_messages(lines@) =~= Seq::<Seq<String>>::empty());
                assert(message_lines(messages@) =~= Seq::<Seq<String>>::empty());
            }
        }
        Mbox { messages }
    }

    /// How many messages the mailbox holds.
    pub fn count(&self) -> (n: usize)
        ensures
            n == self.messages@.len(),
    {
        self.messages.len()
    }

    /// The message at index `idx`, if there is one.
    pub fn msg_at(&self, idx: usize) -> (r: Option<&Message>)
        ensures
            idx < self.messages@.len() ==> r is Some && *r.unwrap() == self.messages@[idx as int],
            idx >= self.messages@.len() ==> r is None,
    {
        if idx < self.messages.len() {
            Some(&self.messages[idx])
        } else {
            None
        }
    }

    /// Add status flag `status` to the message at `idx`; does nothing when
    /// `idx` is out of range.
    pub fn set_status_at(&mut self, idx: usize, status: Status)
        requires
            old(self).wf(),
            idx < old(self).messages@.len() ==> old(self).messages@[idx as int].lines@.len()
                < usize::MAX,
        ensures
            final(self).wf(),
            final(self).messages@.len() == old(self).messages@.len(),
            idx < old(self).messages@.len() ==> set_status_rel(
                old(self).messages@[idx as int],
                final(self).messages@[idx as int],
                status,
            ) && (forall|j: int|
                0 <= j < old(self).messages@.len() && j != idx
                    ==> final(self).messages@[j] == old(self).messages@[j]),
            idx >= old(self).messages@.len() ==> *final(self) == *old(self),
    {
        if idx < self.messages.len() {
            let msg = &mut self.messages[idx];
            msg.set_status(status);
        }
    }

    /// Add status flag `status` to every message of the mailbox.
    pub fn set_status_all(&mut self, status: Status)
        requires
            old(self).wf(),
            forall|i: int|
                0 <= i < old(self).messages@.len() ==> (#[trigger] old(
                    self,
                ).messages@[i]).lines@.len() < usize::MAX,
        ensures
            final(self).wf(),
            final(self).messages@.len() == old(self).messages@.len(),
            forall|i: int|
                0 <= i < old(self).messages@.len() ==> set_status_rel(
                    old(self).messages@[i],
                    #[trigger] final(self).messages@[i],
                    status,
                ),
    {
        let n = self.messages.len();
        let mut i: usize = 0;
        while i < n
            invariant
                i <= n,
                n == self.messages@.len(),
                self.messages@.len() == old(self).messages@.len(),
                self.wf(),
                forall|j: int|
                    0 <= j < old(self).messages@.len() ==> (#[trigger] old(
                        self,
                    ).messages@[j]).lines@.len() < usize::MAX,
                forall|j: int|
                    0 <= j < i ==> set_status_rel(
                        old(self).messages@[j],
                        #[trigger] self.messages@[j],
                        status,
                    ),
                forall|j: int|
                    i <= j < n ==> #[trigger] self.messages@[j] == old(self).messages@[j],
            decreases n - i,
        {
            let msg = &mut self.messages[i];
            msg.set_status(status);
            i += 1;
        }
    }
}

/// The lines of the messages that do not carry the `Deleted` flag, in file
/// order: what rewriting the mailbox keeps.
pub open spec fn spec_kept_lines(msgs: Seq<Message>) -> Seq<String>
    decreases msgs.len(),
{
    if msgs.len() == 0 {
        Seq::empty()
    } else {
        spec_kept_lines(msgs.drop_last()) + (if msgs.last().spec_has_status(Status::Deleted) {
            Seq::<String>::empty()
        } else {
            msgs.last().lines@
        })
    }
}

/// How many messages carry the `Deleted` flag: what rewriting the mailbox
/// drops.
pub open spec fn spec_deleted_count(msgs: Seq<Message>) -> int
    decreases msgs.len(),
{
    if msgs.len() == 0 {
        0
    } else {
        spec_deleted_count(msgs.drop_last()) + (if msgs.last().spec_has_status(Status::Deleted) {
            1int
        } else {
            0int
        })
    }
}

impl Mbox {
    /// The lines to write back when the mailbox is saved: every line of
    /// every message not flagged deleted, in order.
    pub fn kept_lines(&self) -> (r: Vec<String>)
        requires
            self.wf(),
        ensures
            r@ == spec_kept_lines(self.messages@),
    {
        let n = self.messages.len();
        let mut out: Vec<String> = Vec::new();
        let mut i: usize = 0;
        while i < n
            invariant
                i <= n,
                n == self.messages@.len(),
                self.wf(),
                out@ == spec_kept_lines(self.messages@.take(i as int)),
            decreases n - i,
        {
            proof {
                assert(self.messages@.take(i + 1 as int).drop_last() =~= self.messages@.take(
                    i as int,
                ));
                assert(self.messages@.take(i + 1 as int).last() == self.messages@[i as int]);
            }
            let msg = &self.messages[i];
            if !msg.has_status(Status::Deleted) {
                let m = msg.lines.len();
                let ghost prev = out@;
                let mut j: usize = 0;
                while j < m
                    invariant
                        j <= m,
                        m == msg.lines@.len(),
                        out@ == prev + msg.lines@.take(j as int),
                    decreases m - j,
                {
                    out.push(msg.lines[j].clone());
                    proof {
                        assert(msg.lines@.take(j + 1 as int) =~= msg.lines@.take(j as int).push(
                            msg.lines@[j as int],
                        ));
                        assert(out@ =~= prev + msg.lines@.take(j + 1 as int));
                    }
                    j += 1;
                }
                proof {
                    assert(msg.lines@.take(m as int) =~= msg.lines@);
                }
            }
            assert(out@ =~= spec_kept_lines(self.messages@.take(i + 1 as int)));
            i += 1;
        }
        proof {
            assert(self.messages@.take(n as int) =~= self.messages@);
        }
        out
    }

    /// How many messages are flagged deleted, i.e. how many saving the
    /// mailbox would drop.
    pub fn deleted_count(&self) -> (n: usize)
        requires
            self.wf(),
        ensures
            n == spec_deleted_count(self.messages@),
    {
        let total = self.messages.len();
        let mut count: usize = 0;
        let mut i: usize = 0;
        while i < total
            invariant
                i <= total,
                total == self.messages@.len(),
                self.wf(),
                count <= i,
                count == spec_deleted_count(self.messages@.take(i as int)),
            decreases total - i,
        {
            proof {
                assert(self.messages@.take(i + 1 as int).drop_last() =~= self.messages@.take(
                    i as int,
                ));
                assert(self.messages@.take(i + 1 as int).last() == self.messages@[i as int]);
            }
            if self.messages[i].has_status(Status::Deleted) {
                count += 1;
            }
            i += 1;
        }
        proof {
            assert(self.messages@.take(total as int) =~= self.messages@);
        }
        count
    }
}

/// When `line` starts with no prefix of `prefixes` before index `i`, the
/// scan for its field may as well start at `i`.
proof fn lemma_prefix_field_skip(prefixes: Seq<(Seq<char>, FieldType)>, line: Seq<char>, i: int)
    requires
        0 <= i <= prefixes.len(),
        forall|j: int| 0 <= j < i ==> !(#[trigger] prefixes[j]).0.is_prefix_of(line),
    ensures
        prefix_field(prefixes, line) == prefix_field_from(prefixes, line, i),
    decreases i,
{
    if i > 0 {
        lemma_prefix_field_skip(prefixes, line, i - 1);
    }
}

} // verus!
