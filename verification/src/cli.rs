//! The development REPL's command language: parsing lines into commands and
//! acknowledgement arguments.
use vstd::prelude::*;

use crate::dictionary::{entry_order, entry_view, entry_views, DictionaryEntry, EntryView, InMemoryDictionary};
use crate::input::InputEvent;
use crate::order::text_eq;
use crate::state::ActionDisposition;
use crate::text::{chars_of, string_from_chars};
use crate::types::{ActionId, LexemeId};

verus! {

/// The records of the development dictionary, in the order they are listed.
pub open spec fn development_entries() -> Seq<EntryView> {
    seq![
        entry_view(1, "ni"@, "你"@, 1000),
        entry_view(2, "ni"@, "尼"@, 300),
        entry_view(3, "ni"@, "呢"@, 200),
        entry_view(4, "nih"@, "你好"@, 100),
        entry_view(5, "nihao"@, "你好"@, 3000),
        entry_view(6, "nihao"@, "你号"@, 100),
        entry_view(7, "hao"@, "好"@, 2000),
        entry_view(8, "hao"@, "号"@, 800),
        entry_view(9, "zhong"@, "中"@, 2000),
        entry_view(10, "zhongguo"@, "中国"@, 5000),
        entry_view(11, "zhongguo"@, "中国"@, 4500),
        entry_view(12, "wo"@, "我"@, 4000),
    ]
}

/// The dictionary the development REPL loads.
pub fn development_dictionary() -> (r: InMemoryDictionary)
    ensures
        r@ == development_entries().sort_by(entry_order()),
        r@.len() == 12,
{
    let entries = vec![
        DictionaryEntry::new(LexemeId::new(1), "ni", "你", 1000),
        DictionaryEntry::new(LexemeId::new(2), "ni", "尼", 300),
        DictionaryEntry::new(LexemeId::new(3), "ni", "呢", 200),
        DictionaryEntry::new(LexemeId::new(4), "nih", "你好", 100),
        DictionaryEntry::new(LexemeId::new(5), "nihao", "你好", 3000),
        DictionaryEntry::new(LexemeId::new(6), "nihao", "你号", 100),
        DictionaryEntry::new(LexemeId::new(7), "hao", "好", 2000),
        DictionaryEntry::new(LexemeId::new(8), "hao", "号", 800),
        DictionaryEntry::new(LexemeId::new(9), "zhong", "中", 2000),
        DictionaryEntry::new(LexemeId::new(10), "zhongguo", "中国", 5000),
        DictionaryEntry::new(LexemeId::new(11), "zhongguo", "中国", 4500),
        DictionaryEntry::new(LexemeId::new(12), "wo", "我", 4000),
    ];
    assert(entry_views(entries@) =~= development_entries());
    InMemoryDictionary::new(entries)
}

/// The disposition a word names.
pub open spec fn disposition_named(word: Seq<char>) -> Option<ActionDisposition> {
    if word == "applied"@ {
        Some(ActionDisposition::Applied)
    } else if word == "failed"@ {
        Some(ActionDisposition::Failed)
    } else if word == "rejected"@ {
        Some(ActionDisposition::Rejected)
    } else if word == "unavailable"@ {
        Some(ActionDisposition::Unavailable)
    } else if word == "superseded"@ {
        Some(ActionDisposition::Superseded)
    } else {
        None
    }
}

/// Reads a disposition word.
pub fn parse_disposition(value: &str) -> (r: Option<ActionDisposition>)
    ensures
        r == disposition_named(value@),
{
    if text_eq(value, "applied") {
        Some(ActionDisposition::Applied)
    } else if text_eq(value, "failed") {
        Some(ActionDisposition::Failed)
    } else if text_eq(value, "rejected") {
        Some(ActionDisposition::Rejected)
    } else if text_eq(value, "unavailable") {
        Some(ActionDisposition::Unavailable)
    } else if text_eq(value, "superseded") {
        Some(ActionDisposition::Superseded)
    } else {
        None
    }
}

/// Unicode white space, as `char::is_whitespace` recognizes it.
pub open spec fn is_white_space(c: char) -> bool {
    let u = c as u32;
    (0x9 <= u && u <= 0xd) || u == 0x20 || u == 0x85 || u == 0xa0 || u == 0x1680 || (0x2000 <= u
        && u <= 0x200a) || u == 0x2028 || u == 0x2029 || u == 0x202f || u == 0x205f || u == 0x3000
}

fn white_space(c: char) -> (r: bool)
    ensures
        r == is_white_space(c),
{
    let u = c as u32;
    (0x9 <= u && u <= 0xd) || u == 0x20 || u == 0x85 || u == 0xa0 || u == 0x1680 || (0x2000 <= u
        && u <= 0x200a) || u == 0x2028 || u == 0x2029 || u == 0x202f || u == 0x205f || u == 0x3000
}

/// The text without its leading white space.
pub open spec fn skip_white(s: Seq<char>) -> Seq<char>
    decreases s.len(),
{
    if s.len() > 0 && is_white_space(s[0]) {
        skip_white(s.drop_first())
    } else {
        s
    }
}

/// The length of the leading run of non-white-space characters.
pub open spec fn word_len(s: Seq<char>) -> nat
    decreases s.len(),
{
    if s.len() > 0 && !is_white_space(s[0]) {
        1 + word_len(s.drop_first())
    } else {
        0
    }
}

/// The first white-space separated word of `s` and what follows it.
pub open spec fn next_word(s: Seq<char>) -> Option<(Seq<char>, Seq<char>)> {
    let t = skip_white(s);
    if t.len() == 0 {
        None
    } else {
        Some((t.take(word_len(t) as int), t.skip(word_len(t) as int)))
    }
}

/// The value of a string of decimal digits.
pub open spec fn digits_value(s: Seq<char>) -> nat
    decreases s.len(),
{
    if s.len() == 0 {
        0
    } else {
        digits_value(s.drop_last()) * 10 + (s.last() as nat - '0' as nat) as nat
    }
}

/// Every character is an ASCII digit.
pub open spec fn all_digits(s: Seq<char>) -> bool {
    forall|i: int| 0 <= i < s.len() ==> '0' <= #[trigger] s[i] && s[i] <= '9'
}

/// The unsigned number `s` spells, as `str::parse` reads it: an optional `+` and at least
/// one ASCII digit.
pub open spec fn number_value(s: Seq<char>) -> Option<nat> {
    let d = if s.len() > 0 && s[0] == '+' {
        s.drop_first()
    } else {
        s
    };
    if d.len() > 0 && all_digits(d) {
        Some(digits_value(d))
    } else {
        None
    }
}

proof fn lemma_digits_prefix_le(d: Seq<char>, n: int)
    requires
        all_digits(d),
        0 <= n <= d.len(),
    ensures
        digits_value(d.take(n)) <= digits_value(d),
    decreases d.len() - n,
{
    if n < d.len() {
        lemma_digits_prefix_le(d, n + 1);
        let t = d.take(n + 1);
        assert(t.drop_last() =~= d.take(n));
        let v = digits_value(d.take(n));
        assert(v * 10 >= v) by (nonlinear_arith);
    } else {
        assert(d.take(n) =~= d);
    }
}

/// Reads an unsigned number no larger than `max`.
fn parse_number(s: &Vec<char>, max: u64) -> (r: Option<u64>)
    ensures
        r == (match number_value(s@) {
            Some(v) => if v <= max {
                Some(v as u64)
            } else {
                None
            },
            None => None,
        }),
{
    let start: usize = if s.len() > 0 && s[0] == '+' {
        1
    } else {
        0
    };
    let ghost d = if s@.len() > 0 && s@[0] == '+' {
        s@.drop_first()
    } else {
        s@
    };
    assert(d =~= s@.skip(start as int));
    if start >= s.len() {
        return None;
    }
    let mut value: u64 = 0;
    let mut i: usize = start;
    let mut overflow = false;
    while i < s.len()
        invariant
            start <= i <= s@.len(),
            d == s@.skip(start as int),
            d == (if s@.len() > 0 && s@[0] == '+' {
                s@.drop_first()
            } else {
                s@
            }),
            d.len() > 0,
            all_digits(d.take(i - start)),
            !overflow ==> value == digits_value(d.take(i - start)) && value <= max,
            overflow ==> digits_value(d.take(i - start)) > max,
        decreases s@.len() - i,
    {
        let c = s[i];
        assert(c == d[i - start]);
        if !('0' <= c && c <= '9') {
            proof {
                assert(!('0' <= d[i - start] && d[i - start] <= '9'));
                assert(!all_digits(d));
                assert(number_value(s@) is None);
            }
            return None;
        }
        let digit = (c as u32 - '0' as u32) as u64;
        proof {
            assert(d.take(i - start + 1).drop_last() =~= d.take(i - start));
            assert(d.take(i - start + 1).last() == c);
            let pv = digits_value(d.take(i - start));
            assert(pv * 10 >= pv) by (nonlinear_arith);
        }
        if !overflow {
            let next: u128 = value as u128 * 10 + digit as u128;
            if next > max as u128 {
                overflow = true;
            } else {
                value = next as u64;
            }
        }
        i = i + 1;
    }
    assert(d.take(i - start) =~= d);
    if overflow {
        None
    } else {
        Some(value)
    }
}

/// A line of the REPL.
pub enum Command {
    Quit,
    State,
    Candidates,
    AutoAck(bool),
    AutoAckUsage,
    Acknowledge(String),
    Event(InputEvent),
    SelectCandidate(u32),
    InvalidCandidate(String),
    Empty,
    Unknown(String),
}

/// `s` with `prefix` removed, when it starts with it.
pub open spec fn strip_prefix(s: Seq<char>, prefix: Seq<char>) -> Option<Seq<char>> {
    if prefix.len() <= s.len() && s.take(prefix.len() as int) == prefix {
        Some(s.skip(prefix.len() as int))
    } else {
        None
    }
}

/// `s` without its trailing carriage returns and line feeds.
pub open spec fn trim_line_end(s: Seq<char>) -> Seq<char>
    decreases s.len(),
{
    if s.len() > 0 && (s.last() == '\r' || s.last() == '\n') {
        trim_line_end(s.drop_last())
    } else {
        s
    }
}

fn strip_prefix_exec(s: &Vec<char>, prefix: &str) -> (r: Option<Vec<char>>)
    ensures
        match strip_prefix(s@, prefix@) {
            Some(rest) => r matches Some(v) && v@ == rest,
            None => r is None,
        },
{
    let p = chars_of(prefix);
    if p.len() > s.len() {
        return None;
    }
    let mut i: usize = 0;
    while i < p.len()
        invariant
            i <= p@.len(),
            p@.len() <= s@.len(),
            p@ == prefix@,
            forall|k: int| 0 <= k < i ==> s@[k] == p@[k],
        decreases p@.len() - i,
    {
        if s[i] != p[i] {
            assert(s@.take(p@.len() as int)[i as int] != p@[i as int]);
            return None;
        }
        i = i + 1;
    }
    assert(s@.take(p@.len() as int) =~= p@);
    let mut rest: Vec<char> = Vec::new();
    let mut j: usize = p.len();
    while j < s.len()
        invariant
            p@.len() <= j <= s@.len(),
            rest@ == s@.subrange(p@.len() as int, j as int),
        decreases s@.len() - j,
    {
        rest.push(s[j]);
        j = j + 1;
        assert(rest@ =~= s@.subrange(p@.len() as int, j as int));
    }
    assert(rest@ =~= s@.skip(p@.len() as int));
    Some(rest)
}

fn trim_line_end_exec(s: &str) -> (r: Vec<char>)
    ensures
        r@ == trim_line_end(s@),
{
    let mut cs = chars_of(s);
    while cs.len() > 0 && (cs[cs.len() - 1] == '\r' || cs[cs.len() - 1] == '\n')
        invariant
            trim_line_end(cs@) == trim_line_end(s@),
        decreases cs@.len(),
    {
        let ghost before = cs@;
        cs.pop();
        assert(cs@ =~= before.drop_last());
    }
    cs
}

/// What a REPL line asks for.
pub open spec fn command_for(line: Seq<char>) -> CommandView {
    let l = trim_line_end(line);
    if l == "quit"@ {
        CommandView::Quit
    } else if l == "state"@ {
        CommandView::State
    } else if l == "candidates"@ {
        CommandView::Candidates
    } else if strip_prefix(l, "autoack "@) is Some {
        let v = strip_prefix(l, "autoack "@)->0;
        if v == "on"@ {
            CommandView::AutoAck(true)
        } else if v == "off"@ {
            CommandView::AutoAck(false)
        } else {
            CommandView::AutoAckUsage
        }
    } else if strip_prefix(l, "ack "@) is Some {
        CommandView::Acknowledge(strip_prefix(l, "ack "@)->0)
    } else if strip_prefix(l, "text "@) is Some {
        CommandView::InsertText(strip_prefix(l, "text "@)->0)
    } else if strip_prefix(l, "select "@) is Some {
        let v = strip_prefix(l, "select "@)->0;
        match number_value(v) {
            Some(n) => if n <= u32::MAX {
                CommandView::SelectCandidate(n as u32)
            } else {
                CommandView::InvalidCandidate(v)
            },
            None => CommandView::InvalidCandidate(v),
        }
    } else if l == "backspace"@ {
        CommandView::Backspace
    } else if l == "delete"@ {
        CommandView::DeleteForward
    } else if l == "left"@ {
        CommandView::MoveCursor(-1i32)
    } else if l == "right"@ {
        CommandView::MoveCursor(1i32)
    } else if l == "commit"@ {
        CommandView::Commit
    } else if l == "cancel"@ {
        CommandView::Cancel
    } else if l == "reset"@ {
        CommandView::Reset
    } else if l == "cnext"@ {
        CommandView::MoveSelection(1i32)
    } else if l == "cprev"@ {
        CommandView::MoveSelection(-1i32)
    } else if l.len() == 0 {
        CommandView::Empty
    } else {
        CommandView::Unknown(l)
    }
}

/// Mathematical content of a [`Command`].
pub enum CommandView {
    Quit,
    State,
    Candidates,
    AutoAck(bool),
    AutoAckUsage,
    Acknowledge(Seq<char>),
    InsertText(Seq<char>),
    Backspace,
    DeleteForward,
    MoveCursor(i32),
    Commit,
    Cancel,
    Reset,
    MoveSelection(i32),
    SelectCandidate(u32),
    InvalidCandidate(Seq<char>),
    /// Any other input event; no line is read as one.
    OtherEvent,
    Empty,
    Unknown(Seq<char>),
}

impl View for Command {
    type V = CommandView;

    open spec fn view(&self) -> CommandView {
        match self {
            Command::Quit => CommandView::Quit,
            Command::State => CommandView::State,
            Command::Candidates => CommandView::Candidates,
            Command::AutoAck(on) => CommandView::AutoAck(*on),
            Command::AutoAckUsage => CommandView::AutoAckUsage,
            Command::Acknowledge(a) => CommandView::Acknowledge(a@),
            Command::Event(e) => match e {
                InputEvent::InsertText(t) => CommandView::InsertText(t@),
                InputEvent::Backspace => CommandView::Backspace,
                InputEvent::DeleteForward => CommandView::DeleteForward,
                InputEvent::MoveCompositionCursor { grapheme_delta } => CommandView::MoveCursor(
                    *grapheme_delta,
                ),
                InputEvent::Commit => CommandView::Commit,
                InputEvent::Cancel => CommandView::Cancel,
                InputEvent::Reset => CommandView::Reset,
                InputEvent::MoveCandidateSelection { delta } => CommandView::MoveSelection(*delta),
                _ => CommandView::OtherEvent,
            },
            Command::SelectCandidate(id) => CommandView::SelectCandidate(*id),
            Command::InvalidCandidate(t) => CommandView::InvalidCandidate(t@),
            Command::Empty => CommandView::Empty,
            Command::Unknown(t) => CommandView::Unknown(t@),
        }
    }
}

fn is_word(s: &Vec<char>, word: &str) -> (r: bool)
    ensures
        r == (s@ == word@),
{
    let t = string_from_chars(s);
    text_eq(t.as_str(), word)
}

/// Reads one REPL line.
pub fn parse_command(line: &str) -> (r: Command)
    ensures
        r@ == command_for(line@),
{
    let l = trim_line_end_exec(line);
    if is_word(&l, "quit") {
        return Command::Quit;
    }
    if is_word(&l, "state") {
        return Command::State;
    }
    if is_word(&l, "candidates") {
        return Command::Candidates;
    }
    if let Some(v) = strip_prefix_exec(&l, "autoack ") {
        if is_word(&v, "on") {
            return Command::AutoAck(true);
        }
        if is_word(&v, "off") {
            return Command::AutoAck(false);
        }
        return Command::AutoAckUsage;
    }
    if let Some(v) = strip_prefix_exec(&l, "ack ") {
        return Command::Acknowledge(string_from_chars(&v));
    }
    if let Some(v) = strip_prefix_exec(&l, "text ") {
        return Command::Event(InputEvent::InsertText(string_from_chars(&v)));
    }
    if let Some(v) = strip_prefix_exec(&l, "select ") {
        return match parse_number(&v, 4294967295) {
            Some(n) => Command::SelectCandidate(n as u32),
            None => Command::InvalidCandidate(string_from_chars(&v)),
        };
    }
    if is_word(&l, "backspace") {
        Command::Event(InputEvent::Backspace)
    } else if is_word(&l, "delete") {
        Command::Event(InputEvent::DeleteForward)
    } else if is_word(&l, "left") {
        Command::Event(InputEvent::MoveCompositionCursor { grapheme_delta: -1 })
    } else if is_word(&l, "right") {
        Command::Event(InputEvent::MoveCompositionCursor { grapheme_delta: 1 })
    } else if is_word(&l, "commit") {
        Command::Event(InputEvent::Commit)
    } else if is_word(&l, "cancel") {
        Command::Event(InputEvent::Cancel)
    } else if is_word(&l, "reset") {
        Command::Event(InputEvent::Reset)
    } else if is_word(&l, "cnext") {
        Command::Event(InputEvent::MoveCandidateSelection { delta: 1 })
    } else if is_word(&l, "cprev") {
        Command::Event(InputEvent::MoveCandidateSelection { delta: -1 })
    } else if l.len() == 0 {
        Command::Empty
    } else {
        Command::Unknown(string_from_chars(&l))
    }
}

/// Why acknowledgement arguments were refused.
pub enum AckArgumentError {
    /// Not exactly an identifier and a disposition.
    Usage,
    /// The identifier is not a number.
    InvalidActionId(String),
    /// The disposition is not one of the known words.
    InvalidDisposition(String),
}

/// Mathematical content of an [`AckArgumentError`].
pub enum AckArgumentErrorView {
    Usage,
    InvalidActionId(Seq<char>),
    InvalidDisposition(Seq<char>),
}

impl View for AckArgumentError {
    type V = AckArgumentErrorView;

    open spec fn view(&self) -> AckArgumentErrorView {
        match self {
            AckArgumentError::Usage => AckArgumentErrorView::Usage,
            AckArgumentError::InvalidActionId(t) => AckArgumentErrorView::InvalidActionId(t@),
            AckArgumentError::InvalidDisposition(t) => AckArgumentErrorView::InvalidDisposition(t@),
        }
    }
}

/// What `ack` arguments ask for: exactly an action identifier and a disposition word.
pub open spec fn ack_arguments(a: Seq<char>) -> Result<(u64, ActionDisposition), AckArgumentErrorView> {
    match next_word(a) {
        None => Err(AckArgumentErrorView::Usage),
        Some((first, rest)) => match next_word(rest) {
            None => Err(AckArgumentErrorView::Usage),
            Some((second, tail)) => if next_word(tail) is Some {
                Err(AckArgumentErrorView::Usage)
            } else {
                match number_value(first) {
                    Some(n) => if n <= u64::MAX {
                        match disposition_named(second) {
                            Some(d) => Ok((n as u64, d)),
                            None => Err(AckArgumentErrorView::InvalidDisposition(second)),
                        }
                    } else {
                        Err(AckArgumentErrorView::InvalidActionId(first))
                    },
                    None => Err(AckArgumentErrorView::InvalidActionId(first)),
                }
            },
        },
    }
}

/// Finds the next white-space separated word at or after `from`.
fn next_word_exec(s: &Vec<char>, from: usize) -> (r: Option<(Vec<char>, usize)>)
    requires
        from <= s@.len(),
    ensures
        match next_word(s@.skip(from as int)) {
            None => r is None,
            Some((w, rest)) => r matches Some((v, end)) && v@ == w && end <= s@.len() && s@.skip(
                end as int,
            ) == rest,
        },
{
    let mut i: usize = from;
    while i < s.len() && white_space(s[i])
        invariant
            from <= i <= s@.len(),
            skip_white(s@.skip(from as int)) == skip_white(s@.skip(i as int)),
        decreases s@.len() - i,
    {
        assert(s@.skip(i as int).drop_first() =~= s@.skip(i + 1));
        i = i + 1;
    }
    let ghost t = s@.skip(i as int);
    assert(skip_white(t) == t);
    if i == s.len() {
        return None;
    }
    let mut j: usize = i;
    while j < s.len() && !white_space(s[j])
        invariant
            i <= j <= s@.len(),
            t == s@.skip(i as int),
            word_len(t) == (j - i) + word_len(s@.skip(j as int)),
        decreases s@.len() - j,
    {
        assert(s@.skip(j as int).drop_first() =~= s@.skip(j + 1));
        j = j + 1;
    }
    assert(word_len(s@.skip(j as int)) == 0);
    let mut word: Vec<char> = Vec::new();
    let mut k: usize = i;
    while k < j
        invariant
            i <= k <= j,
            j <= s@.len(),
            word@ == s@.subrange(i as int, k as int),
        decreases j - k,
    {
        word.push(s[k]);
        k = k + 1;
        assert(word@ =~= s@.subrange(i as int, k as int));
    }
    assert(word@ =~= t.take((j - i) as int));
    assert(s@.skip(j as int) =~= t.skip((j - i) as int));
    Some((word, j))
}

/// Reads the arguments of an `ack` line.
pub fn parse_ack_arguments(arguments: &str) -> (r: Result<(ActionId, ActionDisposition), AckArgumentError>)
    ensures
        match ack_arguments(arguments@) {
            Ok((id, d)) => r matches Ok((a, e)) && a.0 == id && e == d,
            Err(v) => r matches Err(x) && x@ == v,
        },
{
    let cs = chars_of(arguments);
    assert(cs@.skip(0) =~= cs@);
    let (first, after_first) = match next_word_exec(&cs, 0) {
        Some(w) => w,
        None => {
            return Err(AckArgumentError::Usage);
        },
    };
    let (second, after_second) = match next_word_exec(&cs, after_first) {
        Some(w) => w,
        None => {
            return Err(AckArgumentError::Usage);
        },
    };
    if next_word_exec(&cs, after_second).is_some() {
        return Err(AckArgumentError::Usage);
    }
    let action_id = match parse_number(&first, 18446744073709551615) {
        Some(n) => n,
        None => {
            return Err(AckArgumentError::InvalidActionId(string_from_chars(&first)));
        },
    };
    let word = string_from_chars(&second);
    match parse_disposition(word.as_str()) {
        Some(d) => Ok((ActionId::new(action_id), d)),
        None => Err(AckArgumentError::InvalidDisposition(word)),
    }
}

} // verus!
