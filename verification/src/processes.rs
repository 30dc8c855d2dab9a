//! The list of processes: which of them serve a model, and what they use.

use crate::binary64::{small_whole_numbers_are_exact, Binary64, SIGNIFICAND_BOUND, UNIT_SCALE};
use crate::model::LlmProcess;
use crate::numeral::{parse_real, real_number, written_whole_numbers_read_back};
use crate::order::{sort, sorted, Rank};
use crate::text::{
    chars, contains, decimal, is_digit, is_digit_spec, is_letter, is_letter_spec, join, joined,
    lower, marked_texts_part, occurs, parse_u64, parse_whole, parts, parts_of, same, starts_with,
    strip_marks, stripped, to_lower, unmarked_texts_are_one_part, views, whole_number, whole_text,
    words, words_of, written_numbers_read_back,
};
use crate::units::{
    delta, delta_spec, product, product_spec, total, total_spec, whole_seconds_divide, Elapsed, KIB,
};
use vstd::arithmetic::power2::pow2;
use vstd::prelude::*;

verus! {

/// What follows the last slash.
pub open spec fn base_name(s: Seq<char>) -> Seq<char> {
    parts_of(s, '/').last()
}

proof fn lemma_parts_nonempty(s: Seq<char>, mark: char, part: Seq<char>)
    ensures
        crate::text::parts_from(s, mark, part).len() > 0,
    decreases s.len(),
{
    if s.len() > 0 && s[0] != mark {
        lemma_parts_nonempty(s.drop_first(), mark, part.push(s[0]));
    }
}

fn base_name_of(s: &str) -> (out: String)
    ensures
        out@ == base_name(s@),
{
    let list = parts(s, '/');
    proof {
        lemma_parts_nonempty(s@, '/', Seq::empty());
        assert(views(list@).len() == list@.len());
        assert(views(list@).last() == list@.last()@);
    }
    list[list.len() - 1].clone()
}

/// The letters and digits of a text.
pub open spec fn alphanumeric(s: Seq<char>) -> Seq<char>
    decreases s.len(),
{
    if s.len() == 0 {
        s
    } else if is_letter_spec(s.last()) || is_digit_spec(s.last()) {
        alphanumeric(s.drop_last()).push(s.last())
    } else {
        alphanumeric(s.drop_last())
    }
}

pub open spec fn normalize_process_token_spec(value: Seq<char>) -> Seq<char> {
    lower(alphanumeric(base_name(stripped(value, '"', '\''))))
}

/// The name of a program as bare letters and digits: without its directory,
/// its quotes, its case and its punctuation.
pub fn normalize_process_token(value: &str) -> (out: String)
    ensures
        out@ == normalize_process_token_spec(value@),
{
    let base = base_name_of(strip_marks(value, '"', '\'').as_str());
    let list = chars(base.as_str());
    let mut kept: Vec<char> = Vec::new();
    for i in 0..list.len()
        invariant
            list@ == base@,
            kept@ == alphanumeric(base@.take(i as int)),
    {
        let c = list[i];
        assert(base@.take(i + 1).drop_last() =~= base@.take(i as int));
        if is_letter(c) || is_digit(c) {
            kept.push(c);
        }
    }
    assert(base@.take(base@.len() as int) =~= base@);
    to_lower(whole_text(&kept).as_str())
}

/// The first `count` words of a list up to the first option.
pub open spec fn leading_words(list: Seq<Seq<char>>, count: nat) -> Seq<Seq<char>>
    decreases count,
{
    if count == 0 || list.len() == 0 || "--"@.is_prefix_of(list[0]) {
        Seq::empty()
    } else {
        seq![list[0]] + leading_words(list.drop_first(), (count - 1) as nat)
    }
}

/// The words of a command line that name the program.
pub open spec fn command_tokens(command: Seq<char>) -> Seq<Seq<char>> {
    leading_words(words_of(command), 4)
}

fn tokens_of(command: &str) -> (out: Vec<String>)
    ensures
        views(out@) == command_tokens(command@),
{
    let list = words(command);
    let mut out: Vec<String> = Vec::new();
    let mut i: usize = 0;
    assert(views(list@).skip(0) =~= views(list@));
    assert(views(out@) + command_tokens(command@) =~= command_tokens(command@));
    while i < 4 && i < list.len() && !starts_with(list[i].as_str(), "--")
        invariant
            i <= 4,
            i <= list@.len(),
            views(list@) == words_of(command@),
            views(out@) + leading_words(views(list@).skip(i as int), (4 - i) as nat)
                == command_tokens(command@),
        decreases 4 - i,
    {
        proof {
            let rest = views(list@).skip(i as int);
            assert(rest[0] == list@[i as int]@);
            assert(rest.drop_first() =~= views(list@).skip(i + 1));
            let after = leading_words(rest.drop_first(), (4 - i - 1) as nat);
            assert(views(out@.push(list@[i as int])) =~= views(out@).push(rest[0]));
            assert(views(out@) + (seq![rest[0]] + after) =~= views(out@).push(rest[0]) + after);
        }
        out.push(list[i].clone());
        i = i + 1;
    }
    proof {
        let rest = views(list@).skip(i as int);
        if i < list@.len() {
            assert(rest[0] == list@[i as int]@);
        }
        assert(views(out@) + Seq::<Seq<char>>::empty() =~= views(out@));
    }
    out
}

/// The bare names that a process goes by.
pub open spec fn bare_names(name: Seq<char>, command: Seq<char>) -> Seq<Seq<char>> {
    (seq![name] + command_tokens(command)).map_values(
        |s: Seq<char>| normalize_process_token_spec(s),
    )
}

/// Whether one of the names holds a marker. The monitor's own name does not
/// count.
pub open spec fn named_after(names: Seq<Seq<char>>, marker: Seq<char>) -> bool {
    exists|i: int|
        0 <= i < names.len() && !occurs(#[trigger] names[i], "mlxtop"@) && occurs(
            names[i],
            marker,
        )
}

pub open spec fn process_provider_spec(name: Seq<char>, command: Seq<char>) -> Option<Seq<char>> {
    let names = bare_names(name, command);
    let prefix = lower(joined(command_tokens(command), " "@));
    if named_after(names, "lmstudio"@) || named_after(names, "llmster"@) || occurs(
        prefix,
        "lm studio"@,
    ) || occurs(prefix, ".lmstudio/"@) || occurs(prefix, "bionic.app/contents/macos/bionic"@) {
        Some("LM Studio"@)
    } else if named_after(names, "omlx"@) {
        Some("oMLX"@)
    } else if named_after(names, "ollama"@) {
        Some("Ollama"@)
    } else if named_after(names, "koboldcpp"@) {
        Some("KoboldCpp"@)
    } else if named_after(names, "localai"@) {
        Some("LocalAI"@)
    } else if named_after(names, "llamaserver"@) || named_after(names, "llamacpp"@) {
        Some("llama.cpp"@)
    } else if named_after(names, "mlxlm"@) {
        Some("mlx-lm"@)
    } else {
        None
    }
}

fn any_named(names: &Vec<String>, marker: &str) -> (result: bool)
    ensures
        result == named_after(views(names@), marker@),
{
    for i in 0..names.len()
        invariant
            forall|j: int|
                0 <= j < i ==> occurs(#[trigger] views(names@)[j], "mlxtop"@) || !occurs(
                    views(names@)[j],
                    marker@,
                ),
    {
        assert(views(names@)[i as int] == names@[i as int]@);
        if contains(names[i].as_str(), marker) && !contains(names[i].as_str(), "mlxtop") {
            return true;
        }
    }
    false
}

fn names_of(name: &str, tokens: &Vec<String>) -> (names: Vec<String>)
    ensures
        views(names@) == (seq![name@] + views(tokens@)).map_values(
            |s: Seq<char>| normalize_process_token_spec(s),
        ),
{
    let ghost all = (seq![name@] + views(tokens@)).map_values(
        |s: Seq<char>| normalize_process_token_spec(s),
    );
    let mut names: Vec<String> = Vec::new();
    names.push(normalize_process_token(name));
    assert(views(names@) =~= all.take(1));
    for i in 0..tokens.len()
        invariant
            all == (seq![name@] + views(tokens@)).map_values(
                |s: Seq<char>| normalize_process_token_spec(s),
            ),
            views(names@) == all.take(i + 1),
    {
        let ghost before = names@;
        names.push(normalize_process_token(tokens[i].as_str()));
        assert(views(names@) =~= views(before).push(names@.last()@));
        assert(all[i + 1] == normalize_process_token_spec(views(tokens@)[i as int]));
        assert(views(tokens@)[i as int] == tokens@[i as int]@);
        assert(views(names@) =~= all.take(i + 2));
    }
    assert(views(names@) =~= all);
    names
}

/// The runtime that a process belongs to, where it serves a model.
pub fn process_provider(name: &str, command: &str) -> (result: Option<String>)
    ensures
        match result {
            Some(provider) => process_provider_spec(name@, command@) == Some(provider@),
            None => process_provider_spec(name@, command@) is None,
        },
{
    let tokens = tokens_of(command);
    let prefix = to_lower(join(&tokens, " ").as_str());
    let names = names_of(name, &tokens);
    if any_named(&names, "lmstudio") || any_named(&names, "llmster") || contains(
        prefix.as_str(),
        "lm studio",
    ) || contains(prefix.as_str(), ".lmstudio/") || contains(
        prefix.as_str(),
        "bionic.app/contents/macos/bionic",
    ) {
        Some("LM Studio".to_string())
    } else if any_named(&names, "omlx") {
        Some("oMLX".to_string())
    } else if any_named(&names, "ollama") {
        Some("Ollama".to_string())
    } else if any_named(&names, "koboldcpp") {
        Some("KoboldCpp".to_string())
    } else if any_named(&names, "localai") {
        Some("LocalAI".to_string())
    } else if any_named(&names, "llamaserver") || any_named(&names, "llamacpp") {
        Some("llama.cpp".to_string())
    } else if any_named(&names, "mlxlm") {
        Some("mlx-lm".to_string())
    } else {
        None
    }
}

/// Whether a process serves a model.
pub fn is_llm_process(name: &str, command: &str) -> (result: bool)
    ensures
        result == (process_provider_spec(name@, command@) is Some),
{
    process_provider(name, command).is_some()
}

/// One line of the list of processes.
#[derive(Debug)]
pub struct ProcessRow {
    pub pid: u32,
    pub rss: u64,
    pub cpu: Binary64,
    pub memory_percent: Option<Binary64>,
    pub state: String,
    pub pageins: Option<u64>,
    pub name: String,
    pub command: String,
    pub own: bool,
}

/// The contents of a line.
pub struct Row {
    pub pid: u32,
    pub rss: u64,
    pub cpu: Binary64,
    pub memory_percent: Option<Binary64>,
    pub state: Seq<char>,
    pub pageins: Option<u64>,
    pub name: Seq<char>,
    pub command: Seq<char>,
    pub own: bool,
}

impl View for ProcessRow {
    type V = Row;

    open spec fn view(&self) -> Row {
        Row {
            pid: self.pid,
            rss: self.rss,
            cpu: self.cpu,
            memory_percent: self.memory_percent,
            state: self.state@,
            pageins: self.pageins,
            name: self.name@,
            command: self.command@,
            own: self.own,
        }
    }
}

impl Row {
    /// Whether the line is of a process that serves a model.
    pub open spec fn serves(self) -> bool {
        process_provider_spec(self.name, self.command) is Some
    }
}

/// The share of the memory, where the field is one.
pub open spec fn memory_field(field: Seq<char>) -> Option<Binary64> {
    match real_number(field) {
        Some(value) => if value.measurable() {
            Some(value)
        } else {
            None
        },
        None => None,
    }
}

/// A line: process id, resident KiB and CPU; then, where the fourth field is a
/// share of the memory, that share, the state and the page-ins; then the name
/// and the command.
pub open spec fn row_spec(line: Seq<char>) -> Option<Row> {
    let f = words_of(line);
    if f.len() < 4 {
        None
    } else {
        let share = memory_field(f[3]);
        let at: int = if share is Some {
            6
        } else {
            3
        };
        match (whole_number(f[0], u32::MAX as nat), whole_number(f[1], u64::MAX as nat), real_number(
            f[2],
        )) {
            (Some(pid), Some(kib), Some(cpu)) => if f.len() <= at {
                None
            } else {
                Some(
                    Row {
                        pid: pid as u32,
                        rss: product_spec(kib as u64, KIB),
                        cpu,
                        memory_percent: share,
                        state: if share is Some {
                            f[4]
                        } else {
                            "?"@
                        },
                        pageins: if share is Some {
                            match whole_number(f[5], u64::MAX as nat) {
                                Some(count) => Some(count as u64),
                                None => None,
                            }
                        } else {
                            None
                        },
                        name: base_name(f[at]),
                        command: joined(f.skip(at + 1), " "@),
                        own: occurs(lower(line), "mlxtop"@),
                    },
                )
            },
            _ => None,
        }
    }
}

fn rest_of(list: &Vec<String>, from: usize) -> (out: Vec<String>)
    requires
        from <= list@.len(),
    ensures
        views(out@) == views(list@).skip(from as int),
{
    let mut out: Vec<String> = Vec::new();
    assert(views(out@) =~= views(list@).subrange(from as int, from as int));
    for i in from..list.len()
        invariant
            from <= i <= list@.len(),
            views(out@) == views(list@).subrange(from as int, i as int),
    {
        let ghost before = out@;
        out.push(list[i].clone());
        assert(views(out@) =~= views(before).push(list@[i as int]@));
        assert(views(list@).subrange(from as int, i + 1) =~= views(list@).subrange(
            from as int,
            i as int,
        ).push(views(list@)[i as int]));
    }
    assert(views(out@) =~= views(list@).skip(from as int));
    out
}

/// Reads one line of the list of processes.
pub fn parse_row(line: &str) -> (result: Option<ProcessRow>)
    ensures
        match result {
            Some(row) => row_spec(line@) == Some(row@),
            None => row_spec(line@) is None,
        },
{
    let f = words(line);
    let ghost fields = words_of(line@);
    assert(fields.len() == f@.len());
    assert(forall|i: int| 0 <= i < f@.len() ==> fields[i] == (#[trigger] f@[i])@);
    if f.len() < 4 {
        return None;
    }
    let pid: u32 = match parse_whole(f[0].as_str(), u32::MAX as u64) {
        Some(pid) => pid as u32,
        None => {
            return None;
        },
    };
    let kib: u64 = match parse_u64(f[1].as_str()) {
        Some(kib) => kib,
        None => {
            return None;
        },
    };
    let cpu = match parse_real(f[2].as_str()) {
        Some(cpu) => cpu,
        None => {
            return None;
        },
    };
    let share: Option<Binary64> = match parse_real(f[3].as_str()) {
        Some(value) => if value.is_measurable() {
            Some(value)
        } else {
            None
        },
        None => None,
    };
    let modern = share.is_some();
    let at: usize = if modern {
        6
    } else {
        3
    };
    if f.len() <= at {
        return None;
    }
    let (state, pageins): (String, Option<u64>) = if modern {
        (f[4].clone(), parse_u64(f[5].as_str()))
    } else {
        ("?".to_string(), None)
    };
    let row = ProcessRow {
        pid,
        rss: product(kib, KIB),
        cpu,
        memory_percent: share,
        state,
        pageins,
        name: base_name_of(f[at].as_str()),
        command: join(&rest_of(&f, at + 1), " "),
        own: contains(to_lower(line).as_str(), "mlxtop"),
    };
    Some(row)
}

/// The lines that describe a process.
pub open spec fn rows_of(lines: Seq<Seq<char>>) -> Seq<Row>
    decreases lines.len(),
{
    if lines.len() == 0 {
        Seq::empty()
    } else {
        let rest = rows_of(lines.drop_last());
        match row_spec(lines.last()) {
            Some(row) => rest.push(row),
            None => rest,
        }
    }
}

pub open spec fn row_views(list: Seq<ProcessRow>) -> Seq<Row> {
    list.map_values(|r: ProcessRow| r@)
}

/// Reads the list of processes. Lines that describe none are passed over.
pub fn parse_rows(listing: &str) -> (rows: Vec<ProcessRow>)
    ensures
        row_views(rows@) == rows_of(crate::text::lines_of(listing@)),
{
    let list = crate::text::lines(listing);
    let ghost all = crate::text::lines_of(listing@);
    let mut rows: Vec<ProcessRow> = Vec::new();
    assert(row_views(rows@) =~= rows_of(all.take(0)));
    for i in 0..list.len()
        invariant
            views(list@) == all,
            row_views(rows@) == rows_of(all.take(i as int)),
    {
        let ghost before = rows@;
        assert(all.take(i + 1).drop_last() =~= all.take(i as int));
        assert(all[i as int] == list@[i as int]@);
        if let Some(row) = parse_row(list[i].as_str()) {
            rows.push(row);
            assert(row_views(rows@) =~= row_views(before).push(row@));
        }
    }
    assert(all.take(all.len() as int) =~= all);
    rows
}

/// The lines of the processes that serve a model.
pub open spec fn serving_rows(rows: Seq<Row>) -> Seq<Row>
    decreases rows.len(),
{
    if rows.len() == 0 {
        Seq::empty()
    } else if rows.last().serves() {
        serving_rows(rows.drop_last()).push(rows.last())
    } else {
        serving_rows(rows.drop_last())
    }
}

/// The resident memory of some processes, in bytes.
pub open spec fn resident_sum(rows: Seq<Row>) -> nat
    decreases rows.len(),
{
    if rows.len() == 0 {
        0
    } else {
        resident_sum(rows.drop_last()) + rows.last().rss as nat
    }
}

/// The CPU load of some processes.
pub open spec fn cpu_sum(rows: Seq<Row>) -> Binary64
    decreases rows.len(),
{
    if rows.len() == 0 {
        Binary64 { bits: 0 }
    } else {
        cpu_sum(rows.drop_last()).sum(rows.last().cpu)
    }
}

/// What all processes of one name use.
#[derive(Debug)]
pub struct Consumer {
    pub name: String,
    pub rss: u64,
}

/// A name and the memory that its processes use.
pub struct Usage {
    pub name: Seq<char>,
    pub rss: u64,
}

pub open spec fn usage_of(list: Seq<Consumer>) -> Seq<Usage> {
    list.map_values(|c: Consumer| Usage { name: c.name@, rss: c.rss })
}

/// Adds memory to the first entry of a name, or an entry for it at the end.
pub open spec fn with_usage(list: Seq<Usage>, name: Seq<char>, rss: u64) -> Seq<Usage>
    decreases list.len(),
{
    if list.len() == 0 {
        seq![Usage { name, rss }]
    } else if list[0].name == name {
        seq![Usage { name, rss: total_spec(list[0].rss, rss) }] + list.drop_first()
    } else {
        seq![list[0]] + with_usage(list.drop_first(), name, rss)
    }
}

/// Whether a line counts among the consumers of memory: the monitor and its
/// helpers do not.
pub open spec fn counts(row: Row) -> bool {
    !row.own && row.name != "ps"@ && row.name != "awk"@
}

/// The memory by name, in the order in which the names first occur.
pub open spec fn consumers_of(rows: Seq<Row>) -> Seq<Usage>
    decreases rows.len(),
{
    if rows.len() == 0 {
        Seq::empty()
    } else if counts(rows.last()) {
        with_usage(consumers_of(rows.drop_last()), rows.last().name, rows.last().rss)
    } else {
        consumers_of(rows.drop_last())
    }
}

/// The first of the names that use the most memory.
pub open spec fn heaviest(list: Seq<Usage>) -> Option<Usage>
    decreases list.len(),
{
    if list.len() == 0 {
        None
    } else {
        match heaviest(list.drop_last()) {
            Some(best) => if list.last().rss > best.rss {
                Some(list.last())
            } else {
                Some(best)
            },
            None => Some(list.last()),
        }
    }
}

fn add_usage(list: &mut Vec<Consumer>, name: &str, rss: u64)
    ensures
        usage_of(final(list)@) == with_usage(usage_of(old(list)@), name@, rss),
{
    let ghost before = usage_of(list@);
    let mut i: usize = 0;
    assert(before.skip(0) =~= before);
    assert(before.take(0) + with_usage(before, name@, rss) =~= with_usage(before, name@, rss));
    while i < list.len() && !same(list[i].name.as_str(), name)
        invariant
            i <= list@.len(),
            usage_of(list@) == before,
            before.take(i as int) + with_usage(before.skip(i as int), name@, rss) == with_usage(
                before,
                name@,
                rss,
            ),
        decreases list@.len() - i,
    {
        proof {
            let rest = before.skip(i as int);
            assert(rest[0] == before[i as int]);
            assert(rest[0].name == list@[i as int].name@);
            assert(rest.drop_first() =~= before.skip(i + 1));
            let after = with_usage(rest.drop_first(), name@, rss);
            assert(before.take(i as int) + (seq![rest[0]] + after) =~= before.take(i + 1) + after);
        }
        i = i + 1;
    }
    let ghost rest = before.skip(i as int);
    if i < list.len() {
        let sum: u64 = total(list[i].rss, rss);
        proof {
            assert(rest[0] == before[i as int]);
            assert(before[i as int].name == list@[i as int].name@);
        }
        let entry = Consumer { name: name.to_string(), rss: sum };
        list.set(i, entry);
        assert(usage_of(list@) =~= before.take(i as int) + (seq![
            Usage { name: name@, rss: sum },
        ] + rest.drop_first()));
    } else {
        list.push(Consumer { name: name.to_string(), rss });
        assert(usage_of(list@) =~= before.take(i as int) + seq![Usage { name: name@, rss }]);
    }
}

fn heaviest_name(list: &Vec<Consumer>) -> (result: Option<String>)
    ensures
        match heaviest(usage_of(list@)) {
            Some(best) => result is Some && result.unwrap()@ == best.name,
            None => result is None,
        },
{
    let ghost all = usage_of(list@);
    let mut best: usize = 0;
    if list.len() == 0 {
        return None;
    }
    assert(all.take(1).drop_last() =~= Seq::empty());
    assert(heaviest(all.take(1)) == Some(all[0])) by {
        assert(heaviest(all.take(1).drop_last()) is None);
    }
    for i in 1..list.len()
        invariant
            all == usage_of(list@),
            1 <= i <= list@.len(),
            best < i,
            heaviest(all.take(i as int)) == Some(all[best as int]),
    {
        assert(all.take(i + 1).drop_last() =~= all.take(i as int));
        assert(all[i as int].rss == list@[i as int].rss && all[best as int].rss
            == list@[best as int].rss);
        if list[i].rss > list[best].rss {
            best = i;
        }
    }
    assert(all.take(all.len() as int) =~= all);
    Some(list[best].name.clone())
}

/// The column that a list of processes is ordered by.
#[derive(Clone, Copy, Debug, PartialEq, Eq, Structural)]
pub enum TopSort {
    Rss,
    Cpu,
    Pid,
    Name,
}

impl TopSort {
    pub open spec fn label_spec(self) -> Seq<char> {
        match self {
            TopSort::Rss => "RSS"@,
            TopSort::Cpu => "CPU"@,
            TopSort::Pid => "PID"@,
            TopSort::Name => "NAME"@,
        }
    }

    /// The name of the column.
    pub fn label(self) -> (result: &'static str)
        ensures
            result@ == self.label_spec(),
    {
        match self {
            TopSort::Rss => "RSS",
            TopSort::Cpu => "CPU",
            TopSort::Pid => "PID",
            TopSort::Name => "NAME",
        }
    }

    /// The place of the column in the row of columns.
    pub open spec fn place(self) -> int {
        match self {
            TopSort::Rss => 0,
            TopSort::Cpu => 1,
            TopSort::Pid => 2,
            TopSort::Name => 3,
        }
    }

    /// The next column; the first one follows the last.
    pub fn next(self) -> (result: TopSort)
        ensures
            result.place() == (self.place() + 1) % 4,
    {
        match self {
            TopSort::Rss => TopSort::Cpu,
            TopSort::Cpu => TopSort::Pid,
            TopSort::Pid => TopSort::Name,
            TopSort::Name => TopSort::Rss,
        }
    }
}

/// Whether one text comes before another, character by character.
pub open spec fn text_before(a: Seq<char>, b: Seq<char>) -> bool
    decreases a.len(),
{
    if b.len() == 0 {
        false
    } else if a.len() == 0 {
        true
    } else if a[0] == b[0] {
        text_before(a.drop_first(), b.drop_first())
    } else {
        a[0] < b[0]
    }
}

fn is_text_before(a: &str, b: &str) -> (result: bool)
    ensures
        result == text_before(a@, b@),
{
    let x = chars(a);
    let y = chars(b);
    let mut i: usize = 0;
    assert(x@.skip(0) =~= x@);
    assert(y@.skip(0) =~= y@);
    while i < x.len() && i < y.len() && x[i] == y[i]
        invariant
            x@ == a@,
            y@ == b@,
            i <= x@.len(),
            i <= y@.len(),
            text_before(a@, b@) == text_before(x@.skip(i as int), y@.skip(i as int)),
        decreases x@.len() - i,
    {
        assert(x@.skip(i as int).drop_first() =~= x@.skip(i + 1));
        assert(y@.skip(i as int).drop_first() =~= y@.skip(i + 1));
        i = i + 1;
    }
    if i >= y.len() {
        false
    } else if i >= x.len() {
        true
    } else {
        x[i] < y[i]
    }
}

/// How processes are ordered: by size alone, or by a column and then by
/// process id.
#[derive(Clone, Copy, Debug, PartialEq, Eq, Structural)]
pub enum ProcessOrder {
    Size,
    Column(TopSort),
}

/// A process in an order.
pub struct Placed {
    pub order: ProcessOrder,
    pub process: LlmProcess,
}

/// Whether the first of two processes comes before the other in an order. The
/// largest comes first; names are compared in lower case.
pub open spec fn process_before(order: ProcessOrder, a: LlmProcess, b: LlmProcess) -> bool {
    match order {
        ProcessOrder::Size => a.rss > b.rss,
        ProcessOrder::Column(TopSort::Rss) => a.rss > b.rss || (a.rss == b.rss && a.pid < b.pid),
        ProcessOrder::Column(TopSort::Cpu) => b.cpu.less_than(a.cpu) || (!a.cpu.less_than(b.cpu)
            && a.pid < b.pid),
        ProcessOrder::Column(TopSort::Pid) => a.pid < b.pid,
        ProcessOrder::Column(TopSort::Name) => text_before(lower(a.name@), lower(b.name@)) || (
        lower(a.name@) == lower(b.name@) && a.pid < b.pid),
    }
}

impl Rank for Placed {
    open spec fn before(self, other: Self) -> bool {
        process_before(self.order, self.process, other.process)
    }

    fn comes_before(&self, other: &Self) -> (result: bool) {
        let a = &self.process;
        let b = &other.process;
        match self.order {
            ProcessOrder::Size => a.rss > b.rss,
            ProcessOrder::Column(TopSort::Rss) => a.rss > b.rss
                || (a.rss == b.rss && a.pid < b.pid),
            ProcessOrder::Column(TopSort::Cpu) => b.cpu.lt(a.cpu) || (!a.cpu.lt(b.cpu) && a.pid
                < b.pid),
            ProcessOrder::Column(TopSort::Pid) => a.pid < b.pid,
            ProcessOrder::Column(TopSort::Name) => {
                let x = to_lower(a.name.as_str());
                let y = to_lower(b.name.as_str());
                is_text_before(x.as_str(), y.as_str()) || (same(x.as_str(), y.as_str()) && a.pid
                    < b.pid)
            },
        }
    }
}

pub open spec fn placed(list: Seq<LlmProcess>, order: ProcessOrder) -> Seq<Placed> {
    list.map_values(|p: LlmProcess| Placed { order, process: p })
}

pub open spec fn unplaced(list: Seq<Placed>) -> Seq<LlmProcess> {
    list.map_values(|p: Placed| p.process)
}

/// The processes in an order; those that are equal in it stay as they were.
pub open spec fn ordered(list: Seq<LlmProcess>, order: ProcessOrder) -> Seq<LlmProcess> {
    unplaced(sorted(placed(list, order)))
}

fn put_in_order(list: Vec<LlmProcess>, order: ProcessOrder) -> (result: Vec<LlmProcess>)
    ensures
        result@ == ordered(list@, order),
        result@.len() == list@.len(),
{
    let mut tagged: Vec<Placed> = Vec::new();
    for i in 0..list.len()
        invariant
            tagged@ == placed(list@, order).take(i as int),
    {
        tagged.push(Placed { order, process: list[i].clone() });
        assert(placed(list@, order).take(i + 1) =~= placed(list@, order).take(i as int).push(
            placed(list@, order)[i as int],
        ));
    }
    assert(placed(list@, order).take(list@.len() as int) =~= placed(list@, order));
    let sorted_list = sort(tagged);
    proof {
        crate::order::sorting_permutes(placed(list@, order));
    }
    let mut result: Vec<LlmProcess> = Vec::new();
    for i in 0..sorted_list.len()
        invariant
            result@ == unplaced(sorted_list@).take(i as int),
    {
        result.push(sorted_list[i].process.clone());
        assert(unplaced(sorted_list@).take(i + 1) =~= unplaced(sorted_list@).take(i as int).push(
            unplaced(sorted_list@)[i as int],
        ));
    }
    assert(unplaced(sorted_list@).take(sorted_list@.len() as int) =~= unplaced(sorted_list@));
    result
}

/// How many serving processes are listed.
pub const PROCESS_LIMIT: usize = 32;

/// What the list of processes says.
#[derive(Debug)]
pub struct ProcessSnapshot {
    pub llm_count: u32,
    pub llm_rss: u64,
    pub llm_cpu: Binary64,
    pub top_llm: Option<LlmProcess>,
    pub provider: Option<String>,
    pub largest_consumer: Option<String>,
    pub llm_processes: Vec<LlmProcess>,
}

/// Whether a process is what a line describes.
pub open spec fn describes(row: Row, process: LlmProcess) -> bool {
    &&& process.pid == row.pid
    &&& process.name@ == row.name
    &&& process.command@ == row.command
    &&& process.rss == row.rss
    &&& process.cpu == row.cpu
    &&& process.memory_percent == row.memory_percent
    &&& process.state@ == row.state
    &&& process.pageins == row.pageins
    &&& process.pagein_rate is None
}

pub open spec fn describe_all(rows: Seq<Row>, list: Seq<LlmProcess>) -> bool {
    &&& rows.len() == list.len()
    &&& forall|i: int| 0 <= i < rows.len() ==> describes(#[trigger] rows[i], list[i])
}

/// The first entries of a list.
pub open spec fn first_of<T>(list: Seq<T>, count: nat) -> Seq<T> {
    if list.len() <= count {
        list
    } else {
        list.take(count as int)
    }
}

/// What the lines of the list of processes add up to. Sums and counts stay
/// within their types.
pub open spec fn summarizes(snapshot: ProcessSnapshot, rows: Seq<Row>) -> bool {
    let serving = serving_rows(rows);
    &&& snapshot.llm_count == if serving.len() <= u32::MAX {
        serving.len()
    } else {
        u32::MAX as nat
    }
    &&& snapshot.llm_rss == if resident_sum(serving) <= u64::MAX {
        resident_sum(serving)
    } else {
        u64::MAX as nat
    }
    &&& snapshot.llm_cpu == cpu_sum(serving)
    &&& if serving.len() == 0 {
        snapshot.provider is None
    } else {
        snapshot.provider is Some && Some(snapshot.provider.unwrap()@) == process_provider_spec(
            serving[0].name,
            serving[0].command,
        )
    }
    &&& match heaviest(consumers_of(rows)) {
        Some(best) => snapshot.largest_consumer is Some && snapshot.largest_consumer.unwrap()@
            == best.name,
        None => snapshot.largest_consumer is None,
    }
    &&& exists|list: Seq<LlmProcess>| #[trigger]
        describe_all(serving, list) && snapshot.llm_processes@ == first_of(
            ordered(list, ProcessOrder::Size),
            PROCESS_LIMIT as nat,
        )
    &&& snapshot.top_llm == if snapshot.llm_processes@.len() == 0 {
        None
    } else {
        Some(snapshot.llm_processes@[0])
    }
}

fn process_of(row: &ProcessRow) -> (process: LlmProcess)
    ensures
        describes(row@, process),
{
    LlmProcess {
        pid: row.pid,
        name: row.name.clone(),
        command: row.command.clone(),
        rss: row.rss,
        cpu: row.cpu,
        memory_percent: row.memory_percent,
        state: row.state.clone(),
        pageins: row.pageins,
        pagein_rate: None,
    }
}

/// Adds the lines of the list of processes up.
pub fn summarize(rows: &Vec<ProcessRow>) -> (snapshot: ProcessSnapshot)
    ensures
        summarizes(snapshot, row_views(rows@)),
{
    let ghost all = row_views(rows@);
    let mut llm_count: u32 = 0;
    let mut llm_rss: u64 = 0;
    let mut llm_cpu = Binary64 { bits: 0 };
    let mut provider: Option<String> = None;
    let mut consumers: Vec<Consumer> = Vec::new();
    let mut found: Vec<LlmProcess> = Vec::new();
    assert(usage_of(consumers@) =~= Seq::empty());
    for i in 0..rows.len()
        invariant
            all == row_views(rows@),
            llm_count == if serving_rows(all.take(i as int)).len() <= u32::MAX {
                serving_rows(all.take(i as int)).len()
            } else {
                u32::MAX as nat
            },
            llm_rss == if resident_sum(serving_rows(all.take(i as int))) <= u64::MAX {
                resident_sum(serving_rows(all.take(i as int)))
            } else {
                u64::MAX as nat
            },
            llm_cpu == cpu_sum(serving_rows(all.take(i as int))),
            if serving_rows(all.take(i as int)).len() == 0 {
                provider is None
            } else {
                provider is Some && Some(provider.unwrap()@) == process_provider_spec(
                    serving_rows(all.take(i as int))[0].name,
                    serving_rows(all.take(i as int))[0].command,
                )
            },
            usage_of(consumers@) == consumers_of(all.take(i as int)),
            describe_all(serving_rows(all.take(i as int)), found@),
    {
        let row = &rows[i];
        let ghost before = serving_rows(all.take(i as int));
        proof {
            assert(all.take(i + 1).drop_last() =~= all.take(i as int));
            assert(all.take(i + 1).last() == row@);
        }
        let owner = process_provider(row.name.as_str(), row.command.as_str());
        if owner.is_some() {
            let ghost after = before.push(row@);
            proof {
                assert(serving_rows(all.take(i + 1)) == after);
                assert(after.drop_last() =~= before);
                assert(before.len() > 0 ==> after[0] == before[0]);
                assert(before.len() == 0 ==> after[0] == row@);
            }
            if provider.is_none() {
                provider = owner;
            }
            if llm_count < u32::MAX {
                llm_count = llm_count + 1;
            }
            llm_rss = total(llm_rss, row.rss);
            llm_cpu = llm_cpu.plus(row.cpu);
            let ghost listed = found@;
            found.push(process_of(row));
            assert(describe_all(after, found@)) by {
                assert forall|k: int| 0 <= k < after.len() implies describes(
                    #[trigger] after[k],
                    found@[k],
                ) by {
                    if k < before.len() {
                        assert(after[k] == before[k]);
                    }
                }
            }
        }
        if !row.own && !same(row.name.as_str(), "ps") && !same(row.name.as_str(), "awk") {
            add_usage(&mut consumers, row.name.as_str(), row.rss);
        }
    }
    assert(all.take(all.len() as int) =~= all);
    let largest_consumer = heaviest_name(&consumers);
    let ghost listed = found@;
    let mut llm_processes = put_in_order(found, ProcessOrder::Size);
    let ghost in_order = llm_processes@;
    if llm_processes.len() > PROCESS_LIMIT {
        llm_processes.truncate(PROCESS_LIMIT);
    }
    assert(llm_processes@ =~= first_of(in_order, PROCESS_LIMIT as nat));
    let top_llm = if llm_processes.len() == 0 {
        None
    } else {
        Some(llm_processes[0].clone())
    };
    ProcessSnapshot {
        llm_count,
        llm_rss,
        llm_cpu,
        top_llm,
        provider,
        largest_consumer,
        llm_processes,
    }
}

/// Reads the list of processes and adds it up.
pub fn parse_processes(listing: &str) -> (snapshot: ProcessSnapshot)
    ensures
        summarizes(snapshot, rows_of(crate::text::lines_of(listing@))),
{
    summarize(&parse_rows(listing))
}

/// The process with an id, and its page-ins.
pub open spec fn pageins_before(list: Seq<LlmProcess>, pid: u32) -> Option<u64>
    decreases list.len(),
{
    if list.len() == 0 {
        None
    } else if list[0].pid == pid {
        list[0].pageins
    } else {
        pageins_before(list.drop_first(), pid)
    }
}

/// The rate of a process's page-ins since it was last seen.
pub open spec fn pagein_rate_spec(
    process: LlmProcess,
    previous: Seq<LlmProcess>,
    elapsed: Elapsed,
) -> Option<Binary64> {
    match (process.pageins, pageins_before(previous, process.pid)) {
        (Some(current), Some(old)) => Some(
            Binary64::of_nat(delta_spec(current, old) as nat).quotient(elapsed.divisor_spec()),
        ),
        _ => None,
    }
}

fn find_pageins(list: &Vec<LlmProcess>, pid: u32) -> (result: Option<u64>)
    ensures
        result == pageins_before(list@, pid),
{
    let mut i: usize = 0;
    assert(list@.skip(0) =~= list@);
    while i < list.len()
        invariant
            i <= list@.len(),
            pageins_before(list@, pid) == pageins_before(list@.skip(i as int), pid),
        decreases list@.len() - i,
    {
        if list[i].pid == pid {
            return list[i].pageins;
        }
        assert(list@.skip(i as int).drop_first() =~= list@.skip(i + 1));
        i = i + 1;
    }
    None
}

/// A process with the rate of its page-ins.
pub open spec fn annotated(
    process: LlmProcess,
    previous: Seq<LlmProcess>,
    elapsed: Elapsed,
) -> LlmProcess {
    LlmProcess { pagein_rate: pagein_rate_spec(process, previous, elapsed), ..process }
}

fn annotate(process: &LlmProcess, previous: &Vec<LlmProcess>, elapsed: Elapsed) -> (result:
    LlmProcess)
    ensures
        result == annotated(*process, previous@, elapsed),
{
    let pagein_rate: Option<Binary64> = match (process.pageins, find_pageins(
        previous,
        process.pid,
    )) {
        (Some(current), Some(old)) => Some(
            Binary64::from_u64(delta(current, old)).over(elapsed.divisor()),
        ),
        _ => None,
    };
    let mut result = process.clone();
    result.pagein_rate = pagein_rate;
    result
}

/// Fills in the rate of page-ins for each process that was seen before.
pub fn annotate_process_pagein_rates(
    processes: &mut Vec<LlmProcess>,
    previous: &Vec<LlmProcess>,
    elapsed: Elapsed,
)
    ensures
        final(processes)@ == old(processes)@.map_values(
            |p: LlmProcess| annotated(p, previous@, elapsed),
        ),
{
    let ghost before = processes@;
    let ghost goal = before.map_values(|p: LlmProcess| annotated(p, previous@, elapsed));
    let listed: usize = processes.len();
    for i in 0..listed
        invariant
            before == old(processes)@,
            listed == before.len(),
            goal == before.map_values(|p: LlmProcess| annotated(p, previous@, elapsed)),
            processes@.len() == before.len(),
            forall|j: int| 0 <= j < i ==> #[trigger] processes@[j] == goal[j],
            forall|j: int| i <= j < before.len() ==> #[trigger] processes@[j] == before[j],
    {
        let process = annotate(&processes[i], previous, elapsed);
        assert(process == goal[i as int]);
        processes.set(i, process);
    }
    assert(processes@ =~= goal);
}

/// Whether a process matches a query: its name or its command holds it,
/// whatever the case. The empty query matches all.
pub open spec fn matches_query(process: LlmProcess, query: Seq<char>) -> bool {
    query.len() == 0 || occurs(lower(process.name@), lower(query)) || occurs(
        lower(process.command@),
        lower(query),
    )
}

pub open spec fn matching(list: Seq<LlmProcess>, query: Seq<char>) -> Seq<LlmProcess>
    decreases list.len(),
{
    if list.len() == 0 {
        Seq::empty()
    } else if matches_query(list.last(), query) {
        matching(list.drop_last(), query).push(list.last())
    } else {
        matching(list.drop_last(), query)
    }
}

/// The processes that match a query, ordered by a column.
pub fn filtered_llm_processes(list: &Vec<LlmProcess>, query: &str, column: TopSort) -> (result: Vec<
    LlmProcess,
>)
    ensures
        result@ == ordered(matching(list@, query@), ProcessOrder::Column(column)),
        result@.len() == matching(list@, query@).len(),
{
    let folded = to_lower(query);
    let mut rows: Vec<LlmProcess> = Vec::new();
    for i in 0..list.len()
        invariant
            folded@ == lower(query@),
            rows@ == matching(list@.take(i as int), query@),
    {
        assert(list@.take(i + 1).drop_last() =~= list@.take(i as int));
        if query.is_empty() || contains(
            to_lower(list[i].name.as_str()).as_str(),
            folded.as_str(),
        ) || contains(to_lower(list[i].command.as_str()).as_str(), folded.as_str()) {
            rows.push(list[i].clone());
        }
    }
    assert(list@.take(list@.len() as int) =~= list@);
    put_in_order(rows, ProcessOrder::Column(column))
}

proof fn lemma_text_order(a: Seq<char>, b: Seq<char>, c: Seq<char>)
    ensures
        text_before(a, b) ==> !text_before(b, a),
        !text_before(a, b) && !text_before(b, a) ==> a == b,
        text_before(a, b) && text_before(b, c) ==> text_before(a, c),
    decreases a.len() + b.len() + c.len(),
{
    if a.len() > 0 && b.len() > 0 && c.len() > 0 {
        lemma_text_order(a.drop_first(), b.drop_first(), c.drop_first());
        if a[0] == b[0] && a.drop_first() == b.drop_first() {
            assert(a =~= seq![a[0]] + a.drop_first());
            assert(b =~= seq![b[0]] + b.drop_first());
        }
    } else if a.len() > 0 && b.len() > 0 {
        lemma_text_order(a.drop_first(), b.drop_first(), c);
        if a[0] == b[0] && a.drop_first() == b.drop_first() {
            assert(a =~= seq![a[0]] + a.drop_first());
            assert(b =~= seq![b[0]] + b.drop_first());
        }
    } else if a.len() == 0 && b.len() == 0 {
        assert(a =~= b);
    }
}

/// Whether a load is a number.
pub open spec fn cpu_is_number(process: LlmProcess) -> bool {
    !process.cpu.nan_spec()
}

proof fn lemma_process_order(
    order: ProcessOrder,
    a: LlmProcess,
    b: LlmProcess,
    c: LlmProcess,
)
    requires
        order == ProcessOrder::Column(TopSort::Cpu) ==> cpu_is_number(a) && cpu_is_number(b)
            && cpu_is_number(c),
    ensures
        process_before(order, a, b) ==> !process_before(order, b, a),
        !process_before(order, a, b) && !process_before(order, b, c) ==> !process_before(
            order,
            a,
            c,
        ),
{
    if order == ProcessOrder::Column(TopSort::Name) {
        let (x, y, z) = (lower(a.name@), lower(b.name@), lower(c.name@));
        lemma_text_order(x, y, z);
        lemma_text_order(y, z, x);
        lemma_text_order(z, x, y);
        lemma_text_order(x, z, y);
        lemma_text_order(z, y, x);
        lemma_text_order(y, x, z);
    }
}

/// The list of processes holds every process once, and none comes before one
/// that is listed above it, whichever column it is ordered by. Only the column of
/// the loads asks that these be numbers.
pub proof fn processes_are_listed_in_order(list: Seq<LlmProcess>, order: ProcessOrder)
    requires
        order == ProcessOrder::Column(TopSort::Cpu) ==> forall|i: int|
            0 <= i < list.len() ==> cpu_is_number(#[trigger] list[i]),
    ensures
        ordered(list, order).len() == list.len(),
        sorted(placed(list, order)).to_multiset() == placed(list, order).to_multiset(),
        forall|i: int, j: int|
            0 <= i < j < list.len() ==> !process_before(
                order,
                #[trigger] ordered(list, order)[j],
                #[trigger] ordered(list, order)[i],
            ),
{
    let tagged = placed(list, order);
    crate::order::sorting_permutes(tagged);
    assert(crate::order::ranks_consistently(tagged)) by {
        assert forall|a: Placed, b: Placed|
            #![trigger a.before(b)]
            tagged.contains(a) && tagged.contains(b) && a.before(b) implies !b.before(a) by {
            lemma_tagged(list, order, a);
            lemma_tagged(list, order, b);
            lemma_process_order(order, a.process, b.process, b.process);
        }
        assert forall|a: Placed, b: Placed, c: Placed|
            #![trigger a.before(b), b.before(c)]
            tagged.contains(a) && tagged.contains(b) && tagged.contains(c) && !a.before(b)
                && !b.before(c) implies !a.before(c) by {
            lemma_tagged(list, order, a);
            lemma_tagged(list, order, b);
            lemma_tagged(list, order, c);
            lemma_process_order(order, a.process, b.process, c.process);
        }
    }
    crate::order::sorting_orders(tagged);
    let result = sorted(tagged);
    assert forall|i: int, j: int| 0 <= i < j < list.len() implies !process_before(
        order,
        #[trigger] ordered(list, order)[j],
        #[trigger] ordered(list, order)[i],
    ) by {
        assert(!result[j].before(result[i]));
        assert(result.contains(result[j]));
        assert(tagged.contains(result[j])) by {
            broadcast use vstd::seq_lib::group_to_multiset_ensures;

            assert(result.to_multiset().count(result[j]) > 0);
            assert(tagged.to_multiset().count(result[j]) > 0);
        }
        lemma_tagged(list, order, result[j]);
    }
}

proof fn lemma_tagged(list: Seq<LlmProcess>, order: ProcessOrder, x: Placed)
    requires
        order == ProcessOrder::Column(TopSort::Cpu) ==> forall|i: int|
            0 <= i < list.len() ==> cpu_is_number(#[trigger] list[i]),
        placed(list, order).contains(x),
    ensures
        x.order == order,
        order == ProcessOrder::Column(TopSort::Cpu) ==> cpu_is_number(x.process),
{
    let k = choose|k: int| 0 <= k < placed(list, order).len() && placed(list, order)[k] == x;
    assert(x.process == list[k]);
}

/// A line of the list of processes says its columns: the number, the resident
/// memory in KiB, the load, the share of the memory, the state, the page-ins, the
/// name and the command.
pub proof fn columns_of_a_process_are_read(
    line: Seq<char>,
    pid: u32,
    kib: u64,
    cpu: nat,
    share: nat,
    pageins: u64,
)
    requires
        words_of(line).len() >= 7,
        words_of(line)[0] == decimal(pid as nat),
        words_of(line)[1] == decimal(kib as nat),
        words_of(line)[2] == decimal(cpu),
        words_of(line)[3] == decimal(share),
        words_of(line)[5] == decimal(pageins as nat),
        share < SIGNIFICAND_BOUND,
    ensures
        ({
            let f = words_of(line);
            let row = row_spec(line);
            &&& row is Some
            &&& row.unwrap().pid == pid
            &&& kib * 1024 <= u64::MAX ==> row.unwrap().rss == kib * 1024
            &&& row.unwrap().cpu == Binary64::of_nat(cpu)
            &&& row.unwrap().memory_percent == Some(Binary64::of_nat(share))
            &&& row.unwrap().state == f[4]
            &&& row.unwrap().pageins == Some(pageins)
            &&& row.unwrap().command == joined(f.skip(7), " "@)
            &&& (forall|i: int| 0 <= i < f[6].len() ==> f[6][i] != '/') ==> row.unwrap().name
                == f[6]
        }),
{
    let f = words_of(line);
    written_numbers_read_back(pid as nat, u32::MAX as nat);
    written_numbers_read_back(kib as nat, u64::MAX as nat);
    written_numbers_read_back(pageins as nat, u64::MAX as nat);
    written_whole_numbers_read_back(cpu);
    written_whole_numbers_read_back(share);
    small_whole_numbers_are_exact(share);
    assert(memory_field(f[3]) == Some(Binary64::of_nat(share)));
    if forall|i: int| 0 <= i < f[6].len() ==> f[6][i] != '/' {
        unmarked_texts_are_one_part(f[6], '/', Seq::empty());
        assert(Seq::<char>::empty() + f[6] =~= f[6]);
        assert(base_name(f[6]) == f[6]);
    }
}

/// What follows the last slash of a path is its name.
pub proof fn names_follow_the_last_slash(folder: Seq<char>, name: Seq<char>)
    requires
        forall|i: int| 0 <= i < folder.len() ==> folder[i] != '/',
        forall|i: int| 0 <= i < name.len() ==> name[i] != '/',
    ensures
        base_name(folder.push('/') + name) == name,
        base_name(name) == name,
{
    unmarked_texts_are_one_part(name, '/', Seq::empty());
    marked_texts_part(folder, name, '/', Seq::empty());
    assert(Seq::<char>::empty() + name =~= name);
    let parts = parts_of(folder.push('/') + name, '/');
    assert(parts.last() == name);
}

/// Every process that serves a model counts: each adds one to their number and
/// its memory to theirs, and one that does not adds nothing.
pub proof fn serving_processes_are_counted(rows: Seq<Row>, row: Row)
    ensures
        process_provider_spec(row.name, row.command) is Some ==> serving_rows(rows.push(row)).len()
            == serving_rows(rows).len() + 1 && resident_sum(serving_rows(rows.push(row)))
            == resident_sum(serving_rows(rows)) + row.rss,
        process_provider_spec(row.name, row.command) is None ==> serving_rows(rows.push(row))
            == serving_rows(rows),
{
    assert(rows.push(row).drop_last() =~= rows);
    let all = serving_rows(rows).push(row);
    assert(all.drop_last() =~= serving_rows(rows));
}

proof fn lemma_serving_is_kept(rows: Seq<Row>, at: int) -> (place: int)
    requires
        0 <= at < rows.len(),
        rows[at].serves(),
    ensures
        0 <= place < serving_rows(rows).len(),
        serving_rows(rows)[place] == rows[at],
    decreases rows.len(),
{
    let shorter = rows.drop_last();
    if at < shorter.len() {
        assert(shorter[at] == rows[at]);
        lemma_serving_is_kept(shorter, at)
    } else {
        serving_rows(rows).len() - 1
    }
}

proof fn lemma_first_is_largest(list: Seq<LlmProcess>, at: int)
    requires
        0 <= at < list.len(),
    ensures
        ordered(list, ProcessOrder::Size).len() == list.len(),
        ordered(list, ProcessOrder::Size)[0].rss >= list[at].rss,
{
    broadcast use vstd::seq_lib::group_to_multiset_ensures;

    let order = ProcessOrder::Size;
    processes_are_listed_in_order(list, order);
    let tagged = placed(list, order);
    let result = sorted(tagged);
    assert(tagged[at].process == list[at]);
    assert(tagged.contains(tagged[at]));
    assert(tagged.to_multiset().count(tagged[at]) > 0);
    assert(result.to_multiset().count(tagged[at]) > 0);
    assert(result.contains(tagged[at]));
    let k = choose|k: int| 0 <= k < result.len() && result[k] == tagged[at];
    assert(ordered(list, order)[k] == list[at]);
    if k > 0 {
        assert(!process_before(order, ordered(list, order)[k], ordered(list, order)[0]));
    }
}

/// The process on top is the largest one that serves a model.
pub proof fn the_largest_process_is_on_top(snapshot: ProcessSnapshot, rows: Seq<Row>, at: int)
    requires
        summarizes(snapshot, rows),
        0 <= at < rows.len(),
        process_provider_spec(rows[at].name, rows[at].command) is Some,
    ensures
        snapshot.top_llm is Some,
        snapshot.top_llm.unwrap().rss >= rows[at].rss,
        snapshot.provider is Some,
        snapshot.llm_processes@.len() <= 32,
{
    let serving = serving_rows(rows);
    let place = lemma_serving_is_kept(rows, at);
    let list = choose|list: Seq<LlmProcess>| #[trigger]
        describe_all(serving, list) && snapshot.llm_processes@ == first_of(
            ordered(list, ProcessOrder::Size),
            PROCESS_LIMIT as nat,
        );
    assert(describes(serving[place], list[place]));
    lemma_first_is_largest(list, place);
}

/// The heaviest of some is as heavy as each of them.
pub proof fn the_heaviest_is_heaviest(list: Seq<Usage>, at: int)
    requires
        0 <= at < list.len(),
    ensures
        heaviest(list) is Some,
        heaviest(list).unwrap().rss >= list[at].rss,
        list.contains(heaviest(list).unwrap()),
    decreases list.len(),
{
    let shorter = list.drop_last();
    assert(list[list.len() - 1] == list.last());
    if shorter.len() > 0 {
        let k = if at < shorter.len() {
            at
        } else {
            0
        };
        assert(shorter[k] == list[k]);
        the_heaviest_is_heaviest(shorter, k);
        let best = heaviest(shorter).unwrap();
        let i = choose|i: int| 0 <= i < shorter.len() && shorter[i] == best;
        assert(list[i] == best);
    }
}

/// Page-ins are measured against those of the same process: one that was not seen
/// before has no rate, and one that takes as many in every second has exactly
/// that rate.
pub proof fn page_ins_are_those_of_one_process(
    process: LlmProcess,
    previous: Seq<LlmProcess>,
    at: int,
    per_second: u64,
    secs: u64,
)
    requires
        0 < secs,
        0 < per_second,
        per_second * secs < SIGNIFICAND_BOUND,
        0 <= at <= previous.len(),
        forall|j: int| 0 <= j < at ==> (#[trigger] previous[j]).pid != process.pid,
        at < previous.len() ==> previous[at].pid == process.pid,
    ensures
        ({
            let elapsed = Elapsed { secs, nanos: 0 };
            let after = annotated(process, previous, elapsed);
            &&& at == previous.len() ==> after.pagein_rate is None
            &&& at < previous.len() && process.pageins is Some && previous[at].pageins is Some
                && process.pageins.unwrap() == previous[at].pageins.unwrap() + per_second * secs
                ==> after.pagein_rate is Some && after.pagein_rate.unwrap().units() == per_second
                * pow2(UNIT_SCALE as nat)
            &&& after.pid == process.pid && after.rss == process.rss && after.cpu == process.cpu
        }),
{
    lemma_pageins_at(previous, process.pid, at);
    if at < previous.len() && process.pageins is Some && previous[at].pageins is Some
        && process.pageins.unwrap() == previous[at].pageins.unwrap() + per_second * secs {
        let count = (per_second * secs) as nat;
        small_whole_numbers_are_exact(count);
        whole_seconds_divide(per_second, secs);
    }
}

proof fn lemma_pageins_at(list: Seq<LlmProcess>, pid: u32, at: int)
    requires
        0 <= at <= list.len(),
        forall|j: int| 0 <= j < at ==> (#[trigger] list[j]).pid != pid,
        at < list.len() ==> list[at].pid == pid,
    ensures
        pageins_before(list, pid) == if at < list.len() {
            list[at].pageins
        } else {
            None
        },
    decreases list.len(),
{
    if list.len() > 0 && at > 0 {
        assert(list[0].pid != pid);
        let rest = list.drop_first();
        assert forall|j: int| 0 <= j < at - 1 implies (#[trigger] rest[j]).pid != pid by {
            assert(rest[j] == list[j + 1]);
        }
        lemma_pageins_at(rest, pid, at - 1);
    }
}

/// Whether one of the names of a process holds a marker.
pub open spec fn goes_by(name: Seq<char>, command: Seq<char>, at: int, marker: Seq<char>) -> bool {
    let names = bare_names(name, command);
    0 <= at < names.len() && occurs(names[at], marker) && !occurs(names[at], "mlxtop"@)
}

/// Whether none of the names of a process holds a marker.
pub open spec fn never_goes_by(name: Seq<char>, command: Seq<char>, marker: Seq<char>) -> bool {
    forall|i: int|
        0 <= i < bare_names(name, command).len() ==> !occurs(
            #[trigger] bare_names(name, command)[i],
            marker,
        )
}

/// Whether nothing in a process's name or the start of its command points to LM
/// Studio.
pub open spec fn is_not_lm_studio(name: Seq<char>, command: Seq<char>) -> bool {
    let start = lower(joined(command_tokens(command), " "@));
    &&& never_goes_by(name, command, "lmstudio"@)
    &&& never_goes_by(name, command, "llmster"@)
    &&& !occurs(start, "lm studio"@)
    &&& !occurs(start, ".lmstudio/"@)
    &&& !occurs(start, "bionic.app/contents/macos/bionic"@)
}

/// A runtime is known by its name, and LM Studio before all others, since it
/// hosts workers of theirs. A process that goes by none of the names serves
/// nothing.
pub proof fn runtimes_are_known_by_their_names(name: Seq<char>, command: Seq<char>, at: int)
    ensures
        goes_by(name, command, at, "lmstudio"@) || goes_by(name, command, at, "llmster"@)
            ==> process_provider_spec(name, command) == Some("LM Studio"@),
        occurs(lower(joined(command_tokens(command), " "@)), "lm studio"@) || occurs(
            lower(joined(command_tokens(command), " "@)),
            ".lmstudio/"@,
        ) || occurs(
            lower(joined(command_tokens(command), " "@)),
            "bionic.app/contents/macos/bionic"@,
        ) ==> process_provider_spec(name, command) == Some("LM Studio"@),
        is_not_lm_studio(name, command) ==> {
            let provider = process_provider_spec(name, command);
            let omlx = never_goes_by(name, command, "omlx"@);
            let ollama = never_goes_by(name, command, "ollama"@);
            let kobold = never_goes_by(name, command, "koboldcpp"@);
            let local = never_goes_by(name, command, "localai"@);
            let llama = never_goes_by(name, command, "llamaserver"@) && never_goes_by(
                name,
                command,
                "llamacpp"@,
            );
            let mlx = never_goes_by(name, command, "mlxlm"@);
            &&& goes_by(name, command, at, "omlx"@) ==> provider == Some("oMLX"@)
            &&& omlx && goes_by(name, command, at, "ollama"@) ==> provider == Some("Ollama"@)
            &&& omlx && ollama && goes_by(name, command, at, "koboldcpp"@) ==> provider == Some(
                "KoboldCpp"@,
            )
            &&& omlx && ollama && kobold && goes_by(name, command, at, "localai"@) ==> provider
                == Some("LocalAI"@)
            &&& omlx && ollama && kobold && local && (goes_by(name, command, at, "llamaserver"@)
                || goes_by(name, command, at, "llamacpp"@)) ==> provider == Some("llama.cpp"@)
            &&& omlx && ollama && kobold && local && llama && goes_by(name, command, at, "mlxlm"@)
                ==> provider == Some("mlx-lm"@)
            &&& omlx && ollama && kobold && local && llama && mlx ==> provider is None
        },
{
    let names = bare_names(name, command);
    if 0 <= at < names.len() {
        assert(names[at] == names[at]);
    }
}

} // verus!
