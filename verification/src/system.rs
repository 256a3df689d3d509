//! What the display says of the host.

use vstd::prelude::*;
use vstd::slice::slice_subrange;
use vstd::string::*;

use crate::binary64::Binary64;
use crate::bytes::{lossy, lossy_text};
use crate::number::{decimal, parse_unsigned, push_decimal, push_two_digits, two_digits, unsigned};
use crate::paths::{device_path, file_name, find_file_name, normalize_device_path};
use crate::reader::{is_reader, number_in, read};
use crate::split::{lines, split_lines, split_words, texts, views, words};
use crate::text::{chars_of, is_text, maybe_text, string_of, trim, trimmed, upper_text, uppered};

verus! {

/// The number of pages.
pub const STATUS_PAGE_COUNT: usize = 3;

/// What is known of the host. What is not known is `None`.
#[derive(Debug, Clone, PartialEq, Eq)]
pub struct HostFacts {
    /// How long the host has been up, in seconds.
    pub uptime_seconds: Option<u64>,
    /// The temperature of the processor, as a number in the configured unit.
    pub cpu_temperature: Option<String>,
    /// The address of the host.
    pub ip: Option<String>,
    /// The load of the host, as a number.
    pub load: Option<String>,
    /// What the kernel says of the memory.
    pub meminfo: Option<String>,
    /// What `df` says of each file system on the page of disks.
    pub disk_usage: Vec<Option<Vec<u8>>>,
}

/// The first word of a text.
pub open spec fn first_word(s: Seq<char>) -> Option<Seq<char>> {
    if words(s).len() > 0 {
        Some(words(s)[0])
    } else {
        None
    }
}

/// Finds the first word of a text.
pub fn leading_word(s: &str) -> (r: Option<String>)
    ensures
        match r {
            Some(word) => first_word(s@) == Some(word@),
            None => first_word(s@) is None,
        },
{
    let chars = chars_of(s);
    let all = split_words(&chars);
    assert(texts(all@) == words(s@));
    if all.len() > 0 {
        Some(string_of(all[0]))
    } else {
        None
    }
}

/// The whole seconds that a number gives, where it is finite and not negative.
pub open spec fn seconds_in(number: Option<Binary64>) -> Option<u64> {
    match number {
        Some(seconds) => if seconds.is_finite() && seconds.value() >= 0 {
            Some(seconds.whole() as u64)
        } else {
            None
        },
        None => None,
    }
}

/// The time that the host has been up, from what the kernel says.
pub open spec fn uptime_in<F: Fn(&str) -> Option<Binary64>>(read: F, raw: Seq<char>) -> Option<u64> {
    match first_word(raw) {
        Some(word) => seconds_in(number_in(read, word)),
        None => None,
    }
}

/// Reads the time that the host has been up from what the kernel says.
pub fn read_uptime_seconds<F: Fn(&str) -> Option<Binary64>>(raw: &str, read_number: &F) -> (r: Option<
    u64,
>)
    requires
        is_reader(*read_number),
    ensures
        r == uptime_in(*read_number, raw@),
{
    let word = match leading_word(raw) {
        Some(word) => word,
        None => {
            return None;
        },
    };
    let seconds = match read(read_number, word.as_str()) {
        Some(seconds) => seconds,
        None => {
            return None;
        },
    };
    if seconds.finite_test() && seconds.ge(Binary64::from_int(0)) {
        Some(seconds.trunc())
    } else {
        None
    }
}

/// The line on how long the host has been up.
pub open spec fn uptime_line(seconds: Option<u64>) -> Seq<char> {
    match seconds {
        None => "UP --"@,
        Some(seconds) => {
            let days = seconds as nat / 86_400;
            let hours = seconds as nat % 86_400 / 3_600;
            let minutes = seconds as nat % 3_600 / 60;
            let clock = two_digits(hours) + ":"@ + two_digits(minutes);
            if days > 0 {
                "UP "@ + decimal(days) + "D "@ + clock
            } else {
                "UP "@ + clock
            }
        },
    }
}

/// Gives the line on how long the host has been up.
pub fn format_uptime(seconds: Option<u64>) -> (r: String)
    ensures
        r@ == uptime_line(seconds),
{
    let seconds: u64 = match seconds {
        None => {
            return "UP --".to_owned();
        },
        Some(seconds) => seconds,
    };
    let days: u64 = seconds / 86_400;
    let hours: u64 = seconds % 86_400 / 3_600;
    let minutes: u64 = seconds % 3_600 / 60;
    let mut out = "UP ".to_owned();
    if days > 0 {
        push_decimal(&mut out, days);
        out.append("D ");
    }
    push_two_digits(&mut out, hours);
    out.append(":");
    push_two_digits(&mut out, minutes);
    assert(out@ == uptime_line(Some(seconds)));
    out
}

/// The line on the temperature of the processor and the fan.
pub open spec fn temperature_line(temperature: Option<Seq<char>>, fahrenheit: bool, fan_percent: u8) -> Seq<
    char,
> {
    let shown = if fan_percent > 100 {
        100nat
    } else {
        fan_percent as nat
    };
    let fan = " FAN "@ + decimal(shown) + "%"@;
    match temperature {
        None => "CPU --"@ + fan,
        Some(number) => if fahrenheit {
            "CPU "@ + number + "F"@ + fan
        } else {
            "CPU "@ + number + "C"@ + fan
        },
    }
}

/// Gives the line on the temperature of the processor, which is given as a
/// number in the unit that is shown, and the fan.
pub fn format_temperature_and_fan(temperature: &Option<String>, fahrenheit: bool, fan_percent: u8) -> (r:
    String)
    ensures
        r@ == temperature_line(maybe_text(*temperature), fahrenheit, fan_percent),
{
    let shown: u8 = if fan_percent > 100 {
        100
    } else {
        fan_percent
    };
    let mut out = "CPU ".to_owned();
    match temperature {
        None => {
            out = "CPU --".to_owned();
        },
        Some(number) => {
            out.append(number.as_str());
            if fahrenheit {
                out.append("F");
            } else {
                out.append("C");
            }
        },
    }
    out.append(" FAN ");
    push_decimal(&mut out, shown as u64);
    out.append("%");
    assert(out@ == temperature_line(maybe_text(*temperature), fahrenheit, fan_percent));
    out
}

/// A label and a text, or dashes where the text is missing.
pub open spec fn labelled(label: Seq<char>, text: Option<Seq<char>>) -> Seq<char> {
    match text {
        Some(text) => label + " "@ + text,
        None => label + " --"@,
    }
}

fn label_text(label: &str, text: &Option<String>) -> (r: String)
    ensures
        r@ == labelled(label@, maybe_text(*text)),
{
    let mut out = label.to_owned();
    match text {
        Some(text) => {
            out.append(" ");
            out.append(text.as_str());
        },
        None => {
            out.append(" --");
        },
    }
    out
}

/// What has been read of the memory: all of it and what is available, in KiB.
/// A line that names either and gives no value ends the reading.
pub open spec fn memory_in(rows: Seq<Seq<char>>) -> Option<(Option<int>, Option<int>)>
    decreases rows.len(),
{
    if rows.len() == 0 {
        Some((None, None))
    } else {
        match memory_in(rows.drop_last()) {
            None => None,
            Some((total, available)) => {
                let fields = words(rows.last());
                if fields.len() == 0 {
                    Some((total, available))
                } else if fields[0] == "MemTotal:"@ {
                    if fields.len() < 2 {
                        None
                    } else {
                        Some((unsigned(fields[1], u64::MAX as int), available))
                    }
                } else if fields[0] == "MemAvailable:"@ {
                    if fields.len() < 2 {
                        None
                    } else {
                        Some((total, unsigned(fields[1], u64::MAX as int)))
                    }
                } else {
                    Some((total, available))
                }
            },
        }
    }
}

/// The memory that is used and all of it, in MiB.
pub open spec fn memory_mib(input: Seq<char>) -> Option<(int, int)> {
    match memory_in(lines(input)) {
        Some((Some(total), Some(available))) => {
            let used = if total > available {
                total - available
            } else {
                0
            };
            Some((used / 1024, total / 1024))
        },
        _ => None,
    }
}

proof fn lemma_memory_stops(rows: Seq<Seq<char>>, n: int)
    requires
        0 <= n <= rows.len(),
        memory_in(rows.take(n)) is None,
    ensures
        memory_in(rows) is None,
    decreases rows.len() - n,
{
    if n < rows.len() {
        assert(rows.take(n + 1).drop_last() == rows.take(n));
        lemma_memory_stops(rows, n + 1);
    } else {
        assert(rows.take(n) == rows);
    }
}

/// Whether a number that may be missing is the one given as mathematical data.
pub open spec fn same_number(n: Option<u64>, expected: Option<int>) -> bool {
    match n {
        Some(n) => expected == Some(n as int),
        None => expected is None,
    }
}

/// Reads the memory that is used and all of it, in MiB, from what the kernel
/// says.
pub fn parse_memory_mib(input: &str) -> (r: Option<(u64, u64)>)
    ensures
        match r {
            Some((used, total)) => memory_mib(input@) == Some((used as int, total as int)),
            None => memory_mib(input@) is None,
        },
{
    let chars = chars_of(input);
    let rows = split_lines(&chars);
    let ghost all = lines(input@);
    let mut total_kib: Option<u64> = None;
    let mut available_kib: Option<u64> = None;
    let ghost mut state: (Option<int>, Option<int>) = (None, None);
    for i in 0..rows.len()
        invariant
            texts(rows@) == all,
            all == lines(input@),
            memory_in(all.take(i as int)) == Some(state),
            same_number(total_kib, state.0),
            same_number(available_kib, state.1),
    {
        assert(all.take(i + 1).drop_last() == all.take(i as int));
        assert(all.take(i + 1).last() == rows@[i as int]@);
        let fields = split_words(rows[i]);
        let ghost found = words(rows@[i as int]@);
        assert(texts(fields@) == found);
        assert(forall|k: int| 0 <= k < fields@.len() ==> found[k] == (#[trigger] fields@[k])@);
        if fields.len() > 0 {
            if is_text(fields[0], "MemTotal:") {
                if fields.len() < 2 {
                    proof {
                        lemma_memory_stops(all, i + 1);
                    }
                    return None;
                }
                total_kib = parse_unsigned(fields[1], u64::MAX);
            } else if is_text(fields[0], "MemAvailable:") {
                if fields.len() < 2 {
                    proof {
                        lemma_memory_stops(all, i + 1);
                    }
                    return None;
                }
                available_kib = parse_unsigned(fields[1], u64::MAX);
            }
        }
        proof {
            state = memory_in(all.take(i + 1))->0;
        }
    }
    assert(all.take(all.len() as int) == all);
    match (total_kib, available_kib) {
        (Some(total), Some(available)) => {
            let used: u64 = if total > available {
                total - available
            } else {
                0
            };
            Some((used / 1024, total / 1024))
        },
        _ => None,
    }
}

/// The line on the memory.
pub open spec fn memory_line(meminfo: Option<Seq<char>>) -> Seq<char> {
    let known = match meminfo {
        Some(input) => memory_mib(input),
        None => None,
    };
    match known {
        Some((used, total)) => "MEM "@ + decimal(used as nat) + "/"@ + decimal(total as nat) + "M"@,
        None => "MEM --"@,
    }
}

fn format_memory(meminfo: &Option<String>) -> (r: String)
    ensures
        r@ == memory_line(maybe_text(*meminfo)),
{
    let known = match meminfo {
        Some(input) => parse_memory_mib(input.as_str()),
        None => None,
    };
    match known {
        Some((used, total)) => {
            let mut out = "MEM ".to_owned();
            push_decimal(&mut out, used);
            out.append("/");
            push_decimal(&mut out, total);
            out.append("M");
            out
        },
        None => "MEM --".to_owned(),
    }
}

/// The last text of a list that is not blank.
pub open spec fn last_nonblank(rows: Seq<Seq<char>>) -> Option<Seq<char>>
    decreases rows.len(),
{
    if rows.len() == 0 {
        None
    } else if trimmed(rows.last()).len() > 0 {
        Some(rows.last())
    } else {
        last_nonblank(rows.drop_last())
    }
}

/// The share of a file system that is used, in percent: the last word but one
/// of the last line that is not blank, before its percent sign.
pub open spec fn df_percent(output: Seq<char>) -> Option<int> {
    match last_nonblank(lines(output)) {
        None => None,
        Some(row) => {
            let fields = words(row);
            let share = fields[fields.len() - 2];
            if fields.len() < 2 || share.len() == 0 || share.last() != '%' {
                None
            } else {
                unsigned(share.drop_last(), u8::MAX as int)
            }
        },
    }
}

/// Reads the share of a file system that is used from the output of `df -P`.
pub fn parse_df_percent(output: &str) -> (r: Option<u8>)
    ensures
        match r {
            Some(percent) => df_percent(output@) == Some(percent as int),
            None => df_percent(output@) is None,
        },
{
    let chars = chars_of(output);
    let rows = split_lines(&chars);
    let ghost all = lines(output@);
    let mut i: usize = rows.len();
    assert(all.take(i as int) == all);
    while i > 0
        invariant
            i <= rows@.len(),
            texts(rows@) == all,
            all == lines(output@),
            last_nonblank(all) == last_nonblank(all.take(i as int)),
        decreases i,
    {
        i = i - 1;
        let row = rows[i];
        assert(all.take(i + 1).last() == row@);
        assert(all.take(i + 1).drop_last() == all.take(i as int));
        if trim(row).len() > 0 {
            let fields = split_words(row);
            assert(texts(fields@) == words(row@));
            if fields.len() < 2 {
                return None;
            }
            let share = fields[fields.len() - 2];
            assert(words(row@)[words(row@).len() - 2] == share@);
            if share.len() == 0 || share[share.len() - 1] != '%' {
                return None;
            }
            let digits = slice_subrange(share, 0, share.len() - 1);
            assert(digits@ == share@.drop_last());
            return match parse_unsigned(digits, u8::MAX as u64) {
                Some(percent) => Some(percent as u8),
                None => None,
            };
        }
    }
    None
}

/// The share of a file system that is used, from what `df` wrote, if it ran.
pub open spec fn usage_in(output: Option<Seq<u8>>) -> Option<int> {
    match output {
        Some(bytes) => df_percent(lossy(bytes)),
        None => None,
    }
}

/// What bytes that may be missing are.
pub open spec fn maybe_bytes(output: Option<Vec<u8>>) -> Option<Seq<u8>> {
    match output {
        Some(bytes) => Some(bytes@),
        None => None,
    }
}

/// Reads the share of a file system that is used from what `df` wrote.
pub fn disk_usage_percent(output: &Option<Vec<u8>>) -> (r: Option<u8>)
    ensures
        match r {
            Some(percent) => usage_in(maybe_bytes(*output)) == Some(percent as int),
            None => usage_in(maybe_bytes(*output)) is None,
        },
{
    match output {
        Some(bytes) => parse_df_percent(lossy_text(bytes).as_str()),
        None => None,
    }
}

/// The line on a file system of which the given share is used.
pub open spec fn disk_line(label: Seq<char>, percent: Option<int>) -> Seq<char> {
    match percent {
        Some(percent) => label + " "@ + decimal(percent as nat) + "%"@,
        None => label + " --"@,
    }
}

/// Gives the line on a file system.
pub fn format_disk_line(label: &str, percent: Option<u8>) -> (r: String)
    ensures
        r@ == disk_line(
            label@,
            match percent {
                Some(percent) => Some(percent as int),
                None => None,
            },
        ),
{
    let mut out = label.to_owned();
    match percent {
        Some(percent) => {
            out.append(" ");
            push_decimal(&mut out, percent as u64);
            out.append("%");
        },
        None => {
            out.append(" --");
        },
    }
    out
}

/// A file system on the page of disks.
#[derive(Debug, Clone, PartialEq, Eq)]
pub struct DiskTarget {
    pub label: String,
    pub path: String,
}

/// The label of a configured disk: the name of its device in upper case.
pub open spec fn disk_label(disk: Seq<char>) -> Seq<char> {
    match file_name(device_path(disk)) {
        Some(name) => uppered(name),
        None => uppered(disk),
    }
}

/// The labels and paths on the page of disks: the root, and up to three of the
/// configured disks.
pub open spec fn targets_of(disks: Seq<Seq<char>>) -> Seq<(Seq<char>, Seq<char>)> {
    let shown = if disks.len() > 3 {
        3
    } else {
        disks.len()
    };
    seq![("ROOT"@, "/"@)] + Seq::new(
        shown,
        |i: int| (disk_label(disks[i]), device_path(disks[i])),
    )
}

/// Labels and paths as mathematical data.
pub open spec fn target_views(targets: Seq<DiskTarget>) -> Seq<(Seq<char>, Seq<char>)> {
    Seq::new(targets.len(), |i: int| (targets[i].label@, targets[i].path@))
}

/// Finds the file systems on the page of disks.
pub fn disk_targets(disks: &Vec<String>) -> (r: Vec<DiskTarget>)
    ensures
        target_views(r@) == targets_of(views(disks@)),
{
    let mut targets: Vec<DiskTarget> = Vec::new();
    targets.push(DiskTarget { label: "ROOT".to_owned(), path: "/".to_owned() });
    let shown: usize = if disks.len() > 3 {
        3
    } else {
        disks.len()
    };
    let ghost names = views(disks@);
    assert(target_views(targets@) == targets_of(names).take(1));
    for i in 0..shown
        invariant
            shown <= disks@.len(),
            shown <= 3,
            shown == disks@.len() || shown == 3,
            names == views(disks@),
            target_views(targets@) == targets_of(names).take(i + 1),
    {
        let path = normalize_device_path(disks[i].as_str());
        let label = match find_file_name(path.as_str()) {
            Some(name) => string_of(&upper_text(&name)),
            None => string_of(&upper_text(&chars_of(disks[i].as_str()))),
        };
        assert(names[i as int] == disks@[i as int]@);
        let ghost before = target_views(targets@);
        targets.push(DiskTarget { label, path });
        assert(target_views(targets@) == before.push((label@, path@)));
        assert(targets_of(names)[i + 1] == (label@, path@));
    }
    assert(targets_of(names).take(shown + 1) == targets_of(names));
    targets
}

/// The facts as mathematical data.
pub struct FactsView {
    pub uptime_seconds: Option<u64>,
    pub cpu_temperature: Option<Seq<char>>,
    pub ip: Option<Seq<char>>,
    pub load: Option<Seq<char>>,
    pub meminfo: Option<Seq<char>>,
    pub disk_usage: Seq<Option<Seq<u8>>>,
}

impl View for HostFacts {
    type V = FactsView;

    open spec fn view(&self) -> FactsView {
        FactsView {
            uptime_seconds: self.uptime_seconds,
            cpu_temperature: maybe_text(self.cpu_temperature),
            ip: maybe_text(self.ip),
            load: maybe_text(self.load),
            meminfo: maybe_text(self.meminfo),
            disk_usage: Seq::new(
                self.disk_usage@.len(),
                |i: int| maybe_bytes(self.disk_usage@[i]),
            ),
        }
    }
}

/// The page on the host: how long it has been up, the processor and the fan,
/// and the address.
pub open spec fn overview(facts: FactsView, fahrenheit: bool, fan_percent: u8) -> Seq<Seq<char>> {
    seq![
        uptime_line(facts.uptime_seconds),
        temperature_line(facts.cpu_temperature, fahrenheit, fan_percent),
        labelled("IP"@, facts.ip),
    ]
}

/// The page on load and memory.
pub open spec fn resources(facts: FactsView) -> Seq<Seq<char>> {
    seq![labelled("LOAD"@, facts.load), memory_line(facts.meminfo)]
}

/// The page on disks: a line for each file system, with what `df` says of it.
pub open spec fn disk_lines(facts: FactsView, disks: Seq<Seq<char>>) -> Seq<Seq<char>> {
    Seq::new(
        targets_of(disks).len(),
        |i: int|
            disk_line(
                targets_of(disks)[i].0,
                if i < facts.disk_usage.len() {
                    usage_in(facts.disk_usage[i])
                } else {
                    None
                },
            ),
    )
}

/// The lines of a page.
pub open spec fn page_lines(
    index: int,
    facts: FactsView,
    disks: Seq<Seq<char>>,
    fahrenheit: bool,
    fan_percent: u8,
) -> Seq<Seq<char>> {
    if index % 3 == 0 {
        overview(facts, fahrenheit, fan_percent)
    } else if index % 3 == 1 {
        resources(facts)
    } else {
        disk_lines(facts, disks)
    }
}

fn overview_page(facts: &HostFacts, fahrenheit: bool, fan_percent: u8) -> (r: Vec<String>)
    ensures
        views(r@) == overview(facts@, fahrenheit, fan_percent),
{
    let mut lines: Vec<String> = Vec::new();
    lines.push(format_uptime(facts.uptime_seconds));
    lines.push(format_temperature_and_fan(&facts.cpu_temperature, fahrenheit, fan_percent));
    lines.push(label_text("IP", &facts.ip));
    assert(views(lines@) == overview(facts@, fahrenheit, fan_percent));
    lines
}

fn resource_page(facts: &HostFacts) -> (r: Vec<String>)
    ensures
        views(r@) == resources(facts@),
{
    let mut lines: Vec<String> = Vec::new();
    lines.push(label_text("LOAD", &facts.load));
    lines.push(format_memory(&facts.meminfo));
    assert(views(lines@) == resources(facts@));
    lines
}

fn disk_page(facts: &HostFacts, disks: &Vec<String>) -> (r: Vec<String>)
    ensures
        views(r@) == disk_lines(facts@, views(disks@)),
{
    let targets = disk_targets(disks);
    let ghost names = views(disks@);
    let mut lines: Vec<String> = Vec::new();
    assert(views(lines@) == disk_lines(facts@, names).take(0));
    for i in 0..targets.len()
        invariant
            names == views(disks@),
            target_views(targets@) == targets_of(names),
            views(lines@) == disk_lines(facts@, names).take(i as int),
    {
        let percent = if i < facts.disk_usage.len() {
            disk_usage_percent(&facts.disk_usage[i])
        } else {
            None
        };
        let ghost before = views(lines@);
        assert(target_views(targets@)[i as int].0 == targets@[i as int].label@);
        let line = format_disk_line(targets[i].label.as_str(), percent);
        assert(line@ == disk_lines(facts@, names)[i as int]);
        lines.push(line);
        assert(views(lines@) == before.push(line@));
    }
    assert(disk_lines(facts@, names).take(targets@.len() as int) == disk_lines(facts@, names));
    lines
}

/// Gives the lines of a page; pages after the last start over.
pub fn status_page(
    index: usize,
    facts: &HostFacts,
    disks: &Vec<String>,
    fahrenheit: bool,
    fan_percent: u8,
) -> (r: Vec<String>)
    ensures
        views(r@) == page_lines(index as int, facts@, views(disks@), fahrenheit, fan_percent),
{
    let page: usize = index % STATUS_PAGE_COUNT;
    if page == 0 {
        overview_page(facts, fahrenheit, fan_percent)
    } else if page == 1 {
        resource_page(facts)
    } else {
        disk_page(facts, disks)
    }
}

/// The page of disks starts with the root and shows up to three disks more.
pub proof fn disk_page_starts_with_root(facts: FactsView, disks: Seq<Seq<char>>)
    ensures
        1 <= disk_lines(facts, disks).len() <= 4,
        disk_lines(facts, disks).len() == if disks.len() > 3 {
            4
        } else {
            disks.len() + 1
        },
        targets_of(disks)[0] == ("ROOT"@, "/"@),
{
}

/// Whether the first word of a row is a name.
pub open spec fn starts_row(row: Seq<char>, name: Seq<char>) -> bool {
    words(row).len() > 0 && words(row)[0] == name
}

/// Whether the row at `i` is the last that starts with a name.
pub open spec fn is_last_row(rows: Seq<Seq<char>>, i: int, name: Seq<char>) -> bool {
    &&& 0 <= i < rows.len()
    &&& starts_row(rows[i], name)
    &&& forall|k: int| i < k < rows.len() ==> !starts_row(#[trigger] rows[k], name)
}

/// Whether a row starts with one of the two names that matter and goes no
/// further.
pub open spec fn lacks_value(row: Seq<char>) -> bool {
    (starts_row(row, "MemTotal:"@) || starts_row(row, "MemAvailable:"@)) && words(row).len() < 2
}

proof fn lemma_memory_rows(rows: Seq<Seq<char>>)
    ensures
        (exists|k: int| 0 <= k < rows.len() && lacks_value(#[trigger] rows[k])) <==> memory_in(rows)
            is None,
        memory_in(rows) matches Some((total, available)) ==> {
            &&& forall|i: int| #[trigger]
                is_last_row(rows, i, "MemTotal:"@) ==> total == unsigned(
                    words(rows[i])[1],
                    u64::MAX as int,
                )
            &&& forall|i: int| #[trigger]
                is_last_row(rows, i, "MemAvailable:"@) ==> available == unsigned(
                    words(rows[i])[1],
                    u64::MAX as int,
                )
            &&& (forall|k: int|
                0 <= k < rows.len() ==> !starts_row(#[trigger] rows[k], "MemTotal:"@)) ==> total
                is None
            &&& (forall|k: int|
                0 <= k < rows.len() ==> !starts_row(#[trigger] rows[k], "MemAvailable:"@))
                ==> available is None
        },
    decreases rows.len(),
{
    reveal_strlit("MemTotal:");
    reveal_strlit("MemAvailable:");
    assert("MemTotal:"@.len() == 9);
    assert("MemAvailable:"@.len() == 13);
    if rows.len() > 0 {
        let before = rows.drop_last();
        let last = rows.last();
        lemma_memory_rows(before);
        assert(forall|k: int| 0 <= k < before.len() ==> before[k] == rows[k]);
        assert(rows[rows.len() - 1] == last);
        if memory_in(before) is None {
            let k = choose|k: int| 0 <= k < before.len() && lacks_value(#[trigger] before[k]);
            assert(lacks_value(rows[k]));
        } else if lacks_value(last) {
            assert(lacks_value(rows[rows.len() - 1]));
        } else {
            assert forall|k: int| 0 <= k < rows.len() implies !lacks_value(#[trigger] rows[k]) by {
                if k < before.len() {
                    assert(!lacks_value(before[k]));
                }
            }
        }
        if memory_in(rows) is Some {
            let (total, available) = memory_in(rows)->0;
            assert forall|i: int| #[trigger] is_last_row(rows, i, "MemTotal:"@) implies total
                == unsigned(words(rows[i])[1], u64::MAX as int) by {
                if i < before.len() {
                    assert(!starts_row(rows[rows.len() - 1], "MemTotal:"@));
                    assert(is_last_row(before, i, "MemTotal:"@));
                }
            }
            assert forall|i: int| #[trigger] is_last_row(rows, i, "MemAvailable:"@) implies available
                == unsigned(words(rows[i])[1], u64::MAX as int) by {
                if i < before.len() {
                    assert(!starts_row(rows[rows.len() - 1], "MemAvailable:"@));
                    assert(is_last_row(before, i, "MemAvailable:"@));
                }
            }
            if forall|k: int| 0 <= k < rows.len() ==> !starts_row(#[trigger] rows[k], "MemTotal:"@) {
                assert(forall|k: int|
                    0 <= k < before.len() ==> !starts_row(#[trigger] before[k], "MemTotal:"@));
                assert(!starts_row(rows[rows.len() - 1], "MemTotal:"@));
            }
            if forall|k: int|
                0 <= k < rows.len() ==> !starts_row(#[trigger] rows[k], "MemAvailable:"@) {
                assert(forall|k: int|
                    0 <= k < before.len() ==> !starts_row(#[trigger] before[k], "MemAvailable:"@));
                assert(!starts_row(rows[rows.len() - 1], "MemAvailable:"@));
            }
        }
    }
}

proof fn lemma_memory_skips(rows: Seq<Seq<char>>, i: int)
    requires
        0 <= i < rows.len(),
        !starts_row(rows[i], "MemTotal:"@),
        !starts_row(rows[i], "MemAvailable:"@),
    ensures
        memory_in(rows.remove(i)) == memory_in(rows),
    decreases rows.len(),
{
    let fewer = rows.remove(i);
    if i == rows.len() - 1 {
        assert(fewer =~= rows.drop_last());
    } else {
        assert(fewer.drop_last() =~= rows.drop_last().remove(i));
        assert(fewer.last() == rows.last());
        lemma_memory_skips(rows.drop_last(), i);
    }
}

/// Only the lines on all of the memory and on what is available count: a line
/// whose first word is another may stand anywhere or be missing.
pub proof fn other_memory_lines_do_not_count(with: Seq<char>, without: Seq<char>, i: int)
    requires
        0 <= i < lines(with).len(),
        lines(without) == lines(with).remove(i),
        words(lines(with)[i]).len() > 0 ==> words(lines(with)[i])[0] != "MemTotal:"@ && words(
            lines(with)[i],
        )[0] != "MemAvailable:"@,
    ensures
        memory_mib(with) == memory_mib(without),
{
    lemma_memory_skips(lines(with), i);
}

/// The memory that is used is what is not available of all of it, in whole MiB;
/// where a line is given more than once, the last counts.
pub proof fn used_memory_is_what_is_not_available(
    input: Seq<char>,
    total_at: int,
    total: int,
    available_at: int,
    available: int,
)
    requires
        is_last_row(lines(input), total_at, "MemTotal:"@),
        is_last_row(lines(input), available_at, "MemAvailable:"@),
        forall|k: int| 0 <= k < lines(input).len() ==> !lacks_value(#[trigger] lines(input)[k]),
        unsigned(words(lines(input)[total_at])[1], u64::MAX as int) == Some(total),
        unsigned(words(lines(input)[available_at])[1], u64::MAX as int) == Some(available),
    ensures
        memory_mib(input) matches Some((used, all)) && {
            &&& 1024 * all <= total < 1024 * (all + 1)
            &&& available <= total ==> 1024 * used <= total - available < 1024 * (used + 1)
            &&& available >= total ==> used == 0
        },
{
    lemma_memory_rows(lines(input));
}

/// Nothing is said of the memory where one of the two lines is missing, has no
/// value, or has one that is not a number.
pub proof fn memory_needs_both_lines(input: Seq<char>)
    ensures
        (forall|k: int|
            0 <= k < lines(input).len() ==> !starts_row(#[trigger] lines(input)[k], "MemTotal:"@))
            ==> memory_mib(input) is None,
        (forall|k: int|
            0 <= k < lines(input).len() ==> !starts_row(
                #[trigger] lines(input)[k],
                "MemAvailable:"@,
            )) ==> memory_mib(input) is None,
        (exists|k: int| 0 <= k < lines(input).len() && lacks_value(#[trigger] lines(input)[k]))
            ==> memory_mib(input) is None,
        forall|i: int|
            (#[trigger] is_last_row(lines(input), i, "MemTotal:"@) || is_last_row(
                lines(input),
                i,
                "MemAvailable:"@,
            )) && unsigned(words(lines(input)[i])[1], u64::MAX as int) is None ==> memory_mib(input)
                is None,
{
    lemma_memory_rows(lines(input));
}

/// The time that the host has been up is shown in days, hours and minutes; what
/// is left of a minute is not shown, and neither are days where there are none.
pub proof fn uptime_is_shown_to_the_minute(
    days: nat,
    hours: nat,
    minutes: nat,
    rest: nat,
    seconds: u64,
)
    requires
        hours < 24,
        minutes < 60,
        rest < 60,
        seconds == 86_400 * days + 3_600 * hours + 60 * minutes + rest,
    ensures
        uptime_line(Some(seconds)) == "UP "@ + (if days > 0 {
            decimal(days) + "D "@
        } else {
            Seq::empty()
        }) + two_digits(hours) + ":"@ + two_digits(minutes),
{
    assert(seconds as nat / 86_400 == days);
    assert(seconds as nat % 86_400 / 3_600 == hours);
    assert(seconds as nat % 3_600 / 60 == minutes);
    let clock = two_digits(hours) + ":"@ + two_digits(minutes);
    if days > 0 {
        assert("UP "@ + decimal(days) + "D "@ + clock =~= "UP "@ + (decimal(days) + "D "@)
            + two_digits(hours) + ":"@ + two_digits(minutes));
    } else {
        assert("UP "@ + clock =~= "UP "@ + Seq::<char>::empty() + two_digits(hours) + ":"@
            + two_digits(minutes));
    }
}

proof fn lemma_last_nonblank(rows: Seq<Seq<char>>, i: int)
    requires
        0 <= i < rows.len(),
        trimmed(rows[i]).len() > 0,
        forall|k: int| i < k < rows.len() ==> trimmed(#[trigger] rows[k]).len() == 0,
    ensures
        last_nonblank(rows) == Some(rows[i]),
    decreases rows.len(),
{
    if i < rows.len() - 1 {
        assert(trimmed(rows[rows.len() - 1]).len() == 0);
        let before = rows.drop_last();
        assert(forall|k: int| 0 <= k < before.len() ==> before[k] == rows[k]);
        lemma_last_nonblank(before, i);
    }
}

/// The share of a file system that is used is the number before the percent sign
/// in the last word but one of the last line that is not blank. Anything else
/// there, and a number above what eight bits hold, is no share.
pub proof fn usage_is_before_the_percent_sign(output: Seq<char>, i: int, share: Seq<char>)
    requires
        0 <= i < lines(output).len(),
        trimmed(lines(output)[i]).len() > 0,
        forall|k: int| i < k < lines(output).len() ==> trimmed(#[trigger] lines(output)[k]).len() == 0,
        words(lines(output)[i]).len() >= 2,
        words(lines(output)[i])[words(lines(output)[i]).len() - 2] == share,
    ensures
        share.len() > 0 && share.last() == '%' ==> df_percent(output) == unsigned(
            share.drop_last(),
            255,
        ),
        forall|percent: nat| percent <= 255 && share == #[trigger] decimal(percent) + seq!['%']
            ==> df_percent(output) == Some(percent as int),
        share.len() == 0 || share.last() != '%' ==> df_percent(output) is None,
{
    lemma_last_nonblank(lines(output), i);
    assert forall|percent: nat| percent <= 255 && share == #[trigger] decimal(percent) + seq![
        '%',
    ] implies df_percent(output) == Some(percent as int) by {
        crate::number::written_number_reads_back(percent, 255);
        assert(share.drop_last() =~= decimal(percent));
    }
}

/// The line on the processor shows the unit that was asked for, and a fan that
/// is given more than the whole as at the whole.
pub proof fn processor_line_shows_unit_and_fan(number: Seq<char>, fan_percent: u8)
    ensures
        fan_percent <= 100 ==> temperature_line(Some(number), false, fan_percent) == "CPU "@ + number
            + "C FAN "@ + decimal(fan_percent as nat) + "%"@,
        fan_percent <= 100 ==> temperature_line(Some(number), true, fan_percent) == "CPU "@ + number
            + "F FAN "@ + decimal(fan_percent as nat) + "%"@,
        fan_percent > 100 ==> temperature_line(Some(number), false, fan_percent)
            == temperature_line(Some(number), false, 100) && temperature_line(
            Some(number),
            true,
            fan_percent,
        ) == temperature_line(Some(number), true, 100) && temperature_line(None, true, fan_percent)
            == temperature_line(None, true, 100),
        temperature_line(None, true, fan_percent) == temperature_line(None, false, fan_percent),
{
    reveal_strlit("C");
    reveal_strlit("F");
    reveal_strlit(" FAN ");
    reveal_strlit("C FAN ");
    reveal_strlit("F FAN ");
    let shown = decimal(fan_percent as nat);
    assert("C"@ + " FAN "@ =~= "C FAN "@);
    assert("F"@ + " FAN "@ =~= "F FAN "@);
    assert("CPU "@ + number + "C"@ + (" FAN "@ + shown + "%"@) =~= "CPU "@ + number + ("C"@
        + " FAN "@) + shown + "%"@);
    assert("CPU "@ + number + "F"@ + (" FAN "@ + shown + "%"@) =~= "CPU "@ + number + ("F"@
        + " FAN "@) + shown + "%"@);
}

/// There are three pages, and after the last the first comes again. The first
/// tells of the host, the second of load and memory, the third of disks.
pub proof fn pages_come_round(
    index: int,
    facts: FactsView,
    disks: Seq<Seq<char>>,
    fahrenheit: bool,
    fan_percent: u8,
)
    requires
        0 <= index,
    ensures
        page_lines(index + 3, facts, disks, fahrenheit, fan_percent) == page_lines(
            index,
            facts,
            disks,
            fahrenheit,
            fan_percent,
        ),
        page_lines(0, facts, disks, fahrenheit, fan_percent) == seq![
            uptime_line(facts.uptime_seconds),
            temperature_line(facts.cpu_temperature, fahrenheit, fan_percent),
            labelled("IP"@, facts.ip),
        ],
        page_lines(1, facts, disks, fahrenheit, fan_percent) == seq![
            labelled("LOAD"@, facts.load),
            memory_line(facts.meminfo),
        ],
        page_lines(2, facts, disks, fahrenheit, fan_percent).len() == targets_of(disks).len(),
{
    assert((index + 3) % 3 == index % 3);
}

/// A bare name on the list of disks is shown in upper case and looked up below
/// `/dev`. What `df` says of a disk stands on the line of that disk, and the line
/// of a disk of which nothing is known says so.
pub proof fn disks_are_shown_by_name(
    facts: FactsView,
    disks: Seq<Seq<char>>,
    i: int,
    name: Seq<char>,
)
    requires
        0 <= i < disks.len(),
        i < 3,
        disks[i] == name,
        name.len() > 0,
        !name.contains('/'),
        name != "."@,
        name != ".."@,
        !crate::text::is_space(name[0]),
        !crate::text::is_space(name.last()),
    ensures
        targets_of(disks)[i + 1] == (uppered(name), "/dev/"@ + name),
        i + 1 >= facts.disk_usage.len() ==> disk_lines(facts, disks)[i + 1] == uppered(name)
            + " --"@,
        i + 1 < facts.disk_usage.len() && usage_in(facts.disk_usage[i + 1]) is None ==> disk_lines(
            facts,
            disks,
        )[i + 1] == uppered(name) + " --"@,
        forall|percent: nat|
            i + 1 < facts.disk_usage.len() && #[trigger] usage_in(facts.disk_usage[i + 1]) == Some(
                percent as int,
            ) ==> disk_lines(facts, disks)[i + 1] == uppered(name) + " "@ + #[trigger] decimal(
                percent,
            ) + "%"@,
{
    reveal_strlit("/dev");
    reveal_strlit("/dev/");
    assert(name.contains(name[0]));
    let none = Seq::<char>::empty();
    crate::paths::bare_names_are_below_dev(none, name, none);
    assert(none + name + none =~= name);
    crate::paths::last_part_names_the_file("/dev"@, name);
    assert("/dev"@ + seq!['/'] + name =~= "/dev/"@ + name);
    let shown = if disks.len() > 3 {
        3
    } else {
        disks.len()
    };
    assert(targets_of(disks)[i + 1] == (disk_label(disks[i]), device_path(disks[i])));
}

/// The time that the host has been up is the first number of what the kernel says,
/// without its fraction; a first word that is no number, or a number below zero or
/// without end, is no time.
pub proof fn uptime_is_the_first_number<F: Fn(&str) -> Option<Binary64>>(
    read: F,
    word: Seq<char>,
    rest: Seq<char>,
)
    requires
        word.len() > 0,
        forall|i: int| 0 <= i < word.len() ==> !crate::text::is_space(#[trigger] word[i]),
    ensures
        ({
            let up = uptime_in(read, word + seq![' '] + rest);
            &&& number_in(read, word) is None ==> up is None
            &&& number_in(read, word) matches Some(n) ==> {
                &&& !n.is_finite() || n.value() < 0 ==> up is None
                &&& n.is_finite() && n.value() >= 0 ==> (up matches Some(seconds) && seconds
                    * crate::binary64::one() <= n.value() && (seconds < u64::MAX ==> n.value() < (
                seconds + 1) * crate::binary64::one()))
            }
        }),
{
    crate::split::space_parts_words(word, ' ', rest);
    crate::split::text_without_space_is_one_word(word);
    if let Some(n) = number_in(read, word) {
        crate::binary64::whole_part_is_below(n);
        crate::binary64::encodings_follow_their_parts(n, n);
    }
}

/// The line on the memory shows what is used of all of it, and lines of which
/// nothing is known say so.
pub proof fn unknown_facts_are_shown_as_dashes(input: Seq<char>, text: Seq<char>, label: Seq<char>)
    ensures
        memory_line(None) == "MEM --"@,
        memory_mib(input) is None ==> memory_line(Some(input)) == "MEM --"@,
        memory_mib(input) matches Some((used, all)) ==> memory_line(Some(input)) == "MEM "@
            + decimal(used as nat) + "/"@ + decimal(all as nat) + "M"@,
        labelled(label, None) == label + " --"@,
        labelled(label, Some(text)) == label + " "@ + text,
        uptime_line(None) == "UP --"@,
        disk_line(label, None) == label + " --"@,
{
}

/// Where the temperature is unknown, the line on the processor says so and still
/// shows the fan.
pub proof fn unknown_temperature_leaves_the_fan(fahrenheit: bool, fan_percent: u8)
    requires
        fan_percent <= 100,
    ensures
        temperature_line(None, fahrenheit, fan_percent) == "CPU -- FAN "@ + decimal(
            fan_percent as nat,
        ) + "%"@,
{
    reveal_strlit("CPU --");
    reveal_strlit(" FAN ");
    reveal_strlit("CPU -- FAN ");
    assert("CPU -- FAN "@ =~= "CPU --"@ + " FAN "@);
    assert(temperature_line(None, fahrenheit, fan_percent) =~= "CPU -- FAN "@ + decimal(
        fan_percent as nat,
    ) + "%"@);
}

/// An output without a line of two words says nothing of a file system.
pub proof fn usage_needs_a_line(output: Seq<char>)
    ensures
        (forall|k: int| 0 <= k < lines(output).len() ==> words(#[trigger] lines(output)[k]).len() < 2)
            ==> df_percent(output) is None,
        (forall|k: int| 0 <= k < lines(output).len() ==> trimmed(#[trigger] lines(output)[k]).len() == 0)
            ==> df_percent(output) is None,
{
    lemma_last_nonblank_stands(lines(output));
}

proof fn lemma_last_nonblank_stands(rows: Seq<Seq<char>>)
    ensures
        last_nonblank(rows) matches Some(row) ==> trimmed(row).len() > 0 && exists|k: int|
            0 <= k < rows.len() && #[trigger] rows[k] == row,
    decreases rows.len(),
{
    if rows.len() > 0 && trimmed(rows.last()).len() == 0 {
        let less = rows.drop_last();
        lemma_last_nonblank_stands(less);
        if let Some(row) = last_nonblank(less) {
            let k = choose|k: int| 0 <= k < less.len() && #[trigger] less[k] == row;
            assert(rows[k] == row);
        }
    }
}

} // verus!
