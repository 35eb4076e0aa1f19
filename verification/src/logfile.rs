//! The log file: when it is rotated, what the archive is called, and which of its lines
//! the log view shows.
use vstd::prelude::*;

use crate::i18n::I18n;
use crate::logline::{parse_log_line, parsed_log_line, LogEntry, LogEntryView};
use crate::text::{chars_of, push_all, string_from_chars};

verus! {

broadcast use vstd::string::group_string_axioms;

/// A log file of more than this many bytes is rotated before the next write.
pub const LOG_SIZE_LIMIT: u64 = 128 * 1024;

/// The log view shows at most this many lines: the newest ones.
pub const MAX_LOG_LINES: usize = 500;

/// The log file must be archived before the next line is written.
pub open spec fn must_rotate(exists: bool, size: u64) -> bool {
    exists && size > LOG_SIZE_LIMIT
}

/// Whether the current log file, which exists or not and has `size` bytes, must be
/// archived before the next line is written.
pub fn needs_rotation(exists: bool, size: u64) -> (r: bool)
    ensures
        r == must_rotate(exists, size),
{
    exists && size > LOG_SIZE_LIMIT
}

/// The name of the current log file.
pub open spec fn log_file_name_spec() -> Seq<char> {
    "netsentry.log"@
}

/// The name of the current log file: `netsentry.log`.
pub fn log_file_name() -> (r: String)
    ensures
        r@ == log_file_name_spec(),
{
    String::from_str("netsentry.log")
}

/// The name a full log file is archived under: `netsentry_<stamp>.log`.
pub open spec fn archive_name(stamp: Seq<char>) -> Seq<char> {
    "netsentry_"@ + stamp + ".log"@
}

/// The name a full log file is archived under, for the time stamp `stamp`.
pub fn archive_file_name(stamp: &str) -> (r: String)
    ensures
        r@ == archive_name(stamp@),
{
    let mut v = chars_of("netsentry_");
    push_all(&mut v, &chars_of(stamp));
    push_all(&mut v, &chars_of(".log"));
    string_from_chars(&v)
}

/// The last `n` lines of `lines` (all of them when there are fewer).
pub open spec fn last_lines(lines: Seq<Seq<char>>, n: nat) -> Seq<Seq<char>> {
    if lines.len() > n {
        lines.subrange(lines.len() - n, lines.len() as int)
    } else {
        lines
    }
}

/// What the log view shows of the lines of the log file: of the newest `MAX_LOG_LINES`
/// lines, those that are log lines, taken apart and translated, the newest first.
pub open spec fn shown_entries(
    lines: Seq<Seq<char>>,
    dict: Map<Seq<char>, Map<Seq<char>, Seq<char>>>,
    lang: Seq<char>,
) -> Seq<LogEntryView> {
    last_lines(lines, MAX_LOG_LINES as nat).filter_map(
        |l: Seq<char>| parsed_log_line(l, dict, lang),
    ).reverse()
}

/// The character sequences of some strings.
pub open spec fn strings_view(v: Seq<String>) -> Seq<Seq<char>> {
    v.map_values(|s: String| s@)
}

/// The values of some log entries.
pub open spec fn entries_view(v: Seq<LogEntry>) -> Seq<LogEntryView> {
    v.map_values(|e: LogEntry| e@)
}

fn reverse_entries(v: Vec<LogEntry>) -> (r: Vec<LogEntry>)
    ensures
        entries_view(r@) == entries_view(v@).reverse(),
{
    let ghost orig = entries_view(v@);
    let n = v.len();
    let mut v = v;
    let mut r: Vec<LogEntry> = Vec::new();
    while v.len() > 0
        invariant
            v.len() + r.len() == n,
            orig.len() == n,
            entries_view(v@) == orig.take(v.len() as int),
            forall|j: int| 0 <= j < r.len() ==> #[trigger] r@[j]@ == orig[n - 1 - j],
        decreases v.len(),
    {
        let ghost k = v.len() - 1;
        assert(entries_view(v@)[k as int] == v@[k as int]@);
        let x = v.pop().unwrap();
        assert(x@ == orig[k as int]);
        r.push(x);
        assert(r@[r.len() - 1]@ == orig[n - 1 - (r.len() - 1)]);
        assert(entries_view(v@) =~= orig.take(v.len() as int));
    }
    assert(entries_view(r@) =~= orig.reverse());
    r
}

/// The entries the log view shows for the lines of the log file, the newest first:
/// of the newest `MAX_LOG_LINES` lines, those that are log lines, translated into `lang`.
pub fn translate_log_lines(lines: &Vec<String>, i18n: &I18n, lang: &str) -> (r: Vec<LogEntry>)
    ensures
        entries_view(r@) == shown_entries(strings_view(lines@), i18n@, lang@),
{
    let ghost all = strings_view(lines@);
    let ghost f = |l: Seq<char>| parsed_log_line(l, i18n@, lang@);
    let start: usize = if lines.len() > MAX_LOG_LINES {
        lines.len() - MAX_LOG_LINES
    } else {
        0
    };
    let ghost kept = last_lines(all, MAX_LOG_LINES as nat);
    assert(kept =~= all.subrange(start as int, all.len() as int));
    let mut fw: Vec<LogEntry> = Vec::new();
    let mut i: usize = start;
    while i < lines.len()
        invariant
            start <= i <= lines.len(),
            all == strings_view(lines@),
            kept == all.subrange(start as int, all.len() as int),
            f == (|l: Seq<char>| parsed_log_line(l, i18n@, lang@)),
            entries_view(fw@) == kept.take(i - start).filter_map(f),
        decreases lines.len() - i,
    {
        let parsed = parse_log_line(lines[i].as_str(), i18n, lang);
        proof {
            kept.lemma_filter_map_take_succ(f, i - start);
            assert(kept[i - start] == lines@[i as int]@);
        }
        match parsed {
            Some(e) => {
                fw.push(e);
            },
            None => {},
        }
        i = i + 1;
        assert(entries_view(fw@) =~= kept.take(i - start).filter_map(f));
    }
    assert(kept.take(lines.len() - start) =~= kept);
    reverse_entries(fw)
}

/// `filter_map` never makes a sequence longer.
proof fn lemma_filter_map_len<A, B>(s: Seq<A>, f: spec_fn(A) -> Option<B>)
    ensures
        s.filter_map(f).len() <= s.len(),
    decreases s.len(),
{
    if s.len() > 0 {
        lemma_filter_map_len(s.drop_last(), f);
    }
}

/// The log view never shows more than `MAX_LOG_LINES` entries, however long the file.
pub proof fn law_log_view_bounded(
    lines: Seq<Seq<char>>,
    dict: Map<Seq<char>, Map<Seq<char>, Seq<char>>>,
    lang: Seq<char>,
)
    ensures
        shown_entries(lines, dict, lang).len() <= MAX_LOG_LINES,
{
    lemma_filter_map_len(
        last_lines(lines, MAX_LOG_LINES as nat),
        |l: Seq<char>| parsed_log_line(l, dict, lang),
    );
}

/// The log view shows the newest line first: when the last line of the file is a log
/// line, it is the first entry shown.
pub proof fn law_log_view_newest_first(
    lines: Seq<Seq<char>>,
    dict: Map<Seq<char>, Map<Seq<char>, Seq<char>>>,
    lang: Seq<char>,
)
    requires
        lines.len() > 0,
        parsed_log_line(lines.last(), dict, lang) is Some,
    ensures
        shown_entries(lines, dict, lang).len() > 0,
        shown_entries(lines, dict, lang)[0] == parsed_log_line(lines.last(), dict, lang)->0,
{
    let kept = last_lines(lines, MAX_LOG_LINES as nat);
    assert(kept.last() == lines.last());
    let f = |l: Seq<char>| parsed_log_line(l, dict, lang);
    let fm = kept.filter_map(f);
    assert(fm == kept.drop_last().filter_map(f) + seq![parsed_log_line(lines.last(), dict, lang)->0]);
    assert(fm.last() == parsed_log_line(lines.last(), dict, lang)->0);
}

/// A log file is rotated exactly when it exists and holds more than 131072 bytes (128 KB).
pub proof fn law_rotation_threshold(exists: bool, size: u64)
    ensures
        must_rotate(exists, size) <==> exists && size > 131072,
{
}

proof fn lemma_filter_map_all_some<A, B>(s: Seq<A>, f: spec_fn(A) -> Option<B>)
    requires
        forall|i: int| 0 <= i < s.len() ==> (#[trigger] f(s[i])) is Some,
    ensures
        s.filter_map(f).len() == s.len(),
        forall|i: int| 0 <= i < s.len() ==> s.filter_map(f)[i] == f(s[i])->0,
    decreases s.len(),
{
    if s.len() > 0 {
        let init = s.drop_last();
        assert forall|i: int| 0 <= i < init.len() implies (#[trigger] f(init[i])) is Some by {
            assert(init[i] == s[i]);
        }
        lemma_filter_map_all_some(init, f);
        assert(f(s[s.len() - 1]) is Some);
        assert forall|i: int| 0 <= i < s.len() implies s.filter_map(f)[i] == f(s[i])->0 by {
            if i < s.len() - 1 {
                assert(init[i] == s[i]);
            }
        }
    }
}

/// When the file has at most `MAX_LOG_LINES` lines and all are log lines, the view shows
/// every one of them, the last line first and the first line last.
pub proof fn law_log_view_shows_all_recent(
    lines: Seq<Seq<char>>,
    dict: Map<Seq<char>, Map<Seq<char>, Seq<char>>>,
    lang: Seq<char>,
)
    requires
        lines.len() <= MAX_LOG_LINES,
        forall|i: int| 0 <= i < lines.len() ==> (#[trigger] parsed_log_line(lines[i], dict, lang)) is Some,
    ensures
        shown_entries(lines, dict, lang).len() == lines.len(),
        forall|i: int|
            0 <= i < lines.len() ==> #[trigger] shown_entries(lines, dict, lang)[i] == parsed_log_line(
                lines[lines.len() - 1 - i],
                dict,
                lang,
            )->0,
{
    let f = |l: Seq<char>| parsed_log_line(l, dict, lang);
    assert(last_lines(lines, MAX_LOG_LINES as nat) == lines);
    assert forall|i: int| 0 <= i < lines.len() implies (#[trigger] f(lines[i])) is Some by {
        assert(parsed_log_line(lines[i], dict, lang) is Some);
    }
    lemma_filter_map_all_some(lines, f);
}

} // verus!
