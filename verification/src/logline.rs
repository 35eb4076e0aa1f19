//! The log line format: `[timestamp] [level] key[ | detail]`.
//!
//! A line stores the message key, not its text, so that the log can be shown in whatever
//! language the interface uses when it is read.
use vstd::prelude::*;

use crate::i18n::{translate, I18n};
use crate::text::{
    chars_of, find, find_from, lemma_find_from, lemma_find_from_is, occurs_at, push_all,
    slice_chars, string_from_chars, strip_leading, trim_start_char,
};

verus! {

broadcast use vstd::string::group_string_axioms;

/// One log line, taken apart and translated.
#[derive(Debug, Clone)]
pub struct LogEntry {
    pub timestamp: String,
    pub level: String,
    /// The message key, such as `log_disconnected`.
    pub message: String,
    /// The message in the asked language, followed by the detail if the line has one.
    pub translated: String,
}

/// The mathematical value of a `LogEntry`.
pub struct LogEntryView {
    pub timestamp: Seq<char>,
    pub level: Seq<char>,
    pub message: Seq<char>,
    pub translated: Seq<char>,
}

impl View for LogEntry {
    type V = LogEntryView;

    open spec fn view(&self) -> LogEntryView {
        LogEntryView {
            timestamp: self.timestamp@,
            level: self.level@,
            message: self.message@,
            translated: self.translated@,
        }
    }
}

/// The separator that ends the timestamp and the level fields: `"] "`.
pub open spec fn field_sep() -> Seq<char> {
    seq![']', ' ']
}

/// The separator between the key and the detail: `" | "`.
pub open spec fn detail_sep() -> Seq<char> {
    seq![' ', '|', ' ']
}

/// The detail is written only when there is one and it is not empty.
pub open spec fn has_detail(detail: Option<Seq<char>>) -> bool {
    detail is Some && detail->0.len() > 0
}

/// The text of a log line, without its line break.
pub open spec fn log_line(
    timestamp: Seq<char>,
    level: Seq<char>,
    key: Seq<char>,
    detail: Option<Seq<char>>,
) -> Seq<char> {
    let head = seq!['['] + timestamp + seq![']', ' ', '['] + level + field_sep() + key;
    if has_detail(detail) {
        head + detail_sep() + detail->0
    } else {
        head
    }
}

/// The key and the optional detail of what follows the level field.
pub open spec fn split_message(rest: Seq<char>) -> (Seq<char>, Option<Seq<char>>) {
    match find_from(rest, detail_sep(), 0) {
        Some(k) => (rest.subrange(0, k), Some(rest.subrange(k + 3, rest.len() as int))),
        None => (rest, None),
    }
}

/// The translated text of a message: the key's text, then a space and the detail if any.
pub open spec fn translated_message(
    dict: Map<Seq<char>, Map<Seq<char>, Seq<char>>>,
    lang: Seq<char>,
    key: Seq<char>,
    detail: Option<Seq<char>>,
) -> Seq<char> {
    match detail {
        Some(d) => translate(dict, lang, key) + seq![' '] + d,
        None => translate(dict, lang, key),
    }
}

/// A log line taken apart: the text before the first `"] "` is the timestamp, the text
/// up to the next `"] "` the level (each without its leading `[`s), and the rest the
/// message; a line with fewer than two separators is not a log line.
pub open spec fn parsed_log_line(
    line: Seq<char>,
    dict: Map<Seq<char>, Map<Seq<char>, Seq<char>>>,
    lang: Seq<char>,
) -> Option<LogEntryView> {
    match find_from(line, field_sep(), 0) {
        None => None,
        Some(i1) => match find_from(line, field_sep(), i1 + 2) {
            None => None,
            Some(i2) => {
                let (key, detail) = split_message(line.subrange(i2 + 2, line.len() as int));
                Some(
                    LogEntryView {
                        timestamp: strip_leading(line.subrange(0, i1), '['),
                        level: strip_leading(line.subrange(i1 + 2, i2), '['),
                        message: key,
                        translated: translated_message(dict, lang, key, detail),
                    },
                )
            },
        },
    }
}

/// Builds a log line, with its line break, from its parts. An empty detail is not written.
pub fn format_log_line(timestamp: &str, level: &str, key: &str, detail: Option<&str>) -> (r:
    String)
    ensures
        r@ == log_line(
            timestamp@,
            level@,
            key@,
            match detail {
                Some(d) => Some(d@),
                None => None,
            },
        ).push('\n'),
{
    let mut v: Vec<char> = Vec::new();
    v.push('[');
    push_all(&mut v, &chars_of(timestamp));
    v.push(']');
    v.push(' ');
    v.push('[');
    push_all(&mut v, &chars_of(level));
    v.push(']');
    v.push(' ');
    push_all(&mut v, &chars_of(key));
    let ghost head = v@;
    match detail {
        Some(d) => {
            let dv = chars_of(d);
            if dv.len() > 0 {
                v.push(' ');
                v.push('|');
                v.push(' ');
                push_all(&mut v, &dv);
            }
        },
        None => {},
    }
    v.push('\n');
    proof {
        let ghost dopt = match detail {
            Some(d) => Some(d@),
            None => None,
        };
        assert(head =~= seq!['['] + timestamp@ + seq![']', ' ', '['] + level@ + field_sep()
            + key@);
        if has_detail(dopt) {
            assert(v@ =~= (head + detail_sep() + dopt->0).push('\n'));
        } else {
            assert(v@ =~= head.push('\n'));
        }
    }
    string_from_chars(&v)
}

/// Takes a log line apart and translates its message into `lang`.
/// `None` when the line does not have the shape of a log line.
pub fn parse_log_line(line: &str, i18n: &I18n, lang: &str) -> (r: Option<LogEntry>)
    ensures
        match r {
            Some(e) => parsed_log_line(line@, i18n@, lang@) == Some(e@),
            None => parsed_log_line(line@, i18n@, lang@) is None,
        },
{
    let v = chars_of(line);
    let sep: Vec<char> = vec![']', ' '];
    assert(sep@ =~= field_sep());
    let i1 = match find(&v, &sep, 0) {
        Some(i) => i,
        None => return None,
    };
    proof {
        lemma_find_from(v@, field_sep(), 0);
        assert(occurs_at(v@, field_sep(), i1 as int));
        assert(field_sep().len() == 2);
        assert(i1 + 2 <= v.len());
    }
    let i2 = match find(&v, &sep, i1 + 2) {
        Some(i) => i,
        None => return None,
    };
    proof {
        lemma_find_from(v@, field_sep(), i1 + 2);
        assert(occurs_at(v@, field_sep(), i2 as int));
    }
    let timestamp = trim_start_char(&slice_chars(&v, 0, i1), '[');
    let level = trim_start_char(&slice_chars(&v, i1 + 2, i2), '[');
    let rest = slice_chars(&v, i2 + 2, v.len());
    let dsep: Vec<char> = vec![' ', '|', ' '];
    assert(dsep@ =~= detail_sep());
    let (key, detail) = match find(&rest, &dsep, 0) {
        Some(k) => {
            proof {
                lemma_find_from(rest@, detail_sep(), 0);
                assert(occurs_at(rest@, detail_sep(), k as int));
            }
            (slice_chars(&rest, 0, k), Some(slice_chars(&rest, k + 3, rest.len())))
        },
        None => (rest, None),
    };
    assert((key@, match detail { Some(d) => Some(d@), None => None }) == split_message(rest@));
    let key_s = string_from_chars(&key);
    let text = i18n.t(lang, key_s.as_str());
    let translated = match detail {
        Some(d) => {
            let mut t = chars_of(text.as_str());
            t.push(' ');
            push_all(&mut t, &d);
            string_from_chars(&t)
        },
        None => text,
    };
    let e = LogEntry {
            timestamp: string_from_chars(&timestamp),
            level: string_from_chars(&level),
            message: key_s,
            translated,
        };
    assert(find_from(v@, field_sep(), 0) == Some(i1 as int));
    assert(find_from(v@, field_sep(), i1 + 2) == Some(i2 as int));
    assert(e@.timestamp == strip_leading(line@.subrange(0, i1 as int), '['));
    assert(e@.level == strip_leading(line@.subrange(i1 + 2, i2 as int), '['));
    assert(e@.message == split_message(line@.subrange(i2 + 2, line@.len() as int)).0);
    assert(e@.translated == translated_message(i18n@, lang@, e@.message, split_message(line@.subrange(i2 + 2, line@.len() as int)).1));
    Some(e)
}

/// A field as the program writes it: no `]` in it, and it does not start with `[`.
pub open spec fn is_plain_field(s: Seq<char>) -> bool {
    &&& !s.contains(']')
    &&& (s.len() == 0 || s[0] != '[')
}

proof fn lemma_strip_plain(s: Seq<char>)
    requires
        s.len() == 0 || s[0] != '[',
    ensures
        strip_leading(s, '[') == s,
{
}

/// Reading back a line that was written gives the timestamp, the level, the key and the
/// detail that were written, the key translated into the reader's language: for every
/// timestamp and level without `]` that do not start with `[`, and every key without `|`
/// (the timestamps, levels and keys that the program writes are all such).
pub proof fn law_log_line_round_trip(
    timestamp: Seq<char>,
    level: Seq<char>,
    key: Seq<char>,
    detail: Option<Seq<char>>,
    dict: Map<Seq<char>, Map<Seq<char>, Seq<char>>>,
    lang: Seq<char>,
)
    requires
        is_plain_field(timestamp),
        is_plain_field(level),
        !key.contains('|'),
    ensures
        parsed_log_line(log_line(timestamp, level, key, detail), dict, lang) == Some(
            LogEntryView {
                timestamp,
                level,
                message: key,
                translated: translated_message(
                    dict,
                    lang,
                    key,
                    if has_detail(detail) {
                        detail
                    } else {
                        None
                    },
                ),
            },
        ),
{
    let line = log_line(timestamp, level, key, detail);
    let head = seq!['['] + timestamp + seq![']', ' ', '['] + level + field_sep() + key;
    let i1: int = timestamp.len() + 1int;
    let i2: int = i1 + 2 + 1 + level.len();
    assert(line.subrange(0, head.len() as int) =~= head);
    // the first separator closes the timestamp
    assert(occurs_at(line, field_sep(), i1)) by {
        assert(line.subrange(i1, i1 + 2) =~= field_sep());
    }
    assert forall|j: int| 0 <= j < i1 implies !occurs_at(line, field_sep(), j) by {
        if occurs_at(line, field_sep(), j) {
            assert(line.subrange(j, j + 2)[0] == ']');
            assert(line[j] == ']');
            if j > 0 {
                assert(timestamp[j - 1] == ']');
                assert(timestamp.contains(']'));
            }
        }
    }
    lemma_find_from_is(line, field_sep(), 0, i1);
    // the second separator closes the level
    assert(occurs_at(line, field_sep(), i2)) by {
        assert(line.subrange(i2, i2 + 2) =~= field_sep());
    }
    assert forall|j: int| i1 + 2 <= j < i2 implies !occurs_at(line, field_sep(), j) by {
        if occurs_at(line, field_sep(), j) {
            assert(line.subrange(j, j + 2)[0] == ']');
            assert(line[j] == ']');
            if j > i1 + 2 {
                assert(level[j - i1 - 3] == ']');
                assert(level.contains(']'));
            }
        }
    }
    lemma_find_from_is(line, field_sep(), i1 + 2, i2);
    assert(line.subrange(0, i1) =~= seq!['['] + timestamp);
    assert(line.subrange(i1 + 2, i2) =~= seq!['['] + level);
    assert(strip_leading(seq!['['] + timestamp, '[') == strip_leading(timestamp, '[')) by {
        assert((seq!['['] + timestamp).drop_first() =~= timestamp);
    }
    assert(strip_leading(seq!['['] + level, '[') == strip_leading(level, '[')) by {
        assert((seq!['['] + level).drop_first() =~= level);
    }
    lemma_strip_plain(timestamp);
    lemma_strip_plain(level);
    let rest = line.subrange(i2 + 2, line.len() as int);
    // the message: the key, then the detail if one was written
    assert forall|j: int| 0 <= j < key.len() implies !occurs_at(rest, detail_sep(), j) by {
        if occurs_at(rest, detail_sep(), j) {
            let w = rest.subrange(j, j + 3);
            assert(w[1] == '|');
            assert(rest[j + 1] == '|');
            if j + 1 < key.len() {
                assert(rest[j + 1] == key[j + 1]);
                assert(key.contains('|'));
            } else {
                assert(rest[j + 1] == ' ') by {
                    if has_detail(detail) {
                        assert(rest =~= key + detail_sep() + detail->0);
                    } else {
                        assert(rest =~= key);
                    }
                }
            }
        }
    }
    if has_detail(detail) {
        assert(rest =~= key + detail_sep() + detail->0);
        assert(occurs_at(rest, detail_sep(), key.len() as int)) by {
            assert(rest.subrange(key.len() as int, key.len() + 3int) =~= detail_sep());
        }
        lemma_find_from_is(rest, detail_sep(), 0, key.len() as int);
        assert(rest.subrange(0, key.len() as int) =~= key);
        assert(rest.subrange(key.len() + 3int, rest.len() as int) =~= detail->0);
    } else {
        assert(rest =~= key);
        assert forall|j: int| 0 <= j implies !occurs_at(rest, detail_sep(), j) by {
            if occurs_at(rest, detail_sep(), j) {
                assert(j < key.len());
            }
        }
        crate::text::lemma_find_from_none(rest, detail_sep(), 0);
    }
}

} // verus!
