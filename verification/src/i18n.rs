//! The language resource: for each language, the text of each message key.
use vstd::prelude::*;

use std::collections::BTreeMap;

verus! {

broadcast use vstd::string::group_string_axioms;

/// The map that inserting the pairs of `entries` one after the other builds:
/// a later pair with the same key replaces an earlier one.
pub open spec fn assoc_map<V>(entries: Seq<(Seq<char>, V)>) -> Map<Seq<char>, V>
    decreases entries.len(),
{
    if entries.len() == 0 {
        Map::empty()
    } else {
        assoc_map(entries.drop_last()).insert(entries.last().0, entries.last().1)
    }
}

/// The text pairs of one language, as character sequences.
pub open spec fn table_view(t: Seq<(String, String)>) -> Seq<(Seq<char>, Seq<char>)> {
    t.map_values(|p: (String, String)| (p.0@, p.1@))
}

/// The languages with their text pairs, as character sequences.
pub open spec fn languages_view(d: Seq<(String, Vec<(String, String)>)>) -> Seq<
    (Seq<char>, Seq<(Seq<char>, Seq<char>)>),
> {
    d.map_values(|e: (String, Vec<(String, String)>)| (e.0@, table_view(e.1@)))
}

/// The dictionary that a list of languages with their text pairs describes.
pub open spec fn dictionary(d: Seq<(Seq<char>, Seq<(Seq<char>, Seq<char>)>)>) -> Map<
    Seq<char>,
    Map<Seq<char>, Seq<char>>,
> {
    assoc_map(d.map_values(|e: (Seq<char>, Seq<(Seq<char>, Seq<char>)>)| (e.0, assoc_map(e.1))))
}

/// The text of `key` in language `lang`; the key itself where the dictionary has none,
/// so that a missing text shows which key it is.
pub open spec fn translate(
    dict: Map<Seq<char>, Map<Seq<char>, Seq<char>>>,
    lang: Seq<char>,
    key: Seq<char>,
) -> Seq<char> {
    if dict.contains_key(lang) && dict[lang].contains_key(key) {
        dict[lang][key]
    } else {
        key
    }
}

/// What `serde_json` makes of a JSON text read as an object of objects of strings:
/// for each language in the order of its keys, the key and value pairs of its object.
pub uninterp spec fn parsed_dictionary(text: Seq<char>) -> Option<
    Seq<(Seq<char>, Seq<(Seq<char>, Seq<char>)>)>,
>;

/// Calls `serde_json::from_str` to read `text` as a JSON object whose values are objects
/// of strings (into std's `BTreeMap`, so that the result depends on the text alone), and
/// lists its entries. The contract claims only that the result is `parsed_dictionary`
/// of the text, `None` where serde_json reports an error.
#[verifier::external_body]
fn parse_dictionary_json(text: &str) -> (r: Option<Vec<(String, Vec<(String, String)>)>>)
    ensures
        match r {
            Some(d) => parsed_dictionary(text@) == Some(languages_view(d@)),
            None => parsed_dictionary(text@) is None,
        },
{
    match serde_json::from_str::<BTreeMap<String, BTreeMap<String, String>>>(text) {
        Ok(m) => Some(m.into_iter().map(|(k, t)| (k, t.into_iter().collect())).collect()),
        Err(_) => None,
    }
}

/// Facts about the map built from `entries` when the last pair with key `k` is known.
pub proof fn lemma_assoc_map_last<V>(entries: Seq<(Seq<char>, V)>, k: Seq<char>, i: int)
    requires
        0 <= i < entries.len(),
        entries[i].0 == k,
        forall|j: int| i < j < entries.len() ==> entries[j].0 != k,
    ensures
        assoc_map(entries).contains_key(k),
        assoc_map(entries)[k] == entries[i].1,
    decreases entries.len(),
{
    if i < entries.len() - 1 {
        lemma_assoc_map_last(entries.drop_last(), k, i);
    }
}

/// No pair with key `k` means the map built from `entries` has no `k`.
pub proof fn lemma_assoc_map_absent<V>(entries: Seq<(Seq<char>, V)>, k: Seq<char>)
    requires
        forall|j: int| 0 <= j < entries.len() ==> entries[j].0 != k,
    ensures
        !assoc_map(entries).contains_key(k),
    decreases entries.len(),
{
    if entries.len() > 0 {
        lemma_assoc_map_absent(entries.drop_last(), k);
    }
}

/// The index of the last pair of `entries` whose key is `key`.
fn last_index_of<V>(entries: &Vec<(String, V)>, key: &String) -> (r: Option<usize>)
    ensures
        match r {
            Some(i) => i < entries.len() && entries@[i as int].0@ == key@ && forall|j: int|
                i < j < entries.len() ==> entries@[j].0@ != key@,
            None => forall|j: int| 0 <= j < entries.len() ==> entries@[j].0@ != key@,
        },
{
    let mut i: usize = entries.len();
    while i > 0
        invariant
            i <= entries.len(),
            forall|j: int| i <= j < entries.len() ==> entries@[j].0@ != key@,
        decreases i,
    {
        if entries[i - 1].0 == *key {
            return Some(i - 1);
        }
        i = i - 1;
    }
    None
}

/// The texts of the interface and of the log, in each supported language.
///
/// The dictionary is held as lists of pairs and looked up from the end, so that a later
/// key wins as it does in a map. (vstd models std's `HashMap` only for key types with a
/// proven hash model, and `String` has none.)
#[derive(Clone)]
pub struct I18n {
    dict: Vec<(String, Vec<(String, String)>)>,
}

impl View for I18n {
    type V = Map<Seq<char>, Map<Seq<char>, Seq<char>>>;

    closed spec fn view(&self) -> Map<Seq<char>, Map<Seq<char>, Seq<char>>> {
        dictionary(languages_view(self.dict@))
    }
}

impl I18n {
    /// Reads the language resource, a JSON object that maps each language to an object
    /// that maps each message key to its text. A resource that cannot be read gives an
    /// empty dictionary, in which every key stands for itself.
    pub fn load(json: &str) -> (r: I18n)
        ensures
            r@ == match parsed_dictionary(json@) {
                Some(d) => dictionary(d),
                None => Map::empty(),
            },
    {
        match parse_dictionary_json(json) {
            Some(d) => I18n { dict: d },
            None => {
                let r = I18n { dict: Vec::new() };
                assert(languages_view(r.dict@).map_values(
                    |e: (Seq<char>, Seq<(Seq<char>, Seq<char>)>)| (e.0, assoc_map(e.1)),
                ) =~= Seq::empty());
                r
            },
        }
    }

    /// The text of `key` in language `lang`; the key itself when there is none.
    pub fn t(&self, lang: &str, key: &str) -> (r: String)
        ensures
            r@ == translate(self@, lang@, key@),
    {
        let lang_s = String::from_str(lang);
        let key_s = String::from_str(key);
        let ghost outer = languages_view(self.dict@).map_values(
            |e: (Seq<char>, Seq<(Seq<char>, Seq<char>)>)| (e.0, assoc_map(e.1)),
        );
        match last_index_of(&self.dict, &lang_s) {
            Some(i) => {
                proof {
                    assert(outer[i as int].0 == lang@);
                    assert forall|j: int| i < j < outer.len() implies outer[j].0 != lang@ by {
                        assert(outer[j].0 == self.dict@[j].0@);
                    }
                    lemma_assoc_map_last(outer, lang@, i as int);
                }
                let table = &self.dict[i].1;
                let ghost inner = table_view(table@);
                assert(outer[i as int].1 == assoc_map(inner));
                match last_index_of(table, &key_s) {
                    Some(k) => {
                        proof {
                            assert(inner[k as int].0 == key@);
                            assert forall|j: int| k < j < inner.len() implies inner[j].0
                                != key@ by {
                                assert(inner[j].0 == table@[j].0@);
                            }
                            lemma_assoc_map_last(inner, key@, k as int);
                        }
                        table[k].1.clone()
                    },
                    None => {
                        proof {
                            assert forall|j: int| 0 <= j < inner.len() implies inner[j].0
                                != key@ by {
                                assert(inner[j].0 == table@[j].0@);
                            }
                            lemma_assoc_map_absent(inner, key@);
                        }
                        key_s
                    },
                }
            },
            None => {
                proof {
                    assert forall|j: int| 0 <= j < outer.len() implies outer[j].0 != lang@ by {
                        assert(outer[j].0 == self.dict@[j].0@);
                    }
                    lemma_assoc_map_absent(outer, lang@);
                }
                key_s
            },
        }
    }
}

/// A key that the dictionary lacks, in the asked language or entirely, stands for itself.
pub proof fn law_missing_key_is_itself(
    dict: Map<Seq<char>, Map<Seq<char>, Seq<char>>>,
    lang: Seq<char>,
    key: Seq<char>,
)
    requires
        !dict.contains_key(lang) || !dict[lang].contains_key(key),
    ensures
        translate(dict, lang, key) == key,
{
}

/// A key the dictionary has in the asked language gives its text there.
pub proof fn law_present_key_gives_text(
    dict: Map<Seq<char>, Map<Seq<char>, Seq<char>>>,
    lang: Seq<char>,
    key: Seq<char>,
)
    requires
        dict.contains_key(lang),
        dict[lang].contains_key(key),
    ensures
        translate(dict, lang, key) == dict[lang][key],
{
}

/// Reading pairs into a map: a key takes the value of its last pair, and a key without
/// a pair is absent.
pub proof fn law_last_pair_wins<V>(entries: Seq<(Seq<char>, V)>, k: Seq<char>)
    ensures
        forall|i: int|
            0 <= i < entries.len() && #[trigger] entries[i].0 == k && (forall|j: int|
                i < j < entries.len() ==> entries[j].0 != k) ==> assoc_map(entries).contains_key(k)
                && assoc_map(entries)[k] == entries[i].1,
        (forall|j: int| 0 <= j < entries.len() ==> entries[j].0 != k) ==> !assoc_map(
            entries,
        ).contains_key(k),
{
    assert forall|i: int|
        0 <= i < entries.len() && #[trigger] entries[i].0 == k && (forall|j: int|
            i < j < entries.len() ==> entries[j].0 != k) implies assoc_map(entries).contains_key(k)
        && assoc_map(entries)[k] == entries[i].1 by {
        lemma_assoc_map_last(entries, k, i);
    }
    if forall|j: int| 0 <= j < entries.len() ==> entries[j].0 != k {
        lemma_assoc_map_absent(entries, k);
    }
}

} // verus!
