//! Editing the dictionary from the settings screen: vocabulary words and
//! replacement rules are added from what was typed, trimmed, and removed by
//! their position in the list.
use vstd::prelude::*;

use crate::config::{DictionaryConfig, ReplacementRule};
use crate::pipeline::string_views;
use crate::text::{trim, trimmed_string};

verus! {

/// The content of a replacement rule.
pub open spec fn rule_view(r: ReplacementRule) -> (Seq<char>, Seq<char>, bool) {
    (r.find@, r.replace@, r.case_sensitive)
}

/// The contents of a list of replacement rules.
pub open spec fn rule_views(v: Seq<ReplacementRule>) -> Seq<(Seq<char>, Seq<char>, bool)> {
    v.map_values(|r: ReplacementRule| rule_view(r))
}

/// Adds the typed word, trimmed, to the vocabulary, unless only whitespace was
/// typed. Returns whether it was added (and the input can be cleared).
pub fn add_vocabulary_word(dictionary: &mut DictionaryConfig, typed: &str) -> (added: bool)
    ensures
        added == (trim(typed@).len() > 0),
        added ==> string_views(final(dictionary).vocabulary@) == string_views(
            old(dictionary).vocabulary@,
        ).push(trim(typed@)),
        !added ==> final(dictionary).vocabulary@ == old(dictionary).vocabulary@,
        final(dictionary).replacements == old(dictionary).replacements,
{
    let word = trimmed_string(typed);
    if word.unicode_len() == 0 {
        return false;
    }
    let ghost before = dictionary.vocabulary@;
    dictionary.vocabulary.push(word);
    assert(string_views(dictionary.vocabulary@) =~= string_views(before).push(trim(typed@)));
    true
}

/// Removes the vocabulary word at `index`; an index past the end changes nothing.
pub fn remove_vocabulary_word(dictionary: &mut DictionaryConfig, index: usize)
    ensures
        index < old(dictionary).vocabulary@.len() ==> final(dictionary).vocabulary@ == old(
            dictionary,
        ).vocabulary@.remove(index as int),
        index >= old(dictionary).vocabulary@.len() ==> final(dictionary).vocabulary@ == old(
            dictionary,
        ).vocabulary@,
        final(dictionary).replacements == old(dictionary).replacements,
{
    if index < dictionary.vocabulary.len() {
        dictionary.vocabulary.remove(index);
    }
}

/// Adds a case-insensitive rule replacing the typed text by the typed
/// replacement, both trimmed, unless the text to find is only whitespace.
/// Returns whether it was added (and the inputs can be cleared).
pub fn add_replacement(dictionary: &mut DictionaryConfig, find: &str, replace: &str) -> (added: bool)
    ensures
        added == (trim(find@).len() > 0),
        added ==> rule_views(final(dictionary).replacements@) == rule_views(
            old(dictionary).replacements@,
        ).push((trim(find@), trim(replace@), false)),
        !added ==> final(dictionary).replacements@ == old(dictionary).replacements@,
        final(dictionary).vocabulary == old(dictionary).vocabulary,
{
    let find_text = trimmed_string(find);
    if find_text.unicode_len() == 0 {
        return false;
    }
    let replace_text = trimmed_string(replace);
    let ghost before = dictionary.replacements@;
    dictionary.replacements.push(
        ReplacementRule { find: find_text, replace: replace_text, case_sensitive: false },
    );
    assert(rule_views(dictionary.replacements@) =~= rule_views(before).push(
        (trim(find@), trim(replace@), false),
    ));
    true
}

/// Removes the replacement rule at `index`; an index past the end changes nothing.
pub fn remove_replacement(dictionary: &mut DictionaryConfig, index: usize)
    ensures
        index < old(dictionary).replacements@.len() ==> final(dictionary).replacements@ == old(
            dictionary,
        ).replacements@.remove(index as int),
        index >= old(dictionary).replacements@.len() ==> final(dictionary).replacements@ == old(
            dictionary,
        ).replacements@,
        final(dictionary).vocabulary == old(dictionary).vocabulary,
{
    if index < dictionary.replacements.len() {
        dictionary.replacements.remove(index);
    }
}

/// Removing the word that was just added, by its position at the end of the
/// list, gives back the vocabulary as it was: `before` is the vocabulary
/// before `add_vocabulary_word`, `after` the one it left.
pub proof fn law_remove_undoes_add(before: Seq<String>, after: Seq<String>, word: Seq<char>)
    requires
        string_views(after) == string_views(before).push(word),
    ensures
        string_views(after.remove(before.len() as int)) == string_views(before),
{
    assert(string_views(after).len() == before.len() + 1);
    assert(string_views(after.remove(before.len() as int)) =~= string_views(before)) by {
        assert forall|k: int| 0 <= k < before.len() implies after.remove(before.len() as int)[k]@
            == before[k]@ by {
            assert(string_views(after)[k] == string_views(before)[k]);
        }
    }
}

} // verus!
