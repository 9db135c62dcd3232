//! Editing styles from the settings screen: a new style, the applications a
//! style lists, and which style stays expanded when one is removed.
use vstd::prelude::*;

use crate::config::Style;
use crate::pipeline::string_views;
use crate::text::{chars_of, decimal, decimal_string, str_eq, string_of};

verus! {

/// A new style is named after its position: `Style 1`, `Style 2`, ...
pub open spec fn new_style_name(existing: nat) -> Seq<char> {
    "Style "@ + decimal(existing + 1)
}

/// The style added after `existing` others: named after its position, with no
/// applications, no prompt and no model overrides.
pub fn new_style(existing: usize) -> (r: Style)
    requires
        existing < usize::MAX,
    ensures
        r.name@ == new_style_name(existing as nat),
        r.apps@.len() == 0,
        r.prompt@.len() == 0,
        r.stt is None,
        r.llm is None,
{
    let mut name = chars_of("Style ");
    let mut number = chars_of(decimal_string(existing + 1).as_str());
    name.append(&mut number);
    Style {
        name: string_of(name.as_slice()),
        apps: Vec::new(),
        prompt: String::new(),
        stt: None,
        llm: None,
    }
}

/// The list names the application.
pub open spec fn lists(apps: Seq<Seq<char>>, app: Seq<char>) -> bool {
    apps.contains(app)
}

/// Adds an application to a style's list unless it is listed already.
/// Returns whether the list changed (and a save is due).
pub fn add_app(apps: &mut Vec<String>, app: &str) -> (added: bool)
    ensures
        added == !lists(string_views(old(apps)@), app@),
        added ==> string_views(final(apps)@) == string_views(old(apps)@).push(app@),
        !added ==> final(apps)@ == old(apps)@,
{
    let mut i: usize = 0;
    while i < apps.len()
        invariant
            i <= apps@.len(),
            forall|k: int| 0 <= k < i ==> (#[trigger] apps@[k])@ != app@,
        decreases apps.len() - i,
    {
        if str_eq(apps[i].as_str(), app) {
            assert(string_views(apps@)[i as int] == app@);
            return false;
        }
        i = i + 1;
    }
    assert(!string_views(apps@).contains(app@)) by {
        if string_views(apps@).contains(app@) {
            let k = choose|k: int| 0 <= k < apps@.len() && string_views(apps@)[k] == app@;
            assert(apps@[k]@ == app@);
        }
    }
    let ghost before = apps@;
    apps.push(app.to_owned());
    assert(string_views(apps@) =~= string_views(before).push(app@));
    true
}

/// No application is listed twice.
pub open spec fn distinct(apps: Seq<Seq<char>>) -> bool {
    forall|i: int, j: int| 0 <= i < j < apps.len() ==> #[trigger] apps[i] != #[trigger] apps[j]
}

/// Adding applications one by one never lists one twice: a list without
/// repeats stays without repeats, whether or not the application was listed.
pub proof fn law_add_keeps_distinct(before: Seq<Seq<char>>, app: Seq<char>)
    requires
        distinct(before),
    ensures
        distinct(
            if lists(before, app) {
                before
            } else {
                before.push(app)
            },
        ),
{
    if !lists(before, app) {
        let after = before.push(app);
        assert forall|i: int, j: int| 0 <= i < j < after.len() implies #[trigger] after[i]
            != #[trigger] after[j] by {
            if j == before.len() {
                assert(after[i] == before[i]);
                if before[i] == app {
                    assert(before.contains(app));
                }
            } else {
                assert(after[i] == before[i] && after[j] == before[j]);
            }
        }
    }
}

/// The list without any entry equal to `app`, in order.
pub open spec fn without(apps: Seq<Seq<char>>, app: Seq<char>) -> Seq<Seq<char>>
    decreases apps.len(),
{
    if apps.len() == 0 {
        apps
    } else if apps.last() == app {
        without(apps.drop_last(), app)
    } else {
        without(apps.drop_last(), app).push(apps.last())
    }
}

/// Removes every entry naming `app` from a style's list; the others keep their order.
pub fn remove_app(apps: &mut Vec<String>, app: &str)
    ensures
        string_views(final(apps)@) == without(string_views(old(apps)@), app@),
{
    let ghost all = string_views(apps@);
    let mut kept: Vec<String> = Vec::new();
    let mut i: usize = 0;
    assert(all.take(0) =~= Seq::<Seq<char>>::empty());
    while i < apps.len()
        invariant
            i <= apps@.len(),
            all == string_views(apps@),
            string_views(kept@) == without(all.take(i as int), app@),
        decreases apps.len() - i,
    {
        let ghost prev = kept@;
        if !str_eq(apps[i].as_str(), app) {
            kept.push(apps[i].clone());
            assert(string_views(kept@) =~= string_views(prev).push(all[i as int]));
        }
        assert(all.take(i + 1).drop_last() =~= all.take(i as int));
        i = i + 1;
    }
    assert(all.take(all.len() as int) =~= all);
    *apps = kept;
}

/// Removing an entry leaves no entry naming it.
pub proof fn law_removed_app_is_gone(apps: Seq<Seq<char>>, app: Seq<char>)
    ensures
        !without(apps, app).contains(app),
    decreases apps.len(),
{
    if apps.len() > 0 {
        law_removed_app_is_gone(apps.drop_last(), app);
        let w = without(apps.drop_last(), app);
        if apps.last() != app {
            assert forall|k: int| 0 <= k < w.push(apps.last()).len() implies w.push(apps.last())[k]
                != app by {
                if k < w.len() {
                    assert(w.push(apps.last())[k] == w[k]);
                }
            }
        }
    }
}

/// Which style is expanded after the style at `removed` was removed: none if
/// it was the expanded one, the same style (one place earlier) if it came
/// after it, and the same place otherwise.
pub open spec fn expanded_after(expanded: Option<usize>, removed: usize) -> Option<usize> {
    match expanded {
        Some(current) => if current == removed {
            None
        } else if current > removed {
            Some((current - 1) as usize)
        } else {
            Some(current)
        },
        None => None,
    }
}

/// The expanded style after the style at `removed` was removed.
pub fn expanded_after_removal(expanded: Option<usize>, removed: usize) -> (r: Option<usize>)
    ensures
        r == expanded_after(expanded, removed),
{
    match expanded {
        Some(current) => if current == removed {
            None
        } else if current > removed {
            Some(current - 1)
        } else {
            Some(current)
        },
        None => None,
    }
}

/// The expanded style stays the same style when another one is removed, and
/// nothing stays expanded when the expanded style itself is removed.
pub proof fn law_expanded_style_is_kept<A>(styles: Seq<A>, expanded: usize, removed: usize)
    requires
        expanded < styles.len(),
        removed < styles.len(),
    ensures
        expanded == removed ==> expanded_after(Some(expanded), removed) is None,
        expanded != removed ==> (expanded_after(Some(expanded), removed) matches Some(after)
            && styles.remove(removed as int)[after as int] == styles[expanded as int]),
{
}

} // verus!
