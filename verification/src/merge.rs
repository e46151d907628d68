//! Laying one document over another.

use vstd::prelude::*;

use crate::json::{distinct_names, names_at, JsonModel, JsonValue};

verus! {

/// The value of the member `name` of `object`; null where there is none.
pub open spec fn member_or_null(object: Map<Seq<char>, JsonModel>, name: Seq<char>) -> JsonModel {
    if object.contains_key(name) {
        object[name]
    } else {
        JsonModel::Null
    }
}

/// What laying `overlay` over `base` gives.
///
/// Two objects are merged member by member: a member of `base` alone stays
/// as it is, a member of `overlay` alone is added, and a member of both is
/// the member of `overlay` laid over the member of `base`. In every other
/// case `overlay` takes the place of `base`: arrays are not merged.
pub open spec fn merged(base: JsonModel, overlay: JsonModel) -> JsonModel
    decreases overlay,
{
    match (base, overlay) {
        (JsonModel::Object(b), JsonModel::Object(o)) => JsonModel::Object(
            Map::new(
                |name: Seq<char>| b.contains_key(name) || o.contains_key(name),
                |name: Seq<char>|
                    if o.contains_key(name) {
                        merged(member_or_null(b, name), o[name])
                    } else {
                        b[name]
                    },
            ),
        ),
        (_, o) => o,
    }
}

/// Whether one of `entries` at position `from` or later is called `name`.
spec fn named_from(entries: Seq<(String, JsonValue)>, from: int, name: Seq<char>) -> bool {
    exists|i: int| from <= i && names_at(entries, name, i)
}

/// Moving the start by one entry changes nothing for the other names.
proof fn lemma_named_from_step(entries: Seq<(String, JsonValue)>, from: int, name: Seq<char>)
    requires
        0 <= from < entries.len(),
        entries[from].0@ != name,
    ensures
        named_from(entries, from, name) == named_from(entries, from + 1, name),
{
    if named_from(entries, from, name) {
        let i = choose|i: int| from <= i && names_at(entries, name, i);
        assert(from + 1 <= i && names_at(entries, name, i));
    }
    if named_from(entries, from + 1, name) {
        let i = choose|i: int| from + 1 <= i && names_at(entries, name, i);
        assert(from <= i && names_at(entries, name, i));
    }
}

/// Among entries with distinct names, no later entry has the name of an
/// earlier one.
proof fn lemma_named_once(entries: Seq<(String, JsonValue)>, at: int)
    requires
        distinct_names(entries),
        0 <= at < entries.len(),
    ensures
        named_from(entries, at, entries[at].0@),
        !named_from(entries, at + 1, entries[at].0@),
{
    assert(names_at(entries, entries[at].0@, at));
    if named_from(entries, at + 1, entries[at].0@) {
        let i = choose|i: int| at + 1 <= i && names_at(entries, entries[at].0@, i);
        assert(entries[at].0@ != entries[i].0@);
    }
}

/// Lays `overlay` over `base`.
pub fn merge_values(base: JsonValue, overlay: JsonValue) -> (result: JsonValue)
    ensures
        result.model() == merged(base.model(), overlay.model()),
    decreases overlay,
{
    match (base, overlay) {
        (JsonValue::Object(target), JsonValue::Object(source)) => {
            let ghost b = target.model();
            let ghost o = source.model();
            let mut target = target;
            let mut entries = source.into_entries();
            let ghost all = entries@;
            // The entries are laid over the target one by one, from the last
            // to the first.
            while entries.len() > 0
                invariant
                    entries@.len() <= all.len(),
                    entries@ == all.take(entries@.len() as int),
                    distinct_names(all),
                    forall|name: Seq<char>| o.contains_key(name) <==> named_from(all, 0, name),
                    forall|i: int|
                        0 <= i < all.len() ==> o.contains_key((#[trigger] all[i]).0@)
                            && o[all[i].0@] == all[i].1.model(),
                    forall|i: int|
                        0 <= i < all.len() ==> decreases_to!(overlay => (#[trigger] all[i]).1),
                    forall|name: Seq<char>|
                        target.model().contains_key(name) <==> b.contains_key(name) || named_from(
                            all,
                            entries@.len() as int,
                            name,
                        ),
                    forall|name: Seq<char>| #[trigger]
                        target.model().contains_key(name) ==> target.model()[name] == if named_from(
                            all,
                            entries@.len() as int,
                            name,
                        ) {
                            merged(member_or_null(b, name), o[name])
                        } else {
                            b[name]
                        },
                decreases entries@.len(),
            {
                let ghost at = entries@.len() - 1;
                let entry = entries.pop().unwrap();
                assert(entry == all.take(at + 1)[at]);
                let name = entry.0;
                let value = entry.1;
                proof {
                    lemma_named_once(all, at);
                }
                let child = match target.remove(name.as_str()) {
                    Some(child) => child,
                    None => JsonValue::Null,
                };
                assert(child.model() == member_or_null(b, name@));
                let laid = merge_values(child, value);
                target.insert(name, laid);
                proof {
                    assert(entries@ =~= all.take(at));
                    assert forall|k: Seq<char>|
                        target.model().contains_key(k) <==> b.contains_key(k) || named_from(
                            all,
                            at,
                            k,
                        ) by {
                        if k != name@ {
                            lemma_named_from_step(all, at, k);
                        }
                    }
                }
            }
            proof {
                let wanted = merged(JsonModel::Object(b), JsonModel::Object(o))->Object_0;
                assert(target.model() =~= wanted);
            }
            JsonValue::Object(target)
        },
        (_, overlay) => overlay,
    }
}

/// Lays `overwrite` over `base`, in place.
pub fn merge_jsons(base: &mut JsonValue, overwrite: JsonValue)
    ensures
        final(base).model() == merged(old(base).model(), overwrite.model()),
{
    let mut taken = JsonValue::Null;
    core::mem::swap(base, &mut taken);
    *base = merge_values(taken, overwrite);
}

/// Laying a document over itself changes nothing.
pub proof fn lemma_merge_with_itself(document: JsonModel)
    ensures
        merged(document, document) == document,
    decreases document,
{
    if let JsonModel::Object(o) = document {
        let laid = merged(document, document)->Object_0;
        assert forall|name: Seq<char>| o.contains_key(name) implies laid[name] == o[name] by {
            lemma_merge_with_itself(o[name]);
        }
        assert(laid =~= o);
    }
}

/// Laying the same overlay a second time changes nothing.
pub proof fn lemma_merge_idempotent(base: JsonModel, overlay: JsonModel)
    ensures
        merged(merged(base, overlay), overlay) == merged(base, overlay),
    decreases overlay,
{
    match (base, overlay) {
        (JsonModel::Object(b), JsonModel::Object(o)) => {
            let once = merged(base, overlay)->Object_0;
            let twice = merged(merged(base, overlay), overlay)->Object_0;
            assert forall|name: Seq<char>| twice.contains_key(name) implies twice[name]
                == once[name] by {
                if o.contains_key(name) {
                    lemma_merge_idempotent(member_or_null(b, name), o[name]);
                }
            }
            assert(twice =~= once);
        },
        _ => {
            lemma_merge_with_itself(overlay);
        },
    }
}

/// A member that only the base has is in the result as it was in the base.
pub proof fn lemma_merge_keeps_base_members(
    base: Map<Seq<char>, JsonModel>,
    overlay: Map<Seq<char>, JsonModel>,
    name: Seq<char>,
)
    requires
        base.contains_key(name),
        !overlay.contains_key(name),
    ensures
        merged(JsonModel::Object(base), JsonModel::Object(overlay)) matches JsonModel::Object(
            result,
        ) && result.contains_key(name) && result[name] == base[name],
{
}

/// A member that only the overlay has is in the result as it is in the
/// overlay.
pub proof fn lemma_merge_adds_overlay_members(
    base: Map<Seq<char>, JsonModel>,
    overlay: Map<Seq<char>, JsonModel>,
    name: Seq<char>,
)
    requires
        !base.contains_key(name),
        overlay.contains_key(name),
    ensures
        merged(JsonModel::Object(base), JsonModel::Object(overlay)) matches JsonModel::Object(
            result,
        ) && result.contains_key(name) && result[name] == overlay[name],
{
    reveal_with_fuel(merged, 2);
}

/// A member of both whose value in the overlay is no object has the
/// overlay's value in the result.
pub proof fn lemma_merge_overrides(
    base: Map<Seq<char>, JsonModel>,
    overlay: Map<Seq<char>, JsonModel>,
    name: Seq<char>,
)
    requires
        base.contains_key(name),
        overlay.contains_key(name),
        !(overlay[name] is Object),
    ensures
        merged(JsonModel::Object(base), JsonModel::Object(overlay)) matches JsonModel::Object(
            result,
        ) && result.contains_key(name) && result[name] == overlay[name],
{
    reveal_with_fuel(merged, 2);
}

/// The result has the members of the base and those of the overlay, and no
/// others.
pub proof fn lemma_merge_members(
    base: Map<Seq<char>, JsonModel>,
    overlay: Map<Seq<char>, JsonModel>,
)
    ensures
        merged(JsonModel::Object(base), JsonModel::Object(overlay)) matches JsonModel::Object(
            result,
        ) && result.dom() == base.dom().union(overlay.dom()),
{
    let result = merged(JsonModel::Object(base), JsonModel::Object(overlay))->Object_0;
    assert(result.dom() =~= base.dom().union(overlay.dom()));
}

} // verus!
