//! Keyed lists: the mathematical model of every table and mapping of this crate,
//! with the laws of binding a name and looking one up.

use vstd::prelude::*;

verus! {

/// A keyed list: rows of a name and what is bound to it.
pub type Rows<V> = Seq<(Seq<char>, V)>;

/// A mapping from names to text values, kept as a list of pairs.
pub type Pairs = Seq<(Seq<char>, Seq<char>)>;

/// Whether `name` is bound in `entries`.
pub open spec fn binds<V>(entries: Rows<V>, name: Seq<char>) -> bool {
    exists|i: int| 0 <= i < entries.len() && (#[trigger] entries[i]).0 == name
}

/// No name is bound twice.
pub open spec fn distinct_names<V>(entries: Rows<V>) -> bool {
    forall|i: int, j: int|
        0 <= i < j < entries.len() ==> (#[trigger] entries[i]).0 != (#[trigger] entries[j]).0
}

/// What the first entry named `name` binds it to.
pub open spec fn lookup<V>(entries: Rows<V>, name: Seq<char>) -> Option<V>
    decreases entries.len(),
{
    if entries.len() == 0 {
        None
    } else if entries[0].0 == name {
        Some(entries[0].1)
    } else {
        lookup(entries.drop_first(), name)
    }
}

/// `entries` with `name` bound to `value`: the first entry of that name is replaced
/// where it stands, and without one the binding is added at the end.
pub open spec fn put<V>(entries: Rows<V>, name: Seq<char>, value: V) -> Rows<V>
    decreases entries.len(),
{
    if entries.len() == 0 {
        seq![(name, value)]
    } else if entries[0].0 == name {
        seq![(name, value)] + entries.drop_first()
    } else {
        seq![entries[0]] + put(entries.drop_first(), name, value)
    }
}

/// `entries` without the first entry named `name`; unchanged where there is none.
pub open spec fn remove_name<V>(entries: Rows<V>, name: Seq<char>) -> Rows<V>
    decreases entries.len(),
{
    if entries.len() == 0 {
        entries
    } else if entries[0].0 == name {
        entries.drop_first()
    } else {
        seq![entries[0]] + remove_name(entries.drop_first(), name)
    }
}

/// The mapping that a list of pairs denotes: each pair in turn binds its name to its
/// value, so of two pairs with one name the later one counts, at the place of the
/// earlier.
pub open spec fn to_mapping(pairs: Pairs) -> Pairs
    decreases pairs.len(),
{
    if pairs.len() == 0 {
        Seq::empty()
    } else {
        put(to_mapping(pairs.drop_last()), pairs.last().0, pairs.last().1)
    }
}

/// Where the first entry named `name` stands at `at`, binding replaces that entry.
pub proof fn lemma_put_replaces<V>(entries: Rows<V>, at: int, name: Seq<char>, value: V)
    requires
        0 <= at < entries.len(),
        entries[at].0 == name,
        forall|k: int| 0 <= k < at ==> (#[trigger] entries[k]).0 != name,
    ensures
        put(entries, name, value) == entries.update(at, (name, value)),
    decreases entries.len(),
{
    if at == 0 {
        assert(put(entries, name, value) =~= entries.update(at, (name, value)));
    } else {
        let rest = entries.drop_first();
        assert(entries[0].0 != name);
        assert forall|k: int| 0 <= k < at - 1 implies (#[trigger] rest[k]).0 != name by {
            assert(rest[k] == entries[k + 1]);
        }
        lemma_put_replaces(rest, at - 1, name, value);
        assert(put(entries, name, value) =~= entries.update(at, (name, value)));
    }
}

/// Where no entry is named `name`, binding appends.
pub proof fn lemma_put_appends<V>(entries: Rows<V>, name: Seq<char>, value: V)
    requires
        forall|k: int| 0 <= k < entries.len() ==> (#[trigger] entries[k]).0 != name,
    ensures
        put(entries, name, value) == entries.push((name, value)),
    decreases entries.len(),
{
    if entries.len() == 0 {
        assert(put(entries, name, value) =~= entries.push((name, value)));
    } else {
        let rest = entries.drop_first();
        assert(entries[0].0 != name);
        assert forall|k: int| 0 <= k < rest.len() implies (#[trigger] rest[k]).0 != name by {
            assert(rest[k] == entries[k + 1]);
        }
        lemma_put_appends(rest, name, value);
        assert(put(entries, name, value) =~= entries.push((name, value)));
    }
}

/// Where the first entry named `name` stands at `at`, the name is looked up as what
/// that entry holds.
pub proof fn lemma_lookup_finds<V>(entries: Rows<V>, at: int, name: Seq<char>)
    requires
        0 <= at < entries.len(),
        entries[at].0 == name,
        forall|k: int| 0 <= k < at ==> (#[trigger] entries[k]).0 != name,
    ensures
        lookup(entries, name) == Some(entries[at].1),
    decreases entries.len(),
{
    if at > 0 {
        let rest = entries.drop_first();
        assert(entries[0].0 != name);
        assert forall|k: int| 0 <= k < at - 1 implies (#[trigger] rest[k]).0 != name by {
            assert(rest[k] == entries[k + 1]);
        }
        lemma_lookup_finds(rest, at - 1, name);
    }
}

/// A name is looked up as something exactly when it is bound.
pub proof fn lemma_lookup_binds<V>(entries: Rows<V>, name: Seq<char>)
    ensures
        lookup(entries, name) is Some <==> binds(entries, name),
    decreases entries.len(),
{
    if entries.len() > 0 {
        let rest = entries.drop_first();
        lemma_lookup_binds(rest, name);
        if entries[0].0 == name {
            assert(binds(entries, name));
        } else {
            if binds(entries, name) {
                let k = choose|k: int| 0 <= k < entries.len() && (#[trigger] entries[k]).0 == name;
                assert(rest[k - 1].0 == name);
            }
            if binds(rest, name) {
                let k = choose|k: int| 0 <= k < rest.len() && (#[trigger] rest[k]).0 == name;
                assert(entries[k + 1].0 == name);
            }
        }
    }
}

/// Where the first entry named `name` stands at `at`, removing the name removes that
/// entry.
pub proof fn lemma_remove_name_at<V>(entries: Rows<V>, at: int, name: Seq<char>)
    requires
        0 <= at < entries.len(),
        entries[at].0 == name,
        forall|k: int| 0 <= k < at ==> (#[trigger] entries[k]).0 != name,
    ensures
        remove_name(entries, name) == entries.remove(at),
    decreases entries.len(),
{
    if at == 0 {
        assert(entries.drop_first() =~= entries.remove(0));
    } else {
        let rest = entries.drop_first();
        assert(entries[0].0 != name);
        assert forall|k: int| 0 <= k < at - 1 implies (#[trigger] rest[k]).0 != name by {
            assert(rest[k] == entries[k + 1]);
        }
        lemma_remove_name_at(rest, at - 1, name);
        assert(seq![entries[0]] + rest.remove(at - 1) =~= entries.remove(at));
    }
}

/// Removing a name that is not bound changes nothing.
pub proof fn lemma_remove_name_absent<V>(entries: Rows<V>, name: Seq<char>)
    requires
        !binds(entries, name),
    ensures
        remove_name(entries, name) == entries,
    decreases entries.len(),
{
    if entries.len() > 0 {
        let rest = entries.drop_first();
        assert(entries[0].0 != name);
        assert(!binds(rest, name)) by {
            if binds(rest, name) {
                let k = choose|k: int| 0 <= k < rest.len() && (#[trigger] rest[k]).0 == name;
                assert(entries[k + 1].0 == name);
            }
        }
        lemma_remove_name_absent(rest, name);
        assert(seq![entries[0]] + rest =~= entries);
    }
}

/// Removing a name leaves what every other name is bound to; and where no name is
/// bound twice, the removed name is bound to nothing afterwards.
pub proof fn lemma_remove_name_lookup<V>(entries: Rows<V>, name: Seq<char>, other: Seq<char>)
    ensures
        other != name ==> lookup(remove_name(entries, name), other) == lookup(entries, other),
        distinct_names(entries) ==> lookup(remove_name(entries, name), name) is None,
    decreases entries.len(),
{
    if entries.len() > 0 {
        let rest = entries.drop_first();
        if entries[0].0 == name {
            if distinct_names(entries) {
                assert(!binds(rest, name)) by {
                    if binds(rest, name) {
                        let k = choose|k: int| 0 <= k < rest.len() && (#[trigger] rest[k]).0 == name;
                        assert(rest[k] == entries[k + 1]);
                        assert(entries[0].0 != entries[k + 1].0);
                    }
                }
                lemma_lookup_binds(rest, name);
            }
        } else {
            if distinct_names(entries) {
                assert forall|i: int, j: int| 0 <= i < j < rest.len() implies (#[trigger] rest[i]).0 != (
                #[trigger] rest[j]).0 by {
                    assert(rest[i] == entries[i + 1]);
                    assert(rest[j] == entries[j + 1]);
                }
            }
            lemma_remove_name_lookup(rest, name, other);
            let after = remove_name(entries, name);
            assert(after.drop_first() =~= remove_name(rest, name));
            assert(after[0] == entries[0]);
        }
    }
}

/// Binding keeps every name that was bound and binds the given one.
pub proof fn lemma_put_binds<V>(entries: Rows<V>, name: Seq<char>, value: V, other: Seq<char>)
    ensures
        binds(put(entries, name, value), other) <==> (other == name || binds(entries, other)),
        put(entries, name, value).len() == if binds(entries, name) {
            entries.len()
        } else {
            entries.len() + 1
        },
    decreases entries.len(),
{
    let after = put(entries, name, value);
    if entries.len() == 0 {
        assert(after[0].0 == name);
    } else if entries[0].0 == name {
        assert(after[0].0 == name);
        assert(entries[0].0 == name);
        if binds(entries, other) {
            let i = choose|i: int| 0 <= i < entries.len() && (#[trigger] entries[i]).0 == other;
            assert(after[i].0 == other);
        }
        if binds(after, other) {
            let i = choose|i: int| 0 <= i < after.len() && (#[trigger] after[i]).0 == other;
            if i > 0 {
                assert(entries[i].0 == other);
            }
        }
    } else {
        let rest = entries.drop_first();
        lemma_put_binds(rest, name, value, other);
        lemma_put_binds(rest, name, value, name);
        let rest_after = put(rest, name, value);
        assert(after =~= seq![entries[0]] + rest_after);
        if binds(entries, name) {
            let i = choose|i: int| 0 <= i < entries.len() && (#[trigger] entries[i]).0 == name;
            assert(rest[i - 1].0 == name);
        }
        if binds(rest, name) {
            let i = choose|i: int| 0 <= i < rest.len() && (#[trigger] rest[i]).0 == name;
            assert(entries[i + 1].0 == name);
        }
        if binds(entries, other) {
            let i = choose|i: int| 0 <= i < entries.len() && (#[trigger] entries[i]).0 == other;
            if i == 0 {
                assert(after[0].0 == other);
            } else {
                assert(rest[i - 1].0 == other);
                assert(binds(rest_after, other));
                let j = choose|j: int| 0 <= j < rest_after.len() && (#[trigger] rest_after[j]).0 == other;
                assert(after[j + 1].0 == other);
            }
        }
        if other == name {
            assert(binds(rest_after, other));
            let j = choose|j: int| 0 <= j < rest_after.len() && (#[trigger] rest_after[j]).0 == other;
            assert(after[j + 1].0 == other);
        }
        if binds(after, other) && other != name {
            let i = choose|i: int| 0 <= i < after.len() && (#[trigger] after[i]).0 == other;
            if i == 0 {
                assert(entries[0].0 == other);
            } else {
                assert(rest_after[i - 1].0 == other);
                assert(binds(rest, other));
                let j = choose|j: int| 0 <= j < rest.len() && (#[trigger] rest[j]).0 == other;
                assert(entries[j + 1].0 == other);
            }
        }
    }
}

/// After binding, the name is looked up as the value given, and every other name as
/// before.
pub proof fn lemma_put_lookup<V>(entries: Rows<V>, name: Seq<char>, value: V, other: Seq<char>)
    ensures
        lookup(put(entries, name, value), other) == if other == name {
            Some(value)
        } else {
            lookup(entries, other)
        },
    decreases entries.len(),
{
    let after = put(entries, name, value);
    if entries.len() == 0 {
        assert(after.drop_first() =~= entries);
    } else if entries[0].0 == name {
        assert(after.drop_first() =~= entries.drop_first());
    } else {
        lemma_put_lookup(entries.drop_first(), name, value, other);
        assert(after.drop_first() =~= put(entries.drop_first(), name, value));
    }
}

/// Binding never makes a name occur twice.
pub proof fn lemma_put_distinct<V>(entries: Rows<V>, name: Seq<char>, value: V)
    requires
        distinct_names(entries),
    ensures
        distinct_names(put(entries, name, value)),
    decreases entries.len(),
{
    let after = put(entries, name, value);
    if entries.len() == 0 {
    } else if entries[0].0 == name {
        assert forall|i: int, j: int| 0 <= i < j < after.len() implies (#[trigger] after[i]).0 != (
        #[trigger] after[j]).0 by {
            assert(after[j] == entries[j]);
            if i > 0 {
                assert(after[i] == entries[i]);
            } else {
                assert(entries[0].0 != entries[j].0);
            }
        }
    } else {
        let rest = entries.drop_first();
        assert forall|i: int, j: int| 0 <= i < j < rest.len() implies (#[trigger] rest[i]).0 != (
        #[trigger] rest[j]).0 by {
            assert(rest[i] == entries[i + 1]);
            assert(rest[j] == entries[j + 1]);
        }
        lemma_put_distinct(rest, name, value);
        let rest_after = put(rest, name, value);
        assert(after =~= seq![entries[0]] + rest_after);
        assert forall|i: int, j: int| 0 <= i < j < after.len() implies (#[trigger] after[i]).0 != (
        #[trigger] after[j]).0 by {
            if i > 0 {
                assert(after[i] == rest_after[i - 1]);
                assert(after[j] == rest_after[j - 1]);
            } else {
                assert(after[j] == rest_after[j - 1]);
                lemma_put_binds(rest, name, value, entries[0].0);
                if rest_after[j - 1].0 == entries[0].0 {
                    assert(binds(rest_after, entries[0].0));
                    assert(binds(rest, entries[0].0));
                    let k = choose|k: int| 0 <= k < rest.len() && (#[trigger] rest[k]).0 == entries[0].0;
                    assert(rest[k] == entries[k + 1]);
                    assert(entries[0].0 != entries[k + 1].0);
                }
            }
        }
    }
}

/// A later binding of a name replaces an earlier one whole: nothing of the earlier
/// value is left.
pub proof fn lemma_put_overwrites<V>(entries: Rows<V>, name: Seq<char>, earlier: V, later: V)
    ensures
        put(put(entries, name, earlier), name, later) == put(entries, name, later),
    decreases entries.len(),
{
    let once = put(entries, name, earlier);
    if entries.len() == 0 {
        assert(put(once, name, later) =~= put(entries, name, later));
    } else if entries[0].0 == name {
        assert(once.drop_first() =~= entries.drop_first());
        assert(put(once, name, later) =~= put(entries, name, later));
    } else {
        lemma_put_overwrites(entries.drop_first(), name, earlier, later);
        assert(once.drop_first() =~= put(entries.drop_first(), name, earlier));
        assert(put(once, name, later) =~= put(entries, name, later));
    }
}

/// Binding the same value to the same name a second time changes nothing.
pub proof fn lemma_put_idempotent<V>(entries: Rows<V>, name: Seq<char>, value: V)
    ensures
        put(put(entries, name, value), name, value) == put(entries, name, value),
{
    lemma_put_overwrites(entries, name, value, value);
}

/// What the last pair named `name` binds it to.
pub open spec fn last_bound(pairs: Pairs, name: Seq<char>) -> Option<Seq<char>>
    decreases pairs.len(),
{
    if pairs.len() == 0 {
        None
    } else if pairs.last().0 == name {
        Some(pairs.last().1)
    } else {
        last_bound(pairs.drop_last(), name)
    }
}

/// In a mapping collected from pairs every name is bound to the value of the last
/// pair that names it, and to nothing where no pair does.
pub proof fn lemma_mapping_last_wins(pairs: Pairs, name: Seq<char>)
    ensures
        lookup(to_mapping(pairs), name) == last_bound(pairs, name),
    decreases pairs.len(),
{
    if pairs.len() > 0 {
        lemma_mapping_last_wins(pairs.drop_last(), name);
        lemma_put_lookup(to_mapping(pairs.drop_last()), pairs.last().0, pairs.last().1, name);
    }
}

/// A mapping collected from pairs binds no name twice.
pub proof fn lemma_mapping_distinct(pairs: Pairs)
    ensures
        distinct_names(to_mapping(pairs)),
    decreases pairs.len(),
{
    if pairs.len() > 0 {
        lemma_mapping_distinct(pairs.drop_last());
        lemma_put_distinct(to_mapping(pairs.drop_last()), pairs.last().0, pairs.last().1);
    }
}

} // verus!
