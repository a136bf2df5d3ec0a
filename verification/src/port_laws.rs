//! What holds of every port table and its resolution.

use crate::address::Family;
use crate::client::exposed_key;
use crate::ports::{
    entry_bindings, first_malformed, host_port, internal_port, lemma_first_malformed_concat,
    lemma_table_bindings_concat, malformed, mapping, publishes, resolve, table_bindings,
    BindingView, RawPortView,
};
use crate::text::{
    decimal_text, is_digit, lemma_decimal_text, lemma_port_number_of_decimal_text,
    lemma_prefix_before,
};
use vstd::prelude::*;

verus! {

/// Whether the resolver passes over the binding: it has no host port, or it
/// has a host port that is a port number and a host address that is absent or
/// malformed.
pub open spec fn passed_over(binding: BindingView) -> bool {
    binding.host_port is None || (binding.family is None && !malformed(binding))
}

/// The mapping of two runs of bindings is that of the first run, overridden
/// by that of the second.
pub proof fn lemma_mapping_concat(
    first: Seq<(u16, BindingView)>,
    second: Seq<(u16, BindingView)>,
    family: Family,
)
    ensures
        mapping(first + second, family) == mapping(first, family).union_prefer_right(
            mapping(second, family),
        ),
    decreases second.len(),
{
    if second.len() == 0 {
        assert(first + second == first);
        assert(mapping(first, family).union_prefer_right(Map::empty()) =~= mapping(first, family));
    } else {
        let front = second.drop_last();
        lemma_mapping_concat(first, front, family);
        assert((first + second).drop_last() == first + front);
        assert((first + second).last() == second.last());
        let earlier = mapping(first, family).union_prefer_right(mapping(front, family));
        if publishes(second.last().1, family) {
            assert(earlier.insert(second.last().0, host_port(second.last().1)) =~= mapping(
                first,
                family,
            ).union_prefer_right(mapping(second, family)));
        }
    }
}

/// A container port is in the mapping of a family exactly when some binding
/// publishes it for that family.
pub proof fn lemma_mapping_keys(bindings: Seq<(u16, BindingView)>, family: Family, port: u16)
    ensures
        mapping(bindings, family).contains_key(port) <==> exists|i: int|
            0 <= i < bindings.len() && (#[trigger] bindings[i]).0 == port && publishes(
                bindings[i].1,
                family,
            ),
    decreases bindings.len(),
{
    if bindings.len() > 0 {
        let front = bindings.drop_last();
        lemma_mapping_keys(front, family, port);
        if mapping(bindings, family).contains_key(port) {
            if bindings.last().0 == port && publishes(bindings.last().1, family) {
                assert(bindings[bindings.len() - 1].0 == port);
            } else {
                let i = choose|i: int|
                    0 <= i < front.len() && (#[trigger] front[i]).0 == port && publishes(
                        front[i].1,
                        family,
                    );
                assert(bindings[i] == front[i]);
            }
        }
        if exists|i: int|
            0 <= i < bindings.len() && (#[trigger] bindings[i]).0 == port && publishes(
                bindings[i].1,
                family,
            ) {
            let i = choose|i: int|
                0 <= i < bindings.len() && (#[trigger] bindings[i]).0 == port && publishes(
                    bindings[i].1,
                    family,
                );
            if i < front.len() {
                assert(front[i] == bindings[i]);
            }
        }
    }
}

/// The mapping of a family gives a container port the host port of the last
/// binding that publishes it for that family.
pub proof fn lemma_mapping_last_wins(bindings: Seq<(u16, BindingView)>, family: Family, at: int)
    requires
        0 <= at < bindings.len(),
        publishes(bindings[at].1, family),
        forall|j: int|
            at < j < bindings.len() && (#[trigger] bindings[j]).0 == bindings[at].0 ==> !publishes(
                bindings[j].1,
                family,
            ),
    ensures
        mapping(bindings, family).contains_key(bindings[at].0),
        mapping(bindings, family)[bindings[at].0] == host_port(bindings[at].1),
    decreases bindings.len(),
{
    if at < bindings.len() - 1 {
        let front = bindings.drop_last();
        assert(front[at] == bindings[at]);
        assert forall|j: int|
            at < j < front.len() && (#[trigger] front[j]).0 == front[at].0 implies !publishes(
            front[j].1,
            family,
        ) by {
            assert(front[j] == bindings[j]);
        }
        lemma_mapping_last_wins(front, family, at);
        assert(bindings[bindings.len() - 1].0 == bindings[at].0 ==> !publishes(
            bindings[bindings.len() - 1].1,
            family,
        ));
    }
}

/// Of a table that resolves, a container port is published for a family
/// exactly when some binding of the table publishes it for that family.
pub proof fn lemma_published_ports(table: Seq<RawPortView>, family: Family, port: u16)
    requires
        resolve(table) is Ok,
    ensures
        resolve(table)->Ok_0.of(family).contains_key(port) <==> exists|i: int|
            0 <= i < table_bindings(table).len() && (#[trigger] table_bindings(table)[i]).0 == port
                && publishes(table_bindings(table)[i].1, family),
{
    lemma_mapping_keys(table_bindings(table), family, port);
}

/// Of two bindings that publish one container port for one family, the later
/// one wins: a table that resolves gives the port the host port of the last
/// binding that publishes it for the family.
pub proof fn lemma_later_binding_wins(table: Seq<RawPortView>, family: Family, at: int)
    requires
        resolve(table) is Ok,
        0 <= at < table_bindings(table).len(),
        publishes(table_bindings(table)[at].1, family),
        forall|j: int|
            at < j < table_bindings(table).len() && (#[trigger] table_bindings(table)[j]).0
                == table_bindings(table)[at].0 ==> !publishes(table_bindings(table)[j].1, family),
    ensures
        resolve(table)->Ok_0.of(family).contains_key(table_bindings(table)[at].0),
        resolve(table)->Ok_0.of(family)[table_bindings(table)[at].0] == host_port(
            table_bindings(table)[at].1,
        ),
{
    lemma_mapping_last_wins(table_bindings(table), family, at);
}

/// An entry whose key names no container port is dropped with all its
/// bindings: wherever it stands in a table, the table resolves as it does
/// without the entry.
pub proof fn lemma_key_without_port_is_dropped(table: Seq<RawPortView>, at: int, entry: RawPortView)
    requires
        0 <= at <= table.len(),
        internal_port(entry.key) is None,
    ensures
        resolve(table.insert(at, entry)) == resolve(table),
{
    let one = seq![entry];
    assert(table.insert(at, entry) == (table.take(at) + one) + table.skip(at));
    assert(table == table.take(at) + table.skip(at));
    lemma_table_bindings_concat(table.take(at) + one, table.skip(at));
    lemma_table_bindings_concat(table.take(at), one);
    lemma_table_bindings_concat(table.take(at), table.skip(at));
    assert(one.drop_last() == Seq::<RawPortView>::empty());
    assert(table_bindings(one) == table_bindings(one.drop_last()) + entry_bindings(entry));
    assert(table_bindings(one) == Seq::<(u16, BindingView)>::empty());
    assert(table_bindings(table.take(at)) + Seq::empty() == table_bindings(table.take(at)));
}

/// A binding that the resolver passes over changes nothing between the
/// bindings before it and those after it.
pub proof fn lemma_passed_over(
    before: Seq<(u16, BindingView)>,
    binding: (u16, BindingView),
    after: Seq<(u16, BindingView)>,
    family: Family,
)
    requires
        passed_over(binding.1),
    ensures
        first_malformed((before + seq![binding]) + after) == first_malformed(before + after),
        mapping((before + seq![binding]) + after, family) == mapping(before + after, family),
{
    let one = seq![binding];
    assert(one.drop_first() == Seq::<(u16, BindingView)>::empty());
    assert(one.drop_last() == Seq::<(u16, BindingView)>::empty());
    assert(first_malformed(one.drop_first()) is None);
    assert(first_malformed(one) is None);
    assert(mapping(one, family) == mapping(one.drop_last(), family));
    assert(mapping(one, family) == Map::<u16, u16>::empty());
    lemma_first_malformed_concat(before + one, after);
    lemma_first_malformed_concat(before, one);
    lemma_first_malformed_concat(before, after);
    lemma_mapping_concat(before + one, after, family);
    lemma_mapping_concat(before, one, family);
    lemma_mapping_concat(before, after, family);
    assert(mapping(before, family).union_prefer_right(Map::empty()) =~= mapping(before, family));
}

/// A binding without a host port is skipped, and so is one whose host port is
/// a port number and whose host address is absent or malformed: with such a
/// binding put anywhere among the bindings of an entry, the table resolves as
/// it does without it.
pub proof fn lemma_binding_is_skipped(
    table: Seq<RawPortView>,
    entry: int,
    at: int,
    binding: BindingView,
)
    requires
        0 <= entry < table.len(),
        0 <= at <= table[entry].bindings.len(),
        passed_over(binding),
    ensures
        resolve(
            table.update(
                entry,
                RawPortView { bindings: table[entry].bindings.insert(at, binding), ..table[entry] },
            ),
        ) == resolve(table),
{
    let old_entry = table[entry];
    let new_entry = RawPortView { bindings: old_entry.bindings.insert(at, binding), ..old_entry };
    let changed = table.update(entry, new_entry);
    let head = table.take(entry);
    let tail = table.skip(entry + 1);
    assert(table == (head + seq![old_entry]) + tail);
    assert(changed == (head + seq![new_entry]) + tail);
    lemma_table_bindings_concat(head + seq![old_entry], tail);
    lemma_table_bindings_concat(head + seq![new_entry], tail);
    lemma_table_bindings_concat(head, seq![old_entry]);
    lemma_table_bindings_concat(head, seq![new_entry]);
    assert(seq![old_entry].drop_last() == Seq::<RawPortView>::empty());
    assert(seq![new_entry].drop_last() == Seq::<RawPortView>::empty());
    assert(table_bindings(seq![old_entry]) == table_bindings(seq![old_entry].drop_last())
        + entry_bindings(old_entry));
    assert(table_bindings(seq![new_entry]) == table_bindings(seq![new_entry].drop_last())
        + entry_bindings(new_entry));
    assert(table_bindings(seq![old_entry]) == entry_bindings(old_entry));
    assert(table_bindings(seq![new_entry]) == entry_bindings(new_entry));
    match internal_port(old_entry.key) {
        Some(port) => {
            let was = entry_bindings(old_entry);
            let now = entry_bindings(new_entry);
            let before = table_bindings(head) + was.take(at);
            let after = was.skip(at) + table_bindings(tail);
            assert(now == (was.take(at) + seq![(port, binding)]) + was.skip(at));
            assert(was == was.take(at) + was.skip(at));
            assert(table_bindings(changed) == (before + seq![(port, binding)]) + after);
            assert(table_bindings(table) == before + after);
            lemma_passed_over(before, (port, binding), after, Family::V4);
            lemma_passed_over(before, (port, binding), after, Family::V6);
        },
        None => {},
    }
}

/// The key under which a container port is exposed when a container is
/// created names that port when the port table is resolved.
pub proof fn lemma_exposed_key_names_its_port(port: u16)
    ensures
        internal_port(exposed_key(port)) == Some(port),
{
    let digits = decimal_text(port as nat);
    let key = exposed_key(port);
    lemma_decimal_text(port as nat);
    lemma_port_number_of_decimal_text(port);
    reveal_strlit("/tcp");
    assert forall|i: int| 0 <= i < digits.len() implies key[i] != '/' by {
        assert(key[i] == digits[i]);
        assert(is_digit(digits[i]));
    }
    assert(key[digits.len() as int] == "/tcp"@[0]);
    lemma_prefix_before(key, '/', digits.len() as int);
    assert(key.take(digits.len() as int) == digits);
}

} // verus!
