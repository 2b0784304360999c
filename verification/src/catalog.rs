//! The catalog of what the engine offers to scripts.

use vstd::multiset::Multiset;
use vstd::prelude::*;

use crate::digest::Hash256;
use crate::names::Place;
use crate::text;

verus! {

/// The number of engine opcodes.
pub const OPCODE_COUNT: u8 = 0x28;

/// The identity of an opcode: two hexadecimal digits.
pub open spec fn opcode_id(opcode: u8) -> Seq<char> {
    "0x"@ + text::hex(seq![opcode])
}

/// The identities of the engine's opcodes, in order.
pub fn release_opcode_ids() -> (r: Vec<String>)
    ensures
        r@.len() == OPCODE_COUNT,
        forall|i: int| 0 <= i < OPCODE_COUNT ==> (#[trigger] r@[i])@ == opcode_id(i as u8),
{
    let mut ids: Vec<String> = Vec::new();
    let mut opcode: u8 = 0;
    while opcode < OPCODE_COUNT
        invariant
            opcode <= OPCODE_COUNT,
            ids@.len() == opcode,
            forall|i: int| 0 <= i < opcode ==> (#[trigger] ids@[i])@ == opcode_id(i as u8),
        decreases OPCODE_COUNT - opcode,
    {
        let byte: [u8; 1] = [opcode];
        assert(byte@ =~= seq![opcode]);
        let digits = text::hex_string(&byte);
        ids.push(text::join2("0x", digits.as_str()));
        opcode = opcode + 1;
    }
    ids
}

/// The names of the first `n` calls that a release offers: all but the breakpoint.
pub open spec fn offered(names: Seq<String>, n: int) -> Multiset<Seq<char>>
    decreases n,
{
    if n <= 0 {
        Multiset::empty()
    } else if names[n - 1]@ == "BREAKPOINT"@ {
        offered(names, n - 1)
    } else {
        offered(names, n - 1).insert(names[n - 1]@)
    }
}

/// Whether no name comes before the one in front of it.
pub open spec fn in_order(names: Seq<Seq<char>>) -> bool {
    forall|i: int, j: int|
        0 <= i < j < names.len() ==> !crate::names::text_lt(
            #[trigger] names[j],
            #[trigger] names[i],
        )
}

fn insert_in_order(ids: &mut Vec<String>, name: &str)
    requires
        in_order(text::texts(old(ids)@)),
    ensures
        in_order(text::texts(final(ids)@)),
        text::texts(final(ids)@).to_multiset() == text::texts(
            old(ids)@,
        ).to_multiset().insert(name@),
{
    let ghost before = text::texts(ids@);
    let mut at: usize = 0;
    let mut done = false;
    while at < ids.len() && !done
        invariant
            at <= ids@.len(),
            *ids == *old(ids),
            before == text::texts(ids@),
            in_order(before),
            forall|k: int| 0 <= k < at ==> !crate::names::text_lt(name@, #[trigger] before[k]),
            done ==> at < ids@.len() && crate::names::text_lt(name@, before[at as int]),
        decreases ids@.len() - at + if done {
            0int
        } else {
            1
        },
    {
        assert(before[at as int] == ids@[at as int]@);
        match crate::names::place(name, ids[at].as_str()) {
            Place::Before => {
                done = true;
            },
            Place::Same => {
                proof {
                    crate::names::lemma_text_lt_irreflexive(name@);
                }
                at = at + 1;
            },
            Place::After => {
                proof {
                    crate::names::lemma_text_lt_asymmetric(before[at as int], name@);
                }
                at = at + 1;
            },
        }
    }
    let copy = text::owned(name);
    ids.insert(at, copy);
    proof {
        let after = text::texts(ids@);
        assert(after =~= before.insert(at as int, name@));
        vstd::seq_lib::to_multiset_insert(before, at as int, name@);
        assert forall|i: int, j: int| 0 <= i < j < after.len() implies !crate::names::text_lt(
            #[trigger] after[j],
            #[trigger] after[i],
        ) by {
            let x = if i < at {
                i
            } else {
                i - 1
            };
            let y = if j < at {
                j
            } else {
                j - 1
            };
            if j == at {
                assert(after[i] == before[x]);
            } else if i == at {
                assert(after[j] == before[y]);
                if crate::names::text_lt(before[y], name@) {
                    crate::names::lemma_text_lt_transitive(before[y], name@, before[at as int]);
                    if y > at {
                        assert(!crate::names::text_lt(before[y], before[at as int]));
                    } else {
                        crate::names::lemma_text_lt_irreflexive(before[y]);
                    }
                }
            } else {
                assert(after[i] == before[x] && after[j] == before[y]);
            }
        }
    }
}

/// The names of the calls that a release offers, in the order of their bytes.
/// `names` is the engine's own table.
pub fn release_syscall_ids(names: &Vec<String>) -> (r: Vec<String>)
    ensures
        in_order(text::texts(r@)),
        text::texts(r@).to_multiset() == offered(names@, names@.len() as int),
{
    let mut ids: Vec<String> = Vec::new();
    let mut i: usize = 0;
    proof {
        assert(text::texts(ids@) =~= Seq::empty());
        vstd::seq_lib::to_multiset_len(text::texts(ids@));
        assert(text::texts(ids@).to_multiset() =~= Multiset::empty());
    }
    while i < names.len()
        invariant
            i <= names@.len(),
            in_order(text::texts(ids@)),
            text::texts(ids@).to_multiset() == offered(names@, i as int),
        decreases names@.len() - i,
    {
        if !text::same_text(names[i].as_str(), "BREAKPOINT") {
            insert_in_order(&mut ids, names[i].as_str());
        }
        i = i + 1;
    }
    ids
}

/// The names as lines, each closed by a line feed.
pub open spec fn as_lines(names: Seq<Seq<char>>) -> Seq<char>
    decreases names.len(),
{
    if names.len() == 0 {
        Seq::empty()
    } else {
        as_lines(names.drop_last()) + names.last() + "\n"@
    }
}

/// The text whose digest stands for a catalog: the names as lines, or one empty line
/// where there is none.
pub open spec fn catalog_text(names: Seq<Seq<char>>) -> Seq<char> {
    if names.len() == 0 {
        "\n"@
    } else {
        as_lines(names)
    }
}

/// The identity of the catalog of calls.
pub fn release_syscall_catalog_hash(names: &Vec<String>) -> (r: Hash256)
    ensures
        exists|ids: Seq<Seq<char>>|
            {
                &&& #[trigger] in_order(ids)
                &&& ids.to_multiset() == offered(names@, names@.len() as int)
                &&& r@ == crate::digest::sha256_of(vstd::utf8::encode_utf8(catalog_text(ids)))
            },
{
    let ids = release_syscall_ids(names);
    let ghost all = text::texts(ids@);
    let mut lines = text::owned("");
    let mut i: usize = 0;
    proof {
        reveal_strlit("");
        assert(all.subrange(0, 0) =~= Seq::empty());
        assert(lines@ =~= Seq::empty());
    }
    while i < ids.len()
        invariant
            i <= ids@.len(),
            all == text::texts(ids@),
            lines@ == as_lines(all.subrange(0, i as int)),
        decreases ids@.len() - i,
    {
        proof {
            let next = all.subrange(0, i + 1);
            assert(next.drop_last() =~= all.subrange(0, i as int));
            assert(next.last() == ids@[i as int]@);
        }
        lines = text::join3(lines.as_str(), ids[i].as_str(), "\n");
        i = i + 1;
    }
    assert(all.subrange(0, all.len() as int) =~= all);
    if ids.len() == 0 {
        lines = text::owned("\n");
    }
    assert(in_order(all));
    Hash256::from_sha256(lines.as_str().as_bytes())
}

/// An opcode goes by `0x` and its two digits, from which it is read back.
pub proof fn law_opcodes_are_read_back(opcode: u8)
    ensures
        opcode_id(opcode).len() == 4,
        opcode_id(opcode)[0] == '0' && opcode_id(opcode)[1] == 'x',
        opcode == 16 * text::hex_digit_value(opcode_id(opcode)[2]) + text::hex_digit_value(
            opcode_id(opcode)[3],
        ),
{
    reveal_strlit("0x");
    text::law_digits_give_the_bytes_back(seq![opcode], 0);
    assert(opcode_id(opcode)[2] == text::hex(seq![opcode])[0]);
    assert(opcode_id(opcode)[3] == text::hex(seq![opcode])[1]);
}

/// A release offers every call but the breakpoint, as often as it is listed.
pub proof fn law_release_offers_all_but_the_breakpoint(names: Seq<String>, more: String)
    ensures
        offered(names, 0) == Multiset::<Seq<char>>::empty(),
        ({
            let before = offered(names, names.len() as int);
            let after = offered(names.push(more), names.len() as int + 1);
            &&& more@ == "BREAKPOINT"@ ==> after == before
            &&& more@ != "BREAKPOINT"@ ==> after == before.insert(more@)
        }),
{
    lemma_offered(names, more, names.len() as int);
    assert(names.push(more)[names.len() as int] == more);
}

proof fn lemma_offered(names: Seq<String>, more: String, n: int)
    requires
        0 <= n <= names.len(),
    ensures
        offered(names.push(more), n) == offered(names, n),
    decreases n,
{
    if n > 0 {
        lemma_offered(names, more, n - 1);
        assert(names.push(more)[n - 1] == names[n - 1]);
    }
}

/// The text of a catalog has each name on a line of its own, closed by a line feed; without a
/// name it is one empty line.
pub proof fn law_catalog_has_a_line_for_each_name(names: Seq<Seq<char>>, more: Seq<char>)
    ensures
        catalog_text(Seq::empty()) == seq!['\n'],
        catalog_text(seq![more]) == more + seq!['\n'],
        names.len() > 0 ==> catalog_text(names.push(more)) == catalog_text(names) + more + seq!['\n'],
{
    reveal_strlit("\n");
    assert("\n"@ =~= seq!['\n']);
    assert(names.push(more).drop_last() =~= names);
    assert(seq![more].drop_last() =~= Seq::<Seq<char>>::empty());
    assert(as_lines(Seq::<Seq<char>>::empty()) + more + "\n"@ =~= more + seq!['\n']);
}

/// Names in order do not go back: each is the one before it or comes behind it.
pub proof fn law_ordered_names_do_not_go_back(names: Seq<Seq<char>>, i: int, j: int)
    requires
        in_order(names),
        0 <= i < j < names.len(),
    ensures
        !crate::names::text_lt(names[j], names[i]),
{
    let (first, second) = (names[i], names[j]);
}

}
