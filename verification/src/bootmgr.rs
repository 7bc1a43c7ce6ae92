//! Reading `efibootmgr` listings and computing the boot order to write.
//!
//! The listing is read line by line. `BootOrder: ` gives the order of the
//! firmware's boot entries as four-digit hexadecimal numbers; `BootNext: `
//! names an entry scheduled for the next boot only; `BootXXXX` lines describe
//! the entries, and the addon's entry is the one labelled `liminescreen`
//! whose device path ends in the addon's loader.

use vstd::prelude::*;
use vstd::string::*;
use crate::error::Error;
use crate::text::{
    all_hex, ascii_lower, ascii_upper, chars_of, drop_leading, find_value, has_infix, hex_digit,
    is_hex_digit, leading_word, lemma_pieces_nonempty, lines, lines_of, pieces, split_chars,
    string_of, string_views, trim_start, upper_all, value_after, views, all_hex_digits, joined,
    lower_all, without_leading, without_leading_space, first_word, same_chars, contains,
    copy_range, starts_with, strip_cr, upper_char,
};

verus! {

broadcast use vstd::string::group_string_axioms;

/// The prefix of the line that lists the boot order.
pub open spec fn boot_order_prefix() -> Seq<char> {
    "BootOrder: "@
}

/// The prefix of the line that names the entry for the next boot only.
pub open spec fn boot_next_prefix() -> Seq<char> {
    "BootNext: "@
}

/// The prefix of a boot entry line.
pub open spec fn entry_prefix() -> Seq<char> {
    "Boot"@
}

/// The label of the addon's firmware entry.
pub open spec fn label() -> Seq<char> {
    "liminescreen"@
}

/// The addon's loader path on the ESP, as the firmware entry records it.
pub open spec fn loader_path() -> Seq<char> {
    "\\EFI\\liminescreen\\liminescreen.efi"@
}

/// How a device path that names the loader as a file node reads.
pub open spec fn file_node_pattern() -> Seq<char> {
    "file("@ + loader_path() + ")"@
}

/// How a device path that ends in the loader reads.
pub open spec fn path_end_pattern() -> Seq<char> {
    "/"@ + loader_path()
}

/// Whether `item` is a boot entry number: four hexadecimal digits.
pub open spec fn is_entry_number(item: Seq<char>) -> bool {
    item.len() == 4 && all_hex(item)
}

/// The comma-separated items of a `BootOrder` value, upper case.
pub open spec fn order_items(value: Seq<char>) -> Seq<Seq<char>> {
    pieces(value, ',').map_values(|p: Seq<char>| ascii_upper(p))
}

/// The boot order that an `efibootmgr` listing gives, upper case.
pub open spec fn listed_boot_order(output: Seq<char>) -> Result<Seq<Seq<char>>, Error> {
    match value_after(lines(output), boot_order_prefix()) {
        None => Err(Error::NoBootOrder),
        Some(value) => {
            let order = order_items(value);
            if order.len() == 0 || exists|i: int|
                0 <= i < order.len() && !is_entry_number(#[trigger] order[i]) {
                Err(Error::InvalidBootOrder)
            } else {
                Ok(order)
            }
        },
    }
}

/// The entry scheduled for the next boot only, if the listing names one.
pub open spec fn listed_boot_next(output: Seq<char>) -> Option<Seq<char>> {
    value_after(lines(output), boot_next_prefix())
}

/// The number, upper case, of the boot entry that `line` describes, when
/// that entry is the addon's.
pub open spec fn addon_entry(line: Seq<char>) -> Option<Seq<char>> {
    if entry_prefix().is_prefix_of(line) {
        let rest = line.skip(entry_prefix().len() as int);
        if rest.len() >= 4 && all_hex(rest.take(4)) {
            let description = trim_start(drop_leading(rest.skip(4), '*'));
            let lower = ascii_lower(description);
            if leading_word(description) == label() && (has_infix(
                lower,
                ascii_lower(file_node_pattern()),
            ) || has_infix(lower, ascii_lower(path_end_pattern()))) {
                Some(ascii_upper(rest.take(4)))
            } else {
                None
            }
        } else {
            None
        }
    } else {
        None
    }
}

/// The numbers of the addon's entries among `lines`, in order.
pub open spec fn addon_entries(lines: Seq<Seq<char>>) -> Seq<Seq<char>>
    decreases lines.len(),
{
    if lines.len() == 0 {
        Seq::<Seq<char>>::empty()
    } else {
        match addon_entry(lines[0]) {
            Some(n) => seq![n] + addon_entries(lines.drop_first()),
            None => addon_entries(lines.drop_first()),
        }
    }
}

/// The addon's entry in an `efibootmgr` listing: none, exactly one, or an
/// error when several entries could be the addon's.
pub open spec fn listed_entry(output: Seq<char>) -> Result<Option<Seq<char>>, Error> {
    let found = addon_entries(lines(output));
    if found.len() >= 2 {
        Err(Error::AmbiguousEntry)
    } else if found.len() == 1 {
        Ok(Some(found[0]))
    } else {
        Ok(None)
    }
}

/// `order` without the occurrences of `entry`, the others in order.
pub open spec fn without(order: Seq<Seq<char>>, entry: Seq<char>) -> Seq<Seq<char>>
    decreases order.len(),
{
    if order.len() == 0 {
        order
    } else {
        let rest = without(order.drop_last(), entry);
        if order.last() == entry {
            rest
        } else {
            rest.push(order.last())
        }
    }
}

/// The boot order to write: the addon's entry first when it is enabled,
/// then every other entry in its previous order.
pub open spec fn desired(order: Seq<Seq<char>>, entry: Seq<char>, enabled: bool) -> Seq<Seq<char>> {
    if enabled {
        seq![entry] + without(order, entry)
    } else {
        without(order, entry)
    }
}

proof fn lemma_without_concat(a: Seq<Seq<char>>, b: Seq<Seq<char>>, entry: Seq<char>)
    ensures
        without(a + b, entry) == without(a, entry) + without(b, entry),
    decreases b.len(),
{
    if b.len() == 0 {
        assert(a + b =~= a);
        assert(without(a, entry) + without(b, entry) =~= without(a, entry));
    } else {
        assert((a + b).drop_last() =~= a + b.drop_last());
        assert((a + b).last() == b.last());
        lemma_without_concat(a, b.drop_last(), entry);
        if b.last() == entry {
        } else {
            assert(without(a, entry) + without(b.drop_last(), entry).push(b.last()) =~= (without(
                a,
                entry,
            ) + without(b.drop_last(), entry)).push(b.last()));
        }
    }
}

/// Removing an entry leaves no occurrence of it, and keeps every other
/// entry: an entry other than `entry` is in the result exactly when it was
/// in `order`.
pub proof fn lemma_without_keeps_others(order: Seq<Seq<char>>, entry: Seq<char>)
    ensures
        !without(order, entry).contains(entry),
        forall|x: Seq<char>| x != entry ==> (#[trigger] without(order, entry).contains(x) <==> order.contains(x)),
    decreases order.len(),
{
    if order.len() > 0 {
        let rest = order.drop_last();
        lemma_without_keeps_others(rest, entry);
        assert(order =~= rest.push(order.last()));
        assert forall|x: Seq<char>| x != entry implies (#[trigger] without(order, entry).contains(x)
            <==> order.contains(x)) by {
            if order.contains(x) {
                let i = choose|i: int| 0 <= i < order.len() && order[i] == x;
                if i < order.len() - 1 {
                    assert(rest[i] == x);
                    assert(rest.contains(x));
                    assert(without(rest, entry).contains(x));
                    let k = choose|k: int| 0 <= k < without(rest, entry).len() && without(rest, entry)[k] == x;
                    assert(without(order, entry)[k] == x);
                } else {
                    assert(without(order, entry).last() == x);
                }
            }
            if without(order, entry).contains(x) {
                let j = choose|j: int| 0 <= j < without(order, entry).len() && without(order, entry)[j] == x;
                if order.last() != entry && j == without(order, entry).len() - 1 {
                    assert(order[order.len() - 1] == x);
                } else {
                    assert(without(rest, entry)[j] == x);
                    assert(without(rest, entry).contains(x));
                    assert(rest.contains(x));
                    let i = choose|i: int| 0 <= i < rest.len() && rest[i] == x;
                    assert(order[i] == x);
                }
            }
        }
        if without(order, entry).contains(entry) {
            let j = choose|j: int| 0 <= j < without(order, entry).len() && without(order, entry)[j] == entry;
            if order.last() != entry && j == without(order, entry).len() - 1 {
            } else {
                assert(without(rest, entry)[j] == entry);
            }
        }
    }
}

/// An order without `entry` is left as it is.
pub proof fn lemma_without_absent(order: Seq<Seq<char>>, entry: Seq<char>)
    requires
        !order.contains(entry),
    ensures
        without(order, entry) == order,
    decreases order.len(),
{
    if order.len() > 0 {
        let rest = order.drop_last();
        assert(!rest.contains(entry)) by {
            if rest.contains(entry) {
                let i = choose|i: int| 0 <= i < rest.len() && rest[i] == entry;
                assert(order[i] == entry);
            }
        }
        lemma_without_absent(rest, entry);
        assert(order[order.len() - 1] != entry);
        assert(rest.push(order.last()) =~= order);
    }
}

/// Enabling puts the addon's entry first and keeps every other entry in
/// its previous order; disabling keeps only the other entries, in order.
pub proof fn lemma_desired_shape(order: Seq<Seq<char>>, entry: Seq<char>)
    ensures
        desired(order, entry, true)[0] == entry,
        desired(order, entry, true).drop_first() == without(order, entry),
        desired(order, entry, false) == without(order, entry),
        !desired(order, entry, false).contains(entry),
{
    assert(desired(order, entry, true).drop_first() =~= without(order, entry));
    lemma_without_keeps_others(order, entry);
}

/// The other firmware choices survive any edit: removing the addon's entry
/// from the order written gives the previous order without it.
pub proof fn lemma_other_choices_preserved(order: Seq<Seq<char>>, entry: Seq<char>, enabled: bool)
    ensures
        without(desired(order, entry, enabled), entry) == without(order, entry),
{
    lemma_without_keeps_others(order, entry);
    lemma_without_absent(without(order, entry), entry);
    if enabled {
        lemma_without_concat(seq![entry], without(order, entry), entry);
        assert(without(seq![entry], entry) =~= Seq::<Seq<char>>::empty()) by {
            reveal_with_fuel(without, 2);
            assert(seq![entry].drop_last() =~= Seq::<Seq<char>>::empty());
            assert(seq![entry].last() == entry);
        }
        assert(Seq::<Seq<char>>::empty() + without(order, entry) =~= without(order, entry));
    }
}

/// Editing the boot order twice the same way changes nothing more.
pub proof fn lemma_desired_idempotent(order: Seq<Seq<char>>, entry: Seq<char>, enabled: bool)
    ensures
        desired(desired(order, entry, enabled), entry, enabled) == desired(order, entry, enabled),
{
    lemma_other_choices_preserved(order, entry, enabled);
}

/// Disabling right after enabling gives back a boot order that did not
/// hold the addon's entry.
pub proof fn lemma_disable_undoes_enable(order: Seq<Seq<char>>, entry: Seq<char>)
    requires
        !order.contains(entry),
    ensures
        desired(desired(order, entry, true), entry, false) == order,
{
    lemma_other_choices_preserved(order, entry, true);
    lemma_without_absent(order, entry);
}

proof fn lemma_pieces_concat(t: Seq<char>, u: Seq<char>, sep: char)
    requires
        t.len() > 0,
        t.last() == sep,
    ensures
        pieces(t + u, sep) == pieces(t, sep).drop_last() + pieces(u, sep),
    decreases u.len(),
{
    lemma_pieces_nonempty(t.drop_last(), sep);
    if u.len() == 0 {
        assert(t + u =~= t);
        assert(pieces(t, sep).drop_last() + pieces(u, sep) =~= pieces(t, sep));
    } else {
        let v = u.drop_last();
        lemma_pieces_concat(t, v, sep);
        lemma_pieces_nonempty(v, sep);
        assert((t + u).drop_last() =~= t + v);
        assert((t + u).last() == u.last());
        let a = pieces(t, sep).drop_last();
        let p = pieces(v, sep);
        if u.last() == sep {
            assert((a + p).push(Seq::<char>::empty()) =~= a + p.push(Seq::<char>::empty()));
        } else {
            let ap = a + p;
            assert(ap.last() == p.last());
            assert(ap.update(ap.len() - 1, ap.last().push(u.last())) =~= a + p.update(
                p.len() - 1,
                p.last().push(u.last()),
            ));
        }
    }
}

proof fn lemma_lines_concat(t: Seq<char>, u: Seq<char>)
    requires
        t.len() > 0,
        t.last() == '\n',
    ensures
        lines(t + u) == lines(t) + lines(u),
{
    lemma_pieces_concat(t, u, '\n');
    lemma_pieces_nonempty(t.drop_last(), '\n');
    lemma_pieces_nonempty(u, '\n');
    let a = pieces(t, '\n').drop_last();
    let pt = pieces(t, '\n');
    let pu = pieces(u, '\n');
    let p = a + pu;
    assert(pt.last() =~= Seq::<char>::empty());
    assert(pt.take(pt.len() - 1) =~= a);
    assert(p.last() == pu.last());
    assert(p.take(p.len() - 1) =~= a + pu.take(pu.len() - 1));
    assert(p.take(p.len() - 1).map_values(|l: Seq<char>| strip_cr(l)) =~= a.map_values(
        |l: Seq<char>| strip_cr(l),
    ) + pu.take(pu.len() - 1).map_values(|l: Seq<char>| strip_cr(l)));
    assert(lines(t) =~= a.map_values(|l: Seq<char>| strip_cr(l)));
    if pu.last().len() == 0 {
        assert(lines(t + u) =~= lines(t) + lines(u));
    } else {
        assert(lines(t + u) =~= lines(t) + lines(u));
    }
}

proof fn lemma_entries_concat(a: Seq<Seq<char>>, b: Seq<Seq<char>>)
    ensures
        addon_entries(a + b) == addon_entries(a) + addon_entries(b),
    decreases a.len(),
{
    if a.len() == 0 {
        assert(a + b =~= b);
        assert(addon_entries(a) + addon_entries(b) =~= addon_entries(b));
    } else {
        assert((a + b).drop_first() =~= a.drop_first() + b);
        assert((a + b)[0] == a[0]);
        lemma_entries_concat(a.drop_first(), b);
        match addon_entry(a[0]) {
            Some(n) => {
                assert(seq![n] + (addon_entries(a.drop_first()) + addon_entries(b)) =~= (seq![n]
                    + addon_entries(a.drop_first())) + addon_entries(b));
            },
            None => {},
        }
    }
}

/// A listing that shows the addon's entry, repeated, is ambiguous: the
/// manager refuses to pick one of two entries that could be the addon's.
pub proof fn lemma_repeated_entry_is_ambiguous(listing: Seq<char>)
    requires
        listing.len() > 0,
        listing.last() == '\n',
        listed_entry(listing) is Ok,
        listed_entry(listing)->Ok_0 is Some,
    ensures
        listed_entry(listing + listing) == Err::<Option<Seq<char>>, Error>(Error::AmbiguousEntry),
{
    lemma_lines_concat(listing, listing);
    lemma_entries_concat(lines(listing), lines(listing));
}

/// The addon's entry is named by four upper-case hexadecimal digits.
pub proof fn lemma_entry_is_a_number(line: Seq<char>)
    requires
        addon_entry(line) is Some,
    ensures
        is_entry_number(addon_entry(line)->0),
        ascii_upper(addon_entry(line)->0) == addon_entry(line)->0,
{
    let n = addon_entry(line)->0;
    let rest = line.skip(entry_prefix().len() as int);
    let digits = rest.take(4);
    assert(n == ascii_upper(digits));
    assert forall|i: int| 0 <= i < n.len() implies is_hex_digit(#[trigger] n[i]) by {
        assert(is_hex_digit(digits[i]));
    }
    assert(ascii_upper(n) =~= n);
}

/// The number of times `c` occurs in `s`.
pub open spec fn occurrences(s: Seq<char>, c: char) -> nat
    decreases s.len(),
{
    if s.len() == 0 {
        0
    } else {
        occurrences(s.drop_last(), c) + if s.last() == c {
            1nat
        } else {
            0nat
        }
    }
}

proof fn lemma_pieces_count(s: Seq<char>, sep: char)
    ensures
        pieces(s, sep).len() == occurrences(s, sep) + 1,
    decreases s.len(),
{
    if s.len() > 0 {
        lemma_pieces_count(s.drop_last(), sep);
        lemma_pieces_nonempty(s.drop_last(), sep);
    }
}

proof fn lemma_upper_keeps_hex(p: Seq<char>)
    ensures
        ascii_upper(p).len() == p.len(),
        all_hex(ascii_upper(p)) <==> all_hex(p),
{
    let u = ascii_upper(p);
    assert forall|i: int| 0 <= i < p.len() implies (is_hex_digit(#[trigger] u[i])
        <==> is_hex_digit(p[i])) by {
        let c = p[i];
        assert(u[i] == upper_char(c));
        if 'a' <= c && c <= 'z' {
            assert((c as u32) - 32 == (upper_char(c) as u32));
        }
    }
    if all_hex(p) {
        assert forall|i: int| 0 <= i < u.len() implies is_hex_digit(#[trigger] u[i]) by {
            assert(is_hex_digit(p[i]));
        }
    }
    if all_hex(u) {
        assert forall|i: int| 0 <= i < p.len() implies is_hex_digit(#[trigger] p[i]) by {
            assert(is_hex_digit(u[i]));
        }
    }
}

/// The boot order read from a listing is the first `BootOrder` value cut
/// at every comma: one entry for each comma-separated item, one more than
/// the value has commas, in order, each the item in upper case. It is read
/// exactly when every item is four hexadecimal digits; otherwise the order
/// is refused as invalid.
pub proof fn lemma_boot_order_is_every_item(output: Seq<char>)
    ensures
        match value_after(lines(output), "BootOrder: "@) {
            None => listed_boot_order(output) == Err::<Seq<Seq<char>>, Error>(Error::NoBootOrder),
            Some(value) => {
                let items = pieces(value, ',');
                &&& items.len() == occurrences(value, ',') + 1
                &&& (listed_boot_order(output) is Ok <==> forall|i: int|
                    0 <= i < items.len() ==> #[trigger] items[i].len() == 4 && all_hex(items[i]))
                &&& !(listed_boot_order(output) is Ok) ==> listed_boot_order(output)
                    == Err::<Seq<Seq<char>>, Error>(Error::InvalidBootOrder)
                &&& listed_boot_order(output) matches Ok(order) ==> order.len() == items.len()
                    && forall|i: int| 0 <= i < items.len() ==> #[trigger] order[i] == ascii_upper(items[i])
            },
        },
{
    match value_after(lines(output), boot_order_prefix()) {
        None => {},
        Some(value) => {
            let items = pieces(value, ',');
            let order = order_items(value);
            lemma_pieces_count(value, ',');
            assert forall|i: int| 0 <= i < items.len() implies (is_entry_number(#[trigger] order[i])
                <==> (items[i].len() == 4 && all_hex(items[i]))) by {
                lemma_upper_keeps_hex(items[i]);
            }
            if forall|i: int| 0 <= i < items.len() ==> #[trigger] items[i].len() == 4 && all_hex(items[i]) {
                assert forall|i: int| 0 <= i < order.len() implies is_entry_number(#[trigger] order[i]) by {
                    assert(items[i].len() == 4 && all_hex(items[i]));
                }
            } else {
                let k = choose|i: int|
                    0 <= i < items.len() && !(#[trigger] items[i].len() == 4 && all_hex(items[i]));
                assert(!is_entry_number(order[k]));
            }
        },
    }
}

/// The boot order that an `efibootmgr` listing gives, upper case.
pub fn boot_order(output: &str) -> (order: Result<Vec<String>, Error>)
    ensures
        match order {
            Ok(v) => listed_boot_order(output@) == Ok::<Seq<Seq<char>>, Error>(string_views(v@)),
            Err(e) => listed_boot_order(output@) == Err::<Seq<Seq<char>>, Error>(e),
        },
{
    let chars = chars_of(output);
    let all = lines_of(&chars);
    let prefix = chars_of("BootOrder: ");
    let value = match find_value(&all, &prefix) {
        None => return Err(Error::NoBootOrder),
        Some(v) => v,
    };
    assert(value_after(lines(output@), boot_order_prefix()) == Some(value@));
    let items = split_chars(&value, ',');
    let ghost spec_order = order_items(value@);
    let mut order: Vec<String> = Vec::new();
    let mut i: usize = 0;
    while i < items.len()
        invariant
            i <= items.len(),
            views(items@) == pieces(value@, ','),
            spec_order == order_items(value@),
            value_after(lines(output@), boot_order_prefix()) == Some(value@),
            string_views(order@) == spec_order.take(i as int),
            forall|j: int| 0 <= j < i ==> is_entry_number(#[trigger] spec_order[j]),
        decreases items.len() - i,
    {
        assert(items@[i as int]@ == pieces(value@, ',')[i as int]);
        let upper = upper_all(&items[i]);
        assert(upper@ == spec_order[i as int]);
        let mut valid = upper.len() == 4;
        let mut k: usize = 0;
        while valid && k < upper.len()
            invariant
                k <= upper.len(),
                valid ==> upper.len() == 4,
                valid ==> forall|j: int| 0 <= j < k ==> is_hex_digit(#[trigger] upper@[j]),
                !valid ==> !is_entry_number(upper@),
            decreases upper.len() - k,
        {
            if !hex_digit(upper[k]) {
                valid = false;
            }
            k = k + 1;
        }
        if !valid {
            assert(!is_entry_number(spec_order[i as int]));
            assert(views(items@).len() == items@.len());
            assert(0 <= i < spec_order.len());
            assert(listed_boot_order(output@) == Err::<Seq<Seq<char>>, Error>(Error::InvalidBootOrder));
            return Err(Error::InvalidBootOrder);
        }
        assert(all_hex(upper@));
        let item = string_of(&upper);
        let ghost before = order@;
        order.push(item);
        assert(string_views(order@) =~= string_views(before).push(item@));
        assert(spec_order.take(i + 1) =~= spec_order.take(i as int).push(spec_order[i as int]));
        i = i + 1;
    }
    proof {
        lemma_pieces_nonempty(value@, ',');
        assert(spec_order.take(i as int) =~= spec_order);
    }
    Ok(order)
}

/// The number of the addon's entry that `line` describes, if any; the
/// patterns are the lower-case forms of the loader's device path endings.
fn entry_of_line(line: &[char], file_node: &[char], path_end: &[char]) -> (number: Option<Vec<char>>)
    requires
        file_node@ == ascii_lower(file_node_pattern()),
        path_end@ == ascii_lower(path_end_pattern()),
    ensures
        match number {
            Some(n) => addon_entry(line@) == Some(n@),
            None => addon_entry(line@) is None,
        },
{
    let boot = chars_of("Boot");
    proof {
        reveal_strlit("Boot");
    }
    if !starts_with(line, &boot) {
        return None;
    }
    let rest = copy_range(line, 4, line.len());
    assert(rest@ == line@.skip(entry_prefix().len() as int));
    if rest.len() < 4 {
        return None;
    }
    let number = copy_range(&rest, 0, 4);
    assert(number@ =~= rest@.take(4));
    if !all_hex_digits(&number) {
        return None;
    }
    let after = copy_range(&rest, 4, rest.len());
    assert(after@ =~= rest@.skip(4));
    let unstarred = without_leading(&after, '*');
    let description = without_leading_space(&unstarred);
    let word = first_word(&description);
    let name = chars_of("liminescreen");
    if !same_chars(&word, &name) {
        return None;
    }
    let lower = lower_all(&description);
    if contains(&lower, file_node) || contains(&lower, path_end) {
        Some(upper_all(&number))
    } else {
        None
    }
}

/// The addon's firmware entry in an `efibootmgr` listing: `None` when there
/// is none, and an error when more than one entry could be the addon's.
pub fn find_entry(output: &str) -> (entry: Result<Option<String>, Error>)
    ensures
        match entry {
            Ok(Some(s)) => listed_entry(output@) == Ok::<Option<Seq<char>>, Error>(Some(s@)),
            Ok(None) => listed_entry(output@) == Ok::<Option<Seq<char>>, Error>(None),
            Err(e) => listed_entry(output@) == Err::<Option<Seq<char>>, Error>(e),
        },
{
    let chars = chars_of(output);
    let all = lines_of(&chars);
    let loader = chars_of("\\EFI\\liminescreen\\liminescreen.efi");
    let file_open = chars_of("file(");
    let file_close = chars_of(")");
    let slash = chars_of("/");
    let file_node = lower_all(&joined(&joined(&file_open, &loader), &file_close));
    let path_end = lower_all(&joined(&slash, &loader));
    let ghost ls = views(all@);
    let mut found: Option<Vec<char>> = None;
    let mut i: usize = 0;
    assert(ls.skip(0) =~= ls);
    while i < all.len()
        invariant
            i <= all.len(),
            ls == views(all@),
            ls == lines(output@),
            file_node@ == ascii_lower(file_node_pattern()),
            path_end@ == ascii_lower(path_end_pattern()),
            addon_entries(ls) == match found {
                Some(n) => seq![n@] + addon_entries(ls.skip(i as int)),
                None => addon_entries(ls.skip(i as int)),
            },
        decreases all.len() - i,
    {
        assert(ls.skip(i as int)[0] == all@[i as int]@);
        assert(ls.skip(i as int).drop_first() =~= ls.skip(i + 1));
        match entry_of_line(&all[i], &file_node, &path_end) {
            Some(n) => {
                if found.is_some() {
                    return Err(Error::AmbiguousEntry);
                }
                found = Some(n);
            },
            None => {},
        }
        i = i + 1;
    }
    assert(ls.skip(i as int) =~= Seq::<Seq<char>>::empty());
    match found {
        Some(n) => Ok(Some(string_of(&n))),
        None => Ok(None),
    }
}

/// The boot order to write: `entry` first when `enabled`, then every other
/// entry of `order` in its previous order.
pub fn desired_order(order: &[String], entry: &str, enabled: bool) -> (result: Vec<String>)
    ensures
        string_views(result@) == desired(string_views(order@), entry@, enabled),
{
    let entry = entry.to_owned();
    let ghost all = string_views(order@);
    let mut result: Vec<String> = Vec::new();
    if enabled {
        result.push(entry.clone());
    }
    let ghost start = string_views(result@);
    assert(all.take(0) =~= Seq::<Seq<char>>::empty());
    assert(start + without(all.take(0), entry@) =~= start);
    let mut i: usize = 0;
    while i < order.len()
        invariant
            i <= order.len(),
            all == string_views(order@),
            start == (if enabled { seq![entry@] } else { Seq::<Seq<char>>::empty() }),
            string_views(result@) == start + without(all.take(i as int), entry@),
        decreases order.len() - i,
    {
        let ghost before = result@;
        assert(all.take(i + 1).drop_last() =~= all.take(i as int));
        assert(all.take(i + 1).last() == order@[i as int]@);
        if order[i] != entry {
            result.push(order[i].clone());
            assert(string_views(result@) =~= string_views(before).push(order@[i as int]@));
        }
        i = i + 1;
    }
    assert(all.take(i as int) =~= all);
    result
}

/// The entry scheduled for the next boot only, if the listing names one.
pub fn boot_next(output: &str) -> (next: Option<Vec<char>>)
    ensures
        match next {
            Some(v) => listed_boot_next(output@) == Some(v@),
            None => listed_boot_next(output@) is None,
        },
{
    let chars = chars_of(output);
    let all = lines_of(&chars);
    let prefix = chars_of("BootNext: ");
    find_value(&all, &prefix)
}

} // verus!
