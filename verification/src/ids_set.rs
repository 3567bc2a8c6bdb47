//! A set of 64-bit identifiers and its text form: one identifier per line.

use std::collections::HashSet;
use vstd::prelude::*;
use vstd::std_specs::iter::IteratorSpec;
use vstd::string::StringExecFns;
use crate::decimal::{
    append_i64, int_decimal, lemma_decimal_chars, lemma_parse_i64_decimal,
    parse_i64_spec, parse_range,
};
use crate::simple_storage::TextForm;
use crate::text::chars_of;

verus! {

/// The number of characters before the first line feed of `text`, or the
/// length of `text` if it holds none.
pub open spec fn first_line_len(text: Seq<char>) -> nat
    decreases text.len(),
{
    if text.len() == 0 || text[0] == '\n' {
        0
    } else {
        1 + first_line_len(text.drop_first())
    }
}

/// The first line of `text`, without its line ending: a line feed, or a
/// carriage return and a line feed. A carriage return that no line feed
/// follows belongs to the line.
pub open spec fn first_line(text: Seq<char>) -> Seq<char> {
    let n = first_line_len(text) as int;
    if 0 < n < text.len() && text[n - 1] == '\r' {
        text.take(n - 1)
    } else {
        text.take(n)
    }
}

/// What follows the first line of `text` and its line feed.
pub open spec fn after_first_line(text: Seq<char>) -> Seq<char> {
    let n = first_line_len(text) as int;
    if n < text.len() {
        text.skip(n + 1)
    } else {
        Seq::empty()
    }
}

/// The lines of `text`. A text that ends in a line feed has no empty last
/// line.
pub open spec fn lines(text: Seq<char>) -> Seq<Seq<char>>
    decreases text.len(),
{
    if text.len() == 0 {
        Seq::empty()
    } else {
        seq![first_line(text)] + lines(after_first_line(text))
    }
}

/// The identifiers that `text` holds: every line that denotes an `i64`
/// contributes it, every other line is skipped.
pub open spec fn decode(text: Seq<char>) -> Set<i64> {
    Set::new(
        |id: i64|
            exists|k: int|
                0 <= k < lines(text).len() && parse_i64_spec(#[trigger] lines(text)[k]) == Some(
                    id,
                ),
    )
}

/// One identifier as a line: its canonical decimal text and a line feed.
pub open spec fn id_line(id: i64) -> Seq<char> {
    int_decimal(id as int).push('\n')
}

/// The lines of `ids`, one after the other.
pub open spec fn encode(ids: Seq<i64>) -> Seq<char>
    decreases ids.len(),
{
    if ids.len() == 0 {
        Seq::empty()
    } else {
        id_line(ids[0]) + encode(ids.drop_first())
    }
}

/// Whether `text` is a text form of `ids`: each member on a line of its own,
/// once, in some order.
pub open spec fn is_encoding(ids: Set<i64>, text: Seq<char>) -> bool {
    exists|order: Seq<i64>|
        #![trigger encode(order)]
        order.no_duplicates() && order.to_set() == ids && text == encode(order)
}

/// `first_line_len` is the one position that no line feed precedes and that
/// either ends the text or holds a line feed.
pub proof fn lemma_first_line_len(text: Seq<char>, n: int)
    requires
        0 <= n <= text.len(),
        forall|i: int| 0 <= i < n ==> text[i] != '\n',
        n == text.len() || text[n] == '\n',
    ensures
        first_line_len(text) == n,
    decreases text.len(),
{
    if n > 0 {
        lemma_first_line_len(text.drop_first(), n - 1);
    }
}

/// The identifiers of a text are the one that its first line denotes, if it
/// denotes one, and those of the rest.
pub proof fn lemma_decode_step(text: Seq<char>)
    requires
        text.len() > 0,
    ensures
        decode(text) == match parse_i64_spec(first_line(text)) {
            Some(id) => decode(after_first_line(text)).insert(id),
            None => decode(after_first_line(text)),
        },
{
    let rest = after_first_line(text);
    let all = lines(text);
    let tail = lines(rest);
    assert(all == seq![first_line(text)] + tail);
    let expected = match parse_i64_spec(first_line(text)) {
        Some(id) => decode(rest).insert(id),
        None => decode(rest),
    };
    assert forall|id: i64| decode(text).contains(id) implies expected.contains(id) by {
        let k = choose|k: int| 0 <= k < all.len() && parse_i64_spec(#[trigger] all[k]) == Some(id);
        if k > 0 {
            assert(all[k] == tail[k - 1]);
        }
    }
    assert forall|id: i64| expected.contains(id) implies decode(text).contains(id) by {
        if decode(rest).contains(id) {
            let k = choose|k: int|
                0 <= k < tail.len() && parse_i64_spec(#[trigger] tail[k]) == Some(id);
            assert(all[k + 1] == tail[k]);
        } else {
            assert(all[0] == first_line(text));
        }
    }
    assert(decode(text) =~= expected);
}

/// An empty text holds no identifier.
pub proof fn lemma_decode_empty()
    ensures
        decode(Seq::<char>::empty()) == Set::<i64>::empty(),
{
    assert(lines(Seq::<char>::empty()).len() == 0);
    assert(decode(Seq::<char>::empty()) =~= Set::<i64>::empty());
}

/// Reading the lines written for `ids` gives exactly the members of `ids`.
pub proof fn lemma_decode_encode(ids: Seq<i64>)
    ensures
        decode(encode(ids)) == ids.to_set(),
    decreases ids.len(),
{
    if ids.len() == 0 {
        lemma_decode_empty();
        assert(ids.to_set() =~= Set::<i64>::empty());
    } else {
        let id = ids[0];
        let number = int_decimal(id as int);
        let rest = encode(ids.drop_first());
        let text = encode(ids);
        let n = number.len() as int;
        lemma_decimal_chars(id as int);
        lemma_parse_i64_decimal(id);
        assert(text == number.push('\n') + rest);
        assert forall|i: int| 0 <= i < n implies text[i] != '\n' by {
            assert(text[i] == number[i]);
        }
        assert(text[n] == '\n');
        lemma_first_line_len(text, n);
        assert(text[n - 1] == number.last());
        assert(first_line(text) =~= number);
        assert(after_first_line(text) =~= rest);
        lemma_decode_step(text);
        lemma_decode_encode(ids.drop_first());
        assert(ids.drop_first().to_set().insert(id) =~= ids.to_set()) by {
            assert forall|x: i64| ids.to_set().contains(x) implies ids.drop_first().to_set().insert(
                id,
            ).contains(x) by {
                let k = choose|k: int| 0 <= k < ids.len() && ids[k] == x;
                if k > 0 {
                    assert(ids.drop_first()[k - 1] == x);
                }
            }
            assert forall|x: i64|
                ids.drop_first().to_set().insert(id).contains(x) implies ids.to_set().contains(
                x,
            ) by {
                if x != id {
                    let tail = ids.drop_first();
                    let k = choose|k: int| 0 <= k < tail.len() && tail[k] == x;
                    assert(ids[k + 1] == x);
                } else {
                    assert(ids[0] == x);
                }
            }
        }
    }
}

/// Decoding undoes encoding: whatever text form of a set is read back, the
/// result is that set.
pub proof fn lemma_round_trip(ids: Set<i64>, text: Seq<char>)
    requires
        is_encoding(ids, text),
    ensures
        decode(text) == ids,
{
    let order = choose|order: Seq<i64>|
        #![trigger encode(order)]
        order.no_duplicates() && order.to_set() == ids && text == encode(order);
    lemma_decode_encode(order);
}

/// Writing one more identifier appends its line.
pub proof fn lemma_encode_push(ids: Seq<i64>, id: i64)
    ensures
        encode(ids.push(id)) == encode(ids) + id_line(id),
    decreases ids.len(),
{
    if ids.len() == 0 {
        let rest = ids.push(id).drop_first();
        assert(rest =~= Seq::<i64>::empty());
        assert(encode(rest) =~= Seq::<char>::empty());
        assert(encode(ids.push(id)) =~= encode(ids) + id_line(id));
    } else {
        assert(ids.push(id).drop_first() =~= ids.drop_first().push(id));
        lemma_encode_push(ids.drop_first(), id);
        assert(encode(ids.push(id)) =~= encode(ids) + id_line(id));
    }
}

/// A set of identifiers.
pub struct IdsSet {
    ids: HashSet<i64>,
}

impl View for IdsSet {
    type V = Set<i64>;

    closed spec fn view(&self) -> Set<i64> {
        self.ids@
    }
}

/// `ids` with the membership of `id` flipped.
pub open spec fn toggled(ids: Set<i64>, id: i64) -> Set<i64> {
    if ids.contains(id) {
        ids.remove(id)
    } else {
        ids.insert(id)
    }
}

/// Flipping the membership of an identifier twice leaves a set as it was,
/// whether the identifier was a member or not.
pub proof fn lemma_toggle_twice(ids: Set<i64>, id: i64)
    ensures
        toggled(toggled(ids, id), id) == ids,
{
    assert(toggled(toggled(ids, id), id) =~= ids);
}

/// Inserting an identifier that is no member and removing it again leaves a
/// set as it was.
pub proof fn lemma_insert_then_remove(ids: Set<i64>, id: i64)
    requires
        !ids.contains(id),
    ensures
        ids.insert(id).remove(id) == ids,
{
    assert(ids.insert(id).remove(id) =~= ids);
}

/// Membership is not counted: however often an identifier that was no
/// member is inserted, removing it once leaves the set as it was at first.
pub proof fn lemma_insert_again_then_remove(ids: Set<i64>, id: i64)
    requires
        !ids.contains(id),
    ensures
        ids.insert(id).insert(id).remove(id) == ids,
{
    assert(ids.insert(id).insert(id).remove(id) =~= ids);
}

/// Inserting a member changes nothing.
pub proof fn lemma_insert_member(ids: Set<i64>, id: i64)
    requires
        ids.contains(id),
    ensures
        ids.insert(id) == ids,
{
    assert(ids.insert(id) =~= ids);
}

impl IdsSet {
    /// The empty set.
    pub fn new() -> (r: Self)
        ensures
            r@ == Set::<i64>::empty(),
    {
        IdsSet { ids: HashSet::new() }
    }

    /// Whether `id` is a member.
    pub fn contains(&self, id: i64) -> (b: bool)
        ensures
            b == self@.contains(id),
    {
        self.ids.contains(&id)
    }

    /// Makes `id` a member; says whether it was not one before.
    pub fn insert(&mut self, id: i64) -> (added: bool)
        ensures
            final(self)@ == old(self)@.insert(id),
            added == !old(self)@.contains(id),
    {
        self.ids.insert(id)
    }

    /// Takes `id` out; says whether it was a member.
    pub fn remove(&mut self, id: i64) -> (removed: bool)
        ensures
            final(self)@ == old(self)@.remove(id),
            removed == old(self)@.contains(id),
    {
        self.ids.remove(&id)
    }

    /// Flips the membership of `id`; says whether it is a member now.
    pub fn toggle(&mut self, id: i64) -> (member: bool)
        ensures
            final(self)@ == toggled(old(self)@, id),
            member == !old(self)@.contains(id),
    {
        if self.ids.contains(&id) {
            self.ids.remove(&id);
            false
        } else {
            self.ids.insert(id);
            true
        }
    }

    /// The members, each once, in no particular order.
    pub fn members(&self) -> (v: Vec<i64>)
        ensures
            v@.no_duplicates(),
            v@.to_set() == self@,
    {
        let mut v: Vec<i64> = Vec::new();
        let ghost order = self.ids.iter().remaining().unref();
        for id in it: self.ids.iter()
            invariant
                order == it.seq().unref(),
                order.no_duplicates(),
                order.to_set() == self.ids@,
                v@ == order.take(it.index()),
        {
            v.push(*id);
        }
        assert(v@ =~= order);
        v
    }
}

impl TextForm for IdsSet {
    open spec fn decoded(text: Seq<char>) -> Set<i64> {
        decode(text)
    }

    open spec fn encodes(value: Set<i64>, text: Seq<char>) -> bool {
        is_encoding(value, text)
    }

    open spec fn initial() -> Set<i64> {
        Set::empty()
    }

    proof fn lemma_decoded_encoding(value: Set<i64>, text: Seq<char>) {
        lemma_round_trip(value, text);
    }

    fn initial_value() -> (r: Self) {
        IdsSet::new()
    }

    /// Reads a set from its text form. Every text is accepted: a line that
    /// does not denote an `i64` is skipped.
    fn from_text(text: &str) -> (r: Self) {
        let chars = chars_of(text);
        let n: usize = chars.len();
        let mut ids: HashSet<i64> = HashSet::new();
        let mut start: usize = 0;
        assert(chars@.skip(0) =~= chars@);
        assert(ids@.union(decode(chars@)) =~= decode(chars@));
        while start < n
            invariant
                start <= n == chars.len(),
                decode(chars@) == ids@.union(decode(chars@.skip(start as int))),
            decreases n - start,
        {
            let ghost rest = chars@.skip(start as int);
            let mut end: usize = start;
            while end < n && chars[end] != '\n'
                invariant
                    start <= end <= n == chars.len(),
                    forall|i: int| start <= i < end ==> chars@[i] != '\n',
                decreases n - end,
            {
                end += 1;
            }
            let stop: usize = if start < end && end < n && chars[end - 1] == '\r' {
                end - 1
            } else {
                end
            };
            let next: usize = if end < n {
                end + 1
            } else {
                end
            };
            proof {
                lemma_first_line_len(rest, end - start);
                assert(first_line(rest) =~= chars@.subrange(start as int, stop as int));
                assert(after_first_line(rest) =~= chars@.skip(next as int));
                lemma_decode_step(rest);
            }
            match parse_range(&chars, start, stop) {
                Some(id) => {
                    ids.insert(id);
                },
                None => {},
            }
            assert(decode(chars@) =~= ids@.union(decode(chars@.skip(next as int))));
            start = next;
        }
        proof {
            assert(chars@.skip(start as int) =~= Seq::<char>::empty());
            lemma_decode_empty();
            assert(ids@.union(Set::<i64>::empty()) =~= ids@);
        }
        IdsSet { ids }
    }

    /// Writes the set as text: each member on a line of its own, in no
    /// particular order. Reading the text back gives the same set.
    fn to_text(&self) -> (text: String)
        ensures
            decode(text@) == self@,
    {
        let order = self.members();
        let mut text = String::new();
        let mut i: usize = 0;
        assert(order@.take(0) =~= Seq::<i64>::empty());
        while i < order.len()
            invariant
                i <= order.len(),
                text@ == encode(order@.take(i as int)),
            decreases order.len() - i,
        {
            let ghost before = text@;
            append_i64(&mut text, order[i]);
            proof {
                reveal_strlit("\n");
            }
            text.append("\n");
            proof {
                lemma_encode_push(order@.take(i as int), order@[i as int]);
                assert(order@.take(i + 1) =~= order@.take(i as int).push(order@[i as int]));
                assert(text@ =~= before + id_line(order@[i as int]));
            }
            i += 1;
        }
        proof {
            assert(order@.take(i as int) =~= order@);
            lemma_decode_encode(order@);
        }
        text
    }
}

/// Whether `text` holds a text form of `ids`.
pub open spec fn encodes_as(ids: Set<i64>, text: String) -> bool {
    is_encoding(ids, text@)
}

impl From<String> for IdsSet {
    /// Reads a set from its text form, as `from_text` does.
    fn from(string: String) -> (r: IdsSet)
        ensures
            r@ == decode(string@),
    {
        IdsSet::from_text(string.as_str())
    }
}

impl vstd::std_specs::convert::FromSpecImpl<String> for IdsSet {
    open spec fn obeys_from_spec() -> bool {
        false
    }

    open spec fn from_spec(string: String) -> IdsSet {
        arbitrary()
    }
}

impl Into<String> for IdsSet {
    /// Writes the set as text, as `to_text` does.
    fn into(self) -> (text: String)
        ensures
            encodes_as(self@, text),
    {
        self.to_text()
    }
}

impl vstd::std_specs::convert::IntoSpecImpl<String> for IdsSet {
    open spec fn obeys_into_spec() -> bool {
        false
    }

    open spec fn into_spec(self) -> String {
        arbitrary()
    }
}

impl Default for IdsSet {
    fn default() -> (r: Self)
        ensures
            r@ == Set::<i64>::empty(),
    {
        IdsSet::new()
    }
}

impl Clone for IdsSet {
    fn clone(&self) -> (r: Self)
        ensures
            r@ == self@,
    {
        let order = self.members();
        let mut ids: HashSet<i64> = HashSet::new();
        let mut i: usize = 0;
        while i < order.len()
            invariant
                i <= order.len(),
                ids@ == order@.take(i as int).to_set(),
            decreases order.len() - i,
        {
            ids.insert(order[i]);
            assert(order@.take(i + 1) =~= order@.take(i as int).push(order@[i as int]));
            proof {
                order@.take(i as int).lemma_push_to_set_commute(order@[i as int]);
            }
            i += 1;
        }
        assert(order@.take(i as int) =~= order@);
        IdsSet { ids }
    }
}

} // verus!
