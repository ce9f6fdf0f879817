//! The manufacturer histogram: how many devices each manufacturer made.

use vstd::prelude::*;
use vstd::utf8::{encode_utf8, encode_utf8_decode_utf8};
use crate::devices::{DeviceList, DeviceModel};

verus! {

/// Whether `a` comes before `b` when the two are compared octet by octet: at
/// the first place where they differ `a` has the smaller octet, or `a` ends
/// there and `b` goes on.
pub open spec fn octets_before(a: Seq<u8>, b: Seq<u8>) -> bool
    decreases a.len(),
{
    if b.len() == 0 {
        false
    } else if a.len() == 0 {
        true
    } else if a[0] != b[0] {
        a[0] < b[0]
    } else {
        octets_before(a.drop_first(), b.drop_first())
    }
}

/// Whether the name `a` comes before the name `b`: the order of strings, by
/// the octets of their UTF-8 form.
pub open spec fn name_before(a: Seq<char>, b: Seq<char>) -> bool {
    octets_before(encode_utf8(a), encode_utf8(b))
}

/// Whether the bar `a` stands before the bar `b`: the higher count first,
/// and of two equal counts the name that comes first.
pub open spec fn bar_before(a: (Seq<char>, u64), b: (Seq<char>, u64)) -> bool {
    a.1 > b.1 || (a.1 == b.1 && name_before(a.0, b.0))
}

/// Whether the bars stand in their order.
pub open spec fn in_order(bars: Seq<(Seq<char>, u64)>) -> bool {
    forall|i: int, j: int|
        0 <= i < j < bars.len() ==> bar_before(#[trigger] bars[i], #[trigger] bars[j])
}

/// Whether the manufacturer of `device` is known and has the short name
/// `name`.
pub open spec fn is_made_by(device: DeviceModel, name: Seq<char>) -> bool {
    match device.manufacturer {
        Some(manufacturer) => manufacturer.name_short == name,
        None => false,
    }
}

/// How many of the devices listed in `order` were made by the manufacturer
/// with the short name `name`.
pub open spec fn made_by(devices: Map<u64, DeviceModel>, order: Seq<u64>, name: Seq<char>) -> nat
    decreases order.len(),
{
    if order.len() == 0 {
        0
    } else {
        made_by(devices, order.drop_last(), name) + if is_made_by(devices[order.last()], name) {
            1nat
        } else {
            0nat
        }
    }
}

/// The bars as plain values: each name as text beside its count.
pub open spec fn bars_of(bars: Seq<(String, u64)>) -> Seq<(Seq<char>, u64)> {
    bars.map_values(|bar: (String, u64)| (bar.0@, bar.1))
}

/// Whether `bars` is the histogram of the devices listed in `order`: each
/// bar counts the devices of its manufacturer, every manufacturer of some
/// device has a bar, and the bars stand in their order. A device whose
/// manufacturer is unknown counts for no bar.
pub open spec fn is_histogram(
    bars: Seq<(Seq<char>, u64)>,
    devices: Map<u64, DeviceModel>,
    order: Seq<u64>,
) -> bool {
    &&& forall|i: int|
        0 <= i < bars.len() ==> (#[trigger] bars[i]).1 > 0 && bars[i].1 == made_by(
            devices,
            order,
            bars[i].0,
        )
    &&& forall|name: Seq<char>| #[trigger]
        made_by(devices, order, name) > 0 ==> exists|i: int|
            0 <= i < bars.len() && (#[trigger] bars[i]).0 == name
    &&& in_order(bars)
}

/// Of two different runs of octets one comes before the other.
pub proof fn lemma_octets_total(a: Seq<u8>, b: Seq<u8>)
    requires
        a != b,
    ensures
        octets_before(a, b) || octets_before(b, a),
    decreases a.len(),
{
    if a.len() == 0 || b.len() == 0 {
        if a.len() == 0 && b.len() == 0 {
            assert(a =~= b);
        }
    } else if a[0] == b[0] {
        if a.drop_first() == b.drop_first() {
            assert(a =~= seq![a[0]] + a.drop_first());
            assert(b =~= seq![b[0]] + b.drop_first());
        }
        lemma_octets_total(a.drop_first(), b.drop_first());
    }
}

/// What comes before something that comes before a third comes before the
/// third.
pub proof fn lemma_octets_transitive(a: Seq<u8>, b: Seq<u8>, c: Seq<u8>)
    requires
        octets_before(a, b),
        octets_before(b, c),
    ensures
        octets_before(a, c),
    decreases a.len(),
{
    if a.len() != 0 && a[0] == b[0] && b[0] == c[0] {
        lemma_octets_transitive(a.drop_first(), b.drop_first(), c.drop_first());
    }
}

/// Nothing comes before itself.
pub proof fn lemma_octets_irreflexive(a: Seq<u8>)
    ensures
        !octets_before(a, a),
    decreases a.len(),
{
    if a.len() != 0 {
        lemma_octets_irreflexive(a.drop_first());
    }
}

/// Of two bars with different names one stands before the other.
pub proof fn lemma_bars_total(a: (Seq<char>, u64), b: (Seq<char>, u64))
    requires
        a.0 != b.0,
    ensures
        bar_before(a, b) || bar_before(b, a),
{
    encode_utf8_decode_utf8(a.0);
    encode_utf8_decode_utf8(b.0);
    lemma_octets_total(encode_utf8(a.0), encode_utf8(b.0));
}

/// The order of bars is transitive.
pub proof fn lemma_bars_transitive(a: (Seq<char>, u64), b: (Seq<char>, u64), c: (Seq<char>, u64))
    requires
        bar_before(a, b),
        bar_before(b, c),
    ensures
        bar_before(a, c),
{
    if a.1 == b.1 && b.1 == c.1 {
        lemma_octets_transitive(encode_utf8(a.0), encode_utf8(b.0), encode_utf8(c.0));
    }
}

/// No manufacturer made more devices than there are.
pub proof fn lemma_made_by_bound(devices: Map<u64, DeviceModel>, order: Seq<u64>, name: Seq<char>)
    ensures
        made_by(devices, order, name) <= order.len(),
    decreases order.len(),
{
    if order.len() != 0 {
        lemma_made_by_bound(devices, order.drop_last(), name);
    }
}

/// Compares two runs of octets as [`octets_before`] says.
pub fn octets_come_before(a: &[u8], b: &[u8]) -> (before: bool)
    ensures
        before == octets_before(a@, b@),
{
    let mut at: usize = 0;
    assert(a@.skip(0) =~= a@ && b@.skip(0) =~= b@);
    while at < a.len() && at < b.len()
        invariant
            at <= a@.len(),
            at <= b@.len(),
            octets_before(a@, b@) == octets_before(a@.skip(at as int), b@.skip(at as int)),
        decreases a@.len() - at,
    {
        if a[at] != b[at] {
            return a[at] < b[at];
        }
        assert(a@.skip(at as int).drop_first() =~= a@.skip(at + 1));
        assert(b@.skip(at as int).drop_first() =~= b@.skip(at + 1));
        at += 1;
    }
    at < b.len()
}

/// Compares two bars as [`bar_before`] says.
pub fn bar_comes_before(name: &String, count: u64, other_name: &String, other_count: u64) -> (before:
    bool)
    ensures
        before == bar_before((name@, count), (other_name@, other_count)),
{
    count > other_count || (count == other_count && octets_come_before(
        name.as_str().as_bytes(),
        other_name.as_str().as_bytes(),
    ))
}

/// The texts of a run of names.
pub open spec fn texts_of(names: Seq<String>) -> Seq<Seq<char>> {
    names.map_values(|name: String| name@)
}

/// Whether `names` and `counts` tally the devices listed in `order`: the
/// names differ from one another, each has the count of the devices of its
/// manufacturer, and every manufacturer of some device is among them.
pub open spec fn is_tally(
    names: Seq<Seq<char>>,
    counts: Seq<u64>,
    devices: Map<u64, DeviceModel>,
    order: Seq<u64>,
) -> bool {
    &&& names.len() == counts.len()
    &&& names.no_duplicates()
    &&& forall|i: int|
        0 <= i < names.len() ==> (#[trigger] counts[i]) > 0 && counts[i] == made_by(
            devices,
            order,
            names[i],
        )
    &&& forall|name: Seq<char>| #[trigger]
        made_by(devices, order, name) > 0 ==> names.contains(name)
}

/// Whether `bar` is one of the names with its count.
pub open spec fn is_pair(bar: (Seq<char>, u64), names: Seq<Seq<char>>, counts: Seq<u64>) -> bool {
    exists|i: int| 0 <= i < names.len() && #[trigger] names[i] == bar.0 && counts[i] == bar.1
}

/// Whether `bars` holds the pairs of `names` and `counts`, and nothing else,
/// in the order of bars.
pub open spec fn is_arrangement(
    bars: Seq<(Seq<char>, u64)>,
    names: Seq<Seq<char>>,
    counts: Seq<u64>,
) -> bool {
    &&& forall|j: int| 0 <= j < bars.len() ==> is_pair(#[trigger] bars[j], names, counts)
    &&& forall|i: int| 0 <= i < names.len() ==> bars.contains((#[trigger] names[i], counts[i]))
    &&& in_order(bars)
}

/// A bar with a new name, put where the bars before it do not come after it
/// and the bar behind it does, leaves the bars arranged.
pub proof fn lemma_insert_bar(
    bars: Seq<(Seq<char>, u64)>,
    names: Seq<Seq<char>>,
    counts: Seq<u64>,
    bar: (Seq<char>, u64),
    at: int,
)
    requires
        names.len() == counts.len(),
        is_arrangement(bars, names, counts),
        !names.contains(bar.0),
        0 <= at <= bars.len(),
        forall|j: int| 0 <= j < at ==> !bar_before(bar, #[trigger] bars[j]),
        at < bars.len() ==> bar_before(bar, bars[at]),
    ensures
        is_arrangement(bars.insert(at, bar), names.push(bar.0), counts.push(bar.1)),
{
    let new_bars = bars.insert(at, bar);
    let new_names = names.push(bar.0);
    let new_counts = counts.push(bar.1);
    assert forall|j: int| 0 <= j < bars.len() implies (#[trigger] bars[j]).0 != bar.0 by {
        assert(is_pair(bars[j], names, counts));
    }
    assert forall|j: int| 0 <= j < new_bars.len() implies is_pair(
        #[trigger] new_bars[j],
        new_names,
        new_counts,
    ) by {
        if j == at {
            assert(new_names[names.len() as int] == bar.0);
        } else {
            let before = if j < at { j } else { j - 1 };
            assert(new_bars[j] == bars[before]);
            assert(is_pair(bars[before], names, counts));
            let i = choose|i: int|
                0 <= i < names.len() && #[trigger] names[i] == bars[before].0 && counts[i]
                    == bars[before].1;
            assert(new_names[i] == names[i]);
        }
    }
    assert forall|i: int| 0 <= i < new_names.len() implies new_bars.contains(
        (#[trigger] new_names[i], new_counts[i]),
    ) by {
        if i == names.len() {
            assert(new_bars[at] == bar);
        } else {
            assert(bars.contains((names[i], counts[i])));
            let before = choose|j: int| 0 <= j < bars.len() && bars[j] == (names[i], counts[i]);
            let j = if before < at { before } else { before + 1 };
            assert(new_bars[j] == bars[before]);
        }
    }
    assert forall|i: int, j: int| 0 <= i < j < new_bars.len() implies bar_before(
        #[trigger] new_bars[i],
        #[trigger] new_bars[j],
    ) by {
        if j == at {
            assert(new_bars[i] == bars[i]);
            lemma_bars_total(bar, bars[i]);
        } else if i == at {
            assert(new_bars[j] == bars[j - 1]);
            if j - 1 > at {
                assert(bar_before(bars[at], bars[j - 1]));
                lemma_bars_transitive(bar, bars[at], bars[j - 1]);
            }
        } else {
            let before_i = if i < at { i } else { i - 1 };
            let before_j = if j < at { j } else { j - 1 };
            assert(new_bars[i] == bars[before_i]);
            assert(new_bars[j] == bars[before_j]);
        }
    }
}

/// Where `name` stands among `names`, or their number if it does not.
pub fn position(names: &Vec<String>, name: &String) -> (at: usize)
    ensures
        at <= names@.len(),
        at < names@.len() ==> names@[at as int]@ == name@,
        forall|i: int| 0 <= i < at ==> (#[trigger] names@[i])@ != name@,
{
    let mut at: usize = 0;
    while at < names.len()
        invariant
            at <= names@.len(),
            forall|i: int| 0 <= i < at ==> (#[trigger] names@[i])@ != name@,
        decreases names@.len() - at,
    {
        if names[at] == *name {
            return at;
        }
        at += 1;
    }
    at
}

/// Counts the devices of each manufacturer.
pub fn tally(devices: &DeviceList) -> (result: (Vec<String>, Vec<u64>))
    requires
        devices.wf(),
    ensures
        is_tally(texts_of(result.0@), result.1@, devices@, devices.order()),
{
    let mut names: Vec<String> = Vec::new();
    let mut counts: Vec<u64> = Vec::new();
    let ghost order = devices.order();
    let mut done: usize = 0;
    proof {
        devices.lemma_order();
    }
    while done < devices.len()
        invariant
            devices.wf(),
            order == devices.order(),
            done <= order.len(),
            forall|key: u64| devices@.contains_key(key) <==> order.contains(key),
            is_tally(texts_of(names@), counts@, devices@, order.take(done as int)),
        decreases order.len() - done,
    {
        let ghost seen = order.take(done as int);
        let ghost next = order.take(done + 1);
        let ghost before = texts_of(names@);
        let ghost counted = counts@;
        let address = devices.address_at(done);
        assert(next.drop_last() =~= seen);
        assert(next.last() == order[done as int]);
        assert(order.contains(order[done as int]));
        let maker = match devices.get(&address) {
            Some(device) => device.manufacturer(),
            None => &None,
        };
        match maker {
            Some(manufacturer) => {
                let ghost name = manufacturer.name_short@;
                assert(is_made_by(devices@[order[done as int]], name));
                let at = position(&names, &manufacturer.name_short);
                if at < names.len() {
                    proof {
                        lemma_made_by_bound(devices@, seen, name);
                    }
                    let count = counts[at];
                    counts[at] = count + 1;
                    assert forall|i: int| 0 <= i < before.len() implies (#[trigger] counts@[i]) > 0
                        && counts@[i] == made_by(devices@, next, before[i]) by {
                        assert(counted[i] == made_by(devices@, seen, before[i]));
                        if i != at {
                            assert(before[i] != before[at as int]);
                        }
                    }
                    assert forall|other: Seq<char>| #[trigger]
                        made_by(devices@, next, other) > 0 implies before.contains(other) by {
                        if other == name {
                            assert(before[at as int] == name);
                        } else {
                            assert(made_by(devices@, seen, other) > 0);
                        }
                    }
                } else {
                    assert(!before.contains(name));
                    assert(made_by(devices@, seen, name) == 0);
                    names.push(manufacturer.name_short.clone());
                    counts.push(1);
                    let ghost after = texts_of(names@);
                    assert(after =~= before.push(name));
                    assert forall|i: int| 0 <= i < after.len() implies (#[trigger] counts@[i]) > 0
                        && counts@[i] == made_by(devices@, next, after[i]) by {
                        if i < before.len() {
                            assert(counted[i] == made_by(devices@, seen, before[i]));
                            assert(before.contains(before[i]));
                        }
                    }
                    assert forall|other: Seq<char>| #[trigger]
                        made_by(devices@, next, other) > 0 implies after.contains(other) by {
                        if other == name {
                            assert(after[before.len() as int] == name);
                        } else {
                            assert(made_by(devices@, seen, other) > 0);
                            let i = choose|i: int| 0 <= i < before.len() && before[i] == other;
                            assert(after[i] == other);
                        }
                    }
                    assert forall|i: int, j: int|
                        0 <= i < after.len() && 0 <= j < after.len() && i != j implies after[i]
                        != after[j] by {
                        if i < before.len() {
                            assert(before.contains(before[i]));
                        }
                        if j < before.len() {
                            assert(before.contains(before[j]));
                        }
                    }
                }
            },
            None => {
                assert forall|other: Seq<char>|
                    made_by(devices@, next, other) == made_by(devices@, seen, other) by {
                    assert(!is_made_by(devices@[order[done as int]], other));
                }
                assert forall|i: int| 0 <= i < before.len() implies (#[trigger] counts@[i]) > 0
                    && counts@[i] == made_by(devices@, next, before[i]) by {
                    assert(counted[i] == made_by(devices@, seen, before[i]));
                }
            },
        }
        done += 1;
    }
    assert(order.take(done as int) =~= order);
    (names, counts)
}

/// Puts the tallied names and counts into the order of bars.
pub fn arrange(names: &Vec<String>, counts: &Vec<u64>) -> (bars: Vec<(String, u64)>)
    requires
        names@.len() == counts@.len(),
        texts_of(names@).no_duplicates(),
    ensures
        is_arrangement(bars_of(bars@), texts_of(names@), counts@),
{
    let ghost texts = texts_of(names@);
    let mut bars: Vec<(String, u64)> = Vec::new();
    let mut done: usize = 0;
    while done < names.len()
        invariant
            done <= names@.len(),
            names@.len() == counts@.len(),
            texts == texts_of(names@),
            texts.no_duplicates(),
            is_arrangement(bars_of(bars@), texts.take(done as int), counts@.take(done as int)),
        decreases names@.len() - done,
    {
        let ghost old_bars = bars_of(bars@);
        let ghost bar = (texts[done as int], counts@[done as int]);
        let name = &names[done];
        let count = counts[done];
        let mut at: usize = 0;
        while at < bars.len() && !bar_comes_before(name, count, &bars[at].0, bars[at].1)
            invariant
                at <= bars@.len(),
                old_bars == bars_of(bars@),
                bar == (name@, count),
                forall|j: int| 0 <= j < at ==> !bar_before(bar, #[trigger] old_bars[j]),
            decreases bars@.len() - at,
        {
            at += 1;
        }
        bars.insert(at, (name.clone(), count));
        proof {
            let seen = texts.take(done as int);
            assert(bars_of(bars@) =~= old_bars.insert(at as int, bar));
            assert(texts.take(done + 1) =~= seen.push(bar.0));
            assert(counts@.take(done + 1) =~= counts@.take(done as int).push(bar.1));
            assert(!seen.contains(bar.0)) by {
                if seen.contains(bar.0) {
                    let i = choose|i: int| 0 <= i < seen.len() && seen[i] == bar.0;
                    assert(texts[i] == texts[done as int]);
                }
            }
            lemma_insert_bar(old_bars, seen, counts@.take(done as int), bar, at as int);
        }
        done += 1;
    }
    assert(texts.take(done as int) =~= texts);
    assert(counts@.take(done as int) =~= counts@);
    bars
}

impl DeviceList {
    /// The manufacturer histogram: for each manufacturer that made one of
    /// the devices, its short name and the number of devices it made. The
    /// bar with the higher count comes first, and of two bars with the same
    /// count the one whose name comes first. Devices whose manufacturer is
    /// unknown are left out.
    pub fn bar_data(&self) -> (bars: Vec<(String, u64)>)
        requires
            self.wf(),
        ensures
            is_histogram(bars_of(bars@), self@, self.order()),
    {
        let (names, counts) = tally(self);
        let bars = arrange(&names, &counts);
        proof {
            let texts = texts_of(names@);
            let shown = bars_of(bars@);
            assert forall|j: int| 0 <= j < shown.len() implies (#[trigger] shown[j]).1 > 0
                && shown[j].1 == made_by(self@, self.order(), shown[j].0) by {
                assert(is_pair(shown[j], texts, counts@));
                let i = choose|i: int|
                    0 <= i < texts.len() && #[trigger] texts[i] == shown[j].0 && counts@[i]
                        == shown[j].1;
                assert(counts@[i] > 0);
            }
            assert forall|name: Seq<char>| #[trigger]
                made_by(self@, self.order(), name) > 0 implies exists|j: int|
                0 <= j < shown.len() && (#[trigger] shown[j]).0 == name by {
                assert(texts.contains(name));
                let i = choose|i: int| 0 <= i < texts.len() && texts[i] == name;
                assert(shown.contains((texts[i], counts@[i])));
                let j = choose|j: int| 0 <= j < shown.len() && shown[j] == (texts[i], counts@[i]);
                assert(shown[j].0 == name);
            }
        }
        bars
    }
}

/// Of two bars at most one stands before the other, and none before itself.
pub proof fn lemma_bars_asymmetric(a: (Seq<char>, u64), b: (Seq<char>, u64))
    requires
        bar_before(a, b),
    ensures
        !bar_before(b, a),
{
    if a.1 == b.1 && name_before(b.0, a.0) {
        lemma_octets_transitive(encode_utf8(a.0), encode_utf8(b.0), encode_utf8(a.0));
        lemma_octets_irreflexive(encode_utf8(a.0));
    }
}

/// Two runs of bars, each in order, that hold the same bars are the same run.
pub proof fn lemma_order_fixes_the_run(a: Seq<(Seq<char>, u64)>, b: Seq<(Seq<char>, u64)>)
    requires
        in_order(a),
        in_order(b),
        forall|i: int| 0 <= i < a.len() ==> b.contains(#[trigger] a[i]),
        forall|j: int| 0 <= j < b.len() ==> a.contains(#[trigger] b[j]),
    ensures
        a == b,
    decreases a.len(),
{
    if a.len() == 0 {
        if b.len() > 0 {
            assert(a.contains(b[0]));
        }
        assert(a =~= b);
    } else {
        assert(b.contains(a[0]));
        let j = choose|j: int| 0 <= j < b.len() && b[j] == a[0];
        assert(a.contains(b[0]));
        let i = choose|i: int| 0 <= i < a.len() && a[i] == b[0];
        if i > 0 && j > 0 {
            assert(bar_before(a[0], a[i]));
            assert(bar_before(b[0], b[j]));
            lemma_bars_asymmetric(a[0], a[i]);
        }
        assert(a[0] == b[0]);
        let a_tail = a.drop_first();
        let b_tail = b.drop_first();
        assert forall|k: int| 0 <= k < a_tail.len() implies b_tail.contains(
            #[trigger] a_tail[k],
        ) by {
            assert(a_tail[k] == a[k + 1]);
            assert(b.contains(a[k + 1]));
            let m = choose|m: int| 0 <= m < b.len() && b[m] == a[k + 1];
            if m == 0 {
                assert(bar_before(a[0], a[k + 1]));
                lemma_bars_asymmetric(a[0], a[k + 1]);
            }
            assert(b_tail[m - 1] == a_tail[k]);
        }
        assert forall|k: int| 0 <= k < b_tail.len() implies a_tail.contains(
            #[trigger] b_tail[k],
        ) by {
            assert(b_tail[k] == b[k + 1]);
            assert(a.contains(b[k + 1]));
            let m = choose|m: int| 0 <= m < a.len() && a[m] == b[k + 1];
            if m == 0 {
                assert(bar_before(b[0], b[k + 1]));
                lemma_bars_asymmetric(b[0], b[k + 1]);
            }
            assert(a_tail[m - 1] == b_tail[k]);
        }
        assert forall|i: int, j: int| 0 <= i < j < a_tail.len() implies bar_before(
            #[trigger] a_tail[i],
            #[trigger] a_tail[j],
        ) by {
            assert(bar_before(a[i + 1], a[j + 1]));
        }
        assert forall|i: int, j: int| 0 <= i < j < b_tail.len() implies bar_before(
            #[trigger] b_tail[i],
            #[trigger] b_tail[j],
        ) by {
            assert(bar_before(b[i + 1], b[j + 1]));
        }
        lemma_order_fixes_the_run(a_tail, b_tail);
        assert(a =~= seq![a[0]] + a_tail);
        assert(b =~= seq![b[0]] + b_tail);
    }
}

/// Taking one address out of a list lowers a manufacturer's count by one if
/// the device at that address is the manufacturer's, and not at all
/// otherwise.
pub proof fn lemma_made_by_without(
    devices: Map<u64, DeviceModel>,
    order: Seq<u64>,
    at: int,
    name: Seq<char>,
)
    requires
        0 <= at < order.len(),
    ensures
        made_by(devices, order, name) == made_by(devices, order.remove(at), name) + if is_made_by(
            devices[order[at]],
            name,
        ) {
            1nat
        } else {
            0nat
        },
    decreases order.len(),
{
    if at == order.len() - 1 {
        assert(order.remove(at) =~= order.drop_last());
    } else {
        lemma_made_by_without(devices, order.drop_last(), at, name);
        assert(order.drop_last().remove(at) =~= order.remove(at).drop_last());
        assert(order.remove(at).last() == order.last());
    }
}

/// A manufacturer's count depends on which addresses are listed and not on
/// the order in which they are.
pub proof fn lemma_made_by_ignores_order(
    devices: Map<u64, DeviceModel>,
    first: Seq<u64>,
    second: Seq<u64>,
    name: Seq<char>,
)
    requires
        first.no_duplicates(),
        second.no_duplicates(),
        forall|key: u64| first.contains(key) <==> second.contains(key),
    ensures
        made_by(devices, first, name) == made_by(devices, second, name),
    decreases first.len(),
{
    if first.len() == 0 {
        if second.len() > 0 {
            assert(second.contains(second[0]));
        }
    } else {
        let last = first.last();
        assert(first.contains(last));
        let at = choose|at: int| 0 <= at < second.len() && second[at] == last;
        let first_rest = first.drop_last();
        let second_rest = second.remove(at);
        assert forall|key: u64| first_rest.contains(key) <==> second_rest.contains(key) by {
            if first_rest.contains(key) {
                let i = choose|i: int| 0 <= i < first_rest.len() && first_rest[i] == key;
                assert(first[i] == key);
                assert(first.contains(key));
                let j = choose|j: int| 0 <= j < second.len() && second[j] == key;
                assert(j != at);
                let moved = if j < at { j } else { j - 1 };
                assert(second_rest[moved] == key);
            }
            if second_rest.contains(key) {
                let j = choose|j: int| 0 <= j < second_rest.len() && second_rest[j] == key;
                let back = if j < at { j } else { j + 1 };
                assert(second[back] == key);
                assert(second.contains(key));
                let i = choose|i: int| 0 <= i < first.len() && first[i] == key;
                assert(i != first.len() - 1);
                assert(first_rest[i] == key);
            }
        }
        assert forall|i: int, j: int|
            0 <= i < second_rest.len() && 0 <= j < second_rest.len() && i != j implies second_rest[i]
            != second_rest[j] by {
            let back_i = if i < at { i } else { i + 1 };
            let back_j = if j < at { j } else { j + 1 };
            assert(second_rest[i] == second[back_i]);
            assert(second_rest[j] == second[back_j]);
        }
        lemma_made_by_ignores_order(devices, first_rest, second_rest, name);
        lemma_made_by_without(devices, second, at, name);
    }
}

/// The histogram is a function of the records alone: two histograms of the
/// same devices are the same bars in the same order, in whatever order the
/// devices are listed.
pub proof fn lemma_histogram_is_unique(
    first_bars: Seq<(Seq<char>, u64)>,
    first_order: Seq<u64>,
    second_bars: Seq<(Seq<char>, u64)>,
    second_order: Seq<u64>,
    devices: Map<u64, DeviceModel>,
)
    requires
        is_histogram(first_bars, devices, first_order),
        is_histogram(second_bars, devices, second_order),
        first_order.no_duplicates(),
        second_order.no_duplicates(),
        forall|key: u64| first_order.contains(key) <==> second_order.contains(key),
    ensures
        first_bars == second_bars,
{
    assert forall|name: Seq<char>|
        made_by(devices, first_order, name) == made_by(devices, second_order, name) by {
        lemma_made_by_ignores_order(devices, first_order, second_order, name);
    }
    assert forall|i: int| 0 <= i < first_bars.len() implies second_bars.contains(
        #[trigger] first_bars[i],
    ) by {
        let name = first_bars[i].0;
        assert(made_by(devices, second_order, name) > 0);
        let j = choose|j: int| 0 <= j < second_bars.len() && (#[trigger] second_bars[j]).0 == name;
        assert(second_bars[j] == first_bars[i]);
    }
    assert forall|j: int| 0 <= j < second_bars.len() implies first_bars.contains(
        #[trigger] second_bars[j],
    ) by {
        let name = second_bars[j].0;
        assert(made_by(devices, first_order, name) > 0);
        let i = choose|i: int| 0 <= i < first_bars.len() && (#[trigger] first_bars[i]).0 == name;
        assert(first_bars[i] == second_bars[j]);
    }
    lemma_order_fixes_the_run(first_bars, second_bars);
}

/// Two registries that hold the same records have the same histogram,
/// whichever of their devices was seen first.
pub proof fn lemma_same_records_same_bars(
    first: &DeviceList,
    first_bars: Seq<(Seq<char>, u64)>,
    second: &DeviceList,
    second_bars: Seq<(Seq<char>, u64)>,
)
    requires
        first.wf(),
        second.wf(),
        first@ == second@,
        is_histogram(first_bars, first@, first.order()),
        is_histogram(second_bars, second@, second.order()),
    ensures
        first_bars == second_bars,
{
    first.lemma_order();
    second.lemma_order();
    lemma_histogram_is_unique(first_bars, first.order(), second_bars, second.order(), first@);
}

} // verus!
