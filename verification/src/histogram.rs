//! How often inputs were rejected, by the place of the rejection.

use vstd::prelude::*;
use vstd::string::*;
use crate::decimal::{decimal, push_decimal};
use crate::order::{
    ascending, before, lemma_ascending_distinct, lemma_before_irreflexive,
    lemma_before_transitive, rank, Rank,
};
use crate::text::{chars_of, push_word};

verus! {

/// The counts that a list of labels with their counts stands for.
pub open spec fn counts_of(labels: Seq<Seq<char>>, counts: Seq<u32>) -> Map<Seq<char>, nat>
    recommends
        labels.len() == counts.len(),
    decreases labels.len(),
{
    if labels.len() == 0 || counts.len() == 0 {
        Map::empty()
    } else {
        counts_of(labels.drop_last(), counts.drop_last()).insert(
            labels.last(),
            counts.last() as nat,
        )
    }
}

/// The sum of a list of counts.
pub open spec fn sum_of(counts: Seq<u32>) -> nat
    decreases counts.len(),
{
    if counts.len() == 0 {
        0
    } else {
        sum_of(counts.drop_last()) + counts.last() as nat
    }
}

/// The lines that list each label with its count, in the order of the list.
pub open spec fn listing(labels: Seq<Seq<char>>, counts: Seq<u32>) -> Seq<char>
    decreases labels.len(),
{
    if labels.len() == 0 || counts.len() == 0 {
        Seq::empty()
    } else {
        listing(labels.drop_last(), counts.drop_last()) + "\t\t"@ + decimal(counts.last() as nat)
            + " times at "@ + labels.last() + "\n"@
    }
}

/// Whether no label occurs twice.
pub open spec fn distinct(labels: Seq<Seq<char>>) -> bool {
    forall|i: int, j: int| 0 <= i < j < labels.len() ==> labels[i] != labels[j]
}

/// The labels of a map made by `counts_of` are the labels of the list, and
/// where no label occurs twice each one has the count that stands beside it.
pub proof fn lemma_counts_of(labels: Seq<Seq<char>>, counts: Seq<u32>)
    requires
        labels.len() == counts.len(),
    ensures
        forall|k: Seq<char>| #[trigger]
            counts_of(labels, counts).dom().contains(k) <==> labels.contains(k),
        distinct(labels) ==> forall|i: int|
            0 <= i < labels.len() ==> counts_of(labels, counts)[#[trigger] labels[i]]
                == counts[i] as nat,
    decreases labels.len(),
{
    if labels.len() > 0 {
        let front = labels.drop_last();
        lemma_counts_of(front, counts.drop_last());
        let m = counts_of(front, counts.drop_last());
        assert(counts_of(labels, counts) == m.insert(labels.last(), counts.last() as nat));
        assert forall|k: Seq<char>| #[trigger]
            counts_of(labels, counts).dom().contains(k) <==> labels.contains(k) by {
            assert(m.dom().contains(k) <==> front.contains(k));
            if labels.contains(k) {
                let i = choose|i: int| 0 <= i < labels.len() && labels[i] == k;
                if i < front.len() {
                    assert(front[i] == k);
                    assert(front.contains(k));
                }
            }
            if front.contains(k) {
                let i = choose|i: int| 0 <= i < front.len() && front[i] == k;
                assert(labels[i] == k);
            }
            if k == labels.last() {
                assert(labels[labels.len() - 1] == k);
            }
        }
        if distinct(labels) {
            assert(distinct(front)) by {
                assert forall|i: int, j: int| 0 <= i < j < front.len() implies front[i]
                    != front[j] by {
                    assert(labels[i] != labels[j]);
                }
            }
            assert forall|i: int| 0 <= i < labels.len() implies counts_of(
                labels,
                counts,
            )[#[trigger] labels[i]] == counts[i] as nat by {
                if i < front.len() {
                    assert(labels[i] != labels[labels.len() - 1]);
                    assert(front[i] == labels[i]);
                    assert(m[front[i]] == counts.drop_last()[i] as nat);
                }
            }
        }
    }
}

/// No count of a list is larger than the sum of the list.
pub proof fn lemma_sum_bounds(counts: Seq<u32>, i: int)
    requires
        0 <= i < counts.len(),
    ensures
        counts[i] as nat <= sum_of(counts),
    decreases counts.len(),
{
    if i < counts.len() - 1 {
        lemma_sum_bounds(counts.drop_last(), i);
    }
}

/// Raising one count of a list by one raises the sum by one.
pub proof fn lemma_sum_update(counts: Seq<u32>, i: int, c: u32)
    requires
        0 <= i < counts.len(),
    ensures
        sum_of(counts.update(i, c)) == sum_of(counts) - counts[i] + c,
    decreases counts.len(),
{
    let after = counts.update(i, c);
    if i < counts.len() - 1 {
        lemma_sum_update(counts.drop_last(), i, c);
        assert(after.drop_last() =~= counts.drop_last().update(i, c));
    } else {
        assert(after.drop_last() =~= counts.drop_last());
    }
}

/// Replacing the count that stands beside a label replaces it in the map.
pub proof fn lemma_counts_update(labels: Seq<Seq<char>>, counts: Seq<u32>, i: int, c: u32)
    requires
        labels.len() == counts.len(),
        distinct(labels),
        0 <= i < labels.len(),
    ensures
        counts_of(labels, counts.update(i, c)) == counts_of(labels, counts).insert(
            labels[i],
            c as nat,
        ),
{
    let before = counts_of(labels, counts);
    let after = counts_of(labels, counts.update(i, c));
    lemma_counts_of(labels, counts);
    lemma_counts_of(labels, counts.update(i, c));
    assert forall|k: Seq<char>| #[trigger]
        after.dom().contains(k) == before.insert(labels[i], c as nat).dom().contains(k) by {
        assert(labels.contains(labels[i]));
        assert(before.dom().contains(labels[i]));
        assert(after.dom().contains(k) <==> labels.contains(k));
        assert(before.dom().contains(k) <==> labels.contains(k));
    }
    assert forall|k: Seq<char>| #[trigger] after.dom().contains(k) implies after[k]
        == before.insert(labels[i], c as nat)[k] by {
        assert(labels.contains(k));
        let j = choose|j: int| 0 <= j < labels.len() && labels[j] == k;
        assert(0 <= j < labels.len() && labels[j] == k);
        assert(after[labels[j]] == counts.update(i, c)[j] as nat);
        assert(before[labels[j]] == counts[j] as nat);
        if j != i {
            assert(labels[j] != labels[i]);
        }
    }
    assert(after =~= before.insert(labels[i], c as nat));
}

/// Putting a count into a list raises the sum by that count.
pub proof fn lemma_sum_insert(counts: Seq<u32>, i: int, c: u32)
    requires
        0 <= i <= counts.len(),
    ensures
        sum_of(counts.insert(i, c)) == sum_of(counts) + c,
    decreases counts.len(),
{
    let after = counts.insert(i, c);
    if i == counts.len() {
        assert(after.drop_last() =~= counts);
    } else {
        lemma_sum_insert(counts.drop_last(), i, c);
        assert(after.drop_last() =~= counts.drop_last().insert(i, c));
        assert(after.last() == counts.last());
    }
}

/// Putting a new label with its count into a list puts it into the map.
pub proof fn lemma_counts_insert(
    labels: Seq<Seq<char>>,
    counts: Seq<u32>,
    i: int,
    label: Seq<char>,
    c: u32,
)
    requires
        labels.len() == counts.len(),
        distinct(labels),
        !labels.contains(label),
        0 <= i <= labels.len(),
    ensures
        distinct(labels.insert(i, label)),
        counts_of(labels.insert(i, label), counts.insert(i, c)) == counts_of(
            labels,
            counts,
        ).insert(label, c as nat),
{
    let labels2 = labels.insert(i, label);
    let counts2 = counts.insert(i, c);
    let before = counts_of(labels, counts);
    let after = counts_of(labels2, counts2);
    assert(distinct(labels2)) by {
        assert forall|a: int, b: int| 0 <= a < b < labels2.len() implies labels2[a]
            != labels2[b] by {
            let a0 = if a < i {
                a
            } else {
                a - 1
            };
            let b0 = if b < i {
                b
            } else {
                b - 1
            };
            if a == i {
                assert(labels.contains(labels[b0]));
            } else if b == i {
                assert(labels.contains(labels[a0]));
            } else {
                assert(labels[a0] != labels[b0]);
            }
        }
    }
    lemma_counts_of(labels, counts);
    lemma_counts_of(labels2, counts2);
    assert(labels2[i] == label);
    assert forall|k: Seq<char>| #[trigger]
        after.dom().contains(k) == before.insert(label, c as nat).dom().contains(k) by {
        assert(after.dom().contains(k) <==> labels2.contains(k));
        assert(before.dom().contains(k) <==> labels.contains(k));
        if labels2.contains(k) {
            let j = choose|j: int| 0 <= j < labels2.len() && labels2[j] == k;
            if j < i {
                assert(labels[j] == k);
            } else if j > i {
                assert(labels[j - 1] == k);
            }
        }
        if labels.contains(k) {
            let j = choose|j: int| 0 <= j < labels.len() && labels[j] == k;
            if j < i {
                assert(labels2[j] == k);
            } else {
                assert(labels2[j + 1] == k);
            }
        }
        if k == label {
            assert(labels2.contains(k));
        }
    }
    assert forall|k: Seq<char>| #[trigger] after.dom().contains(k) implies after[k]
        == before.insert(label, c as nat)[k] by {
        assert(labels2.contains(k));
        let j = choose|j: int| 0 <= j < labels2.len() && labels2[j] == k;
        assert(after[labels2[j]] == counts2[j] as nat);
        if j < i {
            assert(labels[j] == k);
            assert(before[labels[j]] == counts[j] as nat);
        } else if j > i {
            assert(labels[j - 1] == k);
            assert(before[labels[j - 1]] == counts[j - 1] as nat);
        }
    }
    assert(after =~= before.insert(label, c as nat));
}

/// A histogram of rejections: for each place where an input was rejected,
/// the number of inputs rejected there. Each place is listed once, and the
/// places are listed in the order of their texts.
#[derive(Clone, Debug)]
pub struct Histogram {
    labels: Vec<String>,
    counts: Vec<u32>,
}

impl View for Histogram {
    type V = Map<Seq<char>, nat>;

    /// The count of each place that is listed.
    closed spec fn view(&self) -> Map<Seq<char>, nat> {
        counts_of(self.places(), self.counts@)
    }
}

impl Histogram {
    /// The places that are listed, in their order.
    pub closed spec fn places(&self) -> Seq<Seq<char>> {
        Seq::new(self.labels@.len(), |i: int| self.labels@[i]@)
    }

    /// The counts, in the order of `places`.
    pub closed spec fn tallies(&self) -> Seq<u32> {
        self.counts@
    }

    /// Whether the histogram is well formed: each place is listed with its
    /// count, and comes before the places that follow it.
    pub closed spec fn wf(&self) -> bool {
        &&& self.labels@.len() == self.counts@.len()
        &&& ascending(self.places())
    }

    /// The number of rejections counted.
    pub open spec fn total(&self) -> nat {
        sum_of(self.tallies())
    }

    /// The number of inputs rejected at `whence`.
    pub open spec fn count(&self, whence: Seq<char>) -> nat {
        if self@.dom().contains(whence) {
            self@[whence]
        } else {
            0
        }
    }

    /// What the list of a well-formed histogram has to do with its view: the
    /// places stand in ascending order, each once and with its count, and
    /// the view gives each place that count.
    pub proof fn lemma_listed(&self)
        requires
            self.wf(),
        ensures
            self.places().len() == self.tallies().len(),
            ascending(self.places()),
            distinct(self.places()),
            self@ == counts_of(self.places(), self.tallies()),
            forall|k: Seq<char>| #[trigger] self@.dom().contains(k) <==> self.places().contains(k),
            forall|i: int|
                0 <= i < self.places().len() ==> self@[#[trigger] self.places()[i]]
                    == self.tallies()[i] as nat,
    {
        lemma_ascending_distinct(self.places());
        lemma_counts_of(self.places(), self.counts@);
    }

    /// A histogram that lists nothing.
    pub fn new() -> (h: Self)
        ensures
            h.wf(),
            h@ == Map::<Seq<char>, nat>::empty(),
            h.total() == 0,
            h.places().len() == 0,
    {
        let h = Histogram { labels: Vec::new(), counts: Vec::new() };
        assert(h.places() =~= Seq::<Seq<char>>::empty());
        h
    }

    /// The number of places listed.
    pub fn len(&self) -> (n: usize)
        requires
            self.wf(),
        ensures
            n == self.places().len(),
            n == self.tallies().len(),
    {
        self.labels.len()
    }

    /// The `i`-th place listed.
    pub fn place(&self, i: usize) -> (whence: &String)
        requires
            self.wf(),
            i < self.places().len(),
        ensures
            whence@ == self.places()[i as int],
    {
        &self.labels[i]
    }

    /// The count of the `i`-th place listed.
    pub fn tally(&self, i: usize) -> (n: u32)
        requires
            self.wf(),
            i < self.places().len(),
        ensures
            n == self.tallies()[i as int],
            n as nat == self.count(self.places()[i as int]),
    {
        proof {
            lemma_ascending_distinct(self.places());
            lemma_counts_of(self.places(), self.counts@);
            assert(self.places().contains(self.places()[i as int]));
        }
        self.counts[i]
    }

    /// The number of inputs rejected at `whence`.
    pub fn get(&self, whence: &String) -> (n: u32)
        requires
            self.wf(),
        ensures
            n as nat == self.count(whence@),
    {
        let mut i: usize = 0;
        while i < self.labels.len()
            invariant
                self.wf(),
                i <= self.labels.len(),
                forall|k: int| 0 <= k < i ==> self.places()[k] != whence@,
            decreases self.labels.len() - i,
        {
            if self.labels[i] == *whence {
                proof {
                    lemma_ascending_distinct(self.places());
                    lemma_counts_of(self.places(), self.counts@);
                    assert(self.places()[i as int] == whence@);
                    assert(self.places().contains(whence@));
                }
                return self.counts[i];
            }
            i += 1;
        }
        proof {
            lemma_counts_of(self.places(), self.counts@);
            assert(!self.places().contains(whence@));
        }
        0
    }

    /// Appends to `out` one line for each place listed, with its count.
    pub fn push_listing(&self, out: &mut Vec<char>)
        requires
            self.wf(),
        ensures
            final(out)@ == old(out)@ + listing(self.places(), self.tallies()),
    {
        let mut i: usize = 0;
        assert(self.places().take(0) =~= Seq::<Seq<char>>::empty());
        while i < self.labels.len()
            invariant
                self.wf(),
                i <= self.labels.len(),
                out@ == old(out)@ + listing(
                    self.places().take(i as int),
                    self.tallies().take(i as int),
                ),
            decreases self.labels.len() - i,
        {
            proof {
                let labels = self.places().take(i + 1);
                let counts = self.tallies().take(i + 1);
                assert(labels.drop_last() =~= self.places().take(i as int));
                assert(counts.drop_last() =~= self.tallies().take(i as int));
                assert(labels.last() == self.labels@[i as int]@);
                assert(counts.last() == self.counts@[i as int]);
            }
            let ghost before = out@;
            push_word(out, "\t\t");
            push_decimal(out, self.counts[i]);
            push_word(out, " times at ");
            push_word(out, self.labels[i].as_str());
            push_word(out, "\n");
            assert(out@ =~= before + "\t\t"@ + decimal(self.counts@[i as int] as nat)
                + " times at "@ + self.labels@[i as int]@ + "\n"@);
            i += 1;
        }
        assert(self.places().take(i as int) =~= self.places());
        assert(self.tallies().take(i as int) =~= self.tallies());
    }

    /// Counts one more input rejected at `whence`.
    pub fn note(&mut self, whence: String)
        requires
            old(self).wf(),
            old(self).total() < u32::MAX,
        ensures
            final(self).wf(),
            final(self)@ == old(self)@.insert(whence@, old(self).count(whence@) + 1),
            final(self).total() == old(self).total() + 1,
    {
        let label = chars_of(whence.as_str());
        let mut i: usize = 0;
        while i < self.labels.len()
            invariant
                *self == *old(self),
                self.wf(),
                self.total() < u32::MAX,
                label@ == whence@,
                i <= self.labels.len(),
                forall|k: int| 0 <= k < i ==> before(self.places()[k], whence@),
            ensures
                i < self.labels.len() ==> before(whence@, self.places()[i as int]),
            decreases self.labels.len() - i,
        {
            let listed = chars_of(self.labels[i].as_str());
            assert(listed@ == self.places()[i as int]);
            match rank(&listed, &label) {
                Rank::Before => {},
                Rank::Same => {
                    let n = self.counts[i];
                    proof {
                        lemma_ascending_distinct(self.places());
                        lemma_counts_of(self.places(), self.counts@);
                        assert(self.places().contains(whence@));
                        lemma_sum_bounds(self.counts@, i as int);
                        lemma_sum_update(self.counts@, i as int, (n + 1) as u32);
                        lemma_counts_update(self.places(), self.counts@, i as int, (n + 1) as u32);
                    }
                    self.counts.set(i, n + 1);
                    assert(self.places() =~= old(self).places());
                    return ;
                },
                Rank::After => {
                    break ;
                },
            }
            i += 1;
        }
        let ghost places = self.places();
        let ghost tallies = self.counts@;
        proof {
            lemma_ascending_distinct(places);
            lemma_counts_of(places, tallies);
            // The place is not listed: it comes after what stands before
            // `i`, and before all that stands from `i` on.
            assert forall|k: int| i <= k < places.len() implies before(whence@, places[k]) by {
                if k > i {
                    lemma_before_transitive(whence@, places[i as int], places[k]);
                }
            }
            assert forall|k: int| 0 <= k < places.len() implies places[k] != whence@ by {
                lemma_before_irreflexive(whence@);
            }
            assert(!places.contains(whence@));
            lemma_counts_insert(places, tallies, i as int, whence@, 1);
            lemma_sum_insert(tallies, i as int, 1);
        }
        self.labels.insert(i, whence);
        self.counts.insert(i, 1);
        proof {
            assert(self.places() =~= places.insert(i as int, whence@));
            assert(ascending(self.places())) by {
                assert forall|a: int, b: int| 0 <= a < b < self.places().len() implies before(
                    self.places()[a],
                    self.places()[b],
                ) by {
                    let a0 = if a < i {
                        a
                    } else {
                        a - 1
                    };
                    let b0 = if b < i {
                        b
                    } else {
                        b - 1
                    };
                    if a != i && b != i {
                        assert(before(places[a0], places[b0]));
                    }
                }
            }
        }
    }
}

} // verus!
