//! The counters of a scan and its findings log. Every recorded match bumps the
//! counter of its kind and appends one finding that carries the new count, so
//! the counters and the log never disagree.

use crate::finding::{findings_view, Finding, FindingView};
use crate::matcher::{found_view, Match, MatchView};
use crate::query::{ConstructKind, TypeQuery};
use vstd::prelude::*;
use vstd::string::StringExecFns;

verus! {

/// The number of constructs counted so far, for each kind.
#[derive(Clone, Copy, Debug, PartialEq, Eq, Structural)]
pub struct CounterSet {
    pub methods: usize,
    pub variables: usize,
}

impl CounterSet {
    /// The count of `kind`.
    pub open spec fn spec_get(&self, kind: ConstructKind) -> usize {
        match kind {
            ConstructKind::Method => self.methods,
            ConstructKind::Variable => self.variables,
        }
    }

    /// The counter set in which nothing has been counted.
    pub fn new() -> (counts: CounterSet)
        ensures
            counts == (CounterSet { methods: 0, variables: 0 }),
    {
        CounterSet { methods: 0, variables: 0 }
    }

    /// The count of `kind`.
    #[verifier::when_used_as_spec(spec_get)]
    pub fn get(&self, kind: ConstructKind) -> (n: usize)
        ensures
            n == self.spec_get(kind),
    {
        match kind {
            ConstructKind::Method => self.methods,
            ConstructKind::Variable => self.variables,
        }
    }

    /// The count of `kind`, as a query of that kind.
    pub fn query(&self, kind: ConstructKind) -> (query: TypeQuery)
        ensures
            query.spec_kind() == kind,
            query.spec_count() == self.spec_get(kind),
    {
        TypeQuery::new(kind, self.get(kind))
    }
}

/// The findings of `kind` in `log`, in log order.
pub open spec fn stream(log: Seq<FindingView>, kind: ConstructKind) -> Seq<FindingView> {
    log.filter(|f: FindingView| f.kind == kind)
}

/// One match on its way into the aggregator: its kind, the identifier and the
/// file it was found in.
pub struct Arrival {
    pub kind: ConstructKind,
    pub identifier: Seq<char>,
    pub file: Seq<char>,
}

/// How many of `arrivals` are of `kind`.
pub open spec fn arrivals_of(arrivals: Seq<Arrival>, kind: ConstructKind) -> nat {
    arrivals.filter(|a: Arrival| a.kind == kind).len()
}

/// The state of an [`Aggregator`]: a count per kind and the findings log.
pub struct Tally {
    pub methods: nat,
    pub variables: nat,
    pub log: Seq<FindingView>,
}

impl Tally {
    /// The state before anything is recorded.
    pub open spec fn empty() -> Tally {
        Tally { methods: 0, variables: 0, log: Seq::empty() }
    }

    /// The count of `kind`.
    pub open spec fn count(self, kind: ConstructKind) -> nat {
        match kind {
            ConstructKind::Method => self.methods,
            ConstructKind::Variable => self.variables,
        }
    }

    /// The state after one match of `kind` is recorded: the counter of `kind`
    /// is one higher and the log ends with a finding that carries the new
    /// count.
    pub open spec fn record(self, kind: ConstructKind, identifier: Seq<char>, file: Seq<char>) -> Tally {
        let finding = FindingView { kind, count: self.count(kind) + 1, file, identifier };
        match kind {
            ConstructKind::Method => Tally {
                methods: self.methods + 1,
                variables: self.variables,
                log: self.log.push(finding),
            },
            ConstructKind::Variable => Tally {
                methods: self.methods,
                variables: self.variables + 1,
                log: self.log.push(finding),
            },
        }
    }

    /// The state after `arrivals` are recorded in the order in which they
    /// come, whatever files they come from.
    pub open spec fn record_each(self, arrivals: Seq<Arrival>) -> Tally
        decreases arrivals.len(),
    {
        if arrivals.len() == 0 {
            self
        } else {
            self.record_each(arrivals.drop_last()).record(
                arrivals.last().kind,
                arrivals.last().identifier,
                arrivals.last().file,
            )
        }
    }

    /// The state after the matches `found` in `file` are recorded, in order.
    pub open spec fn absorb(self, found: Seq<MatchView>, file: Seq<char>) -> Tally
        decreases found.len(),
    {
        if found.len() == 0 {
            self
        } else {
            self.absorb(found.drop_last(), file).record(found.last().kind, found.last().text, file)
        }
    }

    /// Counters and log agree: for each kind the log holds as many findings as
    /// the counter says, and they carry the counts 1, 2, 3, ... in log order.
    pub open spec fn consistent(self) -> bool {
        forall|kind: ConstructKind|
            {
                &&& (#[trigger] stream(self.log, kind)).len() == self.count(kind)
                &&& forall|i: int|
                    0 <= i < stream(self.log, kind).len() ==> (#[trigger] stream(
                        self.log,
                        kind,
                    )[i]).count == i + 1
            }
    }
}

/// After a record the log's stream of the recorded kind has one more entry,
/// the new finding, and the stream of the other kind is unchanged.
pub proof fn lemma_record_streams(
    tally: Tally,
    kind: ConstructKind,
    identifier: Seq<char>,
    file: Seq<char>,
    other: ConstructKind,
)
    ensures
        stream(tally.record(kind, identifier, file).log, other) == if other == kind {
            stream(tally.log, other).push(
                FindingView { kind, count: tally.count(kind) + 1, file, identifier },
            )
        } else {
            stream(tally.log, other)
        },
{
    let finding = FindingView { kind, count: tally.count(kind) + 1, file, identifier };
    let keep = |f: FindingView| f.kind == other;
    tally.log.lemma_filter_push(finding, keep);
    assert(tally.record(kind, identifier, file).log == tally.log.push(finding));
}

/// Recording keeps counters and log in agreement.
pub proof fn lemma_record_consistent(
    tally: Tally,
    kind: ConstructKind,
    identifier: Seq<char>,
    file: Seq<char>,
)
    requires
        tally.consistent(),
    ensures
        tally.record(kind, identifier, file).consistent(),
{
    let after = tally.record(kind, identifier, file);
    assert forall|other: ConstructKind|
        {
            &&& (#[trigger] stream(after.log, other)).len() == after.count(other)
            &&& forall|i: int|
                0 <= i < stream(after.log, other).len() ==> (#[trigger] stream(
                    after.log,
                    other,
                )[i]).count == i + 1
        } by {
        lemma_record_streams(tally, kind, identifier, file, other);
        assert(stream(tally.log, other).len() == tally.count(other));
    }
}

/// Recording a run of matches keeps counters and log in agreement.
pub proof fn lemma_absorb_consistent(tally: Tally, found: Seq<MatchView>, file: Seq<char>)
    requires
        tally.consistent(),
    ensures
        tally.absorb(found, file).consistent(),
    decreases found.len(),
{
    if found.len() > 0 {
        lemma_absorb_consistent(tally, found.drop_last(), file);
        lemma_record_consistent(
            tally.absorb(found.drop_last(), file),
            found.last().kind,
            found.last().text,
            file,
        );
    }
}

/// Recording one run of matches and then another is recording the two runs
/// joined.
pub proof fn lemma_absorb_joined(
    tally: Tally,
    first: Seq<MatchView>,
    second: Seq<MatchView>,
    file: Seq<char>,
)
    ensures
        tally.absorb(first + second, file) == tally.absorb(first, file).absorb(second, file),
    decreases second.len(),
{
    if second.len() == 0 {
        assert(first + second =~= first);
    } else {
        lemma_absorb_joined(tally, first, second.drop_last(), file);
        assert((first + second).drop_last() =~= first + second.drop_last());
        assert((first + second).last() == second.last());
    }
}

/// The counters of a scan and its findings log.
pub struct Aggregator {
    counts: CounterSet,
    log: Vec<Finding>,
}

impl View for Aggregator {
    type V = Tally;

    closed spec fn view(&self) -> Tally {
        Tally {
            methods: self.counts.methods as nat,
            variables: self.counts.variables as nat,
            log: findings_view(self.log@),
        }
    }
}

impl Aggregator {
    /// Counters and log agree.
    pub open spec fn wf(&self) -> bool {
        self@.consistent()
    }

    /// An aggregator that has recorded nothing.
    pub fn new() -> (aggregator: Aggregator)
        ensures
            aggregator@ == Tally::empty(),
            aggregator.wf(),
    {
        let aggregator = Aggregator { counts: CounterSet::new(), log: Vec::new() };
        proof {
            assert(findings_view(aggregator.log@) =~= Seq::<FindingView>::empty());
            assert forall|kind: ConstructKind| (#[trigger] stream(aggregator@.log, kind)).len()
                == 0 by {
                aggregator@.log.lemma_filter_len(|f: FindingView| f.kind == kind);
            }
        }
        aggregator
    }

    /// Records one match of `kind`: bumps the counter of `kind` and appends
    /// the finding, which carries the new count. Returns the new count.
    pub fn record(&mut self, kind: ConstructKind, identifier: &str, file_id: &str) -> (count: usize)
        requires
            old(self).wf(),
        ensures
            final(self).wf(),
            final(self)@ == old(self)@.record(kind, identifier@, file_id@),
            count == final(self)@.count(kind),
            count == old(self)@.count(kind) + 1,
    {
        let ghost before = self@;
        proof {
            self@.log.lemma_filter_len(|f: FindingView| f.kind == kind);
            assert(stream(self@.log, kind).len() == self@.count(kind));
        }
        let count = self.counts.get(kind).wrapping_add(1);
        self.log.push(
            Finding {
                query: TypeQuery::new(kind, count),
                file: String::from_str(file_id),
                identifier: String::from_str(identifier),
            },
        );
        // The log held at least as many findings as the counter said, and its
        // length is still a `usize` after the push: the addition did not wrap.
        assert(before.count(kind) < self.log.len() <= usize::MAX);
        match kind {
            ConstructKind::Method => {
                self.counts.methods = count;
            },
            ConstructKind::Variable => {
                self.counts.variables = count;
            },
        }
        proof {
            assert(self@.log =~= before.record(kind, identifier@, file_id@).log);
            lemma_record_consistent(before, kind, identifier@, file_id@);
        }
        count
    }

    /// Records the matches `found` in the file `file_id`, in order. Returns
    /// how many were recorded.
    pub fn record_all(&mut self, found: &Vec<Match>, file_id: &str) -> (recorded: usize)
        requires
            old(self).wf(),
        ensures
            final(self).wf(),
            final(self)@ == old(self)@.absorb(found_view(found@), file_id@),
            recorded == found@.len(),
    {
        let ghost all = found_view(found@);
        let mut i: usize = 0;
        while i < found.len()
            invariant
                0 <= i <= found.len(),
                all == found_view(found@),
                self.wf(),
                self@ == old(self)@.absorb(all.take(i as int), file_id@),
            decreases found.len() - i,
        {
            let item = &found[i];
            self.record(item.kind, item.text.as_str(), file_id);
            proof {
                assert(all.take(i + 1).drop_last() =~= all.take(i as int));
                assert(all.take(i + 1).last() == item@);
            }
            i += 1;
        }
        proof {
            assert(all.take(found.len() as int) =~= all);
        }
        i
    }

    /// The counters as they stand.
    pub fn snapshot(&self) -> (counts: CounterSet)
        ensures
            counts.methods == self@.methods,
            counts.variables == self@.variables,
            self.wf() ==> forall|kind: ConstructKind|
                counts.spec_get(kind) == (#[trigger] stream(self@.log, kind)).len(),
    {
        assert(self.wf() ==> forall|kind: ConstructKind|
            self.counts.spec_get(kind) == (#[trigger] stream(self@.log, kind)).len()) by {
            if self.wf() {
                assert forall|kind: ConstructKind|
                    self.counts.spec_get(kind) == (#[trigger] stream(self@.log, kind)).len() by {
                    assert(stream(self@.log, kind).len() == self@.count(kind));
                }
            }
        }
        self.counts
    }

    /// The findings recorded so far, oldest first.
    pub fn findings(&self) -> (log: &Vec<Finding>)
        ensures
            findings_view(log@) == self@.log,
    {
        &self.log
    }
}

} // verus!
